//! Inline wiki-search pipeline: parse bracketed queries out of chat text,
//! resolve each query's endpoint through a per-tenant alias table, drive a
//! three-round fetch against the endpoint, extract title/summary/thumbnail
//! from the response bodies, and assemble an ordered list of result cards.

pub mod assemble;
pub mod card;
pub mod extract;
pub mod pipeline;
pub mod query;
pub mod resolve;
pub mod store;
pub mod strutil;
pub mod tenant;
