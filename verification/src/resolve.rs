//! Endpoint resolution: pick the endpoint a query request should reach, with
//! the tenant's `default` record as fallback for a missing or unknown alias,
//! and a hard-coded global endpoint as last resort for a tenant that was
//! never initialized.  Resolution never fails: it degrades to a best-effort
//! endpoint.

use vstd::prelude::*;
use crate::store::{spec_get, EndpointStore, SpecRecord};

verus! {

/// The endpoint used when even the tenant's `default` record is missing.
pub open spec fn spec_global_default() -> Seq<char> {
    "https://en.wikipedia.org"@
}

/// Which endpoint a request with alias `alias` resolves to against table
/// `s` for tenant `t`: the alias's record when present, else the tenant's
/// `default` record, else the global default.
pub open spec fn spec_resolve(s: Seq<SpecRecord>, t: Seq<char>, alias: Option<Seq<char>>) -> Seq<
    char,
> {
    let a = match alias {
        Some(x) => x,
        None => "default"@,
    };
    match spec_get(s, t, a) {
        Some(e) => e,
        None => match spec_get(s, t, "default"@) {
            Some(e) => e,
            None => spec_global_default(),
        },
    }
}

/// Resolve the endpoint for one request.
pub fn resolve(store: &EndpointStore, tenant: &str, alias: &Option<String>) -> (r: String)
    ensures
        r@ == spec_resolve(store@, tenant@, alias.deep_view()),
{
    let first = match alias {
        Some(a) => store.get(tenant, a.as_str()),
        None => store.get(tenant, "default"),
    };
    match first {
        Some(e) => e,
        None => match store.get(tenant, "default") {
            Some(e) => e,
            None => "https://en.wikipedia.org".to_owned(),
        },
    }
}

} // verus!
