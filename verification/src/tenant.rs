//! Tenant identification: the scoping key under which a community's
//! endpoint aliases are stored.  A message from a community is scoped by
//! `s` followed by the community's numeric id; an ungrouped (direct)
//! context falls under the sentinel `default` tenant.

use vstd::prelude::*;
use vstd::string::StringExecFns;

verus! {

/// The decimal digit character of a value below ten.
pub open spec fn digit_char(d: nat) -> char {
    if d == 0 {
        '0'
    } else if d == 1 {
        '1'
    } else if d == 2 {
        '2'
    } else if d == 3 {
        '3'
    } else if d == 4 {
        '4'
    } else if d == 5 {
        '5'
    } else if d == 6 {
        '6'
    } else if d == 7 {
        '7'
    } else if d == 8 {
        '8'
    } else {
        '9'
    }
}

/// The decimal form of a number, most significant digit first.
pub open spec fn spec_digits(n: nat) -> Seq<char>
    decreases n,
{
    if n < 10 {
        seq![digit_char(n)]
    } else {
        spec_digits(n / 10).push(digit_char(n % 10))
    }
}

/// The tenant id a message is scoped by: `s` and the community's numeric
/// id, or the sentinel `default` for ungrouped contexts.
pub open spec fn spec_tenant_id(guild: Option<u64>) -> Seq<char> {
    match guild {
        Some(g) => "s"@ + spec_digits(g as nat),
        None => "default"@,
    }
}

fn digit_str(d: u64) -> (r: &'static str)
    requires
        d < 10,
    ensures
        r@ == seq![digit_char(d as nat)],
{
    proof {
        reveal_strlit("0");
        reveal_strlit("1");
        reveal_strlit("2");
        reveal_strlit("3");
        reveal_strlit("4");
        reveal_strlit("5");
        reveal_strlit("6");
        reveal_strlit("7");
        reveal_strlit("8");
        reveal_strlit("9");
    }
    if d == 0 {
        "0"
    } else if d == 1 {
        "1"
    } else if d == 2 {
        "2"
    } else if d == 3 {
        "3"
    } else if d == 4 {
        "4"
    } else if d == 5 {
        "5"
    } else if d == 6 {
        "6"
    } else if d == 7 {
        "7"
    } else if d == 8 {
        "8"
    } else {
        "9"
    }
}

fn push_digits(out: &mut String, n: u64)
    ensures
        final(out)@ == old(out)@ + spec_digits(n as nat),
    decreases n,
{
    if n < 10 {
        out.append(digit_str(n));
        proof {
            assert(out@ =~= old(out)@ + spec_digits(n as nat));
        }
    } else {
        push_digits(out, n / 10);
        out.append(digit_str(n % 10));
        proof {
            assert(out@ =~= old(out)@ + spec_digits(n as nat));
        }
    }
}

/// The tenant id of an inbound message: `s` and the community's numeric id,
/// or the sentinel `default` for ungrouped contexts.
pub fn tenant_id(guild: Option<u64>) -> (r: String)
    ensures
        r@ == spec_tenant_id(guild),
{
    match guild {
        Some(g) => {
            let mut out = "s".to_owned();
            push_digits(&mut out, g);
            out
        },
        None => "default".to_owned(),
    }
}

} // verus!
