//! Reading the answers of an InfluxDB server.
use vstd::prelude::*;
use crate::collectors::{unprefixed, without_prefixed};
use crate::text::{chars_of, concat, string_of_range, trim, trim_bounds, views};

verus! {

/// Buckets shown: internal buckets, whose names begin with `_`, are left out.
pub open spec fn shown_buckets(names: Seq<Seq<char>>) -> Seq<Seq<char>> {
    unprefixed(names, "_"@)
}

/// The buckets to show, from all the bucket names of the server.
pub fn visible_buckets(names: &Vec<String>) -> (r: Vec<String>)
    ensures
        views(r@) == shown_buckets(views(names@)),
{
    without_prefixed(names, "_")
}

/// The address of an API path on the server: the base address followed by the path.
pub fn endpoint(base: &str, path: &str) -> (r: String)
    ensures
        r@ == base@ + path@,
{
    concat(base, path)
}

/// The `Authorization` header for a token: `Token ` and the token without
/// surrounding whitespace (nothing after `Token ` when there is no token).
pub open spec fn authorization(token: Option<Seq<char>>) -> Seq<char> {
    "Token "@ + trim(
        match token {
            Some(t) => t,
            None => Seq::empty(),
        },
    )
}

/// The `Authorization` header value for the configured token.
pub fn authorization_header(token: &Option<String>) -> (r: String)
    ensures
        r@ == authorization(
            match token {
                Some(t) => Some(t@),
                None => None,
            },
        ),
{
    let raw = match token {
        Some(t) => chars_of(t.as_str()),
        None => Vec::new(),
    };
    let (lo, hi) = trim_bounds(&raw, 0, raw.len());
    assert(raw@.subrange(0, raw@.len() as int) =~= raw@);
    let t = string_of_range(&raw, lo, hi);
    concat("Token ", t.as_str())
}

} // verus!
