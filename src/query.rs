//! How many recent readings a query returns.

use vstd::prelude::*;
use crate::text::{i32_of, parse_i32};

verus! {

/// Readings returned when the query names no usable limit.
pub const DEFAULT_QUERY_LIMIT: i32 = 100;

/// The most readings one query returns.
pub const MAX_QUERY_LIMIT: i32 = 1000;

/// The limit that a query's `limit` parameter asks for: its value when it is
/// an `i32` in decimal, the default otherwise, and never above the cap.
pub open spec fn query_limit(param: Option<Seq<char>>) -> i32 {
    let asked = match param {
        Some(p) => match i32_of(p) {
            Some(v) => v,
            None => DEFAULT_QUERY_LIMIT,
        },
        None => DEFAULT_QUERY_LIMIT,
    };
    if asked < MAX_QUERY_LIMIT {
        asked
    } else {
        MAX_QUERY_LIMIT
    }
}

pub open spec fn opt_view(param: Option<&str>) -> Option<Seq<char>> {
    match param {
        Some(p) => Some(p@),
        None => None,
    }
}

/// The result-count limit for a query, from its optional `limit` parameter.
pub fn effective_limit(param: Option<&str>) -> (r: i32)
    ensures
        r == query_limit(opt_view(param)),
        r <= MAX_QUERY_LIMIT,
        param is None ==> r == DEFAULT_QUERY_LIMIT,
{
    let asked = match param {
        Some(p) => match parse_i32(p) {
            Some(v) => v,
            None => DEFAULT_QUERY_LIMIT,
        },
        None => DEFAULT_QUERY_LIMIT,
    };
    if asked < MAX_QUERY_LIMIT {
        asked
    } else {
        MAX_QUERY_LIMIT
    }
}

} // verus!
