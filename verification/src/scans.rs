//! Scan history queries.

use vstd::prelude::*;

verus! {

/// Query of the scan history.
#[derive(Debug)]
pub struct ListScansQuery {
    pub limit: i64,
}

/// Number of scans asked for when the query does not say.
pub fn default_limit() -> (r: i64)
    ensures
        r == 50,
{
    50
}

/// Number of scans read for a requested limit: between one and two hundred.
pub fn effective_limit(limit: i64) -> (r: i64)
    ensures
        r == if limit < 1 {
            1
        } else if limit > 200 {
            200
        } else {
            limit
        },
{
    if limit < 1 {
        1
    } else if limit > 200 {
        200
    } else {
        limit
    }
}

} // verus!
