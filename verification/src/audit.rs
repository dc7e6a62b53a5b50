//! Audit log queries.

use vstd::prelude::*;

verus! {

/// Query of the audit log.
#[derive(Debug)]
pub struct AuditListQuery {
    pub limit: i64,
    pub resource: Option<String>,
}

/// Number of events asked for when the query does not say.
pub fn default_limit() -> (r: i64)
    ensures
        r == 100,
{
    100
}

/// Number of events read for a requested limit: between one and five hundred.
pub fn effective_limit(limit: i64) -> (r: i64)
    ensures
        r == if limit < 1 {
            1
        } else if limit > 500 {
            500
        } else {
            limit
        },
{
    if limit < 1 {
        1
    } else if limit > 500 {
        500
    } else {
        limit
    }
}

} // verus!
