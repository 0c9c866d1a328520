//! The answers the HTTP server gives that do not depend on stored data.

use vstd::prelude::*;

verus! {

broadcast use vstd::string::group_string_axioms;

/// An HTTP status with a plain-text body.
pub struct Reply {
    pub status: u16,
    pub body: &'static str,
}

/// The status a submitted payment is answered with once it is queued:
/// 202 Accepted.
pub fn payment_queued_status() -> (status: u16)
    ensures
        status == 202,
{
    202
}

/// The answer to a purge of all stored payments: 200 `Payments purged` when
/// the deletion succeeded, 500 `Failed to purge payments` otherwise.
pub fn purge_reply(purged: bool) -> (r: Reply)
    ensures
        purged ==> r.status == 200 && r.body@ == "Payments purged"@,
        !purged ==> r.status == 500 && r.body@ == "Failed to purge payments"@,
{
    if purged {
        Reply { status: 200, body: "Payments purged" }
    } else {
        Reply { status: 500, body: "Failed to purge payments" }
    }
}

/// The answer to a summary request when the stored payments cannot be read:
/// 500 `Failed to query the database`.
pub fn summary_unavailable_reply() -> (r: Reply)
    ensures
        r.status == 500,
        r.body@ == "Failed to query the database"@,
{
    Reply { status: 500, body: "Failed to query the database" }
}

} // verus!
