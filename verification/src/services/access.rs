//! Ownership and existence checks shared by the services.

use vstd::prelude::*;

use crate::error::Error;
use crate::text::str_eq;

verus! {

/// Check that `did` owns a record whose owner lookup gave `owner`.
pub fn require_owner(
    owner: Option<&str>,
    did: &str,
    action: &'static str,
    entity: &'static str,
    id: &str,
) -> (r: Result<(), Error>)
    ensures
        match owner {
            None => r matches Err(Error::NotFound { entity: e, id: i }) && e@ == entity@ && i@
                == id@,
            Some(o) => if o@ != did@ {
                r matches Err(Error::Forbidden { action: a }) && a@ == action@
            } else {
                r is Ok
            },
        },
{
    match owner {
        None => Err(Error::NotFound { entity, id: id.to_owned() }),
        Some(o) => if !str_eq(o, did) {
            Err(Error::Forbidden { action })
        } else {
            Ok(())
        },
    }
}

/// A `BadRequest` error carrying `msg`.
pub fn bad_request(msg: &str) -> (e: Error)
    ensures
        e matches Error::BadRequest(m) && m@ == msg@,
{
    Error::BadRequest(msg.to_owned())
}

/// Reject an action a user would take on themselves (blocking, following
/// or reporting oneself).
pub fn reject_self(did: &str, other_did: &str, msg: &str) -> (r: Result<(), Error>)
    ensures
        did@ == other_did@ ==> (r matches Err(Error::BadRequest(m)) && m@ == msg@),
        did@ != other_did@ ==> r is Ok,
{
    if str_eq(did, other_did) {
        Err(bad_request(msg))
    } else {
        Ok(())
    }
}


/// A write that touched no row means the record is unknown.
pub fn require_found(rows_affected: u64, entity: &'static str, id: &str) -> (r: Result<(), Error>)
    ensures
        rows_affected == 0 ==> (r matches Err(Error::NotFound { entity: e, id: i }) && e@ == entity@
            && i@ == id@),
        rows_affected != 0 ==> r is Ok,
{
    if rows_affected == 0 {
        Err(Error::NotFound { entity, id: id.to_owned() })
    } else {
        Ok(())
    }
}

/// Whether an action by `actor_did` notifies `recipient_did`: nobody is
/// notified of their own actions.
pub fn notifies(actor_did: &str, recipient_did: &str) -> (r: bool)
    ensures
        r == (actor_did@ != recipient_did@),
{
    !str_eq(actor_did, recipient_did)
}

/// Whether a viewer may read some content, as far as the content's own
/// fields decide: unrestricted content is open to everyone; restricted
/// content is closed to anonymous viewers and open to its owner. `None`:
/// a per-article grant or a membership with the owner decides.
pub fn content_access(owner_did: &str, restricted: bool, viewer_did: Option<&str>) -> (r: Option<bool>)
    ensures
        !restricted ==> r == Some(true),
        restricted && viewer_did.is_none() ==> r == Some(false),
        restricted && viewer_did.is_some() && viewer_did.unwrap()@ == owner_did@ ==> r == Some(true),
        restricted && viewer_did.is_some() && viewer_did.unwrap()@ != owner_did@ ==> r.is_none(),
{
    if !restricted {
        return Some(true);
    }
    match viewer_did {
        None => Some(false),
        Some(v) => if str_eq(v, owner_did) {
            Some(true)
        } else {
            None
        },
    }
}

/// The access decision once the grant lookup answered `granted`.
pub fn content_access_with_grant(owner_did: &str, restricted: bool, viewer_did: Option<&str>, granted: bool) -> (r: bool)
    ensures
        r == (!restricted || (viewer_did.is_some() && (viewer_did.unwrap()@ == owner_did@ || granted))),
{
    match content_access(owner_did, restricted, viewer_did) {
        Some(b) => b,
        None => granted,
    }
}
} // verus!
