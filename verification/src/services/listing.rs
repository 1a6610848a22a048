//! Job and position listings: kinds and editing rights.

use vstd::prelude::*;

use crate::error::Error;
use crate::services::access::require_owner;
use crate::text::{concat3, str_eq};

verus! {

/// The kinds a listing may have.
pub open spec fn listing_kind(k: Seq<char>) -> bool {
    k == "phd"@ || k == "masters"@ || k == "ra"@ || k == "postdoc"@ || k == "intern"@ || k
        == "faculty"@ || k == "other"@
}

/// The kind of a new or edited listing must be a known one.
pub fn check_listing_kind(kind: &str) -> (res: Result<(), Error>)
    ensures
        listing_kind(kind@) ==> res is Ok,
        !listing_kind(kind@) ==> (res matches Err(Error::BadRequest(m)) && m@ == "invalid kind: "@
            + kind@ + ". Must be one of: phd, masters, ra, postdoc, intern, faculty, other"@),
{
    if str_eq(kind, "phd") || str_eq(kind, "masters") || str_eq(kind, "ra") || str_eq(
        kind,
        "postdoc",
    ) || str_eq(kind, "intern") || str_eq(kind, "faculty") || str_eq(kind, "other") {
        Ok(())
    } else {
        Err(
            Error::BadRequest(
                concat3(
                    "invalid kind: ",
                    kind,
                    ". Must be one of: phd, masters, ra, postdoc, intern, faculty, other",
                ),
            ),
        )
    }
}

/// Only the poster edits a listing.
pub fn check_listing_editor(owner: Option<&str>, did: &str, id: &str) -> (res: Result<(), Error>)
    ensures
        owner.is_none() ==> (res matches Err(Error::NotFound { entity: e, id: i }) && e@
            == "listing"@ && i@ == id@),
        owner.is_some() && owner.unwrap()@ != did@ ==> (res matches Err(
            Error::Forbidden { action: a },
        ) && a@ == "edit listing"@),
        owner.is_some() && owner.unwrap()@ == did@ ==> res is Ok,
{
    require_owner(owner, did, "edit listing", "listing", id)
}

} // verus!
