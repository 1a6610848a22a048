//! User reports: who may report what, and how a report is resolved.

use vstd::prelude::*;

use crate::error::Error;
use crate::services::access::reject_self;
use crate::text::{concat2, str_eq};

verus! {

/// Check a new report: nobody reports themselves, and the kind is one of
/// `user`, `article`, `comment`.
pub fn check_report(reporter_did: &str, target_did: &str, kind: &str) -> (res: Result<(), Error>)
    ensures
        reporter_did@ == target_did@ ==> (res matches Err(Error::BadRequest(m)) && m@
            == "cannot report yourself"@),
        reporter_did@ != target_did@ && !(kind@ == "user"@ || kind@ == "article"@ || kind@
            == "comment"@) ==> (res matches Err(Error::BadRequest(m)) && m@
            == "invalid report kind: "@ + kind@),
        reporter_did@ != target_did@ && (kind@ == "user"@ || kind@ == "article"@ || kind@
            == "comment"@) ==> res is Ok,
{
    reject_self(reporter_did, target_did, "cannot report yourself")?;
    if str_eq(kind, "user") || str_eq(kind, "article") || str_eq(kind, "comment") {
        Ok(())
    } else {
        Err(Error::BadRequest(concat2("invalid report kind: ", kind)))
    }
}

/// A report is resolved as `resolved` or `dismissed`.
pub fn check_resolution(status: &str) -> (res: Result<(), Error>)
    ensures
        (status@ == "resolved"@ || status@ == "dismissed"@) ==> res is Ok,
        !(status@ == "resolved"@ || status@ == "dismissed"@) ==> (res matches Err(
            Error::BadRequest(m),
        ) && m@ == "invalid status: "@ + status@),
{
    if str_eq(status, "resolved") || str_eq(status, "dismissed") {
        Ok(())
    } else {
        Err(Error::BadRequest(concat2("invalid status: ", status)))
    }
}

} // verus!
