//! Events: kinds, editing rights, RSVPs and capacity.

use vstd::prelude::*;

use crate::error::Error;
use crate::services::access::{bad_request, require_owner};
use crate::text::{concat3, str_eq};

verus! {

#[derive(Debug, Clone)]
pub struct RsvpInput {
    pub status: Option<String>,
}

/// The kinds an event may have.
pub open spec fn event_kind(k: Seq<char>) -> bool {
    k == "conference"@ || k == "workshop"@ || k == "seminar"@ || k == "meetup"@ || k
        == "hackathon"@
}

/// The kind of a new or edited event must be a known one.
pub fn check_event_kind(kind: &str) -> (res: Result<(), Error>)
    ensures
        event_kind(kind@) ==> res is Ok,
        !event_kind(kind@) ==> (res matches Err(Error::BadRequest(m)) && m@ == "invalid kind: "@
            + kind@ + ". Must be one of: conference, workshop, seminar, meetup, hackathon"@),
{
    if str_eq(kind, "conference") || str_eq(kind, "workshop") || str_eq(kind, "seminar")
        || str_eq(kind, "meetup") || str_eq(kind, "hackathon") {
        Ok(())
    } else {
        Err(
            Error::BadRequest(
                concat3(
                    "invalid kind: ",
                    kind,
                    ". Must be one of: conference, workshop, seminar, meetup, hackathon",
                ),
            ),
        )
    }
}

/// Only the organizer edits an event.
pub fn check_event_editor(owner: Option<&str>, did: &str, id: &str) -> (res: Result<(), Error>)
    ensures
        owner.is_none() ==> (res matches Err(Error::NotFound { entity: e, id: i }) && e@
            == "event"@ && i@ == id@),
        owner.is_some() && owner.unwrap()@ != did@ ==> (res matches Err(
            Error::Forbidden { action: a },
        ) && a@ == "edit event"@),
        owner.is_some() && owner.unwrap()@ == did@ ==> res is Ok,
{
    require_owner(owner, did, "edit event", "event", id)
}

/// An RSVP says `going` or `interested`.
pub fn check_rsvp_status(status: &str) -> (res: Result<(), Error>)
    ensures
        (status@ == "going"@ || status@ == "interested"@) ==> res is Ok,
        !(status@ == "going"@ || status@ == "interested"@) ==> (res matches Err(
            Error::BadRequest(m),
        ) && m@ == "status must be 'going' or 'interested'"@),
{
    if !str_eq(status, "going") && !str_eq(status, "interested") {
        return Err(bad_request("status must be 'going' or 'interested'"));
    }
    Ok(())
}

/// Capacity check of a `going` RSVP: `capacity` is the event's lookup
/// (`None` when the event does not exist, `Some(None)` when unlimited) and
/// `going` counts the other attendees already going.
pub fn check_capacity(capacity: Option<Option<i32>>, going: i64, event_id: &str) -> (res: Result<
    (),
    Error,
>)
    ensures
        capacity.is_none() ==> (res matches Err(Error::NotFound { entity: e, id: i }) && e@
            == "event"@ && i@ == event_id@),
        capacity == Some(None::<i32>) ==> res is Ok,
        (capacity matches Some(Some(max)) && going >= max) ==> (res matches Err(
            Error::BadRequest(m),
        ) && m@ == "event is full"@),
        (capacity matches Some(Some(max)) && going < max) ==> res is Ok,
{
    match capacity {
        None => Err(Error::NotFound { entity: "event", id: event_id.to_owned() }),
        Some(Some(max)) => if going >= max as i64 {
            Err(bad_request("event is full"))
        } else {
            Ok(())
        },
        Some(None) => Ok(()),
    }
}

} // verus!
