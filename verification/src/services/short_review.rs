//! Short reviews of books and series: body and visibility validation.

use vstd::prelude::*;

use crate::error::Error;
use crate::services::access::bad_request;
use crate::text::{chars_of, concat2, str_eq, trim, trim_bounds};

verus! {

#[derive(Debug, Clone)]
pub struct CreateBookShortReview {
    pub body: String,
    pub edition_id: Option<String>,
    pub lang: Option<String>,
    pub visibility: Option<String>,
}

#[derive(Debug, Clone)]
pub struct CreateSeriesShortReview {
    pub body: String,
    pub lang: Option<String>,
    pub visibility: Option<String>,
}

/// A short review body is non-blank and at most 500 characters.
pub fn validate_body(b: &str) -> (res: Result<(), Error>)
    ensures
        trim(b@).len() == 0 ==> (res matches Err(Error::BadRequest(m)) && m@
            == "short review body cannot be empty"@),
        trim(b@).len() > 0 && b@.len() > 500 ==> (res matches Err(Error::BadRequest(m)) && m@
            == "short review body exceeds 500 characters"@),
        trim(b@).len() > 0 && b@.len() <= 500 ==> res is Ok,
{
    let v = chars_of(b);
    let (x, y) = trim_bounds(v.as_slice(), 0, v.len());
    assert(v@.subrange(0, v@.len() as int) =~= v@);
    if x == y {
        return Err(bad_request("short review body cannot be empty"));
    }
    if v.len() > 500 {
        return Err(bad_request("short review body exceeds 500 characters"));
    }
    Ok(())
}

/// The visibility a short review is stored with (`public` by default).
pub open spec fn visibility_of(v: Option<Seq<char>>) -> Option<Seq<char>> {
    let s = match v {
        Some(s) => s,
        None => "public"@,
    };
    if s == "public"@ || s == "followers"@ || s == "private"@ {
        Some(s)
    } else {
        None
    }
}

/// Normalize the requested visibility; unknown values are rejected.
pub fn normalize_visibility(v: Option<&str>) -> (res: Result<&'static str, Error>)
    ensures
        match visibility_of(match v {
            Some(s) => Some(s@),
            None => None,
        }) {
            Some(n) => res matches Ok(r) && r@ == n,
            None => v.is_some() && (res matches Err(Error::BadRequest(m)) && m@
                == "unknown visibility: "@ + v.unwrap()@),
        },
{
    let s = match v {
        Some(s) => s,
        None => "public",
    };
    if str_eq(s, "public") {
        Ok("public")
    } else if str_eq(s, "followers") {
        Ok("followers")
    } else if str_eq(s, "private") {
        Ok("private")
    } else {
        proof {
            if v.is_none() {
                assert(s@ == "public"@);
            }
        }
        Err(Error::BadRequest(concat2("unknown visibility: ", s)))
    }
}

} // verus!
