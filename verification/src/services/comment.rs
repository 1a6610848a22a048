//! Comments: threading checks and vote values.

use vstd::prelude::*;

use crate::error::Error;
use crate::text::str_eq;

verus! {

/// A viewer's vote on one comment.
#[derive(Debug, Clone)]
pub struct MyCommentVote {
    pub comment_id: String,
    pub value: i32,
}

/// A reply's parent must exist and belong to the same content; `parent_uri`
/// is the content the parent comment belongs to, if it exists.
pub fn check_parent_comment(parent_uri: Option<&str>, content_uri: &str, parent_id: &str) -> (res:
    Result<(), Error>)
    ensures
        parent_uri.is_none() ==> (res matches Err(Error::NotFound { entity: e, id: i }) && e@
            == "parent comment"@ && i@ == parent_id@),
        parent_uri.is_some() && parent_uri.unwrap()@ == content_uri@ ==> res is Ok,
        parent_uri.is_some() && parent_uri.unwrap()@ != content_uri@ ==> (res matches Err(
            Error::Conflict { message: m },
        ) && m@ == "parent comment belongs to different content"@),
{
    match parent_uri {
        Some(uri) => if str_eq(uri, content_uri) {
            Ok(())
        } else {
            Err(Error::Conflict { message: "parent comment belongs to different content".to_owned() })
        },
        None => Err(Error::NotFound { entity: "parent comment", id: parent_id.to_owned() }),
    }
}

/// A comment vote is clamped to -1..=1; 0 removes the vote.
pub fn clamp_vote(value: i32) -> (r: i32)
    ensures
        r == (if value < -1 {
            -1i32
        } else if value > 1 {
            1i32
        } else {
            value
        }),
{
    if value < -1 {
        -1
    } else if value > 1 {
        1
    } else {
        value
    }
}

} // verus!
