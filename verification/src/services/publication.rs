//! Publications: member roles, their permissions, slugs, and who may
//! attach or withdraw content.

use vstd::prelude::*;

use crate::error::Error;
use crate::services::access::bad_request;
use crate::text::{chars_of, str_eq};

verus! {

/// Member role. Order matters for permission checks: owner > editor > writer.
#[derive(Debug, Clone, Copy, PartialEq, Eq, Structural)]
pub enum Role {
    Owner,
    Editor,
    Writer,
}

impl Role {
    pub open spec fn name(self) -> Seq<char> {
        match self {
            Role::Owner => "owner"@,
            Role::Editor => "editor"@,
            Role::Writer => "writer"@,
        }
    }

    pub open spec fn of_name(s: Seq<char>) -> Option<Role> {
        if s == "owner"@ {
            Some(Role::Owner)
        } else if s == "editor"@ {
            Some(Role::Editor)
        } else if s == "writer"@ {
            Some(Role::Writer)
        } else {
            None
        }
    }

    /// Rank of the role: writer 1, editor 2, owner 3.
    pub open spec fn rank(self) -> int {
        match self {
            Role::Owner => 3,
            Role::Editor => 2,
            Role::Writer => 1,
        }
    }

    pub fn as_str(&self) -> (r: &'static str)
        ensures
            r@ == self.name(),
    {
        match self {
            Role::Owner => "owner",
            Role::Editor => "editor",
            Role::Writer => "writer",
        }
    }

    pub fn can_manage_members(&self) -> (r: bool)
        ensures
            r == (*self == Role::Owner),
    {
        match self {
            Role::Owner => true,
            _ => false,
        }
    }

    pub fn can_edit_settings(&self) -> (r: bool)
        ensures
            r == (*self == Role::Owner || *self == Role::Editor),
    {
        match self {
            Role::Owner | Role::Editor => true,
            Role::Writer => false,
        }
    }

    pub fn can_publish(&self) -> (r: bool)
        ensures
            r,
    {
        true
    }

    pub fn parse(s: &str) -> (r: Option<Role>)
        ensures
            r == Role::of_name(s@),
    {
        if str_eq(s, "owner") {
            Some(Role::Owner)
        } else if str_eq(s, "editor") {
            Some(Role::Editor)
        } else if str_eq(s, "writer") {
            Some(Role::Writer)
        } else {
            None
        }
    }
}

/// Parsing the name of a role gives the role back.
pub proof fn lemma_role_name_roundtrip(r: Role)
    ensures
        Role::of_name(r.name()) == Some(r),
{
    reveal_strlit("owner");
    reveal_strlit("editor");
    reveal_strlit("writer");
    assert("owner"@.len() == 5 && "editor"@.len() == 6 && "writer"@.len() == 6);
    assert("editor"@[0] == 'e' && "writer"@[0] == 'w');
}

/// Permissions grow with rank: whoever may manage members may edit
/// settings, and whoever may edit settings may publish.
pub proof fn lemma_role_permissions_monotone(a: Role, b: Role)
    ensures
        a.rank() <= b.rank() ==> ((a == Role::Owner) ==> (b == Role::Owner)),
        a.rank() <= b.rank() ==> ((a == Role::Owner || a == Role::Editor) ==> (b == Role::Owner
            || b == Role::Editor)),
        a == Role::Owner ==> (a == Role::Owner || a == Role::Editor),
{
}

/// Whether `allowed` lists `r`.
pub fn role_listed(allowed: &[Role], r: Role) -> (b: bool)
    ensures
        b == allowed@.contains(r),
{
    let mut i: usize = 0;
    while i < allowed.len()
        invariant
            i <= allowed@.len(),
            forall|j: int| 0 <= j < i ==> allowed@[j] != r,
        decreases allowed@.len() - i,
    {
        if allowed[i] == r {
            assert(allowed@[i as int] == r);
            return true;
        }
        i = i + 1;
    }
    false
}

/// The caller's role (if a member) must be one of `allowed`.
pub fn require_role(role: Option<Role>, allowed: &[Role]) -> (res: Result<(), Error>)
    ensures
        (res is Ok) == (role.is_some() && allowed@.contains(role.unwrap())),
        res is Err ==> (res matches Err(Error::BadRequest(m)) && m@
            == "insufficient publication role"@),
{
    match role {
        Some(r) => if role_listed(allowed, r) {
            Ok(())
        } else {
            Err(bad_request("insufficient publication role"))
        },
        None => Err(bad_request("insufficient publication role")),
    }
}

/// A member can be invited with any role but owner.
pub fn check_invited_role(role: Role) -> (res: Result<(), Error>)
    ensures
        (res is Ok) == (role != Role::Owner),
        res is Err ==> (res matches Err(Error::BadRequest(m)) && m@
            == "cannot invite another owner"@),
{
    match role {
        Role::Owner => Err(bad_request("cannot invite another owner")),
        _ => Ok(()),
    }
}

/// An owner cannot remove themselves.
pub fn check_member_removal(caller_did: &str, did: &str) -> (res: Result<(), Error>)
    ensures
        (res is Ok) == (caller_did@ != did@),
        res is Err ==> (res matches Err(Error::BadRequest(m)) && m@
            == "owner cannot remove themselves; transfer ownership first"@),
{
    if str_eq(caller_did, did) {
        Err(bad_request("owner cannot remove themselves; transfer ownership first"))
    } else {
        Ok(())
    }
}

/// Content attached to a publication is an article or a series.
pub fn check_content_kind(kind: &str) -> (res: Result<(), Error>)
    ensures
        (res is Ok) == (kind@ == "article"@ || kind@ == "series"@),
        res is Err ==> (res matches Err(Error::BadRequest(m)) && m@ == "invalid content_kind"@),
{
    if str_eq(kind, "article") || str_eq(kind, "series") {
        Ok(())
    } else {
        Err(bad_request("invalid content_kind"))
    }
}

/// Only the author of existing content may attach it.
pub fn check_content_author(author: Option<&str>, caller_did: &str) -> (res: Result<(), Error>)
    ensures
        (res is Ok) == (author.is_some() && author.unwrap()@ == caller_did@),
        author.is_none() ==> (res matches Err(Error::BadRequest(m)) && m@
            == "content not found"@),
        author.is_some() && author.unwrap()@ != caller_did@ ==> (res matches Err(
            Error::BadRequest(m),
        ) && m@ == "only the content author can attach their content to a publication"@),
{
    match author {
        None => Err(bad_request("content not found")),
        Some(a) => if str_eq(a, caller_did) {
            Ok(())
        } else {
            Err(bad_request("only the content author can attach their content to a publication"))
        },
    }
}

/// Whoever added an entry may withdraw it; owners and editors may remove
/// any entry.
pub fn check_content_removal(added_by: Option<&str>, caller_did: &str, role: Option<Role>) -> (res:
    Result<(), Error>)
    ensures
        (res is Ok) == ((added_by.is_some() && added_by.unwrap()@ == caller_did@) || role
            == Some(Role::Owner) || role == Some(Role::Editor)),
        res is Err ==> (res matches Err(Error::BadRequest(m)) && m@
            == "not authorized to remove this entry"@),
{
    let is_author = match added_by {
        Some(a) => str_eq(a, caller_did),
        None => false,
    };
    let can_curate = match role {
        Some(Role::Owner) | Some(Role::Editor) => true,
        _ => false,
    };
    if !is_author && !can_curate {
        Err(bad_request("not authorized to remove this entry"))
    } else {
        Ok(())
    }
}

/// A character allowed in a publication slug.
pub open spec fn slug_char(c: char) -> bool {
    ('a' <= c && c <= 'z') || ('A' <= c && c <= 'Z') || ('0' <= c && c <= '9') || c == '-' || c
        == '_'
}

/// Validate a publication slug: 1–64 bytes of ASCII letters, digits, `-`, `_`.
pub fn validate_slug(slug: &str) -> (res: Result<(), Error>)
    ensures
        (slug@.len() == 0 || slug.len() > 64) ==> (res matches Err(Error::BadRequest(m)) && m@
            == "slug must be 1-64 chars"@),
        !(slug@.len() == 0 || slug.len() > 64) ==> (if (forall|i: int|
            0 <= i < slug@.len() ==> #[trigger] slug_char(slug@[i])) {
            res is Ok
        } else {
            res matches Err(Error::BadRequest(m)) && m@ == "slug must be [a-z0-9_-]"@
        }),
{
    if slug.is_empty() || slug.len() > 64 {
        return Err(bad_request("slug must be 1-64 chars"));
    }
    let v = chars_of(slug);
    let mut i: usize = 0;
    while i < v.len()
        invariant
            i <= v@.len(),
            v@ == slug@,
            !(slug@.len() == 0 || slug.len() > 64),
            forall|j: int| 0 <= j < i ==> #[trigger] slug_char(v@[j]),
        decreases v@.len() - i,
    {
        let c = v[i];
        let ok = ('a' <= c && c <= 'z') || ('A' <= c && c <= 'Z') || ('0' <= c && c <= '9') || c
            == '-' || c == '_';
        if !ok {
            assert(!slug_char(slug@[i as int]));
            return Err(bad_request("slug must be [a-z0-9_-]"));
        }
        i = i + 1;
    }
    Ok(())
}

/// What a viewer sees of their relation to a publication.
#[derive(Debug, Clone)]
pub struct PublicationViewerState {
    pub role: Option<String>,
    pub is_following: bool,
    pub membership_confirmed: bool,
}

} // verus!
