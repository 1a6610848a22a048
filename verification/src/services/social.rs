//! Follows and profile records.

use std::collections::HashMap;

use vstd::prelude::*;

use crate::error::Error;
use crate::services::access::reject_self;

verus! {

#[derive(Debug, Clone)]
pub struct FollowedUser {
    pub follows_did: String,
    pub handle: Option<String>,
    pub display_name: Option<String>,
    pub avatar_url: Option<String>,
    pub has_update: bool,
}

#[derive(Debug, Clone)]
pub struct FollowEntry {
    pub did: String,
    pub handle: Option<String>,
    pub display_name: Option<String>,
    pub avatar_url: Option<String>,
}

/// Contact links of a profile.
#[derive(Debug, Clone)]
pub struct Contacts {
    pub website: Option<String>,
    pub email: Option<String>,
    pub telegram: Option<String>,
    pub matrix: Option<String>,
    pub github: Option<String>,
    pub codeberg: Option<String>,
    /// Both a full URL (for the hyperlink) and a username (for display).
    pub tangled: Option<LinkedHandle>,
    pub youtube: Option<String>,
    pub bilibili: Option<LinkedHandle>,
    /// Free-form extra links with user-supplied labels.
    pub custom: Vec<CustomLink>,
}

#[derive(Debug, Clone)]
pub struct CustomLink {
    pub label: String,
    pub url: String,
}

#[derive(Debug, Clone)]
pub struct LinkedHandle {
    pub url: String,
    pub username: String,
}

#[derive(Debug, Clone)]
pub struct EducationEntry {
    pub degree: String,
    pub school: String,
    pub department: Option<String>,
    pub major: Option<String>,
    pub start_date: Option<String>,
    pub end_date: Option<String>,
    /// true = currently enrolled / in progress
    pub current: bool,
    /// Locale → translated text fields (school, department, major).
    pub translations: HashMap<String, EducationTranslation>,
}

#[derive(Debug, Clone)]
pub struct EducationTranslation {
    pub school: Option<String>,
    pub department: Option<String>,
    pub major: Option<String>,
}

/// A text in several languages, keyed by locale.
pub type L = HashMap<String, String>;

#[derive(Debug, Clone)]
pub struct ProjectEntry {
    pub title: L,
    pub description: L,
    pub url: Option<String>,
    pub status: String,
}

#[derive(Debug, Clone)]
pub struct TeachingEntry {
    pub course_name: L,
    pub role: L,
    pub institution: L,
    pub year: i32,
    pub description: Option<L>,
}

/// Default status of a project entry.
pub fn default_active() -> (r: String)
    ensures
        r@ == "active"@,
{
    "active".to_owned()
}

/// A user cannot follow themselves.
pub fn check_follow(did: &str, follows_did: &str) -> (res: Result<(), Error>)
    ensures
        did@ == follows_did@ ==> (res matches Err(Error::BadRequest(m)) && m@
            == "cannot follow yourself"@),
        did@ != follows_did@ ==> res is Ok,
{
    reject_self(did, follows_did, "cannot follow yourself")
}

/// A user cannot block themselves.
pub fn check_block(did: &str, blocked_did: &str) -> (res: Result<(), Error>)
    ensures
        did@ == blocked_did@ ==> (res matches Err(Error::BadRequest(m)) && m@
            == "cannot block yourself"@),
        did@ != blocked_did@ ==> res is Ok,
{
    reject_self(did, blocked_did, "cannot block yourself")
}

/// A publication listed on a profile.
#[derive(Debug, Clone)]
pub struct PublicationEntry {
    pub title: L,
    pub authors: Vec<String>,
    pub venue: L,
    pub year: i32,
    pub url: Option<String>,
    pub doi: Option<String>,
    pub abstract_text: Option<L>,
}

/// A user's public profile with their content counts.
#[derive(Debug, Clone)]
pub struct ProfileResponse {
    pub did: String,
    pub handle: Option<String>,
    pub display_name: Option<String>,
    pub avatar_url: Option<String>,
    pub banner_url: Option<String>,
    pub bio: String,
    pub reputation: i32,
    pub article_count: i64,
    pub series_count: i64,
    pub contacts: Contacts,
    pub email: Option<String>,
    pub education: Vec<EducationEntry>,
    pub publications: Vec<PublicationEntry>,
    pub projects: Vec<ProjectEntry>,
    pub teaching: Vec<TeachingEntry>,
    pub affiliation: Option<String>,
    pub credentials_verified: bool,
}

/// A stored profile as read, its JSON columns already decoded (a column
/// that does not decode reads as empty).
#[derive(Debug, Clone)]
pub struct ProfileRow {
    pub handle: Option<String>,
    pub display_name: Option<String>,
    pub avatar_url: Option<String>,
    pub banner_url: Option<String>,
    pub bio: String,
    pub reputation: i32,
    pub contacts: Contacts,
    pub email: Option<String>,
    pub education: Vec<EducationEntry>,
    pub publications: Vec<PublicationEntry>,
    pub projects: Vec<ProjectEntry>,
    pub teaching: Vec<TeachingEntry>,
    pub affiliation: Option<String>,
    pub credentials_verified: Option<bool>,
    pub article_count: i64,
    pub series_count: i64,
}

/// Contacts with no link set.
pub open spec fn no_contacts(c: Contacts) -> bool {
    &&& c.website.is_none()
    &&& c.email.is_none()
    &&& c.telegram.is_none()
    &&& c.matrix.is_none()
    &&& c.github.is_none()
    &&& c.codeberg.is_none()
    &&& c.tangled.is_none()
    &&& c.youtube.is_none()
    &&& c.bilibili.is_none()
    &&& c.custom@.len() == 0
}

impl Default for Contacts {
    fn default() -> (r: Contacts)
        ensures
            no_contacts(r),
    {
        Contacts {
            website: None,
            email: None,
            telegram: None,
            matrix: None,
            github: None,
            codeberg: None,
            tangled: None,
            youtube: None,
            bilibili: None,
            custom: Vec::new(),
        }
    }
}

/// The profile of `did` from its stored row; a DID without a stored
/// profile gets an empty one (no names or links, empty bio, zero
/// reputation and counts, credentials not verified). Unset verification
/// reads as not verified.
pub fn profile_response(did: &str, row: Option<ProfileRow>) -> (r: ProfileResponse)
    ensures
        r.did@ == did@,
        match row {
            Some(w) => {
                &&& r.handle == w.handle
                &&& r.display_name == w.display_name
                &&& r.avatar_url == w.avatar_url
                &&& r.banner_url == w.banner_url
                &&& r.bio == w.bio
                &&& r.reputation == w.reputation
                &&& r.article_count == w.article_count
                &&& r.series_count == w.series_count
                &&& r.contacts == w.contacts
                &&& r.email == w.email
                &&& r.education == w.education
                &&& r.publications == w.publications
                &&& r.projects == w.projects
                &&& r.teaching == w.teaching
                &&& r.affiliation == w.affiliation
                &&& r.credentials_verified == (w.credentials_verified == Some(true))
            },
            None => {
                &&& r.handle.is_none()
                &&& r.display_name.is_none()
                &&& r.avatar_url.is_none()
                &&& r.banner_url.is_none()
                &&& r.bio@.len() == 0
                &&& r.reputation == 0
                &&& r.article_count == 0
                &&& r.series_count == 0
                &&& no_contacts(r.contacts)
                &&& r.email.is_none()
                &&& r.education@.len() == 0
                &&& r.publications@.len() == 0
                &&& r.projects@.len() == 0
                &&& r.teaching@.len() == 0
                &&& r.affiliation.is_none()
                &&& !r.credentials_verified
            },
        },
{
    match row {
        Some(w) => ProfileResponse {
            did: did.to_owned(),
            handle: w.handle,
            display_name: w.display_name,
            avatar_url: w.avatar_url,
            banner_url: w.banner_url,
            bio: w.bio,
            reputation: w.reputation,
            article_count: w.article_count,
            series_count: w.series_count,
            contacts: w.contacts,
            email: w.email,
            education: w.education,
            publications: w.publications,
            projects: w.projects,
            teaching: w.teaching,
            affiliation: w.affiliation,
            credentials_verified: match w.credentials_verified {
                Some(b) => b,
                None => false,
            },
        },
        None => ProfileResponse {
            did: did.to_owned(),
            handle: None,
            display_name: None,
            avatar_url: None,
            banner_url: None,
            bio: String::new(),
            reputation: 0,
            article_count: 0,
            series_count: 0,
            contacts: Contacts::default(),
            email: None,
            education: Vec::new(),
            publications: Vec::new(),
            projects: Vec::new(),
            teaching: Vec::new(),
            affiliation: None,
            credentials_verified: false,
        },
    }
}

} // verus!
