//! Sessions: who a session belongs to and the personal data server it
//! talks to.

use vstd::prelude::*;

verus! {

#[derive(Debug, Clone)]
pub struct SessionInfo {
    pub did: String,
    pub handle: String,
    pub display_name: Option<String>,
    pub avatar_url: Option<String>,
}

#[derive(Debug, Clone)]
pub struct PdsSession {
    pub did: String,
    pub pds_url: String,
    pub access_jwt: String,
}

/// What a new session is stored with.
#[derive(Debug, Clone)]
pub struct CreateSessionInput<'a> {
    pub token: &'a str,
    pub did: &'a str,
    pub handle: &'a str,
    pub display_name: Option<&'a str>,
    pub avatar: Option<&'a str>,
    pub pds_url: &'a str,
    pub access_jwt: &'a str,
    pub refresh_jwt: Option<&'a str>,
}

} // verus!
