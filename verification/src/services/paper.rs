//! Papers: their creation requests, versions and credited authors.

use std::collections::HashMap;

use vstd::prelude::*;

verus! {

#[derive(Debug, Clone)]
pub struct PaperAuthor {
    pub author_id: String,
    pub name: String,
    pub orcid: Option<String>,
    pub affiliation: Option<String>,
    pub position: i16,
    pub role: String,
}

#[derive(Debug, Clone)]
pub struct CreatePaper {
    pub title: HashMap<String, String>,
    pub abstract_: Option<HashMap<String, String>>,
    pub authors: Vec<String>,
    pub venue: Option<String>,
    pub venue_kind: Option<String>,
    pub year: Option<i16>,
    pub doi: Option<String>,
    pub arxiv_id: Option<String>,
    pub bibtex_key: Option<String>,
    /// Whether the paper was accepted; `true` unless the request says
    /// otherwise.
    pub accepted: bool,
}

/// A paper is taken as accepted unless the request says otherwise.
pub fn default_true() -> (r: bool)
    ensures
        r,
{
    true
}

#[derive(Debug, Clone)]
pub struct CreateVersion {
    pub kind: String,
    pub url: Option<String>,
    pub article_uri: Option<String>,
    pub year: Option<i16>,
    pub label: Option<String>,
    pub sort_order: Option<i16>,
}

} // verus!
