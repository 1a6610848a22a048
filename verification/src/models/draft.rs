//! Draft creation and update requests.

use vstd::prelude::*;

use super::tag::ArticlePrereq;
use crate::content::ContentFormat;

verus! {

#[derive(Debug, Clone)]
pub struct SaveDraft {
    pub title: String,
    pub description: Option<String>,
    pub content: String,
    pub content_format: ContentFormat,
    pub lang: Option<String>,
    pub license: Option<String>,
    pub tags: Vec<String>,
    pub prereqs: Vec<ArticlePrereq>,
}

/// A partial update of a draft: each field set is written.
#[derive(Debug, Clone)]
pub struct UpdateDraft {
    pub id: String,
    pub title: Option<String>,
    pub description: Option<String>,
    pub content: Option<String>,
    pub content_format: Option<ContentFormat>,
    pub lang: Option<String>,
    pub license: Option<String>,
    pub tags: Option<Vec<String>>,
    pub prereqs: Option<Vec<ArticlePrereq>>,
}

} // verus!
