//! Flat request and row records keyed by a single AT URI, with their own
//! prerequisite strength and string-typed content formats.

use std::collections::HashMap;

use vstd::prelude::*;

verus! {

#[derive(Debug, Clone)]
pub struct CreateTag {
    pub id: String,
    pub name: String,
    pub names: Option<HashMap<String, String>>,
    pub description: Option<String>,
}

/// Prerequisite strength.
#[derive(Debug, Clone, Copy, PartialEq, Eq, Structural)]
pub enum PrereqType {
    Required,
    Recommended,
    Suggested,
}

impl PrereqType {
    pub open spec fn name(self) -> Seq<char> {
        match self {
            PrereqType::Required => "required"@,
            PrereqType::Recommended => "recommended"@,
            PrereqType::Suggested => "suggested"@,
        }
    }

    pub fn as_str(&self) -> (r: &'static str)
        ensures
            r@ == self.name(),
    {
        match self {
            PrereqType::Required => "required",
            PrereqType::Recommended => "recommended",
            PrereqType::Suggested => "suggested",
        }
    }
}

#[derive(Debug, Clone)]
pub struct CreateArticle {
    pub title: String,
    pub description: Option<String>,
    pub content: String,
    pub content_format: String,
    pub lang: Option<String>,
    pub license: Option<String>,
    pub translation_of: Option<String>,
    pub tags: Vec<String>,
    pub prereqs: Vec<ArticlePrereq>,
}

#[derive(Debug, Clone)]
pub struct ArticlePrereq {
    pub tag_id: String,
    pub prereq_type: PrereqType,
}

#[derive(Debug, Clone)]
pub struct SaveDraft {
    pub title: String,
    pub description: Option<String>,
    pub content: String,
    pub content_format: String,
    pub lang: Option<String>,
    pub license: Option<String>,
    pub tags: Vec<String>,
    pub prereqs: Vec<ArticlePrereq>,
}

#[derive(Debug, Clone)]
pub struct UpdateDraft {
    pub id: String,
    pub title: Option<String>,
    pub description: Option<String>,
    pub content: Option<String>,
    pub content_format: Option<String>,
    pub lang: Option<String>,
    pub license: Option<String>,
    pub tags: Option<Vec<String>>,
    pub prereqs: Option<Vec<ArticlePrereq>>,
}

#[derive(Debug, Clone)]
pub struct Vote {
    pub at_uri: String,
    pub target_uri: String,
    pub did: String,
    pub value: i32,
}

#[derive(Debug, Clone)]
pub struct Fork {
    pub fork_uri: String,
    pub source_uri: String,
    pub forked_uri: String,
    pub pijul_patch_hash: Option<String>,
    pub vote_score: i32,
}

#[derive(Debug, Clone)]
pub struct ArticleContent {
    pub source: String,
    pub html: String,
}

#[derive(Debug, Clone)]
pub struct ForkWithTitle {
    pub fork_uri: String,
    pub forked_uri: String,
    pub vote_score: i32,
    pub title: String,
    pub did: String,
    pub author_handle: Option<String>,
}

} // verus!
