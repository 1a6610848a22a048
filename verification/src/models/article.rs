//! Article identity, creation requests and category metadata.

use vstd::prelude::*;

use super::tag::ArticlePrereq;
use crate::content::{ContentFormat, ContentKind};
use crate::text::{concat4, str_eq};

verus! {

/// The view of an optional string.
pub open spec fn opt_view(o: Option<String>) -> Option<Seq<char>> {
    match o {
        Some(s) => Some(s@),
        None => None,
    }
}

/// The view of an optional string slice.
pub open spec fn opt_str_view(o: Option<&str>) -> Option<Seq<char>> {
    match o {
        Some(s) => Some(s@),
        None => None,
    }
}

/// An optional string, borrowed.
pub fn opt_as_str(o: &Option<String>) -> (r: Option<&str>)
    ensures
        opt_str_view(r) == opt_view(*o),
{
    match o {
        Some(s) => Some(s.as_str()),
        None => None,
    }
}

/// Language-independent identity of an article: its repository and the
/// path of its source file there.
#[derive(Debug, Clone, PartialEq, Eq, Hash)]
pub struct ArticleKey {
    pub repo_uri: String,
    pub source_path: String,
}

/// `nightboat://article/{repo_uri}/{source_path}`.
pub open spec fn synthetic_article_uri(repo_uri: Seq<char>, source_path: Seq<char>) -> Seq<char> {
    "nightboat://article/"@ + repo_uri + "/"@ + source_path
}

impl ArticleKey {
    pub fn new(repo_uri: String, source_path: String) -> (k: ArticleKey)
        ensures
            k.repo_uri == repo_uri,
            k.source_path == source_path,
    {
        ArticleKey { repo_uri, source_path }
    }

    /// The single-string key used in URI-keyed tables (comments, votes,
    /// bookmarks, content registry).
    pub fn synthetic_uri(&self) -> (r: String)
        ensures
            r@ == synthetic_article_uri(self.repo_uri@, self.source_path@),
    {
        concat4("nightboat://article/", self.repo_uri.as_str(), "/", self.source_path.as_str())
    }
}

/// An author entry for an article, with verification status.
#[derive(Debug, Clone)]
pub struct ArticleAuthor {
    pub author_did: Option<String>,
    pub author_name: Option<String>,
    pub author_handle: Option<String>,
    pub author_display_name: Option<String>,
    pub author_avatar: Option<String>,
    pub author_reputation: i32,
    pub position: Option<i16>,
    pub role: String,
    pub is_corresponding: bool,
    pub status: String,
    pub authorship_uri: Option<String>,
}

/// Paper-specific metadata, keyed by the composite article key.
#[derive(Debug, Clone)]
pub struct PaperMetadata {
    pub repo_uri: String,
    pub source_path: String,
    pub venue: Option<String>,
    pub venue_type: Option<String>,
    pub year: Option<i16>,
    pub doi: Option<String>,
    pub arxiv_id: Option<String>,
    pub accepted: bool,
}

/// A request to create an article, question or answer.
#[derive(Debug, Clone)]
pub struct CreateArticle {
    pub title: String,
    pub summary: Option<String>,
    pub content: String,
    pub content_format: ContentFormat,
    pub lang: Option<String>,
    pub license: Option<String>,
    /// Repo-relative path of the source article this content translates.
    pub translation_of: Option<String>,
    pub restricted: Option<bool>,
    pub category: Option<String>,
    pub tags: Vec<String>,
    pub prereqs: Vec<ArticlePrereq>,
    pub related: Vec<String>,
    pub topics: Vec<String>,
    pub series_id: Option<String>,
    pub authors: Vec<String>,
    pub invites: Vec<String>,
    pub metadata: Option<CategoryMetadata>,
    pub book_chapter_id: Option<String>,
    pub term_session_id: Option<String>,
}

/// Category-specific metadata of a creation request.
#[derive(Debug, Clone)]
pub enum CategoryMetadata {
    Paper(CreatePaperMetadata),
    Review { book_id: Option<String>, edition_id: Option<String>, term_id: Option<String> },
    Note {
        book_id: Option<String>,
        edition_id: Option<String>,
        term_id: Option<String>,
        book_chapter_id: Option<String>,
        term_session_id: Option<String>,
    },
    Experience(CreateExperienceMetadata),
}

#[derive(Debug, Clone)]
pub struct CreatePaperMetadata {
    pub venue: Option<String>,
    pub venue_type: Option<String>,
    pub year: Option<i16>,
    pub doi: Option<String>,
    pub arxiv_id: Option<String>,
    pub accepted: bool,
}

#[derive(Debug, Clone)]
pub struct CreateExperienceMetadata {
    pub kind: Option<String>,
    pub target: Option<String>,
    pub year: Option<i16>,
    pub result: Option<String>,
}

/// Experience post metadata, keyed by the composite article key.
#[derive(Debug, Clone)]
pub struct ExperienceMetadata {
    pub repo_uri: String,
    pub source_path: String,
    pub kind: Option<String>,
    pub target: Option<String>,
    pub year: Option<i16>,
    pub result: Option<String>,
}

/// Source and rendered HTML of an article.
#[derive(Debug, Clone)]
pub struct ArticleContent {
    pub source: String,
    pub html: String,
}

impl CreateArticle {
    /// The book a review or note targets.
    pub open spec fn book_target(self) -> Option<Seq<char>> {
        match self.metadata {
            Some(CategoryMetadata::Review { book_id, .. }) => opt_view(book_id),
            Some(CategoryMetadata::Note { book_id, .. }) => opt_view(book_id),
            _ => None,
        }
    }

    /// The edition a review or note targets.
    pub open spec fn edition_target(self) -> Option<Seq<char>> {
        match self.metadata {
            Some(CategoryMetadata::Review { edition_id, .. }) => opt_view(edition_id),
            Some(CategoryMetadata::Note { edition_id, .. }) => opt_view(edition_id),
            _ => None,
        }
    }

    /// The course term a review or note targets.
    pub open spec fn term_target(self) -> Option<Seq<char>> {
        match self.metadata {
            Some(CategoryMetadata::Review { term_id, .. }) => opt_view(term_id),
            Some(CategoryMetadata::Note { term_id, .. }) => opt_view(term_id),
            _ => None,
        }
    }

    /// Whether the request's category is `review`.
    pub open spec fn is_review(self) -> bool {
        opt_view(self.category) == Some("review"@)
    }

    /// The book chapter a non-review targets: the note metadata's chapter
    /// when set, else the request's own field.
    pub open spec fn book_chapter_target(self) -> Option<Seq<char>> {
        if self.is_review() {
            None
        } else {
            match self.metadata {
                Some(CategoryMetadata::Note { book_chapter_id: Some(c), .. }) => Some(c@),
                _ => opt_view(self.book_chapter_id),
            }
        }
    }

    /// The term session a non-review targets: the note metadata's session
    /// when set, else the request's own field.
    pub open spec fn term_session_target(self) -> Option<Seq<char>> {
        if self.is_review() {
            None
        } else {
            match self.metadata {
                Some(CategoryMetadata::Note { term_session_id: Some(c), .. }) => Some(c@),
                _ => opt_view(self.term_session_id),
            }
        }
    }

    fn is_review_exec(&self) -> (r: bool)
        ensures
            r == self.is_review(),
    {
        match &self.category {
            Some(c) => str_eq(c.as_str(), "review"),
            None => false,
        }
    }

    pub fn target_book_id(&self) -> (r: Option<&str>)
        ensures
            opt_str_view(r) == self.book_target(),
    {
        match &self.metadata {
            Some(CategoryMetadata::Review { book_id, .. }) => opt_as_str(book_id),
            Some(CategoryMetadata::Note { book_id, .. }) => opt_as_str(book_id),
            _ => None,
        }
    }

    pub fn target_edition_id(&self) -> (r: Option<&str>)
        ensures
            opt_str_view(r) == self.edition_target(),
    {
        match &self.metadata {
            Some(CategoryMetadata::Review { edition_id, .. }) => opt_as_str(edition_id),
            Some(CategoryMetadata::Note { edition_id, .. }) => opt_as_str(edition_id),
            _ => None,
        }
    }

    pub fn target_term_id(&self) -> (r: Option<&str>)
        ensures
            opt_str_view(r) == self.term_target(),
    {
        match &self.metadata {
            Some(CategoryMetadata::Review { term_id, .. }) => opt_as_str(term_id),
            Some(CategoryMetadata::Note { term_id, .. }) => opt_as_str(term_id),
            _ => None,
        }
    }

    pub fn target_book_chapter_id(&self) -> (r: Option<&str>)
        ensures
            opt_str_view(r) == self.book_chapter_target(),
    {
        if self.is_review_exec() {
            return None;
        }
        if let Some(CategoryMetadata::Note { book_chapter_id, .. }) = &self.metadata {
            if book_chapter_id.is_some() {
                return opt_as_str(book_chapter_id);
            }
        }
        opt_as_str(&self.book_chapter_id)
    }

    pub fn target_term_session_id(&self) -> (r: Option<&str>)
        ensures
            opt_str_view(r) == self.term_session_target(),
    {
        if self.is_review_exec() {
            return None;
        }
        if let Some(CategoryMetadata::Note { term_session_id, .. }) = &self.metadata {
            if term_session_id.is_some() {
                return opt_as_str(term_session_id);
            }
        }
        opt_as_str(&self.term_session_id)
    }
}

/// A review never targets a chapter or session, whatever its fields say.
pub proof fn lemma_review_targets_no_chapter(a: CreateArticle)
    requires
        a.is_review(),
    ensures
        a.book_chapter_target().is_none(),
        a.term_session_target().is_none(),
{
}

} // verus!
