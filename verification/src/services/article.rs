//! Articles: how a creation request is laid out (identity, defaults,
//! storage route), translation file names, and visibility changes.

use vstd::prelude::*;

use crate::content::{ContentFormat, ContentKind};
use crate::error::Error;
use crate::models::article::{CreateArticle, opt_view, synthetic_article_uri};
use crate::region::{InstanceMode, spec_visibility_filter, visibility_filter};
use crate::text::{chars_of, concat2, concat3, concat4, rfind_char, rfind_char_exec, str_eq,
    string_of_range};

verus! {

/// Base SELECT of the article view (source-language localization, author,
/// paper metadata and vote/bookmark/comment aggregates).
pub const ARTICLE_BASE: &'static str = "SELECT a.repo_uri, a.source_path, a.author_did, p.handle AS author_handle, p.display_name AS author_display_name, p.avatar_url AS author_avatar, COALESCE(p.reputation, 0) AS author_reputation, a.kind, a.category, a.license, a.prereq_threshold, a.restricted, a.answer_count, a.cover_url, a.cover_file, a.question_repo_uri, a.question_source_path, a.book_id, a.edition_id, a.course_id, a.book_chapter_id, a.course_session_id, l.lang, l.at_uri, l.file_path, l.title, l.summary, l.summary_html, l.content_hash, l.content_format, l.translator_did, pm.venue AS paper_venue, pm.year AS paper_year, pm.accepted AS paper_accepted, COALESCE(v.vote_score, 0) AS vote_score, COALESCE(b.bookmark_count, 0) AS bookmark_count, COALESCE(cm.comment_count, 0) AS comment_count, a.created_at, a.updated_at FROM articles a JOIN article_localizations l ON l.repo_uri = a.repo_uri AND l.source_path = a.source_path AND l.file_path = a.source_path LEFT JOIN profiles p ON p.did = a.author_did LEFT JOIN paper_metadata pm ON pm.repo_uri = a.repo_uri AND pm.source_path = a.source_path LEFT JOIN (SELECT target_uri, SUM(value) AS vote_score FROM votes GROUP BY target_uri) v ON v.target_uri = article_uri(a.repo_uri, a.source_path) LEFT JOIN (SELECT repo_uri, source_path, COUNT(*) AS bookmark_count FROM user_bookmarks GROUP BY repo_uri, source_path) b ON b.repo_uri = a.repo_uri AND b.source_path = a.source_path LEFT JOIN (SELECT content_uri, COUNT(*) AS comment_count FROM comments GROUP BY content_uri) cm ON cm.content_uri = article_uri(a.repo_uri, a.source_path)";

/// The article SELECT restricted to what an instance may show.
pub fn visible(mode: InstanceMode) -> (r: String)
    ensures
        r@ == ARTICLE_BASE@ + " WHERE "@ + spec_visibility_filter(mode),
{
    concat3(ARTICLE_BASE, " WHERE ", visibility_filter(mode))
}

/// Source-file extension by content format: `md`, `html`, else `typ`.
pub open spec fn source_ext(f: ContentFormat) -> Seq<char> {
    match f {
        ContentFormat::Markdown => "md"@,
        ContentFormat::Html => "html"@,
        _ => "typ"@,
    }
}

pub fn source_ext_of(f: ContentFormat) -> (r: &'static str)
    ensures
        r@ == source_ext(f),
{
    match f {
        ContentFormat::Markdown => "md",
        ContentFormat::Html => "html",
        _ => "typ",
    }
}

/// Field defaults of a stored article: language `zh`, unrestricted,
/// license `CC-BY-SA-4.0` (`All-Rights-Reserved` when restricted),
/// category `general`.
#[derive(Debug, Clone)]
pub struct ArticleDefaults {
    pub lang: String,
    pub restricted: bool,
    pub license: String,
    pub category: String,
}

pub open spec fn or_default(o: Option<Seq<char>>, d: Seq<char>) -> Seq<char> {
    match o {
        Some(s) => s,
        None => d,
    }
}

/// The license an article is stored with.
pub open spec fn license_of(input: CreateArticle) -> Seq<char> {
    if input.restricted == Some(true) {
        "All-Rights-Reserved"@
    } else {
        or_default(opt_view(input.license), "CC-BY-SA-4.0"@)
    }
}

fn string_or(o: &Option<String>, d: &str) -> (r: String)
    ensures
        r@ == or_default(opt_view(*o), d@),
{
    match o {
        Some(s) => s.clone(),
        None => d.to_owned(),
    }
}

/// The stored defaults of a creation request.
pub fn article_defaults(input: &CreateArticle) -> (r: ArticleDefaults)
    ensures
        r.lang@ == or_default(opt_view(input.lang), "zh"@),
        r.restricted == (input.restricted == Some(true)),
        r.license@ == license_of(*input),
        r.category@ == or_default(opt_view(input.category), "general"@),
{
    let restricted = match input.restricted {
        Some(b) => b,
        None => false,
    };
    let license = if restricted {
        "All-Rights-Reserved".to_owned()
    } else {
        string_or(&input.license, "CC-BY-SA-4.0")
    };
    ArticleDefaults {
        lang: string_or(&input.lang, "zh"),
        restricted,
        license,
        category: string_or(&input.category, "general"),
    }
}

/// Where a new article goes.
#[derive(Debug, Clone)]
pub enum ArticleRoute {
    /// A new localization of the article holding `source_uri`.
    Translation { source_uri: String },
    /// A question or answer stored on this server only.
    ServerQa { repo_uri: String, source_path: String },
    /// A standalone article: its own repository, main source file.
    Standalone { repo_uri: String, source_path: String },
}

/// The last `/`-separated segment of `uri` (all of it when it has none).
pub open spec fn last_segment(uri: Seq<char>) -> Seq<char> {
    match rfind_char(uri, '/') {
        Some(i) => uri.subrange(i + 1, uri.len() as int),
        None => uri,
    }
}

pub fn last_segment_of(uri: &str) -> (r: String)
    ensures
        r@ == last_segment(uri@),
{
    let v = chars_of(uri);
    match rfind_char_exec(v.as_slice(), '/') {
        Some(i) => {
            assert(i < v.len());
            string_of_range(v.as_slice(), i + 1, v.len())
        },
        None => uri.to_owned(),
    }
}

/// The route of a creation request with caller-minted `at_uri`.
pub open spec fn route_of(at_uri: Seq<char>, input: CreateArticle, kind: ContentKind) -> (
    int,
    Seq<char>,
    Seq<char>,
) {
    let ext = source_ext(input.content_format);
    if input.translation_of.is_some() {
        (0, input.translation_of.unwrap()@, Seq::empty())
    } else if kind == ContentKind::Question {
        (1, "server://qa/"@ + last_segment(at_uri), "question."@ + ext)
    } else if kind == ContentKind::Answer {
        (1, "server://qa/"@ + last_segment(at_uri), "answer."@ + ext)
    } else {
        (2, at_uri, "main."@ + ext)
    }
}

/// Decide where a new article, question or answer is stored: a
/// translation of an existing article; a server-only Q&A entry
/// `server://qa/{rkey}` with `question.<ext>`/`answer.<ext>`; or a
/// standalone article keyed `(at_uri, main.<ext>)`.
pub fn plan_article_route(at_uri: &str, input: &CreateArticle, kind: ContentKind) -> (r:
    ArticleRoute)
    ensures
        match r {
            ArticleRoute::Translation { source_uri } => route_of(at_uri@, *input, kind).0 == 0
                && source_uri@ == route_of(at_uri@, *input, kind).1,
            ArticleRoute::ServerQa { repo_uri, source_path } => route_of(at_uri@, *input, kind).0
                == 1 && repo_uri@ == route_of(at_uri@, *input, kind).1 && source_path@ == route_of(
                at_uri@,
                *input,
                kind,
            ).2,
            ArticleRoute::Standalone { repo_uri, source_path } => route_of(at_uri@, *input, kind).0
                == 2 && repo_uri@ == route_of(at_uri@, *input, kind).1 && source_path@ == route_of(
                at_uri@,
                *input,
                kind,
            ).2,
        },
{
    let ext = source_ext_of(input.content_format);
    if let Some(src) = &input.translation_of {
        return ArticleRoute::Translation { source_uri: src.clone() };
    }
    match kind {
        ContentKind::Question => {
            let rkey = last_segment_of(at_uri);
            ArticleRoute::ServerQa {
                repo_uri: concat2("server://qa/", rkey.as_str()),
                source_path: concat2("question.", ext),
            }
        },
        ContentKind::Answer => {
            let rkey = last_segment_of(at_uri);
            ArticleRoute::ServerQa {
                repo_uri: concat2("server://qa/", rkey.as_str()),
                source_path: concat2("answer.", ext),
            }
        },
        ContentKind::Article => ArticleRoute::Standalone {
            repo_uri: at_uri.to_owned(),
            source_path: concat2("main.", ext),
        },
    }
}

/// `{stem}.{lang}.{ext}` where `stem` is the source path without its
/// extension (everything before the last `.`).
pub open spec fn translation_file_path(source_path: Seq<char>, lang: Seq<char>, ext: Seq<char>) -> Seq<
    char,
> {
    let stem = match rfind_char(source_path, '.') {
        Some(i) => source_path.subrange(0, i),
        None => source_path,
    };
    stem + "."@ + lang + "."@ + ext
}

/// Default file path of a new localization: a sibling of the source file,
/// e.g. `main.typ` + `zh-CN` → `main.zh-CN.typ`.
pub fn translation_path(source_path: &str, lang: &str, ext: &str) -> (r: String)
    ensures
        r@ == translation_file_path(source_path@, lang@, ext@),
{
    let v = chars_of(source_path);
    let stem = match rfind_char_exec(v.as_slice(), '.') {
        Some(i) => {
            string_of_range(v.as_slice(), 0, i)
        },
        None => source_path.to_owned(),
    };
    let mut r = concat4(stem.as_str(), ".", lang, ".");
    crate::text::push_all(&mut r, ext);
    r
}

/// The synthetic URI of a chapter of a series.
pub fn chapter_synthetic_uri(series_repo_uri: &str, source_path: &str) -> (r: String)
    ensures
        r@ == synthetic_article_uri(series_repo_uri@, source_path@),
{
    concat4("nightboat://article/", series_repo_uri, "/", source_path)
}

/// A visibility change: `removed` records the removal (with its reason);
/// any other value sets the visibility and clears a previous removal.
#[derive(Debug, Clone, PartialEq, Eq)]
pub enum VisibilityChange {
    Remove { reason: Option<String> },
    Assign { visibility: String },
}

pub fn plan_visibility(visibility: &str, reason: Option<&str>) -> (r: VisibilityChange)
    ensures
        visibility@ == "removed"@ ==> (r matches VisibilityChange::Remove { reason: rr } && (
        match reason {
            Some(x) => rr.is_some() && rr.unwrap()@ == x@,
            None => rr.is_none(),
        })),
        visibility@ != "removed"@ ==> (r matches VisibilityChange::Assign { visibility: v } && v@
            == visibility@),
{
    if str_eq(visibility, "removed") {
        VisibilityChange::Remove {
            reason: match reason {
                Some(x) => Some(x.to_owned()),
                None => None,
            },
        }
    } else {
        VisibilityChange::Assign { visibility: visibility.to_owned() }
    }
}

/// A visibility change that touched no row means the article is unknown.
pub fn check_rows_affected(rows: u64, uri: &str) -> (r: Result<(), Error>)
    ensures
        rows == 0 ==> (r matches Err(Error::NotFound { entity: e, id: i }) && e@ == "article"@
            && i@ == uri@),
        rows != 0 ==> r is Ok,
{
    if rows == 0 {
        Err(Error::NotFound { entity: "article", id: uri.to_owned() })
    } else {
        Ok(())
    }
}

} // verus!
