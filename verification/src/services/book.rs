//! Books, editions and chapters: the checks and defaults of their
//! creation, the exam filter of the book list, reading progress, and the
//! grouping of chapter tags, prerequisites and authors.

use std::collections::HashMap;

use vstd::prelude::*;

use crate::error::Error;
use crate::models::tag::ArticlePrereq;
use crate::models::article::opt_view;
use crate::services::article::or_default;
use crate::text::{concat2, concat4, str_eq};

verus! {

/// A book (timestamps as RFC 3339 text; titles and descriptions by
/// language).
#[derive(Debug, Clone)]
pub struct Book {
    pub id: String,
    pub title: HashMap<String, String>,
    pub subtitle: HashMap<String, String>,
    pub authors: Vec<String>,
    pub description: HashMap<String, String>,
    pub abbreviation: Option<String>,
    pub default_edition_id: Option<String>,
    pub created_by: String,
    pub created_at: String,
    /// Exam-prep tags; none or empty for other books.
    pub exam_tags: Option<Vec<String>>,
    pub cover_url: Option<String>,
}

#[derive(Debug, Clone)]
pub struct CreateBook {
    pub title: HashMap<String, String>,
    pub subtitle: Option<HashMap<String, String>>,
    pub authors: Vec<String>,
    pub description: Option<HashMap<String, String>>,
    pub tags: Vec<String>,
    pub prereqs: Vec<ArticlePrereq>,
    pub abbreviation: Option<String>,
    pub exam_tags: Option<Vec<String>>,
    /// A book is always created with its first edition.
    pub first_edition: CreateEdition,
}

#[derive(Debug, Clone)]
pub struct PurchaseLink {
    pub label: String,
    pub url: String,
}

#[derive(Debug, Clone)]
pub struct BookEdition {
    pub id: String,
    pub book_id: String,
    pub edition_name: Option<String>,
    pub title: String,
    pub subtitle: Option<String>,
    pub lang: String,
    pub isbn: Option<String>,
    pub publisher: Option<String>,
    pub year: Option<String>,
    pub translators: Vec<String>,
    pub purchase_links: Vec<PurchaseLink>,
    pub cover_url: Option<String>,
    pub status: String,
    pub created_at: String,
}

#[derive(Debug, Clone)]
pub struct CreateEdition {
    pub edition_name: Option<String>,
    pub title: String,
    pub subtitle: Option<String>,
    pub lang: String,
    pub isbn: Option<String>,
    pub publisher: Option<String>,
    pub year: Option<String>,
    pub translators: Vec<String>,
    pub purchase_links: Vec<PurchaseLink>,
    pub cover_url: Option<String>,
    /// `draft` or `published`; `published` when left out.
    pub status: Option<String>,
}

/// Filter options for the book list.
#[derive(Debug, Clone)]
pub struct BookListFilter<'a> {
    /// `none`: books without exam tags; `any`: books with some; any other
    /// value: books with that exact tag.
    pub exam: Option<&'a str>,
}

#[derive(Debug, Clone)]
pub struct BookChapter {
    pub id: String,
    pub book_id: String,
    pub parent_id: Option<String>,
    pub title: String,
    pub title_i18n: HashMap<String, String>,
    pub order_index: i32,
    pub article_uri: Option<String>,
}

#[derive(Debug, Clone)]
pub struct ChapterPrereq {
    pub tag_id: String,
    pub prereq_type: String,
}

#[derive(Debug, Clone)]
pub struct ChapterAuthor {
    pub author_id: String,
    pub name: String,
    /// `author`, `translator` or `editor`.
    pub role: String,
}

#[derive(Debug, Clone)]
pub struct BookChapterWithTags {
    pub id: String,
    pub book_id: String,
    pub parent_id: Option<String>,
    pub title: String,
    pub title_i18n: HashMap<String, String>,
    pub order_index: i32,
    pub article_uri: Option<String>,
    pub teaches: Vec<String>,
    pub prereqs: Vec<ChapterPrereq>,
    pub authors: Vec<ChapterAuthor>,
}

#[derive(Debug, Clone)]
pub struct CreateChapter {
    pub title: String,
    pub title_i18n: Option<HashMap<String, String>>,
    pub parent_id: Option<String>,
    pub order_index: i32,
    pub article_uri: Option<String>,
    pub teaches: Vec<String>,
    pub prereqs: Vec<ChapterPrereq>,
}

/// Supplementary material of a book.
#[derive(Debug, Clone)]
pub struct BookResource {
    pub id: String,
    pub book_id: String,
    pub edition_id: Option<String>,
    pub kind: String,
    pub label: String,
    pub url: String,
    pub position: i16,
}

/// A user's reading status of a book.
#[derive(Debug, Clone)]
pub struct ReadingStatus {
    pub book_id: String,
    pub user_did: String,
    pub status: String,
    pub progress: i16,
    pub preferred_edition_id: Option<String>,
    pub updated_at: String,
}

#[derive(Debug, Clone)]
pub struct ChapterProgressResult {
    pub status: Option<ReadingStatus>,
    pub affected_chapter_ids: Vec<String>,
}

/// An ISBN may be registered on one book only.
pub fn check_isbn_free(isbn: Option<&str>, existing_book_id: Option<&str>) -> (r: Result<(), Error>)
    ensures
        match (isbn, existing_book_id) {
            (Some(i), Some(b)) => r matches Err(Error::BadRequest(m)) && m@ == "ISBN "@ + i@
                + " already exists on book "@ + b@,
            _ => r is Ok,
        },
{
    match (isbn, existing_book_id) {
        (Some(i), Some(b)) => Err(Error::BadRequest(concat4("ISBN ", i, " already exists on book ", b))),
        _ => Ok(()),
    }
}

/// The content URI of a book, under which its tags are stored.
pub fn book_content_uri(id: &str) -> (r: String)
    ensures
        r@ == "book:"@ + id@,
{
    concat2("book:", id)
}

/// The content URI of a chapter.
pub fn chapter_content_uri(id: &str) -> (r: String)
    ensures
        r@ == "chapter:"@ + id@,
{
    concat2("chapter:", id)
}

/// The id of a new edition.
pub fn edition_id(tid: &str) -> (r: String)
    ensures
        r@ == "ed-"@ + tid@,
{
    concat2("ed-", tid)
}

/// The id of a book edit-log entry.
pub fn book_edit_id(tid: &str) -> (r: String)
    ensures
        r@ == "bel-"@ + tid@,
{
    concat2("bel-", tid)
}

/// Exam tags as stored: an empty list is stored as none.
pub fn stored_exam_tags(tags: &Option<Vec<String>>) -> (r: Option<Vec<String>>)
    ensures
        match tags {
            Some(t) => if t@.len() == 0 {
                r.is_none()
            } else {
                r.is_some() && r.unwrap()@ == t@
            },
            None => r.is_none(),
        },
{
    match tags {
        Some(t) => if t.len() == 0 {
            None
        } else {
            Some(crate::meta::copy_strings(t))
        },
        None => None,
    }
}

/// The status an edition is stored with.
pub fn edition_status(status: &Option<String>) -> (r: String)
    ensures
        r@ == or_default(opt_view(*status), "published"@),
{
    match status {
        Some(s) => s.clone(),
        None => "published".to_owned(),
    }
}

/// The exam condition of the book list and the tag it binds, if any.
pub fn exam_clause(exam: Option<&str>) -> (r: (&'static str, Option<String>))
    ensures
        match exam {
            None => r.0@ == "TRUE"@ && r.1.is_none(),
            Some(t) => if t@ == "none"@ {
                r.0@ == "(b.exam_tags IS NULL OR cardinality(b.exam_tags) = 0)"@ && r.1.is_none()
            } else if t@ == "any"@ {
                r.0@ == "(b.exam_tags IS NOT NULL AND cardinality(b.exam_tags) > 0)"@ && r.1.is_none()
            } else {
                r.0@ == "$4 = ANY(b.exam_tags)"@ && r.1.is_some() && r.1.unwrap()@ == t@
            },
        },
{
    match exam {
        None => ("TRUE", None),
        Some(t) => if str_eq(t, "none") {
            ("(b.exam_tags IS NULL OR cardinality(b.exam_tags) = 0)", None)
        } else if str_eq(t, "any") {
            ("(b.exam_tags IS NOT NULL AND cardinality(b.exam_tags) > 0)", None)
        } else {
            ("$4 = ANY(b.exam_tags)", Some(t.to_owned()))
        },
    }
}

/// The condition that picks a chapter's questions and answers (by kind) or
/// notes (by category).
pub fn chapter_predicate(kind_or_category: &str) -> (r: Result<&'static str, Error>)
    ensures
        (kind_or_category@ == "question"@ || kind_or_category@ == "answer"@) ==> (r matches Ok(p)
            && p@ == "a.kind = $2::content_kind"@),
        kind_or_category@ == "note"@ ==> (r matches Ok(p) && p@ == "a.category = $2"@),
        (kind_or_category@ != "question"@ && kind_or_category@ != "answer"@ && kind_or_category@
            != "note"@) ==> (r matches Err(Error::BadRequest(m)) && m@
            == "get_chapter_articles: unsupported kind_or_category '"@ + kind_or_category@ + "'"@),
{
    proof {
        reveal_strlit("note");
        reveal_strlit("question");
        reveal_strlit("answer");
        assert("note"@.len() == 4 && "question"@.len() == 8 && "answer"@.len() == 6);
    }
    if str_eq(kind_or_category, "question") || str_eq(kind_or_category, "answer") {
        Ok("a.kind = $2::content_kind")
    } else if str_eq(kind_or_category, "note") {
        Ok("a.category = $2")
    } else {
        Err(
            Error::BadRequest(
                crate::text::concat3(
                    "get_chapter_articles: unsupported kind_or_category '",
                    kind_or_category,
                    "'",
                ),
            ),
        )
    }
}

/// An edition can be deleted only while the book has another one.
pub fn check_edition_deletion(edition_count: i64, edition_id: &str) -> (r: Result<(), Error>)
    ensures
        edition_count == 0 ==> (r matches Err(Error::NotFound { entity: e, id: i }) && e@
            == "book_edition"@ && i@ == edition_id@),
        edition_count == 1 ==> (r matches Err(Error::BadRequest(m)) && m@
            == "cannot delete the only edition on a book — hard-delete the whole book instead"@),
        edition_count != 0 && edition_count != 1 ==> r is Ok,
{
    if edition_count == 0 {
        Err(Error::NotFound { entity: "book_edition", id: edition_id.to_owned() })
    } else if edition_count == 1 {
        Err(
            Error::BadRequest(
                "cannot delete the only edition on a book — hard-delete the whole book instead".to_owned(),
            ),
        )
    } else {
        Ok(())
    }
}

/// `i16::clamp(x, 0, 100)`.
pub open spec fn clamp_percent(x: i16) -> i16 {
    if x < 0 {
        0
    } else if x > 100 {
        100
    } else {
        x
    }
}

/// Integer division rounding toward zero (Rust's `/` on signed integers),
/// for a positive divisor.
pub open spec fn div_toward_zero(a: int, b: int) -> int {
    if a >= 0 {
        a / b
    } else {
        -((-a) / b)
    }
}

/// Reading progress in percent: completed chapters over all chapters, the
/// quotient (rounded toward zero) cut to `i16` and clamped to `0..=100`;
/// `0` for a book without chapters.
pub fn reading_progress(done: i64, total: i64) -> (r: i16)
    requires
        i64::MIN <= done * 100 <= i64::MAX,
    ensures
        total > 0 ==> r == clamp_percent(div_toward_zero(done * 100, total as int) as i16),
        total <= 0 ==> r == 0,
{
    if total > 0 {
        let q: i64 = done * 100 / total;
        #[verifier::truncate]
        let p: i16 = q as i16;
        if p < 0 {
            0
        } else if p > 100 {
            100
        } else {
            p
        }
    } else {
        0
    }
}

/// One teaching link of a chapter.
#[derive(Debug, Clone)]
pub struct ChapterTeachRow {
    pub content_uri: String,
    pub tag_id: String,
}

/// One prerequisite link of a chapter.
#[derive(Debug, Clone)]
pub struct ChapterPrereqRow {
    pub content_uri: String,
    pub tag_id: String,
    pub prereq_type: String,
}

/// One credited author of a chapter.
#[derive(Debug, Clone)]
pub struct ChapterAuthorRow {
    pub chapter_id: String,
    pub author_id: String,
    pub name: String,
    pub role: String,
}

/// The tags taught under `uri`, in row order.
pub open spec fn teaches_of(rows: Seq<ChapterTeachRow>, uri: Seq<char>) -> Seq<Seq<char>>
    decreases rows.len(),
{
    if rows.len() == 0 {
        Seq::empty()
    } else {
        teaches_of(rows.drop_last(), uri) + if rows.last().content_uri@ == uri {
            seq![rows.last().tag_id@]
        } else {
            Seq::empty()
        }
    }
}

/// The prerequisites under `uri`, in row order.
pub open spec fn prereqs_of(rows: Seq<ChapterPrereqRow>, uri: Seq<char>) -> Seq<(Seq<char>, Seq<char>)>
    decreases rows.len(),
{
    if rows.len() == 0 {
        Seq::empty()
    } else {
        prereqs_of(rows.drop_last(), uri) + if rows.last().content_uri@ == uri {
            seq![(rows.last().tag_id@, rows.last().prereq_type@)]
        } else {
            Seq::empty()
        }
    }
}

/// The authors credited on chapter `id`, in row order.
pub open spec fn authors_of(rows: Seq<ChapterAuthorRow>, id: Seq<char>) -> Seq<(Seq<char>, Seq<char>, Seq<char>)>
    decreases rows.len(),
{
    if rows.len() == 0 {
        Seq::empty()
    } else {
        authors_of(rows.drop_last(), id) + if rows.last().chapter_id@ == id {
            seq![(rows.last().author_id@, rows.last().name@, rows.last().role@)]
        } else {
            Seq::empty()
        }
    }
}

/// Chapter `i` is the first with its id (the links go to the first one).
pub open spec fn first_with_id(chapters: Seq<BookChapter>, i: int) -> bool {
    forall|j: int| 0 <= j < i ==> (#[trigger] chapters[j]).id@ != chapters[i].id@
}

fn teaches_exec(rows: &Vec<ChapterTeachRow>, uri: &str) -> (r: Vec<String>)
    ensures
        r@.map_values(|s: String| s@) == teaches_of(rows@, uri@),
{
    let mut r: Vec<String> = Vec::new();
    let mut i: usize = 0;
    while i < rows.len()
        invariant
            i <= rows@.len(),
            r@.map_values(|s: String| s@) == teaches_of(rows@.take(i as int), uri@),
        decreases rows@.len() - i,
    {
        let ghost t = rows@.take(i + 1);
        assert(t.drop_last() =~= rows@.take(i as int));
        let ghost before = r@.map_values(|s: String| s@);
        if str_eq(rows[i].content_uri.as_str(), uri) {
            r.push(rows[i].tag_id.clone());
        }
        i = i + 1;
        assert(r@.map_values(|s: String| s@) =~= teaches_of(rows@.take(i as int), uri@));
    }
    assert(rows@.take(i as int) =~= rows@);
    r
}

fn prereqs_exec(rows: &Vec<ChapterPrereqRow>, uri: &str) -> (r: Vec<ChapterPrereq>)
    ensures
        r@.map_values(|p: ChapterPrereq| (p.tag_id@, p.prereq_type@)) == prereqs_of(rows@, uri@),
{
    let mut r: Vec<ChapterPrereq> = Vec::new();
    let mut i: usize = 0;
    while i < rows.len()
        invariant
            i <= rows@.len(),
            r@.map_values(|p: ChapterPrereq| (p.tag_id@, p.prereq_type@)) == prereqs_of(
                rows@.take(i as int),
                uri@,
            ),
        decreases rows@.len() - i,
    {
        let ghost t = rows@.take(i + 1);
        assert(t.drop_last() =~= rows@.take(i as int));
        if str_eq(rows[i].content_uri.as_str(), uri) {
            r.push(
                ChapterPrereq {
                    tag_id: rows[i].tag_id.clone(),
                    prereq_type: rows[i].prereq_type.clone(),
                },
            );
        }
        i = i + 1;
        assert(r@.map_values(|p: ChapterPrereq| (p.tag_id@, p.prereq_type@)) =~= prereqs_of(
            rows@.take(i as int),
            uri@,
        ));
    }
    assert(rows@.take(i as int) =~= rows@);
    r
}

fn authors_exec(rows: &Vec<ChapterAuthorRow>, id: &str) -> (r: Vec<ChapterAuthor>)
    ensures
        r@.map_values(|a: ChapterAuthor| (a.author_id@, a.name@, a.role@)) == authors_of(rows@, id@),
{
    let mut r: Vec<ChapterAuthor> = Vec::new();
    let mut i: usize = 0;
    while i < rows.len()
        invariant
            i <= rows@.len(),
            r@.map_values(|a: ChapterAuthor| (a.author_id@, a.name@, a.role@)) == authors_of(
                rows@.take(i as int),
                id@,
            ),
        decreases rows@.len() - i,
    {
        let ghost t = rows@.take(i + 1);
        assert(t.drop_last() =~= rows@.take(i as int));
        if str_eq(rows[i].chapter_id.as_str(), id) {
            r.push(
                ChapterAuthor {
                    author_id: rows[i].author_id.clone(),
                    name: rows[i].name.clone(),
                    role: rows[i].role.clone(),
                },
            );
        }
        i = i + 1;
        assert(r@.map_values(|a: ChapterAuthor| (a.author_id@, a.name@, a.role@)) =~= authors_of(
            rows@.take(i as int),
            id@,
        ));
    }
    assert(rows@.take(i as int) =~= rows@);
    r
}

fn first_with_id_exec(chapters: &Vec<BookChapter>, i: usize) -> (r: bool)
    requires
        i < chapters@.len(),
    ensures
        r == first_with_id(chapters@, i as int),
{
    let mut j: usize = 0;
    while j < i
        invariant
            i < chapters@.len(),
            j <= i,
            forall|l: int| 0 <= l < j ==> (#[trigger] chapters@[l]).id@ != chapters@[i as int].id@,
        decreases i - j,
    {
        if str_eq(chapters[j].id.as_str(), chapters[i].id.as_str()) {
            return false;
        }
        j = j + 1;
    }
    true
}

/// The chapters with their taught tags (under `chapter:{id}`),
/// prerequisites and credited authors, each in row order; a chapter whose
/// id an earlier chapter already has gets none.
pub fn chapters_with_tags(
    chapters: &Vec<BookChapter>,
    teaches: &Vec<ChapterTeachRow>,
    prereqs: &Vec<ChapterPrereqRow>,
    authors: &Vec<ChapterAuthorRow>,
) -> (r: Vec<BookChapterWithTags>)
    ensures
        r@.len() == chapters@.len(),
        forall|i: int|
            0 <= i < chapters@.len() ==> {
                let c = chapters@[i];
                let w = #[trigger] r@[i];
                let uri = "chapter:"@ + c.id@;
                &&& w.id@ == c.id@
                &&& w.book_id@ == c.book_id@
                &&& w.parent_id == c.parent_id
                &&& w.title@ == c.title@
                &&& w.title_i18n@ == c.title_i18n@
                &&& w.order_index == c.order_index
                &&& w.article_uri == c.article_uri
                &&& w.teaches@.map_values(|s: String| s@) == if first_with_id(chapters@, i) {
                    teaches_of(teaches@, uri)
                } else {
                    Seq::empty()
                }
                &&& w.prereqs@.map_values(|p: ChapterPrereq| (p.tag_id@, p.prereq_type@))
                    == if first_with_id(chapters@, i) {
                    prereqs_of(prereqs@, uri)
                } else {
                    Seq::empty()
                }
                &&& w.authors@.map_values(|a: ChapterAuthor| (a.author_id@, a.name@, a.role@))
                    == if first_with_id(chapters@, i) {
                    authors_of(authors@, c.id@)
                } else {
                    Seq::empty()
                }
            },
{
    let mut r: Vec<BookChapterWithTags> = Vec::new();
    let mut i: usize = 0;
    while i < chapters.len()
        invariant
            i <= chapters@.len(),
            r@.len() == i,
            forall|k: int|
                0 <= k < i ==> {
                    let c = chapters@[k];
                    let w = #[trigger] r@[k];
                    let uri = "chapter:"@ + c.id@;
                    &&& w.id@ == c.id@
                    &&& w.book_id@ == c.book_id@
                    &&& w.parent_id == c.parent_id
                    &&& w.title@ == c.title@
                    &&& w.title_i18n@ == c.title_i18n@
                    &&& w.order_index == c.order_index
                    &&& w.article_uri == c.article_uri
                    &&& w.teaches@.map_values(|s: String| s@) == if first_with_id(chapters@, k) {
                        teaches_of(teaches@, uri)
                    } else {
                        Seq::empty()
                    }
                    &&& w.prereqs@.map_values(|p: ChapterPrereq| (p.tag_id@, p.prereq_type@))
                        == if first_with_id(chapters@, k) {
                        prereqs_of(prereqs@, uri)
                    } else {
                        Seq::empty()
                    }
                    &&& w.authors@.map_values(|a: ChapterAuthor| (a.author_id@, a.name@, a.role@))
                        == if first_with_id(chapters@, k) {
                        authors_of(authors@, c.id@)
                    } else {
                        Seq::empty()
                    }
                },
        decreases chapters@.len() - i,
    {
        let c = &chapters[i];
        let uri = chapter_content_uri(c.id.as_str());
        let first = first_with_id_exec(chapters, i);
        let (t, p, a) = if first {
            (teaches_exec(teaches, uri.as_str()), prereqs_exec(prereqs, uri.as_str()), authors_exec(authors, c.id.as_str()))
        } else {
            let t: Vec<String> = Vec::new();
            let p: Vec<ChapterPrereq> = Vec::new();
            let a: Vec<ChapterAuthor> = Vec::new();
            assert(t@.map_values(|s: String| s@) =~= Seq::<Seq<char>>::empty());
            assert(p@.map_values(|p: ChapterPrereq| (p.tag_id@, p.prereq_type@)) =~= Seq::<(Seq<char>, Seq<char>)>::empty());
            assert(a@.map_values(|a: ChapterAuthor| (a.author_id@, a.name@, a.role@)) =~= Seq::<(Seq<char>, Seq<char>, Seq<char>)>::empty());
            (t, p, a)
        };
        r.push(
            BookChapterWithTags {
                id: c.id.clone(),
                book_id: c.book_id.clone(),
                parent_id: crate::meta::copy_opt_string(&c.parent_id),
                title: c.title.clone(),
                title_i18n: c.title_i18n.clone(),
                order_index: c.order_index,
                article_uri: crate::meta::copy_opt_string(&c.article_uri),
                teaches: t,
                prereqs: p,
                authors: a,
            },
        );
        i = i + 1;
    }
    r
}

/// The tags taught under `uri` are those of the rows with that content
/// URI, kept in row order: the rows filtered by URI, then their tags.
pub proof fn lemma_teaches_of_filter(rows: Seq<ChapterTeachRow>, uri: Seq<char>)
    ensures
        teaches_of(rows, uri) == rows.filter(|r: ChapterTeachRow| r.content_uri@ == uri).map_values(
            |r: ChapterTeachRow| r.tag_id@,
        ),
    decreases rows.len(),
{
    reveal(Seq::filter);
    let pred = |r: ChapterTeachRow| r.content_uri@ == uri;
    if rows.len() > 0 {
        lemma_teaches_of_filter(rows.drop_last(), uri);
        let sub = rows.drop_last().filter(pred);
        if pred(rows.last()) {
            assert(sub.push(rows.last()).map_values(|r: ChapterTeachRow| r.tag_id@) =~= sub.map_values(
                |r: ChapterTeachRow| r.tag_id@,
            ).push(rows.last().tag_id@));
        } else {
            assert(teaches_of(rows, uri) =~= teaches_of(rows.drop_last(), uri));
        }
    } else {
        assert(rows.filter(pred).map_values(|r: ChapterTeachRow| r.tag_id@) =~= Seq::<Seq<char>>::empty());
    }
}

/// The prerequisites under `uri` are those of the rows with that content
/// URI, in row order, each as its tag and strength.
pub proof fn lemma_prereqs_of_filter(rows: Seq<ChapterPrereqRow>, uri: Seq<char>)
    ensures
        prereqs_of(rows, uri) == rows.filter(|r: ChapterPrereqRow| r.content_uri@ == uri).map_values(
            |r: ChapterPrereqRow| (r.tag_id@, r.prereq_type@),
        ),
    decreases rows.len(),
{
    reveal(Seq::filter);
    let pred = |r: ChapterPrereqRow| r.content_uri@ == uri;
    if rows.len() > 0 {
        lemma_prereqs_of_filter(rows.drop_last(), uri);
        let sub = rows.drop_last().filter(pred);
        if pred(rows.last()) {
            assert(sub.push(rows.last()).map_values(|r: ChapterPrereqRow| (r.tag_id@, r.prereq_type@))
                =~= sub.map_values(|r: ChapterPrereqRow| (r.tag_id@, r.prereq_type@)).push(
                (rows.last().tag_id@, rows.last().prereq_type@),
            ));
        } else {
            assert(prereqs_of(rows, uri) =~= prereqs_of(rows.drop_last(), uri));
        }
    } else {
        assert(rows.filter(pred).map_values(|r: ChapterPrereqRow| (r.tag_id@, r.prereq_type@))
            =~= Seq::<(Seq<char>, Seq<char>)>::empty());
    }
}

/// The authors credited on chapter `id` are those of the rows for that
/// chapter, in row order.
pub proof fn lemma_authors_of_filter(rows: Seq<ChapterAuthorRow>, id: Seq<char>)
    ensures
        authors_of(rows, id) == rows.filter(|r: ChapterAuthorRow| r.chapter_id@ == id).map_values(
            |r: ChapterAuthorRow| (r.author_id@, r.name@, r.role@),
        ),
    decreases rows.len(),
{
    reveal(Seq::filter);
    let pred = |r: ChapterAuthorRow| r.chapter_id@ == id;
    if rows.len() > 0 {
        lemma_authors_of_filter(rows.drop_last(), id);
        let sub = rows.drop_last().filter(pred);
        if pred(rows.last()) {
            assert(sub.push(rows.last()).map_values(|r: ChapterAuthorRow| (r.author_id@, r.name@, r.role@))
                =~= sub.map_values(|r: ChapterAuthorRow| (r.author_id@, r.name@, r.role@)).push(
                (rows.last().author_id@, rows.last().name@, rows.last().role@),
            ));
        } else {
            assert(authors_of(rows, id) =~= authors_of(rows.drop_last(), id));
        }
    } else {
        assert(rows.filter(pred).map_values(|r: ChapterAuthorRow| (r.author_id@, r.name@, r.role@))
            =~= Seq::<(Seq<char>, Seq<char>, Seq<char>)>::empty());
    }
}

} // verus!
