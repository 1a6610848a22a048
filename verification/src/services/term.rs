//! Course terms (iterations of a course): their records, session
//! attachments, and how an edit becomes a patch of the term's snapshot.

use vstd::prelude::*;

use crate::models::article::opt_view;
use crate::services::article::or_default;
use crate::services::patch::{
    Json, JsonV, OpV, PatchOp, apply_ops, diff, diff_ops, entries_patchable, jv, jv_entries,
    key_ok, lemma_jv_entries, ops_view, patchable, sorted_keys,
};
use crate::services::patch_law::{lemma_diff_then_apply, lemma_key_lt_trans};
use crate::text::{key_lt, find, lemma_find_from, occurs_at};

verus! {

/// A term (timestamps as RFC 3339 text).
#[derive(Debug, Clone)]
pub struct TermRow {
    pub id: String,
    pub did: String,
    pub title: String,
    pub code: Option<String>,
    pub description: String,
    pub institution: Option<String>,
    pub department: Option<String>,
    pub semester: Option<String>,
    pub lang: String,
    pub license: String,
    pub source_url: Option<String>,
    pub source_attribution: Option<String>,
    pub created_at: String,
    pub updated_at: String,
    pub course_id: Option<String>,
}

#[derive(Debug, Clone)]
pub struct TermSeriesRow {
    pub series_id: String,
    pub title: String,
    pub summary: Option<String>,
    pub role: String,
    pub sort_order: i32,
}

/// Another term of the same course.
#[derive(Debug, Clone)]
pub struct TermSibling {
    pub id: String,
    pub title: String,
    pub semester: Option<String>,
    pub institution: Option<String>,
}

#[derive(Debug, Clone)]
pub struct TermTagRow {
    pub tag_id: String,
    pub tag_name: String,
}

#[derive(Debug, Clone)]
pub struct TermSkillTreeRow {
    pub tree_uri: String,
    pub title: String,
    pub role: String,
}

#[derive(Debug, Clone)]
pub struct TermPrereqRow {
    pub prereq_term_id: String,
    pub title: String,
    pub code: Option<String>,
    pub institution: Option<String>,
}

/// What a session attachment is.
#[derive(Debug, Clone, Copy, PartialEq, Eq, Structural)]
pub enum AttachmentKind {
    Video,
    Slides,
    Notes,
    Recitation,
    Reading,
    Code,
    Homework,
    Discussion,
    Outline,
    Summary,
    Other,
}

/// Anything attached to a session; a label without a URL is a citation.
#[derive(Debug, Clone)]
pub struct Attachment {
    pub kind: AttachmentKind,
    pub label: String,
    pub url: Option<String>,
    /// Required reading, as opposed to further reading.
    pub required: bool,
}

/// An attachment is required reading unless it says otherwise.
pub fn default_required() -> (r: bool)
    ensures
        r,
{
    true
}

/// A session is a lecture unless it says otherwise.
pub fn default_session_kind() -> (r: String)
    ensures
        r@ == "lecture"@,
{
    "lecture".to_owned()
}

#[derive(Debug, Clone)]
pub struct TermSessionRow {
    pub id: String,
    pub term_id: String,
    pub sort_order: i32,
    pub topic: Option<String>,
    pub date: Option<String>,
    pub attachments: Vec<Attachment>,
    /// `lecture`, `section` or `exam`.
    pub kind: String,
}

#[derive(Debug, Clone)]
pub struct CreateTerm {
    pub title: String,
    pub code: Option<String>,
    pub description: Option<String>,
    pub syllabus: Option<String>,
    pub institution: Option<String>,
    pub department: Option<String>,
    pub semester: Option<String>,
    pub lang: Option<String>,
    pub license: Option<String>,
    pub source_url: Option<String>,
    pub source_attribution: Option<String>,
    pub authors: Vec<String>,
}

#[derive(Debug, Clone)]
pub struct UpdateTerm {
    pub title: Option<String>,
    pub code: Option<String>,
    pub description: Option<String>,
    pub syllabus: Option<String>,
    pub institution: Option<String>,
    pub department: Option<String>,
    pub semester: Option<String>,
    pub lang: Option<String>,
    pub license: Option<String>,
    pub source_url: Option<String>,
    pub source_attribution: Option<String>,
    pub authors: Option<Vec<String>>,
    pub summary: Option<String>,
}

#[derive(Debug, Clone)]
pub struct CreateSession {
    pub topic: Option<String>,
    pub date: Option<String>,
    pub attachments: Vec<Attachment>,
    pub sort_order: Option<i32>,
    pub kind: Option<String>,
}

#[derive(Debug, Clone)]
pub struct UpdateSession {
    pub topic: Option<String>,
    pub date: Option<String>,
    pub attachments: Option<Vec<Attachment>>,
    pub sort_order: Option<i32>,
    pub kind: Option<String>,
}

/// Supplementary material of a term.
#[derive(Debug, Clone)]
pub struct TermResource {
    pub id: String,
    pub term_id: String,
    pub kind: String,
    pub label: String,
    pub url: String,
    pub position: i16,
}

#[derive(Debug, Clone)]
pub struct TermLearningStatus {
    pub term_id: String,
    pub user_did: String,
    pub status: String,
    pub progress: i16,
    pub updated_at: String,
}

#[derive(Debug, Clone)]
pub struct SessionProgress {
    pub term_id: String,
    pub session_id: String,
    pub user_did: String,
    pub completed: bool,
    pub completed_at: Option<String>,
}

// ── Snapshots ───────────────────────────────────────────────────────────

/// The fields of a term snapshot, as values.
pub struct TermFields {
    pub title: Seq<char>,
    pub code: Option<Seq<char>>,
    pub description: Seq<char>,
    pub syllabus: Seq<char>,
    pub institution: Option<Seq<char>>,
    pub department: Option<Seq<char>>,
    pub semester: Option<Seq<char>>,
    pub lang: Seq<char>,
    pub license: Seq<char>,
    pub source_url: Option<Seq<char>>,
    pub source_attribution: Option<Seq<char>>,
}

pub open spec fn text_or_null(o: Option<Seq<char>>) -> JsonV {
    match o {
        Some(s) => JsonV::Str(s),
        None => JsonV::Null,
    }
}

/// A term snapshot as a JSON object, its keys in increasing order.
pub open spec fn term_json(f: TermFields) -> JsonV {
    JsonV::Object(
        seq![
            ("code"@, text_or_null(f.code)),
            ("department"@, text_or_null(f.department)),
            ("description"@, JsonV::Str(f.description)),
            ("institution"@, text_or_null(f.institution)),
            ("lang"@, JsonV::Str(f.lang)),
            ("license"@, JsonV::Str(f.license)),
            ("semester"@, text_or_null(f.semester)),
            ("source_attribution"@, text_or_null(f.source_attribution)),
            ("source_url"@, text_or_null(f.source_url)),
            ("syllabus"@, JsonV::Str(f.syllabus)),
            ("title"@, JsonV::Str(f.title)),
        ],
    )
}

/// The snapshot fields of a stored term.
pub open spec fn current_fields(c: TermRow, syllabus: Seq<char>) -> TermFields {
    TermFields {
        title: c.title@,
        code: opt_view(c.code),
        description: c.description@,
        syllabus,
        institution: opt_view(c.institution),
        department: opt_view(c.department),
        semester: opt_view(c.semester),
        lang: c.lang@,
        license: c.license@,
        source_url: opt_view(c.source_url),
        source_attribution: opt_view(c.source_attribution),
    }
}

pub open spec fn or_else(a: Option<Seq<char>>, b: Option<Seq<char>>) -> Option<Seq<char>> {
    match a {
        Some(x) => Some(x),
        None => b,
    }
}

/// The snapshot fields after an edit: each field the edit gives replaces
/// the stored one.
pub open spec fn edited_fields(c: TermRow, syllabus: Seq<char>, e: UpdateTerm) -> TermFields {
    TermFields {
        title: or_default(opt_view(e.title), c.title@),
        code: or_else(opt_view(e.code), opt_view(c.code)),
        description: or_default(opt_view(e.description), c.description@),
        syllabus: or_default(opt_view(e.syllabus), syllabus),
        institution: or_else(opt_view(e.institution), opt_view(c.institution)),
        department: or_else(opt_view(e.department), opt_view(c.department)),
        semester: or_else(opt_view(e.semester), opt_view(c.semester)),
        lang: or_default(opt_view(e.lang), c.lang@),
        license: or_default(opt_view(e.license), c.license@),
        source_url: or_else(opt_view(e.source_url), opt_view(c.source_url)),
        source_attribution: or_else(opt_view(e.source_attribution), opt_view(c.source_attribution)),
    }
}

fn text_json(s: &str) -> (r: Json)
    ensures
        jv(r) == JsonV::Str(s@),
{
    Json::Str(s.to_owned())
}

fn opt_text_json(o: &Option<String>) -> (r: Json)
    ensures
        jv(r) == text_or_null(opt_view(*o)),
{
    match o {
        Some(s) => Json::Str(s.clone()),
        None => Json::Null,
    }
}

fn pick<'a>(a: &'a Option<String>, b: &'a Option<String>) -> (r: &'a Option<String>)
    ensures
        opt_view(*r) == or_else(opt_view(*a), opt_view(*b)),
{
    if a.is_some() {
        a
    } else {
        b
    }
}

fn pick_text<'a>(a: &'a Option<String>, b: &'a str) -> (r: &'a str)
    ensures
        r@ == or_default(opt_view(*a), b@),
{
    match a {
        Some(s) => s.as_str(),
        None => b,
    }
}

/// A snapshot object from its fields.
fn snapshot(
    title: &str,
    code: &Option<String>,
    description: &str,
    syllabus: &str,
    institution: &Option<String>,
    department: &Option<String>,
    semester: &Option<String>,
    lang: &str,
    license: &str,
    source_url: &Option<String>,
    source_attribution: &Option<String>,
) -> (r: Json)
    ensures
        jv(r) == term_json(
            TermFields {
                title: title@,
                code: opt_view(*code),
                description: description@,
                syllabus: syllabus@,
                institution: opt_view(*institution),
                department: opt_view(*department),
                semester: opt_view(*semester),
                lang: lang@,
                license: license@,
                source_url: opt_view(*source_url),
                source_attribution: opt_view(*source_attribution),
            },
        ),
{
    let mut m: Vec<(String, Json)> = Vec::new();
    m.push(("code".to_owned(), opt_text_json(code)));
    m.push(("department".to_owned(), opt_text_json(department)));
    m.push(("description".to_owned(), text_json(description)));
    m.push(("institution".to_owned(), opt_text_json(institution)));
    m.push(("lang".to_owned(), text_json(lang)));
    m.push(("license".to_owned(), text_json(license)));
    m.push(("semester".to_owned(), opt_text_json(semester)));
    m.push(("source_attribution".to_owned(), opt_text_json(source_attribution)));
    m.push(("source_url".to_owned(), opt_text_json(source_url)));
    m.push(("syllabus".to_owned(), text_json(syllabus)));
    m.push(("title".to_owned(), text_json(title)));
    proof {
        lemma_jv_entries(m@);
    }
    let r = Json::Object(m);
    assert(jv(r) == JsonV::Object(jv_entries(m@)));
    assert(jv_entries(m@) =~= seq![
        ("code"@, text_or_null(opt_view(*code))),
        ("department"@, text_or_null(opt_view(*department))),
        ("description"@, JsonV::Str(description@)),
        ("institution"@, text_or_null(opt_view(*institution))),
        ("lang"@, JsonV::Str(lang@)),
        ("license"@, JsonV::Str(license@)),
        ("semester"@, text_or_null(opt_view(*semester))),
        ("source_attribution"@, text_or_null(opt_view(*source_attribution))),
        ("source_url"@, text_or_null(opt_view(*source_url))),
        ("syllabus"@, JsonV::Str(syllabus@)),
        ("title"@, JsonV::Str(title@)),
    ]);
    r
}

/// The snapshots of a term before and after an edit, and the patch
/// between them.
#[derive(Debug)]
pub struct TermEdit {
    pub old_doc: Json,
    pub new_doc: Json,
    pub ops: Vec<PatchOp>,
}

/// Snapshot a term before and after an edit and compute the patch.
pub fn term_edit(current: &TermRow, syllabus: &str, input: &UpdateTerm) -> (r: TermEdit)
    ensures
        jv(r.old_doc) == term_json(current_fields(*current, syllabus@)),
        jv(r.new_doc) == term_json(edited_fields(*current, syllabus@, *input)),
        ops_view(r.ops@) == diff_ops(Seq::empty(), jv(r.old_doc), jv(r.new_doc)),
        apply_ops(jv(r.old_doc), ops_view(r.ops@)) == (jv(r.new_doc), None::<Seq<char>>),
{
    let old_doc = snapshot(
        current.title.as_str(),
        &current.code,
        current.description.as_str(),
        syllabus,
        &current.institution,
        &current.department,
        &current.semester,
        current.lang.as_str(),
        current.license.as_str(),
        &current.source_url,
        &current.source_attribution,
    );
    let new_doc = snapshot(
        pick_text(&input.title, current.title.as_str()),
        pick(&input.code, &current.code),
        pick_text(&input.description, current.description.as_str()),
        pick_text(&input.syllabus, syllabus),
        pick(&input.institution, &current.institution),
        pick(&input.department, &current.department),
        pick(&input.semester, &current.semester),
        pick_text(&input.lang, current.lang.as_str()),
        pick_text(&input.license, current.license.as_str()),
        pick(&input.source_url, &current.source_url),
        pick(&input.source_attribution, &current.source_attribution),
    );
    let ops = diff(&old_doc, &new_doc);
    proof {
        lemma_term_json_patchable(current_fields(*current, syllabus@));
        lemma_term_json_patchable(edited_fields(*current, syllabus@, *input));
        lemma_diff_then_apply(jv(old_doc), jv(new_doc));
    }
    TermEdit { old_doc, new_doc, ops }
}

/// What an edit of a term leads to.
#[derive(Debug, Clone, Copy, PartialEq, Eq, Structural)]
pub struct TermEditSteps {
    /// Nothing changes: the stored term is returned as it is.
    pub unchanged: bool,
    /// The patch is recorded (applied for the owner, pending otherwise).
    pub record_patch: bool,
    /// The owner's field changes are written to the term.
    pub write_fields: bool,
    /// The owner's author list replaces the stored one.
    pub write_authors: bool,
}

/// An edit without field changes and without authors changes nothing;
/// field changes are recorded as a patch; only the owner's edit is written
/// through.
pub fn term_edit_steps(ops_len: usize, authors_given: bool, is_owner: bool) -> (r: TermEditSteps)
    ensures
        r.unchanged == (ops_len == 0 && !authors_given),
        r.record_patch == (ops_len > 0),
        r.write_fields == (is_owner && ops_len > 0),
        r.write_authors == (is_owner && authors_given && !r.unchanged),
{
    let unchanged = ops_len == 0 && !authors_given;
    TermEditSteps {
        unchanged,
        record_patch: ops_len > 0,
        write_fields: is_owner && ops_len > 0,
        write_authors: is_owner && authors_given && !unchanged,
    }
}

// ── Term patches reproduce the edit ─────────────────────────────────────

proof fn lemma_sorted_from_adjacent(m: Seq<(Seq<char>, JsonV)>)
    requires
        forall|i: int| 0 <= i < m.len() - 1 ==> key_lt(#[trigger] m[i].0, m[i + 1].0),
    ensures
        sorted_keys(m),
{
    assert forall|i: int, j: int| 0 <= i < j < m.len() implies key_lt(#[trigger] m[i].0, #[trigger] m[j].0) by {
        lemma_adjacent_chain(m, i, j);
    }
}

proof fn lemma_adjacent_chain(m: Seq<(Seq<char>, JsonV)>, i: int, j: int)
    requires
        forall|k: int| 0 <= k < m.len() - 1 ==> key_lt(#[trigger] m[k].0, m[k + 1].0),
        0 <= i < j < m.len(),
    ensures
        key_lt(m[i].0, m[j].0),
    decreases j - i,
{
    if j > i + 1 {
        lemma_adjacent_chain(m, i, j - 1);
        assert(key_lt(m[j - 1].0, m[j].0));
        lemma_key_lt_trans(m[i].0, m[j - 1].0, m[j].0);
    }
}

proof fn lemma_entries_patchable_from(m: Seq<(Seq<char>, JsonV)>, top: bool)
    requires
        forall|i: int| 0 <= i < m.len() ==> key_ok(#[trigger] m[i].0, top) && patchable(m[i].1, false),
    ensures
        entries_patchable(m, top),
    decreases m.len(),
{
    if m.len() > 0 {
        let m1 = m.subrange(0, m.len() - 1);
        assert forall|i: int| 0 <= i < m1.len() implies key_ok(#[trigger] m1[i].0, top) && patchable(m1[i].1, false) by {
            assert(m1[i] == m[i]);
        }
        lemma_entries_patchable_from(m1, top);
        assert(key_ok(m[m.len() - 1].0, top) && patchable(m[m.len() - 1].1, false));
    }
}

/// A key without `/` and `~` that is not empty is carried by a pointer.
proof fn lemma_plain_key(k: Seq<char>)
    requires
        k.len() > 0,
        forall|i: int| 0 <= i < k.len() ==> #[trigger] k[i] != '/' && k[i] != '~',
    ensures
        key_ok(k, true),
{
    reveal_strlit("~0");
    reveal_strlit("~1");
    lemma_find_from(k, "~0"@, 0);
    lemma_find_from(k, "~1"@, 0);
    if find(k, "~0"@).is_some() {
        let j = find(k, "~0"@).unwrap();
        assert(k.subrange(j, j + 2)[0] == k[j]);
    }
    if find(k, "~1"@).is_some() {
        let j = find(k, "~1"@).unwrap();
        assert(k.subrange(j, j + 2)[0] == k[j]);
    }
}

/// Every term snapshot is a document that patches reproduce.
pub proof fn lemma_term_json_patchable(f: TermFields)
    ensures
        patchable(term_json(f), true),
{
    let m = match term_json(f) {
        JsonV::Object(m) => m,
        _ => Seq::empty(),
    };
    reveal_strlit("code");
    reveal_strlit("department");
    reveal_strlit("description");
    reveal_strlit("institution");
    reveal_strlit("lang");
    reveal_strlit("license");
    reveal_strlit("semester");
    reveal_strlit("source_attribution");
    reveal_strlit("source_url");
    reveal_strlit("syllabus");
    reveal_strlit("title");
    reveal_with_fuel(key_lt, 10);
    assert(m.len() == 11);
    assert(key_lt(m[0].0, m[1].0));
    assert(key_lt(m[1].0, m[2].0));
    assert(key_lt(m[2].0, m[3].0));
    assert(key_lt(m[3].0, m[4].0));
    assert(key_lt(m[4].0, m[5].0));
    assert(key_lt(m[5].0, m[6].0));
    assert(key_lt(m[6].0, m[7].0));
    assert(key_lt(m[7].0, m[8].0));
    assert(key_lt(m[8].0, m[9].0));
    assert(key_lt(m[9].0, m[10].0));
    lemma_sorted_from_adjacent(m);
    assert forall|i: int| 0 <= i < m.len() implies key_ok(#[trigger] m[i].0, true) && patchable(m[i].1, false) by {
        lemma_plain_key(m[i].0);
    }
    lemma_entries_patchable_from(m, true);
}

} // verus!
