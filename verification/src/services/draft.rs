//! Drafts: the stored defaults of a new draft and the column changes of an
//! edit.

use vstd::prelude::*;

use crate::content::ContentFormat;
use crate::error::Error;
use crate::meta::{copy_opt_string, copy_strings};
use crate::models::draft::{SaveDraft, UpdateDraft};
use crate::models::tag::ArticlePrereq;
use crate::services::access::require_owner;
use crate::services::article::or_default;
use crate::models::article::opt_view;
use crate::text::{concat3, concat4, push_all};

verus! {

/// A stored draft (timestamps as RFC 3339 text; tags and prerequisites as
/// their JSON text).
#[derive(Debug, Clone)]
pub struct Draft {
    pub id: String,
    pub did: String,
    pub title: String,
    pub description: String,
    pub content: String,
    pub content_format: ContentFormat,
    pub lang: String,
    pub license: String,
    pub tags: String,
    pub prereqs: String,
    pub at_uri: Option<String>,
    pub created_at: String,
    pub updated_at: String,
}

/// The values a new draft is stored with besides its own fields: an empty
/// description, language `zh` and license `CC-BY-SA-4.0` where the request
/// leaves them out.
#[derive(Debug, Clone)]
pub struct DraftDefaults {
    pub description: String,
    pub lang: String,
    pub license: String,
}

fn string_or_default(o: &Option<String>, d: &str) -> (r: String)
    ensures
        r@ == or_default(opt_view(*o), d@),
{
    match o {
        Some(s) => s.clone(),
        None => d.to_owned(),
    }
}

pub fn draft_defaults(input: &SaveDraft) -> (r: DraftDefaults)
    ensures
        r.description@ == or_default(opt_view(input.description), ""@),
        r.lang@ == or_default(opt_view(input.lang), "zh"@),
        r.license@ == or_default(opt_view(input.license), "CC-BY-SA-4.0"@),
{
    DraftDefaults {
        description: string_or_default(&input.description, ""),
        lang: string_or_default(&input.lang, "zh"),
        license: string_or_default(&input.license, "CC-BY-SA-4.0"),
    }
}

/// Only the owner edits a draft; an unknown draft is `NotFound`.
pub fn check_draft_editor(owner: Option<&str>, did: &str, id: &str) -> (r: Result<(), Error>)
    ensures
        match owner {
            None => r matches Err(Error::NotFound { entity: e, id: i }) && e@ == "draft"@ && i@
                == id@,
            Some(o) => if o@ != did@ {
                r matches Err(Error::Forbidden { action: a }) && a@
                    == "update draft owned by another user"@
            } else {
                r is Ok
            },
        },
{
    require_owner(owner, did, "update draft owned by another user", "draft", id)
}

/// One column an edit sets.
#[derive(Debug, Clone)]
pub enum DraftChange {
    Title(String),
    Description(String),
    Content(String),
    ContentFormat(ContentFormat),
    Lang(String),
    License(String),
    Tags(Vec<String>),
    Prereqs(Vec<ArticlePrereq>),
}

/// `s` with `x` appended when `b` holds.
pub open spec fn push_if(s: Seq<DraftChange>, b: bool, x: DraftChange) -> Seq<DraftChange> {
    if b {
        s.push(x)
    } else {
        s
    }
}

/// The changes of an edit, in column order: each field the request gives.
pub open spec fn draft_changes_of(input: UpdateDraft) -> Seq<DraftChange> {
    let s0 = Seq::<DraftChange>::empty();
    let s1 = push_if(s0, input.title.is_some(), DraftChange::Title(input.title.unwrap()));
    let s2 = push_if(s1, input.description.is_some(), DraftChange::Description(input.description.unwrap()));
    let s3 = push_if(s2, input.content.is_some(), DraftChange::Content(input.content.unwrap()));
    let s4 = push_if(s3, input.content_format.is_some(), DraftChange::ContentFormat(input.content_format.unwrap()));
    let s5 = push_if(s4, input.lang.is_some(), DraftChange::Lang(input.lang.unwrap()));
    let s6 = push_if(s5, input.license.is_some(), DraftChange::License(input.license.unwrap()));
    let s7 = push_if(s6, input.tags.is_some(), DraftChange::Tags(input.tags.unwrap()));
    push_if(s7, input.prereqs.is_some(), DraftChange::Prereqs(input.prereqs.unwrap()))
}

/// `r` holds the changes of `want`, one for one.
pub open spec fn changes_match(r: Seq<DraftChange>, want: Seq<DraftChange>) -> bool {
    r.len() == want.len() && forall|i: int| 0 <= i < r.len() ==> same_change(#[trigger] r[i], want[i])
}

fn push_change(r: &mut Vec<DraftChange>, c: DraftChange, Ghost(want): Ghost<Seq<DraftChange>>, Ghost(w): Ghost<DraftChange>)
    requires
        changes_match(old(r)@, want),
        same_change(c, w),
    ensures
        changes_match(final(r)@, want.push(w)),
{
    r.push(c);
    assert forall|i: int| 0 <= i < r@.len() implies same_change(#[trigger] r@[i], want.push(w)[i]) by {
        if i < want.len() {
            assert(r@[i] == old(r)@[i]);
        }
    }
}

/// A copy of a list of prerequisites.
pub fn copy_article_prereqs(v: &Vec<ArticlePrereq>) -> (r: Vec<ArticlePrereq>)
    ensures
        r@.len() == v@.len(),
        forall|i: int|
            0 <= i < v@.len() ==> (#[trigger] r@[i]).tag_id == v@[i].tag_id && r@[i].prereq_type
                == v@[i].prereq_type,
{
    let mut r: Vec<ArticlePrereq> = Vec::new();
    let mut i: usize = 0;
    while i < v.len()
        invariant
            i <= v@.len(),
            r@.len() == i,
            forall|l: int|
                0 <= l < i ==> (#[trigger] r@[l]).tag_id == v@[l].tag_id && r@[l].prereq_type
                    == v@[l].prereq_type,
        decreases v@.len() - i,
    {
        r.push(ArticlePrereq { tag_id: v[i].tag_id.clone(), prereq_type: v[i].prereq_type });
        i = i + 1;
    }
    r
}

/// Whether two changes set the same column to the same value.
pub open spec fn same_change(a: DraftChange, b: DraftChange) -> bool {
    match (a, b) {
        (DraftChange::Tags(x), DraftChange::Tags(y)) => x@ == y@,
        (DraftChange::Prereqs(x), DraftChange::Prereqs(y)) => x.len() == y.len() && forall|i: int|
            0 <= i < x.len() ==> (#[trigger] x[i]).tag_id == y[i].tag_id && x[i].prereq_type
                == y[i].prereq_type,
        _ => a == b,
    }
}

/// The column changes of an edit.
pub fn draft_changes(input: &UpdateDraft) -> (r: Vec<DraftChange>)
    ensures
        changes_match(r@, draft_changes_of(*input)),
{
    let mut r: Vec<DraftChange> = Vec::new();
    let ghost s0 = Seq::<DraftChange>::empty();
    let ghost s1 = push_if(s0, input.title.is_some(), DraftChange::Title(input.title.unwrap()));
    let ghost s2 = push_if(s1, input.description.is_some(), DraftChange::Description(input.description.unwrap()));
    let ghost s3 = push_if(s2, input.content.is_some(), DraftChange::Content(input.content.unwrap()));
    let ghost s4 = push_if(s3, input.content_format.is_some(), DraftChange::ContentFormat(input.content_format.unwrap()));
    let ghost s5 = push_if(s4, input.lang.is_some(), DraftChange::Lang(input.lang.unwrap()));
    let ghost s6 = push_if(s5, input.license.is_some(), DraftChange::License(input.license.unwrap()));
    let ghost s7 = push_if(s6, input.tags.is_some(), DraftChange::Tags(input.tags.unwrap()));
    assert(changes_match(r@, s0));
    if let Some(t) = &input.title {
        push_change(&mut r, DraftChange::Title(t.clone()), Ghost(s0), Ghost(DraftChange::Title(*t)));
    }
    assert(changes_match(r@, s1));
    if let Some(t) = &input.description {
        push_change(&mut r, DraftChange::Description(t.clone()), Ghost(s1), Ghost(DraftChange::Description(*t)));
    }
    assert(changes_match(r@, s2));
    if let Some(t) = &input.content {
        push_change(&mut r, DraftChange::Content(t.clone()), Ghost(s2), Ghost(DraftChange::Content(*t)));
    }
    assert(changes_match(r@, s3));
    if let Some(f) = input.content_format {
        push_change(&mut r, DraftChange::ContentFormat(f), Ghost(s3), Ghost(DraftChange::ContentFormat(f)));
    }
    assert(changes_match(r@, s4));
    if let Some(t) = &input.lang {
        push_change(&mut r, DraftChange::Lang(t.clone()), Ghost(s4), Ghost(DraftChange::Lang(*t)));
    }
    assert(changes_match(r@, s5));
    if let Some(t) = &input.license {
        push_change(&mut r, DraftChange::License(t.clone()), Ghost(s5), Ghost(DraftChange::License(*t)));
    }
    assert(changes_match(r@, s6));
    if let Some(t) = &input.tags {
        push_change(&mut r, DraftChange::Tags(copy_strings(t)), Ghost(s6), Ghost(DraftChange::Tags(*t)));
    }
    assert(changes_match(r@, s7));
    if let Some(p) = &input.prereqs {
        push_change(&mut r, DraftChange::Prereqs(copy_article_prereqs(p)), Ghost(s7), Ghost(DraftChange::Prereqs(*p)));
    }
    r
}

// ── JSON text of the tag and prerequisite columns ───────────────────────

/// The strings of a JSON array of strings, read from its text; `None`
/// when the text is not such an array.
pub uninterp spec fn json_string_list(text: Seq<char>) -> Option<Seq<Seq<char>>>;

/// `serde_json::from_str::<Vec<String>>`: the strings of a JSON array of
/// strings, or `None` when the text does not parse as one. The result is a
/// function of the text alone, named `json_string_list`.
#[verifier::external_body]
fn parse_string_list(text: &str) -> (r: Option<Vec<String>>)
    ensures
        match json_string_list(text@) {
            Some(v) => r.is_some() && r.unwrap()@.map_values(|s: String| s@) == v,
            None => r.is_none(),
        },
{
    serde_json::from_str::<Vec<String>>(text).ok()
}

/// The tags a draft stores as JSON text; text that is not a JSON array of
/// strings reads as no tags.
pub fn draft_tags(tags_json: &str) -> (r: Vec<String>)
    ensures
        r@.map_values(|s: String| s@) == match json_string_list(tags_json@) {
            Some(v) => v,
            None => Seq::empty(),
        },
{
    match parse_string_list(tags_json) {
        Some(v) => v,
        None => {
            let v: Vec<String> = Vec::new();
            assert(v@.map_values(|s: String| s@) =~= Seq::<Seq<char>>::empty());
            v
        },
    }
}

/// The JSON text of a string: quoted, with the characters JSON requires
/// escaped.
pub uninterp spec fn json_string_text(s: Seq<char>) -> Seq<char>;

/// `serde_json::to_string` of a string slice. Writing into memory cannot
/// fail, so the error arm is never taken; the text is named
/// `json_string_text`, a function of the string alone.
#[verifier::external_body]
fn json_string(s: &str) -> (r: String)
    ensures
        r@ == json_string_text(s@),
{
    serde_json::to_string(s).unwrap_or_default()
}

/// The items separated by commas.
pub open spec fn comma_joined(items: Seq<Seq<char>>) -> Seq<char>
    decreases items.len(),
{
    if items.len() == 0 {
        Seq::empty()
    } else if items.len() == 1 {
        items[0]
    } else {
        comma_joined(items.drop_last()) + ","@ + items.last()
    }
}

/// A compact JSON array of the given item texts.
pub open spec fn json_array(items: Seq<Seq<char>>) -> Seq<char> {
    "["@ + comma_joined(items) + "]"@
}

fn json_array_of(items: &Vec<String>) -> (r: String)
    ensures
        r@ == json_array(items@.map_values(|s: String| s@)),
{
    let ghost all = items@.map_values(|s: String| s@);
    let mut body = String::new();
    let mut i: usize = 0;
    while i < items.len()
        invariant
            i <= items@.len(),
            all == items@.map_values(|s: String| s@),
            body@ == comma_joined(all.take(i as int)),
        decreases items@.len() - i,
    {
        let ghost before = body@;
        if i > 0 {
            push_all(&mut body, ",");
        }
        push_all(&mut body, items[i].as_str());
        proof {
            assert(all.take(i + 1).drop_last() =~= all.take(i as int));
            if i == 0 {
                assert(before =~= Seq::<char>::empty());
                assert(body@ =~= all.take(1)[0]);
            }
        }
        i = i + 1;
    }
    assert(all.take(i as int) =~= all);
    concat3("[", body.as_str(), "]")
}

/// The JSON text a draft stores for its tags: the compact JSON array of
/// the tags (what `serde_json::to_string` writes for a list of strings).
pub fn tags_json(tags: &Vec<String>) -> (r: String)
    ensures
        r@ == json_array(tags@.map_values(|t: String| json_string_text(t@))),
{
    let mut items: Vec<String> = Vec::new();
    let mut i: usize = 0;
    while i < tags.len()
        invariant
            i <= tags@.len(),
            items@.len() == i,
            items@.map_values(|s: String| s@) == tags@.take(i as int).map_values(|t: String| json_string_text(t@)),
        decreases tags@.len() - i,
    {
        let ghost prev = items@;
        items.push(json_string(tags[i].as_str()));
        proof {
            let want = tags@.take(i + 1).map_values(|t: String| json_string_text(t@));
            let got = items@.map_values(|s: String| s@);
            assert forall|k: int| 0 <= k < i + 1 implies got[k] == want[k] by {
                if k < i {
                    assert(items@[k] == prev[k]);
                    assert(prev.map_values(|s: String| s@)[k] == tags@.take(i as int).map_values(|t: String| json_string_text(t@))[k]);
                }
            }
            assert(got =~= want);
        }
        i = i + 1;
    }
    assert(tags@.take(i as int) =~= tags@);
    json_array_of(&items)
}

/// The JSON object of a prerequisite: its tag and its strength, in that
/// order.
pub open spec fn prereq_json_text(p: ArticlePrereq) -> Seq<char> {
    "{\"tag_id\":"@ + json_string_text(p.tag_id@) + ",\"prereq_type\":\""@ + p.prereq_type.name()
        + "\"}"@
}

/// The JSON text a draft stores for its prerequisites: the compact JSON
/// array of their objects (what `serde_json::to_string` writes for them).
pub fn prereqs_json(prereqs: &Vec<ArticlePrereq>) -> (r: String)
    ensures
        r@ == json_array(prereqs@.map_values(|p: ArticlePrereq| prereq_json_text(p))),
{
    let mut items: Vec<String> = Vec::new();
    let mut i: usize = 0;
    while i < prereqs.len()
        invariant
            i <= prereqs@.len(),
            items@.len() == i,
            items@.map_values(|s: String| s@) == prereqs@.take(i as int).map_values(|p: ArticlePrereq| prereq_json_text(p)),
        decreases prereqs@.len() - i,
    {
        let tag = json_string(prereqs[i].tag_id.as_str());
        let mut item = concat3("{\"tag_id\":", tag.as_str(), ",\"prereq_type\":\"");
        push_all(&mut item, prereqs[i].prereq_type.as_str());
        push_all(&mut item, "\"}");
        let ghost prev = items@;
        items.push(item);
        proof {
            let want = prereqs@.take(i + 1).map_values(|p: ArticlePrereq| prereq_json_text(p));
            let got = items@.map_values(|s: String| s@);
            assert forall|k: int| 0 <= k < i + 1 implies got[k] == want[k] by {
                if k < i {
                    assert(items@[k] == prev[k]);
                    assert(prev.map_values(|s: String| s@)[k] == prereqs@.take(i as int).map_values(|p: ArticlePrereq| prereq_json_text(p))[k]);
                }
            }
            assert(got =~= want);
        }
        i = i + 1;
    }
    assert(prereqs@.take(i as int) =~= prereqs@);
    json_array_of(&items)
}

} // verus!
