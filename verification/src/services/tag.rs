//! Tags (concepts): the default language of a new tag, which of its
//! names become labels, grouping labels by tag, and deletion requests.

use vstd::prelude::*;

use crate::error::{Error, ValidationError};
use crate::text::{chars_of, str_eq, string_of_range, trim, trim_bounds};

verus! {

/// A CJK ideograph, kana or hangul syllable.
pub open spec fn is_cjk(c: char) -> bool {
    let u = c as u32;
    (0x4E00 <= u <= 0x9FFF) || (0x3400 <= u <= 0x4DBF) || (0x3040 <= u <= 0x309F) || (0x30A0
        <= u <= 0x30FF) || (0xAC00 <= u <= 0xD7AF)
}

/// Detect a tag's default language from its id: `zh` when any character is
/// CJK, else `en`.
pub fn guess_lang_from_id(id: &str) -> (r: &'static str)
    ensures
        (exists|i: int| 0 <= i < id@.len() && #[trigger] is_cjk(id@[i])) ==> r@ == "zh"@,
        !(exists|i: int| 0 <= i < id@.len() && #[trigger] is_cjk(id@[i])) ==> r@ == "en"@,
{
    let v = chars_of(id);
    let mut i: usize = 0;
    while i < v.len()
        invariant
            i <= v@.len(),
            v@ == id@,
            forall|j: int| 0 <= j < i ==> !#[trigger] is_cjk(v@[j]),
        decreases v@.len() - i,
    {
        let code = v[i] as u32;
        if (0x4E00 <= code && code <= 0x9FFF) || (0x3400 <= code && code <= 0x4DBF) || (0x3040
            <= code && code <= 0x309F) || (0x30A0 <= code && code <= 0x30FF) || (0xAC00 <= code
            && code <= 0xD7AF) {
            assert(is_cjk(id@[i as int]));
            return "zh";
        }
        i = i + 1;
    }
    "en"
}


/// The names of an entry list that become new labels: trimmed, neither
/// empty nor in the tag's own language.
pub open spec fn extra_label_entries(own_lang: Seq<char>, entries: Seq<(String, String)>) -> Seq<
    (Seq<char>, Seq<char>),
>
    decreases entries.len(),
{
    if entries.len() == 0 {
        Seq::empty()
    } else {
        let e = entries.last();
        extra_label_entries(own_lang, entries.drop_last()) + if trim(e.1@).len() == 0 || e.0@
            == own_lang {
            Seq::empty()
        } else {
            seq![(e.0@, trim(e.1@))]
        }
    }
}

fn trimmed(s: &str) -> (r: String)
    ensures
        r@ == trim(s@),
{
    let v = chars_of(s);
    let (a, b) = trim_bounds(v.as_slice(), 0, v.len());
    assert(v@.subrange(0, v@.len() as int) =~= v@);
    string_of_range(v.as_slice(), a, b)
}

/// The labels (language, name) that a new tag gets from its names by
/// language, besides its own.
pub fn extra_labels(own_lang: &str, entries: &Vec<(String, String)>) -> (r: Vec<(String, String)>)
    requires
        distinct_langs(entries@),
    ensures
        r@.map_values(|e: (String, String)| (e.0@, e.1@)) == extra_label_entries(own_lang@, entries@),
{
    let mut r: Vec<(String, String)> = Vec::new();
    let mut i: usize = 0;
    while i < entries.len()
        invariant
            i <= entries@.len(),
            r@.map_values(|e: (String, String)| (e.0@, e.1@)) == extra_label_entries(own_lang@, entries@.take(i as int)),
        decreases entries@.len() - i,
    {
        assert(entries@.take(i + 1).drop_last() =~= entries@.take(i as int));
        let name = trimmed(entries[i].1.as_str());
        if !name.as_str().is_empty() && !str_eq(entries[i].0.as_str(), own_lang) {
            r.push((entries[i].0.clone(), name));
        } else {
            assert(name@.len() == 0 || entries@[i as int].0@ == own_lang@);
        }
        i = i + 1;
        assert(r@.map_values(|e: (String, String)| (e.0@, e.1@)) =~= extra_label_entries(own_lang@, entries@.take(i as int)));
    }
    assert(entries@.take(i as int) =~= entries@);
    r
}

/// A change to the names of a tag.
#[derive(Debug, Clone, PartialEq, Eq)]
pub enum NameUpdate {
    /// Rename the label the edit started from (same language).
    RenameOrigin(String),
    /// Set the name of the tag's label in another language, adding one
    /// when there is none.
    SetSibling { lang: String, name: String },
}

/// An update as values: whether it renames the origin label, the
/// language it sets (empty for a rename) and the name.
pub open spec fn name_update_view(u: NameUpdate) -> (bool, Seq<char>, Seq<char>) {
    match u {
        NameUpdate::RenameOrigin(n) => (true, Seq::empty(), n@),
        NameUpdate::SetSibling { lang, name } => (false, lang@, name@),
    }
}

/// No two entries name the same language (the entries of a map keyed by
/// language).
pub open spec fn distinct_langs(entries: Seq<(String, String)>) -> bool {
    forall|i: int, j: int| 0 <= i < j < entries.len() ==> #[trigger] entries[i].0@ != #[trigger] entries[j].0@
}

/// The changes an edit of a tag's names makes: each trimmed, non-empty
/// name, as a rename of the origin label in its language, or as the name
/// in another language.
pub open spec fn name_updates_of(origin_lang: Seq<char>, entries: Seq<(String, String)>) -> Seq<(bool, Seq<char>, Seq<char>)>
    decreases entries.len(),
{
    if entries.len() == 0 {
        Seq::empty()
    } else {
        let e = entries.last();
        name_updates_of(origin_lang, entries.drop_last()) + if trim(e.1@).len() == 0 {
            Seq::empty()
        } else if e.0@ == origin_lang {
            seq![(true, Seq::<char>::empty(), trim(e.1@))]
        } else {
            seq![(false, e.0@, trim(e.1@))]
        }
    }
}

pub fn name_updates(origin_lang: &str, entries: &Vec<(String, String)>) -> (r: Vec<NameUpdate>)
    requires
        distinct_langs(entries@),
    ensures
        r@.map_values(|u: NameUpdate| name_update_view(u)) == name_updates_of(origin_lang@, entries@),
        forall|i: int| 0 <= i < r@.len() ==> (#[trigger] r@[i] matches NameUpdate::SetSibling { lang, .. } ==> lang@ != origin_lang@),
{
    let mut r: Vec<NameUpdate> = Vec::new();
    let mut i: usize = 0;
    while i < entries.len()
        invariant
            i <= entries@.len(),
            r@.map_values(|u: NameUpdate| name_update_view(u)) == name_updates_of(origin_lang@, entries@.take(i as int)),
            forall|k: int| 0 <= k < r@.len() ==> (#[trigger] r@[k] matches NameUpdate::SetSibling { lang, .. } ==> lang@ != origin_lang@),
        decreases entries@.len() - i,
    {
        assert(entries@.take(i + 1).drop_last() =~= entries@.take(i as int));
        let name = trimmed(entries[i].1.as_str());
        if !name.as_str().is_empty() {
            if str_eq(entries[i].0.as_str(), origin_lang) {
                r.push(NameUpdate::RenameOrigin(name));
            } else {
                r.push(NameUpdate::SetSibling { lang: entries[i].0.clone(), name });
            }
        }
        i = i + 1;
        assert(r@.map_values(|u: NameUpdate| name_update_view(u)) =~= name_updates_of(origin_lang@, entries@.take(i as int)));
    }
    assert(entries@.take(i as int) =~= entries@);
    r
}

/// The tag of a label: that of the last row for it.
pub open spec fn tag_of_label(rows: Seq<(String, String)>, id: Seq<char>) -> Option<Seq<char>>
    decreases rows.len(),
{
    if rows.len() == 0 {
        None
    } else if rows.last().0@ == id {
        Some(rows.last().1@)
    } else {
        tag_of_label(rows.drop_last(), id)
    }
}

/// Whether label `i` shares its tag with an earlier label.
pub open spec fn tag_seen_before(ids: Seq<String>, rows: Seq<(String, String)>, i: int) -> bool {
    exists|j: int| 0 <= j < i && tag_of_label(rows, (#[trigger] ids[j])@) == tag_of_label(rows, ids[i]@)
}

/// One label per tag, in input order; labels without a tag are kept.
pub open spec fn deduped_labels(ids: Seq<String>, rows: Seq<(String, String)>) -> Seq<Seq<char>>
    decreases ids.len(),
{
    if ids.len() == 0 {
        Seq::empty()
    } else {
        let i = ids.len() - 1;
        deduped_labels(ids.drop_last(), rows) + if tag_of_label(rows, ids[i]@).is_some() && tag_seen_before(ids, rows, i) {
            Seq::empty()
        } else {
            seq![ids[i]@]
        }
    }
}

fn tag_of_label_exec(rows: &Vec<(String, String)>, id: &str) -> (r: Option<String>)
    ensures
        match tag_of_label(rows@, id@) {
            Some(t) => r.is_some() && r.unwrap()@ == t,
            None => r.is_none(),
        },
{
    let mut n = rows.len();
    assert(rows@.take(n as int) =~= rows@);
    while n > 0
        invariant
            n <= rows@.len(),
            tag_of_label(rows@, id@) == tag_of_label(rows@.take(n as int), id@),
        decreases n,
    {
        assert(rows@.take(n as int).drop_last() =~= rows@.take(n - 1));
        if str_eq(rows[n - 1].0.as_str(), id) {
            return Some(rows[n - 1].1.clone());
        }
        n = n - 1;
    }
    None
}

fn opt_str_eq(a: &Option<String>, b: &Option<String>) -> (r: bool)
    ensures
        r == (match (a, b) {
            (Some(x), Some(y)) => x@ == y@,
            (None, None) => true,
            _ => false,
        }),
{
    match (a, b) {
        (Some(x), Some(y)) => str_eq(x.as_str(), y.as_str()),
        (None, None) => true,
        _ => false,
    }
}

/// Keep one label per tag, the first of each, given the (label, tag) rows
/// of the labels.
pub fn dedupe_labels_by_tag(ids: &Vec<String>, rows: &Vec<(String, String)>) -> (r: Vec<String>)
    ensures
        r@.map_values(|s: String| s@) == deduped_labels(ids@, rows@),
{
    let mut out: Vec<String> = Vec::new();
    let mut i: usize = 0;
    while i < ids.len()
        invariant
            i <= ids@.len(),
            out@.map_values(|s: String| s@) == deduped_labels(ids@.take(i as int), rows@),
        decreases ids@.len() - i,
    {
        let ghost t = ids@.take(i + 1);
        assert(t.drop_last() =~= ids@.take(i as int));
        assert(t[i as int] == ids@[i as int]);
        let tag = tag_of_label_exec(rows, ids[i].as_str());
        let mut seen = false;
        let mut j: usize = 0;
        while j < i
            invariant
                i < ids@.len(),
                j <= i,
                t == ids@.take(i + 1),
                match tag_of_label(rows@, ids@[i as int]@) {
                    Some(x) => tag.is_some() && tag.unwrap()@ == x,
                    None => tag.is_none(),
                },
                seen == (exists|l: int| 0 <= l < j && tag_of_label(rows@, (#[trigger] ids@[l])@) == tag_of_label(rows@, ids@[i as int]@)),
            decreases i - j,
        {
            let other = tag_of_label_exec(rows, ids[j].as_str());
            if opt_str_eq(&other, &tag) {
                seen = true;
            }
            j = j + 1;
        }
        assert(seen == tag_seen_before(t, rows@, i as int)) by {
            if seen {
                let l = choose|l: int| 0 <= l < i && tag_of_label(rows@, (#[trigger] ids@[l])@) == tag_of_label(rows@, ids@[i as int]@);
                assert(t[l] == ids@[l]);
            }
            if tag_seen_before(t, rows@, i as int) {
                let l = choose|l: int| 0 <= l < i && tag_of_label(rows@, (#[trigger] t[l])@) == tag_of_label(rows@, t[i as int]@);
                assert(t[l] == ids@[l]);
            }
        }
        let ghost before = out@.map_values(|s: String| s@);
        if tag.is_none() || !seen {
            out.push(ids[i].clone());
        }
        i = i + 1;
        assert(out@.map_values(|s: String| s@) =~= deduped_labels(ids@.take(i as int), rows@));
    }
    assert(ids@.take(i as int) =~= ids@);
    out
}

/// A label can have one pending deletion request at a time.
pub fn check_no_pending_deletion(pending: bool) -> (r: Result<(), Error>)
    ensures
        pending ==> (r matches Err(Error::Validation(v)) && v@.len() == 1 && v@[0].field@ == "label_id"@
            && v@[0].message@ == "this label already has a pending deletion request under review"@),
        !pending ==> r is Ok,
{
    if pending {
        let mut v: Vec<ValidationError> = Vec::new();
        v.push(
            ValidationError {
                field: "label_id".to_owned(),
                message: "this label already has a pending deletion request under review".to_owned(),
            },
        );
        Err(Error::Validation(v))
    } else {
        Ok(())
    }
}

/// A new label is made exactly for each entry in another language than
/// the tag's own whose trimmed name is not empty, with that trimmed name.
pub proof fn lemma_extra_label_members(own_lang: Seq<char>, entries: Seq<(String, String)>, x: (Seq<char>, Seq<char>))
    ensures
        extra_label_entries(own_lang, entries).contains(x) <==> exists|i: int|
            0 <= i < entries.len() && (#[trigger] entries[i]).0@ != own_lang && trim(entries[i].1@).len() > 0
                && x == (entries[i].0@, trim(entries[i].1@)),
    decreases entries.len(),
{
    if entries.len() > 0 {
        let n = entries.len() - 1;
        let pre = entries.drop_last();
        lemma_extra_label_members(own_lang, pre, x);
        let e = entries.last();
        let tail = if trim(e.1@).len() == 0 || e.0@ == own_lang {
            Seq::empty()
        } else {
            seq![(e.0@, trim(e.1@))]
        };
        let zp = extra_label_entries(own_lang, pre);
        assert(extra_label_entries(own_lang, entries) == zp + tail);
        if (zp + tail).contains(x) {
            let k = choose|k: int| 0 <= k < (zp + tail).len() && (zp + tail)[k] == x;
            if k < zp.len() {
                assert(zp[k] == x);
                assert(zp.contains(x));
                let i = choose|i: int| 0 <= i < pre.len() && (#[trigger] pre[i]).0@ != own_lang && trim(pre[i].1@).len() > 0
                    && x == (pre[i].0@, trim(pre[i].1@));
                assert(entries[i] == pre[i]);
            } else {
                assert(entries[n] == e);
            }
        }
        if exists|i: int| 0 <= i < entries.len() && (#[trigger] entries[i]).0@ != own_lang && trim(entries[i].1@).len() > 0
            && x == (entries[i].0@, trim(entries[i].1@)) {
            let i = choose|i: int| 0 <= i < entries.len() && (#[trigger] entries[i]).0@ != own_lang && trim(entries[i].1@).len() > 0
                && x == (entries[i].0@, trim(entries[i].1@));
            if i < n {
                assert(pre[i] == entries[i]);
                let k = choose|k: int| 0 <= k < zp.len() && zp[k] == x;
                assert((zp + tail)[k] == x);
            } else {
                assert((zp + tail)[zp.len() as int] == x);
            }
        }
    }
}

/// The updates of a name edit: a rename of the origin label exactly for an
/// entry in the origin language, a sibling name exactly for an entry in
/// another language, each with its trimmed name, never for a blank name.
pub proof fn lemma_name_update_members(origin_lang: Seq<char>, entries: Seq<(String, String)>, x: (bool, Seq<char>, Seq<char>))
    ensures
        name_updates_of(origin_lang, entries).contains(x) <==> exists|i: int|
            0 <= i < entries.len() && trim((#[trigger] entries[i]).1@).len() > 0 && x == (
                entries[i].0@ == origin_lang,
                if entries[i].0@ == origin_lang { Seq::<char>::empty() } else { entries[i].0@ },
                trim(entries[i].1@),
            ),
    decreases entries.len(),
{
    if entries.len() > 0 {
        let n = entries.len() - 1;
        let pre = entries.drop_last();
        lemma_name_update_members(origin_lang, pre, x);
        let e = entries.last();
        let tail = if trim(e.1@).len() == 0 {
            Seq::empty()
        } else if e.0@ == origin_lang {
            seq![(true, Seq::<char>::empty(), trim(e.1@))]
        } else {
            seq![(false, e.0@, trim(e.1@))]
        };
        let zp = name_updates_of(origin_lang, pre);
        assert(name_updates_of(origin_lang, entries) == zp + tail);
        if (zp + tail).contains(x) {
            let k = choose|k: int| 0 <= k < (zp + tail).len() && (zp + tail)[k] == x;
            if k < zp.len() {
                assert(zp[k] == x);
                assert(zp.contains(x));
                let i = choose|i: int| 0 <= i < pre.len() && trim((#[trigger] pre[i]).1@).len() > 0 && x == (
                    pre[i].0@ == origin_lang,
                    if pre[i].0@ == origin_lang { Seq::<char>::empty() } else { pre[i].0@ },
                    trim(pre[i].1@),
                );
                assert(entries[i] == pre[i]);
            } else {
                assert(entries[n] == e);
            }
        }
        if exists|i: int| 0 <= i < entries.len() && trim((#[trigger] entries[i]).1@).len() > 0 && x == (
            entries[i].0@ == origin_lang,
            if entries[i].0@ == origin_lang { Seq::<char>::empty() } else { entries[i].0@ },
            trim(entries[i].1@),
        ) {
            let i = choose|i: int| 0 <= i < entries.len() && trim((#[trigger] entries[i]).1@).len() > 0 && x == (
                entries[i].0@ == origin_lang,
                if entries[i].0@ == origin_lang { Seq::<char>::empty() } else { entries[i].0@ },
                trim(entries[i].1@),
            );
            if i < n {
                assert(pre[i] == entries[i]);
                let k = choose|k: int| 0 <= k < zp.len() && zp[k] == x;
                assert((zp + tail)[k] == x);
            } else {
                assert((zp + tail)[zp.len() as int] == x);
            }
        }
    }
}

/// The step of `deduped_labels` at the last label.
proof fn lemma_deduped_step(ids: Seq<String>, rows: Seq<(String, String)>)
    requires
        ids.len() > 0,
    ensures
        deduped_labels(ids, rows) == deduped_labels(ids.drop_last(), rows) + if tag_of_label(
            rows,
            ids[ids.len() - 1]@,
        ).is_some() && tag_seen_before(ids, rows, ids.len() - 1) {
            Seq::<Seq<char>>::empty()
        } else {
            seq![ids[ids.len() - 1]@]
        },
{
}

/// Every label kept after dropping same-tag labels is an input label.
pub proof fn lemma_deduped_labels_from_input(ids: Seq<String>, rows: Seq<(String, String)>)
    ensures
        forall|k: int| #![trigger deduped_labels(ids, rows)[k]] 0 <= k < deduped_labels(ids, rows).len() ==> exists|j: int|
            0 <= j < ids.len() && (#[trigger] ids[j])@ == deduped_labels(ids, rows)[k],
    decreases ids.len(),
{
    if ids.len() > 0 {
        let n = ids.len() - 1;
        let pre = ids.drop_last();
        lemma_deduped_labels_from_input(pre, rows);
        lemma_deduped_step(ids, rows);
        let d = deduped_labels(pre, rows);
        let r = deduped_labels(ids, rows);
        assert forall|k: int| #![trigger r[k]] 0 <= k < r.len() implies exists|j: int|
            0 <= j < ids.len() && (#[trigger] ids[j])@ == r[k] by {
            if k < d.len() {
                let j = choose|j: int| 0 <= j < pre.len() && (#[trigger] pre[j])@ == d[k];
                assert(ids[j] == pre[j]);
                assert(r[k] == d[k]);
            } else {
                assert(ids[n]@ == r[k]);
            }
        }
    }
}

/// No two labels kept after dropping same-tag labels stand for the same
/// tag.
pub proof fn lemma_deduped_labels_one_per_tag(ids: Seq<String>, rows: Seq<(String, String)>)
    ensures
        forall|a: int, b: int|
            0 <= a < b < deduped_labels(ids, rows).len() && #[trigger] tag_of_label(rows, deduped_labels(ids, rows)[a]).is_some()
                ==> tag_of_label(rows, deduped_labels(ids, rows)[a]) != #[trigger] tag_of_label(rows, deduped_labels(ids, rows)[b]),
    decreases ids.len(),
{
    if ids.len() > 0 {
        let n = ids.len() - 1;
        let pre = ids.drop_last();
        lemma_deduped_labels_one_per_tag(pre, rows);
        lemma_deduped_labels_from_input(pre, rows);
        lemma_deduped_step(ids, rows);
        let d = deduped_labels(pre, rows);
        let r = deduped_labels(ids, rows);
        let x = ids[n]@;
        if !(tag_of_label(rows, x).is_some() && tag_seen_before(ids, rows, n)) {
            assert forall|a: int, b: int|
                0 <= a < b < r.len() && #[trigger] tag_of_label(rows, r[a]).is_some()
                    implies tag_of_label(rows, r[a]) != #[trigger] tag_of_label(rows, r[b]) by {
                assert(r[a] == d[a]);
                if b < d.len() {
                    assert(r[b] == d[b]);
                } else {
                    assert(r[b] == x);
                    let j = choose|j: int| 0 <= j < pre.len() && (#[trigger] pre[j])@ == d[a];
                    assert(ids[j] == pre[j]);
                    if tag_of_label(rows, r[a]) == tag_of_label(rows, r[b]) {
                        assert(tag_of_label(rows, ids[j]@) == tag_of_label(rows, ids[n]@));
                        assert(tag_seen_before(ids, rows, n));
                    }
                }
            }
        } else {
            assert(r =~= d);
        }
    }
}

/// Every tag of an input label keeps a label, and a label without a known
/// tag is kept itself.
pub proof fn lemma_deduped_labels_cover(ids: Seq<String>, rows: Seq<(String, String)>)
    ensures
        forall|j: int| 0 <= j < ids.len() ==> exists|k: int|
            0 <= k < deduped_labels(ids, rows).len() && #[trigger] tag_of_label(rows, deduped_labels(ids, rows)[k])
                == tag_of_label(rows, (#[trigger] ids[j])@) && (tag_of_label(rows, ids[j]@).is_none()
                ==> deduped_labels(ids, rows)[k] == ids[j]@),
    decreases ids.len(),
{
    if ids.len() > 0 {
        let n = ids.len() - 1;
        let pre = ids.drop_last();
        lemma_deduped_labels_cover(pre, rows);
        lemma_deduped_step(ids, rows);
        let d = deduped_labels(pre, rows);
        let r = deduped_labels(ids, rows);
        let x = ids[n]@;
        assert forall|j: int| 0 <= j < ids.len() implies exists|k: int|
            0 <= k < r.len() && #[trigger] tag_of_label(rows, r[k]) == tag_of_label(rows, (#[trigger] ids[j])@)
                && (tag_of_label(rows, ids[j]@).is_none() ==> r[k] == ids[j]@) by {
            if j < n {
                assert(ids[j] == pre[j]);
                let k = choose|k: int| 0 <= k < d.len() && #[trigger] tag_of_label(rows, d[k]) == tag_of_label(rows, (#[trigger] pre[j])@)
                    && (tag_of_label(rows, pre[j]@).is_none() ==> d[k] == pre[j]@);
                assert(r[k] == d[k]);
            } else if tag_of_label(rows, x).is_some() && tag_seen_before(ids, rows, n) {
                let m = choose|m: int| 0 <= m < n && tag_of_label(rows, (#[trigger] ids[m])@) == tag_of_label(rows, ids[n]@);
                assert(ids[m] == pre[m]);
                let k = choose|k: int| 0 <= k < d.len() && #[trigger] tag_of_label(rows, d[k]) == tag_of_label(rows, (#[trigger] pre[m])@)
                    && (tag_of_label(rows, pre[m]@).is_none() ==> d[k] == pre[m]@);
                assert(r[k] == d[k]);
            } else {
                assert(r[d.len() as int] == x);
            }
        }
    }
}

} // verus!
