//! Patch-based edit history of structured entities.
//!
//! Each edit is a JSON Patch: a list of `add`, `remove` and `replace`
//! operations on JSON-pointer paths. Documents are held as [`Json`], whose
//! objects keep their entries in increasing key order, one entry per key
//! (the order and uniqueness of a `BTreeMap`).

use vstd::prelude::*;

use crate::text::{key_lt, chars_of, concat2, concat3, copy_range, find, has_prefix, occurs_at, occurs_at_exec,
    parse_usize, parse_usize_exec, push_char, str_eq, string_of, trim_start_all, trim_start_all_exec};

verus! {

/// A JSON document. Numbers keep their JSON text.
#[derive(Debug)]
pub enum Json {
    Null,
    Bool(bool),
    Number(String),
    Str(String),
    Array(Vec<Json>),
    Object(Vec<(String, Json)>),
}

/// A JSON document as mathematical values.
pub enum JsonV {
    Null,
    Bool(bool),
    Number(Seq<char>),
    Str(Seq<char>),
    Array(Seq<JsonV>),
    Object(Seq<(Seq<char>, JsonV)>),
}

/// The value of a document.
pub open spec fn jv(j: Json) -> JsonV
    decreases j,
{
    match j {
        Json::Null => JsonV::Null,
        Json::Bool(b) => JsonV::Bool(b),
        Json::Number(s) => JsonV::Number(s@),
        Json::Str(s) => JsonV::Str(s@),
        Json::Array(v) => JsonV::Array(jv_items(v@)),
        Json::Object(m) => JsonV::Object(jv_entries(m@)),
    }
}

/// The values of a sequence of documents.
pub open spec fn jv_items(s: Seq<Json>) -> Seq<JsonV>
    decreases s,
{
    if s.len() == 0 {
        Seq::empty()
    } else {
        jv_items(s.subrange(0, s.len() - 1)).push(jv(s[s.len() - 1]))
    }
}

/// The values of the entries of an object.
pub open spec fn jv_entries(s: Seq<(String, Json)>) -> Seq<(Seq<char>, JsonV)>
    decreases s,
{
    if s.len() == 0 {
        Seq::empty()
    } else {
        jv_entries(s.subrange(0, s.len() - 1)).push((s[s.len() - 1].0@, jv(s[s.len() - 1].1)))
    }
}

/// One patch operation.
#[derive(Debug)]
pub struct PatchOp {
    /// `add`, `remove` or `replace`.
    pub op: String,
    /// A JSON pointer, e.g. `/title` or `/schedule/3/topic`.
    pub path: String,
    pub value: Option<Json>,
}

/// An operation as values: name, path and value.
pub type OpV = (Seq<char>, Seq<char>, Option<JsonV>);

pub open spec fn opt_jv(o: Option<Json>) -> Option<JsonV> {
    match o {
        Some(j) => Some(jv(j)),
        None => None,
    }
}

pub open spec fn op_view(o: PatchOp) -> OpV {
    (o.op@, o.path@, opt_jv(o.value))
}

/// The values of a list of operations.
pub open spec fn ops_view(s: Seq<PatchOp>) -> Seq<OpV> {
    s.map_values(|o: PatchOp| op_view(o))
}

// ── Object entries ──────────────────────────────────────────────────────

/// The keys of an object increase strictly from entry to entry.
pub open spec fn sorted_keys(m: Seq<(Seq<char>, JsonV)>) -> bool {
    forall|i: int, j: int| 0 <= i < j < m.len() ==> key_lt(#[trigger] m[i].0, #[trigger] m[j].0)
}

/// The first entry at or after `i` with key `k`.
pub open spec fn find_key_from(m: Seq<(Seq<char>, JsonV)>, k: Seq<char>, i: int) -> Option<int>
    decreases m.len() - i,
{
    if i < 0 || i >= m.len() {
        None
    } else if m[i].0 == k {
        Some(i)
    } else {
        find_key_from(m, k, i + 1)
    }
}

/// The entry with key `k`.
pub open spec fn find_key(m: Seq<(Seq<char>, JsonV)>, k: Seq<char>) -> Option<int> {
    find_key_from(m, k, 0)
}

/// The first entry at or after `i` whose key comes after `k`.
pub open spec fn insert_pos_from(m: Seq<(Seq<char>, JsonV)>, k: Seq<char>, i: int) -> int
    decreases m.len() - i,
{
    if i < 0 || i >= m.len() {
        m.len() as int
    } else if key_lt(k, m[i].0) {
        i
    } else {
        insert_pos_from(m, k, i + 1)
    }
}

/// `BTreeMap::insert`: the value of an existing key is replaced; a new key
/// goes before the first key after it.
pub open spec fn obj_insert(m: Seq<(Seq<char>, JsonV)>, k: Seq<char>, v: JsonV) -> Seq<
    (Seq<char>, JsonV),
> {
    match find_key(m, k) {
        Some(i) => m.update(i, (k, v)),
        None => m.insert(insert_pos_from(m, k, 0), (k, v)),
    }
}

/// `BTreeMap::remove`.
pub open spec fn obj_remove(m: Seq<(Seq<char>, JsonV)>, k: Seq<char>) -> Seq<(Seq<char>, JsonV)> {
    match find_key(m, k) {
        Some(i) => m.remove(i),
        None => m,
    }
}

/// The value under `k`.
pub open spec fn lookup(m: Seq<(Seq<char>, JsonV)>, k: Seq<char>) -> Option<JsonV> {
    match find_key(m, k) {
        Some(i) => Some(m[i].1),
        None => None,
    }
}

// ── Pointers ────────────────────────────────────────────────────────────

/// The first position at or after `from` holding `c` (the length when none).
pub open spec fn char_end(s: Seq<char>, c: char, from: int) -> int
    decreases s.len() - from,
{
    if from < 0 || from >= s.len() {
        s.len() as int
    } else if s[from] == c {
        from
    } else {
        char_end(s, c, from + 1)
    }
}

pub proof fn lemma_char_end(s: Seq<char>, c: char, from: int)
    requires
        0 <= from <= s.len(),
    ensures
        from <= char_end(s, c, from) <= s.len(),
        char_end(s, c, from) < s.len() ==> s[char_end(s, c, from)] == c,
        forall|j: int| from <= j < char_end(s, c, from) ==> s[j] != c,
    decreases s.len() - from,
{
    if from < s.len() && s[from] != c {
        lemma_char_end(s, c, from + 1);
    }
}

/// `str::split(c)` of `s` from position `pos` on.
pub open spec fn split_from(s: Seq<char>, c: char, pos: int) -> Seq<Seq<char>>
    decreases s.len() - pos,
{
    if pos < 0 || pos > s.len() {
        Seq::empty()
    } else {
        let e = char_end(s, c, pos);
        if e >= s.len() {
            seq![s.subrange(pos, s.len() as int)]
        } else {
            proof {
                lemma_char_end(s, c, pos);
            }
            seq![s.subrange(pos, e)].add(split_from(s, c, e + 1))
        }
    }
}

/// `str::replace`: every occurrence of `from`, left to right, replaced.
pub open spec fn replace_all(s: Seq<char>, from: Seq<char>, to: Seq<char>) -> Seq<char>
    decreases s.len(),
{
    if s.len() == 0 {
        s
    } else if from.len() > 0 && has_prefix(s, from) {
        to + replace_all(s.skip(from.len() as int), from, to)
    } else {
        seq![s[0]] + replace_all(s.drop_first(), from, to)
    }
}

/// A pointer segment with `~1` and `~0` unescaped.
pub open spec fn unescape(p: Seq<char>) -> Seq<char> {
    replace_all(replace_all(p, "~1"@, "/"@), "~0"@, "~"@)
}

/// The segments of a pointer: leading slashes trimmed, split at `/`,
/// each segment unescaped.
pub open spec fn parse_pointer(path: Seq<char>) -> Seq<Seq<char>> {
    split_from(trim_start_all(path, seq!['/']), '/', 0).map_values(|p: Seq<char>| unescape(p))
}

// ── Applying a patch ────────────────────────────────────────────────────

/// What an operation does at the end of its path.
pub enum Leaf {
    Put(JsonV),
    Add(JsonV),
    Remove,
}

/// The decimal text of a number.
pub open spec fn decimal(n: nat) -> Seq<char>
    decreases n,
{
    if n < 10 {
        seq![char_of_digit(n)]
    } else {
        decimal(n / 10).push(char_of_digit(n % 10))
    }
}

pub open spec fn char_of_digit(d: nat) -> char {
    if d == 0 { '0' }
    else if d == 1 { '1' }
    else if d == 2 { '2' }
    else if d == 3 { '3' }
    else if d == 4 { '4' }
    else if d == 5 { '5' }
    else if d == 6 { '6' }
    else if d == 7 { '7' }
    else if d == 8 { '8' }
    else { '9' }
}

/// The operation at the container reached by the path.
pub open spec fn edit_leaf(doc: JsonV, last: Seq<char>, leaf: Leaf, path: Seq<char>) -> Result<
    JsonV,
    Seq<char>,
> {
    match doc {
        JsonV::Object(m) => match leaf {
            Leaf::Put(v) => Ok(JsonV::Object(obj_insert(m, last, v))),
            Leaf::Add(v) => Ok(JsonV::Object(obj_insert(m, last, v))),
            Leaf::Remove => Ok(JsonV::Object(obj_remove(m, last))),
        },
        JsonV::Array(a) => match leaf {
            Leaf::Put(v) => match parse_usize(last) {
                None => Err("invalid array index: "@ + last),
                Some(n) => if n < a.len() {
                    Ok(JsonV::Array(a.update(n as int, v)))
                } else {
                    Err("array index out of bounds: "@ + decimal(n))
                },
            },
            Leaf::Add(v) => if last == "-"@ {
                Ok(JsonV::Array(a.push(v)))
            } else {
                match parse_usize(last) {
                    None => Err("invalid array index: "@ + last),
                    Some(n) => if n <= a.len() {
                        Ok(JsonV::Array(a.insert(n as int, v)))
                    } else {
                        Ok(JsonV::Array(a.push(v)))
                    },
                }
            },
            Leaf::Remove => match parse_usize(last) {
                None => Err("invalid array index: "@ + last),
                Some(n) => if n < a.len() {
                    Ok(JsonV::Array(a.remove(n as int)))
                } else {
                    Err("array index out of bounds: "@ + decimal(n))
                },
            },
        },
        _ => Err(
            match leaf {
                Leaf::Put(_) => "cannot set on non-container at "@,
                Leaf::Add(_) => "cannot add to non-container at "@,
                Leaf::Remove => "cannot remove from non-container at "@,
            } + path,
        ),
    }
}

/// Walk `parents` from `doc` and apply `leaf` at `last` in the container
/// reached; the containers on the way are rebuilt around the change.
pub open spec fn edit_at(
    doc: JsonV,
    parents: Seq<Seq<char>>,
    last: Seq<char>,
    leaf: Leaf,
    path: Seq<char>,
) -> Result<JsonV, Seq<char>>
    decreases parents.len(),
{
    if parents.len() == 0 {
        edit_leaf(doc, last, leaf, path)
    } else {
        let part = parents[0];
        match doc {
            JsonV::Object(m) => match find_key(m, part) {
                Some(i) => match edit_at(m[i].1, parents.drop_first(), last, leaf, path) {
                    Ok(c) => Ok(JsonV::Object(m.update(i, (m[i].0, c)))),
                    Err(e) => Err(e),
                },
                None => Err("path not found: "@ + part),
            },
            JsonV::Array(a) => match parse_usize(part) {
                None => Err("invalid index: "@ + part),
                Some(n) => if n < a.len() {
                    match edit_at(a[n as int], parents.drop_first(), last, leaf, path) {
                        Ok(c) => Ok(JsonV::Array(a.update(n as int, c))),
                        Err(e) => Err(e),
                    }
                } else {
                    Err("index out of bounds: "@ + decimal(n))
                },
            },
            _ => Err("cannot navigate into non-container at "@ + part),
        }
    }
}

/// `leaf` at the place a pointer names.
pub open spec fn edit_path(doc: JsonV, path: Seq<char>, leaf: Leaf) -> Result<JsonV, Seq<char>> {
    let parts = parse_pointer(path);
    edit_at(doc, parts.drop_last(), parts.last(), leaf, path)
}

/// One operation. `replace` at the root (`""` or `"/"`) replaces the whole
/// document.
pub open spec fn apply_op(doc: JsonV, op: OpV) -> Result<JsonV, Seq<char>> {
    if op.0 == "replace"@ {
        match op.2 {
            None => Err("replace requires value"@),
            Some(v) => if op.1 == ""@ || op.1 == "/"@ {
                Ok(v)
            } else {
                edit_path(doc, op.1, Leaf::Put(v))
            },
        }
    } else if op.0 == "add"@ {
        match op.2 {
            None => Err("add requires value"@),
            Some(v) => edit_path(doc, op.1, Leaf::Add(v)),
        }
    } else if op.0 == "remove"@ {
        edit_path(doc, op.1, Leaf::Remove)
    } else {
        Err("unsupported op: "@ + op.0)
    }
}

/// The operations in order, up to the first that fails: the document
/// reached and the error, if any.
pub open spec fn apply_ops(doc: JsonV, ops: Seq<OpV>) -> (JsonV, Option<Seq<char>>)
    decreases ops.len(),
{
    if ops.len() == 0 {
        (doc, None)
    } else {
        match apply_op(doc, ops[0]) {
            Ok(d) => apply_ops(d, ops.drop_first()),
            Err(e) => (doc, Some(e)),
        }
    }
}

// ── Computing a patch ───────────────────────────────────────────────────

/// `remove` for every key of `ma`, in order, that `mb` lacks.
pub open spec fn removed_ops(path: Seq<char>, ma: Seq<(Seq<char>, JsonV)>, mb: Seq<(Seq<char>, JsonV)>) -> Seq<OpV>
    decreases ma.len(),
{
    if ma.len() == 0 {
        Seq::empty()
    } else {
        let k = ma[ma.len() - 1].0;
        removed_ops(path, ma.subrange(0, ma.len() - 1), mb) + if find_key(mb, k).is_some() {
            Seq::empty()
        } else {
            seq![("remove"@, path + "/"@ + k, None::<JsonV>)]
        }
    }
}

/// For every entry of `mb`, in order: the patch of the old value under its
/// key, or an `add` when `ma` lacks the key.
pub open spec fn changed_ops(path: Seq<char>, ma: Seq<(Seq<char>, JsonV)>, mb: Seq<(Seq<char>, JsonV)>) -> Seq<OpV>
    decreases mb,
{
    if mb.len() == 0 {
        Seq::empty()
    } else {
        let k = mb[mb.len() - 1].0;
        let v = mb[mb.len() - 1].1;
        changed_ops(path, ma, mb.subrange(0, mb.len() - 1)) + match find_key(ma, k) {
            Some(i) => diff_ops(path + "/"@ + k, ma[i].1, v),
            None => seq![("add"@, path + "/"@ + k, Some(v))],
        }
    }
}

/// The patch from `a` to `b` at `path`: nothing when they are equal; the
/// removed keys, then the changed and added ones, when both are objects;
/// else one `replace`.
pub open spec fn diff_ops(path: Seq<char>, a: JsonV, b: JsonV) -> Seq<OpV>
    decreases b,
{
    if a == b {
        Seq::empty()
    } else {
        match (a, b) {
            (JsonV::Object(ma), JsonV::Object(mb)) => removed_ops(path, ma, mb) + changed_ops(
                path,
                ma,
                mb,
            ),
            _ => seq![("replace"@, path, Some(b))],
        }
    }
}

// ── Documents a patch reproduces ────────────────────────────────────────

/// A key that a pointer carries through unchanged: no `/`, no `~0`, no
/// `~1`; a key of the top-level object must not be empty.
pub open spec fn key_ok(k: Seq<char>, top: bool) -> bool {
    &&& (top ==> k.len() > 0)
    &&& forall|i: int| 0 <= i < k.len() ==> k[i] != '/'
    &&& find(k, "~0"@).is_none()
    &&& find(k, "~1"@).is_none()
}

/// Every object reached through objects from here has increasing keys that
/// a pointer carries through unchanged.
pub open spec fn patchable(j: JsonV, top: bool) -> bool
    decreases j,
{
    match j {
        JsonV::Object(m) => sorted_keys(m) && entries_patchable(m, top),
        _ => true,
    }
}

pub open spec fn entries_patchable(m: Seq<(Seq<char>, JsonV)>, top: bool) -> bool
    decreases m,
{
    if m.len() == 0 {
        true
    } else {
        entries_patchable(m.subrange(0, m.len() - 1), top) && key_ok(m[m.len() - 1].0, top)
            && patchable(m[m.len() - 1].1, false)
    }
}

// ── Documents in memory ─────────────────────────────────────────────────

pub proof fn lemma_jv_items(s: Seq<Json>)
    ensures
        jv_items(s).len() == s.len(),
        forall|i: int| 0 <= i < s.len() ==> #[trigger] jv_items(s)[i] == jv(s[i]),
    decreases s.len(),
{
    if s.len() > 0 {
        let s1 = s.subrange(0, s.len() - 1);
        lemma_jv_items(s1);
        assert forall|i: int| 0 <= i < s.len() implies #[trigger] jv_items(s)[i] == jv(s[i]) by {
            if i < s.len() - 1 {
                assert(s1[i] == s[i]);
            }
        }
    }
}

pub proof fn lemma_jv_entries(s: Seq<(String, Json)>)
    ensures
        jv_entries(s).len() == s.len(),
        forall|i: int| 0 <= i < s.len() ==> #[trigger] jv_entries(s)[i] == (s[i].0@, jv(s[i].1)),
    decreases s.len(),
{
    if s.len() > 0 {
        let s1 = s.subrange(0, s.len() - 1);
        lemma_jv_entries(s1);
        assert forall|i: int| 0 <= i < s.len() implies #[trigger] jv_entries(s)[i] == (
            s[i].0@,
            jv(s[i].1),
        ) by {
            if i < s.len() - 1 {
                assert(s1[i] == s[i]);
            }
        }
    }
}

/// A copy of a document.
pub fn copy_json(j: &Json) -> (r: Json)
    ensures
        jv(r) == jv(*j),
    decreases j,
{
    match j {
        Json::Null => Json::Null,
        Json::Bool(b) => Json::Bool(*b),
        Json::Number(s) => Json::Number(s.clone()),
        Json::Str(s) => Json::Str(s.clone()),
        Json::Array(v) => {
            let mut out: Vec<Json> = Vec::new();
            let mut i: usize = 0;
            while i < v.len()
                invariant
                    *j == Json::Array(*v),
                    i <= v@.len(),
                    out@.len() == i,
                    forall|l: int| 0 <= l < i ==> jv(#[trigger] out@[l]) == jv(v@[l]),
                decreases v@.len() - i,
            {
                assert(decreases_to!(*j => (*j)->Array_0));
                assert(decreases_to!(*v => v[i as int]));
                let c = copy_json(&v[i]);
                out.push(c);
                i = i + 1;
            }
            proof {
                lemma_jv_items(out@);
                lemma_jv_items(v@);
                assert(jv_items(out@) =~= jv_items(v@));
            }
            Json::Array(out)
        },
        Json::Object(m) => {
            let mut out: Vec<(String, Json)> = Vec::new();
            let mut i: usize = 0;
            while i < m.len()
                invariant
                    *j == Json::Object(*m),
                    i <= m@.len(),
                    out@.len() == i,
                    forall|l: int| 0 <= l < i ==> (#[trigger] out@[l]).0@ == m@[l].0@ && jv(out@[l].1) == jv(m@[l].1),
                decreases m@.len() - i,
            {
                assert(decreases_to!(*j => (*j)->Object_0));
                assert(decreases_to!(*m => m[i as int]));
                let c = copy_json(&m[i].1);
                out.push((m[i].0.clone(), c));
                i = i + 1;
            }
            proof {
                lemma_jv_entries(out@);
                lemma_jv_entries(m@);
                assert(jv_entries(out@) =~= jv_entries(m@));
            }
            Json::Object(out)
        },
    }
}

/// Whether two documents are equal.
pub fn json_eq(a: &Json, b: &Json) -> (r: bool)
    ensures
        r == (jv(*a) == jv(*b)),
    decreases a,
{
    match (a, b) {
        (Json::Null, Json::Null) => true,
        (Json::Bool(x), Json::Bool(y)) => *x == *y,
        (Json::Number(x), Json::Number(y)) => str_eq(x.as_str(), y.as_str()),
        (Json::Str(x), Json::Str(y)) => str_eq(x.as_str(), y.as_str()),
        (Json::Array(x), Json::Array(y)) => {
            proof {
                lemma_jv_items(x@);
                lemma_jv_items(y@);
            }
            if x.len() != y.len() {
                assert(jv(*a) == JsonV::Array(jv_items(x@)));
                assert(jv(*b) == JsonV::Array(jv_items(y@)));
                return false;
            }
            let mut i: usize = 0;
            while i < x.len()
                invariant
                    *a == Json::Array(*x),
                    *b == Json::Array(*y),
                    i <= x@.len(),
                    x@.len() == y@.len(),
                    jv_items(x@).len() == x@.len(),
                    jv_items(y@).len() == y@.len(),
                    forall|l: int| 0 <= l < x@.len() ==> #[trigger] jv_items(x@)[l] == jv(x@[l]),
                    forall|l: int| 0 <= l < y@.len() ==> #[trigger] jv_items(y@)[l] == jv(y@[l]),
                    forall|l: int| 0 <= l < i ==> jv(#[trigger] x@[l]) == jv(y@[l]),
                decreases x@.len() - i,
            {
                if !json_eq(&x[i], &y[i]) {
                    assert(jv_items(x@)[i as int] != jv_items(y@)[i as int]);
                    assert(jv(*a) == JsonV::Array(jv_items(x@)));
                    assert(jv(*b) == JsonV::Array(jv_items(y@)));
                    return false;
                }
                i = i + 1;
            }
            assert(jv_items(x@) =~= jv_items(y@));
            true
        },
        (Json::Object(x), Json::Object(y)) => {
            proof {
                lemma_jv_entries(x@);
                lemma_jv_entries(y@);
            }
            if x.len() != y.len() {
                assert(jv(*a) == JsonV::Object(jv_entries(x@)));
                assert(jv(*b) == JsonV::Object(jv_entries(y@)));
                return false;
            }
            let mut i: usize = 0;
            while i < x.len()
                invariant
                    *a == Json::Object(*x),
                    *b == Json::Object(*y),
                    i <= x@.len(),
                    x@.len() == y@.len(),
                    jv_entries(x@).len() == x@.len(),
                    jv_entries(y@).len() == y@.len(),
                    forall|l: int| 0 <= l < x@.len() ==> #[trigger] jv_entries(x@)[l] == (x@[l].0@, jv(x@[l].1)),
                    forall|l: int| 0 <= l < y@.len() ==> #[trigger] jv_entries(y@)[l] == (y@[l].0@, jv(y@[l].1)),
                    forall|l: int| 0 <= l < i ==> jv_entries(x@)[l] == jv_entries(y@)[l],
                decreases x@.len() - i,
            {
                if !str_eq(x[i].0.as_str(), y[i].0.as_str()) {
                    assert(jv_entries(x@)[i as int] != jv_entries(y@)[i as int]);
                    assert(jv(*a) == JsonV::Object(jv_entries(x@)));
                    assert(jv(*b) == JsonV::Object(jv_entries(y@)));
                    return false;
                }
                if !json_eq(&x[i].1, &y[i].1) {
                    assert(jv_entries(x@)[i as int] != jv_entries(y@)[i as int]);
                    assert(jv(*a) == JsonV::Object(jv_entries(x@)));
                    assert(jv(*b) == JsonV::Object(jv_entries(y@)));
                    return false;
                }
                i = i + 1;
            }
            assert(jv_entries(x@) =~= jv_entries(y@));
            true
        },
        _ => false,
    }
}

/// The key order (exec).
pub fn key_lt_exec(a: &[char], b: &[char]) -> (r: bool)
    ensures
        r == key_lt(a@, b@),
{
    let mut i: usize = 0;
    assert(a@.skip(0) =~= a@);
    assert(b@.skip(0) =~= b@);
    while i < a.len() && i < b.len() && a[i] == b[i]
        invariant
            i <= a@.len(),
            i <= b@.len(),
            key_lt(a@, b@) == key_lt(a@.skip(i as int), b@.skip(i as int)),
        decreases a@.len() - i,
    {
        assert(a@.skip(i as int).drop_first() =~= a@.skip(i + 1));
        assert(b@.skip(i as int).drop_first() =~= b@.skip(i + 1));
        i = i + 1;
    }
    if i == a.len() {
        i < b.len()
    } else if i == b.len() {
        false
    } else {
        a[i] < b[i]
    }
}

/// The entry with key `k` (exec).
pub fn find_key_exec(m: &Vec<(String, Json)>, k: &str) -> (r: Option<usize>)
    ensures
        match r {
            Some(i) => i < m@.len() && find_key(jv_entries(m@), k@) == Some(i as int),
            None => find_key(jv_entries(m@), k@).is_none(),
        },
{
    proof {
        lemma_jv_entries(m@);
    }
    let mut i: usize = 0;
    while i < m.len()
        invariant
            i <= m@.len(),
            jv_entries(m@).len() == m@.len(),
            forall|l: int| 0 <= l < m@.len() ==> #[trigger] jv_entries(m@)[l] == (m@[l].0@, jv(m@[l].1)),
            find_key(jv_entries(m@), k@) == find_key_from(jv_entries(m@), k@, i as int),
        decreases m@.len() - i,
    {
        if str_eq(m[i].0.as_str(), k) {
            return Some(i);
        }
        i = i + 1;
    }
    None
}

/// Where a new key goes (exec).
fn insert_pos_exec(m: &Vec<(String, Json)>, k: &str) -> (r: usize)
    ensures
        r == insert_pos_from(jv_entries(m@), k@, 0),
{
    proof {
        lemma_jv_entries(m@);
    }
    let kv = chars_of(k);
    let mut i: usize = 0;
    while i < m.len()
        invariant
            i <= m@.len(),
            kv@ == k@,
            jv_entries(m@).len() == m@.len(),
            forall|l: int| 0 <= l < m@.len() ==> #[trigger] jv_entries(m@)[l] == (m@[l].0@, jv(m@[l].1)),
            insert_pos_from(jv_entries(m@), k@, 0) == insert_pos_from(jv_entries(m@), k@, i as int),
        decreases m@.len() - i,
    {
        let key = chars_of(m[i].0.as_str());
        if key_lt_exec(kv.as_slice(), key.as_slice()) {
            return i;
        }
        i = i + 1;
    }
    i
}

/// `BTreeMap::insert` on the entries of an object.
pub fn obj_insert_exec(m: &mut Vec<(String, Json)>, k: String, v: Json)
    ensures
        jv_entries(final(m)@) == obj_insert(jv_entries(old(m)@), k@, jv(v)),
{
    proof {
        lemma_jv_entries(m@);
    }
    let ghost before = jv_entries(m@);
    proof {
        lemma_find_key_bound(before, k@, 0);
    }
    match find_key_exec(m, k.as_str()) {
        Some(i) => {
            m.remove(i);
            m.insert(i, (k, v));
            proof {
                lemma_jv_entries(m@);
                assert(jv_entries(m@) =~= before.update(i as int, (k@, jv(v))));
            }
        },
        None => {
            let p = insert_pos_exec(m, k.as_str());
            proof {
                lemma_insert_pos_bound(before, k@, 0);
            }
            m.insert(p, (k, v));
            proof {
                lemma_jv_entries(m@);
                assert(jv_entries(m@) =~= before.insert(p as int, (k@, jv(v))));
            }
        },
    }
}

proof fn lemma_insert_pos_bound(m: Seq<(Seq<char>, JsonV)>, k: Seq<char>, i: int)
    requires
        0 <= i <= m.len(),
    ensures
        i <= insert_pos_from(m, k, i) <= m.len(),
    decreases m.len() - i,
{
    if i < m.len() && !key_lt(k, m[i].0) {
        lemma_insert_pos_bound(m, k, i + 1);
    }
}

proof fn lemma_find_key_bound(m: Seq<(Seq<char>, JsonV)>, k: Seq<char>, i: int)
    requires
        0 <= i,
    ensures
        match find_key_from(m, k, i) {
            Some(j) => i <= j < m.len() && m[j].0 == k,
            None => true,
        },
    decreases m.len() - i,
{
    if i < m.len() && m[i].0 != k {
        lemma_find_key_bound(m, k, i + 1);
    }
}

/// `BTreeMap::remove` on the entries of an object.
pub fn obj_remove_exec(m: &mut Vec<(String, Json)>, k: &str)
    ensures
        jv_entries(final(m)@) == obj_remove(jv_entries(old(m)@), k@),
{
    proof {
        lemma_jv_entries(m@);
        lemma_find_key_bound(jv_entries(m@), k@, 0);
    }
    let ghost before = jv_entries(m@);
    match find_key_exec(m, k) {
        Some(i) => {
            m.remove(i);
            proof {
                lemma_jv_entries(m@);
                assert(jv_entries(m@) =~= before.remove(i as int));
            }
            assert(obj_remove(before, k@) == before.remove(i as int));
        },
        None => {},
    }
}

// ── Pointers (exec) ─────────────────────────────────────────────────────

/// The views of a list of strings.
pub open spec fn strs(v: Seq<String>) -> Seq<Seq<char>> {
    v.map_values(|x: String| x@)
}

fn char_end_exec(s: &[char], c: char, from: usize) -> (r: usize)
    requires
        from <= s@.len(),
    ensures
        r == char_end(s@, c, from as int),
{
    let mut i = from;
    while i < s.len() && s[i] != c
        invariant
            from <= i <= s@.len(),
            char_end(s@, c, from as int) == char_end(s@, c, i as int),
        decreases s@.len() - i,
    {
        i = i + 1;
    }
    i
}

/// `str::replace` (exec).
pub fn replace_all_exec(s: &[char], from: &[char], to: &[char]) -> (r: Vec<char>)
    ensures
        r@ == replace_all(s@, from@, to@),
{
    let mut out: Vec<char> = Vec::new();
    let mut i: usize = 0;
    let n = s.len();
    assert(s@.skip(0) =~= s@);
    while i < n
        invariant
            n == s@.len(),
            i <= n,
            replace_all(s@, from@, to@) == out@ + replace_all(s@.skip(i as int), from@, to@),
        decreases n - i,
    {
        let ghost t = s@.skip(i as int);
        assert(t.len() > 0);
        assert(t[0] == s@[i as int]);
        if from.len() > 0 && occurs_at_exec(s, from, i) {
            assert(t.subrange(0, from@.len() as int) =~= s@.subrange(i as int, i + from@.len()));
            assert(t.skip(from@.len() as int) =~= s@.skip(i + from@.len()));
            let mut k: usize = 0;
            let ghost out0 = out@;
            while k < to.len()
                invariant
                    k <= to@.len(),
                    out@ == out0 + to@.take(k as int),
                decreases to@.len() - k,
            {
                out.push(to[k]);
                k = k + 1;
                assert(out@ =~= out0 + to@.take(k as int));
            }
            assert(to@.take(to@.len() as int) =~= to@);
            assert(out@ + replace_all(s@.skip(i + from@.len()), from@, to@) =~= out0 + (to@
                + replace_all(t.skip(from@.len() as int), from@, to@)));
            i = i + from.len();
        } else {
            proof {
                if from@.len() > 0 && has_prefix(t, from@) {
                    assert(t.subrange(0, from@.len() as int) =~= s@.subrange(
                        i as int,
                        i + from@.len(),
                    ));
                }
            }
            assert(t.drop_first() =~= s@.skip(i + 1));
            let ghost out0 = out@;
            out.push(s[i]);
            assert(out@ + replace_all(s@.skip(i + 1), from@, to@) =~= out0 + (seq![t[0]]
                + replace_all(t.drop_first(), from@, to@)));
            i = i + 1;
        }
    }
    assert(s@.skip(n as int) =~= Seq::<char>::empty());
    assert(out@ + Seq::<char>::empty() =~= out@);
    out
}

/// A pointer segment unescaped (exec).
fn unescape_exec(p: &[char]) -> (r: String)
    ensures
        r@ == unescape(p@),
{
    let a = chars_of("~1");
    let b = chars_of("/");
    let c = chars_of("~0");
    let d = chars_of("~");
    let once = replace_all_exec(p, a.as_slice(), b.as_slice());
    let twice = replace_all_exec(once.as_slice(), c.as_slice(), d.as_slice());
    string_of(twice.as_slice())
}

/// The segments of a pointer (exec).
pub fn parse_pointer_exec(path: &str) -> (r: Vec<String>)
    ensures
        strs(r@) == parse_pointer(path@),
        r@.len() > 0,
{
    let slash = ['/'];
    assert(slash@ =~= seq!['/']);
    let chars = chars_of(path);
    let t = trim_start_all_exec(chars.as_slice(), &slash);
    let n = t.len();
    let ghost whole = split_from(t@, '/', 0).map_values(|p: Seq<char>| unescape(p));
    let mut out: Vec<String> = Vec::new();
    let mut pos: usize = 0;
    loop
        invariant_except_break
            n == t@.len(),
            pos <= n,
            whole == split_from(t@, '/', 0).map_values(|p: Seq<char>| unescape(p)),
            whole == strs(out@) + split_from(t@, '/', pos as int).map_values(
                |p: Seq<char>| unescape(p),
            ),
        ensures
            strs(out@) == whole,
            out@.len() > 0,
        decreases n - pos,
    {
        let e = char_end_exec(t.as_slice(), '/', pos);
        proof {
            lemma_char_end(t@, '/', pos as int);
        }
        let piece = copy_range(t.as_slice(), pos, e);
        let u = unescape_exec(piece.as_slice());
        let ghost before = strs(out@);
        out.push(u);
        assert(strs(out@) =~= before.push(unescape(t@.subrange(pos as int, e as int))));
        if e >= n {
            assert(split_from(t@, '/', pos as int) =~= seq![t@.subrange(pos as int, n as int)]);
            assert(strs(out@) =~= whole);
            break;
        }
        let ghost rest = split_from(t@, '/', e + 1);
        assert(split_from(t@, '/', pos as int) == seq![t@.subrange(pos as int, e as int)].add(rest));
        assert(seq![t@.subrange(pos as int, e as int)].add(rest).map_values(|p: Seq<char>| unescape(p))
            =~= seq![unescape(t@.subrange(pos as int, e as int))].add(
            rest.map_values(|p: Seq<char>| unescape(p)),
        ));
        pos = e + 1;
    }
    assert(parse_pointer(path@) == whole);
    out
}

/// The decimal text of a number (exec).
pub fn decimal_exec(n: usize) -> (r: String)
    ensures
        r@ == decimal(n as nat),
    decreases n,
{
    let d = n % 10;
    let c = if d == 0 { '0' }
        else if d == 1 { '1' }
        else if d == 2 { '2' }
        else if d == 3 { '3' }
        else if d == 4 { '4' }
        else if d == 5 { '5' }
        else if d == 6 { '6' }
        else if d == 7 { '7' }
        else if d == 8 { '8' }
        else { '9' };
    assert(c == char_of_digit((n % 10) as nat));
    if n < 10 {
        let mut s = String::new();
        push_char(&mut s, c);
        assert(s@ =~= seq![c]);
        s
    } else {
        let mut s = decimal_exec(n / 10);
        push_char(&mut s, c);
        s
    }
}

// ── Applying a patch (exec) ─────────────────────────────────────────────

/// What an operation does at the end of its path, with its value.
pub enum LeafOp {
    Put(Json),
    Add(Json),
    Remove,
}

pub open spec fn leaf_view(l: LeafOp) -> Leaf {
    match l {
        LeafOp::Put(v) => Leaf::Put(jv(v)),
        LeafOp::Add(v) => Leaf::Add(jv(v)),
        LeafOp::Remove => Leaf::Remove,
    }
}

/// The document after a step, and its error: on success the new value and
/// no error; on failure the document unchanged and the error.
pub open spec fn outcome(before: JsonV, res: Result<JsonV, Seq<char>>, out: (Json, Option<String>)) -> bool {
    match res {
        Ok(x) => jv(out.0) == x && out.1.is_none(),
        Err(e) => jv(out.0) == before && out.1.is_some() && out.1.unwrap()@ == e,
    }
}

/// The operation at an array reached by the path.
fn edit_array_exec(mut a: Vec<Json>, last: &str, leaf: LeafOp) -> (r: (Json, Option<String>))
    ensures
        outcome(
            JsonV::Array(jv_items(a@)),
            edit_leaf(JsonV::Array(jv_items(a@)), last@, leaf_view(leaf), Seq::empty()),
            r,
        ),
{
    proof {
        lemma_jv_items(a@);
    }
    let ghost before = jv_items(a@);
    let lc = chars_of(last);
    let idx = parse_usize_exec(lc.as_slice(), 0, lc.len());
    assert(lc@.subrange(0, lc@.len() as int) =~= last@);
    match leaf {
        LeafOp::Put(v) => match idx {
            None => (Json::Array(a), Some(concat2("invalid array index: ", last))),
            Some(n) => if n < a.len() {
                let ghost jvv = jv(v);
                a.remove(n);
                a.insert(n, v);
                proof {
                    lemma_jv_items(a@);
                    assert(jv_items(a@) =~= before.update(n as int, jvv));
                }
                (Json::Array(a), None)
            } else {
                let msg = decimal_exec(n);
                (Json::Array(a), Some(concat2("array index out of bounds: ", msg.as_str())))
            },
        },
        LeafOp::Add(v) => {
            let ghost jvv = jv(v);
            if str_eq(last, "-") {
                a.push(v);
                proof {
                    lemma_jv_items(a@);
                    assert(jv_items(a@) =~= before.push(jvv));
                }
                (Json::Array(a), None)
            } else {
                match idx {
                    None => (Json::Array(a), Some(concat2("invalid array index: ", last))),
                    Some(n) => {
                        if n <= a.len() {
                            a.insert(n, v);
                            proof {
                                lemma_jv_items(a@);
                                assert(jv_items(a@) =~= before.insert(n as int, jvv));
                            }
                        } else {
                            a.push(v);
                            proof {
                                lemma_jv_items(a@);
                                assert(jv_items(a@) =~= before.push(jvv));
                            }
                        }
                        (Json::Array(a), None)
                    },
                }
            }
        },
        LeafOp::Remove => match idx {
            None => (Json::Array(a), Some(concat2("invalid array index: ", last))),
            Some(n) => if n < a.len() {
                a.remove(n);
                proof {
                    lemma_jv_items(a@);
                    assert(jv_items(a@) =~= before.remove(n as int));
                }
                (Json::Array(a), None)
            } else {
                let msg = decimal_exec(n);
                (Json::Array(a), Some(concat2("array index out of bounds: ", msg.as_str())))
            },
        },
    }
}

fn edit_leaf_exec(doc: Json, last: &str, leaf: LeafOp, path: &str) -> (r: (Json, Option<String>))
    ensures
        outcome(jv(doc), edit_leaf(jv(doc), last@, leaf_view(leaf), path@), r),
{
    match doc {
        Json::Object(mut m) => {
            match leaf {
                LeafOp::Put(v) => {
                    obj_insert_exec(&mut m, last.to_owned(), v);
                },
                LeafOp::Add(v) => {
                    obj_insert_exec(&mut m, last.to_owned(), v);
                },
                LeafOp::Remove => {
                    obj_remove_exec(&mut m, last);
                },
            }
            (Json::Object(m), None)
        },
        Json::Array(a) => {
            let ghost av = JsonV::Array(jv_items(a@));
            let ghost lv = leaf_view(leaf);
            assert(edit_leaf(av, last@, lv, path@) == edit_leaf(av, last@, lv, Seq::empty()));
            edit_array_exec(a, last, leaf)
        },
        other => {
            let msg = match leaf {
                LeafOp::Put(_) => "cannot set on non-container at ",
                LeafOp::Add(_) => "cannot add to non-container at ",
                LeafOp::Remove => "cannot remove from non-container at ",
            };
            (other, Some(concat2(msg, path)))
        },
    }
}

fn edit_at_exec(
    doc: Json,
    parts: &Vec<String>,
    from: usize,
    end: usize,
    leaf: LeafOp,
    path: &str,
) -> (r: (Json, Option<String>))
    requires
        from <= end < parts@.len(),
    ensures
        outcome(
            jv(doc),
            edit_at(
                jv(doc),
                strs(parts@).subrange(from as int, end as int),
                strs(parts@)[end as int],
                leaf_view(leaf),
                path@,
            ),
            r,
        ),
    decreases end - from,
{
    let ghost pv = strs(parts@);
    if from == end {
        assert(pv.subrange(from as int, end as int) =~= Seq::<Seq<char>>::empty());
        return edit_leaf_exec(doc, parts[end].as_str(), leaf, path);
    }
    let part = parts[from].as_str();
    assert(pv.subrange(from as int, end as int)[0] == part@);
    assert(pv.subrange(from as int, end as int).drop_first() =~= pv.subrange(from + 1, end as int));
    match doc {
        Json::Object(mut m) => {
            proof {
                lemma_jv_entries(m@);
            }
            let ghost before = jv_entries(m@);
            match find_key_exec(&m, part) {
                Some(i) => {
                    let (key, child) = m.remove(i);
                    let ghost cv = jv(child);
                    let (c2, err) = edit_at_exec(child, parts, from + 1, end, leaf, path);
                    m.insert(i, (key, c2));
                    proof {
                        lemma_jv_entries(m@);
                        match err {
                            None => {
                                assert(jv_entries(m@) =~= before.update(i as int, (before[i as int].0, jv(c2))));
                            },
                            Some(_) => {
                                assert(jv_entries(m@) =~= before);
                            },
                        }
                    }
                    (Json::Object(m), err)
                },
                None => (Json::Object(m), Some(concat2("path not found: ", part))),
            }
        },
        Json::Array(mut a) => {
            proof {
                lemma_jv_items(a@);
            }
            let ghost before = jv_items(a@);
            let pc = chars_of(part);
            assert(pc@.subrange(0, pc@.len() as int) =~= part@);
            match parse_usize_exec(pc.as_slice(), 0, pc.len()) {
                None => (Json::Array(a), Some(concat2("invalid index: ", part))),
                Some(n) => if n < a.len() {
                    let child = a.remove(n);
                    let (c2, err) = edit_at_exec(child, parts, from + 1, end, leaf, path);
                    a.insert(n, c2);
                    proof {
                        lemma_jv_items(a@);
                        match err {
                            None => {
                                assert(jv_items(a@) =~= before.update(n as int, jv(c2)));
                            },
                            Some(_) => {
                                assert(jv_items(a@) =~= before);
                            },
                        }
                    }
                    (Json::Array(a), err)
                } else {
                    let msg = decimal_exec(n);
                    (Json::Array(a), Some(concat2("index out of bounds: ", msg.as_str())))
                },
            }
        },
        other => (other, Some(concat2("cannot navigate into non-container at ", part))),
    }
}

fn edit_path_exec(doc: Json, path: &str, leaf: LeafOp) -> (r: (Json, Option<String>))
    ensures
        outcome(jv(doc), edit_path(jv(doc), path@, leaf_view(leaf)), r),
{
    let parts = parse_pointer_exec(path);
    let n = parts.len();
    assert(strs(parts@).subrange(0, n - 1) =~= strs(parts@).drop_last());
    edit_at_exec(doc, &parts, 0, n - 1, leaf, path)
}

fn apply_op_exec(doc: Json, op: &PatchOp) -> (r: (Json, Option<String>))
    ensures
        outcome(jv(doc), apply_op(jv(doc), op_view(*op)), r),
{
    let name = op.op.as_str();
    let path = op.path.as_str();
    if str_eq(name, "replace") {
        match &op.value {
            None => (doc, Some("replace requires value".to_owned())),
            Some(v) => {
                let val = copy_json(v);
                if str_eq(path, "") || str_eq(path, "/") {
                    (val, None)
                } else {
                    edit_path_exec(doc, path, LeafOp::Put(val))
                }
            },
        }
    } else if str_eq(name, "add") {
        match &op.value {
            None => (doc, Some("add requires value".to_owned())),
            Some(v) => {
                let val = copy_json(v);
                edit_path_exec(doc, path, LeafOp::Add(val))
            },
        }
    } else if str_eq(name, "remove") {
        edit_path_exec(doc, path, LeafOp::Remove)
    } else {
        (doc, Some(concat2("unsupported op: ", name)))
    }
}

/// Apply the operations in order to `doc`, stopping at the first that
/// fails with its error; the operations before it stay applied.
pub fn apply_patch(doc: &mut Json, ops: &[PatchOp]) -> (r: Result<(), String>)
    ensures
        apply_ops(jv(*old(doc)), ops_view(ops@)) == (
            jv(*final(doc)),
            match r {
                Ok(_) => None,
                Err(e) => Some(e@),
            },
        ),
{
    let ghost all = ops_view(ops@);
    let ghost start = jv(*doc);
    let mut cur = Json::Null;
    std::mem::swap(&mut cur, doc);
    let mut i: usize = 0;
    assert(all.skip(0) =~= all);
    while i < ops.len()
        invariant
            i <= ops@.len(),
            all == ops_view(ops@),
            start == jv(*old(doc)),
            apply_ops(start, all) == apply_ops(jv(cur), all.skip(i as int)),
        decreases ops@.len() - i,
    {
        assert(all.skip(i as int)[0] == op_view(ops@[i as int]));
        assert(all.skip(i as int).drop_first() =~= all.skip(i + 1));
        let ghost cv = jv(cur);
        let (d, err) = apply_op_exec(cur, &ops[i]);
        cur = d;
        match err {
            Some(e) => {
                assert(apply_ops(cv, all.skip(i as int)) == (cv, Some(e@)));
                *doc = cur;
                return Err(e);
            },
            None => {},
        }
        i = i + 1;
    }
    assert(all.skip(i as int) =~= Seq::<OpV>::empty());
    *doc = cur;
    Ok(())
}

// ── Computing a patch (exec) ────────────────────────────────────────────

fn diff_into(path: &str, old_doc: &Json, new_doc: &Json, ops: &mut Vec<PatchOp>)
    ensures
        ops_view(final(ops)@) == ops_view(old(ops)@) + diff_ops(path@, jv(*old_doc), jv(*new_doc)),
    decreases new_doc,
{
    let ghost base = ops_view(ops@);
    if json_eq(old_doc, new_doc) {
        assert(ops_view(ops@) =~= base + Seq::<OpV>::empty());
        return;
    }
    match (old_doc, new_doc) {
        (Json::Object(om), Json::Object(nm)) => {
            proof {
                lemma_jv_entries(om@);
                lemma_jv_entries(nm@);
            }
            let ghost ma = jv_entries(om@);
            let ghost mb = jv_entries(nm@);
            let mut i: usize = 0;
            assert(ma.take(0) =~= Seq::<(Seq<char>, JsonV)>::empty());
            assert(ops_view(ops@) =~= base + removed_ops(path@, ma.take(0), mb));
            while i < om.len()
                invariant
                    i <= om@.len(),
                    ma == jv_entries(om@),
                    mb == jv_entries(nm@),
                    ma.len() == om@.len(),
                    forall|l: int| 0 <= l < om@.len() ==> #[trigger] ma[l] == (om@[l].0@, jv(om@[l].1)),
                    ops_view(ops@) == base + removed_ops(path@, ma.take(i as int), mb),
                decreases om@.len() - i,
            {
                let key = om[i].0.as_str();
                assert(ma.take(i + 1).subrange(0, i as int) =~= ma.take(i as int));
                assert(ma.take(i + 1)[i as int].0 == key@);
                match find_key_exec(nm, key) {
                    Some(_) => {
                        assert(ops_view(ops@) =~= base + removed_ops(path@, ma.take(i + 1), mb));
                    },
                    None => {
                        let ghost before = ops_view(ops@);
                        ops.push(PatchOp { op: "remove".to_owned(), path: concat3(path, "/", key), value: None });
                        assert(ops_view(ops@) =~= before.push(("remove"@, path@ + "/"@ + key@, None::<JsonV>)));
                        assert(ops_view(ops@) =~= base + removed_ops(path@, ma.take(i + 1), mb));
                    },
                }
                i = i + 1;
            }
            assert(ma.take(i as int) =~= ma);
            let ghost mid = ops_view(ops@);
            let mut j: usize = 0;
            assert(mb.take(0) =~= Seq::<(Seq<char>, JsonV)>::empty());
            assert(ops_view(ops@) =~= mid + changed_ops(path@, ma, mb.take(0)));
            while j < nm.len()
                invariant
                    j <= nm@.len(),
                    *new_doc == Json::Object(*nm),
                    ma == jv_entries(om@),
                    mb == jv_entries(nm@),
                    ma.len() == om@.len(),
                    mb.len() == nm@.len(),
                    forall|l: int| 0 <= l < om@.len() ==> #[trigger] ma[l] == (om@[l].0@, jv(om@[l].1)),
                    forall|l: int| 0 <= l < nm@.len() ==> #[trigger] mb[l] == (nm@[l].0@, jv(nm@[l].1)),
                    ops_view(ops@) == mid + changed_ops(path@, ma, mb.take(j as int)),
                decreases nm@.len() - j,
            {
                let key = nm[j].0.as_str();
                assert(mb.take(j + 1).subrange(0, j as int) =~= mb.take(j as int));
                assert(mb.take(j + 1)[j as int] == mb[j as int]);
                let child_path = concat3(path, "/", key);
                let ghost before = ops_view(ops@);
                match find_key_exec(om, key) {
                    Some(i) => {
                        assert(decreases_to!(*new_doc => (*new_doc)->Object_0));
                        assert(decreases_to!(*nm => nm[j as int]));
                        diff_into(child_path.as_str(), &om[i].1, &nm[j].1, ops);
                        assert(ops_view(ops@) =~= mid + changed_ops(path@, ma, mb.take(j + 1)));
                    },
                    None => {
                        let v = copy_json(&nm[j].1);
                        ops.push(PatchOp { op: "add".to_owned(), path: child_path, value: Some(v) });
                        assert(ops_view(ops@) =~= before.push(("add"@, path@ + "/"@ + key@, Some(mb[j as int].1))));
                        assert(ops_view(ops@) =~= mid + changed_ops(path@, ma, mb.take(j + 1)));
                    },
                }
                j = j + 1;
            }
            assert(mb.take(j as int) =~= mb);
            assert(ops_view(ops@) =~= base + (removed_ops(path@, ma, mb) + changed_ops(path@, ma, mb)));
        },
        _ => {
            let v = copy_json(new_doc);
            ops.push(PatchOp { op: "replace".to_owned(), path: path.to_owned(), value: Some(v) });
            assert(ops_view(ops@) =~= base + seq![("replace"@, path@, Some(jv(*new_doc)))]);
        },
    }
}

/// The patch that turns `old` into `new`: nothing where they are equal;
/// for two objects, a `remove` for each key only `old` has, then for each
/// key of `new` the patch of its old value or an `add`; else a `replace`
/// of the whole value.
pub fn diff(old_doc: &Json, new_doc: &Json) -> (r: Vec<PatchOp>)
    ensures
        ops_view(r@) == diff_ops(Seq::empty(), jv(*old_doc), jv(*new_doc)),
{
    let mut ops: Vec<PatchOp> = Vec::new();
    proof {
        reveal_strlit("");
    }
    assert(""@ =~= Seq::<char>::empty());
    assert(ops_view(ops@) =~= Seq::<OpV>::empty());
    diff_into("", old_doc, new_doc, &mut ops);
    assert(ops_view(ops@) =~= diff_ops(Seq::empty(), jv(*old_doc), jv(*new_doc)));
    ops
}

impl Json {
    /// The value under `key` of an object (`Value::get` with a key).
    pub fn member(&self, key: &str) -> (r: Option<&Json>)
        ensures
            match jv(*self) {
                JsonV::Object(m) => match lookup(m, key@) {
                    Some(v) => r.is_some() && jv(*r.unwrap()) == v,
                    None => r.is_none(),
                },
                _ => r.is_none(),
            },
    {
        match self {
            Json::Object(m) => {
                proof {
                    lemma_jv_entries(m@);
                }
                match find_key_exec(m, key) {
                    Some(i) => Some(&m[i].1),
                    None => None,
                }
            },
            _ => None,
        }
    }

    /// The element at `index` of an array (`Value::get` with an index).
    pub fn item(&self, index: usize) -> (r: Option<&Json>)
        ensures
            match jv(*self) {
                JsonV::Array(a) => if index < a.len() {
                    r.is_some() && jv(*r.unwrap()) == a[index as int]
                } else {
                    r.is_none()
                },
                _ => r.is_none(),
            },
    {
        match self {
            Json::Array(a) => {
                proof {
                    lemma_jv_items(a@);
                }
                if index < a.len() {
                    Some(&a[index])
                } else {
                    None
                }
            },
            _ => None,
        }
    }
}

/// A recorded patch (timestamps as RFC 3339 text).
#[derive(Debug)]
pub struct PatchRow {
    pub id: String,
    pub entity_type: String,
    pub entity_id: String,
    pub author_did: String,
    pub operations: Json,
    pub summary: String,
    pub status: String,
    pub reviewed_by: Option<String>,
    pub reviewed_at: Option<String>,
    pub created_at: String,
}

/// A patch by the entity's owner is applied at once; anyone else's waits
/// for review.
pub fn patch_status(author_did: &str, owner_did: &str) -> (r: &'static str)
    ensures
        author_did@ == owner_did@ ==> r@ == "applied"@,
        author_did@ != owner_did@ ==> r@ == "pending"@,
{
    if str_eq(author_did, owner_did) {
        "applied"
    } else {
        "pending"
    }
}

/// The id of a new patch: `p-` and a fresh TID.
pub fn patch_id(tid: &str) -> (r: String)
    ensures
        r@ == "p-"@ + tid@,
{
    concat2("p-", tid)
}

} // verus!
