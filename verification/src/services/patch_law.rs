//! What a computed patch does: applied to the old document it gives the new
//! one, for documents whose objects keep increasing keys that JSON pointers
//! carry through unchanged.

use vstd::prelude::*;

use crate::services::patch::{
    JsonV, Leaf, OpV, apply_op, apply_ops, changed_ops, diff_ops, edit_at, edit_leaf,
    edit_path, entries_patchable, find_key, find_key_from, insert_pos_from, key_ok,
    lookup, obj_insert, obj_remove, parse_pointer, patchable, removed_ops, replace_all,
    sorted_keys, split_from, unescape, char_end, lemma_char_end,
};
use crate::text::{key_lt, find, find_from, has_prefix, lemma_find_from, occurs_at, parse_usize, trim_start_all};

verus! {

// ── The order of keys ───────────────────────────────────────────────────

pub proof fn lemma_key_lt_irrefl(a: Seq<char>)
    ensures
        !key_lt(a, a),
    decreases a.len(),
{
    if a.len() > 0 {
        lemma_key_lt_irrefl(a.drop_first());
    }
}

pub proof fn lemma_key_lt_trans(a: Seq<char>, b: Seq<char>, c: Seq<char>)
    requires
        key_lt(a, b),
        key_lt(b, c),
    ensures
        key_lt(a, c),
    decreases a.len(),
{
    if a.len() > 0 && b.len() > 0 && c.len() > 0 && a[0] == b[0] && b[0] == c[0] {
        lemma_key_lt_trans(a.drop_first(), b.drop_first(), c.drop_first());
    }
}

pub proof fn lemma_key_lt_total(a: Seq<char>, b: Seq<char>)
    requires
        a != b,
    ensures
        key_lt(a, b) || key_lt(b, a),
    decreases a.len(),
{
    if a.len() == 0 && b.len() == 0 {
        assert(a =~= b);
    }
    if a.len() > 0 && b.len() > 0 && a[0] == b[0] {
        if a.drop_first() == b.drop_first() {
            assert(a =~= seq![a[0]] + a.drop_first());
            assert(b =~= seq![b[0]] + b.drop_first());
        }
        lemma_key_lt_total(a.drop_first(), b.drop_first());
    }
}

// ── Entries ─────────────────────────────────────────────────────────────

pub proof fn lemma_find_key_from(m: Seq<(Seq<char>, JsonV)>, k: Seq<char>, i: int)
    requires
        0 <= i,
    ensures
        match find_key_from(m, k, i) {
            Some(j) => i <= j < m.len() && m[j].0 == k && forall|l: int|
                i <= l < j ==> m[l].0 != k,
            None => forall|l: int| i <= l < m.len() ==> m[l].0 != k,
        },
    decreases m.len() - i,
{
    if i < m.len() && m[i].0 != k {
        lemma_find_key_from(m, k, i + 1);
    }
}

/// In a sorted object a key sits at one index at most, and `find_key`
/// finds it there.
pub proof fn lemma_find_sorted(m: Seq<(Seq<char>, JsonV)>, k: Seq<char>)
    requires
        sorted_keys(m),
    ensures
        forall|j: int| 0 <= j < m.len() && m[j].0 == k ==> find_key(m, k) == Some(j),
        find_key(m, k).is_none() <==> forall|j: int| 0 <= j < m.len() ==> m[j].0 != k,
        match find_key(m, k) {
            Some(j) => 0 <= j < m.len() && m[j].0 == k,
            None => true,
        },
{
    lemma_find_key_from(m, k, 0);
    assert forall|j: int| 0 <= j < m.len() && m[j].0 == k implies find_key(m, k) == Some(j) by {
        match find_key(m, k) {
            Some(f) => {
                if f < j {
                    lemma_key_lt_irrefl(k);
                    assert(key_lt(m[f].0, m[j].0));
                }
            },
            None => {},
        }
    }
}

/// `find_key` reads only the keys.
pub proof fn lemma_find_same_keys(
    m1: Seq<(Seq<char>, JsonV)>,
    m2: Seq<(Seq<char>, JsonV)>,
    k: Seq<char>,
    i: int,
)
    requires
        m1.len() == m2.len(),
        forall|j: int| 0 <= j < m1.len() ==> m1[j].0 == m2[j].0,
    ensures
        find_key_from(m1, k, i) == find_key_from(m2, k, i),
    decreases m1.len() - i,
{
    if 0 <= i < m1.len() && m1[i].0 != k {
        lemma_find_same_keys(m1, m2, k, i + 1);
    }
}

/// The value under a key after one more entry is appended.
pub proof fn lemma_lookup_push(s: Seq<(Seq<char>, JsonV)>, x: (Seq<char>, JsonV), q: Seq<char>)
    ensures
        find_key(s.push(x), q).is_some() == (find_key(s, q).is_some() || x.0 == q),
        lookup(s.push(x), q) == if find_key(s, q).is_none() && x.0 == q {
            Some(x.1)
        } else {
            lookup(s, q)
        },
{
    let t = s.push(x);
    lemma_find_key_from(s, q, 0);
    lemma_find_key_from(t, q, 0);
    match find_key(s, q) {
        Some(j) => {
            assert(t[j] == s[j]);
            match find_key(t, q) {
                Some(f) => {
                    if f < j {
                        assert(t[f] == s[f]);
                    }
                    if f > j {
                        assert(t[j].0 == q);
                    }
                },
                None => {
                    assert(t[j].0 == q);
                },
            }
        },
        None => {
            match find_key(t, q) {
                Some(f) => {
                    if f < s.len() {
                        assert(t[f] == s[f]);
                    }
                },
                None => {
                    if x.0 == q {
                        assert(t[s.len() as int].0 == q);
                    }
                },
            }
        },
    }
}

pub proof fn lemma_insert_pos_from(m: Seq<(Seq<char>, JsonV)>, k: Seq<char>, i: int)
    requires
        0 <= i <= m.len(),
    ensures
        i <= insert_pos_from(m, k, i) <= m.len(),
        insert_pos_from(m, k, i) < m.len() ==> key_lt(k, m[insert_pos_from(m, k, i)].0),
        forall|l: int| i <= l < insert_pos_from(m, k, i) ==> !key_lt(k, #[trigger] m[l].0),
    decreases m.len() - i,
{
    if i < m.len() && !key_lt(k, m[i].0) {
        lemma_insert_pos_from(m, k, i + 1);
    }
}

/// Inserting keeps an object sorted and changes the value under the key.
pub proof fn lemma_obj_insert(m: Seq<(Seq<char>, JsonV)>, k: Seq<char>, v: JsonV)
    requires
        sorted_keys(m),
    ensures
        sorted_keys(obj_insert(m, k, v)),
        forall|q: Seq<char>| #[trigger]
            lookup(obj_insert(m, k, v), q) == if q == k {
                Some(v)
            } else {
                lookup(m, q)
            },
{
    let r = obj_insert(m, k, v);
    lemma_find_sorted(m, k);
    match find_key(m, k) {
        Some(i) => {
            assert forall|j: int| 0 <= j < r.len() implies r[j].0 == m[j].0 by {}
            assert(sorted_keys(r));
            assert forall|q: Seq<char>| #[trigger]
                lookup(r, q) == if q == k {
                    Some(v)
                } else {
                    lookup(m, q)
                } by {
                lemma_find_same_keys(r, m, q, 0);
                lemma_find_sorted(m, q);
            }
        },
        None => {
            let p = insert_pos_from(m, k, 0);
            lemma_insert_pos_from(m, k, 0);
            assert forall|j: int| 0 <= j < p implies key_lt(#[trigger] m[j].0, k) by {
                lemma_key_lt_total(m[j].0, k);
            }
            assert forall|j: int| p <= j < m.len() implies key_lt(k, #[trigger] m[j].0) by {
                if j > p {
                    lemma_key_lt_trans(k, m[p].0, m[j].0);
                }
            }
            assert forall|a: int, b: int| 0 <= a < b < r.len() implies key_lt(
                #[trigger] r[a].0,
                #[trigger] r[b].0,
            ) by {
                if b < p {
                } else if b == p {
                } else if a < p {
                    assert(r[b] == m[b - 1]);
                    lemma_key_lt_trans(m[a].0, k, m[b - 1].0);
                } else if a == p {
                    assert(r[b] == m[b - 1]);
                } else {
                    assert(r[a] == m[a - 1]);
                    assert(r[b] == m[b - 1]);
                }
            }
            assert(sorted_keys(r));
            assert forall|q: Seq<char>| #[trigger]
                lookup(r, q) == if q == k {
                    Some(v)
                } else {
                    lookup(m, q)
                } by {
                lemma_find_sorted(r, q);
                lemma_find_sorted(m, q);
                if q == k {
                    assert(r[p].0 == k);
                } else {
                    match find_key(m, q) {
                        Some(j) => {
                            if j < p {
                                assert(r[j] == m[j]);
                            } else {
                                assert(r[j + 1] == m[j]);
                            }
                        },
                        None => {
                            assert forall|j: int| 0 <= j < r.len() implies r[j].0 != q by {
                                if j < p {
                                    assert(r[j] == m[j]);
                                } else if j > p {
                                    assert(r[j] == m[j - 1]);
                                }
                            }
                        },
                    }
                }
            }
        },
    }
}

/// Removing keeps an object sorted and drops the key.
pub proof fn lemma_obj_remove(m: Seq<(Seq<char>, JsonV)>, k: Seq<char>)
    requires
        sorted_keys(m),
    ensures
        sorted_keys(obj_remove(m, k)),
        forall|q: Seq<char>| #[trigger]
            lookup(obj_remove(m, k), q) == if q == k {
                None
            } else {
                lookup(m, q)
            },
{
    let r = obj_remove(m, k);
    lemma_find_sorted(m, k);
    match find_key(m, k) {
        Some(i) => {
            assert forall|a: int, b: int| 0 <= a < b < r.len() implies key_lt(
                #[trigger] r[a].0,
                #[trigger] r[b].0,
            ) by {
                if a < i && b >= i {
                    assert(r[b] == m[b + 1]);
                } else if a >= i {
                    assert(r[a] == m[a + 1]);
                    assert(r[b] == m[b + 1]);
                }
            }
            assert(sorted_keys(r));
            assert forall|q: Seq<char>| #[trigger]
                lookup(r, q) == if q == k {
                    None
                } else {
                    lookup(m, q)
                } by {
                lemma_find_sorted(r, q);
                lemma_find_sorted(m, q);
                if q == k {
                    assert forall|j: int| 0 <= j < r.len() implies r[j].0 != q by {
                        if j < i {
                            assert(r[j] == m[j]);
                        } else {
                            assert(r[j] == m[j + 1]);
                        }
                    }
                } else {
                    match find_key(m, q) {
                        Some(j) => {
                            if j < i {
                                assert(r[j] == m[j]);
                            } else {
                                assert(r[j - 1] == m[j]);
                            }
                        },
                        None => {
                            assert forall|j: int| 0 <= j < r.len() implies r[j].0 != q by {
                                if j < i {
                                    assert(r[j] == m[j]);
                                } else {
                                    assert(r[j] == m[j + 1]);
                                }
                            }
                        },
                    }
                }
            }
        },
        None => {},
    }
}

/// The tail of a sorted object holds the same values but for the first
/// key.
pub proof fn lemma_lookup_tail(m: Seq<(Seq<char>, JsonV)>, q: Seq<char>)
    requires
        sorted_keys(m),
        m.len() > 0,
    ensures
        sorted_keys(m.drop_first()),
        lookup(m.drop_first(), q) == if q == m[0].0 {
            None
        } else {
            lookup(m, q)
        },
{
    let t = m.drop_first();
    assert(sorted_keys(t)) by {
        assert forall|a: int, b: int| 0 <= a < b < t.len() implies key_lt(
            #[trigger] t[a].0,
            #[trigger] t[b].0,
        ) by {
            assert(t[a] == m[a + 1]);
            assert(t[b] == m[b + 1]);
        }
    }
    lemma_find_sorted(t, q);
    lemma_find_sorted(m, q);
    if q == m[0].0 {
        assert forall|j: int| 0 <= j < t.len() implies t[j].0 != q by {
            assert(t[j] == m[j + 1]);
            lemma_key_lt_irrefl(q);
        }
    } else {
        match find_key(m, q) {
            Some(j) => {
                assert(t[j - 1] == m[j]);
            },
            None => {
                assert forall|j: int| 0 <= j < t.len() implies t[j].0 != q by {
                    assert(t[j] == m[j + 1]);
                }
            },
        }
    }
}

/// Two sorted objects with the same value under every key are the same.
pub proof fn lemma_sorted_eq(m1: Seq<(Seq<char>, JsonV)>, m2: Seq<(Seq<char>, JsonV)>)
    requires
        sorted_keys(m1),
        sorted_keys(m2),
        forall|q: Seq<char>| #[trigger] lookup(m1, q) == lookup(m2, q),
    ensures
        m1 == m2,
    decreases m1.len() + m2.len(),
{
    if m1.len() == 0 && m2.len() == 0 {
        assert(m1 =~= m2);
    } else if m1.len() == 0 {
        lemma_find_sorted(m2, m2[0].0);
        assert(lookup(m1, m2[0].0) == lookup(m2, m2[0].0));
    } else if m2.len() == 0 {
        lemma_find_sorted(m1, m1[0].0);
        assert(lookup(m1, m1[0].0) == lookup(m2, m1[0].0));
    } else {
        let k1 = m1[0].0;
        let k2 = m2[0].0;
        lemma_find_sorted(m1, k1);
        lemma_find_sorted(m2, k1);
        lemma_find_sorted(m1, k2);
        lemma_find_sorted(m2, k2);
        assert(lookup(m1, k1) == lookup(m2, k1));
        assert(lookup(m1, k2) == lookup(m2, k2));
        let j = find_key(m2, k1).unwrap();
        let i = find_key(m1, k2).unwrap();
        if j > 0 {
            assert(key_lt(k2, k1));
            lemma_key_lt_irrefl(k1);
            if i > 0 {
                lemma_key_lt_trans(k1, k2, k1);
            }
        }
        assert(m1[0] == m2[0]);
        assert forall|q: Seq<char>| #[trigger]
            lookup(m1.drop_first(), q) == lookup(m2.drop_first(), q) by {
            lemma_lookup_tail(m1, q);
            lemma_lookup_tail(m2, q);
        }
        lemma_lookup_tail(m1, k1);
        lemma_lookup_tail(m2, k1);
        lemma_sorted_eq(m1.drop_first(), m2.drop_first());
        assert(m1 =~= seq![m1[0]] + m1.drop_first());
        assert(m2 =~= seq![m2[0]] + m2.drop_first());
    }
}

// ── Places reached through objects ─────────────────────────────────────

/// The value reached from `d` through the keys `p`, objects all the way.
pub open spec fn get_at(d: JsonV, p: Seq<Seq<char>>) -> Option<JsonV>
    decreases p.len(),
{
    if p.len() == 0 {
        Some(d)
    } else {
        match d {
            JsonV::Object(m) => match find_key(m, p[0]) {
                Some(i) => get_at(m[i].1, p.drop_first()),
                None => None,
            },
            _ => None,
        }
    }
}

/// `d` with the value reached through `p` replaced by `v`.
pub open spec fn set_at(d: JsonV, p: Seq<Seq<char>>, v: JsonV) -> JsonV
    decreases p.len(),
{
    if p.len() == 0 {
        v
    } else {
        match d {
            JsonV::Object(m) => match find_key(m, p[0]) {
                Some(i) => JsonV::Object(m.update(i, (m[i].0, set_at(m[i].1, p.drop_first(), v)))),
                None => d,
            },
            _ => d,
        }
    }
}

/// An edit along keys that lead through objects ends in the object reached.
pub proof fn lemma_edit_through_objects(
    d: JsonV,
    parents: Seq<Seq<char>>,
    m: Seq<(Seq<char>, JsonV)>,
    last: Seq<char>,
    leaf: Leaf,
    path: Seq<char>,
)
    requires
        get_at(d, parents) == Some(JsonV::Object(m)),
    ensures
        edit_at(d, parents, last, leaf, path) == match edit_leaf(
            JsonV::Object(m),
            last,
            leaf,
            path,
        ) {
            Ok(x) => Ok(set_at(d, parents, x)),
            Err(e) => Err::<JsonV, Seq<char>>(e),
        },
    decreases parents.len(),
{
    if parents.len() > 0 {
        match d {
            JsonV::Object(dm) => {
                lemma_find_key_from(dm, parents[0], 0);
                let i = find_key(dm, parents[0]).unwrap();
                lemma_edit_through_objects(dm[i].1, parents.drop_first(), m, last, leaf, path);
            },
            _ => {},
        }
    }
}

/// One key further down.
pub proof fn lemma_get_set_push(d: JsonV, p: Seq<Seq<char>>, m: Seq<(Seq<char>, JsonV)>, k: Seq<char>, v: JsonV)
    requires
        get_at(d, p) == Some(JsonV::Object(m)),
        find_key(m, k).is_some(),
    ensures
        get_at(d, p.push(k)) == Some(m[find_key(m, k).unwrap()].1),
        set_at(d, p.push(k), v) == set_at(
            d,
            p,
            JsonV::Object(m.update(find_key(m, k).unwrap(), (m[find_key(m, k).unwrap()].0, v))),
        ),
    decreases p.len(),
{
    lemma_find_key_from(m, k, 0);
    let j = find_key(m, k).unwrap();
    if p.len() == 0 {
        assert(p.push(k).drop_first() =~= Seq::<Seq<char>>::empty());
        assert(p.push(k)[0] == k);
        assert(get_at(m[j].1, p.push(k).drop_first()) == Some(m[j].1));
        assert(set_at(m[j].1, p.push(k).drop_first(), v) == v);
    } else {
        assert(p.push(k).drop_first() =~= p.drop_first().push(k));
        assert(p.push(k)[0] == p[0]);
        match d {
            JsonV::Object(dm) => {
                lemma_find_key_from(dm, p[0], 0);
                let i = find_key(dm, p[0]).unwrap();
                lemma_get_set_push(dm[i].1, p.drop_first(), m, k, v);
            },
            _ => {},
        }
    }
}

/// A place one key further down lies in an object reached by the shorter
/// path.
pub proof fn lemma_get_push_split(d: JsonV, p: Seq<Seq<char>>, k: Seq<char>)
    requires
        get_at(d, p.push(k)).is_some(),
    ensures
        match get_at(d, p) {
            Some(JsonV::Object(m)) => find_key(m, k).is_some(),
            _ => false,
        },
    decreases p.len(),
{
    if p.len() == 0 {
        assert(p.push(k).drop_first() =~= Seq::<Seq<char>>::empty());
    } else {
        assert(p.push(k).drop_first() =~= p.drop_first().push(k));
        match d {
            JsonV::Object(dm) => {
                lemma_find_key_from(dm, p[0], 0);
                let i = find_key(dm, p[0]).unwrap();
                lemma_get_push_split(dm[i].1, p.drop_first(), k);
            },
            _ => {},
        }
    }
}

/// Writing back what is there changes nothing.
pub proof fn lemma_set_same(d: JsonV, p: Seq<Seq<char>>, x: JsonV)
    requires
        get_at(d, p) == Some(x),
    ensures
        set_at(d, p, x) == d,
    decreases p.len(),
{
    if p.len() > 0 {
        match d {
            JsonV::Object(dm) => {
                lemma_find_key_from(dm, p[0], 0);
                let i = find_key(dm, p[0]).unwrap();
                lemma_set_same(dm[i].1, p.drop_first(), x);
                assert(dm.update(i, (dm[i].0, dm[i].1)) =~= dm);
            },
            _ => {},
        }
    }
}

/// What was written is read back, and a second write overrides the first.
pub proof fn lemma_set_then(d: JsonV, p: Seq<Seq<char>>, x: JsonV, y: JsonV)
    requires
        get_at(d, p).is_some(),
    ensures
        get_at(set_at(d, p, x), p) == Some(x),
        set_at(set_at(d, p, x), p, y) == set_at(d, p, y),
    decreases p.len(),
{
    if p.len() > 0 {
        match d {
            JsonV::Object(dm) => {
                lemma_find_key_from(dm, p[0], 0);
                let i = find_key(dm, p[0]).unwrap();
                let dm2 = dm.update(i, (dm[i].0, set_at(dm[i].1, p.drop_first(), x)));
                lemma_find_same_keys(dm2, dm, p[0], 0);
                lemma_set_then(dm[i].1, p.drop_first(), x, y);
                assert(dm2.update(i, (dm2[i].0, set_at(dm2[i].1, p.drop_first(), y))) =~= dm.update(
                    i,
                    (dm[i].0, set_at(dm[i].1, p.drop_first(), y)),
                ));
            },
            _ => {},
        }
    }
}

// ── Pointers ────────────────────────────────────────────────────────────

/// The pointer of a list of keys: `/k1/k2/...`.
pub open spec fn pointer_of(parts: Seq<Seq<char>>) -> Seq<char>
    decreases parts.len(),
{
    if parts.len() == 0 {
        Seq::empty()
    } else {
        "/"@ + parts[0] + pointer_of(parts.drop_first())
    }
}

pub proof fn lemma_pointer_push(parts: Seq<Seq<char>>, k: Seq<char>)
    ensures
        pointer_of(parts.push(k)) == pointer_of(parts) + "/"@ + k,
    decreases parts.len(),
{
    if parts.len() == 0 {
        assert(parts.push(k).drop_first() =~= Seq::<Seq<char>>::empty());
        assert(parts.push(k)[0] == k);
        assert(pointer_of(parts.push(k).drop_first()) == Seq::<char>::empty());
        assert(pointer_of(parts) == Seq::<char>::empty());
        assert(pointer_of(parts.push(k)) =~= "/"@ + k);
    } else {
        assert(parts.push(k).drop_first() =~= parts.drop_first().push(k));
        lemma_pointer_push(parts.drop_first(), k);
        assert(pointer_of(parts.push(k)) =~= pointer_of(parts) + "/"@ + k);
    }
}

/// Keys that a pointer carries through unchanged, the first one not empty.
pub open spec fn parts_ok(parts: Seq<Seq<char>>) -> bool {
    &&& forall|i: int| 0 <= i < parts.len() ==> key_ok(#[trigger] parts[i], false)
    &&& parts.len() > 0 ==> parts[0].len() > 0
}

/// `replace_all` leaves a text without the pattern unchanged.
pub proof fn lemma_replace_absent(s: Seq<char>, from: Seq<char>, to: Seq<char>)
    requires
        from.len() > 0,
        forall|j: int| !occurs_at(s, from, j),
    ensures
        replace_all(s, from, to) == s,
    decreases s.len(),
{
    if s.len() > 0 {
        assert(!occurs_at(s, from, 0));
        let t = s.drop_first();
        assert forall|j: int| !occurs_at(t, from, j) by {
            if occurs_at(t, from, j) {
                assert(s.subrange(j + 1, j + 1 + from.len()) =~= t.subrange(j, j + from.len()));
                assert(occurs_at(s, from, j + 1));
            }
        }
        lemma_replace_absent(t, from, to);
        assert(s =~= seq![s[0]] + t);
    }
}

/// A good key is its own unescaping.
pub proof fn lemma_unescape_ok(k: Seq<char>, top: bool)
    requires
        key_ok(k, top),
    ensures
        unescape(k) == k,
{
    lemma_find_from(k, "~1"@, 0);
    lemma_find_from(k, "~0"@, 0);
    assert("~1"@.len() == 2) by {
        reveal_strlit("~1");
    }
    assert("~0"@.len() == 2) by {
        reveal_strlit("~0");
    }
    assert forall|j: int| !occurs_at(k, "~1"@, j) by {
        if j < 0 {
        }
    }
    lemma_replace_absent(k, "~1"@, "/"@);
    lemma_replace_absent(k, "~0"@, "~"@);
}

/// Splitting the text after the first `/` of a pointer gives its keys.
pub proof fn lemma_split_pointer(parts: Seq<Seq<char>>, s: Seq<char>, pos: int)
    requires
        parts.len() > 0,
        forall|i: int| 0 <= i < parts.len() ==> key_ok(#[trigger] parts[i], false),
        0 <= pos <= s.len(),
        s.subrange(pos, s.len() as int) == parts[0] + pointer_of(parts.drop_first()),
    ensures
        split_from(s, '/', pos) == parts,
    decreases parts.len(),
{
    let p0 = parts[0];
    let rest = parts.drop_first();
    let e = pos + p0.len();
    assert(s.subrange(pos, s.len() as int).len() == s.len() - pos);
    assert(p0.len() + pointer_of(rest).len() == s.len() - pos);
    assert forall|j: int| pos <= j < e implies s[j] != '/' by {
        assert(s[j] == s.subrange(pos, s.len() as int)[j - pos]);
        assert(key_ok(parts[0], false));
    }
    lemma_char_end(s, '/', pos);
    if rest.len() == 0 {
        assert(pointer_of(rest) =~= Seq::<char>::empty());
        assert(e == s.len());
        assert(char_end(s, '/', pos) == e);
        assert(s.subrange(pos, s.len() as int) =~= p0);
        assert(parts =~= seq![p0]);
    } else {
        assert(s[e] == '/') by {
            reveal_strlit("/");
            assert(pointer_of(rest) == "/"@ + rest[0] + pointer_of(rest.drop_first()));
            assert(pointer_of(rest)[0] == '/');
            assert(s[e] == s.subrange(pos, s.len() as int)[p0.len() as int]);
        }
        assert(char_end(s, '/', pos) == e);
        assert(s.subrange(pos, e) =~= p0) by {
            assert forall|j: int| 0 <= j < p0.len() implies s.subrange(pos, e)[j] == p0[j] by {
                assert(s.subrange(pos, e)[j] == s.subrange(pos, s.len() as int)[j]);
            }
        }
        let w = s.subrange(pos, s.len() as int);
        let tail = rest[0] + pointer_of(rest.drop_first());
        assert(pointer_of(rest) =~= seq!['/'] + tail) by {
            reveal_strlit("/");
        }
        assert(w =~= p0 + seq!['/'] + tail);
        assert(s.subrange(e + 1, s.len() as int) =~= w.subrange((p0.len() + 1) as int, w.len() as int));
        assert((p0 + seq!['/'] + tail).subrange((p0.len() + 1) as int, w.len() as int) =~= tail);
        assert(s.subrange(e + 1, s.len() as int) == tail);
        assert forall|i: int| 0 <= i < rest.len() implies key_ok(#[trigger] rest[i], false) by {
            assert(rest[i] == parts[i + 1]);
        }
        lemma_split_pointer(rest, s, e + 1);
        assert(parts =~= seq![p0] + rest);
    }
}

/// The pointer of good keys reads back as those keys.
pub proof fn lemma_parse_pointer_of(parts: Seq<Seq<char>>)
    requires
        parts.len() > 0,
        parts_ok(parts),
    ensures
        parse_pointer(pointer_of(parts)) == parts,
        pointer_of(parts) != ""@,
        pointer_of(parts) != "/"@,
{
    let ptr = pointer_of(parts);
    let p0 = parts[0];
    let body = p0 + pointer_of(parts.drop_first());
    assert(ptr =~= seq!['/'] + body) by {
        reveal_strlit("/");
    }
    assert(key_ok(p0, false));
    assert(ptr.subrange(0, 1) =~= seq!['/']);
    assert(has_prefix(ptr, seq!['/']));
    assert(ptr.skip(1) =~= body);
    assert(body[0] == p0[0]);
    assert(!has_prefix(body, seq!['/'])) by {
        if has_prefix(body, seq!['/']) {
            assert(body.subrange(0, 1)[0] == body[0]);
        }
    }
    assert(trim_start_all(body, seq!['/']) == body);
    assert(trim_start_all(ptr, seq!['/']) == trim_start_all(ptr.skip(1), seq!['/']));
    assert(trim_start_all(ptr, seq!['/']) == body);
    assert(body.subrange(0, body.len() as int) =~= body);
    lemma_split_pointer(parts, body, 0);
    assert forall|i: int| 0 <= i < parts.len() implies unescape(#[trigger] parts[i]) == parts[i] by {
        lemma_unescape_ok(parts[i], false);
    }
    assert(parse_pointer(ptr) =~= parts);
    reveal_strlit("");
    reveal_strlit("/");
    assert(ptr.len() >= 2);
}

// ── Applying a computed patch ──────────────────────────────────────────

pub proof fn lemma_apply_concat(d: JsonV, x: Seq<OpV>, y: Seq<OpV>)
    ensures
        apply_ops(d, x + y) == if apply_ops(d, x).1.is_none() {
            apply_ops(apply_ops(d, x).0, y)
        } else {
            apply_ops(d, x)
        },
    decreases x.len(),
{
    if x.len() == 0 {
        assert(x + y =~= y);
    } else {
        assert((x + y)[0] == x[0]);
        assert((x + y).drop_first() =~= x.drop_first() + y);
        match apply_op(d, x[0]) {
            Ok(d1) => {
                lemma_apply_concat(d1, x.drop_first(), y);
            },
            Err(_) => {},
        }
    }
}

pub proof fn lemma_apply_one(d: JsonV, op: OpV)
    ensures
        apply_ops(d, seq![op]) == match apply_op(d, op) {
            Ok(d1) => (d1, None),
            Err(e) => (d, Some(e)),
        },
{
    assert(seq![op].drop_first() =~= Seq::<OpV>::empty());
    assert(seq![op][0] == op);
    match apply_op(d, op) {
        Ok(d1) => {
            assert(apply_ops(d1, Seq::<OpV>::empty()) == (d1, None::<Seq<char>>));
        },
        Err(_) => {},
    }
}

pub proof fn lemma_op_names()
    ensures
        "replace"@ != "add"@,
        "replace"@ != "remove"@,
        "add"@ != "remove"@,
        ""@ == Seq::<char>::empty(),
{
    reveal_strlit("replace");
    reveal_strlit("add");
    reveal_strlit("remove");
    reveal_strlit("");
    assert("replace"@.len() == 7);
    assert("add"@.len() == 3);
    assert("remove"@.len() == 6);
}

pub proof fn lemma_entries_patchable(m: Seq<(Seq<char>, JsonV)>, top: bool)
    requires
        entries_patchable(m, top),
    ensures
        forall|i: int| 0 <= i < m.len() ==> key_ok(#[trigger] m[i].0, top) && patchable(m[i].1, false),
    decreases m.len(),
{
    if m.len() > 0 {
        let m1 = m.subrange(0, m.len() - 1);
        lemma_entries_patchable(m1, top);
        assert forall|i: int| 0 <= i < m.len() implies key_ok(#[trigger] m[i].0, top) && patchable(
            m[i].1,
            false,
        ) by {
            if i < m.len() - 1 {
                assert(m[i] == m1[i]);
            }
        }
    }
}

/// An object after the `remove` operations of a patch.
pub open spec fn removed_entries(
    m0: Seq<(Seq<char>, JsonV)>,
    ma: Seq<(Seq<char>, JsonV)>,
    mb: Seq<(Seq<char>, JsonV)>,
) -> Seq<(Seq<char>, JsonV)>
    decreases ma.len(),
{
    if ma.len() == 0 {
        m0
    } else {
        let k = ma[ma.len() - 1].0;
        let m1 = removed_entries(m0, ma.subrange(0, ma.len() - 1), mb);
        if find_key(mb, k).is_some() {
            m1
        } else {
            obj_remove(m1, k)
        }
    }
}

pub proof fn lemma_removed_entries(
    m0: Seq<(Seq<char>, JsonV)>,
    ma: Seq<(Seq<char>, JsonV)>,
    mb: Seq<(Seq<char>, JsonV)>,
)
    requires
        sorted_keys(m0),
    ensures
        sorted_keys(removed_entries(m0, ma, mb)),
        forall|q: Seq<char>| #[trigger]
            lookup(removed_entries(m0, ma, mb), q) == if find_key(ma, q).is_some() && find_key(
                mb,
                q,
            ).is_none() {
                None
            } else {
                lookup(m0, q)
            },
    decreases ma.len(),
{
    if ma.len() == 0 {
        assert forall|q: Seq<char>| find_key(ma, q).is_none() by {}
    } else {
        let ma1 = ma.subrange(0, ma.len() - 1);
        let x = ma[ma.len() - 1];
        assert(ma =~= ma1.push(x));
        lemma_removed_entries(m0, ma1, mb);
        let m1 = removed_entries(m0, ma1, mb);
        if find_key(mb, x.0).is_none() {
            lemma_obj_remove(m1, x.0);
        }
        assert forall|q: Seq<char>| #[trigger]
            lookup(removed_entries(m0, ma, mb), q) == if find_key(ma, q).is_some() && find_key(
                mb,
                q,
            ).is_none() {
                None
            } else {
                lookup(m0, q)
            } by {
            lemma_lookup_push(ma1, x, q);
        }
    }
}

/// An object after the `add` operations and sub-patches of a patch.
pub open spec fn changed_entries(m1: Seq<(Seq<char>, JsonV)>, mb: Seq<(Seq<char>, JsonV)>) -> Seq<
    (Seq<char>, JsonV),
>
    decreases mb.len(),
{
    if mb.len() == 0 {
        m1
    } else {
        obj_insert(
            changed_entries(m1, mb.subrange(0, mb.len() - 1)),
            mb[mb.len() - 1].0,
            mb[mb.len() - 1].1,
        )
    }
}

pub proof fn lemma_changed_entries(m1: Seq<(Seq<char>, JsonV)>, mb: Seq<(Seq<char>, JsonV)>)
    requires
        sorted_keys(m1),
        sorted_keys(mb),
    ensures
        sorted_keys(changed_entries(m1, mb)),
        forall|q: Seq<char>| #[trigger]
            lookup(changed_entries(m1, mb), q) == if find_key(mb, q).is_some() {
                lookup(mb, q)
            } else {
                lookup(m1, q)
            },
    decreases mb.len(),
{
    if mb.len() == 0 {
        assert forall|q: Seq<char>| find_key(mb, q).is_none() by {}
    } else {
        let mb1 = mb.subrange(0, mb.len() - 1);
        let x = mb[mb.len() - 1];
        assert(mb =~= mb1.push(x));
        assert(sorted_keys(mb1));
        lemma_changed_entries(m1, mb1);
        let r1 = changed_entries(m1, mb1);
        lemma_obj_insert(r1, x.0, x.1);
        lemma_find_key_from(mb1, x.0, 0);
        assert(find_key(mb1, x.0).is_none()) by {
            if find_key(mb1, x.0).is_some() {
                let j = find_key(mb1, x.0).unwrap();
                assert(mb[j] == mb1[j]);
                assert(key_lt(mb[j].0, mb[mb.len() - 1].0));
                lemma_key_lt_irrefl(x.0);
            }
        }
        assert forall|q: Seq<char>| #[trigger]
            lookup(changed_entries(m1, mb), q) == if find_key(mb, q).is_some() {
                lookup(mb, q)
            } else {
                lookup(m1, q)
            } by {
            lemma_lookup_push(mb1, x, q);
        }
    }
}

/// The `remove` operations of a patch, applied where the object sits.
pub proof fn lemma_apply_removes(
    d: JsonV,
    parts: Seq<Seq<char>>,
    m0: Seq<(Seq<char>, JsonV)>,
    ma: Seq<(Seq<char>, JsonV)>,
    mb: Seq<(Seq<char>, JsonV)>,
)
    requires
        get_at(d, parts) == Some(JsonV::Object(m0)),
        sorted_keys(m0),
        parts_ok(parts),
        forall|i: int| 0 <= i < ma.len() ==> key_ok(#[trigger] ma[i].0, parts.len() == 0),
    ensures
        apply_ops(d, removed_ops(pointer_of(parts), ma, mb)) == (
            set_at(d, parts, JsonV::Object(removed_entries(m0, ma, mb))),
            None::<Seq<char>>,
        ),
    decreases ma.len(),
{
    if ma.len() == 0 {
        lemma_set_same(d, parts, JsonV::Object(m0));
    } else {
        let ptr = pointer_of(parts);
        let ma1 = ma.subrange(0, ma.len() - 1);
        let k = ma[ma.len() - 1].0;
        assert forall|i: int| 0 <= i < ma1.len() implies key_ok(#[trigger] ma1[i].0, parts.len() == 0) by {
            assert(ma1[i] == ma[i]);
        }
        lemma_apply_removes(d, parts, m0, ma1, mb);
        lemma_removed_entries(m0, ma1, mb);
        let m1 = removed_entries(m0, ma1, mb);
        let d1 = set_at(d, parts, JsonV::Object(m1));
        let tail = if find_key(mb, k).is_some() {
            Seq::<OpV>::empty()
        } else {
            seq![("remove"@, ptr + "/"@ + k, None::<JsonV>)]
        };
        lemma_apply_concat(d, removed_ops(ptr, ma1, mb), tail);
        if find_key(mb, k).is_none() {
            let q = parts.push(k);
            lemma_pointer_push(parts, k);
            assert(parts_ok(q)) by {
                assert forall|i: int| 0 <= i < q.len() implies key_ok(#[trigger] q[i], false) by {
                    if i < parts.len() {
                        assert(q[i] == parts[i]);
                    }
                }
            }
            lemma_parse_pointer_of(q);
            assert(q.drop_last() =~= parts);
            lemma_set_then(d, parts, JsonV::Object(m1), JsonV::Object(obj_remove(m1, k)));
            lemma_edit_through_objects(d1, parts, m1, k, Leaf::Remove, pointer_of(q));
            lemma_op_names();
            lemma_apply_one(d1, ("remove"@, ptr + "/"@ + k, None::<JsonV>));
        }
    }
}

/// The `add` operations and sub-patches of a patch, applied where the
/// object sits.
pub proof fn lemma_apply_changes(
    d: JsonV,
    parts: Seq<Seq<char>>,
    m1: Seq<(Seq<char>, JsonV)>,
    ma: Seq<(Seq<char>, JsonV)>,
    mb: Seq<(Seq<char>, JsonV)>,
)
    requires
        get_at(d, parts) == Some(JsonV::Object(m1)),
        sorted_keys(m1),
        sorted_keys(mb),
        parts_ok(parts),
        entries_patchable(ma, parts.len() == 0),
        entries_patchable(mb, parts.len() == 0),
        forall|q: Seq<char>| #[trigger] find_key(mb, q).is_some() ==> lookup(m1, q) == lookup(ma, q),
    ensures
        apply_ops(d, changed_ops(pointer_of(parts), ma, mb)) == (
            set_at(d, parts, JsonV::Object(changed_entries(m1, mb))),
            None::<Seq<char>>,
        ),
    decreases mb,
{
    if mb.len() == 0 {
        lemma_set_same(d, parts, JsonV::Object(m1));
    } else {
        let top = parts.len() == 0;
        let ptr = pointer_of(parts);
        let mb1 = mb.subrange(0, mb.len() - 1);
        let x = mb[mb.len() - 1];
        let k = x.0;
        let v = x.1;
        assert(mb =~= mb1.push(x));
        assert(sorted_keys(mb1));
        assert forall|q: Seq<char>| #[trigger] find_key(mb1, q).is_some() implies lookup(m1, q)
            == lookup(ma, q) by {
            lemma_lookup_push(mb1, x, q);
        }
        lemma_apply_changes(d, parts, m1, ma, mb1);
        lemma_changed_entries(m1, mb1);
        let m2 = changed_entries(m1, mb1);
        let d2 = set_at(d, parts, JsonV::Object(m2));
        let tail = match find_key(ma, k) {
            Some(i) => diff_ops(ptr + "/"@ + k, ma[i].1, v),
            None => seq![("add"@, ptr + "/"@ + k, Some(v))],
        };
        lemma_apply_concat(d, changed_ops(ptr, ma, mb1), tail);
        lemma_entries_patchable(ma, top);
        lemma_entries_patchable(mb, top);
        lemma_find_key_from(mb1, k, 0);
        assert(find_key(mb1, k).is_none()) by {
            if find_key(mb1, k).is_some() {
                let j = find_key(mb1, k).unwrap();
                assert(mb[j] == mb1[j]);
                assert(key_lt(mb[j].0, mb[mb.len() - 1].0));
                lemma_key_lt_irrefl(k);
            }
        }
        lemma_lookup_push(mb1, x, k);
        assert(lookup(m2, k) == lookup(ma, k));
        let q = parts.push(k);
        lemma_pointer_push(parts, k);
        assert(parts_ok(q)) by {
            assert forall|i: int| 0 <= i < q.len() implies key_ok(#[trigger] q[i], false) by {
                if i < parts.len() {
                    assert(q[i] == parts[i]);
                }
            }
        }
        lemma_set_then(d, parts, JsonV::Object(m2), JsonV::Object(obj_insert(m2, k, v)));
        lemma_find_sorted(m2, k);
        lemma_find_key_from(ma, k, 0);
        match find_key(ma, k) {
            Some(i) => {
                let va = ma[i].1;
                let j = find_key(m2, k).unwrap();
                lemma_get_set_push(d2, parts, m2, k, v);
                assert(decreases_to!(mb => mb[mb.len() - 1]));
                lemma_diff_apply_at(d2, q, va, v);
                assert(m2.update(j, (m2[j].0, v)) == obj_insert(m2, k, v));
            },
            None => {
                lemma_parse_pointer_of(q);
                assert(q.drop_last() =~= parts);
                lemma_edit_through_objects(d2, parts, m2, k, Leaf::Add(v), pointer_of(q));
                lemma_op_names();
                lemma_apply_one(d2, ("add"@, ptr + "/"@ + k, Some(v)));
            },
        }
    }
}

/// The patch from `a` to `b`, applied where `a` sits, puts `b` there.
pub proof fn lemma_diff_apply_at(d: JsonV, parts: Seq<Seq<char>>, a: JsonV, b: JsonV)
    requires
        get_at(d, parts) == Some(a),
        patchable(a, parts.len() == 0),
        patchable(b, parts.len() == 0),
        parts_ok(parts),
    ensures
        apply_ops(d, diff_ops(pointer_of(parts), a, b)) == (set_at(d, parts, b), None::<Seq<char>>),
    decreases b,
{
    let ptr = pointer_of(parts);
    if a == b {
        lemma_set_same(d, parts, a);
    } else {
        match (a, b) {
            (JsonV::Object(ma), JsonV::Object(mb)) => {
                lemma_apply_concat(d, removed_ops(ptr, ma, mb), changed_ops(ptr, ma, mb));
                lemma_entries_patchable(ma, parts.len() == 0);
                lemma_apply_removes(d, parts, ma, ma, mb);
                lemma_removed_entries(ma, ma, mb);
                let m1 = removed_entries(ma, ma, mb);
                let d1 = set_at(d, parts, JsonV::Object(m1));
                lemma_set_then(d, parts, JsonV::Object(m1), JsonV::Object(m1));
                assert forall|q: Seq<char>| #[trigger] find_key(mb, q).is_some() implies lookup(m1, q)
                    == lookup(ma, q) by {}
                lemma_apply_changes(d1, parts, m1, ma, mb);
                lemma_changed_entries(m1, mb);
                let mf = changed_entries(m1, mb);
                assert forall|q: Seq<char>| #[trigger] lookup(mf, q) == lookup(mb, q) by {
                    lemma_find_sorted(ma, q);
                    lemma_find_sorted(mb, q);
                }
                lemma_sorted_eq(mf, mb);
                lemma_set_then(d, parts, JsonV::Object(m1), JsonV::Object(mf));
            },
            _ => {
                lemma_op_names();
                lemma_apply_one(d, ("replace"@, ptr, Some(b)));
                if parts.len() == 0 {
                    reveal_strlit("");
                    assert(ptr == ""@);
                } else {
                    lemma_parse_pointer_of(parts);
                    let p1 = parts.drop_last();
                    let k = parts.last();
                    assert(parts =~= p1.push(k));
                    lemma_get_push_split(d, p1, k);
                    let m = match get_at(d, p1) {
                        Some(JsonV::Object(m)) => m,
                        _ => Seq::empty(),
                    };
                    lemma_find_key_from(m, k, 0);
                    lemma_edit_through_objects(d, p1, m, k, Leaf::Put(b), ptr);
                    lemma_get_set_push(d, p1, m, k, b);
                }
            },
        }
    }
}

/// Applied to a document, the patch computed from it to another document
/// gives that other document, without error. Both documents keep their
/// object keys in increasing order, and the keys met through objects
/// contain no `/`, no `~0` and no `~1`, and at the top level are not empty.
pub proof fn lemma_diff_then_apply(a: JsonV, b: JsonV)
    requires
        patchable(a, true),
        patchable(b, true),
    ensures
        apply_ops(a, diff_ops(Seq::empty(), a, b)) == (b, None::<Seq<char>>),
{
    let parts = Seq::<Seq<char>>::empty();
    assert(pointer_of(parts) == Seq::<char>::empty());
    lemma_diff_apply_at(a, parts, a, b);
}

// ── Edits at a place reached through objects ───────────────────────────

/// An edit along keys that lead through objects acts on the value reached
/// and puts the result back in its place.
proof fn lemma_edit_at_reached(
    d: JsonV,
    parents: Seq<Seq<char>>,
    c: JsonV,
    last: Seq<char>,
    leaf: Leaf,
    path: Seq<char>,
)
    requires
        get_at(d, parents) == Some(c),
    ensures
        edit_at(d, parents, last, leaf, path) == match edit_leaf(c, last, leaf, path) {
            Ok(x) => Ok(set_at(d, parents, x)),
            Err(e) => Err::<JsonV, Seq<char>>(e),
        },
    decreases parents.len(),
{
    if parents.len() > 0 {
        match d {
            JsonV::Object(dm) => {
                lemma_find_key_from(dm, parents[0], 0);
                let i = find_key(dm, parents[0]).unwrap();
                lemma_edit_at_reached(dm[i].1, parents.drop_first(), c, last, leaf, path);
            },
            _ => {},
        }
    }
}

/// Replacing an element of an array, at an index inside the array,
/// succeeds; the array keeps its length, holds the new value at that index
/// and its old value at every other index, and the rest of the document is
/// unchanged. The array is reached through the object keys `p`, and the
/// index is given as the last segment of the pointer.
pub proof fn lemma_replace_array_element(
    d: JsonV,
    p: Seq<Seq<char>>,
    idx: Seq<char>,
    a: Seq<JsonV>,
    v: JsonV,
)
    requires
        get_at(d, p) == Some(JsonV::Array(a)),
        parts_ok(p.push(idx)),
        parse_usize(idx).is_some(),
        parse_usize(idx).unwrap() < a.len(),
    ensures
        ({
            let n = parse_usize(idx).unwrap() as int;
            match apply_op(d, ("replace"@, pointer_of(p.push(idx)), Some(v))) {
                Ok(r) => {
                    &&& match get_at(r, p) {
                        Some(JsonV::Array(b)) => {
                            &&& b.len() == a.len()
                            &&& b[n] == v
                            &&& forall|i: int| 0 <= i < a.len() && i != n ==> b[i] == a[i]
                            &&& r == set_at(d, p, JsonV::Array(b))
                        },
                        _ => false,
                    }
                },
                Err(_) => false,
            }
        }),
{
    let parts = p.push(idx);
    let ptr = pointer_of(parts);
    lemma_parse_pointer_of(parts);
    assert(parts.drop_last() =~= p);
    assert(parts.last() == idx);
    reveal_strlit("replace");
    lemma_edit_at_reached(d, p, JsonV::Array(a), idx, Leaf::Put(v), ptr);
    let n = parse_usize(idx).unwrap() as int;
    let b = a.update(n, v);
    lemma_set_then(d, p, JsonV::Array(b), JsonV::Array(b));
}

/// Adding at an index within or just past an array inserts there: the
/// array grows by one, holds the new value at that index, the elements
/// before it stay and those from it on move up by one. An index further out,
/// or `-`, appends. The rest of the document is unchanged.
pub proof fn lemma_add_array_element(
    d: JsonV,
    p: Seq<Seq<char>>,
    idx: Seq<char>,
    a: Seq<JsonV>,
    v: JsonV,
)
    requires
        get_at(d, p) == Some(JsonV::Array(a)),
        parts_ok(p.push(idx)),
        idx == "-"@ || parse_usize(idx).is_some(),
    ensures
        ({
            let n: int = if idx == "-"@ || parse_usize(idx).unwrap() > a.len() {
                a.len() as int
            } else {
                parse_usize(idx).unwrap() as int
            };
            match apply_op(d, ("add"@, pointer_of(p.push(idx)), Some(v))) {
                Ok(r) => {
                    &&& match get_at(r, p) {
                        Some(JsonV::Array(b)) => {
                            &&& b.len() == a.len() + 1
                            &&& b[n] == v
                            &&& forall|i: int| 0 <= i < n ==> b[i] == a[i]
                            &&& forall|i: int| n <= i < a.len() ==> b[i + 1] == a[i]
                            &&& r == set_at(d, p, JsonV::Array(b))
                        },
                        _ => false,
                    }
                },
                Err(_) => false,
            }
        }),
{
    let parts = p.push(idx);
    let ptr = pointer_of(parts);
    lemma_parse_pointer_of(parts);
    assert(parts.drop_last() =~= p);
    assert(parts.last() == idx);
    reveal_strlit("replace");
    reveal_strlit("add");
    assert("replace"@ != "add"@) by {
        assert("replace"@.len() != "add"@.len());
    }
    lemma_edit_at_reached(d, p, JsonV::Array(a), idx, Leaf::Add(v), ptr);
    let b = match edit_leaf(JsonV::Array(a), idx, Leaf::Add(v), ptr) {
        Ok(JsonV::Array(b)) => b,
        _ => a,
    };
    lemma_set_then(d, p, JsonV::Array(b), JsonV::Array(b));
}

/// Removing an element of an array, at an index inside it, succeeds: the
/// array shrinks by one, the elements before the index stay and those
/// after it move down by one. The rest of the document is unchanged.
pub proof fn lemma_remove_array_element(
    d: JsonV,
    p: Seq<Seq<char>>,
    idx: Seq<char>,
    a: Seq<JsonV>,
)
    requires
        get_at(d, p) == Some(JsonV::Array(a)),
        parts_ok(p.push(idx)),
        parse_usize(idx).is_some(),
        parse_usize(idx).unwrap() < a.len(),
    ensures
        ({
            let n = parse_usize(idx).unwrap() as int;
            match apply_op(d, ("remove"@, pointer_of(p.push(idx)), None::<JsonV>)) {
                Ok(r) => {
                    &&& match get_at(r, p) {
                        Some(JsonV::Array(b)) => {
                            &&& b.len() + 1 == a.len()
                            &&& forall|i: int| 0 <= i < n ==> b[i] == a[i]
                            &&& forall|i: int| n <= i < b.len() ==> b[i] == a[i + 1]
                            &&& r == set_at(d, p, JsonV::Array(b))
                        },
                        _ => false,
                    }
                },
                Err(_) => false,
            }
        }),
{
    let parts = p.push(idx);
    let ptr = pointer_of(parts);
    lemma_parse_pointer_of(parts);
    assert(parts.drop_last() =~= p);
    assert(parts.last() == idx);
    lemma_op_names();
    lemma_edit_at_reached(d, p, JsonV::Array(a), idx, Leaf::Remove, ptr);
    let n = parse_usize(idx).unwrap() as int;
    let b = a.remove(n);
    lemma_set_then(d, p, JsonV::Array(b), JsonV::Array(b));
}

/// An index outside an array is refused by `replace` and `remove`, and the
/// document stays as it was.
pub proof fn lemma_array_index_out_of_bounds(
    d: JsonV,
    p: Seq<Seq<char>>,
    idx: Seq<char>,
    a: Seq<JsonV>,
    v: JsonV,
)
    requires
        get_at(d, p) == Some(JsonV::Array(a)),
        parts_ok(p.push(idx)),
        parse_usize(idx).is_some(),
        parse_usize(idx).unwrap() >= a.len(),
    ensures
        apply_ops(d, seq![("replace"@, pointer_of(p.push(idx)), Some(v))]).0 == d,
        apply_ops(d, seq![("replace"@, pointer_of(p.push(idx)), Some(v))]).1.is_some(),
        apply_ops(d, seq![("remove"@, pointer_of(p.push(idx)), None::<JsonV>)]).0 == d,
        apply_ops(d, seq![("remove"@, pointer_of(p.push(idx)), None::<JsonV>)]).1.is_some(),
{
    let parts = p.push(idx);
    let ptr = pointer_of(parts);
    lemma_parse_pointer_of(parts);
    assert(parts.drop_last() =~= p);
    assert(parts.last() == idx);
    lemma_op_names();
    lemma_edit_at_reached(d, p, JsonV::Array(a), idx, Leaf::Put(v), ptr);
    lemma_edit_at_reached(d, p, JsonV::Array(a), idx, Leaf::Remove, ptr);
    lemma_apply_one(d, ("replace"@, ptr, Some(v)));
    lemma_apply_one(d, ("remove"@, ptr, None::<JsonV>));
}

/// `replace` and `add` of a key in an object reached through object keys
/// set the value under that key and leave every other key's value alone;
/// `remove` drops the key and leaves the others alone. The object keeps its
/// keys in increasing order, and the rest of the document is unchanged.
pub proof fn lemma_object_member_edits(
    d: JsonV,
    p: Seq<Seq<char>>,
    k: Seq<char>,
    m: Seq<(Seq<char>, JsonV)>,
    v: JsonV,
)
    requires
        get_at(d, p) == Some(JsonV::Object(m)),
        sorted_keys(m),
        parts_ok(p.push(k)),
    ensures
        forall|name: Seq<char>| #![trigger apply_op(d, (name, pointer_of(p.push(k)), Some(v)))]
            (name == "replace"@ || name == "add"@) ==> match apply_op(d, (name, pointer_of(p.push(k)), Some(v))) {
                Ok(r) => match get_at(r, p) {
                    Some(JsonV::Object(m2)) => {
                        &&& sorted_keys(m2)
                        &&& lookup(m2, k) == Some(v)
                        &&& forall|q: Seq<char>| q != k ==> #[trigger] lookup(m2, q) == lookup(m, q)
                        &&& r == set_at(d, p, JsonV::Object(m2))
                    },
                    _ => false,
                },
                Err(_) => false,
            },
        match apply_op(d, ("remove"@, pointer_of(p.push(k)), None::<JsonV>)) {
            Ok(r) => match get_at(r, p) {
                Some(JsonV::Object(m2)) => {
                    &&& sorted_keys(m2)
                    &&& lookup(m2, k).is_none()
                    &&& forall|q: Seq<char>| q != k ==> #[trigger] lookup(m2, q) == lookup(m, q)
                    &&& r == set_at(d, p, JsonV::Object(m2))
                },
                _ => false,
            },
            Err(_) => false,
        },
{
    let parts = p.push(k);
    let ptr = pointer_of(parts);
    lemma_parse_pointer_of(parts);
    assert(parts.drop_last() =~= p);
    assert(parts.last() == k);
    lemma_op_names();
    lemma_edit_at_reached(d, p, JsonV::Object(m), k, Leaf::Put(v), ptr);
    lemma_edit_at_reached(d, p, JsonV::Object(m), k, Leaf::Add(v), ptr);
    lemma_edit_at_reached(d, p, JsonV::Object(m), k, Leaf::Remove, ptr);
    lemma_obj_insert(m, k, v);
    lemma_obj_remove(m, k);
    let mi = obj_insert(m, k, v);
    let mr = obj_remove(m, k);
    lemma_set_then(d, p, JsonV::Object(mi), JsonV::Object(mi));
    lemma_set_then(d, p, JsonV::Object(mr), JsonV::Object(mr));
}

} // verus!
