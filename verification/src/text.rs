//! Character-level string helpers with their mathematical meaning.
//!
//! Strings are modelled by their view, a `Seq<char>`. Every helper here is
//! proved against a spec function that says what it computes.

use vstd::prelude::*;

verus! {

/// Appends one character to a `String` (`String::push`).
#[verifier::external_body]
pub(crate) fn push_char(s: &mut String, c: char)
    ensures
        final(s)@ == old(s)@.push(c),
{
    s.push(c);
}

/// The characters of a string slice, in order.
pub fn chars_of(s: &str) -> (v: Vec<char>)
    ensures
        v@ == s@,
{
    let mut v: Vec<char> = Vec::new();
    for c in it: s.chars()
        invariant
            v@ == it.seq().take(it.index() as int),
    {
        v.push(c);
    }
    v
}


/// A `String` holding exactly the given characters.
pub fn string_of(v: &[char]) -> (r: String)
    ensures
        r@ == v@,
{
    let mut r = String::new();
    let mut i: usize = 0;
    while i < v.len()
        invariant
            i <= v@.len(),
            r@ == v@.take(i as int),
        decreases v@.len() - i,
    {
        push_char(&mut r, v[i]);
        i = i + 1;
        assert(r@ == v@.take(i as int));
    }
    assert(v@.take(v@.len() as int) == v@);
    r
}

/// A `String` holding the characters of `v` in `[from, to)`.
pub fn string_of_range(v: &[char], from: usize, to: usize) -> (r: String)
    requires
        from <= to <= v@.len(),
    ensures
        r@ == v@.subrange(from as int, to as int),
{
    let mut r = String::new();
    let mut i: usize = from;
    while i < to
        invariant
            from <= i <= to <= v@.len(),
            r@ == v@.subrange(from as int, i as int),
        decreases to - i,
    {
        push_char(&mut r, v[i]);
        i = i + 1;
        assert(r@ == v@.subrange(from as int, i as int));
    }
    r
}

/// Appends every character of `t` to `s`.
pub fn push_all(s: &mut String, t: &str)
    ensures
        final(s)@ == old(s)@ + t@,
{
    let v = chars_of(t);
    let mut i: usize = 0;
    while i < v.len()
        invariant
            i <= v@.len(),
            v@ == t@,
            s@ == old(s)@ + v@.take(i as int),
        decreases v@.len() - i,
    {
        push_char(s, v[i]);
        i = i + 1;
        assert(s@ == old(s)@ + v@.take(i as int));
    }
    assert(v@.take(v@.len() as int) == v@);
}

/// Concatenation of two string slices into a new `String`.
pub fn concat2(a: &str, b: &str) -> (r: String)
    ensures
        r@ == a@ + b@,
{
    let mut r = String::new();
    push_all(&mut r, a);
    push_all(&mut r, b);
    assert(r@ == a@ + b@);
    r
}

/// Concatenation of three string slices into a new `String`.
pub fn concat3(a: &str, b: &str, c: &str) -> (r: String)
    ensures
        r@ == a@ + b@ + c@,
{
    let mut r = concat2(a, b);
    push_all(&mut r, c);
    r
}

/// Concatenation of four string slices into a new `String`.
pub fn concat4(a: &str, b: &str, c: &str, d: &str) -> (r: String)
    ensures
        r@ == a@ + b@ + c@ + d@,
{
    let mut r = concat3(a, b, c);
    push_all(&mut r, d);
    r
}

/// Whether two character sequences are equal, element by element.
pub fn chars_eq(a: &[char], b: &[char]) -> (r: bool)
    ensures
        r == (a@ == b@),
{
    if a.len() != b.len() {
        return false;
    }
    let mut i: usize = 0;
    while i < a.len()
        invariant
            a@.len() == b@.len(),
            i <= a@.len(),
            forall|j: int| 0 <= j < i ==> a@[j] == b@[j],
        decreases a@.len() - i,
    {
        if a[i] != b[i] {
            return false;
        }
        i = i + 1;
    }
    assert(a@ =~= b@);
    true
}

/// Whether two string slices hold the same characters.
pub fn str_eq(a: &str, b: &str) -> (r: bool)
    ensures
        r == (a@ == b@),
{
    let va = chars_of(a);
    let vb = chars_of(b);
    chars_eq(va.as_slice(), vb.as_slice())
}

/// `p` occurs in `s` starting at position `i`.
pub open spec fn occurs_at(s: Seq<char>, p: Seq<char>, i: int) -> bool {
    0 <= i && i + p.len() <= s.len() && s.subrange(i, i + p.len()) == p
}

/// Whether `p` occurs in `s` at position `i` (exec).
pub fn occurs_at_exec(s: &[char], p: &[char], i: usize) -> (r: bool)
    ensures
        r == occurs_at(s@, p@, i as int),
{
    if i > s.len() || p.len() > s.len() - i {
        return false;
    }
    let mut k: usize = 0;
    while k < p.len()
        invariant
            i + p@.len() <= s@.len(),
            s@.len() == s.len(),
            k <= p@.len(),
            forall|j: int| 0 <= j < k ==> s@[i + j] == p@[j],
        decreases p@.len() - k,
    {
        if s[i + k] != p[k] {
            assert(s@.subrange(i as int, i + p@.len())[k as int] != p@[k as int]);
            return false;
        }
        k = k + 1;
    }
    assert(s@.subrange(i as int, i + p@.len()) =~= p@);
    true
}

/// The first position at or after `from` where `p` occurs in `s`.
pub open spec fn find_from(s: Seq<char>, p: Seq<char>, from: int) -> Option<int>
    decreases s.len() + 1 - from,
{
    if from < 0 || from + p.len() > s.len() {
        None
    } else if occurs_at(s, p, from) {
        Some(from)
    } else {
        find_from(s, p, from + 1)
    }
}

/// The first position where `p` occurs in `s` (`str::find`).
pub open spec fn find(s: Seq<char>, p: Seq<char>) -> Option<int> {
    find_from(s, p, 0)
}

/// What `find_from` returns, characterised by quantifiers.
pub proof fn lemma_find_from(s: Seq<char>, p: Seq<char>, from: int)
    requires
        0 <= from,
    ensures
        match find_from(s, p, from) {
            Some(i) => from <= i && occurs_at(s, p, i) && forall|j: int|
                from <= j < i ==> !occurs_at(s, p, j),
            None => forall|j: int| from <= j ==> !occurs_at(s, p, j),
        },
    decreases s.len() + 1 - from,
{
    if from + p.len() > s.len() {
    } else if occurs_at(s, p, from) {
    } else {
        lemma_find_from(s, p, from + 1);
    }
}

/// The first position at or after `from` where `p` occurs in `s` (exec).
pub fn find_from_exec(s: &[char], p: &[char], from: usize) -> (r: Option<usize>)
    ensures
        match find_from(s@, p@, from as int) {
            Some(i) => r == Some(i as usize),
            None => r.is_none(),
        },
{
    let mut i = from;
    if i > s.len() || p.len() > s.len() - i {
        return None;
    }
    while p.len() <= s.len() - i
        invariant
            from <= i,
            i <= s@.len(),
            find_from(s@, p@, from as int) == find_from(s@, p@, i as int),
        decreases s@.len() - i,
    {
        if occurs_at_exec(s, p, i) {
            return Some(i);
        }
        if p.len() == 0 {
            assert(s@.subrange(i as int, i as int) =~= p@);
        }
        i = i + 1;
    }
    None
}

/// Strip `p` from the front of `s` when it is a prefix.
pub open spec fn strip_prefix(s: Seq<char>, p: Seq<char>) -> Option<Seq<char>> {
    if p.len() <= s.len() && s.subrange(0, p.len() as int) == p {
        Some(s.subrange(p.len() as int, s.len() as int))
    } else {
        None
    }
}

/// Whether `p` is a prefix of `s`.
pub open spec fn has_prefix(s: Seq<char>, p: Seq<char>) -> bool {
    p.len() <= s.len() && s.subrange(0, p.len() as int) == p
}

/// Whether `p` is a suffix of `s`.
pub open spec fn has_suffix(s: Seq<char>, p: Seq<char>) -> bool {
    p.len() <= s.len() && s.subrange(s.len() - p.len(), s.len() as int) == p
}

/// Whether `p` is a prefix of `s` (exec).
pub fn starts_with(s: &[char], p: &[char]) -> (r: bool)
    ensures
        r == has_prefix(s@, p@),
{
    occurs_at_exec(s, p, 0)
}

/// Whether `p` is a suffix of `s` (exec).
pub fn ends_with(s: &[char], p: &[char]) -> (r: bool)
    ensures
        r == has_suffix(s@, p@),
{
    if p.len() > s.len() {
        return false;
    }
    occurs_at_exec(s, p, s.len() - p.len())
}

/// Unicode `White_Space` (`char::is_whitespace`).
pub open spec fn is_ws(c: char) -> bool {
    let u = c as u32;
    (0x09 <= u <= 0x0D) || u == 0x20 || u == 0x85 || u == 0xA0 || u == 0x1680
        || (0x2000 <= u <= 0x200A) || u == 0x2028 || u == 0x2029 || u == 0x202F
        || u == 0x205F || u == 0x3000
}

/// Unicode `White_Space` (exec).
pub fn is_ws_exec(c: char) -> (r: bool)
    ensures
        r == is_ws(c),
{
    let u = c as u32;
    (0x09 <= u && u <= 0x0D) || u == 0x20 || u == 0x85 || u == 0xA0 || u == 0x1680
        || (0x2000 <= u && u <= 0x200A) || u == 0x2028 || u == 0x2029 || u == 0x202F
        || u == 0x205F || u == 0x3000
}

/// Number of leading whitespace characters.
pub open spec fn ws_lead(s: Seq<char>) -> nat
    decreases s.len(),
{
    if s.len() > 0 && is_ws(s[0]) {
        1 + ws_lead(s.drop_first())
    } else {
        0
    }
}

/// Number of trailing whitespace characters.
pub open spec fn ws_trail(s: Seq<char>) -> nat
    decreases s.len(),
{
    if s.len() > 0 && is_ws(s.last()) {
        1 + ws_trail(s.drop_last())
    } else {
        0
    }
}

/// `str::trim_start`.
pub open spec fn trim_start(s: Seq<char>) -> Seq<char> {
    s.subrange(ws_lead(s) as int, s.len() as int)
}

/// `str::trim_end`.
pub open spec fn trim_end(s: Seq<char>) -> Seq<char> {
    s.subrange(0, s.len() - ws_trail(s))
}

/// `str::trim`.
pub open spec fn trim(s: Seq<char>) -> Seq<char> {
    trim_start(trim_end(s))
}

pub proof fn lemma_ws_lead_bound(s: Seq<char>)
    ensures
        ws_lead(s) <= s.len(),
        forall|j: int| 0 <= j < ws_lead(s) ==> is_ws(#[trigger] s[j]),
        ws_lead(s) < s.len() ==> !is_ws(s[ws_lead(s) as int]),
    decreases s.len(),
{
    if s.len() > 0 && is_ws(s[0]) {
        lemma_ws_lead_bound(s.drop_first());
        assert forall|j: int| 0 <= j < ws_lead(s) implies is_ws(#[trigger] s[j]) by {
            if j > 0 {
                assert(s[j] == s.drop_first()[j - 1]);
            }
        }
    }
}

pub proof fn lemma_ws_trail_bound(s: Seq<char>)
    ensures
        ws_trail(s) <= s.len(),
        forall|j: int| s.len() - ws_trail(s) <= j < s.len() ==> is_ws(#[trigger] s[j]),
        ws_trail(s) < s.len() ==> !is_ws(s[s.len() - ws_trail(s) - 1]),
    decreases s.len(),
{
    if s.len() > 0 && is_ws(s.last()) {
        lemma_ws_trail_bound(s.drop_last());
        assert forall|j: int| s.len() - ws_trail(s) <= j < s.len() implies is_ws(#[trigger] s[j]) by {
            if j < s.len() - 1 {
                assert(s[j] == s.drop_last()[j]);
            }
        }
    }
}

/// `ws_lead` of a suffix, one step at a time.
pub proof fn lemma_ws_lead_step(s: Seq<char>, i: int)
    requires
        0 <= i < s.len(),
        is_ws(s[i]),
    ensures
        ws_lead(s.subrange(i, s.len() as int)) == 1 + ws_lead(s.subrange(i + 1, s.len() as int)),
{
    assert(s.subrange(i, s.len() as int).drop_first() =~= s.subrange(i + 1, s.len() as int));
}

/// `ws_trail` of a prefix, one step at a time.
pub proof fn lemma_ws_trail_step(s: Seq<char>, i: int)
    requires
        0 < i <= s.len(),
        is_ws(s[i - 1]),
    ensures
        ws_trail(s.subrange(0, i)) == 1 + ws_trail(s.subrange(0, i - 1)),
{
    assert(s.subrange(0, i).drop_last() =~= s.subrange(0, i - 1));
}

/// Start of `trim_start(s[from..to])` inside `s`.
pub fn trim_start_idx(s: &[char], from: usize, to: usize) -> (a: usize)
    requires
        from <= to <= s@.len(),
    ensures
        from <= a <= to,
        s@.subrange(a as int, to as int) == trim_start(s@.subrange(from as int, to as int)),
{
    let ghost seg = s@.subrange(from as int, to as int);
    let mut a = from;
    while a < to && is_ws_exec(s[a])
        invariant
            from <= a <= to <= s@.len(),
            seg == s@.subrange(from as int, to as int),
            ws_lead(seg) == (a - from) + ws_lead(s@.subrange(a as int, to as int)),
        decreases to - a,
    {
        proof {
            let t = s@.subrange(a as int, to as int);
            lemma_ws_lead_step(t, 0);
            assert(t.subrange(0, t.len() as int) =~= t);
            assert(t.subrange(1, t.len() as int) =~= s@.subrange(a + 1, to as int));
        }
        a = a + 1;
    }
    proof {
        let t = s@.subrange(a as int, to as int);
        assert(ws_lead(t) == 0);
        assert(seg.subrange(ws_lead(seg) as int, seg.len() as int) =~= s@.subrange(a as int, to as int));
    }
    a
}

/// End of `trim_end(s[from..to])` inside `s`.
pub fn trim_end_idx(s: &[char], from: usize, to: usize) -> (b: usize)
    requires
        from <= to <= s@.len(),
    ensures
        from <= b <= to,
        s@.subrange(from as int, b as int) == trim_end(s@.subrange(from as int, to as int)),
{
    let ghost seg = s@.subrange(from as int, to as int);
    let mut b = to;
    while b > from && is_ws_exec(s[b - 1])
        invariant
            from <= b <= to <= s@.len(),
            seg == s@.subrange(from as int, to as int),
            ws_trail(seg) == (to - b) + ws_trail(s@.subrange(from as int, b as int)),
        decreases b - from,
    {
        proof {
            let t = s@.subrange(from as int, b as int);
            lemma_ws_trail_step(t, t.len() as int);
            assert(t.subrange(0, t.len() as int) =~= t);
            assert(t.subrange(0, t.len() - 1) =~= s@.subrange(from as int, b - 1));
        }
        b = b - 1;
    }
    proof {
        let t = s@.subrange(from as int, b as int);
        if t.len() > 0 {
            assert(t.last() == s@[b - 1]);
        }
        assert(ws_trail(t) == 0);
        assert(s@.subrange(from as int, b as int) =~= trim_end(seg));
    }
    b
}

/// Bounds `[a, b)` of `trim(s[from..to])` inside `s`.
pub fn trim_bounds(s: &[char], from: usize, to: usize) -> (r: (usize, usize))
    requires
        from <= to <= s@.len(),
    ensures
        from <= r.0 <= r.1 <= to,
        s@.subrange(r.0 as int, r.1 as int) == trim(s@.subrange(from as int, to as int)),
{
    let b = trim_end_idx(s, from, to);
    let a = trim_start_idx(s, from, b);
    (a, b)
}


/// A new vector holding `v[from..to]`.
pub fn copy_range(v: &[char], from: usize, to: usize) -> (r: Vec<char>)
    requires
        from <= to <= v@.len(),
    ensures
        r@ == v@.subrange(from as int, to as int),
{
    let mut r: Vec<char> = Vec::new();
    let mut i = from;
    while i < to
        invariant
            from <= i <= to <= v@.len(),
            r@ == v@.subrange(from as int, i as int),
        decreases to - i,
    {
        r.push(v[i]);
        i = i + 1;
        assert(r@ =~= v@.subrange(from as int, i as int));
    }
    r
}

/// Position of the first `'\n'` at or after `from` (the length when none).
pub open spec fn line_end(s: Seq<char>, from: int) -> int
    decreases s.len() - from,
{
    if from < 0 || from >= s.len() {
        s.len() as int
    } else if s[from] == '\n' {
        from
    } else {
        line_end(s, from + 1)
    }
}

pub proof fn lemma_line_end(s: Seq<char>, from: int)
    requires
        0 <= from <= s.len(),
    ensures
        from <= line_end(s, from) <= s.len(),
        line_end(s, from) < s.len() ==> s[line_end(s, from)] == '\n',
        forall|j: int| from <= j < line_end(s, from) ==> s[j] != '\n',
    decreases s.len() - from,
{
    if from < s.len() && s[from] != '\n' {
        lemma_line_end(s, from + 1);
    }
}

/// Position of the first `'\n'` at or after `from` (exec).
pub fn line_end_exec(s: &[char], from: usize) -> (r: usize)
    requires
        from <= s@.len(),
    ensures
        r == line_end(s@, from as int),
{
    let mut i = from;
    while i < s.len() && s[i] != '\n'
        invariant
            from <= i <= s@.len(),
            line_end(s@, from as int) == line_end(s@, i as int),
        decreases s@.len() - i,
    {
        i = i + 1;
    }
    i
}

/// The line starting at `pos` and ending at `e` (a newline position or the
/// end), without the newline and, for a terminated line, without a `'\r'`
/// just before it (how `str::lines` cuts lines).
pub open spec fn line_at(s: Seq<char>, pos: int, e: int) -> Seq<char> {
    if e < s.len() && e > pos && s[e - 1] == '\r' {
        s.subrange(pos, e - 1)
    } else {
        s.subrange(pos, e)
    }
}

/// End (exclusive) of the line content returned by `line_at`.
pub fn line_content_end(s: &[char], pos: usize, e: usize) -> (r: usize)
    requires
        pos <= e <= s@.len(),
    ensures
        pos <= r <= e,
        s@.subrange(pos as int, r as int) == line_at(s@, pos as int, e as int),
{
    if e < s.len() && e > pos && s[e - 1] == '\r' {
        e - 1
    } else {
        e
    }
}

/// The lines of `s` from position `pos` on, as `str::lines` yields them.
pub open spec fn lines_from(s: Seq<char>, pos: int) -> Seq<Seq<char>>
    decreases s.len() - pos,
{
    if pos < 0 || pos >= s.len() {
        Seq::empty()
    } else {
        let e = line_end(s, pos);
        if e >= s.len() {
            seq![s.subrange(pos, s.len() as int)]
        } else {
            proof {
                lemma_line_end(s, pos);
            }
            seq![line_at(s, pos, e)] + lines_from(s, e + 1)
        }
    }
}

/// `str::lines`.
pub open spec fn lines(s: Seq<char>) -> Seq<Seq<char>> {
    lines_from(s, 0)
}


/// ASCII lowercase of a character; other characters are unchanged.
pub open spec fn ascii_lower(c: char) -> char {
    if 'A' <= c && c <= 'Z' {
        (((c as u32) + 32) as u8) as char
    } else {
        c
    }
}

/// ASCII lowercase of a character (exec).
pub fn ascii_lower_exec(c: char) -> (r: char)
    ensures
        r == ascii_lower(c),
{
    if 'A' <= c && c <= 'Z' {
        (((c as u32) + 32) as u8) as char
    } else {
        c
    }
}

/// `p` (lowercase) occurs in `s` at `i`, ignoring ASCII case in `s`.
pub open spec fn ci_occurs_at(s: Seq<char>, p: Seq<char>, i: int) -> bool {
    0 <= i && i + p.len() <= s.len() && forall|k: int|
        0 <= k < p.len() ==> #[trigger] ascii_lower(s[i + k]) == p[k]
}

/// First case-insensitive occurrence of `p` at or after `from`.
pub open spec fn ci_find_from(s: Seq<char>, p: Seq<char>, from: int) -> Option<int>
    decreases s.len() + 1 - from,
{
    if from < 0 || from + p.len() > s.len() {
        None
    } else if ci_occurs_at(s, p, from) {
        Some(from)
    } else {
        ci_find_from(s, p, from + 1)
    }
}

pub proof fn lemma_ci_find_from(s: Seq<char>, p: Seq<char>, from: int)
    requires
        0 <= from,
    ensures
        match ci_find_from(s, p, from) {
            Some(i) => from <= i && ci_occurs_at(s, p, i),
            None => true,
        },
    decreases s.len() + 1 - from,
{
    if from + p.len() > s.len() {
    } else if ci_occurs_at(s, p, from) {
    } else {
        lemma_ci_find_from(s, p, from + 1);
    }
}

/// Whether `p` occurs at `i` ignoring ASCII case in `s` (exec).
pub fn ci_occurs_at_exec(s: &[char], p: &[char], i: usize) -> (r: bool)
    ensures
        r == ci_occurs_at(s@, p@, i as int),
{
    if i > s.len() || p.len() > s.len() - i {
        return false;
    }
    let mut k: usize = 0;
    while k < p.len()
        invariant
            i + p@.len() <= s@.len(),
            s@.len() == s.len(),
            k <= p@.len(),
            forall|j: int| 0 <= j < k ==> #[trigger] ascii_lower(s@[i + j]) == p@[j],
        decreases p@.len() - k,
    {
        if ascii_lower_exec(s[i + k]) != p[k] {
            return false;
        }
        k = k + 1;
    }
    true
}

/// First case-insensitive occurrence of `p` at or after `from` (exec).
pub fn ci_find_from_exec(s: &[char], p: &[char], from: usize) -> (r: Option<usize>)
    ensures
        match ci_find_from(s@, p@, from as int) {
            Some(i) => r == Some(i as usize),
            None => r.is_none(),
        },
{
    let mut i = from;
    if i > s.len() || p.len() > s.len() - i {
        return None;
    }
    while p.len() <= s.len() - i
        invariant
            from <= i,
            i <= s@.len(),
            ci_find_from(s@, p@, from as int) == ci_find_from(s@, p@, i as int),
        decreases s@.len() - i,
    {
        if ci_occurs_at_exec(s, p, i) {
            return Some(i);
        }
        i = i + 1;
    }
    None
}

/// Whether the character `'<'` or `'>'` toggles tag mode, and whether a
/// character of `s[0..i]` is inside a tag after reading it.
pub open spec fn in_tag_after(s: Seq<char>, i: int) -> bool
    decreases i,
{
    if i <= 0 {
        false
    } else if s[i - 1] == '<' {
        true
    } else if s[i - 1] == '>' {
        false
    } else {
        in_tag_after(s, i - 1)
    }
}

/// The characters of `s[0..i]` outside `<...>` tags (tag delimiters dropped).
pub open spec fn untagged(s: Seq<char>, i: int) -> Seq<char>
    decreases i,
{
    if i <= 0 {
        Seq::empty()
    } else {
        let c = s[i - 1];
        if c == '<' || c == '>' || in_tag_after(s, i - 1) {
            untagged(s, i - 1)
        } else {
            untagged(s, i - 1).push(c)
        }
    }
}

/// `s` with HTML tags removed, then trimmed.
pub open spec fn strip_tags(s: Seq<char>) -> Seq<char> {
    trim(untagged(s, s.len() as int))
}

/// Remove `<...>` tags from `s`, then trim.
pub fn strip_html_tags(s: &[char]) -> (r: String)
    ensures
        r@ == strip_tags(s@),
{
    let mut out: Vec<char> = Vec::new();
    let mut in_tag = false;
    let mut i: usize = 0;
    while i < s.len()
        invariant
            i <= s@.len(),
            in_tag == in_tag_after(s@, i as int),
            out@ == untagged(s@, i as int),
        decreases s@.len() - i,
    {
        let c = s[i];
        if c == '<' {
            in_tag = true;
        } else if c == '>' {
            in_tag = false;
        } else if !in_tag {
            out.push(c);
        }
        i = i + 1;
    }
    let (a, b) = trim_bounds(out.as_slice(), 0, out.len());
    assert(out@.subrange(0, out@.len() as int) =~= out@);
    string_of_range(out.as_slice(), a, b)
}


/// Lowercase hexadecimal digit of `n` (0..16).
pub open spec fn hex_digit(n: int) -> char {
    if n < 10 {
        ((48 + n) as u8) as char
    } else {
        ((87 + n) as u8) as char
    }
}

/// Lowercase hexadecimal encoding, two digits per byte, high nibble first.
pub open spec fn hex_lower(b: Seq<u8>) -> Seq<char> {
    Seq::new(
        2 * b.len(),
        |k: int|
            if k % 2 == 0 {
                hex_digit(b[k / 2] as int / 16)
            } else {
                hex_digit(b[k / 2] as int % 16)
            },
    )
}

pub(crate) fn hex_digit_exec(n: u8) -> (c: char)
    requires
        n < 16,
    ensures
        c == hex_digit(n as int),
{
    if n < 10 {
        (48 + n) as char
    } else {
        (87 + n) as char
    }
}

/// Lowercase hexadecimal encoding of bytes.
pub fn hex_encode(b: &[u8]) -> (r: String)
    requires
        b@.len() * 2 <= usize::MAX,
    ensures
        r@ == hex_lower(b@),
{
    let mut r = String::new();
    let mut i: usize = 0;
    while i < b.len()
        invariant
            i <= b@.len(),
            b@.len() * 2 <= usize::MAX,
            r@ == hex_lower(b@.take(i as int)),
        decreases b@.len() - i,
    {
        let x = b[i];
        push_char(&mut r, hex_digit_exec(x / 16));
        push_char(&mut r, hex_digit_exec(x % 16));
        proof {
            let prev = hex_lower(b@.take(i as int));
            let next = hex_lower(b@.take(i + 1));
            assert forall|k: int| 0 <= k < next.len() implies next[k] == r@[k] by {
                if k < 2 * i {
                    assert(b@.take(i + 1)[k / 2] == b@.take(i as int)[k / 2]);
                    assert(prev[k] == next[k]);
                } else if k == 2 * i {
                    assert(k / 2 == i);
                    assert(k % 2 == 0);
                } else {
                    assert(k == 2 * i + 1);
                    assert(k / 2 == i);
                    assert(k % 2 == 1);
                }
            }
            assert(r@ =~= next);
        }
        i = i + 1;
    }
    assert(b@.take(i as int) =~= b@);
    r
}


/// Position of the last occurrence of `c` in `s[0..end]`.
pub open spec fn rfind_char_before(s: Seq<char>, c: char, end: int) -> Option<int>
    decreases end,
{
    if end <= 0 || end > s.len() {
        None
    } else if s[end - 1] == c {
        Some(end - 1)
    } else {
        rfind_char_before(s, c, end - 1)
    }
}

/// Position of the last occurrence of `c` in `s`.
pub open spec fn rfind_char(s: Seq<char>, c: char) -> Option<int> {
    rfind_char_before(s, c, s.len() as int)
}

pub proof fn lemma_rfind_char_before(s: Seq<char>, c: char, end: int)
    requires
        0 <= end <= s.len(),
    ensures
        match rfind_char_before(s, c, end) {
            Some(i) => 0 <= i < end && s[i] == c && forall|j: int| i < j < end ==> s[j] != c,
            None => forall|j: int| 0 <= j < end ==> s[j] != c,
        },
    decreases end,
{
    if end > 0 && s[end - 1] != c {
        lemma_rfind_char_before(s, c, end - 1);
    }
}

/// Position of the last occurrence of `c` in `s` (exec).
pub fn rfind_char_exec(s: &[char], c: char) -> (r: Option<usize>)
    ensures
        match r {
            Some(i) => i < s@.len() && rfind_char(s@, c) == Some(i as int),
            None => rfind_char(s@, c).is_none(),
        },
{
    let mut end = s.len();
    while end > 0
        invariant
            end <= s@.len(),
            rfind_char(s@, c) == rfind_char_before(s@, c, end as int),
        decreases end,
    {
        if s[end - 1] == c {
            return Some(end - 1);
        }
        end = end - 1;
    }
    None
}

/// An ASCII decimal digit.
pub open spec fn is_digit(c: char) -> bool {
    '0' <= c && c <= '9'
}

/// The value of an ASCII digit.
pub open spec fn digit_value(c: char) -> int {
    (c as int) - ('0' as int)
}

/// Every character of `s` is an ASCII digit.
pub open spec fn all_digits(s: Seq<char>) -> bool {
    forall|i: int| 0 <= i < s.len() ==> is_digit(#[trigger] s[i])
}

/// The decimal value of a digit string.
pub open spec fn digits_value(s: Seq<char>) -> nat
    decreases s.len(),
{
    if s.len() == 0 {
        0
    } else {
        (10 * digits_value(s.drop_last()) + digit_value(s.last())) as nat
    }
}

/// `str::parse::<usize>`: an optional `+`, then at least one ASCII digit,
/// with a value that fits in `usize`.
pub open spec fn parse_usize(s: Seq<char>) -> Option<nat> {
    let t = if s.len() > 0 && s[0] == '+' {
        s.drop_first()
    } else {
        s
    };
    if t.len() == 0 || !all_digits(t) || digits_value(t) > usize::MAX {
        None
    } else {
        Some(digits_value(t))
    }
}

/// A digit string is worth at least any of its prefixes.
pub proof fn lemma_digits_value_prefix(s: Seq<char>, k: int)
    requires
        0 <= k <= s.len(),
        all_digits(s),
    ensures
        digits_value(s.take(k)) <= digits_value(s),
    decreases s.len() - k,
{
    if k < s.len() {
        lemma_digits_value_prefix(s, k + 1);
        assert(s.take(k + 1).drop_last() =~= s.take(k));
        assert(is_digit(s[k]));
    } else {
        assert(s.take(k) =~= s);
    }
}

/// `str::parse::<usize>` on a range of characters (exec).
pub fn parse_usize_exec(v: &[char], from: usize, to: usize) -> (r: Option<usize>)
    requires
        from <= to <= v@.len(),
    ensures
        match parse_usize(v@.subrange(from as int, to as int)) {
            Some(n) => r == Some(n as usize),
            None => r.is_none(),
        },
{
    let ghost s = v@.subrange(from as int, to as int);
    let mut start = from;
    if start < to && v[start] == '+' {
        start = start + 1;
    }
    let ghost t = v@.subrange(start as int, to as int);
    assert(t == (if s.len() > 0 && s[0] == '+' { s.drop_first() } else { s }));
    if start == to {
        return None;
    }
    let mut acc: usize = 0;
    let mut i = start;
    while i < to
        invariant
            from <= start <= i <= to <= v@.len(),
            start < to,
            s == v@.subrange(from as int, to as int),
            t == v@.subrange(start as int, to as int),
            t == (if s.len() > 0 && s[0] == '+' { s.drop_first() } else { s }),
            all_digits(t.take(i - start)),
            acc == digits_value(t.take(i - start)),
        decreases to - i,
    {
        let c = v[i];
        if !('0' <= c && c <= '9') {
            assert(t[i - start] == c);
            assert(!all_digits(t));
            return None;
        }
        let d = (c as u32 - '0' as u32) as usize;
        assert(t.take(i - start + 1).drop_last() =~= t.take(i - start));
        assert(t.take(i - start + 1).last() == c);
        assert(all_digits(t.take(i - start + 1))) by {
            assert forall|j: int| 0 <= j < t.take(i - start + 1).len() implies is_digit(
                #[trigger] t.take(i - start + 1)[j],
            ) by {
                if j < i - start {
                    assert(t.take(i - start + 1)[j] == t.take(i - start)[j]);
                }
            }
        }
        match acc.checked_mul(10) {
            Some(m) => match m.checked_add(d) {
                Some(n) => {
                    acc = n;
                },
                None => {
                    proof {
                        assert(digits_value(t.take(i - start + 1)) > usize::MAX);
                        if all_digits(t) {
                            lemma_digits_value_prefix(t, i - start + 1);
                        }
                    }
                    return None;
                },
            },
            None => {
                proof {
                    assert(digits_value(t.take(i - start + 1)) > usize::MAX);
                    if all_digits(t) {
                        lemma_digits_value_prefix(t, i - start + 1);
                    }
                }
                return None;
            },
        }
        i = i + 1;
    }
    assert(t.take(i - start) =~= t);
    Some(acc)
}

/// `str::trim_start_matches` with a string pattern: every leading
/// repetition of `p` removed.
pub open spec fn trim_start_all(s: Seq<char>, p: Seq<char>) -> Seq<char>
    decreases s.len(),
{
    if p.len() > 0 && has_prefix(s, p) {
        trim_start_all(s.skip(p.len() as int), p)
    } else {
        s
    }
}

/// `str::trim_end_matches` with a string pattern: every trailing
/// repetition of `p` removed.
pub open spec fn trim_end_all(s: Seq<char>, p: Seq<char>) -> Seq<char>
    decreases s.len(),
{
    if p.len() > 0 && has_suffix(s, p) {
        trim_end_all(s.take(s.len() - p.len()), p)
    } else {
        s
    }
}

/// `str::trim_start_matches` (exec).
pub fn trim_start_all_exec(s: &[char], p: &[char]) -> (r: Vec<char>)
    ensures
        r@ == trim_start_all(s@, p@),
{
    let mut i: usize = 0;
    let n = s.len();
    assert(s@.subrange(0, s@.len() as int) =~= s@);
    while p.len() > 0 && occurs_at_exec(s, p, i)
        invariant
            n == s@.len(),
            i <= s@.len(),
            trim_start_all(s@, p@) == trim_start_all(s@.subrange(i as int, s@.len() as int), p@),
        decreases s@.len() - i,
    {
        let ghost t = s@.subrange(i as int, s@.len() as int);
        assert(t.subrange(0, p@.len() as int) =~= s@.subrange(i as int, i + p@.len()));
        assert(t.skip(p@.len() as int) =~= s@.subrange(i + p@.len(), s@.len() as int));
        i = i + p.len();
    }
    proof {
        let t = s@.subrange(i as int, s@.len() as int);
        if p@.len() > 0 && has_prefix(t, p@) {
            assert(t.subrange(0, p@.len() as int) =~= s@.subrange(i as int, i + p@.len()));
        }
    }
    copy_range(s, i, s.len())
}

/// `str::trim_end_matches` (exec).
pub fn trim_end_all_exec(s: &[char], p: &[char]) -> (r: Vec<char>)
    ensures
        r@ == trim_end_all(s@, p@),
{
    let mut j: usize = s.len();
    assert(s@.subrange(0, s@.len() as int) =~= s@);
    while p.len() > 0 && p.len() <= j && occurs_at_exec(s, p, j - p.len())
        invariant
            j <= s@.len(),
            trim_end_all(s@, p@) == trim_end_all(s@.subrange(0, j as int), p@),
        decreases j,
    {
        let ghost t = s@.subrange(0, j as int);
        assert(t.subrange(t.len() - p@.len(), t.len() as int) =~= s@.subrange(
            j - p@.len(),
            j as int,
        ));
        assert(t.take(t.len() - p@.len()) =~= s@.subrange(0, j - p@.len()));
        j = j - p.len();
    }
    proof {
        let t = s@.subrange(0, j as int);
        if p@.len() > 0 && has_suffix(t, p@) {
            assert(t.subrange(t.len() - p@.len(), t.len() as int) =~= s@.subrange(
                j - p@.len(),
                j as int,
            ));
        }
    }
    copy_range(s, 0, j)
}

/// The order of strings: lexicographic by character (the order of
/// `String`, whose UTF-8 byte order agrees with character order).
pub open spec fn key_lt(a: Seq<char>, b: Seq<char>) -> bool
    decreases a.len(),
{
    if a.len() == 0 {
        b.len() > 0
    } else if b.len() == 0 {
        false
    } else if a[0] != b[0] {
        a[0] < b[0]
    } else {
        key_lt(a.drop_first(), b.drop_first())
    }
}

} // verus!
