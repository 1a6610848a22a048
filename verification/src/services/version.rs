//! Article versions: stored source snapshots and the line diff between two
//! of them, read from unified-diff text into hunks.

use vstd::prelude::*;

use crate::text::{all_digits, digits_value, occurs_at, chars_of, copy_range, find, find_from, find_from_exec, lemma_find_from,
    has_prefix, line_at, line_content_end, line_end, line_end_exec, lemma_line_end, lines,
    lines_from, parse_usize, parse_usize_exec, string_of, string_of_range, trim_end_all,
    trim_end_all_exec, trim_start_all, trim_start_all_exec, starts_with};

verus! {

/// A stored version of an article (timestamps as RFC 3339 text).
#[derive(Debug, Clone)]
pub struct ArticleVersion {
    pub id: i32,
    pub article_uri: String,
    pub change_hash: String,
    pub editor_did: String,
    pub message: String,
    pub created_at: String,
}

/// A single version with its full source text.
#[derive(Debug, Clone)]
pub struct ArticleVersionFull {
    pub id: i32,
    pub article_uri: String,
    pub change_hash: String,
    pub editor_did: String,
    pub message: String,
    pub source_text: String,
    pub created_at: String,
}

#[derive(Debug, Clone)]
pub struct VersionDiff {
    pub from_version: i32,
    pub to_version: i32,
    pub hunks: Vec<DiffHunk>,
}

#[derive(Debug, Clone)]
pub struct DiffHunk {
    pub old_start: usize,
    pub old_count: usize,
    pub new_start: usize,
    pub new_count: usize,
    pub lines: Vec<DiffLine>,
}

/// One line of a hunk; `kind` is `context`, `add` or `remove`.
#[derive(Debug, Clone)]
pub struct DiffLine {
    pub kind: String,
    pub content: String,
}

/// A hunk as mathematical values.
pub struct HunkModel {
    pub old_start: nat,
    pub old_count: nat,
    pub new_start: nat,
    pub new_count: nat,
    pub lines: Seq<(Seq<char>, Seq<char>)>,
}

impl View for DiffLine {
    type V = (Seq<char>, Seq<char>);

    open spec fn view(&self) -> (Seq<char>, Seq<char>) {
        (self.kind@, self.content@)
    }
}

impl View for DiffHunk {
    type V = HunkModel;

    open spec fn view(&self) -> HunkModel {
        HunkModel {
            old_start: self.old_start as nat,
            old_count: self.old_count as nat,
            new_start: self.new_start as nat,
            new_count: self.new_count as nat,
            lines: self.lines@.map_values(|l: DiffLine| l@),
        }
    }
}

/// The hunks of a sequence, as values.
pub open spec fn hunks_view(h: Seq<DiffHunk>) -> Seq<HunkModel> {
    h.map_values(|x: DiffHunk| x@)
}

/// A number of a hunk range; `1` where it does not read as a `usize`.
pub open spec fn number_or_one(s: Seq<char>) -> nat {
    match parse_usize(s) {
        Some(n) => n,
        None => 1,
    }
}

/// `start,count`, or `start` alone with a count of one.
pub open spec fn range_of(s: Seq<char>) -> (nat, nat) {
    match find(s, seq![',']) {
        Some(i) => (number_or_one(s.take(i)), number_or_one(s.skip(i + 1))),
        None => (number_or_one(s), 1),
    }
}

/// The two space-separated fields of a header, `-old` and `+new`, after
/// the `@@ ` and ` @@` markers are trimmed; `None` when there is no space.
pub open spec fn header_fields(line: Seq<char>) -> Option<(Seq<char>, Seq<char>)> {
    let h = trim_end_all(trim_start_all(line, "@@ "@), " @@"@);
    match find(h, seq![' ']) {
        None => None,
        Some(i) => {
            let rest = h.skip(i + 1);
            let second = match find(rest, seq![' ']) {
                Some(j) => rest.take(j),
                None => rest,
            };
            Some((trim_start_all(h.take(i), seq!['-']), trim_start_all(second, seq!['+'])))
        },
    }
}

/// The empty hunk a header line opens.
pub open spec fn header_hunk(line: Seq<char>) -> Option<HunkModel> {
    match header_fields(line) {
        None => None,
        Some(f) => Some(
            HunkModel {
                old_start: range_of(f.0).0,
                old_count: range_of(f.0).1,
                new_start: range_of(f.1).0,
                new_count: range_of(f.1).1,
                lines: Seq::empty(),
            },
        ),
    }
}

/// How a body line is read: `+` adds, `-` removes, a leading space or
/// anything else is context; the marker is dropped.
pub open spec fn body_line(line: Seq<char>) -> (Seq<char>, Seq<char>) {
    if line.len() > 0 && line[0] == '+' {
        ("add"@, line.drop_first())
    } else if line.len() > 0 && line[0] == '-' {
        ("remove"@, line.drop_first())
    } else if line.len() > 0 && line[0] == ' ' {
        ("context"@, line.drop_first())
    } else {
        ("context"@, line)
    }
}

pub open spec fn flush(done: Seq<HunkModel>, cur: Option<HunkModel>) -> Seq<HunkModel> {
    match cur {
        Some(h) => done.push(h),
        None => done,
    }
}

/// Reading a unified diff line by line: a `@@` line closes the open hunk
/// and opens the one its header describes (none when the header is
/// malformed); other lines join the open hunk, or are skipped when none is
/// open.
pub open spec fn read_lines(ls: Seq<Seq<char>>, done: Seq<HunkModel>, cur: Option<HunkModel>) -> Seq<
    HunkModel,
>
    decreases ls.len(),
{
    if ls.len() == 0 {
        flush(done, cur)
    } else {
        let line = ls[0];
        if has_prefix(line, "@@"@) {
            read_lines(ls.drop_first(), flush(done, cur), header_hunk(line))
        } else {
            match cur {
                Some(h) => read_lines(
                    ls.drop_first(),
                    done,
                    Some(HunkModel { lines: h.lines.push(body_line(line)), ..h }),
                ),
                None => read_lines(ls.drop_first(), done, None),
            }
        }
    }
}

/// The hunks of a unified diff.
pub open spec fn diff_hunks(text: Seq<char>) -> Seq<HunkModel> {
    read_lines(lines(text), Seq::empty(), None)
}

/// The unified diff (three lines of context) that `imara-diff` writes for
/// two texts with the histogram algorithm.
pub uninterp spec fn unified_diff_text(old: Seq<char>, new: Seq<char>) -> Seq<char>;

/// Calls `imara_diff::diff` with `Algorithm::Histogram` on the lines of the
/// two texts and a `UnifiedDiffBuilder`; the text it writes is named
/// `unified_diff_text`, a function of the two texts alone.
#[verifier::external_body]
fn unified_diff(old: &str, new: &str) -> (r: String)
    ensures
        r@ == unified_diff_text(old@, new@),
{
    let input = imara_diff::intern::InternedInput::new(old, new);
    imara_diff::diff(
        imara_diff::Algorithm::Histogram,
        &input,
        imara_diff::UnifiedDiffBuilder::new(&input),
    )
}

/// A number of a hunk range (exec).
fn number_or_one_exec(v: &[char], from: usize, to: usize) -> (r: usize)
    requires
        from <= to <= v@.len(),
    ensures
        r == number_or_one(v@.subrange(from as int, to as int)),
{
    match parse_usize_exec(v, from, to) {
        Some(n) => n,
        None => 1,
    }
}

/// `start,count` of a hunk range (exec).
pub fn parse_range(s: &[char]) -> (r: (usize, usize))
    ensures
        r.0 == range_of(s@).0,
        r.1 == range_of(s@).1,
{
    let n = s.len();
    let comma = [','];
    let f = find_from_exec(s, &comma, 0);
    assert(comma@ =~= seq![',']);
    match f {
        Some(i) => {
            proof {
                lemma_find_from(s@, seq![','], 0);
            }
            assert(i < n);
            assert(s@.subrange(0, i as int) =~= s@.take(i as int));
            assert(s@.subrange(i + 1, s@.len() as int) =~= s@.skip(i + 1));
            (number_or_one_exec(s, 0, i), number_or_one_exec(s, i + 1, s.len()))
        },
        None => {
            assert(s@.subrange(0, s@.len() as int) =~= s@);
            (number_or_one_exec(s, 0, s.len()), 1)
        },
    }
}

/// The hunk a `@@ -a,b +c,d @@` header line opens, if it has two fields.
pub fn parse_hunk_header(line: &[char]) -> (r: Option<DiffHunk>)
    ensures
        match header_hunk(line@) {
            Some(h) => r.is_some() && r.unwrap()@ == h,
            None => r.is_none(),
        },
{
    let open = chars_of("@@ ");
    let close = chars_of(" @@");
    let t = trim_start_all_exec(line, open.as_slice());
    let h = trim_end_all_exec(t.as_slice(), close.as_slice());
    let space = [' '];
    assert(space@ =~= seq![' ']);
    let first = find_from_exec(h.as_slice(), &space, 0);
    match first {
        None => None,
        Some(i) => {
            proof {
                lemma_find_from(h@, seq![' '], 0);
            }
            assert(i < h.len());
            let rest = copy_range(h.as_slice(), i + 1, h.len());
            assert(rest@ =~= h@.skip(i + 1));
            let second = match find_from_exec(rest.as_slice(), &space, 0) {
                Some(j) => {
                    proof {
                        lemma_find_from(rest@, seq![' '], 0);
                    }
                    let s = copy_range(rest.as_slice(), 0, j);
                    assert(s@ =~= rest@.take(j as int));
                    s
                },
                None => rest,
            };
            let head = copy_range(h.as_slice(), 0, i);
            assert(head@ =~= h@.take(i as int));
            let minus = ['-'];
            let plus = ['+'];
            assert(minus@ =~= seq!['-']);
            assert(plus@ =~= seq!['+']);
            let old = trim_start_all_exec(head.as_slice(), &minus);
            let new = trim_start_all_exec(second.as_slice(), &plus);
            let (old_start, old_count) = parse_range(old.as_slice());
            let (new_start, new_count) = parse_range(new.as_slice());
            let hunk = DiffHunk { old_start, old_count, new_start, new_count, lines: Vec::new() };
            assert(hunk@.lines =~= Seq::<(Seq<char>, Seq<char>)>::empty());
            Some(hunk)
        },
    }
}

/// The line record of a body line.
fn body_line_exec(v: &[char], from: usize, to: usize) -> (r: DiffLine)
    requires
        from <= to <= v@.len(),
    ensures
        r@ == body_line(v@.subrange(from as int, to as int)),
{
    let ghost line = v@.subrange(from as int, to as int);
    if from < to {
        assert(line[0] == v@[from as int]);
        assert(line.drop_first() =~= v@.subrange(from + 1, to as int));
        let c = v[from];
        if c == '+' {
            return DiffLine { kind: "add".to_owned(), content: string_of_range(v, from + 1, to) };
        } else if c == '-' {
            return DiffLine {
                kind: "remove".to_owned(),
                content: string_of_range(v, from + 1, to),
            };
        } else if c == ' ' {
            return DiffLine {
                kind: "context".to_owned(),
                content: string_of_range(v, from + 1, to),
            };
        }
    }
    DiffLine { kind: "context".to_owned(), content: string_of_range(v, from, to) }
}

proof fn lemma_flush_view(done: Seq<DiffHunk>, cur: Option<DiffHunk>)
    ensures
        hunks_view(
            match cur {
                Some(h) => done.push(h),
                None => done,
            },
        ) == flush(
            hunks_view(done),
            match cur {
                Some(h) => Some(h@),
                None => None,
            },
        ),
{
    match cur {
        Some(h) => {
            assert(hunks_view(done.push(h)) =~= hunks_view(done).push(h@));
        },
        None => {},
    }
}

/// Read the hunks of a unified diff.
pub fn parse_unified_diff(diff_text: &str) -> (r: Vec<DiffHunk>)
    ensures
        hunks_view(r@) == diff_hunks(diff_text@),
{
    let s = chars_of(diff_text);
    let n = s.len();
    let mut hunks: Vec<DiffHunk> = Vec::new();
    let mut current: Option<DiffHunk> = None;
    let mut pos: usize = 0;
    let at = chars_of("@@");
    assert(hunks_view(hunks@) =~= Seq::<HunkModel>::empty());
    while pos < n
        invariant
            n == s@.len(),
            s@ == diff_text@,
            at@ == "@@"@,
            pos <= n,
            read_lines(
                lines_from(s@, pos as int),
                hunks_view(hunks@),
                match current {
                    Some(h) => Some(h@),
                    None => None,
                },
            ) == diff_hunks(diff_text@),
        decreases n - pos,
    {
        let e = line_end_exec(s.as_slice(), pos);
        proof {
            lemma_line_end(s@, pos as int);
        }
        let le = line_content_end(s.as_slice(), pos, e);
        let ghost line = s@.subrange(pos as int, le as int);
        let ghost ls = lines_from(s@, pos as int);
        assert(ls.len() > 0 && ls[0] == line && ls.drop_first() == lines_from(s@, e + 1)) by {
            if e >= n {
                assert(line_at(s@, pos as int, e as int) == s@.subrange(pos as int, n as int));
            }
        }
        let head = copy_range(s.as_slice(), pos, le);
        assert(head@ == line);
        if starts_with(head.as_slice(), at.as_slice()) {
            proof {
                lemma_flush_view(hunks@, current);
            }
            match current {
                Some(h) => {
                    hunks.push(h);
                },
                None => {},
            }
            current = parse_hunk_header(head.as_slice());
        } else {
            match current {
                Some(mut h) => {
                    let ghost old_h = h@;
                    let dl = body_line_exec(s.as_slice(), pos, le);
                    h.lines.push(dl);
                    assert(h@.lines =~= old_h.lines.push(body_line(line)));
                    assert(h@ == HunkModel { lines: old_h.lines.push(body_line(line)), ..old_h });
                    current = Some(h);
                },
                None => {
                    current = None;
                },
            }
        }
        pos = if e < n {
            e + 1
        } else {
            n
        };
        assert(lines_from(s@, pos as int) == ls.drop_first());
    }
    assert(lines_from(s@, pos as int) =~= Seq::<Seq<char>>::empty());
    proof {
        lemma_flush_view(hunks@, current);
    }
    match current {
        Some(h) => {
            hunks.push(h);
        },
        None => {},
    }
    hunks
}

/// The hunks of the line diff between two texts.
pub fn compute_diff(old: &str, new: &str) -> (r: Vec<DiffHunk>)
    ensures
        hunks_view(r@) == diff_hunks(unified_diff_text(old@, new@)),
{
    let text = unified_diff(old, new);
    parse_unified_diff(text.as_str())
}

/// The diff between two stored versions.
pub fn version_diff(from: &ArticleVersionFull, to: &ArticleVersionFull) -> (r: VersionDiff)
    ensures
        r.from_version == from.id,
        r.to_version == to.id,
        hunks_view(r.hunks@) == diff_hunks(unified_diff_text(from.source_text@, to.source_text@)),
{
    VersionDiff {
        from_version: from.id,
        to_version: to.id,
        hunks: compute_diff(from.source_text.as_str(), to.source_text.as_str()),
    }
}

/// How a body line of a hunk is classified: it is an added line exactly
/// when it starts with `+`, a removed line exactly when it starts with
/// `-`, and otherwise context; for a line starting with `+`, `-` or a
/// space, the marker followed by the content gives back the line, and any
/// other line is context with all of it as content.
pub proof fn lemma_body_line_markers(line: Seq<char>)
    ensures
        (body_line(line).0 == "add"@) <==> (line.len() > 0 && line[0] == '+'),
        (body_line(line).0 == "remove"@) <==> (line.len() > 0 && line[0] == '-'),
        (body_line(line).0 == "context"@) <==> !(line.len() > 0 && (line[0] == '+' || line[0] == '-')),
        line.len() > 0 && (line[0] == '+' || line[0] == '-' || line[0] == ' ') ==> seq![line[0]]
            + body_line(line).1 == line,
        !(line.len() > 0 && (line[0] == '+' || line[0] == '-' || line[0] == ' ')) ==> body_line(line).1
            == line,
{
    reveal_strlit("add");
    reveal_strlit("remove");
    reveal_strlit("context");
    assert("add"@ != "remove"@ && "add"@ != "context"@ && "remove"@ != "context"@) by {
        assert("add"@.len() != "remove"@.len());
        assert("add"@.len() != "context"@.len());
        assert("remove"@.len() != "context"@.len());
    }
    if line.len() > 0 {
        assert(seq![line[0]] + line.drop_first() =~= line);
    }
}

/// The first occurrence of a character, by its position.
proof fn lemma_find_char(s: Seq<char>, c: char, i: int)
    requires
        0 <= i <= s.len(),
        forall|j: int| 0 <= j < i ==> s[j] != c,
        i < s.len() ==> s[i] == c,
    ensures
        find(s, seq![c]) == if i < s.len() { Some(i) } else { None::<int> },
{
    lemma_find_from(s, seq![c], 0);
    if i < s.len() {
        assert(s.subrange(i, i + 1) =~= seq![c]);
        assert(occurs_at(s, seq![c], i));
    }
    assert forall|j: int| 0 <= j < i implies !occurs_at(s, seq![c], j) by {
        if occurs_at(s, seq![c], j) {
            assert(s.subrange(j, j + 1)[0] == s[j]);
        }
    }
}

/// A digit string in `usize` range reads as its value.
proof fn lemma_number_of_digits(a: Seq<char>)
    requires
        a.len() > 0,
        all_digits(a),
        digits_value(a) <= usize::MAX,
    ensures
        number_or_one(a) == digits_value(a),
{
    assert(crate::text::is_digit(a[0]));
}

/// The `@@ ` and ` @@` markers around a header body starting with `-`
/// and ending with a digit are each trimmed once.
proof fn lemma_header_markers(body: Seq<char>)
    requires
        body.len() > 0,
        body[0] == '-',
        crate::text::is_digit(body[body.len() - 1]),
    ensures
        trim_end_all(trim_start_all("@@ "@ + body + " @@"@, "@@ "@), " @@"@) == body,
{
    reveal_strlit("@@ ");
    reveal_strlit(" @@");
    let line = "@@ "@ + body + " @@"@;
    let bt = body + " @@"@;
    assert(line.subrange(0, 3) =~= "@@ "@);
    assert(line.skip(3) =~= bt);
    assert(!has_prefix(bt, "@@ "@)) by {
        assert(bt.subrange(0, 3)[0] == '-');
    }
    assert(trim_start_all(bt, "@@ "@) == bt);
    assert(trim_start_all(line, "@@ "@) == trim_start_all(line.skip(3), "@@ "@));
    assert(bt.subrange(bt.len() - 3, bt.len() as int) =~= " @@"@);
    assert(bt.take(bt.len() - 3) =~= body);
    assert(!crate::text::has_suffix(body, " @@"@)) by {
        if crate::text::has_suffix(body, " @@"@) {
            assert(body.subrange(body.len() - 3, body.len() as int)[2] == body[body.len() - 1]);
        }
    }
    assert(trim_end_all(body, " @@"@) == body);
    assert(trim_end_all(bt, " @@"@) == trim_end_all(bt.take(bt.len() - 3), " @@"@));
}

/// A signed range `±x,y` of digit strings in `usize` range: the sign
/// trims off once, and the range reads as the two values.
proof fn lemma_signed_range(sign: char, x: Seq<char>, y: Seq<char>)
    requires
        sign == '-' || sign == '+',
        x.len() > 0 && all_digits(x) && digits_value(x) <= usize::MAX,
        y.len() > 0 && all_digits(y) && digits_value(y) <= usize::MAX,
    ensures
        trim_start_all(seq![sign] + x + seq![','] + y, seq![sign]) == x + seq![','] + y,
        range_of(x + seq![','] + y) == (digits_value(x), digits_value(y)),
{
    let f = seq![sign] + x + seq![','] + y;
    let xy = x + seq![','] + y;
    assert(f.subrange(0, 1) =~= seq![sign]);
    assert(f.skip(1) =~= xy);
    assert(crate::text::is_digit(x[0]));
    assert(!has_prefix(xy, seq![sign])) by {
        assert(xy.subrange(0, 1)[0] == xy[0]);
        assert(xy[0] == x[0]);
    }
    assert(trim_start_all(xy, seq![sign]) == xy);
    assert(trim_start_all(f, seq![sign]) == trim_start_all(f.skip(1), seq![sign]));
    assert forall|j: int| 0 <= j < x.len() implies xy[j] != ',' by {
        assert(xy[j] == x[j]);
        assert(crate::text::is_digit(x[j]));
    }
    assert(xy[x.len() as int] == ',');
    lemma_find_char(xy, ',', x.len() as int);
    assert(xy.take(x.len() as int) =~= x);
    assert(xy.skip((x.len() + 1) as int) =~= y);
    lemma_number_of_digits(x);
    lemma_number_of_digits(y);
}

/// A signed range holds no space.
proof fn lemma_signed_range_no_space(sign: char, x: Seq<char>, y: Seq<char>)
    requires
        sign == '-' || sign == '+',
        all_digits(x),
        all_digits(y),
    ensures
        forall|j: int| 0 <= j < (seq![sign] + x + seq![','] + y).len() ==> (seq![sign] + x + seq![','] + y)[j] != ' ',
{
    let f = seq![sign] + x + seq![','] + y;
    assert forall|j: int| 0 <= j < f.len() implies f[j] != ' ' by {
        if 1 <= j < 1 + x.len() {
            assert(f[j] == x[j - 1]);
            assert(crate::text::is_digit(x[j - 1]));
        } else if 1 + x.len() + 1 <= j {
            assert(f[j] == y[j - 2 - x.len()]);
            assert(crate::text::is_digit(y[j - 2 - x.len()]));
        }
    }
}

/// The header `@@ -a,b +c,d @@` of a hunk, for digit strings in `usize`
/// range, opens an empty hunk starting at line `a` of the old text with `b`
/// lines, and at line `c` of the new text with `d` lines.
pub proof fn lemma_header_numbers(a: Seq<char>, b: Seq<char>, c: Seq<char>, d: Seq<char>)
    requires
        a.len() > 0 && all_digits(a) && digits_value(a) <= usize::MAX,
        b.len() > 0 && all_digits(b) && digits_value(b) <= usize::MAX,
        c.len() > 0 && all_digits(c) && digits_value(c) <= usize::MAX,
        d.len() > 0 && all_digits(d) && digits_value(d) <= usize::MAX,
    ensures
        header_hunk("@@ -"@ + a + ","@ + b + " +"@ + c + ","@ + d + " @@"@) == Some(
            HunkModel {
                old_start: digits_value(a),
                old_count: digits_value(b),
                new_start: digits_value(c),
                new_count: digits_value(d),
                lines: Seq::empty(),
            },
        ),
{
    reveal_strlit("@@ -");
    reveal_strlit(",");
    reveal_strlit(" +");
    reveal_strlit(" @@");
    reveal_strlit("@@ ");
    let first = seq!['-'] + a + seq![','] + b;
    let second = seq!['+'] + c + seq![','] + d;
    let body = first + seq![' '] + second;
    assert("@@ "@ + body + " @@"@ =~= "@@ -"@ + a + ","@ + b + " +"@ + c + ","@ + d + " @@"@);
    assert(crate::text::is_digit(d[d.len() - 1]));
    assert(body[body.len() - 1] == d[d.len() - 1]);
    assert(body[0] == '-');
    lemma_header_markers(body);
    let p1 = first.len() as int;
    lemma_signed_range_no_space('-', a, b);
    lemma_signed_range_no_space('+', c, d);
    assert forall|j: int| 0 <= j < p1 implies body[j] != ' ' by {
        assert(body[j] == first[j]);
    }
    assert(body[p1] == ' ');
    lemma_find_char(body, ' ', p1);
    assert(body.skip(p1 + 1) =~= second);
    assert(body.take(p1) =~= first);
    lemma_find_char(second, ' ', second.len() as int);
    lemma_signed_range('-', a, b);
    lemma_signed_range('+', c, d);
}

} // verus!
