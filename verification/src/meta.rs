//! Series and article metadata, authored as YAML.
//!
//! A series repository carries `meta.yaml` at its root; a markdown chapter
//! or article carries YAML frontmatter between two `---` lines at the top
//! of the file. This module holds the metadata records, the framing of
//! frontmatter inside a markdown source (finding it, and writing it back),
//! the field-level merge used by the publish path, and title extraction
//! from the first heading of a content file. Turning YAML text into the
//! records and back is done by the caller with a YAML library.

use vstd::prelude::*;

use crate::text::{ci_find_from, ci_find_from_exec, lemma_ci_find_from, strip_tags, strip_html_tags, string_of, string_of_range, trim_end_idx, trim_start_idx, trim_bounds, trim, trim_end, trim_start, strip_prefix, occurs_at, occurs_at_exec, find_from, find_from_exec, lemma_find_from, has_prefix, starts_with, chars_of, copy_range, concat2, concat4, str_eq, line_end, line_end_exec, lemma_line_end, line_at, line_content_end, push_all, ws_trail, lemma_ws_trail_bound, is_ws, ws_lead, lemma_ws_lead_bound};

verus! {

/// File name of the series metadata at the root of a series repository.
pub const SERIES_META_FILENAME: &'static str = "meta.yaml";

/// Metadata of a series repository.
#[derive(Debug, Clone, Default)]
pub struct SeriesMeta {
    pub title: String,
    pub description: Option<String>,
    pub long_description: Option<String>,
    pub lang: Option<String>,
    pub category: Option<String>,
    pub topics: Vec<String>,
    /// Splits the compiled series into pages at this heading level (1-6).
    pub split_level: Option<u32>,
    /// Ordered chapter groups, each a title and its section file paths.
    pub chapters: Vec<ChapterGroup>,
    /// Relative path (within the repo) to the cover image.
    pub cover: Option<String>,
}

/// One table-of-contents entry of a series and its section files.
#[derive(Debug, Clone)]
pub struct ChapterGroup {
    pub title: String,
    pub sections: Vec<String>,
}

/// The section paths of the groups, flattened in declared order.
pub open spec fn flatten_sections(groups: Seq<ChapterGroup>) -> Seq<String>
    decreases groups.len(),
{
    if groups.len() == 0 {
        Seq::empty()
    } else {
        flatten_sections(groups.drop_last()) + groups.last().sections@
    }
}

impl SeriesMeta {
    /// Flatten chapter groups into the section file paths in declared order.
    pub fn section_paths(&self) -> (r: Vec<String>)
        ensures
            r@ == flatten_sections(self.chapters@),
    {
        let mut r: Vec<String> = Vec::new();
        let mut g: usize = 0;
        while g < self.chapters.len()
            invariant
                g <= self.chapters@.len(),
                r@ == flatten_sections(self.chapters@.take(g as int)),
            decreases self.chapters@.len() - g,
        {
            let group = &self.chapters[g];
            let ghost before = r@;
            let mut k: usize = 0;
            while k < group.sections.len()
                invariant
                    k <= group.sections@.len(),
                    r@ == before + group.sections@.take(k as int),
                decreases group.sections@.len() - k,
            {
                r.push(group.sections[k].clone());
                k = k + 1;
                assert(r@ =~= before + group.sections@.take(k as int));
            }
            assert(group.sections@.take(k as int) =~= group.sections@);
            assert(self.chapters@.take(g + 1).drop_last() =~= self.chapters@.take(g as int));
            g = g + 1;
        }
        assert(self.chapters@.take(g as int) =~= self.chapters@);
        r
    }
}

/// Frontmatter parsed from the top of a markdown file.
#[derive(Debug, Clone, Default)]
pub struct Frontmatter {
    pub title: Option<String>,
    pub description: Option<String>,
    pub lang: Option<String>,
    pub category: Option<String>,
    pub license: Option<String>,
    /// Relative path (within the article's source bundle) to a cover image.
    pub cover: Option<String>,
    pub teaches: Vec<String>,
    pub prereqs: Vec<PrereqEntry>,
    /// Concepts the article touches without teaching.
    pub related: Vec<String>,
}

/// One prerequisite declared in frontmatter.
#[derive(Debug, Clone)]
pub struct PrereqEntry {
    pub tag: String,
    /// `None` → required (default). `Some("recommended")` for soft prereq.
    pub prereq_type: Option<String>,
}

impl PrereqEntry {
    /// The strength of the prerequisite, `required` when unspecified.
    pub open spec fn strength(self) -> Seq<char> {
        match self.prereq_type {
            Some(t) => t@,
            None => "required"@,
        }
    }

    /// Returns the prereq strength, defaulting to "required" when unspecified.
    pub fn kind(&self) -> (r: &str)
        ensures
            r@ == self.strength(),
    {
        match &self.prereq_type {
            Some(t) => t.as_str(),
            None => "required",
        }
    }

    /// A copy of this entry.
    pub fn copy(&self) -> (r: PrereqEntry)
        ensures
            r == *self,
    {
        PrereqEntry { tag: self.tag.clone(), prereq_type: copy_opt_string(&self.prereq_type) }
    }
}

/// A copy of an optional string.
pub fn copy_opt_string(o: &Option<String>) -> (r: Option<String>)
    ensures
        r == *o,
{
    match o {
        Some(s) => Some(s.clone()),
        None => None,
    }
}

/// A copy of a vector of strings.
pub fn copy_strings(v: &Vec<String>) -> (r: Vec<String>)
    ensures
        r@ == v@,
{
    let mut r: Vec<String> = Vec::new();
    let mut i: usize = 0;
    while i < v.len()
        invariant
            i <= v@.len(),
            r@ == v@.take(i as int),
        decreases v@.len() - i,
    {
        r.push(v[i].clone());
        i = i + 1;
        assert(r@ =~= v@.take(i as int));
    }
    assert(v@.take(i as int) =~= v@);
    r
}

/// A copy of a vector of prerequisite entries.
pub fn copy_prereqs(v: &Vec<PrereqEntry>) -> (r: Vec<PrereqEntry>)
    ensures
        r@ == v@,
{
    let mut r: Vec<PrereqEntry> = Vec::new();
    let mut i: usize = 0;
    while i < v.len()
        invariant
            i <= v@.len(),
            r@ == v@.take(i as int),
        decreases v@.len() - i,
    {
        r.push(v[i].copy());
        i = i + 1;
        assert(r@ =~= v@.take(i as int));
    }
    assert(v@.take(i as int) =~= v@);
    r
}

/// The field-by-field merge of `incoming` into `existing`: a field set on
/// `incoming` (a `Some`, or a non-empty list) replaces the existing one;
/// an unset field leaves the existing value alone.
pub open spec fn merged_frontmatter(existing: Frontmatter, incoming: Frontmatter) -> Frontmatter {
    Frontmatter {
        title: if incoming.title.is_some() { incoming.title } else { existing.title },
        description: if incoming.description.is_some() {
            incoming.description
        } else {
            existing.description
        },
        lang: if incoming.lang.is_some() { incoming.lang } else { existing.lang },
        category: if incoming.category.is_some() { incoming.category } else { existing.category },
        license: if incoming.license.is_some() { incoming.license } else { existing.license },
        cover: if incoming.cover.is_some() { incoming.cover } else { existing.cover },
        teaches: if incoming.teaches@.len() > 0 { incoming.teaches } else { existing.teaches },
        prereqs: if incoming.prereqs@.len() > 0 { incoming.prereqs } else { existing.prereqs },
        related: if incoming.related@.len() > 0 { incoming.related } else { existing.related },
    }
}

/// Two frontmatters hold the same values (lists compared by contents).
pub open spec fn same_frontmatter(a: Frontmatter, b: Frontmatter) -> bool {
    &&& a.title == b.title
    &&& a.description == b.description
    &&& a.lang == b.lang
    &&& a.category == b.category
    &&& a.license == b.license
    &&& a.cover == b.cover
    &&& a.teaches@ == b.teaches@
    &&& a.prereqs@ == b.prereqs@
    &&& a.related@ == b.related@
}

/// Merge `incoming` into the existing frontmatter values (the field rules
/// of the publish path, which stamps title/desc/lang/license/category/
/// teaches/prereqs/related into a bundle source).
pub fn merge_frontmatter(existing: &Frontmatter, incoming: &Frontmatter) -> (r: Frontmatter)
    ensures
        same_frontmatter(r, merged_frontmatter(*existing, *incoming)),
{
    let pick = |a: &Option<String>, b: &Option<String>| -> (r: Option<String>)
        ensures
            r == (if a.is_some() { *a } else { *b }),
        {
            if a.is_some() {
                copy_opt_string(a)
            } else {
                copy_opt_string(b)
            }
        };
    Frontmatter {
        title: pick(&incoming.title, &existing.title),
        description: pick(&incoming.description, &existing.description),
        lang: pick(&incoming.lang, &existing.lang),
        category: pick(&incoming.category, &existing.category),
        license: pick(&incoming.license, &existing.license),
        cover: pick(&incoming.cover, &existing.cover),
        teaches: if incoming.teaches.len() > 0 {
            copy_strings(&incoming.teaches)
        } else {
            copy_strings(&existing.teaches)
        },
        prereqs: if incoming.prereqs.len() > 0 {
            copy_prereqs(&incoming.prereqs)
        } else {
            copy_prereqs(&existing.prereqs)
        },
        related: if incoming.related.len() > 0 {
            copy_strings(&incoming.related)
        } else {
            copy_strings(&existing.related)
        },
    }
}

/// Merging nothing changes nothing.
pub proof fn lemma_merge_empty_is_identity(existing: Frontmatter, incoming: Frontmatter)
    requires
        incoming.title.is_none(),
        incoming.description.is_none(),
        incoming.lang.is_none(),
        incoming.category.is_none(),
        incoming.license.is_none(),
        incoming.cover.is_none(),
        incoming.teaches@.len() == 0,
        incoming.prereqs@.len() == 0,
        incoming.related@.len() == 0,
    ensures
        same_frontmatter(merged_frontmatter(existing, incoming), existing),
{
}

/// Merging the same values twice is the same as merging them once.
pub proof fn lemma_merge_idempotent(existing: Frontmatter, incoming: Frontmatter)
    ensures
        same_frontmatter(
            merged_frontmatter(merged_frontmatter(existing, incoming), incoming),
            merged_frontmatter(existing, incoming),
        ),
{
}

/// Every field set on the incoming frontmatter wins, and every field it
/// leaves unset keeps the existing value.
pub proof fn lemma_merge_incoming_wins(existing: Frontmatter, incoming: Frontmatter)
    ensures
        incoming.title.is_some() ==> merged_frontmatter(existing, incoming).title
            == incoming.title,
        incoming.description.is_some() ==> merged_frontmatter(existing, incoming).description
            == incoming.description,
        incoming.lang.is_some() ==> merged_frontmatter(existing, incoming).lang
            == incoming.lang,
        incoming.category.is_some() ==> merged_frontmatter(existing, incoming).category
            == incoming.category,
        incoming.license.is_some() ==> merged_frontmatter(existing, incoming).license
            == incoming.license,
        incoming.cover.is_some() ==> merged_frontmatter(existing, incoming).cover
            == incoming.cover,
        incoming.teaches@.len() > 0 ==> merged_frontmatter(existing, incoming).teaches@
            == incoming.teaches@,
        incoming.prereqs@.len() > 0 ==> merged_frontmatter(existing, incoming).prereqs@
            == incoming.prereqs@,
        incoming.related@.len() > 0 ==> merged_frontmatter(existing, incoming).related@
            == incoming.related@,
        incoming.title.is_none() ==> merged_frontmatter(existing, incoming).title
            == existing.title,
        incoming.description.is_none() ==> merged_frontmatter(existing, incoming).description
            == existing.description,
        incoming.lang.is_none() ==> merged_frontmatter(existing, incoming).lang
            == existing.lang,
        incoming.category.is_none() ==> merged_frontmatter(existing, incoming).category
            == existing.category,
        incoming.license.is_none() ==> merged_frontmatter(existing, incoming).license
            == existing.license,
        incoming.cover.is_none() ==> merged_frontmatter(existing, incoming).cover
            == existing.cover,
        incoming.teaches@.len() == 0 ==> merged_frontmatter(existing, incoming).teaches@
            == existing.teaches@,
        incoming.prereqs@.len() == 0 ==> merged_frontmatter(existing, incoming).prereqs@
            == existing.prereqs@,
        incoming.related@.len() == 0 ==> merged_frontmatter(existing, incoming).related@
            == existing.related@,
{
}


// ── Frontmatter framing ─────────────────────────────────────────────────

/// The delimiter `---` found at `abs` closes the frontmatter: it starts a
/// line and is followed by a newline (`\n` or `\r\n`) or the end.
pub open spec fn closes_at(rest: Seq<char>, abs: int) -> bool {
    &&& occurs_at(rest, "---"@, abs)
    &&& (abs == 0 || rest[abs - 1] == '\n')
    &&& (abs + 3 == rest.len() || rest[abs + 3] == '\n' || (abs + 4 < rest.len()
        && rest[abs + 3] == '\r' && rest[abs + 4] == '\n'))
}

/// Where the body starts after a closing delimiter at `abs`.
pub open spec fn body_start(rest: Seq<char>, abs: int) -> int {
    if abs + 3 == rest.len() {
        abs + 3
    } else if rest[abs + 3] == '\n' {
        abs + 4
    } else {
        abs + 5
    }
}

/// The closing delimiter, searching occurrences of `---` from `from` on and
/// resuming after each rejected occurrence.
pub open spec fn close_from(rest: Seq<char>, from: int) -> Option<int>
    decreases rest.len() + 1 - from,
{
    if from < 0 {
        None
    } else {
        match find_from(rest, "---"@, from) {
            None => None,
            Some(abs) => {
                proof {
                    lemma_find_from(rest, "---"@, from);
                    reveal_strlit("---");
                }
                if closes_at(rest, abs) {
                    Some(abs)
                } else {
                    close_from(rest, abs + 3)
                }
            },
        }
    }
}

/// Drop trailing `'\n'` and `'\r'` characters.
pub open spec fn strip_trailing_newlines(s: Seq<char>) -> Seq<char>
    decreases s.len(),
{
    if s.len() > 0 && (s.last() == '\n' || s.last() == '\r') {
        strip_trailing_newlines(s.drop_last())
    } else {
        s
    }
}

/// Offset of the text after an opening `---` line, if the source opens one.
pub open spec fn frontmatter_open(src: Seq<char>) -> Option<int> {
    if !has_prefix(src, "---"@) {
        None
    } else if src.len() > 3 && src[3] == '\n' {
        Some(4)
    } else if src.len() > 4 && src[3] == '\r' && src[4] == '\n' {
        Some(5)
    } else {
        None
    }
}

/// The YAML text and the body of a markdown source with frontmatter;
/// `None` when the source has no complete frontmatter block.
pub open spec fn frontmatter_split(src: Seq<char>) -> Option<(Seq<char>, Seq<char>)> {
    match frontmatter_open(src) {
        None => None,
        Some(start) => {
            let rest = src.subrange(start, src.len() as int);
            match close_from(rest, 0) {
                None => None,
                Some(abs) => Some(
                    (
                        strip_trailing_newlines(rest.subrange(0, abs)),
                        rest.subrange(body_start(rest, abs), rest.len() as int),
                    ),
                ),
            }
        },
    }
}

/// The body of a markdown source: what follows the frontmatter, or the
/// whole source when it has none.
pub open spec fn frontmatter_body(src: Seq<char>) -> Seq<char> {
    match frontmatter_split(src) {
        Some(parts) => parts.1,
        None => src,
    }
}

/// A closing delimiter found by `close_from` is a real one.
pub proof fn lemma_close_from(rest: Seq<char>, from: int)
    requires
        0 <= from,
    ensures
        match close_from(rest, from) {
            Some(abs) => from <= abs && closes_at(rest, abs) && abs + 3 <= rest.len(),
            None => true,
        },
    decreases rest.len() + 1 - from,
{
    lemma_find_from(rest, "---"@, from);
    reveal_strlit("---");
    match find_from(rest, "---"@, from) {
        None => {},
        Some(abs) => {
            if !closes_at(rest, abs) {
                lemma_close_from(rest, abs + 3);
            }
        },
    }
}

proof fn lemma_dashes()
    ensures
        "---"@.len() == 3,
        "---"@[0] == '-',
        "---"@[1] == '-',
        "---"@[2] == '-',
{
    reveal_strlit("---");
}

/// Find the closing delimiter of a frontmatter block in `rest`.
fn find_frontmatter_close(rest: &[char]) -> (r: Option<usize>)
    ensures
        match close_from(rest@, 0) {
            Some(abs) => r == Some(abs as usize),
            None => r.is_none(),
        },
{
    proof {
        lemma_dashes();
    }
    let dashes: Vec<char> = chars_of("---");
    let mut search_from: usize = 0;
    loop
        invariant
            search_from <= rest@.len() + 3,
            dashes@ == "---"@,
            "---"@.len() == 3,
            close_from(rest@, 0) == close_from(rest@, search_from as int),
        decreases rest@.len() + 3 - search_from,
    {
        if search_from > rest.len() {
            proof {
                lemma_find_from(rest@, "---"@, search_from as int);
            }
            return None;
        }
        match find_from_exec(rest, dashes.as_slice(), search_from) {
            None => {
                return None;
            },
            Some(abs) => {
                proof {
                    lemma_find_from(rest@, "---"@, search_from as int);
                }
                let at_line_start = abs == 0 || rest[abs - 1] == '\n';
                let ends_ok = abs + 3 == rest.len() || rest[abs + 3] == '\n' || (abs + 4
                    < rest.len() && rest[abs + 3] == '\r' && rest[abs + 4] == '\n');
                if at_line_start && ends_ok {
                    return Some(abs);
                }
                search_from = abs + 3;
            },
        }
    }
}

/// Length of `s[0..n]` without its trailing `'\n'`/`'\r'` characters.
fn strip_newlines_end(s: &[char], n: usize) -> (r: usize)
    requires
        n <= s@.len(),
    ensures
        r <= n,
        s@.subrange(0, r as int) == strip_trailing_newlines(s@.subrange(0, n as int)),
{
    let mut k = n;
    while k > 0 && (s[k - 1] == '\n' || s[k - 1] == '\r')
        invariant
            k <= n <= s@.len(),
            strip_trailing_newlines(s@.subrange(0, n as int)) == strip_trailing_newlines(
                s@.subrange(0, k as int),
            ),
        decreases k,
    {
        assert(s@.subrange(0, k as int).drop_last() =~= s@.subrange(0, k - 1));
        k = k - 1;
    }
    k
}

/// Split a markdown source into its frontmatter YAML text (when a
/// complete `---` block opens the file) and its body. Without frontmatter
/// the body is the whole source.
pub fn split_frontmatter_text(source: &str) -> (r: (Option<String>, String))
    ensures
        match frontmatter_split(source@) {
            Some(parts) => r.0.is_some() && r.0.unwrap()@ == parts.0 && r.1@ == parts.1,
            None => r.0.is_none() && r.1@ == source@,
        },
{
    let v = chars_of(source);
    proof {
        lemma_dashes();
    }
    let start: usize = if v.len() >= 4 && v[0] == '-' && v[1] == '-' && v[2] == '-' && v[3]
        == '\n' {
        4
    } else if v.len() >= 5 && v[0] == '-' && v[1] == '-' && v[2] == '-' && v[3] == '\r' && v[4]
        == '\n' {
        5
    } else {
        0
    };
    proof {
        if v.len() >= 3 && v[0] == '-' && v[1] == '-' && v[2] == '-' {
            assert(v@.subrange(0, 3) =~= "---"@);
        }
        if has_prefix(v@, "---"@) {
            assert(v@.subrange(0, 3)[0] == v@[0]);
            assert(v@.subrange(0, 3)[1] == v@[1]);
            assert(v@.subrange(0, 3)[2] == v@[2]);
        }
    }
    if start == 0 {
        return (None, source.to_owned());
    }
    let rest = copy_range(v.as_slice(), start, v.len());
    proof {
        lemma_close_from(rest@, 0);
    }
    match find_frontmatter_close(rest.as_slice()) {
        None => (None, source.to_owned()),
        Some(abs) => {
            let y = strip_newlines_end(rest.as_slice(), abs);
            let b = if abs + 3 == rest.len() {
                abs + 3
            } else if rest[abs + 3] == '\n' {
                abs + 4
            } else {
                abs + 5
            };
            proof {
                assert(rest@.subrange(0, y as int) =~= rest@.subrange(0, abs as int).subrange(0, y as int));
            }
            (Some(string_of_range(rest.as_slice(), 0, y)), string_of_range(rest.as_slice(), b, rest.len()))
        },
    }
}


/// A markdown source with `yaml` (right-trimmed) as its frontmatter above
/// `body`; an empty or `{}` YAML text adds no frontmatter.
pub open spec fn framed_markdown(yaml: Seq<char>, body: Seq<char>) -> Seq<char> {
    let t = trim_end(yaml);
    if t.len() == 0 || t == "{}"@ {
        body
    } else {
        "---\n"@ + t + "\n---\n"@ + body
    }
}

/// Write `body` below a frontmatter block holding `yaml`, the serialized
/// frontmatter fields. An empty mapping (`{}`) or empty text yields the
/// body alone.
pub fn render_markdown_with_frontmatter(yaml: &str, body: &str) -> (r: String)
    ensures
        r@ == framed_markdown(yaml@, body@),
{
    let yv = chars_of(yaml);
    let te = trim_end_idx(yv.as_slice(), 0, yv.len());
    assert(yv@.subrange(0, yv@.len() as int) =~= yv@);
    let t = string_of_range(yv.as_slice(), 0, te);
    if te == 0 || str_eq(t.as_str(), "{}") {
        return body.to_owned();
    }
    concat4("---\n", t.as_str(), "\n---\n", body)
}

/// Default relative path inside a series repository for a chapter.
pub fn default_chapter_path(chapter_id: &str, src_ext: &str) -> (r: String)
    ensures
        r@ == "chapters/"@ + chapter_id@ + "."@ + src_ext@,
{
    concat4("chapters/", chapter_id, ".", src_ext)
}

// ── Title extraction ────────────────────────────────────────────────────

/// Title of the first markdown `# ` heading among the lines from `pos` on.
pub open spec fn md_heading_from(s: Seq<char>, pos: int) -> Option<Seq<char>>
    decreases s.len() - pos,
{
    if pos < 0 || pos >= s.len() {
        None
    } else {
        let e = line_end(s, pos);
        match strip_prefix(trim_end(line_at(s, pos, e)), "# "@) {
            Some(rest) => Some(trim(rest)),
            None => if e >= s.len() {
                None
            } else {
                proof {
                    lemma_line_end(s, pos);
                }
                md_heading_from(s, e + 1)
            },
        }
    }
}

/// Title of the first typst `= ` heading among the lines from `pos` on.
pub open spec fn typst_heading_from(s: Seq<char>, pos: int) -> Option<Seq<char>>
    decreases s.len() - pos,
{
    if pos < 0 || pos >= s.len() {
        None
    } else {
        let e = line_end(s, pos);
        match strip_prefix(trim_start(line_at(s, pos, e)), "= "@) {
            Some(rest) => Some(trim(rest)),
            None => if e >= s.len() {
                None
            } else {
                proof {
                    lemma_line_end(s, pos);
                }
                typst_heading_from(s, e + 1)
            },
        }
    }
}

/// Text of the first `<h1 ...>...</h1>` element (tags ASCII-case-insensitive),
/// with inner tags removed; `None` when absent or empty.
pub open spec fn html_heading(s: Seq<char>) -> Option<Seq<char>> {
    match ci_find_from(s, "<h1"@, 0) {
        None => None,
        Some(start) => match find_from(s, ">"@, start) {
            None => None,
            Some(gt) => match ci_find_from(s, "</h1>"@, gt + 1) {
                None => None,
                Some(end) => {
                    let inner = trim(s.subrange(gt + 1, end));
                    if inner.len() == 0 {
                        None
                    } else {
                        Some(strip_tags(inner))
                    }
                },
            },
        },
    }
}

/// The title a content file declares through its first heading, by format
/// name (`markdown`/`md` skip frontmatter, `typst`/`typ`, `html`).
pub open spec fn first_heading(source: Seq<char>, format: Seq<char>) -> Option<Seq<char>> {
    let f = trim(format);
    if f == "markdown"@ || f == "md"@ {
        md_heading_from(frontmatter_body(source), 0)
    } else if f == "typst"@ || f == "typ"@ {
        typst_heading_from(source, 0)
    } else if f == "html"@ {
        html_heading(source)
    } else {
        None
    }
}

proof fn lemma_heading_literals()
    ensures
        "# "@.len() == 2,
        "# "@[0] == '#',
        "# "@[1] == ' ',
        "= "@.len() == 2,
        "= "@[0] == '=',
        "= "@[1] == ' ',
{
    reveal_strlit("# ");
    reveal_strlit("= ");
}

/// Whether `s[a..b]` starts with the two characters `c0 c1`.
fn two_char_prefix(s: &[char], a: usize, b: usize, c0: char, c1: char) -> (r: bool)
    requires
        a <= b <= s@.len(),
    ensures
        r == has_prefix(s@.subrange(a as int, b as int), seq![c0, c1]),
{
    let r = b - a >= 2 && s[a] == c0 && s[a + 1] == c1;
    proof {
        let t = s@.subrange(a as int, b as int);
        if b - a >= 2 {
            if r {
                assert(t.subrange(0, 2) =~= seq![c0, c1]);
            } else {
                assert(t.subrange(0, 2)[0] == s@[a as int]);
                assert(t.subrange(0, 2)[1] == s@[a + 1]);
            }
        }
    }
    r
}

fn md_heading_exec(s: &[char]) -> (r: Option<String>)
    ensures
        match md_heading_from(s@, 0) {
            Some(t) => r.is_some() && r.unwrap()@ == t,
            None => r.is_none(),
        },
{
    proof {
        lemma_heading_literals();
        assert("# "@ =~= seq!['#', ' ']);
    }
    let mut pos: usize = 0;
    while pos < s.len()
        invariant
            pos <= s@.len(),
            "# "@ == seq!['#', ' '],
            md_heading_from(s@, 0) == md_heading_from(s@, pos as int),
        decreases s@.len() - pos,
    {
        let e = line_end_exec(s, pos);
        proof {
            lemma_line_end(s@, pos as int);
        }
        let le = line_content_end(s, pos, e);
        let te = trim_end_idx(s, pos, le);
        if two_char_prefix(s, pos, te, '#', ' ') {
            let (a, b) = trim_bounds(s, pos + 2, te);
            proof {
                let t = s@.subrange(pos as int, te as int);
                assert(t.subrange(2, t.len() as int) =~= s@.subrange(pos + 2, te as int));
            }
            return Some(string_of_range(s, a, b));
        }
        if e >= s.len() {
            return None;
        }
        pos = e + 1;
    }
    None
}

fn typst_heading_exec(s: &[char]) -> (r: Option<String>)
    ensures
        match typst_heading_from(s@, 0) {
            Some(t) => r.is_some() && r.unwrap()@ == t,
            None => r.is_none(),
        },
{
    proof {
        lemma_heading_literals();
        assert("= "@ =~= seq!['=', ' ']);
    }
    let mut pos: usize = 0;
    while pos < s.len()
        invariant
            pos <= s@.len(),
            "= "@ == seq!['=', ' '],
            typst_heading_from(s@, 0) == typst_heading_from(s@, pos as int),
        decreases s@.len() - pos,
    {
        let e = line_end_exec(s, pos);
        proof {
            lemma_line_end(s@, pos as int);
        }
        let le = line_content_end(s, pos, e);
        let ts = trim_start_idx(s, pos, le);
        if two_char_prefix(s, ts, le, '=', ' ') {
            let (a, b) = trim_bounds(s, ts + 2, le);
            proof {
                let t = s@.subrange(ts as int, le as int);
                assert(t.subrange(2, t.len() as int) =~= s@.subrange(ts + 2, le as int));
            }
            return Some(string_of_range(s, a, b));
        }
        if e >= s.len() {
            return None;
        }
        pos = e + 1;
    }
    None
}

fn html_heading_exec(s: &[char]) -> (r: Option<String>)
    ensures
        match html_heading(s@) {
            Some(t) => r.is_some() && r.unwrap()@ == t,
            None => r.is_none(),
        },
{
    let open_tag = chars_of("<h1");
    let gt_mark = chars_of(">");
    let close_tag = chars_of("</h1>");
    proof {
        lemma_ci_find_from(s@, "<h1"@, 0);
        reveal_strlit(">");
        reveal_strlit("</h1>");
    }
    let start = match ci_find_from_exec(s, open_tag.as_slice(), 0) {
        Some(i) => i,
        None => return None,
    };
    proof {
        lemma_find_from(s@, ">"@, start as int);
    }
    assert(open_tag@ == "<h1"@);
    assert(s@.len() == s.len());
    assert(ci_find_from(s@, open_tag@, 0).is_some());
    assert(ci_find_from(s@, "<h1"@, 0).is_some());
    assert(ci_find_from(s@, "<h1"@, 0) == Some(start as int));
    let gt = match find_from_exec(s, gt_mark.as_slice(), start) {
        Some(i) => i,
        None => {
            assert(find_from(s@, ">"@, start as int).is_none());
            return None;
        },
    };
    assert(gt + 1 <= s@.len());
    proof {
        lemma_ci_find_from(s@, "</h1>"@, gt + 1);
    }
    let end = match ci_find_from_exec(s, close_tag.as_slice(), gt + 1) {
        Some(i) => i,
        None => return None,
    };
    proof {
        lemma_ci_find_from(s@, "</h1>"@, gt + 1);
    }
    let (a, b) = trim_bounds(s, gt + 1, end);
    if a == b {
        return None;
    }
    let inner = copy_range(s, a, b);
    Some(strip_html_tags(inner.as_slice()))
}

/// Extract a title from the first heading in a content file, based on format.
/// For markdown: skips YAML frontmatter, then finds the first `# ` line.
pub fn extract_first_heading(source: &str, format: &str) -> (r: Option<String>)
    ensures
        match first_heading(source@, format@) {
            Some(t) => r.is_some() && r.unwrap()@ == t,
            None => r.is_none(),
        },
{
    let fv = chars_of(format);
    let (fa, fb) = trim_bounds(fv.as_slice(), 0, fv.len());
    assert(fv@.subrange(0, fv@.len() as int) =~= fv@);
    let f = string_of_range(fv.as_slice(), fa, fb);
    if str_eq(f.as_str(), "markdown") || str_eq(f.as_str(), "md") {
        let (_, body) = split_frontmatter_text(source);
        let bv = chars_of(body.as_str());
        md_heading_exec(bv.as_slice())
    } else if str_eq(f.as_str(), "typst") || str_eq(f.as_str(), "typ") {
        let sv = chars_of(source);
        typst_heading_exec(sv.as_slice())
    } else if str_eq(f.as_str(), "html") {
        let sv = chars_of(source);
        html_heading_exec(sv.as_slice())
    } else {
        None
    }
}

// ── Framing, then splitting ─────────────────────────────────────────────

/// No line of `t` is a closing delimiter (nor would be with a newline
/// after `t`).
pub open spec fn no_closing_line(t: Seq<char>) -> bool {
    forall|j: int| 0 <= j < t.len() ==> !closes_at(t + "\n"@, j)
}

proof fn lemma_close_after_yaml(t: Seq<char>, body: Seq<char>, from: int)
    requires
        0 <= from <= t.len() + 1,
        no_closing_line(t),
    ensures
        close_from(t + "\n---\n"@ + body, from) == Some(t.len() + 1int),
    decreases t.len() + "\n---\n"@.len() + body.len() + 1 - from,
{
    let rest = t + "\n---\n"@ + body;
    let n: int = t.len() as int;
    reveal_strlit("\n---\n");
    reveal_strlit("\n");
    reveal_strlit("---");
    assert(rest[n] == '\n');
    assert(rest[n + 1] == '-' && rest[n + 2] == '-' && rest[n + 3] == '-' && rest[n + 4] == '\n');
    assert(rest.subrange(n + 1, n + 4) =~= "---"@);
    assert(occurs_at(rest, "---"@, n + 1));
    lemma_find_from(rest, "---"@, from);
    let f = find_from(rest, "---"@, from).unwrap();
    if f < n + 1 {
        assert(f + 3 <= n) by {
            if f + 3 > n {
                assert(rest.subrange(f, f + 3)[n - f] == rest[n]);
            }
        }
        let tn = t + "\n"@;
        assert forall|k: int| 0 <= k <= n implies tn[k] == rest[k] by {}
        assert(rest.subrange(f, f + 3) =~= tn.subrange(f, f + 3));
        assert(!closes_at(tn, f));
        assert(!closes_at(rest, f));
        lemma_close_after_yaml(t, body, f + 3);
    } else {
        assert(f == n + 1);
        assert(closes_at(rest, n + 1));
    }
}

/// Writing a frontmatter block and reading it back gives the YAML text
/// (right-trimmed) and the body, when the YAML is not empty, not `{}` and
/// holds no line that closes a frontmatter block.
pub proof fn lemma_frame_then_split(yaml: Seq<char>, body: Seq<char>)
    requires
        trim_end(yaml).len() > 0,
        trim_end(yaml) != "{}"@,
        no_closing_line(trim_end(yaml)),
    ensures
        frontmatter_split(framed_markdown(yaml, body)) == Some((trim_end(yaml), body)),
{
    let t = trim_end(yaml);
    let n: int = t.len() as int;
    reveal_strlit("---\n");
    reveal_strlit("\n---\n");
    reveal_strlit("---");
    let src = "---\n"@ + t + "\n---\n"@ + body;
    assert(framed_markdown(yaml, body) == src);
    assert(src.subrange(0, 3) =~= "---"@);
    assert(frontmatter_open(src) == Some(4int));
    let rest = src.subrange(4, src.len() as int);
    assert(rest =~= t + "\n---\n"@ + body);
    lemma_close_after_yaml(t, body, 0);
    assert(close_from(rest, 0) == Some(n + 1));
    assert(rest[n + 4] == '\n');
    assert(body_start(rest, n + 1) == n + 5);
    assert(rest.subrange(n + 5, rest.len() as int) =~= body);
    lemma_ws_trail_bound(yaml);
    assert(yaml.subrange(0, yaml.len() - ws_trail(yaml))[n - 1] == yaml[yaml.len() - ws_trail(yaml) - 1]);
    assert(!is_ws(t[n - 1]));
    assert(rest.subrange(0, n + 1) =~= t.push('\n'));
    assert(t.push('\n').drop_last() =~= t);
    assert(strip_trailing_newlines(t) == t) by {
        reveal_strlit("\n");
        assert(t.last() != '\n' && t.last() != '\r');
    }
    assert(strip_trailing_newlines(rest.subrange(0, n + 1)) == t);
}

// ── Which heading gives the title ───────────────────────────────────────

proof fn lemma_line_end_shift(p: Seq<char>, r: Seq<char>, k: int)
    requires
        0 <= k <= r.len(),
    ensures
        line_end(p + r, p.len() + k) == p.len() + line_end(r, k),
    decreases r.len() - k,
{
    let s = p + r;
    if k < r.len() {
        assert(s[p.len() + k] == r[k]);
        if r[k] != '\n' {
            lemma_line_end_shift(p, r, k + 1);
        }
    }
}

/// The titles found from a position on do not depend on the text before
/// it.
proof fn lemma_md_heading_shift(p: Seq<char>, r: Seq<char>, k: int)
    requires
        0 <= k,
    ensures
        md_heading_from(p + r, p.len() + k) == md_heading_from(r, k),
    decreases r.len() - k,
{
    let s = p + r;
    let pos = p.len() + k;
    if k < r.len() {
        lemma_line_end_shift(p, r, k);
        lemma_line_end(r, k);
        let e = line_end(r, k);
        let es = p.len() + e;
        assert(line_end(s, pos) == es);
        if e > k && e < r.len() {
            assert(s[es - 1] == r[e - 1]);
        }
        assert(s.subrange(pos, es) =~= r.subrange(k, e));
        if e > k {
            assert(s.subrange(pos, es - 1) =~= r.subrange(k, e - 1));
        }
        assert(line_at(s, pos, es) == line_at(r, k, e));
        if e < r.len() {
            lemma_md_heading_shift(p, r, e + 1);
        }
    }
}

/// Trailing whitespace is trimmed the same with a line break's `\r` or
/// without it.
proof fn lemma_trim_end_cr(t: Seq<char>)
    requires
        t.len() > 0,
        t.last() == '\r',
    ensures
        trim_end(t) == trim_end(t.drop_last()),
{
    assert(('\r' as u32) == 13u32);
    assert(is_ws('\r'));
    assert(ws_trail(t) == 1 + ws_trail(t.drop_last()));
    lemma_ws_trail_bound(t.drop_last());
    assert(t.subrange(0, t.len() - ws_trail(t)) =~= t.drop_last().subrange(
        0,
        t.drop_last().len() - ws_trail(t.drop_last()),
    ));
}

/// A markdown text's title comes from its first line when that line is a
/// `# ` heading, whatever follows; otherwise it is the title of the lines
/// after it. So a heading further down never displaces an earlier one.
pub proof fn lemma_md_heading_first_line(t: Seq<char>, r: Seq<char>)
    requires
        forall|i: int| 0 <= i < t.len() ==> t[i] != '\n',
    ensures
        md_heading_from(t + "\n"@ + r, 0) == match md_heading_from(t, 0) {
            Some(x) => Some(x),
            None => md_heading_from(r, 0),
        },
{
    reveal_strlit("\n");
    let s = t + "\n"@ + r;
    let p = t + "\n"@;
    assert(s =~= p + r);
    assert(s[t.len() as int] == '\n');
    assert forall|i: int| 0 <= i < t.len() implies s[i] != '\n' by {
        assert(s[i] == t[i]);
    }
    lemma_line_end(s, 0);
    assert(line_end(s, 0) == t.len()) by {
        if line_end(s, 0) < t.len() {
            assert(s[line_end(s, 0)] == '\n');
        }
    }
    lemma_md_heading_shift(p, r, 0);
    assert(md_heading_from(s, (t.len() + 1) as int) == md_heading_from(r, 0));
    if t.len() > 0 {
        lemma_line_end(t, 0);
        assert(line_end(t, 0) == t.len()) by {
            if line_end(t, 0) < t.len() {
                assert(t[line_end(t, 0)] == '\n');
            }
        }
        assert(line_at(t, 0, t.len() as int) == t.subrange(0, t.len() as int));
        assert(t.subrange(0, t.len() as int) =~= t);
        if t.last() == '\r' {
            assert(s[t.len() - 1] == '\r');
            assert(line_at(s, 0, t.len() as int) == s.subrange(0, t.len() - 1));
            assert(s.subrange(0, t.len() - 1) =~= t.drop_last());
            lemma_trim_end_cr(t);
        } else {
            assert(s[t.len() - 1] == t.last());
            assert(line_at(s, 0, t.len() as int) =~= t);
        }
    } else {
        assert(line_at(s, 0, 0) =~= Seq::<char>::empty());
        assert(strip_prefix(trim_end(Seq::<char>::empty()), "# "@).is_none()) by {
            lemma_heading_literals();
        }
    }
}

proof fn lemma_ws_trail_prefix(q: Seq<char>, x: Seq<char>)
    requires
        ws_trail(x) < x.len(),
    ensures
        ws_trail(q + x) == ws_trail(x),
    decreases x.len(),
{
    let s = q + x;
    assert(s.last() == x.last());
    if is_ws(x.last()) {
        assert(s.drop_last() =~= q + x.drop_last());
        lemma_ws_trail_prefix(q, x.drop_last());
    }
}

/// A line `# ` + `x` (no line break in `x`, some non-blank character)
/// is a heading whose title is `x` trimmed, whatever lines follow.
pub proof fn lemma_md_heading_title(x: Seq<char>, r: Seq<char>)
    requires
        forall|i: int| 0 <= i < x.len() ==> x[i] != '\n',
        exists|i: int| 0 <= i < x.len() && !is_ws(#[trigger] x[i]),
    ensures
        md_heading_from("# "@ + x, 0) == Some(trim(x)),
        md_heading_from("# "@ + x + "\n"@ + r, 0) == Some(trim(x)),
{
    lemma_heading_literals();
    let t = "# "@ + x;
    assert forall|i: int| 0 <= i < t.len() implies t[i] != '\n' by {
        if i >= 2 {
            assert(t[i] == x[i - 2]);
        }
    }
    lemma_ws_trail_bound(x);
    let w = choose|i: int| 0 <= i < x.len() && !is_ws(#[trigger] x[i]);
    if ws_trail(x) == x.len() {
        assert(is_ws(x[w]));
    }
    lemma_ws_trail_prefix("# "@, x);
    let te = x.subrange(0, x.len() - ws_trail(x));
    assert(trim_end(t) =~= "# "@ + te);
    assert(("# "@ + te).subrange(0, 2) =~= "# "@);
    assert(("# "@ + te).subrange(2, ("# "@ + te).len() as int) =~= te);
    assert(strip_prefix(trim_end(t), "# "@) == Some(te));
    assert(ws_trail(te) == 0) by {
        assert(te.len() > 0);
        assert(te.last() == x[x.len() - ws_trail(x) - 1]);
    }
    assert(trim_end(te) =~= te);
    lemma_line_end(t, 0);
    assert(line_end(t, 0) == t.len()) by {
        if line_end(t, 0) < t.len() {
            assert(t[line_end(t, 0)] == '\n');
        }
    }
    assert(t.subrange(0, t.len() as int) =~= t);
    assert(md_heading_from(t, 0) == Some(trim(x)));
    lemma_md_heading_first_line(t, r);
}

/// The typst titles found from a position on do not depend on the text
/// before it.
proof fn lemma_typst_heading_shift(p: Seq<char>, r: Seq<char>, k: int)
    requires
        0 <= k,
    ensures
        typst_heading_from(p + r, p.len() + k) == typst_heading_from(r, k),
    decreases r.len() - k,
{
    let s = p + r;
    let pos = p.len() + k;
    if k < r.len() {
        lemma_line_end_shift(p, r, k);
        lemma_line_end(r, k);
        let e = line_end(r, k);
        let es = p.len() + e;
        if e > k && e < r.len() {
            assert(s[es - 1] == r[e - 1]);
        }
        assert(s.subrange(pos, es) =~= r.subrange(k, e));
        if e > k {
            assert(s.subrange(pos, es - 1) =~= r.subrange(k, e - 1));
        }
        assert(line_at(s, pos, es) == line_at(r, k, e));
        if e < r.len() {
            lemma_typst_heading_shift(p, r, e + 1);
        }
    }
}

proof fn lemma_ws_lead_push(u: Seq<char>, c: char)
    requires
        ws_lead(u) < u.len(),
    ensures
        ws_lead(u.push(c)) == ws_lead(u),
    decreases u.len(),
{
    let t = u.push(c);
    assert(t[0] == u[0]);
    if is_ws(u[0]) {
        assert(t.drop_first() =~= u.drop_first().push(c));
        lemma_ws_lead_push(u.drop_first(), c);
    }
}

/// A typst line read with its line break's `\r` has the same title as
/// without it.
proof fn lemma_typst_line_cr(t: Seq<char>)
    requires
        t.len() > 0,
        t.last() == '\r',
    ensures
        (match strip_prefix(trim_start(t), "= "@) {
            Some(rest) => Some(trim(rest)),
            None => None,
        }) == (match strip_prefix(trim_start(t.drop_last()), "= "@) {
            Some(rest) => Some(trim(rest)),
            None => None::<Seq<char>>,
        }),
{
    lemma_heading_literals();
    let u = t.drop_last();
    assert(('\r' as u32) == 13u32);
    assert(is_ws('\r'));
    assert(t =~= u.push('\r'));
    lemma_ws_lead_bound(u);
    lemma_ws_lead_bound(t);
    if ws_lead(u) < u.len() {
        lemma_ws_lead_push(u, '\r');
        let y = trim_start(u);
        assert(trim_start(t) =~= y.push('\r'));
        if y.len() >= 2 && y.subrange(0, 2) == "= "@ {
            assert(y.push('\r').subrange(0, 2) =~= y.subrange(0, 2));
            let rest = y.subrange(2, y.len() as int);
            assert(y.push('\r').subrange(2, (y.len() + 1) as int) =~= rest.push('\r'));
            assert(rest.push('\r').drop_last() =~= rest);
            lemma_trim_end_cr(rest.push('\r'));
        } else {
            if y.len() >= 2 {
                assert(y.push('\r').subrange(0, 2) =~= y.subrange(0, 2));
            } else if y.len() == 1 {
                assert(y.push('\r')[1] == '\r');
                if y.push('\r').subrange(0, 2) == "= "@ {
                    assert(y.push('\r').subrange(0, 2)[1] == "= "@[1]);
                }
            }
        }
    } else {
        assert forall|j: int| 0 <= j < t.len() implies is_ws(t[j]) by {
            if j < u.len() {
                assert(t[j] == u[j]);
            }
        }
        if ws_lead(t) < t.len() {
            assert(is_ws(t[ws_lead(t) as int]));
        }
        assert(trim_start(t).len() == 0);
        assert(trim_start(u).len() == 0);
    }
}

/// A typst text's title comes from its first line when that line is a
/// `= ` heading, whatever follows; otherwise it is the title of the lines
/// after it. So a heading further down never displaces an earlier one.
pub proof fn lemma_typst_heading_first_line(t: Seq<char>, r: Seq<char>)
    requires
        forall|i: int| 0 <= i < t.len() ==> t[i] != '\n',
    ensures
        typst_heading_from(t + "\n"@ + r, 0) == match typst_heading_from(t, 0) {
            Some(x) => Some(x),
            None => typst_heading_from(r, 0),
        },
{
    reveal_strlit("\n");
    let s = t + "\n"@ + r;
    let p = t + "\n"@;
    assert(s =~= p + r);
    assert(s[t.len() as int] == '\n');
    assert forall|i: int| 0 <= i < t.len() implies s[i] != '\n' by {
        assert(s[i] == t[i]);
    }
    lemma_line_end(s, 0);
    assert(line_end(s, 0) == t.len()) by {
        if line_end(s, 0) < t.len() {
            assert(s[line_end(s, 0)] == '\n');
        }
    }
    lemma_typst_heading_shift(p, r, 0);
    assert(typst_heading_from(s, (t.len() + 1) as int) == typst_heading_from(r, 0));
    if t.len() > 0 {
        lemma_line_end(t, 0);
        assert(line_end(t, 0) == t.len()) by {
            if line_end(t, 0) < t.len() {
                assert(t[line_end(t, 0)] == '\n');
            }
        }
        assert(t.subrange(0, t.len() as int) =~= t);
        if t.last() == '\r' {
            assert(s[t.len() - 1] == '\r');
            assert(line_at(s, 0, t.len() as int) == s.subrange(0, t.len() - 1));
            assert(s.subrange(0, t.len() - 1) =~= t.drop_last());
            lemma_typst_line_cr(t);
        } else {
            assert(s[t.len() - 1] == t.last());
            assert(line_at(s, 0, t.len() as int) =~= t);
        }
    } else {
        assert(line_at(s, 0, 0) =~= Seq::<char>::empty());
        lemma_heading_literals();
    }
}

} // verus!
