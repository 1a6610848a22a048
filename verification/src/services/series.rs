//! Series: synthetic chapter URIs and the records of series listings.

use vstd::prelude::*;
use vstd::string::StringSliceAdditionalSpecFns;
use vstd::utf8::{decode_utf8, encode_utf8, valid_utf8};

use crate::text::{chars_of, copy_range, find, find_from_exec, lemma_find_from, starts_with,
    string_of_range, strip_prefix};

verus! {

#[derive(Debug, Clone)]
pub struct SeriesArticleRow {
    pub series_id: String,
    pub article_uri: String,
    pub title: String,
    pub summary: String,
    pub lang: String,
    pub order_index: i32,
    pub heading_title: Option<String>,
    pub heading_anchor: Option<String>,
}

#[derive(Debug, Clone)]
pub struct SeriesPrereqRow {
    pub article_uri: String,
    pub prereq_article_uri: String,
}

#[derive(Debug, Clone)]
pub struct SeriesArticleMemberRow {
    pub series_id: String,
    pub article_uri: String,
}

/// Where an article stands in one series: its neighbours along the
/// prerequisite links.
#[derive(Debug, Clone)]
pub struct SeriesContextItem {
    pub series_id: String,
    pub series_title: String,
    pub total: i64,
    pub prev: Vec<SeriesNavItem>,
    pub next: Vec<SeriesNavItem>,
}

#[derive(Debug, Clone)]
pub struct SeriesNavItem {
    pub article_uri: String,
    pub title: String,
}

#[derive(Debug, Clone)]
pub struct SeriesHeadingRow {
    pub id: i32,
    pub series_id: String,
    pub level: i32,
    pub title: String,
    pub anchor: String,
    pub article_uri: Option<String>,
    pub parent_heading_id: Option<i32>,
    pub order_index: i32,
}

/// Info about a chapter in a series, used for virtual-document rendering.
#[derive(Debug, Clone)]
pub struct SeriesChapterInfo {
    pub source_path: String,
    pub file_path: String,
    pub content_format: String,
    pub order_index: i32,
    pub heading_anchor: Option<String>,
}

/// Value of an ASCII hexadecimal digit byte.
pub open spec fn hex_value(b: u8) -> Option<int> {
    if 48 <= b <= 57 {
        Some(b - 48)
    } else if 97 <= b <= 102 {
        Some(b - 87)
    } else if 65 <= b <= 70 {
        Some(b - 55)
    } else {
        None
    }
}

/// Percent-decoding of bytes from position `i` on: `%` followed by two hex
/// digits becomes the byte they denote; every other byte stays.
pub open spec fn percent_decode_from(bs: Seq<u8>, i: int) -> Seq<u8>
    decreases bs.len() - i,
{
    if i < 0 || i >= bs.len() {
        Seq::empty()
    } else if bs[i] == 37 && i + 2 < bs.len() && hex_value(bs[i + 1]).is_some() && hex_value(
        bs[i + 2],
    ).is_some() {
        seq![(hex_value(bs[i + 1]).unwrap() * 16 + hex_value(bs[i + 2]).unwrap()) as u8]
            + percent_decode_from(bs, i + 3)
    } else {
        seq![bs[i]] + percent_decode_from(bs, i + 1)
    }
}

/// The characters `String::from_utf8_lossy` makes of a byte string.
pub uninterp spec fn utf8_lossy(bytes: Seq<u8>) -> Seq<char>;

/// `String::from_utf8_lossy`: the bytes decoded as UTF-8, each invalid
/// sequence replaced by U+FFFD. For valid UTF-8 this is the plain decoding,
/// as the function's documentation states.
#[verifier::external_body]
fn from_utf8_lossy(bytes: &[u8]) -> (r: String)
    ensures
        r@ == utf8_lossy(bytes@),
        valid_utf8(bytes@) ==> r@ == decode_utf8(bytes@),
{
    String::from_utf8_lossy(bytes).into_owned()
}

fn hex_value_exec(b: u8) -> (r: Option<u8>)
    ensures
        match hex_value(b) {
            Some(v) => r == Some(v as u8),
            None => r.is_none(),
        },
{
    if 48 <= b && b <= 57 {
        Some(b - 48)
    } else if 97 <= b && b <= 102 {
        Some(b - 87)
    } else if 65 <= b && b <= 70 {
        Some(b - 55)
    } else {
        None
    }
}

/// The percent-decoded text of a URI component.
pub open spec fn decoded_component(s: Seq<char>) -> Seq<char> {
    utf8_lossy(percent_decode_from(encode_utf8(s), 0))
}

/// Minimal percent-decode for the path segment of a synthetic chapter
/// URI. Invalid UTF-8 after decoding is replaced lossily.
pub fn decode_uri_component(s: &str) -> (r: String)
    ensures
        r@ == decoded_component(s@),
{
    let bytes = s.as_bytes();
    let ghost bs = bytes@;
    let mut out: Vec<u8> = Vec::new();
    let mut i: usize = 0;
    while i < bytes.len()
        invariant
            bs == bytes@,
            i <= bs.len(),
            out@ + percent_decode_from(bs, i as int) == percent_decode_from(bs, 0),
        decreases bs.len() - i,
    {
        if bytes[i] == 37 && bytes.len() - i > 2 {
            let hi = hex_value_exec(bytes[i + 1]);
            let lo = hex_value_exec(bytes[i + 2]);
            if let (Some(h), Some(l)) = (hi, lo) {
                let ghost before = out@;
                out.push(h * 16 + l);
                assert(before + percent_decode_from(bs, i as int) =~= out@ + percent_decode_from(
                    bs,
                    i + 3,
                ));
                i = i + 3;
                continue;
            }
        }
        let ghost before = out@;
        out.push(bytes[i]);
        assert(before + percent_decode_from(bs, i as int) =~= out@ + percent_decode_from(
            bs,
            i + 1,
        ));
        i = i + 1;
    }
    assert(out@ =~= percent_decode_from(bs, 0));
    from_utf8_lossy(out.as_slice())
}

/// `(series_id, source_path)` of `nightboat-chapter://{series_id}/{encoded}`.
pub open spec fn chapter_uri_parts(uri: Seq<char>) -> Option<(Seq<char>, Seq<char>)> {
    match strip_prefix(uri, "nightboat-chapter://"@) {
        None => None,
        Some(rest) => match find(rest, "/"@) {
            None => None,
            Some(i) => Some(
                (rest.subrange(0, i), decoded_component(rest.subrange(i + 1, rest.len() as int))),
            ),
        },
    }
}

/// Parse a synthetic chapter URI —
/// `nightboat-chapter://{series_id}/{source_path_urlencoded}` — used to
/// address series chapters that carry no per-chapter at_uri.
pub fn parse_chapter_uri(uri: &str) -> (r: Option<(String, String)>)
    ensures
        match chapter_uri_parts(uri@) {
            Some(parts) => r.is_some() && r.unwrap().0@ == parts.0 && r.unwrap().1@ == parts.1,
            None => r.is_none(),
        },
{
    let v = chars_of(uri);
    let scheme = chars_of("nightboat-chapter://");
    let slash = chars_of("/");
    proof {
        reveal_strlit("nightboat-chapter://");
        reveal_strlit("/");
    }
    if !starts_with(v.as_slice(), scheme.as_slice()) {
        return None;
    }
    let rest = copy_range(v.as_slice(), 20, v.len());
    let i = match find_from_exec(rest.as_slice(), slash.as_slice(), 0) {
        Some(i) => i,
        None => return None,
    };
    proof {
        lemma_find_from(rest@, "/"@, 0);
    }
    let encoded = string_of_range(rest.as_slice(), i + 1, rest.len());
    Some((string_of_range(rest.as_slice(), 0, i), decode_uri_component(encoded.as_str())))
}

/// How an article URI given to the series-context lookup is resolved.
#[derive(Debug, Clone, PartialEq, Eq)]
pub enum ContextRef {
    /// A series chapter: its series id and decoded source path.
    Chapter { series_id: String, source_path: String },
    /// A localization's own at_uri, to be looked up as such.
    Localization,
    /// A chapter URI without a path: nothing to show.
    Unresolvable,
}

/// Resolve the article URI of a series-context request.
pub fn context_ref(article_uri: &str) -> (r: ContextRef)
    ensures
        !crate::text::has_prefix(article_uri@, "nightboat-chapter://"@) ==> r
            == ContextRef::Localization,
        crate::text::has_prefix(article_uri@, "nightboat-chapter://"@) ==> match chapter_uri_parts(
            article_uri@,
        ) {
            Some(parts) => r matches ContextRef::Chapter { series_id, source_path } && series_id@
                == parts.0 && source_path@ == parts.1,
            None => r == ContextRef::Unresolvable,
        },
{
    let v = chars_of(article_uri);
    let scheme = chars_of("nightboat-chapter://");
    if !starts_with(v.as_slice(), scheme.as_slice()) {
        return ContextRef::Localization;
    }
    match parse_chapter_uri(article_uri) {
        Some((series_id, source_path)) => ContextRef::Chapter { series_id, source_path },
        None => ContextRef::Unresolvable,
    }
}

} // verus!
