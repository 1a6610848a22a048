//! Book series: their creation and edit requests, and short time-based ids.

use std::collections::HashMap;

use vstd::prelude::*;

use crate::text::{concat2, hex_digit, hex_digit_exec, push_char, string_of_range, chars_of};

verus! {

#[derive(Debug, Clone)]
pub struct CreateBookSeries {
    pub id: String,
    pub title: HashMap<String, String>,
    pub subtitle: Option<HashMap<String, String>>,
    pub description: Option<HashMap<String, String>>,
    pub cover_url: Option<String>,
}

#[derive(Debug, Clone)]
pub struct UpdateBookSeries {
    pub title: Option<HashMap<String, String>>,
    pub subtitle: Option<HashMap<String, String>>,
    pub description: Option<HashMap<String, String>>,
    pub cover_url: Option<String>,
    pub summary: Option<String>,
}

/// Nanoseconds since the Unix epoch (`SystemTime::now()` against
/// `UNIX_EPOCH`, as `Duration::as_nanos`). Nothing is claimed of the
/// value, which depends on the machine's clock; a clock before the epoch
/// reads as zero.
#[verifier::external_body]
fn unix_nanos() -> u128 {
    match std::time::SystemTime::now().duration_since(std::time::UNIX_EPOCH) {
        Ok(d) => d.as_nanos(),
        Err(_) => 0,
    }
}

/// Lowercase hexadecimal digits of a number, without leading zeros
/// (`format!("{n:x}")`).
pub open spec fn hex_text(n: nat) -> Seq<char>
    decreases n,
{
    if n < 16 {
        seq![hex_digit(n as int)]
    } else {
        hex_text(n / 16).push(hex_digit((n % 16) as int))
    }
}

/// `format!("{n:x}")`.
pub fn hex_of(n: u128) -> (r: String)
    ensures
        r@ == hex_text(n as nat),
    decreases n,
{
    let d = (n % 16) as u8;
    let c = hex_digit_exec(d);
    if n < 16 {
        let mut s = String::new();
        push_char(&mut s, c);
        assert(s@ =~= seq![c]);
        s
    } else {
        let mut s = hex_of(n / 16);
        push_char(&mut s, c);
        s
    }
}

/// The last `len` characters of `s` (all of it when shorter).
pub open spec fn tail_chars(s: Seq<char>, len: nat) -> Seq<char> {
    if len < s.len() {
        s.subrange(s.len() - len, s.len() as int)
    } else {
        s
    }
}

/// The last `len` hex digits of `n`.
pub fn hex_suffix(n: u128, len: usize) -> (r: String)
    ensures
        r@ == tail_chars(hex_text(n as nat), len as nat),
{
    let s = hex_of(n);
    let v = chars_of(s.as_str());
    let end = if len < v.len() {
        len
    } else {
        v.len()
    };
    let r = string_of_range(v.as_slice(), v.len() - end, v.len());
    assert(v@.subrange(0, v@.len() as int) =~= v@);
    r
}

/// A short id: the last `len` hex digits of the current time in
/// nanoseconds.
pub fn hex_short_id(len: usize) -> (r: String)
    ensures
        exists|t: u128| r@ == tail_chars(hex_text(t as nat), len as nat),
{
    let t = unix_nanos();
    hex_suffix(t, len)
}


/// The fields an edit of a book series sets, in column order: each one
/// the request gives.
pub open spec fn edited_series_fields(input: UpdateBookSeries) -> Seq<Seq<char>> {
    (if input.title.is_some() { seq!["title"@] } else { seq![] }) + (if input.subtitle.is_some() {
        seq!["subtitle"@]
    } else {
        seq![]
    }) + (if input.description.is_some() {
        seq!["description"@]
    } else {
        seq![]
    }) + (if input.cover_url.is_some() {
        seq!["cover_url"@]
    } else {
        seq![]
    })
}

/// The fields an edit sets; an edit that sets none leaves no log entry.
pub fn series_edit_fields(input: &UpdateBookSeries) -> (r: Vec<&'static str>)
    ensures
        r@.map_values(|f: &'static str| f@) == edited_series_fields(*input),
{
    let mut r: Vec<&'static str> = Vec::new();
    if input.title.is_some() {
        r.push("title");
    }
    if input.subtitle.is_some() {
        r.push("subtitle");
    }
    if input.description.is_some() {
        r.push("description");
    }
    if input.cover_url.is_some() {
        r.push("cover_url");
    }
    assert(r@.map_values(|f: &'static str| f@) =~= edited_series_fields(*input));
    r
}

/// The id of a book-series edit-log entry: `bse-` and twelve hex digits of
/// the time.
pub fn series_edit_id() -> (r: String)
    ensures
        exists|t: u128| r@ == "bse-"@ + tail_chars(hex_text(t as nat), 12),
{
    let short = hex_short_id(12);
    concat2("bse-", short.as_str())
}
} // verus!
