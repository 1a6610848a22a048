//! Shared utilities: time-sortable identifiers, content hashing, session
//! tokens and string manipulation of AT Protocol URIs.

use vstd::prelude::*;
use vstd::arithmetic::power::pow;
use vstd::string::StringSliceAdditionalSpecFns;

use crate::text::{key_lt, chars_of, find, find_from, find_from_exec, lemma_find_from, hex_encode, hex_lower,
    occurs_at, push_char, string_of, string_of_range, strip_prefix, starts_with};

verus! {

// ── Time-sortable identifiers ───────────────────────────────────────────

/// Base-32 digit of a TID: `2`–`7` for 0–5, then `a`–`z` for 6–31.
pub open spec fn tid_digit(d: int) -> char {
    if d < 6 {
        ((50 + d) as u8) as char
    } else {
        ((91 + d) as u8) as char
    }
}

/// The 13-character TID of a value: its base-32 digits, most significant
/// first.
pub open spec fn tid_chars(v: u64) -> Seq<char> {
    Seq::new(13, |i: int| tid_digit((v as int / pow(32, (12 - i) as nat)) % 32))
}

fn tid_digit_exec(d: u64) -> (c: char)
    requires
        d < 32,
    ensures
        c == tid_digit(d as int),
{
    if d < 6 {
        (50 + d as u8) as char
    } else {
        (91 + d as u8) as char
    }
}

proof fn lemma_pow32_step(k: nat)
    ensures
        pow(32, k + 1) == 32 * pow(32, k),
        pow(32, k) > 0,
{
    vstd::arithmetic::power::lemma_pow_positive(32, k);
    reveal(pow);
}

/// Encode a value as a 13-character base-32 TID.
pub fn encode_tid(v: u64) -> (r: String)
    ensures
        r@ == tid_chars(v),
{
    let mut out: Vec<char> = vec!['2'; 13];
    let mut cur: u64 = v;
    let mut k: usize = 0;
    proof {
        vstd::arithmetic::power::lemma_pow0(32);
    }
    while k < 13
        invariant
            k <= 13,
            out@.len() == 13,
            cur as int == v as int / pow(32, k as nat),
            forall|j: int|
                13 - k <= j < 13 ==> #[trigger] out@[j] == tid_digit(
                    (v as int / pow(32, (12 - j) as nat)) % 32,
                ),
        decreases 13 - k,
    {
        let d = cur % 32;
        out.set(12 - k, tid_digit_exec(d));
        proof {
            lemma_pow32_step(k as nat);
            vstd::arithmetic::div_mod::lemma_div_denominator(v as int, pow(32, k as nat), 32);
            assert(pow(32, k as nat) * 32 == pow(32, (k + 1) as nat)) by (nonlinear_arith)
                requires
                    pow(32, (k + 1) as nat) == 32 * pow(32, k as nat),
            ;
        }
        cur = cur / 32;
        k = k + 1;
    }
    string_of(out.as_slice())
}

/// The next TID value: the clock reading when it moved past the last value
/// handed out, else one more than that value (never wrapping).
pub open spec fn next_tid_value(prev: u64, micros: u64) -> u64 {
    if micros > prev {
        micros
    } else if prev < u64::MAX {
        (prev + 1) as u64
    } else {
        prev
    }
}

/// Reads the wall clock: microseconds since the UNIX epoch
/// (`SystemTime::now()` against `UNIX_EPOCH`, `Duration::as_micros`); a
/// clock set before the epoch reads as zero. Nothing is claimed of the
/// value, which depends on the machine's clock.
#[verifier::external_body]
fn unix_micros() -> i64 {
    match std::time::SystemTime::now().duration_since(std::time::UNIX_EPOCH) {
        Ok(d) => d.as_micros() as i64,
        Err(_) => 0,
    }
}

/// Generator of time-sortable identifiers (AT Protocol TIDs): 13 base-32
/// characters of a microsecond timestamp, made strictly increasing across
/// the identifiers one generator hands out.
#[derive(Debug)]
pub struct TidClock {
    last: u64,
}

impl TidClock {
    /// The last value handed out.
    pub closed spec fn last(self) -> u64 {
        self.last
    }

    pub fn new() -> (c: TidClock)
        ensures
            c.last() == 0,
    {
        TidClock { last: 0 }
    }

    /// Advance with a clock reading and return the new value.
    pub fn advance(&mut self, micros: u64) -> (v: u64)
        ensures
            v == next_tid_value(old(self).last(), micros),
            final(self).last() == v,
    {
        let next = if micros > self.last {
            micros
        } else if self.last < u64::MAX {
            self.last + 1
        } else {
            self.last
        };
        self.last = next;
        next
    }

    /// Generate the next TID from the current time.
    pub fn tid(&mut self) -> (r: String)
        ensures
            exists|micros: u64| final(self).last() == next_tid_value(old(self).last(), micros),
            r@ == tid_chars(final(self).last()),
    {
        let now = unix_micros();
        let micros: u64 = if now < 0 {
            0
        } else {
            now as u64
        };
        let v = self.advance(micros);
        encode_tid(v)
    }
}

/// Each identifier handed out is greater than the one before (until the
/// counter reaches the largest value, where it stays).
pub proof fn lemma_tid_strictly_increasing(prev: u64, micros: u64)
    requires
        prev < u64::MAX,
    ensures
        next_tid_value(prev, micros) > prev,
{
}

/// The number formed by the first `i + 1` base-32 digits of a TID value.
pub open spec fn tid_prefix(v: u64, i: int) -> int {
    (v as int) / pow(32, (12 - i) as nat)
}

proof fn lemma_pow32_12()
    ensures
        pow(32, 12) == 0x1000_0000_0000_0000int,
{
    reveal_with_fuel(pow, 13);
    assert(pow(32, 12) == 0x1000_0000_0000_0000int);
}

proof fn lemma_tid_prefix_step(v: u64, i: int)
    requires
        1 <= i <= 12,
    ensures
        tid_prefix(v, i) == 32 * tid_prefix(v, i - 1) + tid_prefix(v, i) % 32,
        tid_prefix(v, i - 1) == tid_prefix(v, i) / 32,
{
    let k = (12 - i) as nat;
    lemma_pow32_step(k);
    assert((12 - (i - 1)) as nat == k + 1);
    vstd::arithmetic::div_mod::lemma_div_denominator(v as int, pow(32, k), 32);
    assert(pow(32, k) * 32 == pow(32, k + 1)) by (nonlinear_arith)
        requires
            pow(32, k + 1) == 32 * pow(32, k),
    ;
    vstd::arithmetic::div_mod::lemma_fundamental_div_mod(tid_prefix(v, i), 32);
}

proof fn lemma_tid_prefix_first(v: u64)
    ensures
        tid_prefix(v, 0) < 32,
        tid_prefix(v, 0) % 32 == tid_prefix(v, 0),
        tid_prefix(v, 12) == v as int,
{
    lemma_pow32_12();
    assert((v as int) / 0x1000_0000_0000_0000int < 32) by (nonlinear_arith)
        requires
            0 <= v < 0x1_0000_0000_0000_0000int,
    ;
    reveal(pow);
    assert(pow(32, 0) == 1);
}

/// Digits that agree up to `k` give the same prefix number.
proof fn lemma_tid_prefix_agree(a: u64, b: u64, k: int)
    requires
        1 <= k <= 13,
        forall|i: int| 0 <= i < k ==> tid_prefix(a, i) % 32 == tid_prefix(b, i) % 32,
    ensures
        tid_prefix(a, k - 1) == tid_prefix(b, k - 1),
    decreases k,
{
    if k == 1 {
        lemma_tid_prefix_first(a);
        lemma_tid_prefix_first(b);
    } else {
        lemma_tid_prefix_agree(a, b, k - 1);
        lemma_tid_prefix_step(a, k - 1);
        lemma_tid_prefix_step(b, k - 1);
    }
}

/// The first digit position at or after `i` where two TID values differ
/// (13 when none does).
pub open spec fn tid_first_diff(a: u64, b: u64, i: int) -> int
    decreases 13 - i,
{
    if i >= 13 || i < 0 {
        13
    } else if tid_prefix(a, i) % 32 != tid_prefix(b, i) % 32 {
        i
    } else {
        tid_first_diff(a, b, i + 1)
    }
}

proof fn lemma_tid_first_diff(a: u64, b: u64, i: int)
    requires
        0 <= i <= 13,
    ensures
        i <= tid_first_diff(a, b, i) <= 13,
        forall|j: int| i <= j < tid_first_diff(a, b, i) ==> tid_prefix(a, j) % 32 == tid_prefix(b, j) % 32,
        tid_first_diff(a, b, i) < 13 ==> tid_prefix(a, tid_first_diff(a, b, i)) % 32 != tid_prefix(
            b,
            tid_first_diff(a, b, i),
        ) % 32,
    decreases 13 - i,
{
    if i < 13 && tid_prefix(a, i) % 32 == tid_prefix(b, i) % 32 {
        lemma_tid_first_diff(a, b, i + 1);
    }
}

proof fn lemma_tid_digit_order(x: int, y: int)
    requires
        0 <= x < y < 32,
    ensures
        tid_digit(x) < tid_digit(y),
{
}

/// Lexicographic order from the first differing position.
proof fn lemma_key_lt_at(s1: Seq<char>, s2: Seq<char>, k: int)
    requires
        s1.len() == s2.len(),
        0 <= k < s1.len(),
        forall|i: int| 0 <= i < k ==> s1[i] == s2[i],
        s1[k] < s2[k],
    ensures
        key_lt(s1, s2),
    decreases k,
{
    if k > 0 {
        assert forall|i: int| 0 <= i < k - 1 implies s1.drop_first()[i] == s2.drop_first()[i] by {
            assert(s1[i + 1] == s2[i + 1]);
        }
        lemma_key_lt_at(s1.drop_first(), s2.drop_first(), k - 1);
        assert(s1[0] == s2[0]);
    }
}

/// TIDs sort as their values do: a smaller value gives a TID that comes
/// first in string order.
pub proof fn lemma_tid_order(a: u64, b: u64)
    requires
        a < b,
    ensures
        key_lt(tid_chars(a), tid_chars(b)),
{
    lemma_tid_first_diff(a, b, 0);
    let k = tid_first_diff(a, b, 0);
    if k == 13 {
        lemma_tid_prefix_agree(a, b, 13);
        lemma_tid_prefix_first(a);
        lemma_tid_prefix_first(b);
    } else {
        vstd::arithmetic::power::lemma_pow_positive(32, (12 - k) as nat);
        vstd::arithmetic::div_mod::lemma_div_is_ordered(a as int, b as int, pow(32, (12 - k) as nat));
        if k == 0 {
            lemma_tid_prefix_first(a);
            lemma_tid_prefix_first(b);
        } else {
            lemma_tid_prefix_agree(a, b, k);
            lemma_tid_prefix_step(a, k);
            lemma_tid_prefix_step(b, k);
        }
        let da = tid_prefix(a, k) % 32;
        let db = tid_prefix(b, k) % 32;
        assert(da < db);
        lemma_tid_digit_order(da, db);
        let ta = tid_chars(a);
        let tb = tid_chars(b);
        assert forall|i: int| 0 <= i < k implies ta[i] == tb[i] by {
            assert(tid_prefix(a, i) % 32 == tid_prefix(b, i) % 32);
        }
        assert(ta[k] == tid_digit(da));
        assert(tb[k] == tid_digit(db));
        lemma_key_lt_at(ta, tb, k);
    }
}

/// Each TID a clock hands out comes after the one before in string order
/// (until the counter reaches the largest value).
pub proof fn lemma_tids_sorted(prev: u64, micros: u64)
    requires
        prev < u64::MAX,
    ensures
        key_lt(tid_chars(prev), tid_chars(next_tid_value(prev, micros))),
{
    lemma_tid_strictly_increasing(prev, micros);
    lemma_tid_order(prev, next_tid_value(prev, micros));
}

// ── Hashes and tokens ───────────────────────────────────────────────────

/// The BLAKE3 digest of a byte string (32 bytes).
pub uninterp spec fn blake3_digest(data: Seq<u8>) -> Seq<u8>;

/// `blake3::hash`: the 32-byte BLAKE3 digest of the input.
#[verifier::external_body]
fn blake3_hash(data: &[u8]) -> (r: Vec<u8>)
    ensures
        r@ == blake3_digest(data@),
        r@.len() == 32,
{
    blake3::hash(data).as_bytes().to_vec()
}

/// BLAKE3 content hash of the UTF-8 bytes of `data`, as lowercase hex.
pub fn content_hash(data: &str) -> (r: String)
    ensures
        r@ == hex_lower(blake3_digest(data.spec_bytes())),
        r@.len() == 64,
{
    let d = blake3_hash(data.as_bytes());
    hex_encode(d.as_slice())
}

/// `rand::random::<[u8; 32]>()`: 32 bytes from the thread-local
/// cryptographically secure generator. Only the length is claimed.
#[verifier::external_body]
fn random_bytes32() -> (r: Vec<u8>)
    ensures
        r@.len() == 32,
{
    let b: [u8; 32] = rand::random();
    b.to_vec()
}

/// A random 64-character lowercase hex session token.
pub fn gen_session_token() -> (r: String)
    ensures
        exists|b: Seq<u8>| b.len() == 32 && r@ == hex_lower(b),
        r@.len() == 64,
{
    let b = random_bytes32();
    hex_encode(b.as_slice())
}

/// Current UTC time as an RFC 3339 string: the system clock converted to
/// a chrono UTC time (`DateTime::<Utc>::from(SystemTime::now())`, which
/// also takes clocks set before the epoch), then `to_rfc3339`. Nothing is
/// claimed of the text, which depends on the machine's clock.
#[verifier::external_body]
pub fn now_rfc3339() -> String {
    chrono::DateTime::<chrono::Utc>::from(std::time::SystemTime::now()).to_rfc3339()
}

// ── AT URIs ─────────────────────────────────────────────────────────────

/// The URI with `/` and `:` replaced by `_`.
pub open spec fn node_id_of(uri: Seq<char>) -> Seq<char> {
    Seq::new(uri.len(), |k: int| if uri[k] == '/' || uri[k] == ':' { '_' } else { uri[k] })
}

/// Convert an AT URI to a filesystem-safe node ID.
pub fn uri_to_node_id(uri: &str) -> (r: String)
    ensures
        r@ == node_id_of(uri@),
{
    let v = chars_of(uri);
    let mut r = String::new();
    let mut i: usize = 0;
    while i < v.len()
        invariant
            i <= v@.len(),
            v@ == uri@,
            r@ == node_id_of(v@.take(i as int)),
        decreases v@.len() - i,
    {
        let c = v[i];
        push_char(&mut r, if c == '/' || c == ':' { '_' } else { c });
        i = i + 1;
        assert(r@ =~= node_id_of(v@.take(i as int)));
    }
    assert(v@.take(i as int) =~= v@);
    r
}

/// `(did, rkey)` of `at://{did}/{collection}/{rkey}`: the text before the
/// first `/`, and everything after the second; both must be non-empty.
pub open spec fn repo_uri_parts(uri: Seq<char>) -> Option<(Seq<char>, Seq<char>)> {
    match strip_prefix(uri, "at://"@) {
        None => None,
        Some(rest) => match find(rest, "/"@) {
            None => None,
            Some(i) => match find_from(rest, "/"@, i + 1) {
                None => None,
                Some(j) => {
                    let did = rest.subrange(0, i);
                    let rkey = rest.subrange(j + 1, rest.len() as int);
                    if did.len() == 0 || rkey.len() == 0 {
                        None
                    } else {
                        Some((did, rkey))
                    }
                },
            },
        },
    }
}

/// Parse `repo_uri = at://{did}/{lex}/{rkey}` into `(did, rkey)`. Returns
/// `None` for non-`at://` URIs and for truncated paths.
pub fn parse_repo_uri(repo_uri: &str) -> (r: Option<(String, String)>)
    ensures
        match repo_uri_parts(repo_uri@) {
            Some(parts) => r.is_some() && r.unwrap().0@ == parts.0 && r.unwrap().1@ == parts.1,
            None => r.is_none(),
        },
{
    let v = chars_of(repo_uri);
    let scheme = chars_of("at://");
    let slash = chars_of("/");
    proof {
        reveal_strlit("at://");
        reveal_strlit("/");
    }
    if !starts_with(v.as_slice(), scheme.as_slice()) {
        return None;
    }
    let rest = crate::text::copy_range(v.as_slice(), 5, v.len());
    let i = match find_from_exec(rest.as_slice(), slash.as_slice(), 0) {
        Some(i) => i,
        None => return None,
    };
    proof {
        lemma_find_from(rest@, "/"@, 0);
    }
    let j = match find_from_exec(rest.as_slice(), slash.as_slice(), i + 1) {
        Some(j) => j,
        None => return None,
    };
    proof {
        lemma_find_from(rest@, "/"@, i + 1);
    }
    if i == 0 || j + 1 == rest.len() {
        return None;
    }
    Some((string_of_range(rest.as_slice(), 0, i), string_of_range(rest.as_slice(), j + 1, rest.len())))
}

/// `at://{did}/{collection}/{rkey}` reads back as `(did, rkey)` for any
/// non-empty DID and collection without `/` and any non-empty record key
/// (which may itself hold `/`).
pub proof fn lemma_repo_uri_roundtrip(did: Seq<char>, coll: Seq<char>, rkey: Seq<char>)
    requires
        did.len() > 0,
        rkey.len() > 0,
        forall|i: int| 0 <= i < did.len() ==> did[i] != '/',
        forall|i: int| 0 <= i < coll.len() ==> coll[i] != '/',
    ensures
        repo_uri_parts("at://"@ + did + "/"@ + coll + "/"@ + rkey) == Some((did, rkey)),
{
    reveal_strlit("at://");
    reveal_strlit("/");
    let uri = "at://"@ + did + "/"@ + coll + "/"@ + rkey;
    let rest = did + "/"@ + coll + "/"@ + rkey;
    assert(uri.subrange(0, 5) =~= "at://"@);
    assert(uri.subrange(5, uri.len() as int) =~= rest);
    assert(strip_prefix(uri, "at://"@) == Some(rest));
    let i = did.len() as int;
    let j = i + 1 + coll.len();
    assert(rest.subrange(i, i + 1) =~= "/"@);
    assert(occurs_at(rest, "/"@, i));
    assert(rest.subrange(j, j + 1) =~= "/"@);
    assert(occurs_at(rest, "/"@, j));
    lemma_find_from(rest, "/"@, 0);
    assert forall|k: int| 0 <= k < i implies !occurs_at(rest, "/"@, k) by {
        if occurs_at(rest, "/"@, k) {
            assert(rest.subrange(k, k + 1)[0] == rest[k]);
            assert(rest[k] == did[k]);
        }
    }
    assert(find(rest, "/"@) == Some(i));
    lemma_find_from(rest, "/"@, i + 1);
    assert forall|k: int| i + 1 <= k < j implies !occurs_at(rest, "/"@, k) by {
        if occurs_at(rest, "/"@, k) {
            assert(rest.subrange(k, k + 1)[0] == rest[k]);
            assert(rest[k] == coll[k - i - 1]);
        }
    }
    assert(find_from(rest, "/"@, i + 1) == Some(j));
    assert(rest.subrange(0, i) =~= did);
    assert(rest.subrange(j + 1, rest.len() as int) =~= rkey);
}

} // verus!
