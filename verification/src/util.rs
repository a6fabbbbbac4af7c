//! Timestamps, hashes and identifiers.

use std::cmp::Ordering;

use vstd::prelude::*;
use vstd::string::*;
use vstd::utf8::encode_utf8;

use crate::order::{
    is_listing, lemma_listing_insert, lemma_stable_insert, stable_listing, weak_order,
};
use crate::text::{
    cat2, cat7, decimal, decimal_text, fixed_decimal, fixed_digits, fixed_hex, hex,
    lemma_lex_irreflexive, lemma_lex_total, lemma_lex_transitive, lex_lt, text_before,
};

verus! {

/// The instant, in nanoseconds since the Unix epoch, that RFC 3339 text
/// denotes; nothing where the text is no RFC 3339 date and time.
pub uninterp spec fn rfc3339_nanos(text: Seq<char>) -> Option<i128>;

/// `time::OffsetDateTime::parse` with the `Rfc3339` description, reduced to
/// the parsed value's nanoseconds since the Unix epoch, by which `time` orders
/// two parsed values whatever their offsets. A function of the text alone.
#[verifier::external_body]
fn parse_rfc3339(text: &str) -> (nanos: Option<i128>)
    ensures
        nanos == rfc3339_nanos(text@),
{
    match time::OffsetDateTime::parse(text, &time::format_description::well_known::Rfc3339) {
        Ok(parsed) => Some(parsed.unix_timestamp_nanos()),
        Err(_) => None,
    }
}

/// A calendar date and a time of day in UTC.
pub struct UtcTime {
    pub year: i32,
    pub month: u8,
    pub day: u8,
    pub hour: u8,
    pub minute: u8,
    pub second: u8,
    pub nanosecond: u32,
}

impl UtcTime {
    /// Every component is within its calendar range.
    pub open spec fn in_range(self) -> bool {
        &&& -9999 <= self.year <= 9999
        &&& 1 <= self.month <= 12
        &&& 1 <= self.day <= 31
        &&& self.hour < 24
        &&& self.minute < 60
        &&& self.second < 60
        &&& self.nanosecond < 1_000_000_000
    }
}

/// `time::OffsetDateTime::now_utc`, split into its components. Nothing is said
/// of which instant it is, only that each component is within the range that
/// `time` documents for it.
#[verifier::external_body]
fn utc_now() -> (now: UtcTime)
    ensures
        now.in_range(),
{
    let now = time::OffsetDateTime::now_utc();
    UtcTime {
        year: now.year(),
        month: u8::from(now.month()),
        day: now.day(),
        hour: now.hour(),
        minute: now.minute(),
        second: now.second(),
        nanosecond: now.nanosecond(),
    }
}

/// A year padded to four columns, the sign taking one of them.
pub open spec fn year_text(year: int) -> Seq<char> {
    if year >= 0 {
        fixed_digits(year as nat, 4)
    } else if year > -1000 {
        seq!['-'] + fixed_digits((-year) as nat, 3)
    } else {
        seq!['-'] + decimal_text((-year) as nat)
    }
}

fn render_year(year: i32) -> (r: String)
    requires
        -9999 <= year <= 9999,
    ensures
        r@ == year_text(year as int),
{
    if year >= 0 {
        fixed_decimal(year as u64, 4)
    } else {
        let magnitude: u64 = (0 - (year as i64)) as u64;
        let mut r: String = String::new();
        r.push('-');
        if year > -1000 {
            r.append(fixed_decimal(magnitude, 3).as_str());
            assert(r@ =~= seq!['-'] + fixed_digits((-year) as nat, 3));
        } else {
            r.append(decimal(magnitude).as_str());
            assert(r@ =~= seq!['-'] + decimal_text((-year) as nat));
        }
        r
    }
}

/// RFC 3339 in UTC with a fraction of exactly nine digits, so that within the
/// four-digit years byte order and time order agree.
pub open spec fn timestamp_text(t: UtcTime) -> Seq<char> {
    year_text(t.year as int) + "-"@ + fixed_digits(t.month as nat, 2) + "-"@ + fixed_digits(
        t.day as nat,
        2,
    ) + "T"@ + fixed_digits(t.hour as nat, 2) + (":"@ + fixed_digits(t.minute as nat, 2) + ":"@
        + fixed_digits(t.second as nat, 2) + "."@ + fixed_digits(t.nanosecond as nat, 9) + "Z"@)
}

/// Renders a time as fixed-width RFC 3339.
pub fn render_timestamp(t: &UtcTime) -> (r: String)
    requires
        t.in_range(),
    ensures
        r@ == timestamp_text(*t),
{
    let date: String = cat7(
        render_year(t.year).as_str(),
        "-",
        fixed_decimal(t.month as u64, 2).as_str(),
        "-",
        fixed_decimal(t.day as u64, 2).as_str(),
        "T",
        fixed_decimal(t.hour as u64, 2).as_str(),
    );
    let clock: String = cat7(
        ":",
        fixed_decimal(t.minute as u64, 2).as_str(),
        ":",
        fixed_decimal(t.second as u64, 2).as_str(),
        ".",
        fixed_decimal(t.nanosecond as u64, 9).as_str(),
        "Z",
    );
    cat2(date.as_str(), clock.as_str())
}

/// Whether `text` is a timestamp as [`now_rfc3339`] writes them.
pub open spec fn is_timestamp(text: Seq<char>) -> bool {
    exists|t: UtcTime| #[trigger] t.in_range() && text == timestamp_text(t)
}

/// The current time in UTC as RFC 3339 with a fixed nine-digit fraction.
pub fn now_rfc3339() -> (r: String)
    ensures
        is_timestamp(r@),
{
    let now: UtcTime = utc_now();
    render_timestamp(&now)
}

/// Whether timestamp `a` denotes an earlier instant than `b`. Text that is no
/// RFC 3339 timestamp falls back to byte order.
pub open spec fn earlier(a: Seq<char>, b: Seq<char>) -> bool {
    match (rfc3339_nanos(a), rfc3339_nanos(b)) {
        (Some(x), Some(y)) => x < y,
        _ => lex_lt(a, b),
    }
}

pub fn earlier_than(a: &str, b: &str) -> (r: bool)
    ensures
        r == earlier(a@, b@),
{
    let x: Option<i128> = parse_rfc3339(a);
    let y: Option<i128> = parse_rfc3339(b);
    earlier_parsed(a, x, b, y)
}

/// [`earlier_than`] on timestamps whose instants have been read already.
pub fn earlier_parsed(a: &str, x: Option<i128>, b: &str, y: Option<i128>) -> (r: bool)
    ensures
        r == match (x, y) {
            (Some(m), Some(n)) => m < n,
            _ => lex_lt(a@, b@),
        },
{
    match (x, y) {
        (Some(m), Some(n)) => m < n,
        _ => text_before(a, b),
    }
}

/// Orders two RFC 3339 timestamps chronologically, whatever the width of their
/// fractions; where either does not parse, by byte order.
pub fn cmp_rfc3339(a: &str, b: &str) -> (r: Ordering)
    ensures
        (r == Ordering::Less) == earlier(a@, b@),
        (r == Ordering::Greater) == earlier(b@, a@),
        (r == Ordering::Equal) == (!earlier(a@, b@) && !earlier(b@, a@)),
{
    proof {
        lemma_earlier_asymmetric(a@, b@);
    }
    if earlier_than(a, b) {
        Ordering::Less
    } else if earlier_than(b, a) {
        Ordering::Greater
    } else {
        Ordering::Equal
    }
}

/// No timestamp is both earlier and later than another.
pub proof fn lemma_earlier_asymmetric(a: Seq<char>, b: Seq<char>)
    ensures
        !(earlier(a, b) && earlier(b, a)),
{
    if lex_lt(a, b) && lex_lt(b, a) {
        lemma_lex_transitive(a, b, a);
        lemma_lex_irreflexive(a);
    }
}

/// Every one of the timestamps parses.
pub open spec fn all_parse(stamps: Seq<Seq<char>>) -> bool {
    forall|i: int| 0 <= i < stamps.len() ==> (#[trigger] rfc3339_nanos(stamps[i])) is Some
}

/// None of the timestamps parses.
pub open spec fn none_parse(stamps: Seq<Seq<char>>) -> bool {
    forall|i: int| 0 <= i < stamps.len() ==> (#[trigger] rfc3339_nanos(stamps[i])) is None
}

/// Whether the row with stamp `a` at position `i` is listed ahead of the row with
/// stamp `b` at position `j`: its instant is later; at one instant its text is
/// the greater; and of equal texts the row written last comes first.
pub open spec fn row_ahead(a: Seq<char>, i: int, b: Seq<char>, j: int) -> bool {
    earlier(b, a) || (!earlier(a, b) && (lex_lt(b, a) || (a == b && j < i)))
}

/// The order in which later timestamps come first.
pub open spec fn newest_order(stamps: Seq<Seq<char>>) -> spec_fn(int, int) -> bool {
    |i: int, j: int| row_ahead(stamps[i], i, stamps[j], j)
}

/// Timestamps that all parse, or of which none does, are in a consistent
/// chronological order.
pub proof fn lemma_newest_order(stamps: Seq<Seq<char>>)
    requires
        all_parse(stamps) || none_parse(stamps),
    ensures
        weak_order(newest_order(stamps), stamps.len()),
{
    let before = newest_order(stamps);
    let n = stamps.len();
    assert forall|i: int| 0 <= i < n implies !#[trigger] before(i, i) by {
        lemma_lex_irreflexive(stamps[i]);
    }
    assert forall|i: int, j: int| 0 <= i < n && 0 <= j < n && i != j implies before(i, j)
        || #[trigger] before(j, i) by {
        lemma_lex_total(stamps[i], stamps[j]);
    }
    assert forall|i: int, j: int, k: int|
        0 <= i < n && 0 <= j < n && 0 <= k < n && #[trigger] before(i, j) && #[trigger] before(
            j,
            k,
        ) implies before(i, k) by {
        let (a, b, c) = (stamps[i], stamps[j], stamps[k]);
        assert(rfc3339_nanos(a) is Some <==> rfc3339_nanos(b) is Some);
        assert(rfc3339_nanos(c) is Some <==> rfc3339_nanos(b) is Some);
        if lex_lt(b, a) && lex_lt(c, b) {
            lemma_lex_transitive(c, b, a);
        }
        lemma_lex_total(a, b);
        lemma_lex_total(b, c);
        lemma_lex_total(a, c);
        lemma_lex_irreflexive(a);
        lemma_lex_irreflexive(b);
        if lex_lt(a, c) && lex_lt(c, a) {
            lemma_lex_transitive(a, c, a);
        }
    }
    assert forall|i: int, j: int, k: int|
        0 <= i < n && 0 <= j < n && 0 <= k < n && !(#[trigger] before(i, j)) && !(
        #[trigger] before(j, k)) implies !before(i, k) by {
        if before(i, k) && i != j {
            assert(before(j, i));
        }
    }
}

/// Whether the row with stamp `a`, written after the row with stamp `b`, is
/// listed ahead of it.
fn row_goes_ahead(a: &str, b: &str) -> (r: bool)
    ensures
        forall|i: int, j: int| j < i ==> r == #[trigger] row_ahead(a@, i, b@, j),
{
    proof {
        lemma_lex_total(a@, b@);
        lemma_lex_irreflexive(a@);
        if lex_lt(a@, b@) && lex_lt(b@, a@) {
            lemma_lex_transitive(a@, b@, a@);
        }
    }
    if earlier_than(b, a) {
        return true;
    }
    !earlier_than(a, b) && !text_before(a, b)
}

/// The order in which the greater text comes first, and of equal texts the last
/// one.
pub open spec fn text_down_order(texts: Seq<Seq<char>>) -> spec_fn(int, int) -> bool {
    |i: int, j: int| lex_lt(texts[j], texts[i]) || (texts[i] == texts[j] && j < i)
}

pub proof fn lemma_text_down_order(texts: Seq<Seq<char>>)
    ensures
        weak_order(text_down_order(texts), texts.len()),
{
    let before = text_down_order(texts);
    let n = texts.len();
    assert forall|i: int| 0 <= i < n implies !#[trigger] before(i, i) by {
        lemma_lex_irreflexive(texts[i]);
    }
    assert forall|i: int, j: int| 0 <= i < n && 0 <= j < n && i != j implies before(i, j)
        || #[trigger] before(j, i) by {
        lemma_lex_total(texts[i], texts[j]);
    }
    assert forall|i: int, j: int, k: int|
        0 <= i < n && 0 <= j < n && 0 <= k < n && #[trigger] before(i, j) && #[trigger] before(
            j,
            k,
        ) implies before(i, k) by {
        if lex_lt(texts[j], texts[i]) && lex_lt(texts[k], texts[j]) {
            lemma_lex_transitive(texts[k], texts[j], texts[i]);
        }
    }
    assert forall|i: int, j: int, k: int|
        0 <= i < n && 0 <= j < n && 0 <= k < n && !(#[trigger] before(i, j)) && !(
        #[trigger] before(j, k)) implies !before(i, k) by {
        if before(i, k) && i != j {
            assert(before(j, i));
        }
    }
}

/// The positions of `texts`, the greater text first and of equal texts the last
/// one first.
pub fn order_down(texts: &Vec<String>) -> (listing: Vec<usize>)
    ensures
        stable_listing(listing@, texts@.len(), text_down_order(texts.deep_view())),
{
    let ghost before = text_down_order(texts.deep_view());
    proof {
        lemma_text_down_order(texts.deep_view());
    }
    let mut listing: Vec<usize> = Vec::new();
    for k in 0..texts.len()
        invariant
            before == text_down_order(texts.deep_view()),
            weak_order(before, texts@.len()),
            stable_listing(listing@, k as nat, before),
    {
        let mut at: usize = k;
        while at > 0 && !text_before(texts[k].as_str(), texts[listing[at - 1]].as_str())
            invariant
                k < texts@.len(),
                before == text_down_order(texts.deep_view()),
                stable_listing(listing@, k as nat, before),
                at <= k,
                forall|j: int| at <= j < k ==> before(k as int, #[trigger] listing@[j] as int),
            decreases at,
        {
            proof {
                lemma_lex_total(
                    texts.deep_view()[k as int],
                    texts.deep_view()[listing@[at - 1] as int],
                );
            }
            at = at - 1;
        }
        proof {
            lemma_lex_irreflexive(texts.deep_view()[k as int]);
            if at > 0 {
                let (a, b) = (
                    texts.deep_view()[k as int],
                    texts.deep_view()[listing@[at - 1] as int],
                );
                if lex_lt(a, b) && lex_lt(b, a) {
                    lemma_lex_transitive(a, b, a);
                }
            }
            lemma_stable_insert(listing@, k, at as int, texts@.len(), before);
        }
        listing.insert(at, k);
    }
    listing
}

/// The positions of `stamps`, later timestamps first, at one instant the greater
/// text first and of equal texts the last one first. Where some parse and some
/// do not they have no consistent order, and come out in some order.
pub fn order_newest(stamps: &Vec<String>) -> (listing: Vec<usize>)
    ensures
        is_listing(listing@, stamps@.len()),
        all_parse(stamps.deep_view()) || none_parse(stamps.deep_view()) ==> stable_listing(
            listing@,
            stamps@.len(),
            newest_order(stamps.deep_view()),
        ),
{
    let ghost before = newest_order(stamps.deep_view());
    let ghost sound = all_parse(stamps.deep_view()) || none_parse(stamps.deep_view());
    proof {
        if sound {
            lemma_newest_order(stamps.deep_view());
        }
    }
    let mut listing: Vec<usize> = Vec::new();
    for k in 0..stamps.len()
        invariant
            before == newest_order(stamps.deep_view()),
            sound ==> weak_order(before, stamps@.len()),
            is_listing(listing@, k as nat),
            sound ==> stable_listing(listing@, k as nat, before),
    {
        let mut at: usize = k;
        while at > 0 && row_goes_ahead(stamps[k].as_str(), stamps[listing[at - 1]].as_str())
            invariant
                k < stamps@.len(),
                before == newest_order(stamps.deep_view()),
                is_listing(listing@, k as nat),
                at <= k,
                forall|j: int| at <= j < k ==> before(k as int, #[trigger] listing@[j] as int),
            decreases at,
        {
            at = at - 1;
        }
        proof {
            lemma_listing_insert(listing@, k, at as int);
            if sound {
                lemma_stable_insert(listing@, k, at as int, stamps@.len(), before);
            }
        }
        listing.insert(at, k);
    }
    listing
}

/// The SHA-256 digest of a sequence of bytes.
pub uninterp spec fn sha256_digest(bytes: Seq<u8>) -> Seq<u8>;

/// `sha2::Sha256::digest`: thirty-two bytes that depend on the input alone.
#[verifier::external_body]
fn sha256(bytes: &[u8]) -> (digest: Vec<u8>)
    ensures
        digest@ == sha256_digest(bytes@),
        digest@.len() == 32,
{
    <sha2::Sha256 as sha2::Digest>::digest(bytes).to_vec()
}

/// The bytes in lower-case hexadecimal, two digits each.
pub open spec fn hex_text(bytes: Seq<u8>) -> Seq<char>
    decreases bytes.len(),
{
    if bytes.len() == 0 {
        Seq::empty()
    } else {
        hex_text(bytes.drop_last()) + fixed_hex(bytes.last() as nat, 2)
    }
}

pub fn render_hex(bytes: &Vec<u8>) -> (r: String)
    ensures
        r@ == hex_text(bytes@),
        r@.len() == 2 * bytes@.len(),
{
    let mut r: String = String::new();
    assert(bytes@.take(0) =~= Seq::<u8>::empty());
    for i in 0..bytes.len()
        invariant
            r@ == hex_text(bytes@.take(i as int)),
            r@.len() == 2 * i,
    {
        assert(bytes@.take(i as int + 1).drop_last() =~= bytes@.take(i as int));
        let pair: String = hex(bytes[i] as u64, 2);
        assert(pair@.len() == 2) by {
            reveal_with_fuel(fixed_hex, 3);
        }
        r.append(pair.as_str());
    }
    assert(bytes@.take(bytes@.len() as int) =~= bytes@);
    r
}

/// The lower-case hexadecimal SHA-256 of text's UTF-8 bytes.
pub open spec fn sha256_text(value: Seq<char>) -> Seq<char> {
    hex_text(sha256_digest(encode_utf8(value)))
}

/// Lower-case hex SHA-256 of a string.
pub fn sha256_hex(value: &str) -> (r: String)
    ensures
        r@ == sha256_text(value@),
        r@.len() == 64,
{
    let digest: Vec<u8> = sha256(value.as_bytes());
    render_hex(&digest)
}

/// A lower-case hexadecimal digit.
pub open spec fn is_hex_digit(c: char) -> bool {
    ('0' <= c && c <= '9') || ('a' <= c && c <= 'f')
}

/// The hyphenated form of a UUID: groups of 8, 4, 4, 4 and 12 lower-case
/// hexadecimal digits.
pub open spec fn is_uuid_text(text: Seq<char>) -> bool {
    &&& text.len() == 36
    &&& forall|i: int|
        0 <= i < 36 ==> if i == 8 || i == 13 || i == 18 || i == 23 {
            #[trigger] text[i] == '-'
        } else {
            is_hex_digit(text[i])
        }
}

/// `uuid::Uuid::new_v4`, in its hyphenated lower-case form. Which identifier
/// comes out is random; only its shape is stated.
#[verifier::external_body]
pub(crate) fn fresh_id() -> (id: String)
    ensures
        is_uuid_text(id@),
{
    uuid::Uuid::new_v4().to_string()
}

/// What JSON text comes to: its compact form with the keys of every object in
/// order, or the parser's complaint.
pub uninterp spec fn json_value(text: Seq<char>) -> Result<Seq<char>, Seq<char>>;

/// `serde_json::from_str` into a `serde_json::Value`, the value given back as
/// its compact text and the error as its message. A function of the text
/// alone: objects are kept in key order.
#[verifier::external_body]
pub(crate) fn parse_json(text: &str) -> (value: Result<String, String>)
    ensures
        json_value(text@) == match value {
            Ok(compact) => Ok::<Seq<char>, Seq<char>>(compact@),
            Err(message) => Err(message@),
        },
{
    match serde_json::from_str::<serde_json::Value>(text) {
        Ok(value) => Ok(value.to_string()),
        Err(error) => Err(error.to_string()),
    }
}

} // verus!
