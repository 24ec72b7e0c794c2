//! Verified text helpers: decimal rendering and parsing of unsigned integers,
//! strict JSON-number parsing for the resume cursor file, `bool` parsing, and
//! lowercase hex normalization of public keys.

use vstd::prelude::*;

verus! {

/// The decimal digit character for a value in `0..10`.
pub open spec fn dec_digit(d: int) -> char {
    if d == 0 {
        '0'
    } else if d == 1 {
        '1'
    } else if d == 2 {
        '2'
    } else if d == 3 {
        '3'
    } else if d == 4 {
        '4'
    } else if d == 5 {
        '5'
    } else if d == 6 {
        '6'
    } else if d == 7 {
        '7'
    } else if d == 8 {
        '8'
    } else {
        '9'
    }
}

/// The usual base-10 rendering of `n`, without sign or leading zeros
/// (a single `'0'` for zero).
pub open spec fn dec_str(n: int) -> Seq<char>
    decreases n,
{
    if n < 10 {
        seq![dec_digit(n)]
    } else {
        dec_str(n / 10) + seq![dec_digit(n % 10)]
    }
}

fn digit_str(d: u64) -> (r: &'static str)
    requires
        d < 10,
    ensures
        r@ == seq![dec_digit(d as int)],
{
    proof {
        reveal_strlit("0");
        reveal_strlit("1");
        reveal_strlit("2");
        reveal_strlit("3");
        reveal_strlit("4");
        reveal_strlit("5");
        reveal_strlit("6");
        reveal_strlit("7");
        reveal_strlit("8");
        reveal_strlit("9");
    }
    match d {
        0 => "0",
        1 => "1",
        2 => "2",
        3 => "3",
        4 => "4",
        5 => "5",
        6 => "6",
        7 => "7",
        8 => "8",
        _ => "9",
    }
}

/// Appends the decimal rendering of `n` to `out`.
pub fn push_decimal(out: &mut String, n: u64)
    ensures
        final(out)@ == old(out)@ + dec_str(n as int),
    decreases n,
{
    if n < 10 {
        out.append(digit_str(n));
    } else {
        push_decimal(out, n / 10);
        out.append(digit_str(n % 10));
    }
}

/// The decimal rendering of `n` as an owned string.
pub fn u64_to_string(n: u64) -> (r: String)
    ensures
        r@ == dec_str(n as int),
{
    let mut out = String::new();
    push_decimal(&mut out, n);
    out
}

/// Relies on `String::push`: appends exactly one character.
#[verifier::external_body]
pub fn push_char(s: &mut String, c: char)
    ensures
        final(s)@ == old(s)@.push(c),
{
    s.push(c);
}

pub open spec fn is_dec_digit(c: char) -> bool {
    '0' <= c && c <= '9'
}

pub open spec fn digit_val(c: char) -> int {
    c as int - '0' as int
}

pub open spec fn all_dec_digits(s: Seq<char>) -> bool {
    forall|i: int| 0 <= i < s.len() ==> is_dec_digit(s[i])
}

/// The numeric value of a string of decimal digits, most significant first.
pub open spec fn dec_val(s: Seq<char>) -> int
    decreases s.len(),
{
    if s.len() == 0 {
        0
    } else {
        dec_val(s.drop_last()) * 10 + digit_val(s.last())
    }
}

pub proof fn lemma_dec_val_nonneg(s: Seq<char>)
    requires
        all_dec_digits(s),
    ensures
        dec_val(s) >= 0,
    decreases s.len(),
{
    if s.len() > 0 {
        assert(all_dec_digits(s.drop_last()));
        lemma_dec_val_nonneg(s.drop_last());
    }
}

/// A digit string's value only grows as digits are appended.
pub proof fn lemma_dec_val_prefix_le(s: Seq<char>, j: int)
    requires
        all_dec_digits(s),
        0 <= j <= s.len(),
    ensures
        dec_val(s.take(j)) <= dec_val(s),
    decreases s.len() - j,
{
    if j == s.len() {
        assert(s.take(j) =~= s);
    } else {
        let t = s.take(j + 1);
        assert(t.drop_last() =~= s.take(j));
        assert(all_dec_digits(s.take(j)));
        lemma_dec_val_nonneg(s.take(j));
        assert(dec_val(t) == dec_val(s.take(j)) * 10 + digit_val(s[j]));
        lemma_dec_val_prefix_le(s, j + 1);
    }
}

/// The digit part of an unsigned decimal literal as `str::parse` of an
/// unsigned type reads it: an optional leading `'+'` is skipped.
pub open spec fn std_digits(s: Seq<char>) -> Seq<char> {
    if s.len() > 0 && s[0] == '+' {
        s.drop_first()
    } else {
        s
    }
}

/// What `str::parse::<u64>` returns: an optional `'+'`, then at least one
/// decimal digit, and a value that fits in the type.
pub open spec fn std_parse_u64(s: Seq<char>) -> Option<u64> {
    let d = std_digits(s);
    if d.len() > 0 && all_dec_digits(d) && dec_val(d) <= u64::MAX {
        Some(dec_val(d) as u64)
    } else {
        None
    }
}

/// What `str::parse::<u16>` returns.
pub open spec fn std_parse_u16(s: Seq<char>) -> Option<u16> {
    let d = std_digits(s);
    if d.len() > 0 && all_dec_digits(d) && dec_val(d) <= u16::MAX {
        Some(dec_val(d) as u16)
    } else {
        None
    }
}

fn parse_digits_bounded(s: &str, start: usize, len: usize, max: u64) -> (r: Option<u64>)
    requires
        start <= len,
        len == s@.len(),
    ensures
        ({
            let d = s@.subrange(start as int, len as int);
            match r {
                Some(v) => d.len() > 0 && all_dec_digits(d) && dec_val(d) == v && v <= max,
                None => d.len() == 0 || !all_dec_digits(d) || dec_val(d) > max,
            }
        }),
{
    let ghost d = s@.subrange(start as int, len as int);
    if start == len {
        return None;
    }
    let mut value: u64 = 0;
    let mut i: usize = start;
    while i < len
        invariant
            start <= i <= len,
            len == s@.len(),
            d == s@.subrange(start as int, len as int),
            all_dec_digits(d.take(i - start)),
            value == dec_val(d.take(i - start)),
            value <= max,
        decreases len - i,
    {
        let c = s.get_char(i);
        assert(c == d[i - start]);
        if c < '0' || c > '9' {
            assert(!is_dec_digit(d[i - start]));
            return None;
        }
        let dv: u64 = (c as u32 as u64) - ('0' as u32 as u64);
        assert(dv == digit_val(c));
        let wide: u128 = (value as u128) * 10 + (dv as u128);
        proof {
            let t = d.take(i - start + 1);
            assert(t.drop_last() =~= d.take(i - start));
            assert(t.last() == c);
            assert(dec_val(t) == value * 10 + dv);
        }
        if wide > max as u128 {
            proof {
                if all_dec_digits(d) {
                    lemma_dec_val_prefix_le(d, i - start + 1);
                }
            }
            return None;
        }
        value = wide as u64;
        i = i + 1;
    }
    proof {
        assert(d.take(i - start) =~= d);
    }
    Some(value)
}

/// `str::parse::<u64>` for nonnegative input: an optional leading `'+'`,
/// then decimal digits.
pub fn parse_u64(s: &str) -> (r: Option<u64>)
    ensures
        r == std_parse_u64(s@),
{
    let len = s.unicode_len();
    let start: usize = if len > 0 && s.get_char(0) == '+' {
        1
    } else {
        0
    };
    proof {
        assert(s@.subrange(start as int, len as int) =~= std_digits(s@));
    }
    parse_digits_bounded(s, start, len, u64::MAX)
}

/// `str::parse::<u16>` for nonnegative input.
pub fn parse_u16(s: &str) -> (r: Option<u16>)
    ensures
        r == std_parse_u16(s@),
{
    let len = s.unicode_len();
    let start: usize = if len > 0 && s.get_char(0) == '+' {
        1
    } else {
        0
    };
    proof {
        assert(s@.subrange(start as int, len as int) =~= std_digits(s@));
    }
    match parse_digits_bounded(s, start, len, u16::MAX as u64) {
        Some(v) => Some(v as u16),
        None => None,
    }
}

/// What a strict JSON reader accepts as a `u64`: decimal digits only, no
/// sign, no leading zero except for `"0"` itself, and a value that fits.
pub open spec fn json_parse_u64(s: Seq<char>) -> Option<u64> {
    if s.len() > 0 && all_dec_digits(s) && (s.len() > 1 ==> s[0] != '0') && dec_val(s)
        <= u64::MAX {
        Some(dec_val(s) as u64)
    } else {
        None
    }
}

/// A strict JSON `u64` reader, as `serde_json::from_str::<u64>` accepts
/// a bare number token.
pub fn parse_json_u64(s: &str) -> (r: Option<u64>)
    ensures
        r == json_parse_u64(s@),
{
    let len = s.unicode_len();
    if len > 1 && s.get_char(0) == '0' {
        return None;
    }
    proof {
        assert(s@.subrange(0, len as int) =~= s@);
    }
    parse_digits_bounded(s, 0, len, u64::MAX)
}

/// The decimal rendering of a machine integer is itself a strict JSON
/// number: digits only, no leading zero, value preserved.
pub proof fn lemma_dec_str_wf(n: int)
    requires
        n >= 0,
    ensures
        dec_str(n).len() >= 1,
        all_dec_digits(dec_str(n)),
        dec_val(dec_str(n)) == n,
        n > 0 ==> dec_str(n)[0] != '0',
        n == 0 ==> dec_str(n) =~= seq!['0'],
    decreases n,
{
    if n < 10 {
        assert(dec_str(n) =~= seq![dec_digit(n)]);
        assert(dec_val(dec_str(n)) == dec_val(seq![dec_digit(n)].drop_last()) * 10 + digit_val(
            dec_digit(n),
        ));
        assert(seq![dec_digit(n)].drop_last() =~= Seq::<char>::empty());
    } else {
        lemma_dec_str_wf(n / 10);
        let s = dec_str(n);
        assert(s == dec_str(n / 10) + seq![dec_digit(n % 10)]);
        assert(s.drop_last() =~= dec_str(n / 10));
        assert(s.last() == dec_digit(n % 10));
        assert(dec_val(s) == dec_val(dec_str(n / 10)) * 10 + digit_val(dec_digit(n % 10)));
        assert(s[0] == dec_str(n / 10)[0]);
    }
}

/// Writing a cursor value and reading it back yields the value itself.
pub proof fn lemma_dec_str_roundtrip(n: u64)
    ensures
        json_parse_u64(dec_str(n as int)) == Some(n),
        std_parse_u64(dec_str(n as int)) == Some(n),
{
    lemma_dec_str_wf(n as int);
    let s = dec_str(n as int);
    assert(s[0] != '+') by {
        assert(is_dec_digit(s[0]));
    }
    assert(std_digits(s) == s);
}

/// What `str::parse::<bool>` returns: exactly `"true"` or `"false"`.
pub open spec fn std_parse_bool(s: Seq<char>) -> Option<bool> {
    if s == "true"@ {
        Some(true)
    } else if s == "false"@ {
        Some(false)
    } else {
        None
    }
}

/// `str::parse::<bool>`.
pub fn parse_bool(s: &String) -> (r: Option<bool>)
    ensures
        r == std_parse_bool(s@),
{
    let t: String = "true".to_owned();
    let f: String = "false".to_owned();
    if s.eq(&t) {
        Some(true)
    } else if s.eq(&f) {
        Some(false)
    } else {
        None
    }
}

pub open spec fn is_hex_digit(c: char) -> bool {
    is_dec_digit(c) || ('a' <= c && c <= 'f') || ('A' <= c && c <= 'F')
}

/// A 64-character hex string: what a 32-byte public key reads as.
pub open spec fn is_hex64(s: Seq<char>) -> bool {
    s.len() == 64 && (forall|i: int| 0 <= i < s.len() ==> is_hex_digit(s[i]))
}

pub open spec fn hex_lower_char(c: char) -> char {
    if c == 'A' {
        'a'
    } else if c == 'B' {
        'b'
    } else if c == 'C' {
        'c'
    } else if c == 'D' {
        'd'
    } else if c == 'E' {
        'e'
    } else if c == 'F' {
        'f'
    } else {
        c
    }
}

/// The lowercase form of a hex string, digit by digit.
pub open spec fn hex_lower(s: Seq<char>) -> Seq<char> {
    Seq::new(s.len(), |i: int| hex_lower_char(s[i]))
}

fn hex_lower_char_exec(c: char) -> (r: char)
    ensures
        r == hex_lower_char(c),
{
    match c {
        'A' => 'a',
        'B' => 'b',
        'C' => 'c',
        'D' => 'd',
        'E' => 'e',
        'F' => 'f',
        _ => c,
    }
}

/// Reads a hex-encoded 32-byte public key the way the Nostr library's
/// `PublicKey::from_hex` does (exactly 64 hex digits, either case), and
/// yields the canonical lowercase form that `PublicKey::to_hex` prints.
pub fn normalize_pubkey_hex(s: &str) -> (r: Option<String>)
    ensures
        r matches Some(h) ==> is_hex64(s@) && h@ == hex_lower(s@),
        r is None ==> !is_hex64(s@),
{
    let len = s.unicode_len();
    if len != 64 {
        return None;
    }
    let mut out = String::new();
    let mut i: usize = 0;
    while i < 64
        invariant
            0 <= i <= 64,
            s@.len() == 64,
            out@ =~= hex_lower(s@).take(i as int),
            forall|k: int| 0 <= k < i ==> is_hex_digit(s@[k]),
        decreases 64 - i,
    {
        let c = s.get_char(i);
        if !(('0' <= c && c <= '9') || ('a' <= c && c <= 'f') || ('A' <= c && c <= 'F')) {
            assert(!is_hex_digit(s@[i as int]));
            return None;
        }
        push_char(&mut out, hex_lower_char_exec(c));
        proof {
            assert(out@ =~= hex_lower(s@).take(i + 1));
        }
        i = i + 1;
    }
    Some(out)
}

pub open spec fn hex_digit_lower(d: int) -> char {
    if d < 10 {
        dec_digit(d)
    } else if d == 10 {
        'a'
    } else if d == 11 {
        'b'
    } else if d == 12 {
        'c'
    } else if d == 13 {
        'd'
    } else if d == 14 {
        'e'
    } else {
        'f'
    }
}

fn hex_digit_str(d: u64) -> (r: &'static str)
    requires
        d < 16,
    ensures
        r@ == seq![hex_digit_lower(d as int)],
{
    proof {
        reveal_strlit("a");
        reveal_strlit("b");
        reveal_strlit("c");
        reveal_strlit("d");
        reveal_strlit("e");
        reveal_strlit("f");
    }
    if d < 10 {
        digit_str(d)
    } else {
        match d {
            10 => "a",
            11 => "b",
            12 => "c",
            13 => "d",
            14 => "e",
            _ => "f",
        }
    }
}

/// How a JSON writer escapes one character inside a double-quoted string:
/// quote and backslash get a backslash, the five short control escapes are
/// used where they exist, any other control character becomes `\u00..`,
/// and everything else stands as itself.
pub open spec fn json_escape_char(c: char) -> Seq<char> {
    if c == '"' {
        seq!['\\', '"']
    } else if c == '\\' {
        seq!['\\', '\\']
    } else if c == '\u{0008}' {
        seq!['\\', 'b']
    } else if c == '\t' {
        seq!['\\', 't']
    } else if c == '\n' {
        seq!['\\', 'n']
    } else if c == '\u{000c}' {
        seq!['\\', 'f']
    } else if c == '\r' {
        seq!['\\', 'r']
    } else if (c as int) < 0x20 {
        seq!['\\', 'u', '0', '0', hex_digit_lower((c as int) / 16), hex_digit_lower((c as int) % 16)]
    } else {
        seq![c]
    }
}

pub open spec fn json_escape(s: Seq<char>) -> Seq<char>
    decreases s.len(),
{
    if s.len() == 0 {
        Seq::empty()
    } else {
        json_escape(s.drop_last()) + json_escape_char(s.last())
    }
}

fn push_json_escaped(out: &mut String, s: &String)
    ensures
        final(out)@ == old(out)@ + json_escape(s@),
{
    let len = s.as_str().unicode_len();
    let mut i: usize = 0;
    while i < len
        invariant
            0 <= i <= len,
            len == s@.len(),
            out@ == old(out)@ + json_escape(s@.take(i as int)),
        decreases len - i,
    {
        let c = s.as_str().get_char(i);
        proof {
            reveal_strlit("\\\"");
            reveal_strlit("\\\\");
            reveal_strlit("\\b");
            reveal_strlit("\\t");
            reveal_strlit("\\n");
            reveal_strlit("\\f");
            reveal_strlit("\\r");
            reveal_strlit("\\u00");
            assert(s@.take(i + 1).drop_last() =~= s@.take(i as int));
            assert(s@.take(i + 1).last() == c);
            assert(json_escape(s@.take(i + 1)) == json_escape(s@.take(i as int))
                + json_escape_char(c));
        }
        if c == '"' {
            out.append("\\\"");
        } else if c == '\\' {
            out.append("\\\\");
        } else if c == '\u{0008}' {
            out.append("\\b");
        } else if c == '\t' {
            out.append("\\t");
        } else if c == '\n' {
            out.append("\\n");
        } else if c == '\u{000c}' {
            out.append("\\f");
        } else if c == '\r' {
            out.append("\\r");
        } else if (c as u32) < 0x20 {
            let v: u64 = c as u32 as u64;
            out.append("\\u00");
            out.append(hex_digit_str(v / 16));
            out.append(hex_digit_str(v % 16));
        } else {
            push_char(out, c);
        }
        proof {
            assert(out@ =~= old(out)@ + (json_escape(s@.take(i as int)) + json_escape_char(c)));
            assert(out@ == old(out)@ + json_escape(s@.take(i + 1)));
        }
        i = i + 1;
    }
    proof {
        assert(s@.take(len as int) =~= s@);
    }
}

/// A JSON string token: the escaped text between double quotes.
pub open spec fn json_of_string(s: Seq<char>) -> Seq<char> {
    seq!['"'] + json_escape(s) + seq!['"']
}

pub(crate) fn push_json_string(out: &mut String, s: &String)
    ensures
        final(out)@ == old(out)@ + json_of_string(s@),
{
    proof {
        reveal_strlit("\"");
    }
    out.append("\"");
    push_json_escaped(out, s);
    out.append("\"");
    proof {
        assert(out@ =~= old(out)@ + json_of_string(s@));
    }
}

pub open spec fn json_list_body(items: Seq<Seq<char>>) -> Seq<char>
    decreases items.len(),
{
    if items.len() == 0 {
        Seq::empty()
    } else if items.len() == 1 {
        json_of_string(items[0])
    } else {
        json_list_body(items.drop_last()) + seq![','] + json_of_string(items.last())
    }
}

/// A JSON array of strings.
pub open spec fn json_of_string_list(items: Seq<Seq<char>>) -> Seq<char> {
    seq!['['] + json_list_body(items) + seq![']']
}

fn push_json_string_list(out: &mut String, items: &Vec<String>)
    ensures
        final(out)@ == old(out)@ + json_of_string_list(items.deep_view()),
{
    proof {
        reveal_strlit("[");
        reveal_strlit("]");
        reveal_strlit(",");
    }
    out.append("[");
    let ghost base = out@;
    let mut i: usize = 0;
    while i < items.len()
        invariant
            0 <= i <= items.len(),
            items.deep_view().len() == items.len(),
            out@ == base + json_list_body(items.deep_view().take(i as int)),
        decreases items.len() - i,
    {
        if i > 0 {
            out.append(",");
        }
        push_json_string(out, &items[i]);
        proof {
            reveal_strlit(",");
            let dv = items.deep_view();
            assert(dv[i as int] == items[i as int]@);
            assert(dv.take(i + 1).drop_last() =~= dv.take(i as int));
            assert(dv.take(i + 1).last() == dv[i as int]);
            if i == 0 {
                assert(json_list_body(dv.take(1)) == json_of_string(dv[0]));
                assert(out@ =~= base + json_list_body(dv.take(i + 1)));
            } else {
                assert(json_list_body(dv.take(i + 1)) == json_list_body(dv.take(i as int))
                    + seq![','] + json_of_string(dv[i as int]));
                assert(out@ =~= base + json_list_body(dv.take(i + 1)));
            }
            assert(out@ == base + json_list_body(dv.take(i + 1)));
        }
        i = i + 1;
    }
    out.append("]");
    proof {
        reveal_strlit("[");
        reveal_strlit("]");
        assert(items.deep_view().take(items.len() as int) =~= items.deep_view());
        assert(out@ =~= old(out)@ + json_of_string_list(items.deep_view()));
    }
}

pub open spec fn json_metadata_body(entries: Seq<Seq<Seq<char>>>) -> Seq<char>
    decreases entries.len(),
{
    if entries.len() == 0 {
        Seq::empty()
    } else if entries.len() == 1 {
        json_of_string_list(entries[0])
    } else {
        json_metadata_body(entries.drop_last()) + seq![','] + json_of_string_list(entries.last())
    }
}

/// A JSON array of arrays of strings: the LNURL metadata shape.
pub open spec fn json_of_metadata(entries: Seq<Seq<Seq<char>>>) -> Seq<char> {
    seq!['['] + json_metadata_body(entries) + seq![']']
}

/// Serializes LNURL metadata entries exactly as a JSON writer would:
/// `[["text/plain","..."],...]` with full string escaping.
pub fn serialize_metadata(entries: &Vec<Vec<String>>) -> (r: String)
    ensures
        r@ == json_of_metadata(entries.deep_view()),
{
    proof {
        reveal_strlit("[");
        reveal_strlit("]");
        reveal_strlit(",");
    }
    let mut out = String::new();
    out.append("[");
    let ghost base = out@;
    let mut i: usize = 0;
    while i < entries.len()
        invariant
            0 <= i <= entries.len(),
            entries.deep_view().len() == entries.len(),
            out@ == base + json_metadata_body(entries.deep_view().take(i as int)),
        decreases entries.len() - i,
    {
        if i > 0 {
            out.append(",");
        }
        push_json_string_list(&mut out, &entries[i]);
        proof {
            reveal_strlit(",");
            let dv = entries.deep_view();
            assert(dv[i as int] == entries[i as int].deep_view());
            assert(dv.take(i + 1).drop_last() =~= dv.take(i as int));
            assert(dv.take(i + 1).last() == dv[i as int]);
            if i == 0 {
                assert(json_metadata_body(dv.take(1)) == json_of_string_list(dv[0]));
            } else {
                assert(json_metadata_body(dv.take(i + 1)) == json_metadata_body(dv.take(i as int))
                    + seq![','] + json_of_string_list(dv[i as int]));
            }
            assert(out@ =~= base + json_metadata_body(dv.take(i + 1)));
            assert(out@ == base + json_metadata_body(dv.take(i + 1)));
        }
        i = i + 1;
    }
    out.append("]");
    proof {
        reveal_strlit("[");
        reveal_strlit("]");
        assert(entries.deep_view().take(entries.len() as int) =~= entries.deep_view());
        assert(out@ =~= json_of_metadata(entries.deep_view()));
    }
    out
}

} // verus!
