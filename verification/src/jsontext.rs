//! JSON text: escaping and quoting of strings, and parsers for the value
//! kinds the service uses (strings, integers, booleans, null).
//!
//! Spec-level parsers define what each parsing function accepts and
//! returns; the executable parsers are proved equal to them.  The
//! canonical-form lemmas show that parsing the text the writers emit
//! gives back the written value; the record round-trip proofs build on
//! them.

use vstd::prelude::*;

use crate::textenc::{dec_digit, dec_of, int_text, lower_hex, lower_hex_char};

verus! {

// ---------------------------------------------------------------------------
// String escaping (writing)
// ---------------------------------------------------------------------------

/// The escape text of one character: quote and backslash get a backslash,
/// the five short control escapes use their letter, the other control
/// characters use `\u00xy` with lower-case hex, and everything else
/// stands for itself.
pub open spec fn esc_char(c: char) -> Seq<char> {
    if c == '"' {
        seq!['\\', '"']
    } else if c == '\\' {
        seq!['\\', '\\']
    } else if c == '\u{8}' {
        seq!['\\', 'b']
    } else if c == '\t' {
        seq!['\\', 't']
    } else if c == '\n' {
        seq!['\\', 'n']
    } else if c == '\u{c}' {
        seq!['\\', 'f']
    } else if c == '\r' {
        seq!['\\', 'r']
    } else if (c as u32) < 32 {
        seq!['\\', 'u', '0', '0', lower_hex(c as u32 as int / 16), lower_hex(c as u32 as int % 16)]
    } else {
        seq![c]
    }
}

pub open spec fn esc_from(s: Seq<char>, i: int) -> Seq<char>
    decreases s.len() - i,
{
    if i < 0 || i >= s.len() {
        Seq::empty()
    } else {
        esc_char(s[i]) + esc_from(s, i + 1)
    }
}

/// The escaped form of a whole text.
pub open spec fn json_escaped(s: Seq<char>) -> Seq<char> {
    esc_from(s, 0)
}

/// A JSON string literal: the escaped text between two quotes.
pub open spec fn json_quoted(s: Seq<char>) -> Seq<char> {
    seq!['"'] + json_escaped(s) + seq!['"']
}

/// Writes the JSON string literal for a text onto the end of a string.
pub fn push_json_quoted(out: &mut String, s: &str)
    ensures
        final(out)@ == old(out)@ + json_quoted(s@),
{
    out.push('"');
    let n = s.unicode_len();
    let mut i: usize = 0;
    while i < n
        invariant
            i <= s@.len(),
            n == s@.len(),
            out@ + esc_from(s@, i as int) == old(out)@ + seq!['"'] + esc_from(s@, 0),
        decreases s@.len() - i,
    {
        let c = s.get_char(i);
        let u: u32 = c as u32;
        if c == '"' {
            out.push('\\');
            out.push('"');
        } else if c == '\\' {
            out.push('\\');
            out.push('\\');
        } else if u == 8 {
            out.push('\\');
            out.push('b');
        } else if u == 9 {
            out.push('\\');
            out.push('t');
        } else if u == 10 {
            out.push('\\');
            out.push('n');
        } else if u == 12 {
            out.push('\\');
            out.push('f');
        } else if u == 13 {
            out.push('\\');
            out.push('r');
        } else if u < 32 {
            out.push('\\');
            out.push('u');
            out.push('0');
            out.push('0');
            out.push(lower_hex_char((u / 16) as u8));
            out.push(lower_hex_char((u % 16) as u8));
        } else {
            out.push(c);
        }
        proof {
            broadcast use vstd::utf8::char_u32_cast;

            assert(esc_from(s@, i as int) == esc_char(s@[i as int]) + esc_from(s@, i + 1));
            assert(out@ + esc_from(s@, i + 1) =~= old(out)@ + seq!['"'] + esc_from(s@, 0));
        }
        i = i + 1;
    }
    out.push('"');
    proof {
        assert(esc_from(s@, i as int) =~= Seq::<char>::empty());
        assert(out@ =~= old(out)@ + json_quoted(s@));
    }
}

// ---------------------------------------------------------------------------
// Whitespace
// ---------------------------------------------------------------------------

pub open spec fn is_ws(c: char) -> bool {
    c == ' ' || c == '\t' || c == '\n' || c == '\r'
}

/// The first position at or after `i` that does not hold whitespace.
pub open spec fn sp_ws(s: Seq<char>, i: int) -> int
    decreases s.len() - i,
{
    if 0 <= i && i < s.len() && is_ws(s[i]) {
        sp_ws(s, i + 1)
    } else {
        i
    }
}

pub fn skip_ws(s: &str, i: usize) -> (j: usize)
    requires
        i <= s@.len(),
    ensures
        j as int == sp_ws(s@, i as int),
        i <= j,
        j <= s@.len(),
    decreases s@.len() - i,
{
    let n = s.unicode_len();
    if i < n {
        let c = s.get_char(i);
        if c == ' ' || c == '\t' || c == '\n' || c == '\r' {
            return skip_ws(s, i + 1);
        }
    }
    i
}

// ---------------------------------------------------------------------------
// Hex digits (reading)
// ---------------------------------------------------------------------------

/// The value of a hex digit character, or -1 when it is none.
pub open spec fn hex_val(c: char) -> int {
    let u = c as u32;
    if 48 <= u && u <= 57 {
        u - 48
    } else if 65 <= u && u <= 70 {
        u - 55
    } else if 97 <= u && u <= 102 {
        u - 87
    } else {
        -1
    }
}

pub open spec fn is_hex(c: char) -> bool {
    hex_val(c) >= 0
}

pub fn hex_char_val(c: char) -> (r: Option<u8>)
    ensures
        r matches Some(v) ==> is_hex(c) && v as int == hex_val(c) && v < 16,
        r is None ==> !is_hex(c),
{
    let u = c as u32;
    if 48 <= u && u <= 57 {
        Some((u - 48) as u8)
    } else if 65 <= u && u <= 70 {
        Some((u - 55) as u8)
    } else if 97 <= u && u <= 102 {
        Some((u - 87) as u8)
    } else {
        None
    }
}

// ---------------------------------------------------------------------------
// JSON strings (reading)
// ---------------------------------------------------------------------------

/// Reads the code of a `\uXYZW` escape whose backslash stands at `i`.
fn parse_hex4(s: &str, i: usize) -> (r: Option<u32>)
    requires
        i <= s@.len(),
    ensures
        r matches Some(c) ==> (sp_hex4(s@, i as int) == Some(c as int) && c < 0x10000 && i + 6
            <= s@.len()),
        r is None ==> sp_hex4(s@, i as int) is None,
{
    let n = s.unicode_len();
    if n - i < 6 {
        return None;
    }
    if s.get_char(i) != '\\' {
        return None;
    }
    if s.get_char(i + 1) != 'u' {
        return None;
    }
    let h1 = hex_char_val(s.get_char(i + 2));
    let h2 = hex_char_val(s.get_char(i + 3));
    let h3 = hex_char_val(s.get_char(i + 4));
    let h4 = hex_char_val(s.get_char(i + 5));
    match (h1, h2, h3, h4) {
        (Some(a), Some(b), Some(cc), Some(d)) => Some(
            (a as u32) * 4096 + (b as u32) * 256 + (cc as u32) * 16 + (d as u32),
        ),
        _ => None,
    }
}

/// The character stood for by a short escape letter, if any.
pub open spec fn esc_short(e: char) -> Option<char> {
    if e == '"' {
        Some('"')
    } else if e == '\\' {
        Some('\\')
    } else if e == '/' {
        Some('/')
    } else if e == 'b' {
        Some('\u{8}')
    } else if e == 'f' {
        Some('\u{c}')
    } else if e == 'n' {
        Some('\n')
    } else if e == 'r' {
        Some('\r')
    } else if e == 't' {
        Some('\t')
    } else {
        None
    }
}

/// The code of a `\uXYZW` escape whose backslash stands at `i`, when the
/// backslash, the `u`, and four hex digits are all there.
pub open spec fn sp_hex4(s: Seq<char>, i: int) -> Option<int> {
    if i < 0 || i + 6 > s.len() {
        None
    } else if s[i] == '\\' && s[i + 1] == 'u' && is_hex(s[i + 2]) && is_hex(s[i + 3]) && is_hex(
        s[i + 4],
    ) && is_hex(s[i + 5]) {
        Some(
            hex_val(s[i + 2]) * 4096 + hex_val(s[i + 3]) * 256 + hex_val(s[i + 4]) * 16 + hex_val(
                s[i + 5],
            ),
        )
    } else {
        None
    }
}

/// Parses the inside of a JSON string literal starting at `i` (just past
/// the opening quote) up to and past the closing quote.  Accepts the
/// short escapes, `\u` escapes (with a high surrogate followed by a low
/// surrogate standing for one supplementary character, and lone
/// surrogates rejected), and any unescaped character that is not a
/// control character.
pub open spec fn sp_str_body(s: Seq<char>, i: int) -> Option<(Seq<char>, int)>
    decreases s.len() - i,
{
    if i < 0 || i >= s.len() {
        None
    } else if s[i] == '"' {
        Some((Seq::empty(), i + 1))
    } else if s[i] == '\\' {
        if i + 1 >= s.len() {
            None
        } else if s[i + 1] == 'u' {
            match sp_hex4(s, i) {
                None => None,
                Some(code) => {
                    if 0xDC00 <= code && code <= 0xDFFF {
                        None
                    } else if 0xD800 <= code && code <= 0xDBFF {
                        match sp_hex4(s, i + 6) {
                            None => None,
                            Some(code2) => {
                                if 0xDC00 <= code2 && code2 <= 0xDFFF {
                                    let combined = 0x10000 + (code - 0xD800) * 0x400 + (code2
                                        - 0xDC00);
                                    match sp_str_body(s, i + 12) {
                                        Some((rest, j)) => Some(
                                            (seq![((combined as u32) as char)] + rest, j),
                                        ),
                                        None => None,
                                    }
                                } else {
                                    None
                                }
                            },
                        }
                    } else {
                        match sp_str_body(s, i + 6) {
                            Some((rest, j)) => Some((seq![((code as u32) as char)] + rest, j)),
                            None => None,
                        }
                    }
                },
            }
        } else {
            match esc_short(s[i + 1]) {
                Some(c) => match sp_str_body(s, i + 2) {
                    Some((rest, j)) => Some((seq![c] + rest, j)),
                    None => None,
                },
                None => None,
            }
        }
    } else if (s[i] as u32) < 32 {
        None
    } else {
        match sp_str_body(s, i + 1) {
            Some((rest, j)) => Some((seq![s[i]] + rest, j)),
            None => None,
        }
    }
}

/// Parses a whole JSON string literal starting at `i`.
pub open spec fn sp_quoted(s: Seq<char>, i: int) -> Option<(Seq<char>, int)> {
    if 0 <= i && i < s.len() && s[i] == '"' {
        sp_str_body(s, i + 1)
    } else {
        None
    }
}

#[verifier::rlimit(60)]
fn parse_str_body(s: &str, i: usize) -> (r: Option<(String, usize)>)
    requires
        i <= s@.len(),
    ensures
        r matches Some(p) ==> (sp_str_body(s@, i as int) matches Some(t) && p.0@ == t.0 && p.1
            as int == t.1 && i < p.1 && p.1 <= s@.len()),
        r is None ==> sp_str_body(s@, i as int) is None,
    decreases s@.len() - i,
{
    let n = s.unicode_len();
    if i >= n {
        return None;
    }
    let c = s.get_char(i);
    if c == '"' {
        return Some((String::new(), i + 1));
    }
    if c == '\\' {
        if i + 1 >= n {
            return None;
        }
        let e = s.get_char(i + 1);
        if e == 'u' {
            match parse_hex4(s, i) {
                None => None,
                Some(code) => {
                    if 0xDC00 <= code && code <= 0xDFFF {
                        return None;
                    }
                    if 0xD800 <= code && code <= 0xDBFF {
                        match parse_hex4(s, i + 6) {
                            None => None,
                            Some(code2) => {
                                if !(0xDC00 <= code2 && code2 <= 0xDFFF) {
                                    return None;
                                }
                                let combined: u32 = 0x10000 + (code - 0xD800) * 0x400 + (code2
                                    - 0xDC00);
                                match char::from_u32(combined) {
                                    Some(ch) => {
                                        match parse_str_body(s, i + 12) {
                                            Some((rest, j)) => {
                                                let mut out = String::new();
                                                out.push(ch);
                                                out.append(rest.as_str());
                                                proof {
                                                    vstd::utf8::char_u32_cast(ch, combined);
                                                    assert(out@ =~= seq![ch] + rest@);
                                                    assert(sp_str_body(s@, i as int) matches Some(
                                                        t,
                                                    ) && out@ == t.0 && j as int == t.1);
                                                }
                                                Some((out, j))
                                            },
                                            None => None,
                                        }
                                    },
                                    None => {
                                        proof {
                                            assert(false);
                                        }
                                        None
                                    },
                                }
                            },
                        }
                    } else {
                        match char::from_u32(code) {
                            Some(ch) => {
                                match parse_str_body(s, i + 6) {
                                    Some((rest, j)) => {
                                        let mut out = String::new();
                                        out.push(ch);
                                        out.append(rest.as_str());
                                        proof {
                                            vstd::utf8::char_u32_cast(ch, code);
                                            assert(out@ =~= seq![ch] + rest@);
                                            assert(sp_str_body(s@, i as int) matches Some(t)
                                                && out@ == t.0 && j as int == t.1);
                                        }
                                        Some((out, j))
                                    },
                                    None => None,
                                }
                            },
                            None => {
                                proof {
                                    assert(false);
                                }
                                None
                            },
                        }
                    }
                },
            }
        } else {
            let mapped: Option<char> = if e == '"' {
                Some('"')
            } else if e == '\\' {
                Some('\\')
            } else if e == '/' {
                Some('/')
            } else if e == 'b' {
                Some('\u{8}')
            } else if e == 'f' {
                Some('\u{c}')
            } else if e == 'n' {
                Some('\n')
            } else if e == 'r' {
                Some('\r')
            } else if e == 't' {
                Some('\t')
            } else {
                None
            };
            match mapped {
                Some(ch) => {
                    match parse_str_body(s, i + 2) {
                        Some((rest, j)) => {
                            let mut out = String::new();
                            out.push(ch);
                            out.append(rest.as_str());
                            proof {
                                assert(out@ =~= seq![ch] + rest@);
                            }
                            Some((out, j))
                        },
                        None => None,
                    }
                },
                None => None,
            }
        }
    } else if (c as u32) < 32 {
        None
    } else {
        match parse_str_body(s, i + 1) {
            Some((rest, j)) => {
                let mut out = String::new();
                out.push(c);
                out.append(rest.as_str());
                proof {
                    assert(out@ =~= seq![c] + rest@);
                }
                Some((out, j))
            },
            None => None,
        }
    }
}

/// Parses a JSON string literal at `i`, returning the decoded text and
/// the position just past the closing quote.
pub fn parse_quoted(s: &str, i: usize) -> (r: Option<(String, usize)>)
    requires
        i <= s@.len(),
    ensures
        r matches Some(p) ==> (sp_quoted(s@, i as int) matches Some(t) && p.0@ == t.0 && p.1
            as int == t.1 && i < p.1 && p.1 <= s@.len()),
        r is None ==> sp_quoted(s@, i as int) is None,
{
    let n = s.unicode_len();
    if i < n {
        let c = s.get_char(i);
        if c == '"' {
            return parse_str_body(s, i + 1);
        }
    }
    None
}

// ---------------------------------------------------------------------------
// Integers
// ---------------------------------------------------------------------------

pub open spec fn is_digit(c: char) -> bool {
    48 <= c as u32 && c as u32 <= 57
}

pub open spec fn digit_val(c: char) -> int {
    c as u32 - 48
}

/// The first position at or after `i` that does not hold a digit.
pub open spec fn digits_end(s: Seq<char>, i: int) -> int
    decreases s.len() - i,
{
    if 0 <= i && i < s.len() && is_digit(s[i]) {
        digits_end(s, i + 1)
    } else {
        i
    }
}

/// The value of the digit run from `i` (inclusive) to `j` (exclusive).
pub open spec fn digits_val(s: Seq<char>, i: int, j: int) -> int
    decreases j - i,
{
    if j <= i {
        0
    } else {
        digits_val(s, i, j - 1) * 10 + digit_val(s[j - 1])
    }
}

pub open spec fn pow10(k: int) -> int
    decreases k,
{
    if k <= 0 {
        1
    } else {
        10 * pow10(k - 1)
    }
}

/// Parses an unsigned decimal integer at `i`: at least one digit, no
/// leading zero, and at most 19 digits (every value of the service's
/// numeric fields fits in that).
pub open spec fn sp_uint(s: Seq<char>, i: int) -> Option<(int, int)> {
    let j = digits_end(s, i);
    if j == i {
        None
    } else if s[i] == '0' && j > i + 1 {
        None
    } else if j - i > 19 {
        None
    } else {
        Some((digits_val(s, i, j), j))
    }
}

/// Parses a decimal integer at `i`, with an optional leading minus sign.
pub open spec fn sp_int(s: Seq<char>, i: int) -> Option<(int, int)> {
    if 0 <= i && i < s.len() && s[i] == '-' {
        match sp_uint(s, i + 1) {
            Some((v, j)) => Some((-v, j)),
            None => None,
        }
    } else {
        sp_uint(s, i)
    }
}

proof fn lemma_digits_end_ge(s: Seq<char>, i: int)
    ensures
        digits_end(s, i) >= i,
    decreases s.len() - i,
{
    if 0 <= i && i < s.len() && is_digit(s[i]) {
        lemma_digits_end_ge(s, i + 1);
    }
}

proof fn lemma_pow10_pos(k: int)
    ensures
        pow10(k) >= 1,
    decreases k,
{
    if k > 0 {
        lemma_pow10_pos(k - 1);
    }
}

proof fn lemma_pow10_mono(a: int, b: int)
    requires
        a <= b,
    ensures
        pow10(a) <= pow10(b),
    decreases b - a,
{
    if a < b {
        lemma_pow10_mono(a, b - 1);
        lemma_pow10_pos(b - 1);
    }
}

proof fn lemma_pow10_19()
    ensures
        pow10(19) == 10000000000000000000,
{
    reveal_with_fuel(pow10, 21);
}

/// Parses a decimal integer at `i` into an i64: the digits of `sp_int`,
/// rejected when the value does not fit.
pub fn parse_i64(s: &str, i: usize) -> (r: Option<(i64, usize)>)
    requires
        i <= s@.len(),
    ensures
        r matches Some(p) ==> (sp_int(s@, i as int) matches Some(t) && p.0 as int == t.0 && p.1
            as int == t.1 && i < p.1 && p.1 <= s@.len()),
        r is None ==> (sp_int(s@, i as int) is None || (sp_int(s@, i as int) matches Some(t) && (
        t.0 < i64::MIN as int || t.0 > i64::MAX as int))),
{
    let n = s.unicode_len();
    let mut neg = false;
    if i < n {
        if s.get_char(i) == '-' {
            neg = true;
        }
    }
    let start: usize = if neg {
        i + 1
    } else {
        i
    };
    if start > n {
        return None;
    }
    let mut j: usize = start;
    let mut acc: u64 = 0;
    loop
        invariant
            i <= s@.len(),
            n == s@.len(),
            start <= j <= n,
            neg ==> i < n && s@[i as int] == '-' && start == i + 1,
            !neg ==> start == i && (i >= n || s@[i as int] != '-'),
            digits_end(s@, start as int) == digits_end(s@, j as int),
            acc as int == digits_val(s@, start as int, j as int),
            j - start <= 19,
            acc < pow10((j - start) as int),
        ensures
            start <= j <= n,
            n == s@.len(),
            neg ==> i < n && s@[i as int] == '-' && start == i + 1,
            !neg ==> start == i && (i >= n || s@[i as int] != '-'),
            acc as int == digits_val(s@, start as int, j as int),
            j - start <= 19,
            acc < pow10((j - start) as int),
            digits_end(s@, start as int) == j as int,
        decreases s@.len() - j,
    {
        if j >= n {
            proof {
                assert(digits_end(s@, j as int) == j as int);
            }
            break ;
        }
        let c = s.get_char(j);
        let u = c as u32;
        if !(48 <= u && u <= 57) {
            proof {
                assert(!is_digit(s@[j as int]));
                assert(digits_end(s@, j as int) == j as int);
            }
            break ;
        }
        if j - start == 19 {
            proof {
                assert(is_digit(s@[j as int]));
                assert(digits_end(s@, j as int) == digits_end(s@, j + 1));
                lemma_digits_end_ge(s@, j + 1);
                assert(digits_end(s@, start as int) - start > 19);
                assert(sp_uint(s@, start as int) is None);
                assert(sp_int(s@, i as int) is None);
            }
            return None;
        }
        proof {
            lemma_pow10_mono((j - start) as int, 18);
            lemma_pow10_19();
            assert(acc * 10 + 9 < pow10((j - start) as int) * 10) by (nonlinear_arith)
                requires
                    acc < pow10((j - start) as int),
                    pow10((j - start) as int) >= 1,
            {
                lemma_pow10_pos((j - start) as int);
            }
            assert(pow10((j + 1 - start) as int) == 10 * pow10((j - start) as int));
            lemma_pow10_mono((j + 1 - start) as int, 19);
        }
        acc = acc * 10 + ((u - 48) as u64);
        j = j + 1;
    }
    if j == start {
        proof {
            assert(sp_uint(s@, start as int) is None);
        }
        return None;
    }
    if s.get_char(start) == '0' && j > start + 1 {
        proof {
            assert(sp_uint(s@, start as int) is None);
        }
        return None;
    }
    proof {
        assert(sp_uint(s@, start as int) == Some((acc as int, j as int)));
    }
    if neg {
        if acc > 9223372036854775808u64 {
            return None;
        }
        if acc == 9223372036854775808u64 {
            Some((i64::MIN, j))
        } else {
            Some((-(acc as i64), j))
        }
    } else {
        if acc > 9223372036854775807u64 {
            return None;
        }
        Some((acc as i64, j))
    }
}

// ---------------------------------------------------------------------------
// Literal words: true, false, null
// ---------------------------------------------------------------------------

/// Whether the text holds `lit` starting at position `i`.
pub open spec fn at_lit(s: Seq<char>, i: int, lit: Seq<char>) -> bool {
    0 <= i && i + lit.len() <= s.len() && s.subrange(i, i + lit.len()) == lit
}

pub open spec fn sp_bool(s: Seq<char>, i: int) -> Option<(bool, int)> {
    if at_lit(s, i, seq!['t', 'r', 'u', 'e']) {
        Some((true, i + 4))
    } else if at_lit(s, i, seq!['f', 'a', 'l', 's', 'e']) {
        Some((false, i + 5))
    } else {
        None
    }
}

pub open spec fn sp_null(s: Seq<char>, i: int) -> Option<int> {
    if at_lit(s, i, seq!['n', 'u', 'l', 'l']) {
        Some(i + 4)
    } else {
        None
    }
}

/// Whether the text holds the given word starting at `i`.
pub fn at_text(s: &str, i: usize, lit: &str) -> (r: bool)
    requires
        i <= s@.len(),
    ensures
        r == at_lit(s@, i as int, lit@),
{
    let n = s.unicode_len();
    let m = lit.unicode_len();
    if n - i < m {
        return false;
    }
    let mut k: usize = 0;
    while k < m
        invariant
            k <= m,
            m == lit@.len(),
            n == s@.len(),
            i + m <= n,
            forall|t: int| 0 <= t < k ==> s@[i + t] == lit@[t],
        decreases m - k,
    {
        if s.get_char(i + k) != lit.get_char(k) {
            proof {
                assert(s@.subrange(i as int, i + m) != lit@) by {
                    assert(s@.subrange(i as int, i + m)[k as int] == s@[i + k]);
                }
            }
            return false;
        }
        k = k + 1;
    }
    proof {
        assert(s@.subrange(i as int, i + m) =~= lit@);
    }
    true
}

/// Whether two texts are equal.
pub fn str_eq(a: &str, b: &str) -> (r: bool)
    ensures
        r == (a@ == b@),
{
    let na = a.unicode_len();
    let nb = b.unicode_len();
    if na != nb {
        return false;
    }
    let r = at_text(a, 0, b);
    proof {
        if at_lit(a@, 0, b@) {
            assert(a@.subrange(0, nb as int) =~= a@);
        } else {
            if a@ == b@ {
                assert(a@.subrange(0, nb as int) =~= b@);
            }
        }
    }
    r
}

pub fn parse_bool(s: &str, i: usize) -> (r: Option<(bool, usize)>)
    requires
        i <= s@.len(),
    ensures
        r matches Some(p) ==> (sp_bool(s@, i as int) matches Some(t) && p.0 == t.0 && p.1 as int
            == t.1 && i < p.1 && p.1 <= s@.len()),
        r is None ==> sp_bool(s@, i as int) is None,
{
    proof {
        reveal_strlit("true");
        reveal_strlit("false");
        assert("true"@ =~= seq!['t', 'r', 'u', 'e']);
        assert("false"@ =~= seq!['f', 'a', 'l', 's', 'e']);
    }
    let n = s.unicode_len();
    if at_text(s, i, "true") {
        Some((true, i + 4))
    } else if at_text(s, i, "false") {
        Some((false, i + 5))
    } else {
        None
    }
}

pub fn parse_null(s: &str, i: usize) -> (r: Option<usize>)
    requires
        i <= s@.len(),
    ensures
        r matches Some(j) ==> (sp_null(s@, i as int) == Some(j as int) && i < j && j <= s@.len()),
        r is None ==> sp_null(s@, i as int) is None,
{
    proof {
        reveal_strlit("null");
        assert("null"@ =~= seq!['n', 'u', 'l', 'l']);
    }
    let n = s.unicode_len();
    if at_text(s, i, "null") {
        Some(i + 4)
    } else {
        None
    }
}

// ---------------------------------------------------------------------------
// Object members
// ---------------------------------------------------------------------------

/// Parses one member's key and colon, returning the key and the position
/// where the value starts.
pub open spec fn sp_member_key(s: Seq<char>, i: int) -> Option<(Seq<char>, int)> {
    let i1 = sp_ws(s, i);
    match sp_quoted(s, i1) {
        None => None,
        Some((key, i2)) => {
            let i3 = sp_ws(s, i2);
            if 0 <= i3 && i3 < s.len() && s[i3] == ':' {
                Some((key, sp_ws(s, i3 + 1)))
            } else {
                None
            }
        },
    }
}

/// What follows a member's value: a comma (more members) or a closing
/// brace (end of the object).
pub open spec fn sp_member_end(s: Seq<char>, i: int) -> Option<(bool, int)> {
    let j = sp_ws(s, i);
    if 0 <= j && j < s.len() && s[j] == ',' {
        Some((true, j + 1))
    } else if 0 <= j && j < s.len() && s[j] == '}' {
        Some((false, j + 1))
    } else {
        None
    }
}

pub fn parse_member_key(s: &str, i: usize) -> (r: Option<(String, usize)>)
    requires
        i <= s@.len(),
    ensures
        r matches Some(p) ==> (sp_member_key(s@, i as int) matches Some(t) && p.0@ == t.0 && p.1
            as int == t.1 && i < p.1 && p.1 <= s@.len()),
        r is None ==> sp_member_key(s@, i as int) is None,
{
    let i1 = skip_ws(s, i);
    match parse_quoted(s, i1) {
        None => None,
        Some((key, i2)) => {
            let i3 = skip_ws(s, i2);
            let n = s.unicode_len();
            if i3 < n {
                if s.get_char(i3) == ':' {
                    let i4 = skip_ws(s, i3 + 1);
                    return Some((key, i4));
                }
            }
            None
        },
    }
}

pub fn parse_member_end(s: &str, i: usize) -> (r: Option<(bool, usize)>)
    requires
        i <= s@.len(),
    ensures
        r matches Some(p) ==> (sp_member_end(s@, i as int) == Some((p.0, p.1 as int)) && i < p.1
            && p.1 <= s@.len()),
        r is None ==> sp_member_end(s@, i as int) is None,
{
    let j = skip_ws(s, i);
    let n = s.unicode_len();
    if j < n {
        let c = s.get_char(j);
        if c == ',' {
            return Some((true, j + 1));
        }
        if c == '}' {
            return Some((false, j + 1));
        }
    }
    None
}

// ---------------------------------------------------------------------------
// Skipping the value of an unrecognized member
// ---------------------------------------------------------------------------

/// The end of an optional fraction part at `j`.
pub open spec fn sp_skip_frac(s: Seq<char>, j: int) -> Option<int> {
    if 0 <= j && j < s.len() && s[j] == '.' {
        let j2 = digits_end(s, j + 1);
        if j2 == j + 1 {
            None
        } else {
            Some(j2)
        }
    } else {
        Some(j)
    }
}

/// The end of an optional exponent part at `j`.
pub open spec fn sp_skip_exp(s: Seq<char>, j: int) -> Option<int> {
    if 0 <= j && j < s.len() && (s[j] == 'e' || s[j] == 'E') {
        let j1 = if j + 1 < s.len() && (s[j + 1] == '+' || s[j + 1] == '-') {
            j + 2
        } else {
            j + 1
        };
        let j2 = digits_end(s, j1);
        if j2 == j1 {
            None
        } else {
            Some(j2)
        }
    } else {
        Some(j)
    }
}

/// The end of a lexically well-formed JSON number at `i`: an optional
/// sign, an integer part without a leading zero, and optional fraction
/// and exponent parts.  Nothing is computed from it.
pub open spec fn sp_skip_number(s: Seq<char>, i: int) -> Option<int> {
    let i1 = if 0 <= i && i < s.len() && s[i] == '-' {
        i + 1
    } else {
        i
    };
    let j = digits_end(s, i1);
    if j == i1 {
        None
    } else if s[i1] == '0' && j > i1 + 1 {
        None
    } else {
        match sp_skip_frac(s, j) {
            None => None,
            Some(j2) => sp_skip_exp(s, j2),
        }
    }
}

/// The end of any well-formed JSON value starting at `i`.  A member
/// whose key a record does not know is skipped with this, whatever
/// value it holds.
pub open spec fn sp_skip_value(s: Seq<char>, i: int) -> Option<int>
    decreases s.len() - i, 0int,
{
    if i < 0 || i >= s.len() {
        None
    } else if s[i] == '"' {
        match sp_quoted(s, i) {
            Some((v, j)) => Some(j),
            None => None,
        }
    } else if s[i] == 't' || s[i] == 'f' {
        match sp_bool(s, i) {
            Some((b, j)) => Some(j),
            None => None,
        }
    } else if s[i] == 'n' {
        sp_null(s, i)
    } else if s[i] == '{' {
        sp_skip_members(s, i + 1, true)
    } else if s[i] == '[' {
        sp_skip_items(s, i + 1, true)
    } else {
        sp_skip_number(s, i)
    }
}

/// The end of the members of a skipped object, starting just past its
/// opening brace (`first`) or a comma.
pub open spec fn sp_skip_members(s: Seq<char>, i: int, first: bool) -> Option<int>
    decreases s.len() - i, 1int,
{
    let i0 = sp_ws(s, i);
    if first && 0 <= i0 && i0 < s.len() && s[i0] == '}' {
        Some(i0 + 1)
    } else {
        match sp_member_key(s, i) {
            None => None,
            Some((k, i4)) => {
                if i <= i4 && i4 <= s.len() {
                    match sp_skip_value(s, i4) {
                        None => None,
                        Some(i5) => match sp_member_end(s, i5) {
                            None => None,
                            Some((more, i6)) => if more {
                                if i < i6 && i6 <= s.len() {
                                    sp_skip_members(s, i6, false)
                                } else {
                                    None
                                }
                            } else {
                                Some(i6)
                            },
                        },
                    }
                } else {
                    None
                }
            },
        }
    }
}

/// The end of the items of a skipped array, starting just past its
/// opening bracket (`first`) or a comma.
pub open spec fn sp_skip_items(s: Seq<char>, i: int, first: bool) -> Option<int>
    decreases s.len() - i, 1int,
{
    let i0 = sp_ws(s, i);
    if first && 0 <= i0 && i0 < s.len() && s[i0] == ']' {
        Some(i0 + 1)
    } else {
        if i <= i0 && i0 <= s.len() {
            match sp_skip_value(s, i0) {
                None => None,
                Some(j) => {
                    let j2 = sp_ws(s, j);
                    if 0 <= j2 && j2 < s.len() && s[j2] == ',' {
                        if i < j2 + 1 && j2 + 1 <= s.len() {
                            sp_skip_items(s, j2 + 1, false)
                        } else {
                            None
                        }
                    } else if 0 <= j2 && j2 < s.len() && s[j2] == ']' {
                        Some(j2 + 1)
                    } else {
                        None
                    }
                },
            }
        } else {
            None
        }
    }
}

fn digits_end_at(s: &str, i: usize) -> (j: usize)
    requires
        i <= s@.len(),
    ensures
        j as int == digits_end(s@, i as int),
        i <= j,
        j <= s@.len(),
    decreases s@.len() - i,
{
    let n = s.unicode_len();
    if i < n {
        let u = s.get_char(i) as u32;
        if 48 <= u && u <= 57 {
            return digits_end_at(s, i + 1);
        }
    }
    i
}

fn skip_number(s: &str, i: usize) -> (r: Option<usize>)
    requires
        i <= s@.len(),
    ensures
        r matches Some(j) ==> (sp_skip_number(s@, i as int) == Some(j as int) && i < j && j
            <= s@.len()),
        r is None ==> sp_skip_number(s@, i as int) is None,
{
    let n = s.unicode_len();
    let mut i1: usize = i;
    if i < n {
        if s.get_char(i) == '-' {
            i1 = i + 1;
        }
    }
    let j = digits_end_at(s, i1);
    if j == i1 {
        return None;
    }
    if s.get_char(i1) == '0' && j > i1 + 1 {
        return None;
    }
    let mut k: usize = j;
    if k < n {
        if s.get_char(k) == '.' {
            let k2 = digits_end_at(s, k + 1);
            if k2 == k + 1 {
                return None;
            }
            k = k2;
        }
    }
    proof {
        assert(sp_skip_frac(s@, j as int) == Some(k as int));
    }
    if k < n {
        let c = s.get_char(k);
        if c == 'e' || c == 'E' {
            let mut k1: usize = k + 1;
            if k1 < n {
                let c2 = s.get_char(k1);
                if c2 == '+' || c2 == '-' {
                    k1 = k1 + 1;
                }
            }
            let k2 = digits_end_at(s, k1);
            if k2 == k1 {
                return None;
            }
            proof {
                assert(sp_skip_exp(s@, k as int) == Some(k2 as int));
            }
            return Some(k2);
        }
    }
    proof {
        assert(sp_skip_exp(s@, k as int) == Some(k as int));
    }
    Some(k)
}

/// Skips one well-formed JSON value at `i`, returning the position just
/// past it.
pub fn skip_value(s: &str, i: usize) -> (r: Option<usize>)
    requires
        i <= s@.len(),
    ensures
        r matches Some(j) ==> (sp_skip_value(s@, i as int) == Some(j as int) && i < j && j
            <= s@.len()),
        r is None ==> sp_skip_value(s@, i as int) is None,
    decreases s@.len() - i, 0int,
{
    let n = s.unicode_len();
    if i >= n {
        return None;
    }
    let c = s.get_char(i);
    if c == '"' {
        match parse_quoted(s, i) {
            Some((v, j)) => Some(j),
            None => None,
        }
    } else if c == 't' || c == 'f' {
        match parse_bool(s, i) {
            Some((b, j)) => Some(j),
            None => None,
        }
    } else if c == 'n' {
        parse_null(s, i)
    } else if c == '{' {
        skip_members(s, i + 1, true)
    } else if c == '[' {
        skip_items(s, i + 1, true)
    } else {
        skip_number(s, i)
    }
}

fn skip_members(s: &str, i: usize, first: bool) -> (r: Option<usize>)
    requires
        i <= s@.len(),
    ensures
        r matches Some(j) ==> (sp_skip_members(s@, i as int, first) == Some(j as int) && i < j && j
            <= s@.len()),
        r is None ==> sp_skip_members(s@, i as int, first) is None,
    decreases s@.len() - i, 1int,
{
    let i0 = skip_ws(s, i);
    let n = s.unicode_len();
    if first && i0 < n {
        if s.get_char(i0) == '}' {
            return Some(i0 + 1);
        }
    }
    match parse_member_key(s, i) {
        None => None,
        Some((k, i4)) => {
            match skip_value(s, i4) {
                None => None,
                Some(i5) => match parse_member_end(s, i5) {
                    None => None,
                    Some((more, i6)) => {
                        if more {
                            skip_members(s, i6, false)
                        } else {
                            Some(i6)
                        }
                    },
                },
            }
        },
    }
}

fn skip_items(s: &str, i: usize, first: bool) -> (r: Option<usize>)
    requires
        i <= s@.len(),
    ensures
        r matches Some(j) ==> (sp_skip_items(s@, i as int, first) == Some(j as int) && i < j && j
            <= s@.len()),
        r is None ==> sp_skip_items(s@, i as int, first) is None,
    decreases s@.len() - i, 1int,
{
    let i0 = skip_ws(s, i);
    let n = s.unicode_len();
    if first && i0 < n {
        if s.get_char(i0) == ']' {
            return Some(i0 + 1);
        }
    }
    match skip_value(s, i0) {
        None => None,
        Some(j) => {
            let j2 = skip_ws(s, j);
            if j2 < n {
                let c = s.get_char(j2);
                if c == ',' {
                    return skip_items(s, j2 + 1, false);
                }
                if c == ']' {
                    return Some(j2 + 1);
                }
            }
            None
        },
    }
}

// ---------------------------------------------------------------------------
// Canonical-form lemmas: parsing what the writers emit gives the value back
// ---------------------------------------------------------------------------

proof fn lemma_hex_val_lower(n: int)
    requires
        0 <= n < 16,
    ensures
        is_hex(lower_hex(n)),
        hex_val(lower_hex(n)) == n,
{
}

/// Parsing the escape of `v`, from position `k` of `v` on, followed by
/// a closing quote, gives back exactly the characters of `v` from `k`.
proof fn lemma_parse_body_at(s: Seq<char>, i: int, v: Seq<char>, k: int)
    requires
        0 <= k <= v.len(),
        0 <= i,
        i + esc_from(v, k).len() + 1 <= s.len(),
        s.subrange(i, i + esc_from(v, k).len() + 1) == esc_from(v, k) + seq!['"'],
    ensures
        sp_str_body(s, i) matches Some(t) && t.0 == v.skip(k) && t.1 == i + esc_from(v, k).len()
            + 1,
    decreases v.len() - k,
{
    if k == v.len() {
        assert(esc_from(v, k) =~= Seq::<char>::empty());
        assert(s[i] == '"') by {
            assert(s.subrange(i, i + esc_from(v, k).len() + 1)[0] == s[i]);
        }
        assert(v.skip(k) =~= Seq::<char>::empty());
    } else {
        let c = v[k];
        let e = esc_char(c);
        let rest = esc_from(v, k + 1);
        assert(esc_from(v, k) == e + rest);
        let total: int = esc_from(v, k).len() as int;
        let whole = e + rest + seq!['"'];
        assert(esc_from(v, k) + seq!['"'] =~= whole);
        assert(s[i] == whole[0]) by {
            assert(s.subrange(i, i + total + 1)[0] == s[i]);
        }
        if e.len() >= 2 {
            assert(s[i + 1] == whole[1]) by {
                assert(s.subrange(i, i + total + 1)[1] == s[i + 1]);
            }
        }
        if e.len() == 6 {
            assert(s[i + 2] == whole[2]) by {
                assert(s.subrange(i, i + total + 1)[2] == s[i + 2]);
            }
            assert(s[i + 3] == whole[3]) by {
                assert(s.subrange(i, i + total + 1)[3] == s[i + 3]);
            }
            assert(s[i + 4] == whole[4]) by {
                assert(s.subrange(i, i + total + 1)[4] == s[i + 4]);
            }
            assert(s[i + 5] == whole[5]) by {
                assert(s.subrange(i, i + total + 1)[5] == s[i + 5]);
            }
        }
        assert(s.subrange(i + e.len(), i + total + 1) =~= rest + seq!['"']) by {
            assert forall|t: int| 0 <= t < rest.len() + 1 implies s.subrange(
                i + e.len(),
                i + total + 1,
            )[t] == (rest + seq!['"'])[t] by {
                assert(s.subrange(i + e.len(), i + total + 1)[t] == s[i + e.len() + t]);
                assert(whole[e.len() + t] == (rest + seq!['"'])[t]);
            }
        }
        lemma_parse_body_at(s, i + e.len(), v, k + 1);
        assert(seq![c] + v.skip(k + 1) =~= v.skip(k));
        if c == '"' {
            assert(s[i] == '\\' && s[i + 1] == '"');
        } else if c == '\\' {
            assert(s[i] == '\\' && s[i + 1] == '\\');
        } else if c == '\u{8}' || c == '\t' || c == '\n' || c == '\u{c}' || c == '\r' {
            assert(s[i] == '\\');
            assert(esc_short(s[i + 1]) == Some(c));
        } else if (c as u32) < 32 {
            let u = c as u32 as int;
            assert(s[i] == '\\' && s[i + 1] == 'u' && s[i + 2] == '0' && s[i + 3] == '0' && s[i
                + 4] == lower_hex(u / 16) && s[i + 5] == lower_hex(u % 16));
            lemma_hex_val_lower(u / 16);
            lemma_hex_val_lower(u % 16);
            assert(hex_val('0') == 0);
            let code = hex_val(s[i + 2]) * 4096 + hex_val(s[i + 3]) * 256 + hex_val(s[i + 4]) * 16
                + hex_val(s[i + 5]);
            assert(code == u);
            assert(sp_hex4(s, i) == Some(u));
            vstd::utf8::char_u32_cast(c, c as u32);
            assert(((code as u32) as char) == c);
        } else {
            assert(s[i] == c);
            assert(c != '"' && c != '\\' && (c as u32) >= 32);
        }
    }
}

/// Parsing a canonically quoted text at `i` gives back the text.
pub proof fn lemma_parse_quoted_at(s: Seq<char>, i: int, v: Seq<char>)
    requires
        0 <= i,
        i + json_quoted(v).len() <= s.len(),
        s.subrange(i, i + json_quoted(v).len()) == json_quoted(v),
    ensures
        sp_quoted(s, i) matches Some(t) && t.0 == v && t.1 == i + json_quoted(v).len(),
{
    let q = json_quoted(v);
    assert(s[i] == '"') by {
        assert(s.subrange(i, i + q.len())[0] == s[i]);
        assert(q[0] == '"');
    }
    assert(s.subrange(i + 1, i + q.len()) =~= esc_from(v, 0) + seq!['"']) by {
        assert forall|t: int| 0 <= t < q.len() - 1 implies s.subrange(i + 1, i + q.len())[t] == (
        esc_from(v, 0) + seq!['"'])[t] by {
            assert(s.subrange(i + 1, i + q.len())[t] == s[i + 1 + t]);
            assert(q[1 + t] == (esc_from(v, 0) + seq!['"'])[t]);
        }
    }
    lemma_parse_body_at(s, i + 1, v, 0);
    assert(v.skip(0) =~= v);
}

proof fn lemma_dec_of_shape(n: int)
    requires
        n >= 0,
    ensures
        dec_of(n).len() >= 1,
        forall|t: int| 0 <= t < dec_of(n).len() ==> is_digit(#[trigger] dec_of(n)[t]),
        n < 10 ==> dec_of(n).len() == 1,
        dec_of(n)[0] == '0' <==> n == 0,
    decreases n,
{
    if n < 10 {
        assert(dec_of(n) == seq![dec_digit(n)]);
    } else {
        lemma_dec_of_shape(n / 10);
        assert(dec_of(n) == dec_of(n / 10) + seq![dec_digit(n % 10)]);
        assert(dec_of(n)[0] == dec_of(n / 10)[0]);
    }
}

proof fn lemma_dec_of_len(n: int, k: int)
    requires
        0 <= n,
        1 <= k,
        n < pow10(k),
    ensures
        dec_of(n).len() <= k,
    decreases k,
{
    if n < 10 {
    } else {
        assert(pow10(k) == 10 * pow10(k - 1));
        assert(k >= 2) by {
            if k == 1 {
                assert(pow10(1) == 10 * pow10(0));
                assert(pow10(0) == 1);
            }
        }
        lemma_dec_of_len(n / 10, k - 1);
    }
}

proof fn lemma_digits_val_at(s: Seq<char>, i: int, n: int)
    requires
        n >= 0,
        0 <= i,
        i + dec_of(n).len() <= s.len(),
        s.subrange(i, i + dec_of(n).len()) == dec_of(n),
    ensures
        digits_val(s, i, i + dec_of(n).len()) == n,
        forall|t: int| i <= t < i + dec_of(n).len() ==> is_digit(#[trigger] s[t]),
    decreases n,
{
    lemma_dec_of_shape(n);
    let m: int = dec_of(n).len() as int;
    assert forall|t: int| i <= t < i + m implies is_digit(#[trigger] s[t]) by {
        assert(s.subrange(i, i + m)[t - i] == s[t]);
        assert(is_digit(dec_of(n)[t - i]));
    }
    if n < 10 {
        assert(s[i] == dec_digit(n)) by {
            assert(s.subrange(i, i + m)[0] == s[i]);
        }
        assert(digits_val(s, i, i) == 0);
        assert(digits_val(s, i, i + 1) == digit_val(s[i]));
        assert(digit_val(dec_digit(n)) == n);
    } else {
        let p = dec_of(n / 10);
        assert(dec_of(n) == p + seq![dec_digit(n % 10)]);
        assert(s.subrange(i, i + p.len()) =~= p) by {
            assert forall|t: int| 0 <= t < p.len() implies s.subrange(i, i + p.len())[t] == p[t] by {
                assert(s.subrange(i, i + p.len())[t] == s[i + t]);
                assert(dec_of(n)[t] == p[t]);
            }
        }
        lemma_digits_val_at(s, i, n / 10);
        assert(s[i + m - 1] == dec_digit(n % 10)) by {
            assert(s.subrange(i, i + m)[m - 1] == s[i + m - 1]);
            assert(dec_of(n)[m - 1] == dec_digit(n % 10));
        }
        assert(digits_val(s, i, i + m) == digits_val(s, i, i + m - 1) * 10 + digit_val(
            s[i + m - 1],
        ));
        assert(digit_val(dec_digit(n % 10)) == n % 10);
    }
}

proof fn lemma_digits_end_run(s: Seq<char>, i: int, m: int)
    requires
        0 <= i,
        0 <= m,
        i + m <= s.len(),
        forall|t: int| i <= t < i + m ==> is_digit(#[trigger] s[t]),
        i + m == s.len() || !is_digit(s[i + m]),
    ensures
        digits_end(s, i) == i + m,
    decreases m,
{
    if m > 0 {
        lemma_digits_end_run(s, i + 1, m - 1);
    }
}

/// Parsing a canonically written integer at `i` gives back the value,
/// provided the text does not continue with another digit.
pub proof fn lemma_parse_int_at(s: Seq<char>, i: int, n: int)
    requires
        -0x8000000000000000 <= n <= 0x7fffffffffffffff,
        0 <= i,
        i + int_text(n).len() <= s.len(),
        s.subrange(i, i + int_text(n).len()) == int_text(n),
        i + int_text(n).len() == s.len() || !is_digit(s[i + int_text(n).len()]),
    ensures
        sp_int(s, i) == Some((n, i + int_text(n).len())),
{
    lemma_pow10_19();
    if n >= 0 {
        assert(int_text(n) == dec_of(n));
        lemma_digits_val_at(s, i, n);
        lemma_dec_of_len(n, 19);
        lemma_dec_of_shape(n);
        let m: int = dec_of(n).len() as int;
        lemma_digits_end_run(s, i, m);
        assert(s[i] == dec_of(n)[0]) by {
            assert(s.subrange(i, i + m)[0] == s[i]);
        }
        assert(is_digit(s[i]));
        assert(s[i] != '-');
        assert(sp_uint(s, i) == Some((n, i + m)));
    } else {
        let a = -n;
        assert(int_text(n) == seq!['-'] + dec_of(a));
        let m: int = dec_of(a).len() as int;
        assert(s[i] == '-') by {
            assert(s.subrange(i, i + m + 1)[0] == s[i]);
            assert(int_text(n)[0] == '-');
        }
        assert(s.subrange(i + 1, i + 1 + m) =~= dec_of(a)) by {
            assert forall|t: int| 0 <= t < m implies s.subrange(i + 1, i + 1 + m)[t] == dec_of(a)[t]
                by {
                assert(s.subrange(i + 1, i + 1 + m)[t] == s[i + 1 + t]);
                assert(int_text(n)[1 + t] == dec_of(a)[t]);
            }
        }
        lemma_digits_val_at(s, i + 1, a);
        lemma_dec_of_len(a, 19);
        lemma_dec_of_shape(a);
        lemma_digits_end_run(s, i + 1, m);
        assert(s[i + 1] == dec_of(a)[0]) by {
            assert(s.subrange(i + 1, i + 1 + m)[0] == s[i + 1]);
        }
        assert(sp_uint(s, i + 1) == Some((a, i + 1 + m)));
    }
}

/// Parsing a written boolean gives it back.
pub proof fn lemma_parse_bool_at(s: Seq<char>, i: int, b: bool)
    requires
        0 <= i,
        i + bool_text(b).len() <= s.len(),
        s.subrange(i, i + bool_text(b).len()) == bool_text(b),
    ensures
        sp_bool(s, i) == Some((b, i + bool_text(b).len())),
{
    if b {
        assert(at_lit(s, i, seq!['t', 'r', 'u', 'e']));
    } else {
        assert(s[i] == 'f') by {
            assert(s.subrange(i, i + 5)[0] == s[i]);
        }
        assert(!at_lit(s, i, seq!['t', 'r', 'u', 'e'])) by {
            if at_lit(s, i, seq!['t', 'r', 'u', 'e']) {
                assert(s.subrange(i, i + 4)[0] == s[i]);
            }
        }
        assert(at_lit(s, i, seq!['f', 'a', 'l', 's', 'e']));
    }
}

/// The text of a written boolean.
pub open spec fn bool_text(b: bool) -> Seq<char> {
    if b {
        seq!['t', 'r', 'u', 'e']
    } else {
        seq!['f', 'a', 'l', 's', 'e']
    }
}

/// Parsing a written null gives it back.
pub proof fn lemma_parse_null_at(s: Seq<char>, i: int)
    requires
        0 <= i,
        i + 4 <= s.len(),
        s.subrange(i, i + 4) == seq!['n', 'u', 'l', 'l'],
    ensures
        sp_null(s, i) == Some(i + 4),
{
    assert(at_lit(s, i, seq!['n', 'u', 'l', 'l']));
}

} // verus!
