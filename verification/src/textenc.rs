//! Text encodings used on the wire: percent-encoding of email addresses,
//! form-encoding of query-string keys and values, and decimal integer text.
//!
//! Each executable function is proved equal to a spec function that states
//! the encoding byte by byte.

use vstd::prelude::*;
use vstd::utf8::encode_utf8;

verus! {

// ---------------------------------------------------------------------------
// Hex digits
// ---------------------------------------------------------------------------

/// The upper-case hex digit for a value below 16.
pub open spec fn upper_hex(n: int) -> char
    recommends
        0 <= n < 16,
{
    if n < 10 {
        (48 + n) as char
    } else {
        (55 + n) as char
    }
}

/// The lower-case hex digit for a value below 16.
pub open spec fn lower_hex(n: int) -> char
    recommends
        0 <= n < 16,
{
    if n < 10 {
        (48 + n) as char
    } else {
        (87 + n) as char
    }
}

pub fn upper_hex_char(n: u8) -> (c: char)
    requires
        n < 16,
    ensures
        c == upper_hex(n as int),
{
    if n < 10 {
        (48 + n) as char
    } else {
        (55 + n) as char
    }
}

pub fn lower_hex_char(n: u8) -> (c: char)
    requires
        n < 16,
    ensures
        c == lower_hex(n as int),
{
    if n < 10 {
        (48 + n) as char
    } else {
        (87 + n) as char
    }
}

// ---------------------------------------------------------------------------
// Percent-encoding
// ---------------------------------------------------------------------------

/// The three characters `%XY` that stand for one escaped byte.
pub open spec fn pct_byte(b: u8) -> Seq<char> {
    seq!['%', upper_hex(b as int / 16), upper_hex(b as int % 16)]
}

/// ASCII letters and digits.
pub open spec fn is_alnum_byte(b: u8) -> bool {
    (48 <= b && b <= 57) || (65 <= b && b <= 90) || (97 <= b && b <= 122)
}

/// One byte under the encoding that escapes everything but letters and
/// digits.
pub open spec fn pct_enc_byte(b: u8) -> Seq<char> {
    if is_alnum_byte(b) {
        seq![b as char]
    } else {
        pct_byte(b)
    }
}

pub open spec fn pct_from(bs: Seq<u8>, i: int) -> Seq<char>
    decreases bs.len() - i,
{
    if i < 0 || i >= bs.len() {
        Seq::empty()
    } else {
        pct_enc_byte(bs[i]) + pct_from(bs, i + 1)
    }
}

/// Percent-encoding of a text: every UTF-8 byte that is not an ASCII
/// letter or digit becomes `%XY` with upper-case hex digits.
pub open spec fn pct_encoded(s: Seq<char>) -> Seq<char> {
    pct_from(encode_utf8(s), 0)
}

// ---------------------------------------------------------------------------
// Form-encoding (query strings)
// ---------------------------------------------------------------------------

/// Bytes that a query string carries unchanged.
pub open spec fn form_kept_byte(b: u8) -> bool {
    is_alnum_byte(b) || b == 42 || b == 45 || b == 46 || b == 95
}

/// One byte under form-encoding: kept bytes stay, a space becomes `+`,
/// everything else becomes `%XY`.
pub open spec fn form_enc_byte(b: u8) -> Seq<char> {
    if form_kept_byte(b) {
        seq![b as char]
    } else if b == 32 {
        seq!['+']
    } else {
        pct_byte(b)
    }
}

pub open spec fn form_from(bs: Seq<u8>, i: int) -> Seq<char>
    decreases bs.len() - i,
{
    if i < 0 || i >= bs.len() {
        Seq::empty()
    } else {
        form_enc_byte(bs[i]) + form_from(bs, i + 1)
    }
}

/// Form-encoding of a text, byte by byte over its UTF-8 encoding.
pub open spec fn form_encoded(s: Seq<char>) -> Seq<char> {
    form_from(encode_utf8(s), 0)
}

fn push_pct_byte(out: &mut String, b: u8)
    ensures
        final(out)@ == old(out)@ + pct_byte(b),
{
    out.push('%');
    out.push(upper_hex_char(b / 16));
    out.push(upper_hex_char(b % 16));
    proof {
        assert(out@ =~= old(out)@ + pct_byte(b));
    }
}

/// Percent-encodes a text, escaping every byte that is not an ASCII letter
/// or digit.
pub fn percent_encode_all(s: &str) -> (r: String)
    ensures
        r@ == pct_encoded(s@),
{
    let bs: &[u8] = s.as_bytes();
    let mut out = String::new();
    let mut i: usize = 0;
    while i < bs.len()
        invariant
            i <= bs@.len(),
            bs@ == encode_utf8(s@),
            out@ + pct_from(bs@, i as int) == pct_from(bs@, 0),
        decreases bs@.len() - i,
    {
        let b = bs[i];
        if (48 <= b && b <= 57) || (65 <= b && b <= 90) || (97 <= b && b <= 122) {
            out.push(b as char);
        } else {
            push_pct_byte(&mut out, b);
        }
        proof {
            assert(pct_from(bs@, i as int) == pct_enc_byte(bs@[i as int]) + pct_from(bs@, i + 1));
            assert(out@ + pct_from(bs@, i + 1) =~= pct_from(bs@, 0));
        }
        i = i + 1;
    }
    proof {
        assert(pct_from(bs@, i as int) =~= Seq::empty());
        assert(out@ =~= pct_from(bs@, 0));
    }
    out
}

/// Form-encodes a text for use as a query-string key or value.
pub fn form_encode(s: &str) -> (r: String)
    ensures
        r@ == form_encoded(s@),
{
    let bs: &[u8] = s.as_bytes();
    let mut out = String::new();
    let mut i: usize = 0;
    while i < bs.len()
        invariant
            i <= bs@.len(),
            bs@ == encode_utf8(s@),
            out@ + form_from(bs@, i as int) == form_from(bs@, 0),
        decreases bs@.len() - i,
    {
        let b = bs[i];
        if (48 <= b && b <= 57) || (65 <= b && b <= 90) || (97 <= b && b <= 122) || b == 42 || b
            == 45 || b == 46 || b == 95 {
            out.push(b as char);
        } else if b == 32 {
            out.push('+');
        } else {
            push_pct_byte(&mut out, b);
        }
        proof {
            assert(form_from(bs@, i as int) == form_enc_byte(bs@[i as int]) + form_from(
                bs@,
                i + 1,
            ));
            assert(out@ + form_from(bs@, i + 1) =~= form_from(bs@, 0));
        }
        i = i + 1;
    }
    proof {
        assert(form_from(bs@, i as int) =~= Seq::empty());
        assert(out@ =~= form_from(bs@, 0));
    }
    out
}

// ---------------------------------------------------------------------------
// Decimal integer text
// ---------------------------------------------------------------------------

/// The decimal digit character for a value below 10.
pub open spec fn dec_digit(n: int) -> char
    recommends
        0 <= n < 10,
{
    (48 + n) as char
}

/// The decimal digit text of a non-negative number, most significant
/// digit first, without leading zeros.
pub open spec fn dec_of(n: int) -> Seq<char>
    recommends
        n >= 0,
    decreases n,
{
    if n < 10 {
        seq![dec_digit(n)]
    } else {
        dec_of(n / 10) + seq![dec_digit(n % 10)]
    }
}

/// The decimal text of an integer, with a leading minus sign when it is
/// negative.
pub open spec fn int_text(n: int) -> Seq<char> {
    if n < 0 {
        seq!['-'] + dec_of(-n)
    } else {
        dec_of(n)
    }
}

fn push_dec_u64(out: &mut String, m: u64)
    ensures
        final(out)@ == old(out)@ + dec_of(m as int),
    decreases m,
{
    if m < 10 {
        out.push(((48 + m) as u8) as char);
        proof {
            assert(out@ =~= old(out)@ + dec_of(m as int));
        }
    } else {
        push_dec_u64(out, m / 10);
        out.push(((48 + m % 10) as u8) as char);
        proof {
            assert(out@ =~= old(out)@ + dec_of(m as int));
        }
    }
}

/// Writes the decimal text of a signed number onto the end of a string.
pub fn push_dec_i64(out: &mut String, n: i64)
    ensures
        final(out)@ == old(out)@ + int_text(n as int),
{
    if n < 0 {
        out.push('-');
        let m: u64 = if n == i64::MIN {
            9223372036854775808u64
        } else {
            (-n) as u64
        };
        proof {
            assert(m as int == -(n as int));
        }
        push_dec_u64(out, m);
        proof {
            assert(out@ =~= old(out)@ + int_text(n as int));
        }
    } else {
        push_dec_u64(out, n as u64);
    }
}

} // verus!
