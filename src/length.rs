//! The Length Receiver: the byte count of the payload, announced as decimal
//! text on the first connection.
use vstd::prelude::*;
use vstd::utf8::{decode_utf8, encode_utf8, encode_utf8_decode_utf8, encode_utf8_valid_utf8, valid_utf8};
use crate::text::{
    decimal_text, decode_text, digit_char, digits_value, all_digits, is_digit, is_white_space,
    parse_size, size_value, trim_end, trim_start, trim_text, trimmed, unsigned_digits,
};

verus! {

/// The most bytes that are read from the first connection.
pub const LENGTH_CHUNK: usize = 32;

/// Why an announced length was refused.
pub enum LengthError {
    /// The bytes are not valid UTF-8 text.
    Encoding,
    /// The trimmed text, which is no unsigned decimal number that fits.
    Parse(String),
}

/// What a chunk of bytes announces, as a value of the model.
pub ghost enum Announced {
    Size(usize),
    NotText,
    NotNumber(Seq<char>),
}

/// The length that `text` announces, or the trimmed text that it is not.
pub open spec fn announced_in_text(text: Seq<char>) -> Announced {
    match size_value(trimmed(text)) {
        Some(n) => Announced::Size(n),
        None => Announced::NotNumber(trimmed(text)),
    }
}

/// The length that the bytes `b` announce.
pub open spec fn announced(b: Seq<u8>) -> Announced {
    if valid_utf8(b) {
        announced_in_text(decode_utf8(b))
    } else {
        Announced::NotText
    }
}

/// A result of the receiver agrees with a value of the model.
pub open spec fn agrees(r: Result<usize, LengthError>, a: Announced) -> bool {
    match r {
        Ok(n) => a == Announced::Size(n),
        Err(LengthError::Encoding) => a == Announced::NotText,
        Err(LengthError::Parse(t)) => a == Announced::NotNumber(t@),
    }
}

/// Reads the announced length from text: white space around it is dropped,
/// the rest must be an unsigned decimal number that fits in `usize`.
pub fn parse_announced_length(text: &str) -> (r: Result<usize, LengthError>)
    ensures
        agrees(r, announced_in_text(text@)),
{
    let t = trim_text(text);
    match parse_size(t) {
        Some(n) => Ok(n),
        None => Err(LengthError::Parse(t.to_string())),
    }
}

/// Reads the announced length from the bytes of one read on the first
/// connection.
pub fn announced_length(chunk: &[u8]) -> (r: Result<usize, LengthError>)
    ensures
        agrees(r, announced(chunk@)),
{
    match decode_text(chunk) {
        Some(text) => parse_announced_length(text),
        None => Err(LengthError::Encoding),
    }
}

proof fn lemma_trim_start_prefix(w: Seq<char>, t: Seq<char>)
    requires
        forall|i: int| 0 <= i < w.len() ==> is_white_space(#[trigger] w[i]),
        t.len() > 0,
        !is_white_space(t[0]),
    ensures
        trim_start(w + t) == t,
    decreases w.len(),
{
    if w.len() == 0 {
        assert(w + t =~= t);
    } else {
        assert((w + t).drop_first() =~= w.drop_first() + t);
        lemma_trim_start_prefix(w.drop_first(), t);
    }
}

proof fn lemma_trim_end_suffix(t: Seq<char>, w: Seq<char>)
    requires
        forall|i: int| 0 <= i < w.len() ==> is_white_space(#[trigger] w[i]),
        t.len() > 0,
        !is_white_space(t.last()),
    ensures
        trim_end(t + w) == t,
    decreases w.len(),
{
    if w.len() == 0 {
        assert(t + w =~= t);
    } else {
        assert((t + w).drop_last() =~= t + w.drop_last());
        lemma_trim_end_suffix(t, w.drop_last());
    }
}

proof fn lemma_digit_char(d: nat)
    requires
        d < 10,
    ensures
        is_digit(digit_char(d)),
        digit_char(d) as int - '0' as int == d,
{
}

proof fn lemma_decimal_text(n: nat)
    ensures
        decimal_text(n).len() > 0,
        all_digits(decimal_text(n)),
        digits_value(decimal_text(n)) == n,
    decreases n,
{
    lemma_digit_char(n % 10);
    if n < 10 {
        lemma_digit_char(n);
        let s = decimal_text(n);
        assert(s.drop_last() =~= Seq::<char>::empty());
        assert(digits_value(s.drop_last()) == 0);
        assert(s.last() == digit_char(n));
    } else {
        lemma_decimal_text(n / 10);
        assert(n == (n / 10) * 10 + n % 10);
        let s = decimal_text(n);
        assert(s.drop_last() =~= decimal_text(n / 10));
        assert(s.last() == digit_char(n % 10));
        assert(digits_value(s) == digits_value(decimal_text(n / 10)) * 10 + n % 10);
        assert forall|i: int| 0 <= i < s.len() implies is_digit(#[trigger] s[i]) by {
            if i < s.len() - 1 {
                assert(s[i] == decimal_text(n / 10)[i]);
            }
        }
    }
}

/// Any `usize` written in decimal, with any white space around it, is read
/// back as that number.
pub proof fn lemma_length_text_round_trip(n: usize, before: Seq<char>, after: Seq<char>)
    requires
        forall|i: int| 0 <= i < before.len() ==> is_white_space(#[trigger] before[i]),
        forall|i: int| 0 <= i < after.len() ==> is_white_space(#[trigger] after[i]),
    ensures
        announced_in_text(before + decimal_text(n as nat) + after) == Announced::Size(n),
{
    let d = decimal_text(n as nat);
    lemma_decimal_text(n as nat);
    assert(is_digit(d[0]) && is_digit(d.last()));
    assert(before + d + after =~= before + (d + after));
    lemma_trim_start_prefix(before, d + after);
    lemma_trim_end_suffix(d, after);
    assert(unsigned_digits(d) == d);
}

/// The UTF-8 bytes of any `usize` written in decimal, with any white space
/// around it, announce that number.
pub proof fn lemma_length_bytes_round_trip(n: usize, before: Seq<char>, after: Seq<char>)
    requires
        forall|i: int| 0 <= i < before.len() ==> is_white_space(#[trigger] before[i]),
        forall|i: int| 0 <= i < after.len() ==> is_white_space(#[trigger] after[i]),
    ensures
        announced(encode_utf8(before + decimal_text(n as nat) + after)) == Announced::Size(n),
{
    let t = before + decimal_text(n as nat) + after;
    encode_utf8_valid_utf8(t);
    encode_utf8_decode_utf8(t);
    lemma_length_text_round_trip(n, before, after);
}

/// Text that is empty once trimmed, or that holds a character that is neither
/// a digit nor `+` (a `-`, say), announces no length.
pub proof fn lemma_not_a_length(text: Seq<char>, i: int)
    requires
        trimmed(text).len() == 0 || (0 <= i < trimmed(text).len() && !is_digit(trimmed(text)[i])
            && trimmed(text)[i] != '+'),
    ensures
        announced_in_text(text) == Announced::NotNumber(trimmed(text)),
{
    let t = trimmed(text);
    let d = unsigned_digits(t);
    if t.len() > 0 && t[0] == '+' {
        if i > 0 {
            assert(d[i - 1] == t[i]);
        }
    }
}

} // verus!
