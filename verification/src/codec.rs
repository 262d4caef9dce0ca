//! Bytes and text: hexadecimal, base64 and UTF-8.

use crate::json::hex_digit;
use crate::text::{gives, result_view};
use base64::Engine;
use vstd::prelude::*;
use vstd::string::*;
use vstd::utf8::*;

verus! {

broadcast use vstd::string::group_string_axioms;

// ---------------------------------------------------------------------------------------------
// Hexadecimal
// ---------------------------------------------------------------------------------------------

/// Two lowercase hexadecimal digits for each byte.
pub open spec fn hex_text(bytes: Seq<u8>) -> Seq<char> {
    Seq::new(
        2 * bytes.len(),
        |i: int|
            if i % 2 == 0 {
                hex_digit(bytes[i / 2] as int / 16)
            } else {
                hex_digit(bytes[i / 2] as int % 16)
            },
    )
}

/// Whether `c` is a hexadecimal digit, in either case.
pub open spec fn is_hex_digit(c: char) -> bool {
    '0' <= c <= '9' || 'a' <= c <= 'f' || 'A' <= c <= 'F'
}

/// The value of a hexadecimal digit.
pub open spec fn hex_value(c: char) -> int {
    if '0' <= c <= '9' {
        c as int - '0' as int
    } else if 'a' <= c <= 'f' {
        c as int - 'a' as int + 10
    } else {
        c as int - 'A' as int + 10
    }
}

/// Whether a text is a row of pairs of hexadecimal digits.
pub open spec fn is_hex(s: Seq<char>) -> bool {
    s.len() % 2 == 0 && forall|i: int| 0 <= i < s.len() ==> is_hex_digit(#[trigger] s[i])
}

/// The bytes that a row of pairs of hexadecimal digits stands for.
pub open spec fn hex_bytes(s: Seq<char>) -> Seq<u8> {
    Seq::new(s.len() / 2, |i: int| (16 * hex_value(s[2 * i]) + hex_value(s[2 * i + 1])) as u8)
}

/// The message of `hex::decode` on a text that is not hexadecimal.
pub uninterp spec fn hex_error(s: Seq<char>) -> Seq<char>;

/// `hex::decode`, with the error as its message. The contract claims that it accepts pairs of
/// hexadecimal digits in either case, and names the message on any other text.
#[verifier::external_body]
pub(crate) fn hex_decode(s: &str) -> (r: Result<Vec<u8>, String>)
    ensures
        r is Ok <==> is_hex(s@),
        r matches Ok(bytes) ==> bytes@ == hex_bytes(s@),
        r matches Err(e) ==> e@ == hex_error(s@),
{
    hex::decode(s).map_err(|e| e.to_string())
}

fn nibble(d: u8) -> (r: &'static str)
    requires
        d < 16,
    ensures
        r@ == seq![hex_digit(d as int)],
{
    proof {
        reveal_strlit("0");
        reveal_strlit("1");
        reveal_strlit("2");
        reveal_strlit("3");
        reveal_strlit("4");
        reveal_strlit("5");
        reveal_strlit("6");
        reveal_strlit("7");
        reveal_strlit("8");
        reveal_strlit("9");
        reveal_strlit("a");
        reveal_strlit("b");
        reveal_strlit("c");
        reveal_strlit("d");
        reveal_strlit("e");
        reveal_strlit("f");
    }
    match d {
        0 => "0",
        1 => "1",
        2 => "2",
        3 => "3",
        4 => "4",
        5 => "5",
        6 => "6",
        7 => "7",
        8 => "8",
        9 => "9",
        10 => "a",
        11 => "b",
        12 => "c",
        13 => "d",
        14 => "e",
        _ => "f",
    }
}

/// The bytes in lowercase hexadecimal.
pub fn hex_encode(bytes: &[u8]) -> (r: String)
    ensures
        r@ == hex_text(bytes@),
{
    let mut r = String::new();
    let mut i: usize = 0;
    while i < bytes.len()
        invariant
            0 <= i <= bytes@.len(),
            r@ == hex_text(bytes@.take(i as int)),
        decreases bytes@.len() - i,
    {
        r.append(nibble(bytes[i] / 16));
        r.append(nibble(bytes[i] % 16));
        assert(r@ =~= hex_text(bytes@.take(i + 1)));
        i = i + 1;
    }
    assert(bytes@.take(i as int) =~= bytes@);
    r
}

/// Hexadecimal notation is two characters a byte, all of them lowercase digits, and stands for
/// the bytes that it was made from.
pub proof fn hex_text_reads_back(bytes: Seq<u8>)
    ensures
        hex_text(bytes).len() == 2 * bytes.len(),
        is_hex(hex_text(bytes)),
        forall|i: int|
            0 <= i < 2 * bytes.len() ==> !('A' <= #[trigger] hex_text(bytes)[i] <= 'F'),
        hex_bytes(hex_text(bytes)) == bytes,
{
    let t = hex_text(bytes);
    assert forall|i: int| 0 <= i < 2 * bytes.len() implies is_hex_digit(#[trigger] t[i]) && !('A'
        <= t[i] <= 'F') by {
        lemma_hex_digit(bytes[i / 2] as int / 16);
        lemma_hex_digit(bytes[i / 2] as int % 16);
    }
    assert forall|i: int| 0 <= i < bytes.len() implies #[trigger] hex_bytes(t)[i] == bytes[i] by {
        lemma_hex_digit(bytes[i] as int / 16);
        lemma_hex_digit(bytes[i] as int % 16);
        assert((2 * i) / 2 == i && (2 * i) % 2 == 0);
        assert((2 * i + 1) / 2 == i && (2 * i + 1) % 2 == 1);
    }
    assert(hex_bytes(t) =~= bytes);
}

proof fn lemma_hex_digit(d: int)
    requires
        0 <= d < 16,
    ensures
        is_hex_digit(hex_digit(d)),
        !('A' <= hex_digit(d) <= 'F'),
        hex_value(hex_digit(d)) == d,
{
}

// ---------------------------------------------------------------------------------------------
// Base64
// ---------------------------------------------------------------------------------------------

/// The base64 digit of a number of six bits.
pub open spec fn base64_digit(v: int) -> char
    recommends
        0 <= v < 64,
{
    if v < 26 {
        ('A' as int + v) as char
    } else if v < 52 {
        ('a' as int + v - 26) as char
    } else if v < 62 {
        ('0' as int + v - 52) as char
    } else if v == 62 {
        '+'
    } else {
        '/'
    }
}

/// The character at place `i` of the base64 notation of some bytes. Three bytes make four
/// characters; where bytes are missing from the last three, an equals sign stands for a digit.
pub open spec fn base64_at(bytes: Seq<u8>, i: int) -> char {
    let g = 3 * (i / 4);
    let a = byte_or_zero(bytes, g);
    let b = byte_or_zero(bytes, g + 1);
    let c = byte_or_zero(bytes, g + 2);
    if i % 4 == 0 {
        base64_digit(a / 4)
    } else if i % 4 == 1 {
        base64_digit(a % 4 * 16 + b / 16)
    } else if i % 4 == 2 {
        if g + 1 < bytes.len() {
            base64_digit(b % 16 * 4 + c / 64)
        } else {
            '='
        }
    } else if g + 2 < bytes.len() {
        base64_digit(c % 64)
    } else {
        '='
    }
}

/// A byte, or zero past the end.
pub open spec fn byte_or_zero(bytes: Seq<u8>, i: int) -> int {
    if 0 <= i < bytes.len() {
        bytes[i] as int
    } else {
        0
    }
}

/// The standard base64 notation, with padding, of some bytes.
pub open spec fn base64_text(bytes: Seq<u8>) -> Seq<char> {
    Seq::new(4 * ((bytes.len() + 2) / 3), |i: int| base64_at(bytes, i))
}

/// Whether a character occurs in base64 notation.
pub open spec fn is_base64_char(c: char) -> bool {
    ||| 'A' <= c <= 'Z'
    ||| 'a' <= c <= 'z'
    ||| '0' <= c <= '9'
    ||| c == '+'
    ||| c == '/'
    ||| c == '='
}

/// Base64 notation is made of letters, digits and three signs.
pub proof fn base64_is_made_of_its_characters(bytes: Seq<u8>, i: int)
    requires
        0 <= i < base64_text(bytes).len(),
    ensures
        is_base64_char(base64_text(bytes)[i]),
{
    let g = 3 * (i / 4);
    let a = byte_or_zero(bytes, g);
    let b = byte_or_zero(bytes, g + 1);
    let c = byte_or_zero(bytes, g + 2);
    assert(0 <= a / 4 < 64 && 0 <= a % 4 * 16 + b / 16 < 64);
    assert(0 <= b % 16 * 4 + c / 64 < 64 && 0 <= c % 64 < 64);
}

/// What a text read as standard base64 with padding stands for, or the message of the error.
pub uninterp spec fn base64_bytes(s: Seq<char>) -> Result<Seq<u8>, Seq<char>>;

/// `base64`'s `STANDARD.encode`. The contract claims the standard notation with padding, and that
/// `STANDARD.decode` gives the bytes back from it.
#[verifier::external_body]
pub(crate) fn base64_encode(bytes: &[u8]) -> (r: String)
    ensures
        r@ == base64_text(bytes@),
        gives(base64_bytes(r@), bytes@),
{
    base64::engine::general_purpose::STANDARD.encode(bytes)
}

/// `base64`'s `STANDARD.decode`, with the error as its message. The contract names the outcome.
#[verifier::external_body]
pub(crate) fn base64_decode(s: &str) -> (r: Result<Vec<u8>, String>)
    ensures
        result_view(r) == base64_bytes(s@),
{
    base64::engine::general_purpose::STANDARD.decode(s).map_err(|e| e.to_string())
}

// ---------------------------------------------------------------------------------------------
// UTF-8 and chance
// ---------------------------------------------------------------------------------------------

/// The message of `String::from_utf8` on bytes that are not UTF-8.
pub uninterp spec fn utf8_error(bytes: Seq<u8>) -> Seq<char>;

/// `String::from_utf8`, with the error as its message. The contract claims that it accepts
/// exactly UTF-8, and names the message on any other bytes.
#[verifier::external_body]
pub(crate) fn utf8_decode(bytes: Vec<u8>) -> (r: Result<String, String>)
    ensures
        r is Ok <==> valid_utf8(bytes@),
        r matches Ok(s) ==> s@ == decode_utf8(bytes@),
        r matches Err(e) ==> e@ == utf8_error(bytes@),
{
    String::from_utf8(bytes).map_err(|e| e.to_string())
}

/// `rand::random::<u8>`: any byte.
#[verifier::external_body]
pub(crate) fn random_byte() -> (r: u8)
{
    rand::random::<u8>()
}

/// Thirty-two bytes from the random source.
pub fn random_bytes() -> (r: Vec<u8>)
    ensures
        r@.len() == 32,
{
    let mut r: Vec<u8> = Vec::new();
    while r.len() < 32
        invariant
            r@.len() <= 32,
        decreases 32 - r@.len(),
    {
        r.push(random_byte());
    }
    r
}

} // verus!
