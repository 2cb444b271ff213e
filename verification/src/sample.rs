//! Helpers of `kqr sample`: rendering binary keys and values.

use vstd::prelude::*;

use crate::text::push_char;
use vstd::utf8::{decode_utf8, valid_utf8};

verus! {

/// The lowercase hexadecimal digit of `n` (below 16).
pub open spec fn hex_digit(n: int) -> char {
    if n < 10 {
        (48 + n) as char
    } else {
        (87 + n) as char
    }
}

/// Lowercase hex of `b`, two digits per byte, high nibble first.
pub open spec fn hex_spec(b: Seq<u8>) -> Seq<char>
    decreases b.len(),
{
    if b.len() == 0 {
        Seq::empty()
    } else {
        hex_spec(b.drop_last()) + seq![hex_digit((b.last() / 16) as int), hex_digit((b.last() % 16) as int)]
    }
}

/// The digit of a nibble.
fn hex_char(n: u8) -> (c: char)
    requires
        n < 16,
    ensures
        c == hex_digit(n as int),
{
    match n {
        0 => '0',
        1 => '1',
        2 => '2',
        3 => '3',
        4 => '4',
        5 => '5',
        6 => '6',
        7 => '7',
        8 => '8',
        9 => '9',
        10 => 'a',
        11 => 'b',
        12 => 'c',
        13 => 'd',
        14 => 'e',
        _ => 'f',
    }
}

/// Lowercase hex of `bytes`, two characters per byte.
pub fn hex_encode(bytes: &[u8]) -> (s: String)
    ensures
        s@ == hex_spec(bytes@),
        s@.len() == 2 * bytes@.len(),
{
    let mut s = String::new();
    let mut i: usize = 0;
    while i < bytes.len()
        invariant
            i <= bytes@.len(),
            s@ == hex_spec(bytes@.take(i as int)),
            s@.len() == 2 * i,
        decreases bytes@.len() - i,
    {
        let b = bytes[i];
        assert(bytes@.take(i + 1).drop_last() =~= bytes@.take(i as int));
        push_char(&mut s, hex_char(b / 16));
        push_char(&mut s, hex_char(b % 16));
        assert(s@ =~= hex_spec(bytes@.take(i as int)) + seq![
            hex_digit((b / 16) as int),
            hex_digit((b % 16) as int),
        ]);
        i = i + 1;
    }
    assert(bytes@.take(bytes@.len() as int) =~= bytes@);
    s
}

/// Calls `std::str::from_utf8` and copies the text out. Claimed: it
/// succeeds exactly on valid UTF-8, and the text is what the bytes encode.
#[verifier::external_body]
fn utf8_text(bytes: &[u8]) -> (r: Option<String>)
    ensures
        r is Some <==> valid_utf8(bytes@),
        r matches Some(s) ==> s@ == decode_utf8(bytes@),
{
    match std::str::from_utf8(bytes) {
        Ok(s) => Some(s.to_owned()),
        Err(_) => None,
    }
}

/// How `kqr sample` shows a key or a value.
#[derive(Debug, Clone, PartialEq, Eq)]
pub enum PayloadText {
    /// The bytes are UTF-8: shown as text.
    Text(String),
    /// They are not: shown as lowercase hex (`key_hex` / `value_hex`).
    Hex(String),
}

/// Text for valid UTF-8, hex for anything else.
pub fn payload_text(bytes: &[u8]) -> (r: PayloadText)
    ensures
        valid_utf8(bytes@) ==> (r matches PayloadText::Text(s) && s@ == decode_utf8(bytes@)),
        !valid_utf8(bytes@) ==> (r matches PayloadText::Hex(h) && h@ == hex_spec(bytes@)),
{
    match utf8_text(bytes) {
        Some(s) => PayloadText::Text(s),
        None => PayloadText::Hex(hex_encode(bytes)),
    }
}

} // verus!
