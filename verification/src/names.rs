//! Sanitising topic names into SQL identifiers and path segments.

use vstd::prelude::*;

use crate::text::{chars_of, is_whitespace, push_char, unicode_whitespace};
use vstd::string::StringSliceAdditionalSpecFns;
use vstd::utf8::{
    char_is_scalar, char_u32_cast, encode_scalar, encode_utf8, has_width_2_encoding, has_width_3_encoding,
    is_ascii_chars, is_ascii_chars_encode_utf8,
};

verus! {

/// `c` is an ASCII letter.
pub open spec fn ascii_alpha(c: char) -> bool {
    ('a' <= c && c <= 'z') || ('A' <= c && c <= 'Z')
}

/// `c` is an ASCII digit.
pub open spec fn ascii_digit(c: char) -> bool {
    '0' <= c && c <= '9'
}

/// `c` is an ASCII letter or digit.
pub open spec fn ascii_alnum(c: char) -> bool {
    ascii_alpha(c) || ascii_digit(c)
}

/// `c` may stand inside an SQL identifier.
pub open spec fn ident_char(c: char) -> bool {
    ascii_alnum(c) || c == '_'
}

/// `c` may start an SQL identifier.
pub open spec fn ident_start(c: char) -> bool {
    ascii_alpha(c) || c == '_'
}

/// `s` is a plain SQL identifier: a letter or `_`, then letters, digits and `_`.
pub open spec fn is_sql_ident(s: Seq<char>) -> bool {
    &&& s.len() > 0
    &&& ident_start(s[0])
    &&& forall|i: int| 1 <= i < s.len() ==> #[trigger] ident_char(s[i])
}

/// The byte `b` is an ASCII letter.
pub open spec fn byte_alpha(b: u8) -> bool {
    (97 <= b && b <= 122) || (65 <= b && b <= 90)
}

/// The byte `b` is an ASCII letter or digit.
pub open spec fn byte_alnum(b: u8) -> bool {
    byte_alpha(b) || (48 <= b && b <= 57)
}

/// The byte `b` may stand inside an SQL identifier: `[A-Za-z0-9_]`.
pub open spec fn byte_ident(b: u8) -> bool {
    byte_alnum(b) || b == 95
}

/// The byte `b` may start an SQL identifier: `[A-Za-z_]`.
pub open spec fn byte_start(b: u8) -> bool {
    byte_alpha(b) || b == 95
}

/// The UTF-8 bytes `s` spell a plain SQL identifier.
pub open spec fn is_sql_ident_bytes(s: Seq<u8>) -> bool {
    &&& s.len() > 0
    &&& byte_start(s[0])
    &&& forall|i: int| 1 <= i < s.len() ==> #[trigger] byte_ident(s[i])
}

/// Each byte kept if it may stand in an identifier, else `_`.
pub open spec fn sanitize_rest(s: Seq<u8>) -> Seq<char> {
    s.map_values(|b: u8| if byte_ident(b) { b as char } else { '_' })
}

/// The identifier made of a topic name's UTF-8 bytes: an invalid first byte
/// becomes `_` (a leading digit is kept behind the `_`), every later byte
/// outside `[A-Za-z0-9_]` becomes `_` (so a two-byte character gives two),
/// and an empty name becomes `_`.
pub open spec fn sql_name_spec(s: Seq<u8>) -> Seq<char> {
    if s.len() == 0 {
        seq!['_']
    } else {
        let b = s[0];
        let head = if byte_start(b) {
            seq![b as char]
        } else if byte_alnum(b) {
            seq!['_', b as char]
        } else {
            seq!['_']
        };
        head + sanitize_rest(s.drop_first())
    }
}

/// The byte `b` is an ASCII letter.
fn is_byte_alpha(b: u8) -> (r: bool)
    ensures
        r == byte_alpha(b),
{
    (97 <= b && b <= 122) || (65 <= b && b <= 90)
}

/// The byte `b` is an ASCII letter or digit.
fn is_byte_alnum(b: u8) -> (r: bool)
    ensures
        r == byte_alnum(b),
{
    is_byte_alpha(b) || (48 <= b && b <= 57)
}

/// Sanitises a Kafka topic name into a valid SQL identifier, byte by byte,
/// with a flag telling whether the name had to be rewritten (callers warn
/// the user).
pub fn sql_table_name(topic: &str) -> (r: (String, bool))
    ensures
        r.0@ == sql_name_spec(topic.spec_bytes()),
        r.1 == !is_sql_ident_bytes(topic.spec_bytes()),
        r.1 <==> r.0@ != topic@,
{
    proof {
        lemma_flag_iff_changed(topic@);
    }
    let s = topic.as_bytes();
    let mut out = String::new();
    let mut changed = false;
    if s.len() > 0 {
        let first = s[0];
        if is_byte_alpha(first) || first == 95 {
            push_char(&mut out, first as char);
        } else {
            push_char(&mut out, '_');
            changed = true;
            if is_byte_alnum(first) {
                push_char(&mut out, first as char);
            }
        }
    }
    let ghost head = out@;
    let mut i: usize = 1;
    while i < s.len()
        invariant
            s@ == topic.spec_bytes(),
            1 <= i,
            s@.len() > 0 ==> i <= s@.len(),
            s@.len() == 0 ==> out@.len() == 0 && !changed,
            s@.len() > 0 ==> out@ == head + sanitize_rest(s@.subrange(1, i as int)),
            s@.len() > 0 ==> (changed <==> (!byte_start(s@[0]) || exists|k: int|
                1 <= k < i && !byte_ident(#[trigger] s@[k]))),
        decreases s@.len() - i,
    {
        let b = s[i];
        if is_byte_alnum(b) || b == 95 {
            push_char(&mut out, b as char);
        } else {
            push_char(&mut out, '_');
            changed = true;
        }
        assert(sanitize_rest(s@.subrange(1, i + 1)) =~= sanitize_rest(s@.subrange(1, i as int)).push(
            if byte_ident(b) { b as char } else { '_' },
        ));
        i = i + 1;
    }
    if s.len() == 0 {
        push_char(&mut out, '_');
        changed = true;
        assert(out@ =~= seq!['_']);
    } else {
        assert(s@.subrange(1, s@.len() as int) =~= s@.drop_first());
    }
    (out, changed)
}

/// Bytes below 128 in a UTF-8 encoding come only from ASCII characters.
proof fn lemma_ascii_bytes_ascii_chars(cs: Seq<char>)
    requires
        forall|i: int| 0 <= i < encode_utf8(cs).len() ==> encode_utf8(cs)[i] < 128,
    ensures
        is_ascii_chars(cs),
    decreases cs.len(),
{
    if cs.len() > 0 {
        let v = cs[0] as u32;
        let e = encode_scalar(v);
        let rest = encode_utf8(cs.drop_first());
        assert(encode_utf8(cs) == e + rest);
        char_is_scalar(cs[0]);
        if v >= 0x80 {
            assert(e.len() > 0);
            assert(encode_utf8(cs)[0] == e[0]);
            let b = e[0];
            if has_width_2_encoding(v) {
                let x = ((v >> 6) & 0x1F) as u8;
                assert((0xC0u8 | x) >= 128u8) by (bit_vector);
            } else if has_width_3_encoding(v) {
                let x = ((v >> 12) & 0x0F) as u8;
                assert((0xE0u8 | x) >= 128u8) by (bit_vector);
            } else {
                let x = ((v >> 18) & 0x7) as u8;
                assert((0xF0u8 | x) >= 128u8) by (bit_vector);
            }
            assert(false);
        }
        assert forall|i: int| 0 <= i < rest.len() implies rest[i] < 128 by {
            assert(rest[i] == encode_utf8(cs)[e.len() + i]);
        }
        lemma_ascii_bytes_ascii_chars(cs.drop_first());
        assert forall|i: int| 0 <= i < cs.len() implies '\0' <= #[trigger] cs[i] <= '\u{7f}' by {
            if i > 0 {
                assert(cs[i] == cs.drop_first()[i - 1]);
                assert('\0' <= cs.drop_first()[i - 1] <= '\u{7f}');
            } else {
                let c = cs[0];
                let u = c as u32;
                char_u32_cast(c, u);
                assert(u < 0x80);
                assert((u as char) == c);
                assert((u as char) <= '\u{7f}');
                assert(c <= '\u{7f}');
            }
        }
    }
}

/// For ASCII characters the UTF-8 bytes are the characters themselves.
proof fn lemma_ascii_bytes_are_chars(cs: Seq<char>)
    requires
        is_ascii_chars(cs),
    ensures
        encode_utf8(cs).len() == cs.len(),
        forall|i: int| 0 <= i < cs.len() ==> (#[trigger] encode_utf8(cs)[i]) as char == cs[i],
        forall|i: int| 0 <= i < cs.len() ==> (encode_utf8(cs)[i]) == #[trigger] cs[i] as u8,
{
    is_ascii_chars_encode_utf8(cs);
    assert forall|i: int| 0 <= i < cs.len() implies (#[trigger] encode_utf8(cs)[i]) as char
        == cs[i] by {
        assert(cs[i] as u8 == encode_utf8(cs)[i]);
        assert('\0' <= cs[i] <= '\u{7f}');
    }
}

/// The rewrite flag is set exactly when the name comes out different.
proof fn lemma_flag_iff_changed(topic: Seq<char>)
    ensures
        !is_sql_ident_bytes(encode_utf8(topic)) <==> sql_name_spec(encode_utf8(topic)) != topic,
{
    let b = encode_utf8(topic);
    let out = sql_name_spec(b);
    lemma_sql_name_is_ident(b);
    if is_sql_ident_bytes(b) {
        assert forall|i: int| 0 <= i < b.len() implies b[i] < 128 by {
            if i > 0 {
                assert(byte_ident(b[i]));
            }
        }
        lemma_ascii_bytes_ascii_chars(topic);
        lemma_ascii_bytes_are_chars(topic);
        lemma_sql_name_keeps_ident(b);
        assert(out =~= topic);
    } else {
        if out == topic {
            lemma_ascii_bytes_are_chars(topic);
            assert forall|i: int| 1 <= i < b.len() implies #[trigger] byte_ident(b[i]) by {
                assert(ident_char(out[i]));
                assert(b[i] == topic[i] as u8);
            }
            assert(ident_start(out[0]));
            assert(b[0] == topic[0] as u8);
            assert(false);
        }
    }
}

/// A kept byte is an identifier character.
proof fn lemma_byte_char(b: u8)
    ensures
        byte_ident(b) ==> ident_char(b as char) && (b as char) as u32 == b as u32,
        byte_start(b) ==> ident_start(b as char),
        byte_alnum(b) ==> ascii_alnum(b as char),
{
}

/// A sanitised name is always a valid SQL identifier, made of ASCII only.
pub proof fn lemma_sql_name_is_ident(s: Seq<u8>)
    ensures
        is_sql_ident(sql_name_spec(s)),
        is_ascii_chars(sql_name_spec(s)),
{
    let r = sql_name_spec(s);
    if s.len() > 0 {
        let b = s[0];
        lemma_byte_char(b);
        let head = if byte_start(b) {
            seq![b as char]
        } else if byte_alnum(b) {
            seq!['_', b as char]
        } else {
            seq!['_']
        };
        let rest = sanitize_rest(s.drop_first());
        assert(r == head + rest);
        assert forall|i: int| 1 <= i < r.len() implies #[trigger] ident_char(r[i]) by {
            if i >= head.len() {
                assert(r[i] == rest[i - head.len()]);
                lemma_byte_char(s.drop_first()[i - head.len()]);
            }
        }
        assert forall|i: int| 0 <= i < r.len() implies '\0' <= #[trigger] r[i] <= '\u{7f}' by {
            if i >= head.len() {
                assert(r[i] == rest[i - head.len()]);
                lemma_byte_char(s.drop_first()[i - head.len()]);
            }
        }
    }
}

/// A name whose bytes already spell a valid SQL identifier is kept as it is.
pub proof fn lemma_sql_name_keeps_ident(s: Seq<u8>)
    requires
        is_sql_ident_bytes(s),
    ensures
        sql_name_spec(s) == s.map_values(|b: u8| b as char),
{
    let rest = sanitize_rest(s.drop_first());
    assert forall|i: int| 0 <= i < rest.len() implies rest[i] == s.drop_first()[i] as char by {
        assert(byte_ident(s[i + 1]));
    }
    assert(sql_name_spec(s) =~= s.map_values(|b: u8| b as char));
}

/// Sanitising the sanitised name again gives it back, and reports no change.
pub proof fn lemma_sql_name_idempotent(s: Seq<u8>)
    ensures
        is_sql_ident_bytes(encode_utf8(sql_name_spec(s))),
        sql_name_spec(encode_utf8(sql_name_spec(s))) == sql_name_spec(s),
{
    let r = sql_name_spec(s);
    lemma_sql_name_is_ident(s);
    is_ascii_chars_encode_utf8(r);
    let e = encode_utf8(r);
    assert forall|i: int| 0 <= i < e.len() implies e[i] as char == r[i] && (i == 0 ==> byte_start(
        e[i],
    )) && (i >= 1 ==> byte_ident(#[trigger] e[i])) by {
        assert(r[i] as u8 == e[i]);
    }
    lemma_sql_name_keeps_ident(e);
    assert(e.map_values(|b: u8| b as char) =~= r);
}

/// Name for `char::is_alphanumeric` (Unicode Alphabetic or Numeric).
pub uninterp spec fn unicode_alphanumeric(c: char) -> bool;

/// Calls `char::is_alphanumeric`. Claimed: the result is the named
/// [`unicode_alphanumeric`], and on ASCII characters it agrees with
/// `is_ascii_alphanumeric`, as the standard library documents.
#[verifier::external_body]
fn is_alphanumeric(c: char) -> (r: bool)
    ensures
        r == unicode_alphanumeric(c),
        (c as u32) < 128 ==> (r <==> ascii_alnum(c)),
{
    c.is_alphanumeric()
}

/// `c` is kept in a path segment: an ASCII character when it is a letter,
/// a digit, `-`, `_` or `.`; any other character when it is alphanumeric
/// and not whitespace (no whitespace character is alphanumeric, so this
/// keeps what `char::is_alphanumeric` keeps).
pub open spec fn segment_char(c: char) -> bool {
    if (c as u32) < 128 {
        ascii_alnum(c) || c == '-' || c == '_' || c == '.'
    } else {
        unicode_alphanumeric(c) && !unicode_whitespace(c)
    }
}

/// A topic name as a directory segment: every character that is not
/// alphanumeric, `-`, `_` or `.` becomes `_`; an empty name becomes `_`.
pub open spec fn segment_spec(s: Seq<char>) -> Seq<char> {
    if s.len() == 0 {
        seq!['_']
    } else {
        s.map_values(|c: char| if segment_char(c) { c } else { '_' })
    }
}

/// `c` cannot split or blank a path segment: no separator, nul, ASCII
/// control character or whitespace of any kind.
pub open spec fn harmless_in_path(c: char) -> bool {
    &&& c != '/'
    &&& c != '\\'
    &&& (c as u32) > 32
    &&& (c as u32) != 127
    &&& !unicode_whitespace(c)
}

/// Sanitises a topic name for use as a directory segment. No path
/// separators, nul bytes, or whitespace; `_` substitution.
pub fn safe_segment(s: &str) -> (r: String)
    ensures
        r@ == segment_spec(s@),
        r@.len() > 0,
        forall|i: int| 0 <= i < r@.len() ==> harmless_in_path(#[trigger] r@[i]),
{
    let cs = chars_of(s);
    let mut out = String::new();
    let mut i: usize = 0;
    while i < cs.len()
        invariant
            cs@ == s@,
            i <= cs@.len(),
            out@ == cs@.take(i as int).map_values(
                |c: char| if segment_char(c) { c } else { '_' },
            ),
            forall|k: int| 0 <= k < out@.len() ==> harmless_in_path(#[trigger] out@[k]),
        decreases cs@.len() - i,
    {
        let c = cs[i];
        if (is_alphanumeric(c) && !is_whitespace(c)) || c == '-' || c == '_' || c == '.' {
            push_char(&mut out, c);
        } else {
            push_char(&mut out, '_');
        }
        assert(cs@.take(i + 1) =~= cs@.take(i as int).push(c));
        assert(cs@.take(i + 1).map_values(|c: char| if segment_char(c) { c } else { '_' })
            =~= cs@.take(i as int).map_values(|c: char| if segment_char(c) { c } else { '_' }).push(
            if segment_char(c) { c } else { '_' },
        ));
        i = i + 1;
    }
    if cs.len() == 0 {
        push_char(&mut out, '_');
        assert(out@ =~= seq!['_']);
    } else {
        assert(cs@.take(cs@.len() as int) =~= cs@);
    }
    out
}

} // verus!
