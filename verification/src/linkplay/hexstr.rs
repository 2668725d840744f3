//! Linkplay's half-hearted hex encoding: some firmwares return titles and
//! names as hex-encoded UTF-8, others as plain text, with no flag to tell them
//! apart. The decode is a heuristic: try hex → UTF-8, and hand back the
//! input text whenever that fails.

use vstd::prelude::*;
use vstd::utf8::{decode_utf8, encode_utf8, valid_utf8};

use crate::text::{eq_ignore_ascii_case, eq_ignore_case, ascii_lower, is_ws, trim, trimmed};

verus! {

/// The value of an ASCII hex digit (either case), or -1.
pub open spec fn hex_val(c: u8) -> int {
    if 0x30 <= c <= 0x39 {
        c - 0x30
    } else if 0x61 <= c <= 0x66 {
        c - 0x61 + 10
    } else if 0x41 <= c <= 0x46 {
        c - 0x41 + 10
    } else {
        -1
    }
}

/// An even number of hex digits.
pub open spec fn hex_well_formed(d: Seq<u8>) -> bool {
    &&& d.len() % 2 == 0
    &&& forall|i: int| 0 <= i < d.len() ==> hex_val(#[trigger] d[i]) >= 0
}

/// The bytes a well-formed hex string spells, two digits per byte, high
/// nibble first.
pub open spec fn hex_decoded(d: Seq<u8>) -> Seq<u8> {
    Seq::new((d.len() / 2) as nat, |i: int| (hex_val(d[2 * i]) * 16 + hex_val(d[2 * i + 1])) as u8)
}

/// `hex::decode`: the bytes of an even-length run of hex digits (either
/// case); `None` on odd length or any other character, as its source
/// shows.
#[verifier::external_body]
fn hex_decode(data: &[u8]) -> (r: Option<Vec<u8>>)
    ensures
        match r {
            Some(v) => hex_well_formed(data@) && v@ == hex_decoded(data@),
            None => !hex_well_formed(data@),
        },
{
    hex::decode(data).ok()
}

/// `String::from_utf8`: the text the bytes encode when they are valid UTF-8,
/// else nothing.
#[verifier::external_body]
fn string_from_utf8(bytes: Vec<u8>) -> (r: Option<String>)
    ensures
        match r {
            Some(s) => valid_utf8(bytes@) && s@ == decode_utf8(bytes@),
            None => !valid_utf8(bytes@),
        },
{
    String::from_utf8(bytes).ok()
}

/// Linkplay's placeholders for "no metadata": not hex and not worth showing.
pub open spec fn is_placeholder(t: Seq<char>) -> bool {
    eq_ignore_case(t, "un_known"@) || eq_ignore_case(t, "unknown"@)
}

/// What a possibly hex-encoded Linkplay string reads as: blank or a
/// placeholder reads as empty; an even-length run of hex digits that decodes
/// to valid UTF-8 reads as that text; anything else reads as the input
/// verbatim.
pub open spec fn hex_or_plain(s: Seq<char>) -> Seq<char> {
    let t = trim(s);
    if t.len() == 0 || is_placeholder(t) {
        Seq::empty()
    } else {
        let b = encode_utf8(t);
        if b.len() % 2 != 0 || !hex_well_formed(b) {
            s
        } else if valid_utf8(hex_decoded(b)) {
            decode_utf8(hex_decoded(b))
        } else {
            s
        }
    }
}

/// Decode a possibly hex-encoded Linkplay string, falling back to the input
/// verbatim on anything suspicious (odd length, a non-hex digit, bytes that
/// are not valid UTF-8), so plain-text firmwares pass straight through.
pub fn decode(s: &str) -> (r: String)
    ensures
        r@ == hex_or_plain(s@),
{
    let t = trimmed(s);
    let ts = t.as_str();
    if ts.unicode_len() == 0 || eq_ignore_ascii_case(ts, "un_known") || eq_ignore_ascii_case(
        ts,
        "unknown",
    ) {
        return String::new();
    }
    let bytes = ts.as_bytes();
    if bytes.len() % 2 != 0 {
        return s.to_owned();
    }
    match hex_decode(bytes) {
        Some(raw) => match string_from_utf8(raw) {
            Some(text) => text,
            None => s.to_owned(),
        },
        None => s.to_owned(),
    }
}

/// The lowercase hex digit of a nibble.
pub open spec fn hex_digit(n: int) -> char {
    if n < 8 {
        if n < 4 {
            if n == 0 { '0' } else if n == 1 { '1' } else if n == 2 { '2' } else { '3' }
        } else {
            if n == 4 { '4' } else if n == 5 { '5' } else if n == 6 { '6' } else { '7' }
        }
    } else {
        if n < 12 {
            if n == 8 { '8' } else if n == 9 { '9' } else if n == 10 { 'a' } else { 'b' }
        } else {
            if n == 12 { 'c' } else if n == 13 { 'd' } else if n == 14 { 'e' } else { 'f' }
        }
    }
}

/// Bytes spelled as lowercase hex, two digits per byte, high nibble first.
pub open spec fn hex_text(bytes: Seq<u8>) -> Seq<char> {
    Seq::new(
        2 * bytes.len(),
        |i: int|
            if i % 2 == 0 {
                hex_digit(bytes[i / 2] as int / 16)
            } else {
                hex_digit(bytes[i / 2] as int % 16)
            },
    )
}

proof fn lemma_hex_digit(n: int)
    requires
        0 <= n < 16,
    ensures
        '0' <= hex_digit(n) <= '\u{7f}',
        hex_val(hex_digit(n) as u8) == n,
        !is_ws(hex_digit(n)),
        hex_digit(n) != 'u',
        ascii_lower(hex_digit(n)) == hex_digit(n),
{
}

/// Text sent hex-encoded (two lowercase digits per UTF-8 byte) reads back as
/// itself.
pub proof fn law_hex_round_trip(x: Seq<char>)
    requires
        x.len() > 0,
    ensures
        hex_or_plain(hex_text(encode_utf8(x))) == x,
{
    broadcast use vstd::utf8::encode_utf8_valid_utf8, vstd::utf8::encode_utf8_decode_utf8;

    let bytes = encode_utf8(x);
    let h = hex_text(bytes);
    assert(bytes.len() > 0) by {
        vstd::utf8::encode_utf8_first_scalar(x);
    }
    assert forall|i: int| 0 <= i < h.len() implies '\0' <= #[trigger] h[i] <= '\u{7f}' && !is_ws(h[i])
        && hex_val(h[i] as u8) >= 0 by {
        if i % 2 == 0 {
            lemma_hex_digit(bytes[i / 2] as int / 16);
        } else {
            lemma_hex_digit(bytes[i / 2] as int % 16);
        }
    }
    assert(trim(h) == h) by {
        assert(!is_ws(h[0]));
        assert(!is_ws(h[h.len() - 1]));
    }
    assert(!is_placeholder(h)) by {
        lemma_hex_digit(bytes[0] as int / 16);
        assert(h[0] != 'u' && ascii_lower(h[0]) == h[0]);
        reveal_strlit("un_known");
        reveal_strlit("unknown");
        assert(ascii_lower("un_known"@[0]) == 'u');
        assert(ascii_lower("unknown"@[0]) == 'u');
    }
    assert(vstd::utf8::is_ascii_chars(h));
    vstd::utf8::is_ascii_chars_encode_utf8(h);
    let b = encode_utf8(h);
    assert(hex_well_formed(b)) by {
        assert forall|i: int| 0 <= i < b.len() implies hex_val(#[trigger] b[i]) >= 0 by {
            assert(b[i] == h[i] as u8);
        }
    }
    assert(hex_decoded(b) =~= bytes) by {
        assert forall|i: int| 0 <= i < bytes.len() implies #[trigger] hex_decoded(b)[i] == bytes[i] by {
            assert(b[2 * i] == h[2 * i] as u8);
            assert(b[2 * i + 1] == h[2 * i + 1] as u8);
            assert((2 * i) / 2 == i && (2 * i + 1) / 2 == i);
            assert((2 * i) % 2 == 0 && (2 * i + 1) % 2 == 1);
            lemma_hex_digit(bytes[i] as int / 16);
            lemma_hex_digit(bytes[i] as int % 16);
        }
    }
}

/// Plain ASCII text that cannot be hex (an odd length, or a character that
/// is not a hex digit) reads as itself, unless it is blank or a placeholder.
pub proof fn law_plain_text_passes(s: Seq<char>)
    requires
        vstd::utf8::is_ascii_chars(trim(s)),
        trim(s).len() > 0,
        !is_placeholder(trim(s)),
        trim(s).len() % 2 == 1 || exists|k: int| 0 <= k < trim(s).len() && hex_val(#[trigger] trim(s)[k] as u8) < 0,
    ensures
        hex_or_plain(s) == s,
{
    let t = trim(s);
    vstd::utf8::is_ascii_chars_encode_utf8(t);
    let b = encode_utf8(t);
    if t.len() % 2 == 0 {
        let k = choose|k: int| 0 <= k < t.len() && hex_val(#[trigger] t[k] as u8) < 0;
        assert(b[k] == t[k] as u8);
        assert(!hex_well_formed(b));
    }
}

} // verus!
