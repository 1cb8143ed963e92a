//! Byte/text transforms used throughout the pipeline: hex decoding and
//! encoding, and base64 encoding and decoding of attestation evidence.
use vstd::prelude::*;

use crate::errors::AttestError;

verus! {

use vstd::string::StringSliceAdditionalSpecFns;

/// True for the sixteen ASCII characters that stand for a hexadecimal digit.
pub open spec fn is_hex_digit(c: char) -> bool {
    ('0' <= c && c <= '9') || ('a' <= c && c <= 'f') || ('A' <= c && c <= 'F')
}

/// The numeric value of a hexadecimal digit character.
pub open spec fn hex_val(c: char) -> u8
    recommends
        is_hex_digit(c),
{
    if '0' <= c && c <= '9' {
        (c as u8 - 0x30) as u8
    } else if 'a' <= c && c <= 'f' {
        (c as u8 - 0x61 + 10) as u8
    } else {
        (c as u8 - 0x41 + 10) as u8
    }
}

/// The lower-case hexadecimal digit character for a value below sixteen.
pub open spec fn hex_lower_char(v: u8) -> char
    recommends
        v < 16,
{
    if v < 10 {
        ((0x30 + v) as u8) as char
    } else {
        ((0x61 + (v - 10)) as u8) as char
    }
}

/// A string decodes as hex when its length is even and every character is a
/// hexadecimal digit.
pub open spec fn spec_hex_valid(s: Seq<char>) -> bool {
    s.len() % 2 == 0 && forall|i: int| 0 <= i < s.len() ==> is_hex_digit(#[trigger] s[i])
}

/// The bytes a valid hex string stands for: one byte per digit pair.
pub open spec fn spec_hex_decode(s: Seq<char>) -> Seq<u8>
    recommends
        spec_hex_valid(s),
{
    Seq::new((s.len() / 2) as nat, |k: int| (hex_val(s[2 * k]) * 16 + hex_val(s[2 * k + 1])) as u8)
}

/// The lower-case hex text of a byte sequence: two digits per byte.
pub open spec fn spec_hex_encode(b: Seq<u8>) -> Seq<char> {
    Seq::new(
        (2 * b.len()) as nat,
        |i: int|
            if i % 2 == 0 {
                hex_lower_char(b[i / 2] >> 4)
            } else {
                hex_lower_char(b[i / 2] & 15)
            },
    )
}

/// The character with an upper-case ASCII letter replaced by its lower-case
/// form; every other character is unchanged.
pub open spec fn ascii_lower(c: char) -> char {
    if 'A' <= c && c <= 'Z' {
        ((c as u8 + 32) as u8) as char
    } else {
        c
    }
}

/// The character with a lower-case ASCII letter replaced by its upper-case
/// form; every other character is unchanged.
pub open spec fn ascii_upper(c: char) -> char {
    if 'a' <= c && c <= 'z' {
        ((c as u8 - 32) as u8) as char
    } else {
        c
    }
}

/// Relies on String::from_utf8: a sequence of ASCII bytes is valid UTF-8 and
/// converts to a string with one character per byte, each the character of
/// that byte.
#[verifier::external_body]
pub(crate) fn ascii_string(bytes: Vec<u8>) -> (r: String)
    requires
        forall|i: int| 0 <= i < bytes@.len() ==> bytes@[i] < 128,
    ensures
        r@.len() == bytes@.len(),
        forall|i: int| 0 <= i < bytes@.len() ==> r@[i] == bytes@[i] as char,
{
    String::from_utf8(bytes).unwrap_or_default()
}

/// The numeric value of one hex digit given as an ASCII byte, or `None` when
/// the byte is no hex digit.
pub(crate) fn hex_digit_value(b: u8) -> (r: Option<u8>)
    requires
        b < 128,
    ensures
        r is Some <==> is_hex_digit(b as char),
        r matches Some(v) ==> v == hex_val(b as char) && v < 16,
{
    if 0x30 <= b && b <= 0x39 {
        Some(b - 0x30)
    } else if 0x61 <= b && b <= 0x66 {
        Some(b - 0x61 + 10)
    } else if 0x41 <= b && b <= 0x46 {
        Some(b - 0x41 + 10)
    } else {
        None
    }
}

/// Decodes a hex string to bytes. Fails exactly when the length is odd or
/// some character is no hex digit.
pub fn hex_decode(s: &str) -> (r: Result<Vec<u8>, AttestError>)
    ensures
        r is Ok <==> spec_hex_valid(s@),
        r matches Ok(v) ==> v@ == spec_hex_decode(s@),
        r matches Err(e) ==> e == AttestError::DecodeError,
{
    if !s.is_ascii() {
        proof {
            if spec_hex_valid(s@) {
                assert forall|i: int| 0 <= i < s@.len() implies '\0' <= #[trigger] s@[i]
                    && s@[i] <= '\u{7f}' by {
                    assert(is_hex_digit(s@[i]));
                }
                assert(vstd::utf8::is_ascii_chars(s@));
                assert(vstd::string::is_ascii(s));
                assert(false);
            }
        }
        return Err(AttestError::DecodeError);
    }
    let bytes = s.as_bytes();
    let n = bytes.len();
    proof {
        vstd::string::is_ascii_spec_bytes(s);
        assert(n == s@.len());
        assert(forall|i: int| 0 <= i < s@.len() ==> bytes@[i] == #[trigger] s@[i] as u8);
    }
    if n % 2 != 0 {
        return Err(AttestError::DecodeError);
    }
    let mut out: Vec<u8> = Vec::new();
    let mut i: usize = 0;
    while i < n
        invariant
            vstd::string::is_ascii(s),
            n == s@.len(),
            bytes@.len() == n,
            forall|j: int| 0 <= j < s@.len() ==> bytes@[j] == #[trigger] s@[j] as u8,
            n % 2 == 0,
            i % 2 == 0,
            i <= n,
            forall|j: int| 0 <= j < i ==> is_hex_digit(#[trigger] s@[j]),
            out@.len() == i / 2,
            forall|k: int|
                0 <= k < i / 2 ==> #[trigger] out@[k] == (hex_val(s@[2 * k]) * 16 + hex_val(
                    s@[2 * k + 1],
                )) as u8,
        decreases n - i,
    {
        let b0 = bytes[i];
        let b1 = bytes[i + 1];
        proof {
            assert(s@[i as int] <= '\u{7f}');
            assert(s@[i + 1] <= '\u{7f}');
            assert((s@[i as int] as u8) as char == s@[i as int]);
            assert((s@[i + 1] as u8) as char == s@[i + 1]);
        }
        let v0 = match hex_digit_value(b0) {
            Some(v) => v,
            None => {
                return Err(AttestError::DecodeError);
            },
        };
        let v1 = match hex_digit_value(b1) {
            Some(v) => v,
            None => {
                return Err(AttestError::DecodeError);
            },
        };
        out.push(v0 * 16 + v1);
        i += 2;
    }
    proof {
        assert(out@ =~= spec_hex_decode(s@));
    }
    Ok(out)
}

/// Encodes bytes as lower-case hex text, two digits per byte.
pub fn hex_encode(data: &Vec<u8>) -> (r: String)
    ensures
        r@ == spec_hex_encode(data@),
{
    let mut out: Vec<u8> = Vec::new();
    let mut i: usize = 0;
    while i < data.len()
        invariant
            i <= data@.len(),
            out@.len() == 2 * i,
            forall|k: int|
                0 <= k < 2 * i ==> #[trigger] out@[k] as char == spec_hex_encode(data@)[k]
                    && out@[k] < 128,
        decreases data@.len() - i,
    {
        let b = data[i];
        let hi = b >> 4;
        let lo = b & 15;
        proof {
            assert(b >> 4 < 16 && b & 15 < 16) by (bit_vector);
        }
        let hb = if hi < 10 {
            0x30 + hi
        } else {
            0x61 + (hi - 10)
        };
        let lb = if lo < 10 {
            0x30 + lo
        } else {
            0x61 + (lo - 10)
        };
        out.push(hb);
        out.push(lb);
        i += 1;
    }
    proof {
        assert(out@.len() == spec_hex_encode(data@).len());
    }
    ascii_string(out)
}

/// The ASCII byte of the standard base64 alphabet for a six-bit value.
pub open spec fn b64_byte(v: u8) -> u8
    recommends
        v < 64,
{
    if v < 26 {
        (0x41 + v) as u8
    } else if v < 52 {
        (0x61 + (v - 26)) as u8
    } else if v < 62 {
        (0x30 + (v - 52)) as u8
    } else if v == 62 {
        0x2b
    } else {
        0x2f
    }
}

/// The base64 alphabet character for a six-bit value.
pub open spec fn b64_char(v: u8) -> char
    recommends
        v < 64,
{
    b64_byte(v) as char
}

/// True for the bytes the decoder accepts as base64 digits: the standard
/// alphabet, plus the two characters of the URL-safe variant that the token
/// issuer may use in their place.
pub open spec fn is_b64_byte(b: u8) -> bool {
    (0x41 <= b && b <= 0x5a) || (0x61 <= b && b <= 0x7a) || (0x30 <= b && b <= 0x39) || b == 0x2b
        || b == 0x2f || b == 0x2d || b == 0x5f
}

/// The six-bit value of a base64 digit byte.
pub open spec fn b64_val_byte(b: u8) -> u8
    recommends
        is_b64_byte(b),
{
    if 0x41 <= b && b <= 0x5a {
        (b - 0x41) as u8
    } else if 0x61 <= b && b <= 0x7a {
        (b - 0x61 + 26) as u8
    } else if 0x30 <= b && b <= 0x39 {
        (b - 0x30 + 52) as u8
    } else if b == 0x2b || b == 0x2d {
        62
    } else {
        63
    }
}

/// True for the characters the decoder accepts as base64 digits.
pub open spec fn is_b64_char(c: char) -> bool {
    c <= '\u{7f}' && is_b64_byte(c as u8)
}

/// The six-bit value of a base64 digit character.
pub open spec fn b64_val(c: char) -> u8
    recommends
        is_b64_char(c),
{
    b64_val_byte(c as u8)
}

/// The base64 text of a byte sequence: standard alphabet, three bytes to
/// four characters, with `=` padding for a final group of one or two bytes.
pub open spec fn spec_b64_encode(b: Seq<u8>) -> Seq<char>
    decreases b.len(),
{
    if b.len() == 0 {
        Seq::empty()
    } else if b.len() == 1 {
        seq![b64_char(b[0] >> 2), b64_char((b[0] & 3) << 4), '=', '=']
    } else if b.len() == 2 {
        seq![
            b64_char(b[0] >> 2),
            b64_char(((b[0] & 3) << 4) | (b[1] >> 4)),
            b64_char((b[1] & 15) << 2),
            '=',
        ]
    } else {
        seq![
            b64_char(b[0] >> 2),
            b64_char(((b[0] & 3) << 4) | (b[1] >> 4)),
            b64_char(((b[1] & 15) << 2) | (b[2] >> 6)),
            b64_char(b[2] & 63),
        ] + spec_b64_encode(b.skip(3))
    }
}

/// The text with up to two trailing padding characters removed.
pub open spec fn spec_b64_strip(s: Seq<char>) -> Seq<char> {
    if s.len() >= 1 && s[s.len() - 1] == '=' {
        if s.len() >= 2 && s[s.len() - 2] == '=' {
            s.take(s.len() - 2)
        } else {
            s.take(s.len() - 1)
        }
    } else {
        s
    }
}

/// The bytes an unpadded base64 text stands for, or `None` when a character
/// is no base64 digit, the length leaves a lone trailing digit, or unused
/// bits of a final partial group are not zero.
pub open spec fn spec_b64_decode_core(t: Seq<char>) -> Option<Seq<u8>>
    decreases t.len(),
{
    if t.len() == 0 {
        Some(Seq::empty())
    } else if t.len() == 1 {
        None
    } else if t.len() == 2 {
        if is_b64_char(t[0]) && is_b64_char(t[1]) && b64_val(t[1]) & 15 == 0 {
            Some(seq![(b64_val(t[0]) << 2) | (b64_val(t[1]) >> 4)])
        } else {
            None
        }
    } else if t.len() == 3 {
        if is_b64_char(t[0]) && is_b64_char(t[1]) && is_b64_char(t[2]) && b64_val(t[2]) & 3 == 0 {
            Some(
                seq![
                    (b64_val(t[0]) << 2) | (b64_val(t[1]) >> 4),
                    ((b64_val(t[1]) & 15) << 4) | (b64_val(t[2]) >> 2),
                ],
            )
        } else {
            None
        }
    } else {
        if is_b64_char(t[0]) && is_b64_char(t[1]) && is_b64_char(t[2]) && is_b64_char(t[3]) {
            match spec_b64_decode_core(t.skip(4)) {
                Some(rest) => Some(
                    seq![
                        (b64_val(t[0]) << 2) | (b64_val(t[1]) >> 4),
                        ((b64_val(t[1]) & 15) << 4) | (b64_val(t[2]) >> 2),
                        ((b64_val(t[2]) & 3) << 6) | b64_val(t[3]),
                    ] + rest,
                ),
                None => None,
            }
        } else {
            None
        }
    }
}

/// The bytes a base64 text stands for, after removing up to two trailing
/// padding characters, or `None` when the text is malformed.
pub open spec fn spec_b64_decode(s: Seq<char>) -> Option<Seq<u8>> {
    spec_b64_decode_core(spec_b64_strip(s))
}

/// An alphabet character carries its six-bit value back out of the alphabet,
/// is never a padding character, and is ASCII.
proof fn lemma_b64_char_props(v: u8)
    requires
        v < 64,
    ensures
        is_b64_char(b64_char(v)),
        b64_val(b64_char(v)) == v,
        b64_char(v) != '=',
        b64_char(v) <= '\u{7f}',
{
    assert(b64_byte(v) < 128);
    assert((b64_byte(v) as char) as u8 == b64_byte(v));
    assert(b64_byte(v) != 0x3d);
    assert('=' as u8 == 0x3d);
}

/// The length of a base64 encoding: four characters per started group of
/// three bytes.
proof fn lemma_b64_encode_len(b: Seq<u8>)
    ensures
        spec_b64_encode(b).len() == 4 * ((b.len() + 2) / 3),
    decreases b.len(),
{
    if b.len() >= 3 {
        lemma_b64_encode_len(b.skip(3));
    }
}

/// Removing trailing padding from a concatenation only touches the second
/// part when that part has at least two characters.
proof fn lemma_b64_strip_concat(a: Seq<char>, b: Seq<char>)
    requires
        b.len() >= 2,
    ensures
        spec_b64_strip(a + b) =~= a + spec_b64_strip(b),
{
}

/// Base64 encoding distributes over concatenation at group boundaries.
proof fn lemma_b64_encode_append(a: Seq<u8>, b: Seq<u8>)
    requires
        a.len() % 3 == 0,
    ensures
        spec_b64_encode(a + b) =~= spec_b64_encode(a) + spec_b64_encode(b),
    decreases a.len(),
{
    if a.len() == 0 {
        assert(a + b =~= b);
    } else {
        assert(a.len() >= 3);
        let g = seq![
            b64_char(a[0] >> 2),
            b64_char(((a[0] & 3) << 4) | (a[1] >> 4)),
            b64_char(((a[1] & 15) << 2) | (a[2] >> 6)),
            b64_char(a[2] & 63),
        ];
        if b.len() == 0 {
            assert(a + b =~= a);
        } else {
            assert((a + b).len() >= 3);
            assert((a + b)[0] == a[0] && (a + b)[1] == a[1] && (a + b)[2] == a[2]);
            assert((a + b).skip(3) =~= a.skip(3) + b);
            lemma_b64_encode_append(a.skip(3), b);
            assert(spec_b64_encode(a + b) =~= g + (spec_b64_encode(a.skip(3)) + spec_b64_encode(
                b,
            )));
            assert(g + (spec_b64_encode(a.skip(3)) + spec_b64_encode(b)) =~= (g + spec_b64_encode(
                a.skip(3),
            )) + spec_b64_encode(b));
        }
    }
}

/// A text whose unpadded decoding succeeds consists of base64 digits only.
proof fn lemma_b64_core_chars(t: Seq<char>)
    requires
        spec_b64_decode_core(t) is Some,
    ensures
        forall|i: int| 0 <= i < t.len() ==> is_b64_char(#[trigger] t[i]),
    decreases t.len(),
{
    if t.len() >= 4 {
        lemma_b64_core_chars(t.skip(4));
        assert forall|i: int| 0 <= i < t.len() implies is_b64_char(#[trigger] t[i]) by {
            if i >= 4 {
                assert(t.skip(4)[i - 4] == t[i]);
            }
        }
    }
}

/// Base64 encoding then base64 decoding gives back the original bytes.
pub proof fn lemma_base64_round_trip(b: Seq<u8>)
    ensures
        spec_b64_decode(spec_b64_encode(b)) == Some(b),
    decreases b.len(),
{
    let e = spec_b64_encode(b);
    if b.len() == 0 {
        assert(spec_b64_strip(e) =~= e);
        assert(spec_b64_decode_core(e) == Some(Seq::<u8>::empty()));
        assert(b =~= Seq::<u8>::empty());
    } else if b.len() == 1 {
        let b0 = b[0];
        let v0 = b0 >> 2;
        let v1 = (b0 & 3) << 4;
        assert(v0 < 64 && v1 < 64 && v1 & 15 == 0 && ((v0 << 2) | (v1 >> 4)) == b0)
            by (bit_vector)
            requires
                v0 == b0 >> 2,
                v1 == (b0 & 3) << 4,
        ;
        lemma_b64_char_props(v0);
        lemma_b64_char_props(v1);
        let t = spec_b64_strip(e);
        assert(t =~= seq![b64_char(v0), b64_char(v1)]);
        assert(spec_b64_decode_core(t) == Some(seq![(b64_val(t[0]) << 2) | (b64_val(t[1]) >> 4)]));
        assert(seq![(b64_val(t[0]) << 2) | (b64_val(t[1]) >> 4)] =~= b);
    } else if b.len() == 2 {
        let b0 = b[0];
        let b1 = b[1];
        let v0 = b0 >> 2;
        let v1 = ((b0 & 3) << 4) | (b1 >> 4);
        let v2 = (b1 & 15) << 2;
        assert(v0 < 64 && v1 < 64 && v2 < 64 && v2 & 3 == 0 && ((v0 << 2) | (v1 >> 4)) == b0 && (((
        v1 & 15) << 4) | (v2 >> 2)) == b1) by (bit_vector)
            requires
                v0 == b0 >> 2,
                v1 == ((b0 & 3) << 4) | (b1 >> 4),
                v2 == (b1 & 15) << 2,
        ;
        lemma_b64_char_props(v0);
        lemma_b64_char_props(v1);
        lemma_b64_char_props(v2);
        let t = spec_b64_strip(e);
        assert(t =~= seq![b64_char(v0), b64_char(v1), b64_char(v2)]);
        assert(spec_b64_decode_core(t) matches Some(d) && d =~= b);
    } else {
        let b0 = b[0];
        let b1 = b[1];
        let b2 = b[2];
        let v0 = b0 >> 2;
        let v1 = ((b0 & 3) << 4) | (b1 >> 4);
        let v2 = ((b1 & 15) << 2) | (b2 >> 6);
        let v3 = b2 & 63;
        assert(v0 < 64 && v1 < 64 && v2 < 64 && v3 < 64 && ((v0 << 2) | (v1 >> 4)) == b0 && (((v1
            & 15) << 4) | (v2 >> 2)) == b1 && (((v2 & 3) << 6) | v3) == b2) by (bit_vector)
            requires
                v0 == b0 >> 2,
                v1 == ((b0 & 3) << 4) | (b1 >> 4),
                v2 == ((b1 & 15) << 2) | (b2 >> 6),
                v3 == b2 & 63,
        ;
        lemma_b64_char_props(v0);
        lemma_b64_char_props(v1);
        lemma_b64_char_props(v2);
        lemma_b64_char_props(v3);
        let g = seq![b64_char(v0), b64_char(v1), b64_char(v2), b64_char(v3)];
        let rest = b.skip(3);
        let e2 = spec_b64_encode(rest);
        assert(e == g + e2);
        lemma_base64_round_trip(rest);
        if rest.len() == 0 {
            assert(e =~= g);
            assert(spec_b64_strip(e) =~= g);
            assert(g.skip(4) =~= Seq::<char>::empty());
            assert(spec_b64_decode_core(g.skip(4)) == Some(Seq::<u8>::empty()));
            assert(spec_b64_decode_core(g) matches Some(d) && d =~= b);
        } else {
            lemma_b64_encode_len(rest);
            assert(e2.len() >= 4);
            lemma_b64_strip_concat(g, e2);
            let t2 = spec_b64_strip(e2);
            assert(spec_b64_strip(e) =~= g + t2);
            assert(spec_b64_decode_core(t2) == Some(rest));
            let w = g + t2;
            assert(w.len() >= 4);
            assert(w[0] == g[0] && w[1] == g[1] && w[2] == g[2] && w[3] == g[3]);
            assert(w.skip(4) =~= t2);
            assert(spec_b64_decode_core(w) matches Some(d) && d =~= b);
        }
    }
}

/// The base64 alphabet byte for a six-bit value.
fn b64_byte_of(v: u8) -> (r: u8)
    requires
        v < 64,
    ensures
        r == b64_byte(v),
        r < 128,
{
    if v < 26 {
        0x41 + v
    } else if v < 52 {
        0x61 + (v - 26)
    } else if v < 62 {
        0x30 + (v - 52)
    } else if v == 62 {
        0x2b
    } else {
        0x2f
    }
}

/// The six-bit value of a base64 digit byte, or `None` for any other byte.
fn b64_value_of(b: u8) -> (r: Option<u8>)
    ensures
        r is Some <==> is_b64_byte(b),
        r matches Some(v) ==> v == b64_val_byte(b) && v < 64,
{
    if 0x41 <= b && b <= 0x5a {
        Some(b - 0x41)
    } else if 0x61 <= b && b <= 0x7a {
        Some(b - 0x61 + 26)
    } else if 0x30 <= b && b <= 0x39 {
        Some(b - 0x30 + 52)
    } else if b == 0x2b || b == 0x2d {
        Some(62)
    } else if b == 0x2f || b == 0x5f {
        Some(63)
    } else {
        None
    }
}

/// Encodes bytes as base64 text with the standard alphabet and padding.
pub fn base64(data: Vec<u8>) -> (r: String)
    ensures
        r@ == spec_b64_encode(data@),
{
    let n = data.len();
    let mut out: Vec<u8> = Vec::new();
    let mut i: usize = 0;
    while n - i >= 3
        invariant
            i % 3 == 0,
            i <= n,
            n == data@.len(),
            out@.len() == spec_b64_encode(data@.take(i as int)).len(),
            forall|k: int|
                0 <= k < out@.len() ==> #[trigger] out@[k] < 128 && out@[k] as char
                    == spec_b64_encode(data@.take(i as int))[k],
        decreases n - i,
    {
        let b0 = data[i];
        let b1 = data[i + 1];
        let b2 = data[i + 2];
        let v0 = b0 >> 2;
        let v1 = ((b0 & 3) << 4) | (b1 >> 4);
        let v2 = ((b1 & 15) << 2) | (b2 >> 6);
        let v3 = b2 & 63;
        proof {
            assert((b0 >> 2) < 64 && (((b0 & 3) << 4) | (b1 >> 4)) < 64 && (((b1 & 15) << 2) | (b2
                >> 6)) < 64 && (b2 & 63) < 64) by (bit_vector);
        }
        out.push(b64_byte_of(v0));
        out.push(b64_byte_of(v1));
        out.push(b64_byte_of(v2));
        out.push(b64_byte_of(v3));
        proof {
            let pre = data@.take(i as int);
            let chunk = seq![b0, b1, b2];
            lemma_b64_encode_append(pre, chunk);
            assert(data@.take(i + 3) =~= pre + chunk);
            assert(chunk.skip(3) =~= Seq::<u8>::empty());
            assert(spec_b64_encode(chunk.skip(3)) =~= Seq::<char>::empty());
            lemma_b64_char_props(v0);
            lemma_b64_char_props(v1);
            lemma_b64_char_props(v2);
            lemma_b64_char_props(v3);
            assert(spec_b64_encode(chunk) =~= seq![
                b64_char(v0),
                b64_char(v1),
                b64_char(v2),
                b64_char(v3),
            ]);
        }
        i += 3;
    }
    let rem = n - i;
    if rem == 1 {
        let b0 = data[i];
        let v0 = b0 >> 2;
        let v1 = (b0 & 3) << 4;
        proof {
            assert((b0 >> 2) < 64 && ((b0 & 3) << 4) < 64) by (bit_vector);
        }
        out.push(b64_byte_of(v0));
        out.push(b64_byte_of(v1));
        out.push(0x3d);
        out.push(0x3d);
        proof {
            let pre = data@.take(i as int);
            let chunk = data@.skip(i as int);
            lemma_b64_encode_append(pre, chunk);
            assert(pre + chunk =~= data@);
            assert(chunk.len() == 1 && chunk[0] == b0);
            lemma_b64_char_props(v0);
            lemma_b64_char_props(v1);
            assert(spec_b64_encode(chunk) =~= seq![b64_char(v0), b64_char(v1), '=', '=']);
            assert(0x3d as char == '=');
        }
    } else if rem == 2 {
        let b0 = data[i];
        let b1 = data[i + 1];
        let v0 = b0 >> 2;
        let v1 = ((b0 & 3) << 4) | (b1 >> 4);
        let v2 = (b1 & 15) << 2;
        proof {
            assert((b0 >> 2) < 64 && (((b0 & 3) << 4) | (b1 >> 4)) < 64 && ((b1 & 15) << 2) < 64)
                by (bit_vector);
        }
        out.push(b64_byte_of(v0));
        out.push(b64_byte_of(v1));
        out.push(b64_byte_of(v2));
        out.push(0x3d);
        proof {
            let pre = data@.take(i as int);
            let chunk = data@.skip(i as int);
            lemma_b64_encode_append(pre, chunk);
            assert(pre + chunk =~= data@);
            assert(chunk.len() == 2 && chunk[0] == b0 && chunk[1] == b1);
            lemma_b64_char_props(v0);
            lemma_b64_char_props(v1);
            lemma_b64_char_props(v2);
            assert(spec_b64_encode(chunk) =~= seq![
                b64_char(v0),
                b64_char(v1),
                b64_char(v2),
                '=',
            ]);
            assert(0x3d as char == '=');
        }
    } else {
        proof {
            assert(data@.take(i as int) =~= data@);
        }
    }
    proof {
        assert(out@.len() == spec_b64_encode(data@).len());
    }
    ascii_string(out)
}

/// A text whose base64 decoding succeeds consists of ASCII characters only:
/// base64 digits, with up to two trailing padding characters.
proof fn lemma_b64_decode_ascii(s: Seq<char>)
    requires
        spec_b64_decode(s) is Some,
    ensures
        vstd::utf8::is_ascii_chars(s),
{
    let t = spec_b64_strip(s);
    lemma_b64_core_chars(t);
    assert forall|i: int| 0 <= i < s.len() implies '\0' <= #[trigger] s[i] && s[i] <= '\u{7f}' by {
        lemma_char_nonneg(s[i]);
        if s.len() >= 1 && s[s.len() - 1] == '=' && s.len() >= 2 && s[s.len() - 2] == '=' {
            if i < s.len() - 2 {
                assert(t[i] == s[i]);
                assert(is_b64_char(t[i]));
            } else {
                assert(s[i] == '=');
            }
        } else if s.len() >= 1 && s[s.len() - 1] == '=' {
            if i < s.len() - 1 {
                assert(t[i] == s[i]);
                assert(is_b64_char(t[i]));
            } else {
                assert(s[i] == '=');
            }
        } else {
            assert(t[i] == s[i]);
            assert(is_b64_char(t[i]));
        }
    }
}

/// Decodes base64 text to bytes. Accepts the standard and URL-safe
/// alphabets and up to two trailing padding characters; fails exactly when
/// the text is malformed.
#[verifier::rlimit(60)]
pub fn base64_decode(s: &str) -> (r: Result<Vec<u8>, AttestError>)
    ensures
        r is Ok <==> spec_b64_decode(s@) is Some,
        r matches Ok(v) ==> Some(v@) == spec_b64_decode(s@),
        r matches Err(e) ==> e == AttestError::DecodeError,
{
    if !s.is_ascii() {
        proof {
            if spec_b64_decode(s@) is Some {
                lemma_b64_decode_ascii(s@);
                assert(vstd::string::is_ascii(s));
                assert(false);
            }
        }
        return Err(AttestError::DecodeError);
    }
    let bytes = s.as_bytes();
    let n = bytes.len();
    proof {
        vstd::string::is_ascii_spec_bytes(s);
        assert(n == s@.len());
        assert(forall|j: int| 0 <= j < s@.len() ==> bytes@[j] == #[trigger] s@[j] as u8);
        assert(forall|j: int|
            0 <= j < s@.len() ==> ((#[trigger] s@[j] == '=') <==> bytes@[j] == 0x3d));
    }
    let mut m = n;
    if m >= 1 && bytes[m - 1] == 0x3d {
        m = m - 1;
        if m >= 1 && bytes[m - 1] == 0x3d {
            m = m - 1;
        }
    }
    let ghost t = spec_b64_strip(s@);
    proof {
        assert(t =~= s@.take(m as int));
    }
    let mut out: Vec<u8> = Vec::new();
    let mut i: usize = 0;
    proof {
        assert(t.skip(0) =~= t);
        if spec_b64_decode_core(t) is Some {
            let whole = spec_b64_decode_core(t)->Some_0;
            assert(out@ + whole =~= whole);
        }
    }
    while m - i >= 4
        invariant
            vstd::string::is_ascii(s),
            n == s@.len(),
            bytes@.len() == n,
            forall|j: int| 0 <= j < s@.len() ==> bytes@[j] == #[trigger] s@[j] as u8,
            m <= n,
            t == s@.take(m as int),
            t == spec_b64_strip(s@),
            i % 4 == 0,
            i <= m,
            out@.len() == 3 * (i / 4),
            spec_b64_decode_core(t) == (match spec_b64_decode_core(t.skip(i as int)) {
                Some(rest) => Some(out@ + rest),
                None => None::<Seq<u8>>,
            }),
        decreases m - i,
    {
        let ghost u = t.skip(i as int);
        proof {
            assert(u.len() == m - i >= 4);
            assert(u[0] == s@[i as int] && u[1] == s@[i + 1] && u[2] == s@[i + 2] && u[3] == s@[i
                + 3]);
            assert(forall|j: int| 0 <= j < s@.len() ==> (s@[j] as u8) as char == #[trigger] s@[j]);
        }
        let w0 = b64_value_of(bytes[i]);
        let w1 = b64_value_of(bytes[i + 1]);
        let w2 = b64_value_of(bytes[i + 2]);
        let w3 = b64_value_of(bytes[i + 3]);
        match (w0, w1, w2, w3) {
            (Some(v0), Some(v1), Some(v2), Some(v3)) => {
                proof {
                    assert(is_b64_char(u[0]) && is_b64_char(u[1]) && is_b64_char(u[2])
                        && is_b64_char(u[3]));
                    assert(b64_val(u[0]) == v0 && b64_val(u[1]) == v1 && b64_val(u[2]) == v2
                        && b64_val(u[3]) == v3);
                }
                let y0 = (v0 << 2) | (v1 >> 4);
                let y1 = ((v1 & 15) << 4) | (v2 >> 2);
                let y2 = ((v2 & 3) << 6) | v3;
                out.push(y0);
                out.push(y1);
                out.push(y2);
                proof {
                    assert(u.skip(4) =~= t.skip(i + 4));
                    assert(spec_b64_decode_core(u) == (match spec_b64_decode_core(t.skip(i + 4)) {
                        Some(rest) => Some(seq![y0, y1, y2] + rest),
                        None => None::<Seq<u8>>,
                    }));
                    if spec_b64_decode_core(t.skip(i + 4)) is Some {
                        let rest = spec_b64_decode_core(t.skip(i + 4))->Some_0;
                        assert(out@ + rest =~= (out@.subrange(0, out@.len() - 3)) + (seq![
                            y0,
                            y1,
                            y2,
                        ] + rest));
                    }
                }
                i += 4;
            },
            _ => {
                proof {
                    assert(!(is_b64_char(u[0]) && is_b64_char(u[1]) && is_b64_char(u[2])
                        && is_b64_char(u[3])));
                    assert(spec_b64_decode_core(u) is None);
                }
                return Err(AttestError::DecodeError);
            },
        }
    }
    let rem = m - i;
    let ghost u = t.skip(i as int);
    proof {
        assert(u.len() == rem);
        assert(forall|j: int| 0 <= j < s@.len() ==> (s@[j] as u8) as char == #[trigger] s@[j]);
    }
    if rem == 0 {
        proof {
            assert(u =~= Seq::<char>::empty());
            assert(spec_b64_decode_core(u) == Some(Seq::<u8>::empty()));
            assert(out@ + Seq::<u8>::empty() =~= out@);
        }
        Ok(out)
    } else if rem == 1 {
        proof {
            assert(spec_b64_decode_core(u) is None);
        }
        Err(AttestError::DecodeError)
    } else if rem == 2 {
        proof {
            assert(u[0] == s@[i as int] && u[1] == s@[i + 1]);
        }
        let w0 = b64_value_of(bytes[i]);
        let w1 = b64_value_of(bytes[i + 1]);
        match (w0, w1) {
            (Some(v0), Some(v1)) if v1 & 15 == 0 => {
                out.push((v0 << 2) | (v1 >> 4));
                proof {
                    assert(spec_b64_decode_core(u) == Some(seq![(v0 << 2) | (v1 >> 4)]));
                    assert(out@ =~= out@.subrange(0, out@.len() - 1) + seq![(v0 << 2) | (v1 >> 4)]);
                }
                Ok(out)
            },
            _ => {
                proof {
                    assert(spec_b64_decode_core(u) is None);
                }
                Err(AttestError::DecodeError)
            },
        }
    } else {
        proof {
            assert(rem == 3);
            assert(u[0] == s@[i as int] && u[1] == s@[i + 1] && u[2] == s@[i + 2]);
        }
        let w0 = b64_value_of(bytes[i]);
        let w1 = b64_value_of(bytes[i + 1]);
        let w2 = b64_value_of(bytes[i + 2]);
        match (w0, w1, w2) {
            (Some(v0), Some(v1), Some(v2)) if v2 & 3 == 0 => {
                let y0 = (v0 << 2) | (v1 >> 4);
                let y1 = ((v1 & 15) << 4) | (v2 >> 2);
                out.push(y0);
                out.push(y1);
                proof {
                    assert(spec_b64_decode_core(u) == Some(seq![y0, y1]));
                    assert(out@ =~= out@.subrange(0, out@.len() - 2) + seq![y0, y1]);
                }
                Ok(out)
            },
            _ => {
                proof {
                    assert(spec_b64_decode_core(u) is None);
                }
                Err(AttestError::DecodeError)
            },
        }
    }
}

/// Every character is at least the NUL character.
proof fn lemma_char_nonneg(c: char)
    ensures
        '\0' <= c,
{
}

/// Hex decoding then hex encoding gives back the original string up to case:
/// every digit reappears in its lower-case form.
pub proof fn lemma_hex_round_trip(h: Seq<char>)
    requires
        spec_hex_valid(h),
    ensures
        spec_hex_encode(spec_hex_decode(h)) =~= h.map_values(|c: char| ascii_lower(c)),
{
    let d = spec_hex_decode(h);
    let e = spec_hex_encode(d);
    assert(e.len() == h.len());
    assert forall|i: int| 0 <= i < e.len() implies e[i] == ascii_lower(h[i]) by {
        let k = i / 2;
        let a = hex_val(h[2 * k]);
        let b = hex_val(h[2 * k + 1]);
        assert(is_hex_digit(h[2 * k]));
        assert(is_hex_digit(h[2 * k + 1]));
        assert(a < 16 && b < 16);
        let byte = (a * 16 + b) as u8;
        assert(byte >> 4 == a && byte & 15 == b) by (bit_vector)
            requires
                a < 16,
                b < 16,
                byte == (a * 16 + b) as u8,
        ;
        if i % 2 == 0 {
            assert(i == 2 * k);
            assert(e[i] == hex_lower_char(a));
            assert(hex_lower_char(hex_val(h[i])) == ascii_lower(h[i]));
        } else {
            assert(i == 2 * k + 1);
            assert(e[i] == hex_lower_char(b));
            assert(hex_lower_char(hex_val(h[i])) == ascii_lower(h[i]));
        }
    }
}

} // verus!
