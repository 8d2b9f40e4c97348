//! Byte-level escaping for rendered paths and query strings.
//!
//! Two escape policies live here, both stated over the UTF-8 bytes of the
//! input and both producing pure-ASCII output:
//!
//! - the path-segment policy: a captured value substituted into a path
//!   segment must escape the control bytes, every non-ASCII byte, space,
//!   and `" < > ` # ? { } / %`, so the rendered path stays a valid URI;
//! - the `application/x-www-form-urlencoded` policy used for query pairs:
//!   alphanumerics and `* - . _` pass through, space becomes `+`, and
//!   every other byte is percent-escaped.
//!
//! The percent escape of a single byte and the form encoding of a byte
//! string are performed by an outside URL-encoding crate through trusted
//! wrappers; the choice of which bytes to escape in a path segment, and
//! the loop applying it, are verified here.

use vstd::prelude::*;
use vstd::utf8::encode_utf8;

verus! {

/// The uppercase hexadecimal digit for a value below sixteen.
pub open spec fn hex_upper_digit(n: u8) -> char {
    if n < 10 {
        (n + 48) as char  // '0' to '9'
    } else {
        (n + 55) as char  // 'A' to 'F'
    }
}

/// The three-character percent escape `%XX` of one byte, uppercase.
pub open spec fn percent_escaped_byte(b: u8) -> Seq<char> {
    seq!['%', hex_upper_digit(b / 16), hex_upper_digit(b % 16)]
}

/// Whether a byte must be escaped when substituted into a path segment:
/// controls and non-ASCII bytes, space, and `" < > ` # ? { } / %`.
pub open spec fn path_segment_escapes(b: u8) -> bool {
    b < 0x20 || b >= 0x7f || b == 0x20 || b == 0x22 || b == 0x3c || b == 0x3e || b == 0x60 || b
        == 0x23 || b == 0x3f || b == 0x7b || b == 0x7d || b == 0x2f || b == 0x25
}

/// What one byte contributes to an encoded path segment.
pub open spec fn encoded_path_byte(b: u8) -> Seq<char> {
    if path_segment_escapes(b) {
        percent_escaped_byte(b)
    } else {
        seq![b as char]
    }
}

/// The encoded form of a byte string under the path-segment policy.
pub open spec fn encoded_path_bytes(bs: Seq<u8>) -> Seq<char>
    decreases bs.len(),
{
    if bs.len() == 0 {
        Seq::<char>::empty()
    } else {
        encoded_path_byte(bs[0]) + encoded_path_bytes(bs.drop_first())
    }
}

/// The encoded form of a character string under the path-segment policy:
/// its UTF-8 bytes, each escaped or passed through.
pub open spec fn path_segment_encoded(s: Seq<char>) -> Seq<char> {
    encoded_path_bytes(encode_utf8(s))
}

/// Whether a byte passes through form-urlencoding unchanged:
/// ASCII alphanumerics and `* - . _`.
pub open spec fn form_byte_unchanged(b: u8) -> bool {
    b == 0x2a || b == 0x2d || b == 0x2e || b == 0x5f || (0x30 <= b && b <= 0x39) || (0x41 <= b
        && b <= 0x5a) || (0x61 <= b && b <= 0x7a)
}

/// What one byte contributes to a form-urlencoded string: space becomes
/// `+`, unchanged bytes pass through, everything else is percent-escaped.
pub open spec fn encoded_form_byte(b: u8) -> Seq<char> {
    if b == 0x20 {
        seq!['+']
    } else if form_byte_unchanged(b) {
        seq![b as char]
    } else {
        percent_escaped_byte(b)
    }
}

/// The form-urlencoded form of a byte string.
pub open spec fn encoded_form_bytes(bs: Seq<u8>) -> Seq<char>
    decreases bs.len(),
{
    if bs.len() == 0 {
        Seq::<char>::empty()
    } else {
        encoded_form_byte(bs[0]) + encoded_form_bytes(bs.drop_first())
    }
}

/// The form-urlencoded form of a character string, over its UTF-8 bytes.
pub open spec fn form_component_encoded(s: Seq<char>) -> Seq<char> {
    encoded_form_bytes(encode_utf8(s))
}

/// Whether a character is an uppercase hexadecimal digit.
pub open spec fn is_hex_upper(c: char) -> bool {
    let n = c as u32;
    (48 <= n && n <= 57) || (65 <= n && n <= 70)
}

/// The value of an uppercase hexadecimal digit character.
pub open spec fn hex_digit_value(c: char) -> u8 {
    let n = c as u32;
    if 48 <= n && n <= 57 {
        (n - 48) as u8
    } else if 65 <= n && n <= 70 {
        (n - 55) as u8
    } else {
        0
    }
}

/// Decoding of a form-urlencoded string back to the original bytes:
/// `+` stands for space, `%` must be followed by two uppercase hex
/// digits naming the byte, and any other character must be one that the
/// encoding passes through unchanged.
pub open spec fn form_decoded_bytes(s: Seq<char>) -> Option<Seq<u8>>
    decreases s.len(),
{
    if s.len() == 0 {
        Some(Seq::<u8>::empty())
    } else if s[0] == '+' {
        match form_decoded_bytes(s.drop_first()) {
            Some(r) => Some(seq![0x20u8] + r),
            None => None,
        }
    } else if s[0] == '%' {
        if s.len() >= 3 && is_hex_upper(s[1]) && is_hex_upper(s[2]) {
            match form_decoded_bytes(s.skip(3)) {
                Some(r) => Some(
                    seq![((16 * hex_digit_value(s[1]) + hex_digit_value(s[2])) as u8)] + r,
                ),
                None => None,
            }
        } else {
            None
        }
    } else if (s[0] as u32) < 0x80 && form_byte_unchanged(s[0] as u8) {
        match form_decoded_bytes(s.drop_first()) {
            Some(r) => Some(seq![(s[0] as u8)] + r),
            None => None,
        }
    } else {
        None
    }
}

/// The uppercase hex pair of a byte decodes back to that byte.
proof fn lemma_hex_pair_value(b: u8)
    ensures
        is_hex_upper(hex_upper_digit(b / 16)),
        is_hex_upper(hex_upper_digit(b % 16)),
        16 * hex_digit_value(hex_upper_digit(b / 16)) + hex_digit_value(hex_upper_digit(b % 16))
            == b,
{
    assert(b / 16 < 16);
    assert(b % 16 < 16);
    assert(16 * (b / 16) + b % 16 == b);
}

/// One encoded byte followed by any tail decodes to that byte followed
/// by the tail's decoding.
proof fn lemma_form_byte_decodes(b: u8, s: Seq<char>)
    ensures
        form_decoded_bytes(encoded_form_byte(b) + s) == (match form_decoded_bytes(s) {
            Some(r) => Some(seq![b] + r),
            None => None,
        }),
{
    let t = encoded_form_byte(b) + s;
    if b == 0x20 {
        assert(t[0] == '+');
        assert(t.drop_first() =~= s);
    } else if form_byte_unchanged(b) {
        assert(t[0] == b as char);
        assert(t[0] != '+' && t[0] != '%');
        assert((t[0] as u32) < 0x80 && form_byte_unchanged(t[0] as u8));
        assert(t[0] as u8 == b);
        assert(t.drop_first() =~= s);
    } else {
        lemma_hex_pair_value(b);
        assert(t[0] == '%');
        assert(t[1] == hex_upper_digit(b / 16));
        assert(t[2] == hex_upper_digit(b % 16));
        assert(t.len() >= 3);
        assert(t.skip(3) =~= s);
        assert((16 * hex_digit_value(t[1]) + hex_digit_value(t[2])) as u8 == b);
    }
}

/// The form encoding loses nothing: decoding an encoded byte string
/// gives back exactly the original bytes. Together with the encoder's
/// contract this makes every rendered query string round-trip
/// decodable.
pub proof fn lemma_form_encoding_round_trips(bs: Seq<u8>)
    ensures
        form_decoded_bytes(encoded_form_bytes(bs)) == Some(bs),
    decreases bs.len(),
{
    if bs.len() == 0 {
        assert(encoded_form_bytes(bs) =~= Seq::<char>::empty());
    } else {
        lemma_form_encoding_round_trips(bs.drop_first());
        lemma_form_byte_decodes(bs[0], encoded_form_bytes(bs.drop_first()));
        assert(seq![bs[0]] + bs.drop_first() =~= bs);
    }
}

/// Appending one byte to the input appends that byte's contribution to
/// the path-segment encoding.
proof fn lemma_encoded_path_bytes_push(bs: Seq<u8>, b: u8)
    ensures
        encoded_path_bytes(bs + seq![b]) =~= encoded_path_bytes(bs) + encoded_path_byte(b),
    decreases bs.len(),
{
    let t = bs + seq![b];
    if bs.len() == 0 {
        assert(t =~= seq![b]);
        assert(t.drop_first() =~= Seq::<u8>::empty());
        assert(t[0] == b);
        assert(encoded_path_bytes(t) == encoded_path_byte(b) + encoded_path_bytes(
            t.drop_first(),
        ));
        assert(encoded_path_bytes(t) =~= encoded_path_byte(b));
        assert(encoded_path_bytes(bs) + encoded_path_byte(b) =~= encoded_path_byte(b));
    } else {
        assert(t.len() == bs.len() + 1);
        assert(t[0] == bs[0]);
        assert(t.drop_first() =~= bs.drop_first() + seq![b]);
        lemma_encoded_path_bytes_push(bs.drop_first(), b);
        assert(encoded_path_bytes(t) == encoded_path_byte(bs[0]) + encoded_path_bytes(
            t.drop_first(),
        ));
        assert(encoded_path_bytes(bs) == encoded_path_byte(bs[0]) + encoded_path_bytes(
            bs.drop_first(),
        ));
        assert(encoded_path_bytes(t) =~= encoded_path_bytes(bs) + encoded_path_byte(b));
    }
}

/// Relies on `percent_encoding::percent_encode_byte`: for any byte it
/// returns the three-character string `%XX` with uppercase hex digits.
#[verifier::external_body]
fn percent_escape_byte(b: u8) -> (r: &'static str)
    ensures
        r@ == percent_escaped_byte(b),
{
    percent_encoding::percent_encode_byte(b)
}

/// Relies on `form_urlencoded::byte_serialize`: ASCII alphanumerics and
/// `* - . _` pass through, space becomes `+`, every other byte becomes
/// `%XX` with uppercase hex digits.
#[verifier::external_body]
fn form_urlencode_bytes(bs: &[u8]) -> (r: String)
    ensures
        r@ == encoded_form_bytes(bs@),
{
    form_urlencoded::byte_serialize(bs).collect()
}

/// Whether a byte must be escaped in a path segment.
fn byte_escapes_in_path_segment(b: u8) -> (r: bool)
    ensures
        r == path_segment_escapes(b),
{
    b < 0x20 || b >= 0x7f || b == 0x20 || b == 0x22 || b == 0x3c || b == 0x3e || b == 0x60 || b
        == 0x23 || b == 0x3f || b == 0x7b || b == 0x7d || b == 0x2f || b == 0x25
}

/// Escapes a captured value for substitution into one path segment,
/// byte by byte over its UTF-8 form.
pub fn encode_path_segment(s: &str) -> (r: String)
    ensures
        r@ == path_segment_encoded(s@),
{
    let bytes = s.as_bytes_vec();
    let mut out = String::new();
    let mut i: usize = 0;
    while i < bytes.len()
        invariant
            i <= bytes@.len(),
            bytes@ == encode_utf8(s@),
            out@ == encoded_path_bytes(bytes@.take(i as int)),
        decreases bytes@.len() - i,
    {
        let b = bytes[i];
        proof {
            assert(bytes@.take(i + 1) =~= bytes@.take(i as int) + seq![bytes@[i as int]]);
            lemma_encoded_path_bytes_push(bytes@.take(i as int), bytes@[i as int]);
        }
        if byte_escapes_in_path_segment(b) {
            out.append(percent_escape_byte(b));
        } else {
            push_char(&mut out, b as char);
        }
        i += 1;
    }
    proof {
        assert(bytes@.take(bytes@.len() as int) =~= bytes@);
    }
    out
}

/// Relies on `String::push` (documented: appends the given character to
/// the end of the string).
#[verifier::external_body]
pub(crate) fn push_char(s: &mut String, c: char)
    ensures
        final (s)@ == old(s)@ + seq![c],
{
    s.push(c);
}

/// Form-urlencodes one component (a query key or value) over its UTF-8
/// bytes.
pub fn form_encode_component(s: &str) -> (r: String)
    ensures
        r@ == form_component_encoded(s@),
{
    let bytes = s.as_bytes_vec();
    form_urlencode_bytes(bytes.as_slice())
}

} // verus!
