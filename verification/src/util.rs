//! URL percent-coding and platform-neutral path helpers.

use vstd::prelude::*;
use vstd::utf8::*;
use vstd::string::StringSliceAdditionalSpecFns;
use crate::text::{string_from_utf8_lossy, string_of, utf8_lossy};

verus! {

/// The value of an ASCII hex digit byte.
pub open spec fn hex_value(b: u8) -> Option<u8> {
    if 0x30 <= b && b <= 0x39 {
        Some((b - 0x30) as u8)
    } else if 0x61 <= b && b <= 0x66 {
        Some((b - 0x61 + 10) as u8)
    } else if 0x41 <= b && b <= 0x46 {
        Some((b - 0x41 + 10) as u8)
    } else {
        None
    }
}

/// Percent-decoding of query-string bytes: `%XX` (two hex digits) becomes the
/// byte `0xXX`, and a `+` (literal or `%2B`) becomes a space.
pub open spec fn pct_decode_bytes(b: Seq<u8>) -> Seq<u8>
    decreases b.len(),
{
    if b.len() == 0 {
        seq![]
    } else if b[0] == 0x2B {
        seq![0x20u8] + pct_decode_bytes(b.drop_first())
    } else if b[0] == 0x25 && b.len() > 2 && hex_value(b[1]) is Some && hex_value(b[2]) is Some {
        let v = (hex_value(b[1])->0 * 16 + hex_value(b[2])->0) as u8;
        seq![if v == 0x2B { 0x20u8 } else { v }] + pct_decode_bytes(b.subrange(3, b.len() as int))
    } else {
        seq![b[0]] + pct_decode_bytes(b.drop_first())
    }
}

/// Bytes left as they are by percent-encoding: ASCII alphanumerics and
/// `-`, `.`, `_`, `~`.
pub open spec fn unreserved(b: u8) -> bool {
    (0x30 <= b && b <= 0x39) || (0x41 <= b && b <= 0x5A) || (0x61 <= b && b <= 0x7A) || b == 0x2D
        || b == 0x2E || b == 0x5F || b == 0x7E
}

/// The upper-case hex digit for a value below 16.
pub open spec fn hex_digit(v: u8) -> char {
    if v < 10 {
        ((v + 0x30) as u8) as char
    } else {
        ((v - 10 + 0x41) as u8) as char
    }
}

/// The encoding of one byte.
pub open spec fn pct_encode_byte(b: u8) -> Seq<char> {
    if unreserved(b) {
        seq![b as char]
    } else {
        seq!['%', hex_digit(b / 16), hex_digit(b % 16)]
    }
}

/// Percent-encoding of bytes for a query parameter.
pub open spec fn pct_encode_bytes(b: Seq<u8>) -> Seq<char>
    decreases b.len(),
{
    if b.len() == 0 {
        seq![]
    } else {
        pct_encode_byte(b[0]) + pct_encode_bytes(b.drop_first())
    }
}

/// A path is absolute in either POSIX or Windows form: it starts with `/`
/// or `\`, or with a drive letter and a colon.
pub open spec fn absolute_path_bytes(b: Seq<u8>) -> bool {
    ||| (b.len() > 0 && (b[0] == 0x2F || b[0] == 0x5C))
    ||| (b.len() > 1 && ((0x41 <= b[0] && b[0] <= 0x5A) || (0x61 <= b[0] && b[0] <= 0x7A))
        && b[1] == 0x3A)
}

/// Platform-neutral "absolute path" check for user-supplied storage roots.
///
/// Storage roots are interpreted by the machine running the core (often a
/// Linux container), so either form is accepted regardless of the platform
/// this binary was compiled on.
pub fn is_absolute_path(text: &str) -> (b: bool)
    ensures
        b == absolute_path_bytes(text.spec_bytes()),
{
    let bytes = text.as_bytes();
    if bytes.len() > 0 && (bytes[0] == 47u8 || bytes[0] == 92u8) {
        return true;
    }
    bytes.len() > 1 && ((65u8 <= bytes[0] && bytes[0] <= 90u8) || (97u8 <= bytes[0] && bytes[0]
        <= 122u8)) && bytes[1] == 58u8
}

fn hex_value_exec(b: u8) -> (r: Option<u8>)
    ensures
        r == hex_value(b),
{
    if 48u8 <= b && b <= 57u8 {
        Some(b - 48u8)
    } else if 97u8 <= b && b <= 102u8 {
        Some(b - 97u8 + 10)
    } else if 65u8 <= b && b <= 70u8 {
        Some(b - 65u8 + 10)
    } else {
        None
    }
}

/// Percent-decode a magnet display name (`dn=`).
///
/// A literal `+` is decoded to a space, matching URL query-string semantics.
/// The decoded bytes are read as UTF-8 with invalid sequences replaced.
pub fn percent_decode(s: &str) -> (r: String)
    ensures
        r@ == utf8_lossy(pct_decode_bytes(s.spec_bytes())),
        valid_utf8(pct_decode_bytes(s.spec_bytes())) ==> r@ == decode_utf8(
            pct_decode_bytes(s.spec_bytes()),
        ),
{
    let bytes = s.as_bytes();
    let mut out: Vec<u8> = Vec::new();
    let mut i: usize = 0;
    assert(bytes@.subrange(0, bytes@.len() as int) =~= bytes@);
    while i < bytes.len()
        invariant
            i <= bytes.len(),
            bytes@ == s.spec_bytes(),
            out@ + pct_decode_bytes(bytes@.subrange(i as int, bytes@.len() as int))
                == pct_decode_bytes(bytes@),
        decreases bytes.len() - i,
    {
        let ghost rest = bytes@.subrange(i as int, bytes@.len() as int);
        if bytes[i] == 43u8 {
            assert(rest.drop_first() =~= bytes@.subrange(i + 1, bytes@.len() as int));
            out.push(32u8);
            assert(out@ + pct_decode_bytes(bytes@.subrange(i + 1, bytes@.len() as int)) =~= out@.drop_last() + (seq![0x20u8] + pct_decode_bytes(rest.drop_first())));
            i = i + 1;
            continue;
        }
        if bytes[i] == 37u8 && bytes.len() - i > 2 {
            let hi = hex_value_exec(bytes[i + 1]);
            let lo = hex_value_exec(bytes[i + 2]);
            if let (Some(hi), Some(lo)) = (hi, lo) {
                assert(rest[1] == bytes@[i + 1] && rest[2] == bytes@[i + 2]);
                let v: u8 = hi * 16 + lo;
                assert(rest.subrange(3, rest.len() as int) =~= bytes@.subrange(i + 3, bytes@.len() as int));
                out.push(if v == 43u8 { 32u8 } else { v });
                assert(out@ + pct_decode_bytes(bytes@.subrange(i + 3, bytes@.len() as int)) =~= out@.drop_last() + (seq![out@.last()] + pct_decode_bytes(rest.subrange(3, rest.len() as int))));
                i = i + 3;
                continue;
            }
        }
        assert(rest.drop_first() =~= bytes@.subrange(i + 1, bytes@.len() as int));
        out.push(bytes[i]);
        assert(out@ + pct_decode_bytes(bytes@.subrange(i + 1, bytes@.len() as int)) =~= out@.drop_last() + (seq![bytes@[i as int]] + pct_decode_bytes(rest.drop_first())));
        i = i + 1;
    }
    assert(bytes@.subrange(i as int, bytes@.len() as int) =~= Seq::<u8>::empty());
    assert(out@ + Seq::<u8>::empty() =~= out@);
    string_from_utf8_lossy(out.as_slice())
}

fn hex_digit_exec(v: u8) -> (c: char)
    requires
        v < 16,
    ensures
        c == hex_digit(v),
{
    if v < 10 {
        (v + 0x30) as char
    } else {
        (v - 10 + 0x41) as char
    }
}

/// Percent-encode a string for use in a query parameter: every byte of its
/// UTF-8 encoding other than ASCII alphanumerics and `-._~` becomes `%XX`.
pub fn percent_encode(s: &str) -> (r: String)
    ensures
        r@ == pct_encode_bytes(s.spec_bytes()),
{
    let bytes = s.as_bytes();
    let mut out: Vec<char> = Vec::new();
    let mut i: usize = 0;
    assert(bytes@.subrange(0, bytes@.len() as int) =~= bytes@);
    while i < bytes.len()
        invariant
            i <= bytes.len(),
            bytes@ == s.spec_bytes(),
            out@ + pct_encode_bytes(bytes@.subrange(i as int, bytes@.len() as int))
                == pct_encode_bytes(bytes@),
        decreases bytes.len() - i,
    {
        let ghost rest = bytes@.subrange(i as int, bytes@.len() as int);
        let ghost out0 = out@;
        let b = bytes[i];
        if (48u8 <= b && b <= 57u8) || (65u8 <= b && b <= 90u8) || (97u8 <= b && b <= 122u8) || b
            == 45u8 || b == 46u8 || b == 95u8 || b == 126u8 {
            out.push(b as char);
        } else {
            out.push('%');
            out.push(hex_digit_exec(b / 16));
            out.push(hex_digit_exec(b % 16));
        }
        assert(out@ =~= out0 + pct_encode_byte(b));
        assert(rest.drop_first() =~= bytes@.subrange(i + 1, bytes@.len() as int));
        assert(out0 + pct_encode_bytes(rest) =~= out@ + pct_encode_bytes(rest.drop_first()));
        i = i + 1;
    }
    assert(bytes@.subrange(i as int, bytes@.len() as int) =~= Seq::<u8>::empty());
    assert(out@ + Seq::<char>::empty() =~= out@);
    string_of(out.as_slice())
}

/// The ASCII bytes of an ASCII character sequence.
pub open spec fn ascii_bytes(s: Seq<char>) -> Seq<u8> {
    Seq::new(s.len(), |i: int| s[i] as u8)
}

proof fn lemma_encode_is_ascii(b: Seq<u8>)
    ensures
        is_ascii_chars(pct_encode_bytes(b)),
    decreases b.len(),
{
    if b.len() > 0 {
        lemma_encode_is_ascii(b.drop_first());
        let x = b[0];
        assert(x / 16 < 16 && x % 16 < 16);
        assert(is_ascii_chars(pct_encode_byte(x)));
        vstd::utf8::is_ascii_chars_concat(
            pct_encode_bytes(b),
            pct_encode_byte(x),
            pct_encode_bytes(b.drop_first()),
        );
    }
}

proof fn lemma_decode_of_encode(b: Seq<u8>)
    requires
        !b.contains(0x2Bu8),
    ensures
        pct_decode_bytes(ascii_bytes(pct_encode_bytes(b))) == b,
    decreases b.len(),
{
    if b.len() > 0 {
        let x = b[0];
        let tail = b.drop_first();
        assert(!tail.contains(0x2Bu8)) by {
            if tail.contains(0x2Bu8) {
                let k = choose|k: int| 0 <= k < tail.len() && tail[k] == 0x2Bu8;
                assert(b[k + 1] == 0x2Bu8);
            }
        }
        lemma_decode_of_encode(tail);
        assert(x != 0x2Bu8) by {
            assert(b[0] == x);
        }
        let e = ascii_bytes(pct_encode_bytes(b));
        let et = ascii_bytes(pct_encode_bytes(tail));
        if unreserved(x) {
            assert(e =~= seq![x] + et);
            assert(e.drop_first() =~= et);
            assert(e[0] == x);
        } else {
            let hi = x / 16;
            let lo = x % 16;
            assert(e =~= seq![0x25u8, (hex_digit(hi) as u8), (hex_digit(lo) as u8)] + et);
            assert(hex_value(hex_digit(hi) as u8) == Some(hi));
            assert(hex_value(hex_digit(lo) as u8) == Some(lo));
            assert(hi * 16 + lo == x);
            assert(e.subrange(3, e.len() as int) =~= et);
        }
        assert(pct_decode_bytes(e) =~= seq![x] + tail);
        assert(seq![x] + tail =~= b);
    } else {
        assert(ascii_bytes(pct_encode_bytes(b)) =~= Seq::<u8>::empty());
    }
}

proof fn lemma_plus_free_bytes(s: Seq<char>)
    requires
        !s.contains('+'),
    ensures
        !encode_utf8(s).contains(0x2Bu8),
    decreases s.len(),
{
    if s.len() > 0 {
        let c = s[0];
        assert(!s.drop_first().contains('+')) by {
            if s.drop_first().contains('+') {
                let k = choose|k: int| 0 <= k < s.drop_first().len() && s.drop_first()[k] == '+';
                assert(s[k + 1] == '+');
            }
        }
        lemma_plus_free_bytes(s.drop_first());
        let u = c as u32;
        assert(c != '+') by {
            assert(s[0] == c);
        }
        vstd::utf8::char_is_scalar(c);
        let e = encode_scalar(u);
        assert(!e.contains(0x2Bu8)) by {
            if has_width_1_encoding(u) {
                vstd::utf8::char_u32_cast(c, u);
                assert(u != 0x2B) by {
                    if u == 0x2B {
                        assert((u as char) == c);
                        assert((0x2Bu32 as char) == '+');
                    }
                }
                assert(u <= 0x7F ==> (u & 0x7F) == u) by (bit_vector);
                assert(e[0] == (u & 0x7F) as u8);
            } else {
                assert(forall|v: u32| (#[trigger] (0x80u32 | (v & 0x3F))) as u8 != 0x2Bu8) by (bit_vector);
                assert(forall|v: u32| (#[trigger] (0xC0u8 | ((v >> 6u32) & 0x1F) as u8)) != 0x2Bu8) by (bit_vector);
                assert(forall|v: u32| (#[trigger] (0xE0u8 | ((v >> 12u32) & 0x0F) as u8)) != 0x2Bu8) by (bit_vector);
                assert(forall|v: u32| (#[trigger] (0xF0u8 | ((v >> 18u32) & 0x7) as u8)) != 0x2Bu8) by (bit_vector);
                assert(forall|v: u32| (#[trigger] (0x80u8 | (v & 0x3F) as u8)) != 0x2Bu8) by (bit_vector);
                assert(forall|v: u32| (#[trigger] (0x80u8 | ((v >> 6u32) & 0x3F) as u8)) != 0x2Bu8) by (bit_vector);
                assert(forall|v: u32| (#[trigger] (0x80u8 | ((v >> 12u32) & 0x3F) as u8)) != 0x2Bu8) by (bit_vector);
                if e.contains(0x2Bu8) {
                    let k = choose|k: int| 0 <= k < e.len() && e[k] == 0x2Bu8;
                    assert(false);
                }
            }
        }
        let all = encode_utf8(s);
        assert(all =~= e + encode_utf8(s.drop_first()));
        if all.contains(0x2Bu8) {
            let k = choose|k: int| 0 <= k < all.len() && all[k] == 0x2Bu8;
            if k < e.len() {
                assert(e[k] == 0x2Bu8);
            } else {
                assert(encode_utf8(s.drop_first())[k - e.len()] == 0x2Bu8);
            }
        }
    }
}

/// Percent-decoding undoes percent-encoding for every string without a
/// literal `+` (which the decoder reads as a space).
pub proof fn law_percent_roundtrip(s: &str, encoded: &str)
    requires
        !s@.contains('+'),
        encoded@ == pct_encode_bytes(s.spec_bytes()),
    ensures
        pct_decode_bytes(encoded.spec_bytes()) == s.spec_bytes(),
        decode_utf8(pct_decode_bytes(encoded.spec_bytes())) == s@,
        valid_utf8(pct_decode_bytes(encoded.spec_bytes())),
{
    lemma_encode_is_ascii(s.spec_bytes());
    vstd::utf8::is_ascii_chars_encode_utf8(encoded@);
    assert(encoded.spec_bytes() =~= ascii_bytes(encoded@));
    lemma_plus_free_bytes(s@);
    lemma_decode_of_encode(s.spec_bytes());
    vstd::utf8::encode_utf8_decode_utf8(s@);
    vstd::utf8::encode_utf8_valid_utf8(s@);
}

} // verus!
