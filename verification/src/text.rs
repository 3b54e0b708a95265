//! Bytes to text: UTF-8 decoding and lower-case hexadecimal.

use vstd::prelude::*;
use vstd::utf8::*;

verus! {

/// Calls `String::from_utf8`, as its documentation states: it succeeds exactly
/// on valid UTF-8, and the string then holds the decoded characters.
#[verifier::external_body]
fn string_from_utf8(bytes: Vec<u8>) -> (s: Option<String>)
    ensures
        s is Some <==> valid_utf8(bytes@),
        s matches Some(t) ==> t@ == decode_utf8(bytes@),
{
    String::from_utf8(bytes).ok()
}

/// The text that `bytes` encode, or `None` where they are not valid UTF-8.
pub fn utf8_text(bytes: Vec<u8>) -> (s: Option<String>)
    ensures
        s is Some <==> valid_utf8(bytes@),
        s matches Some(t) ==> t@ == decode_utf8(bytes@),
{
    string_from_utf8(bytes)
}

/// The lower-case hexadecimal digit of a number below 16.
pub open spec fn hex_digit(n: int) -> char {
    if n < 10 {
        (n + 48) as char
    } else {
        (n + 87) as char
    }
}

/// Lower-case hexadecimal rendering of `bytes`: two digits per byte, the
/// high nibble first.
pub open spec fn hex_lower(bytes: Seq<u8>) -> Seq<char> {
    Seq::new(
        2 * bytes.len(),
        |i: int|
            if i % 2 == 0 {
                hex_digit(bytes[i / 2] as int / 16)
            } else {
                hex_digit(bytes[i / 2] as int % 16)
            },
    )
}

/// The ASCII byte of a hexadecimal digit.
fn hex_digit_byte(n: u8) -> (b: u8)
    requires
        n < 16,
    ensures
        b as int == hex_digit(n as int) as int,
        b < 128,
{
    if n < 10 {
        n + 48
    } else {
        n + 87
    }
}

proof fn lemma_hex_ascii(bytes: Seq<u8>)
    ensures
        is_ascii_chars(hex_lower(bytes)),
{
    assert forall|i| 0 <= i < hex_lower(bytes).len() implies '\0' <= #[trigger] hex_lower(
        bytes,
    )[i] <= '\u{7f}' by {
        let b = bytes[i / 2];
        assert(b / 16 < 16);
        assert(b % 16 < 16);
    }
}

/// Lower-case hexadecimal rendering of `bytes`.
pub fn to_hex(bytes: &[u8]) -> (s: String)
    requires
        bytes@.len() * 2 <= usize::MAX,
    ensures
        s@ == hex_lower(bytes@),
{
    let ghost chars = hex_lower(bytes@);
    let mut out: Vec<u8> = Vec::new();
    let mut i: usize = 0;
    while i < bytes.len()
        invariant
            i <= bytes@.len(),
            chars == hex_lower(bytes@),
            out@.len() == 2 * i,
            forall|k: int| 0 <= k < 2 * i ==> out@[k] as int == #[trigger] chars[k] as int,
        decreases bytes@.len() - i,
    {
        let b = bytes[i];
        let hi = hex_digit_byte(b / 16);
        let lo = hex_digit_byte(b % 16);
        out.push(hi);
        out.push(lo);
        assert((2 * i as int) / 2 == i as int);
        assert((2 * i as int + 1) / 2 == i as int);
        i = i + 1;
    }
    proof {
        lemma_hex_ascii(bytes@);
        is_ascii_chars_encode_utf8(chars);
        assert(out@ =~= encode_utf8(chars)) by {
            assert forall|k: int| 0 <= k < out@.len() implies out@[k] == encode_utf8(chars)[k] by {
                assert(chars[k] as u8 == encode_utf8(chars)[k]);
            }
        }
        encode_utf8_valid_utf8(chars);
        encode_utf8_decode_utf8(chars);
    }
    match string_from_utf8(out) {
        Some(s) => s,
        None => {
            proof {
                assert(false);
            }
            String::new()
        },
    }
}

/// Whether two strings are equal.
pub fn str_equal(a: &str, b: &str) -> (eq: bool)
    ensures
        eq == (a@ == b@),
{
    let x = a.as_bytes();
    let y = b.as_bytes();
    let mut same = x.len() == y.len();
    let mut i: usize = 0;
    while same && i < x.len()
        invariant
            x@ == encode_utf8(a@),
            y@ == encode_utf8(b@),
            i <= x@.len(),
            same ==> x@.len() == y@.len(),
            same ==> forall|k: int| 0 <= k < i ==> x@[k] == y@[k],
            !same ==> x@ != y@,
        decreases x@.len() - i,
    {
        if x[i] != y[i] {
            same = false;
        }
        i = i + 1;
    }
    proof {
        broadcast use encode_utf8_decode_utf8;

        if same {
            assert(x@ =~= y@);
        }
        assert(decode_utf8(x@) == a@);
        assert(decode_utf8(y@) == b@);
    }
    same
}

} // verus!
