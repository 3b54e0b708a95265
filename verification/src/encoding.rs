//! The byte layout that `bincode` gives a block's proof-of-work input.

use vstd::prelude::*;
use vstd::utf8::encode_utf8;

verus! {

/// The `n` least significant bytes of `v`, least significant first.
pub open spec fn le_bytes(v: nat, n: nat) -> Seq<u8>
    decreases n,
{
    if n == 0 {
        seq![]
    } else {
        seq![(v % 256) as u8] + le_bytes(v / 256, (n - 1) as nat)
    }
}

/// `bytes` preceded by their length as eight little-endian bytes (how bincode
/// writes a string or a byte vector with its default fixed-width integers).
pub open spec fn length_prefixed(bytes: Seq<u8>) -> Seq<u8> {
    le_bytes(bytes.len(), 8) + bytes
}

/// The two's-complement bit pattern of a 32-bit signed integer.
pub open spec fn i32_bits(x: i32) -> nat {
    if x >= 0 {
        x as nat
    } else {
        (x + 0x1_0000_0000) as nat
    }
}

/// The bincode encoding of the tuple `(header, prev, prev_other, tx_root,
/// timestamp, target, nonce)` of types `(String, String, String, Vec<u8>,
/// u128, usize, i32)`: each string and the byte vector length-prefixed, then
/// the integers in little-endian order at their fixed widths (a `usize` as
/// eight bytes).
pub open spec fn header_encoding(
    header: Seq<char>,
    prev: Seq<char>,
    prev_other: Seq<char>,
    tx_root: Seq<u8>,
    timestamp: u128,
    target: usize,
    nonce: i32,
) -> Seq<u8> {
    length_prefixed(encode_utf8(header)) + length_prefixed(encode_utf8(prev)) + length_prefixed(
        encode_utf8(prev_other),
    ) + length_prefixed(tx_root) + le_bytes(timestamp as nat, 16) + le_bytes(target as nat, 8)
        + le_bytes(i32_bits(nonce), 4)
}

/// Calls `bincode::serialize` on the tuple `(header, prev, prev_other,
/// tx_root, timestamp, target, nonce)`. It succeeds, and the bytes are the
/// layout that bincode 1's default options (fixed-width little-endian
/// integers, `u64` lengths) give that tuple. Success is what bincode 1.3's
/// source shows for these types: `serialize` uses an infinite size limit,
/// strings and slices have known lengths, and writing to a `Vec<u8>` cannot
/// fail.
#[verifier::external_body]
pub(crate) fn serialize_header(
    header: &str,
    prev: &str,
    prev_other: &str,
    tx_root: &[u8],
    timestamp: u128,
    target: usize,
    nonce: i32,
) -> (bytes: Option<Vec<u8>>)
    ensures
        bytes is Some,
        bytes matches Some(b) ==> b@ == header_encoding(
            header@,
            prev@,
            prev_other@,
            tx_root@,
            timestamp,
            target,
            nonce,
        ),
{
    bincode::serialize(&(header, prev, prev_other, tx_root, timestamp, target, nonce)).ok()
}

} // verus!
