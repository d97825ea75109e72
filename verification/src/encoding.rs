//! Byte-level encodings: native-order integers and text recovered from raw bytes.

use vstd::endian::{endianness, Endian};
use vstd::prelude::*;
use vstd::utf8::{decode_utf8, valid_utf8};

verus! {

/// The unsigned 32-bit number that four bytes hold, least significant byte first.
pub open spec fn little_u32(b: Seq<u8>) -> u32 {
    (b[0] + 0x100 * b[1] + 0x1_0000 * b[2] + 0x100_0000 * b[3]) as u32
}

/// The unsigned 32-bit number that four bytes hold in the byte order of the hardware.
pub open spec fn native_u32(b: Seq<u8>) -> u32 {
    match endianness() {
        Endian::Little => little_u32(b),
        Endian::Big => little_u32(b.reverse()),
    }
}

/// The four bytes of `n`, least significant byte first.
pub open spec fn little_bytes_u32(n: u32) -> Seq<u8> {
    Seq::new(4, |i: int| byte_of(n as nat, i as nat))
}

/// The eight bytes of `n`, least significant byte first.
pub open spec fn little_bytes_u64(n: u64) -> Seq<u8> {
    Seq::new(8, |i: int| byte_of(n as nat, i as nat))
}

/// Digit `i` of `n` in base 256.
pub open spec fn byte_of(n: nat, i: nat) -> u8
    decreases i,
{
    if i == 0 {
        (n % 256) as u8
    } else {
        byte_of(n / 256, (i - 1) as nat)
    }
}

/// A byte sequence as the hardware lays it out, given least significant byte first.
pub open spec fn in_native_order(little: Seq<u8>) -> Seq<u8> {
    match endianness() {
        Endian::Little => little,
        Endian::Big => little.reverse(),
    }
}

/// Calls `u32::from_ne_bytes` of std, which reads four bytes in the byte order of the hardware.
#[verifier::external_body]
pub(crate) fn u32_from_ne_bytes(bytes: [u8; 4]) -> (r: u32)
    ensures
        r == native_u32(bytes@),
{
    u32::from_ne_bytes(bytes)
}

/// Calls `u32::to_ne_bytes` of std, which writes four bytes in the byte order of the hardware.
#[verifier::external_body]
pub(crate) fn u32_to_ne_bytes(n: u32) -> (r: [u8; 4])
    ensures
        r@ == in_native_order(little_bytes_u32(n)),
{
    n.to_ne_bytes()
}

/// Calls `u64::to_ne_bytes` of std, which writes eight bytes in the byte order of the hardware.
#[verifier::external_body]
pub(crate) fn u64_to_ne_bytes(n: u64) -> (r: [u8; 8])
    ensures
        r@ == in_native_order(little_bytes_u64(n)),
{
    n.to_ne_bytes()
}

/// What `String::from_utf8_lossy` of std makes of bytes that are not valid UTF-8.
pub uninterp spec fn utf8_repaired(bytes: Seq<u8>) -> Seq<char>;

/// The text that raw bytes stand for: what they encode, or a repaired reading of it.
pub open spec fn lossy_text(bytes: Seq<u8>) -> Seq<char> {
    if valid_utf8(bytes) {
        decode_utf8(bytes)
    } else {
        utf8_repaired(bytes)
    }
}

/// Calls `String::from_utf8_lossy` of std. Valid UTF-8 comes out as the characters it encodes. Each
/// invalid sequence is replaced by one character, so that there are never more characters than
/// bytes; which sequences count as one is named, not stated.
#[verifier::external_body]
pub(crate) fn decode_lossy(bytes: &[u8]) -> (r: String)
    ensures
        valid_utf8(bytes@) ==> r@ == decode_utf8(bytes@),
        !valid_utf8(bytes@) ==> r@ == utf8_repaired(bytes@),
        r@.len() <= bytes@.len(),
{
    String::from_utf8_lossy(bytes).into_owned()
}

/// A number that was written in native order is read back unchanged.
pub proof fn law_u32_round_trip(n: u32)
    ensures
        native_u32(in_native_order(little_bytes_u32(n))) == n,
{
    reveal_with_fuel(byte_of, 5);
    let little = little_bytes_u32(n);
    assert(little.reverse().reverse() =~= little);
    assert(little[0] == n % 256);
    assert(little[1] == (n / 256) % 256);
    assert(little[2] == (n / 256 / 256) % 256);
    assert(little[3] == (n / 256 / 256 / 256) % 256);
}

} // verus!
