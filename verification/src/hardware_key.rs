//! The hardware identity of a file: inode and device, as the kernel side keys its watchlists.

use crate::encoding::{
    byte_of, in_native_order, little_bytes_u32, little_bytes_u64, u32_to_ne_bytes, u64_to_ne_bytes,
};
use vstd::prelude::*;

verus! {

/// The major number of a userland `dev_t`.
pub open spec fn device_major(dev: u64) -> u64 {
    ((dev >> 8) & 0xfff) | ((dev >> 32) & !0xfffu64)
}

/// The minor number of a userland `dev_t`.
pub open spec fn device_minor(dev: u64) -> u64 {
    (dev & 0xff) | ((dev >> 12) & !0xffu64)
}

/// A userland `dev_t` in the 32-bit format of the kernel.
pub open spec fn kernel_device(dev: u64) -> u32 {
    ((device_major(dev) as u32) << 20u32) | (device_minor(dev) as u32)
}

/// The userland `dev_t` of a device, as `makedev` of the C library composes it.
pub open spec fn user_device(major: u32, minor: u32) -> u64 {
    ((minor as u64) & 0xff) | (((major as u64) & 0xfff) << 8) | (((minor as u64) & !0xffu64) << 12)
        | (((major as u64) & !0xfffu64) << 32)
}

/// The watchlist key of a file: inode, device, and four bytes of padding.
pub open spec fn hardware_key(ino: u64, dev: u64) -> Seq<u8> {
    in_native_order(little_bytes_u64(ino)) + in_native_order(little_bytes_u32(kernel_device(dev)))
        + seq![0u8, 0u8, 0u8, 0u8]
}

/// Makes the 16-byte watchlist key from the inode and device numbers of a file's metadata.
pub fn generate_hardware_key(ino: u64, dev: u64) -> (r: [u8; 16])
    ensures
        r@ == hardware_key(ino, dev),
{
    let major: u64 = ((dev >> 8) & 0xfff) | ((dev >> 32) & !0xfffu64);
    let minor: u64 = (dev & 0xff) | ((dev >> 12) & !0xffu64);
    let device: u32 = (#[verifier::truncate]
    (major as u32) << 20u32) | #[verifier::truncate]
    (minor as u32);
    let i = u64_to_ne_bytes(ino);
    let d = u32_to_ne_bytes(device);
    let key: [u8; 16] = [
        i[0],
        i[1],
        i[2],
        i[3],
        i[4],
        i[5],
        i[6],
        i[7],
        d[0],
        d[1],
        d[2],
        d[3],
        0,
        0,
        0,
        0,
    ];
    assert(key@ =~= hardware_key(ino, dev));
    key
}

/// The padding of a key is zero and its length is that of the kernel structure.
pub proof fn law_key_layout(ino: u64, dev: u64)
    ensures
        hardware_key(ino, dev).len() == 16,
        forall|i: int| 12 <= i < 16 ==> hardware_key(ino, dev)[i] == 0,
{
}

/// A device number survives the way from its parts through userland to the kernel format, for
/// every major and minor number that the kernel format has room for.
pub proof fn law_device_round_trip(major: u32, minor: u32)
    requires
        major < 0x1000,
        minor < 0x10_0000,
    ensures
        device_major(user_device(major, minor)) == major,
        device_minor(user_device(major, minor)) == minor,
        kernel_device(user_device(major, minor)) == major * 0x10_0000 + minor,
{
    let dev = user_device(major, minor);
    assert(((dev >> 8) & 0xfff) | ((dev >> 32) & !0xfffu64) == major as u64) by (bit_vector)
        requires
            major < 0x1000,
            minor < 0x10_0000,
            dev == ((minor as u64) & 0xff) | (((major as u64) & 0xfff) << 8) | (((minor as u64)
                & !0xffu64) << 12) | (((major as u64) & !0xfffu64) << 32),
    ;
    assert((dev & 0xff) | ((dev >> 12) & !0xffu64) == minor as u64) by (bit_vector)
        requires
            major < 0x1000,
            minor < 0x10_0000,
            dev == ((minor as u64) & 0xff) | (((major as u64) & 0xfff) << 8) | (((minor as u64)
                & !0xffu64) << 12) | (((major as u64) & !0xfffu64) << 32),
    ;
    assert((major << 20u32) | minor == major * 0x10_0000 + minor) by (bit_vector)
        requires
            major < 0x1000,
            minor < 0x10_0000,
    ;
}

spec fn base_power(k: nat) -> nat
    decreases k,
{
    if k == 0 {
        1
    } else {
        256 * base_power((k - 1) as nat)
    }
}

proof fn lemma_bytes_determine_number(n: nat, m: nat, k: nat)
    requires
        n < base_power(k),
        m < base_power(k),
        forall|i: nat| i < k ==> #[trigger] byte_of(n, i) == byte_of(m, i),
    ensures
        n == m,
    decreases k,
{
    if k > 0 {
        assert(byte_of(n, 0) == byte_of(m, 0));
        assert forall|i: nat| i < k - 1 implies #[trigger] byte_of(n / 256, i) == byte_of(
            m / 256,
            i,
        ) by {
            assert(byte_of(n, i + 1) == byte_of(m, i + 1));
        }
        lemma_bytes_determine_number(n / 256, m / 256, (k - 1) as nat);
    }
}

proof fn lemma_native_order_keeps(a: Seq<u8>, b: Seq<u8>)
    requires
        in_native_order(a) == in_native_order(b),
    ensures
        a == b,
{
    assert(a.reverse().reverse() =~= a);
    assert(b.reverse().reverse() =~= b);
}

/// Two files share a key only if they are the same inode of the same device.
pub proof fn law_key_identifies_file(ino1: u64, dev1: u64, ino2: u64, dev2: u64)
    requires
        hardware_key(ino1, dev1) == hardware_key(ino2, dev2),
    ensures
        ino1 == ino2,
        kernel_device(dev1) == kernel_device(dev2),
{
    let k1 = hardware_key(ino1, dev1);
    let k2 = hardware_key(ino2, dev2);
    assert(in_native_order(little_bytes_u64(ino1)) =~= k1.subrange(0, 8));
    assert(in_native_order(little_bytes_u64(ino2)) =~= k2.subrange(0, 8));
    lemma_native_order_keeps(little_bytes_u64(ino1), little_bytes_u64(ino2));
    let d1 = kernel_device(dev1);
    let d2 = kernel_device(dev2);
    assert(in_native_order(little_bytes_u32(d1)) =~= k1.subrange(8, 12));
    assert(in_native_order(little_bytes_u32(d2)) =~= k2.subrange(8, 12));
    lemma_native_order_keeps(little_bytes_u32(d1), little_bytes_u32(d2));
    reveal_with_fuel(base_power, 9);
    assert forall|i: nat| i < 8 implies #[trigger] byte_of(ino1 as nat, i) == byte_of(
        ino2 as nat,
        i,
    ) by {
        assert(little_bytes_u64(ino1)[i as int] == little_bytes_u64(ino2)[i as int]);
    }
    lemma_bytes_determine_number(ino1 as nat, ino2 as nat, 8);
    assert forall|i: nat| i < 4 implies #[trigger] byte_of(d1 as nat, i) == byte_of(d2 as nat, i) by {
        assert(little_bytes_u32(d1)[i as int] == little_bytes_u32(d2)[i as int]);
    }
    lemma_bytes_determine_number(d1 as nat, d2 as nat, 4);
}

/// On devices that the kernel format has room for, a key tells device numbers apart as well.
pub proof fn law_key_identifies_device(
    ino1: u64,
    major1: u32,
    minor1: u32,
    ino2: u64,
    major2: u32,
    minor2: u32,
)
    requires
        major1 < 0x1000 && major2 < 0x1000,
        minor1 < 0x10_0000 && minor2 < 0x10_0000,
        hardware_key(ino1, user_device(major1, minor1)) == hardware_key(
            ino2,
            user_device(major2, minor2),
        ),
    ensures
        ino1 == ino2,
        major1 == major2,
        minor1 == minor2,
{
    law_key_identifies_file(ino1, user_device(major1, minor1), ino2, user_device(major2, minor2));
    law_device_round_trip(major1, minor1);
    law_device_round_trip(major2, minor2);
}

/// The inode stands first in a key, in eight bytes of the hardware's order, and the device behind it,
/// in four.
pub proof fn law_key_places(ino: u64, dev: u64)
    ensures
        hardware_key(ino, dev).subrange(0, 8) == in_native_order(little_bytes_u64(ino)),
        hardware_key(ino, dev).subrange(8, 12) == in_native_order(
            little_bytes_u32(kernel_device(dev)),
        ),
{
    assert(hardware_key(ino, dev).subrange(0, 8) =~= in_native_order(little_bytes_u64(ino)));
    assert(hardware_key(ino, dev).subrange(8, 12) =~= in_native_order(
        little_bytes_u32(kernel_device(dev)),
    ));
}

/// Whatever the major and minor numbers of a device, the kernel format holds the low twelve bits of
/// the major one above the minor one.
pub proof fn law_kernel_format_of_every_device(major: u32, minor: u32)
    ensures
        kernel_device(user_device(major, minor)) == (major << 20u32) | minor,
{
    let dev = user_device(major, minor);
    assert(((((dev >> 8) & 0xfff) | ((dev >> 32) & !0xfffu64)) as u32) << 20u32 | (((dev & 0xff) | ((
    dev >> 12) & !0xffu64)) as u32) == (major << 20u32) | minor) by (bit_vector)
        requires
            dev == ((minor as u64) & 0xff) | (((major as u64) & 0xfff) << 8) | (((minor as u64)
                & !0xffu64) << 12) | (((major as u64) & !0xfffu64) << 32),
    ;
}

} // verus!
