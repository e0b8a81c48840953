//! Little-endian values and saturating narrowing.

use vstd::prelude::*;

verus! {

/// `256` to the power `n`: how many values `n` bytes can tell apart.
pub open spec fn pow256(n: nat) -> nat
    decreases n,
{
    if n == 0 {
        1
    } else {
        256 * pow256((n - 1) as nat)
    }
}

/// The number that `bytes` write, least significant byte first.
pub open spec fn le_value(bytes: Seq<u8>) -> nat
    decreases bytes.len(),
{
    if bytes.len() == 0 {
        0
    } else {
        bytes[0] as nat + 256 * le_value(bytes.drop_first())
    }
}

/// The `width` lowest bytes of `value`, least significant byte first.
pub open spec fn le_bytes(value: nat, width: nat) -> Seq<u8>
    decreases width,
{
    if width == 0 {
        Seq::empty()
    } else {
        seq![(value % 256) as u8] + le_bytes(value / 256, (width - 1) as nat)
    }
}

pub proof fn lemma_pow256_bounds()
    ensures
        pow256(0) == 1,
        pow256(1) == 0x100,
        pow256(2) == 0x1_0000,
        pow256(4) == 0x1_0000_0000,
        pow256(5) == 0x100_0000_0000,
        pow256(8) == 0x1_0000_0000_0000_0000,
{
    reveal_with_fuel(pow256, 9);
}

pub proof fn lemma_pow256_monotonic(a: nat, b: nat)
    requires
        a <= b,
    ensures
        pow256(a) <= pow256(b),
        1 <= pow256(a),
    decreases b,
{
    if a < b {
        lemma_pow256_monotonic(a, (b - 1) as nat);
    } else if a > 0 {
        lemma_pow256_monotonic((a - 1) as nat, (a - 1) as nat);
    }
}

/// `n` bytes write a number below `256` to the power `n`.
pub proof fn lemma_le_value_bound(bytes: Seq<u8>)
    ensures
        le_value(bytes) < pow256(bytes.len()),
    decreases bytes.len(),
{
    if bytes.len() > 0 {
        lemma_le_value_bound(bytes.drop_first());
    }
}

pub proof fn lemma_le_bytes_len(value: nat, width: nat)
    ensures
        le_bytes(value, width).len() == width,
    decreases width,
{
    if width > 0 {
        lemma_le_bytes_len(value / 256, (width - 1) as nat);
    }
}

/// Reading back what was written gives the value, as long as it fits the width.
pub proof fn law_le_round_trip(value: nat, width: nat)
    requires
        value < pow256(width),
    ensures
        le_bytes(value, width).len() == width,
        le_value(le_bytes(value, width)) == value,
    decreases width,
{
    if width > 0 {
        let rest = le_bytes(value / 256, (width - 1) as nat);
        law_le_round_trip(value / 256, (width - 1) as nat);
        assert(le_bytes(value, width).drop_first() =~= rest);
    }
}

/// Writing back what was read gives the same bytes.
pub proof fn law_le_verbatim(bytes: Seq<u8>)
    ensures
        le_bytes(le_value(bytes), bytes.len()) == bytes,
    decreases bytes.len(),
{
    if bytes.len() > 0 {
        let rest = bytes.drop_first();
        law_le_verbatim(rest);
        let value = le_value(bytes);
        assert(value % 256 == bytes[0] as nat);
        assert(value / 256 == le_value(rest));
        assert(le_bytes(value, bytes.len()) =~= seq![bytes[0]] + rest);
        assert(bytes =~= seq![bytes[0]] + rest);
    } else {
        assert(bytes =~= Seq::<u8>::empty());
    }
}

/// The part of `bytes` that a `u64` can hold.
pub open spec fn low_eight(bytes: Seq<u8>) -> Seq<u8> {
    if bytes.len() <= 8 {
        bytes
    } else {
        bytes.take(8)
    }
}

/// Reads a little-endian value. Bytes past the eighth are left unread.
pub fn read_le(bytes: &[u8]) -> (value: u64)
    ensures
        value == le_value(low_eight(bytes@)),
{
    let count: usize = if bytes.len() < 8 { bytes.len() } else { 8 };
    let ghost low = low_eight(bytes@);
    let mut value: u64 = 0;
    let mut index: usize = count;
    assert(low.skip(count as int) =~= Seq::<u8>::empty());
    while index > 0
        invariant
            index <= count <= 8,
            count == low.len(),
            count <= bytes@.len(),
            low == low_eight(bytes@),
            value == le_value(low.skip(index as int)),
        decreases index,
    {
        let ghost rest = low.skip(index as int);
        proof {
            lemma_le_value_bound(rest);
            lemma_pow256_monotonic(rest.len(), 7);
            lemma_pow256_bounds();
            assert(pow256(8) == 256 * pow256(7));
        }
        index = index - 1;
        proof {
            assert(low.skip(index as int).drop_first() =~= rest);
        }
        value = value * 256 + bytes[index] as u64;
    }
    assert(low.skip(0) =~= low);
    value
}

/// The `width` lowest bytes of `value`, least significant byte first.
pub fn write_le(value: u64, width: usize) -> (bytes: Vec<u8>)
    ensures
        bytes@ == le_bytes(value as nat, width as nat),
{
    let mut bytes: Vec<u8> = Vec::new();
    let mut rest: u64 = value;
    while bytes.len() < width
        invariant
            bytes@.len() <= width,
            bytes@ + le_bytes(rest as nat, (width - bytes@.len()) as nat) == le_bytes(
                value as nat,
                width as nat,
            ),
        decreases width - bytes@.len(),
    {
        let ghost before = bytes@;
        let ghost left = (width - bytes@.len()) as nat;
        let ghost tail = le_bytes((rest / 256) as nat, (left - 1) as nat);
        bytes.push((rest % 256) as u8);
        proof {
            assert(before + le_bytes(rest as nat, left) =~= before.push((rest % 256) as u8)
                + tail);
        }
        rest = rest / 256;
    }
    assert(bytes@ + Seq::<u8>::empty() =~= bytes@);
    bytes
}

/// The nearest value that one byte can hold.
pub open spec fn saturate_u8(value: u64) -> u8 {
    if value > u8::MAX {
        u8::MAX
    } else {
        value as u8
    }
}

/// The nearest value that two bytes can hold.
pub open spec fn saturate_u16(value: u64) -> u16 {
    if value > u16::MAX {
        u16::MAX
    } else {
        value as u16
    }
}

/// The nearest value that four bytes can hold.
pub open spec fn saturate_u32(value: u64) -> u32 {
    if value > u32::MAX {
        u32::MAX
    } else {
        value as u32
    }
}

/// Narrows by saturation.
pub fn narrow_u8(value: u64) -> (narrow: u8)
    ensures
        narrow == saturate_u8(value),
{
    if value > 255 {
        255
    } else {
        value as u8
    }
}

/// Narrows by saturation.
pub fn narrow_u16(value: u64) -> (narrow: u16)
    ensures
        narrow == saturate_u16(value),
{
    if value > 65_535 {
        65_535
    } else {
        value as u16
    }
}

/// Narrows by saturation.
pub fn narrow_u32(value: u64) -> (narrow: u32)
    ensures
        narrow == saturate_u32(value),
{
    if value > 4_294_967_295 {
        4_294_967_295
    } else {
        value as u32
    }
}

} // verus!
