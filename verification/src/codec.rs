//! Fixed-width big-endian fields inside stored records.

use vstd::prelude::*;
use crate::magnitude::{be_value, fixed_bytes, lemma_be_value_bound, lemma_pow256_monotonic, pow256};

verus! {

/// Appends `value` to `out` in exactly `width` bytes, most significant
/// first. Bytes of `value` above the width are dropped.
pub fn push_fixed(out: &mut Vec<u8>, value: u64, width: usize)
    ensures
        final(out)@ == old(out)@ + fixed_bytes(value as nat, width as nat),
    decreases width,
{
    if width > 0 {
        push_fixed(out, value / 256, (width - 1) as usize);
        out.push((value % 256) as u8);
        assert(out@ == old(out)@ + fixed_bytes(value as nat, width as nat));
    } else {
        assert(out@ == old(out)@ + fixed_bytes(value as nat, width as nat));
    }
}

/// Reads the `width` bytes of `bytes` from `start` on as one big-endian
/// number.
pub fn read_fixed(bytes: &Vec<u8>, start: usize, width: usize) -> (r: u64)
    requires
        width <= 8,
        start + width <= bytes@.len(),
    ensures
        r == be_value(bytes@.subrange(start as int, start + width)),
{
    let mut acc: u64 = 0;
    let mut i: usize = 0;
    while i < width
        invariant
            i <= width <= 8,
            start + width <= bytes.len(),
            acc == be_value(bytes@.subrange(start as int, start + i)),
        decreases width - i,
    {
        proof {
            let head = bytes@.subrange(start as int, start + i);
            let next = bytes@.subrange(start as int, start + i + 1);
            assert(next.drop_last() == head);
            assert(next.last() == bytes@[start + i]);
            lemma_be_value_bound(head);
            lemma_pow256_monotonic(i as nat, 7);
            lemma_field_bounds();
        }
        acc = acc * 256 + bytes[start + i] as u64;
        i = i + 1;
    }
    acc
}

/// The powers of 256 that bound the fixed-width fields, written out.
pub proof fn lemma_field_bounds()
    ensures
        pow256(2) == 0x1_0000,
        pow256(4) == 0x1_0000_0000,
        pow256(7) == 0x100_0000_0000_0000,
        pow256(8) == 0x1_0000_0000_0000_0000,
{
    reveal_with_fuel(pow256, 9);
}

/// A copy of the bytes of `bytes` from `start` up to `end`.
pub fn copy_range(bytes: &Vec<u8>, start: usize, end: usize) -> (r: Vec<u8>)
    requires
        start <= end <= bytes@.len(),
    ensures
        r@ == bytes@.subrange(start as int, end as int),
{
    let mut out: Vec<u8> = Vec::new();
    let mut i: usize = start;
    while i < end
        invariant
            start <= i <= end <= bytes@.len(),
            out@ == bytes@.subrange(start as int, i as int),
        decreases end - i,
    {
        out.push(bytes[i]);
        i = i + 1;
        assert(out@ == bytes@.subrange(start as int, i as int));
    }
    out
}

} // verus!
