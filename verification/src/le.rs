//! Numbers as little-endian bytes.

use vstd::arithmetic::div_mod::lemma_mod_breakdown;
use vstd::prelude::*;

verus! {

/// The `size` low bytes of a number, the lowest first.
pub open spec fn le_bytes(value: nat, size: nat) -> Seq<u8>
    decreases size,
{
    if size == 0 {
        Seq::empty()
    } else {
        seq![(value % 0x100) as u8] + le_bytes(value / 0x100, (size - 1) as nat)
    }
}

/// The number that bytes stand for, the lowest byte first.
pub open spec fn le_value(bytes: Seq<u8>) -> nat
    decreases bytes.len(),
{
    if bytes.len() == 0 {
        0
    } else {
        bytes[0] as nat + 0x100 * le_value(bytes.skip(1))
    }
}

/// 256 to the power of `size`.
pub open spec fn radix(size: nat) -> nat
    decreases size,
{
    if size == 0 {
        1
    } else {
        0x100 * radix((size - 1) as nat)
    }
}

/// Bytes of a number are as many as were asked for.
pub proof fn lemma_le_bytes_len(value: nat, size: nat)
    ensures
        le_bytes(value, size).len() == size,
    decreases size,
{
    if size > 0 {
        lemma_le_bytes_len(value / 0x100, (size - 1) as nat);
    }
}

/// The number that `size` bytes stand for is below 256 to the power of
/// `size`.
pub proof fn lemma_le_value_bounded(bytes: Seq<u8>)
    ensures
        le_value(bytes) < radix(bytes.len()),
    decreases bytes.len(),
{
    if bytes.len() > 0 {
        lemma_le_value_bounded(bytes.skip(1));
    }
}

/// The bytes of a number stand for the number, as far as it fits in them.
pub proof fn lemma_le_round_trip(value: nat, size: nat)
    ensures
        le_value(le_bytes(value, size)) == value % radix(size),
    decreases size,
{
    if size > 0 {
        let rest = le_bytes(value / 0x100, (size - 1) as nat);
        let bytes = le_bytes(value, size);
        assert(bytes.skip(1) =~= rest);
        lemma_le_round_trip(value / 0x100, (size - 1) as nat);
        let r = radix((size - 1) as nat);
        lemma_radix_positive((size - 1) as nat);
        lemma_mod_breakdown(value as int, 0x100, r as int);
    }
}

/// 256 to any power is positive.
pub proof fn lemma_radix_positive(size: nat)
    ensures
        radix(size) > 0,
    decreases size,
{
    if size > 0 {
        lemma_radix_positive((size - 1) as nat);
        assert(0x100 * radix((size - 1) as nat) > 0) by (nonlinear_arith)
            requires
                radix((size - 1) as nat) > 0,
        ;
    }
}

/// Bytes are the bytes of the number that they stand for.
pub proof fn lemma_le_bytes_of_value(bytes: Seq<u8>)
    ensures
        le_bytes(le_value(bytes), bytes.len()) == bytes,
    decreases bytes.len(),
{
    if bytes.len() > 0 {
        let rest = bytes.skip(1);
        lemma_le_bytes_of_value(rest);
        let v = le_value(rest);
        assert((bytes[0] as nat + 0x100 * v) % 0x100 == bytes[0] as nat && (bytes[0] as nat + 0x100
            * v) / 0x100 == v) by (nonlinear_arith)
            requires
                bytes[0] < 0x100,
        ;
        assert(le_bytes(le_value(bytes), bytes.len()) =~= bytes);
    } else {
        assert(le_bytes(le_value(bytes), bytes.len()) =~= bytes);
    }
}

/// The powers of 256 that a field of the record can take.
pub proof fn lemma_radix_values()
    ensures
        radix(0) == 1,
        radix(1) == 0x100,
        radix(2) == 0x1_0000,
        radix(3) == 0x100_0000,
        radix(4) == 0x1_0000_0000,
        radix(5) == 0x100_0000_0000,
        radix(6) == 0x1_0000_0000_0000,
        radix(7) == 0x100_0000_0000_0000,
        radix(8) == 0x1_0000_0000_0000_0000,
{
    reveal_with_fuel(radix, 9);
}

/// Appends the `size` low bytes of a number, the lowest first.
pub(crate) fn push_le(bytes: &mut Vec<u8>, value: u64, size: usize)
    requires
        size <= 8,
    ensures
        final(bytes)@ == old(bytes)@ + le_bytes(value as nat, size as nat),
{
    let ghost start = bytes@;
    let mut rest: u64 = value;
    let mut i: usize = 0;
    while i < size
        invariant
            i <= size,
            bytes@ + le_bytes(rest as nat, (size - i) as nat) == start + le_bytes(
                value as nat,
                size as nat,
            ),
        decreases size - i,
    {
        let ghost before = bytes@;
        let low: u8 = (rest % 0x100) as u8;
        bytes.push(low);
        assert(bytes@ + le_bytes((rest / 0x100) as nat, (size - i - 1) as nat) =~= before
            + le_bytes(rest as nat, (size - i) as nat));
        rest = rest / 0x100;
        i = i + 1;
    }
    assert(bytes@ + le_bytes(rest as nat, 0) =~= bytes@);
}

/// Reads the number that the `size` bytes from `at` on stand for.
pub(crate) fn read_le(bytes: &[u8], at: usize, size: usize) -> (value: u64)
    requires
        size <= 8,
        at + size <= bytes@.len(),
    ensures
        value == le_value(bytes@.subrange(at as int, at + size)),
{
    let len: usize = bytes.len();
    let mut value: u64 = 0;
    let mut i: usize = size;
    while i > 0
        invariant
            i <= size <= 8,
            at + size <= len,
            len == bytes@.len(),
            value == le_value(bytes@.subrange(at + i, at + size)),
        decreases i,
    {
        proof {
            lemma_le_value_bounded(bytes@.subrange(at + i, at + size));
            lemma_radix_values();
            lemma_radix_grows((size - i) as nat, 7);
            assert(bytes@.subrange(at + i - 1, at + size).skip(1) =~= bytes@.subrange(
                at + i,
                at + size,
            ));
        }
        i = i - 1;
        value = bytes[at + i] as u64 + 0x100 * value;
    }
    value
}

/// A higher power of 256 is not below a lower one.
pub proof fn lemma_radix_grows(low: nat, high: nat)
    requires
        low <= high,
    ensures
        radix(low) <= radix(high),
    decreases high - low,
{
    if low < high {
        lemma_radix_grows(low, (high - 1) as nat);
        lemma_radix_positive((high - 1) as nat);
    }
}

} // verus!
