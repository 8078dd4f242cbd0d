//! Big-endian numbers of up to eight bytes: what a run of bytes means as a
//! number, which bytes a number is written as, and that the two agree.

use vstd::prelude::*;

verus! {

/// 256 to the power `digits`: the number of values that `digits` bytes can hold.
pub open spec fn radix_pow(digits: nat) -> nat
    decreases digits,
{
    if digits == 0 {
        1
    } else {
        256 * radix_pow((digits - 1) as nat)
    }
}

/// The number that `bytes` spell, most significant byte first.
pub open spec fn be_value(bytes: Seq<u8>) -> nat
    decreases bytes.len(),
{
    if bytes.len() == 0 {
        0
    } else {
        256 * be_value(bytes.drop_last()) + bytes.last() as nat
    }
}

/// The lowest `width` base-256 digits of `value`, most significant first.
pub open spec fn be_bytes(value: nat, width: nat) -> Seq<u8>
    decreases width,
{
    if width == 0 {
        Seq::empty()
    } else {
        be_bytes(value / 256, (width - 1) as nat).push((value % 256) as u8)
    }
}

/// The bit pattern, read as a natural number, that two's complement gives
/// `number` in `width` bytes.
pub open spec fn pattern_of(number: int, width: nat) -> nat {
    if number < 0 {
        (number + radix_pow(width)) as nat
    } else {
        number as nat
    }
}

/// The signed number that the `width`-byte pattern `pattern` stands for in
/// two's complement.
pub open spec fn signed_of(pattern: nat, width: nat) -> int {
    if 2 * pattern >= radix_pow(width) {
        pattern - radix_pow(width)
    } else {
        pattern as int
    }
}

/// The powers of 256 that fit the integer types of one to eight bytes.
pub proof fn lemma_radix_pow_values()
    ensures
        radix_pow(0) == 1,
        radix_pow(1) == 0x100,
        radix_pow(2) == 0x1_0000,
        radix_pow(3) == 0x100_0000,
        radix_pow(4) == 0x1_0000_0000,
        radix_pow(5) == 0x100_0000_0000,
        radix_pow(6) == 0x1_0000_0000_0000,
        radix_pow(7) == 0x100_0000_0000_0000,
        radix_pow(8) == 0x1_0000_0000_0000_0000,
{
    reveal_with_fuel(radix_pow, 9);
}

/// `radix_pow` never shrinks as the number of digits grows.
pub proof fn lemma_radix_pow_monotonic(low: nat, high: nat)
    requires
        low <= high,
    ensures
        0 < radix_pow(low) <= radix_pow(high),
    decreases high,
{
    if high == 0 {
    } else if low == high {
        lemma_radix_pow_monotonic((low - 1) as nat, (high - 1) as nat);
    } else {
        lemma_radix_pow_monotonic(low, (high - 1) as nat);
    }
}

/// A number is written in exactly as many bytes as asked for.
pub proof fn lemma_be_bytes_len(value: nat, width: nat)
    ensures
        be_bytes(value, width).len() == width,
    decreases width,
{
    if width > 0 {
        lemma_be_bytes_len(value / 256, (width - 1) as nat);
    }
}

/// What `n` bytes spell is below 256 to the `n`.
pub proof fn lemma_be_value_bound(bytes: Seq<u8>)
    ensures
        be_value(bytes) < radix_pow(bytes.len()),
    decreases bytes.len(),
{
    if bytes.len() > 0 {
        lemma_be_value_bound(bytes.drop_last());
    }
}

/// Reading back what was written gives the number, provided it fits the width.
pub proof fn lemma_be_value_of_be_bytes(value: nat, width: nat)
    requires
        value < radix_pow(width),
    ensures
        be_value(be_bytes(value, width)) == value,
    decreases width,
{
    if width > 0 {
        let rest = be_bytes(value / 256, (width - 1) as nat);
        lemma_be_value_of_be_bytes(value / 256, (width - 1) as nat);
        assert(be_bytes(value, width).drop_last() =~= rest);
    }
}

/// Writing what was read gives the same bytes again.
pub proof fn lemma_be_bytes_of_be_value(bytes: Seq<u8>)
    ensures
        be_bytes(be_value(bytes), bytes.len()) == bytes,
    decreases bytes.len(),
{
    if bytes.len() > 0 {
        let front = bytes.drop_last();
        lemma_be_bytes_of_be_value(front);
        let value = be_value(bytes);
        assert(value / 256 == be_value(front));
        assert(value % 256 == bytes.last() as nat);
        assert(be_bytes(value, bytes.len()) =~= bytes);
    }
}

/// Reads the `width` bytes of `bytes` that start at `start` as one big-endian
/// number.
pub fn read_be(bytes: &[u8], start: usize, width: usize) -> (value: u64)
    requires
        width <= 8,
        start + width <= bytes.len(),
    ensures
        value == be_value(bytes@.subrange(start as int, start + width)),
{
    let mut value: u64 = 0;
    let mut taken: usize = 0;
    while taken < width
        invariant
            taken <= width <= 8,
            start + width <= bytes.len(),
            value == be_value(bytes@.subrange(start as int, start + taken)),
            value < radix_pow(taken as nat),
        decreases width - taken,
    {
        proof {
            lemma_radix_pow_values();
            lemma_radix_pow_monotonic(taken as nat, 7);
            let wider = bytes@.subrange(start as int, start + taken + 1);
            assert(wider.drop_last() =~= bytes@.subrange(start as int, start + taken));
            assert(wider.last() == bytes@[start + taken]);
        }
        value = value * 256 + bytes[start + taken] as u64;
        taken = taken + 1;
    }
    value
}

/// Appends to `buf` the lowest `width` bytes of `value`, most significant
/// first.
pub fn write_be(buf: &mut Vec<u8>, value: u64, width: usize)
    requires
        width <= 8,
    ensures
        final(buf)@ == old(buf)@ + be_bytes(value as nat, width as nat),
    decreases width,
{
    if width > 0 {
        write_be(buf, value / 256, width - 1);
        buf.push((value % 256) as u8);
    }
}

} // verus!
