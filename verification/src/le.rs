//! Fixed-width little-endian integers, the number format of the token payload.

use vstd::prelude::*;

verus! {

/// The `width` lowest base-256 digits of `n`, least significant first.
pub open spec fn le_bytes(n: nat, width: nat) -> Seq<u8>
    decreases width,
{
    if width == 0 {
        Seq::empty()
    } else {
        seq![(n % 256) as u8] + le_bytes(n / 256, (width - 1) as nat)
    }
}

/// The number whose base-256 digits, least significant first, are `bytes`.
pub open spec fn le_value(bytes: Seq<u8>) -> nat
    decreases bytes.len(),
{
    if bytes.len() == 0 {
        0
    } else {
        bytes[0] as nat + 256 * le_value(bytes.drop_first())
    }
}

/// 256 to the power `width`.
pub open spec fn radix_pow(width: nat) -> nat
    decreases width,
{
    if width == 0 {
        1
    } else {
        256 * radix_pow((width - 1) as nat)
    }
}

/// `le_bytes` yields exactly `width` bytes.
pub proof fn lemma_le_bytes_len(n: nat, width: nat)
    ensures
        le_bytes(n, width).len() == width,
    decreases width,
{
    if width > 0 {
        lemma_le_bytes_len(n / 256, (width - 1) as nat);
    }
}

/// A byte string stands for a number below 256 to the power of its length.
pub proof fn lemma_le_value_bound(bytes: Seq<u8>)
    ensures
        le_value(bytes) < radix_pow(bytes.len()),
    decreases bytes.len(),
{
    if bytes.len() > 0 {
        lemma_le_value_bound(bytes.drop_first());
    }
}

/// Reading back what was written gives the number, as long as it fits the width.
pub proof fn lemma_le_value_of_bytes(n: nat, width: nat)
    requires
        n < radix_pow(width),
    ensures
        le_value(le_bytes(n, width)) == n,
    decreases width,
{
    if width > 0 {
        let rest = le_bytes(n / 256, (width - 1) as nat);
        lemma_le_value_of_bytes(n / 256, (width - 1) as nat);
        assert(le_bytes(n, width).drop_first() == rest);
    }
}

/// Writing the number that a byte string stands for gives the byte string back.
pub proof fn lemma_le_bytes_of_value(bytes: Seq<u8>)
    ensures
        le_bytes(le_value(bytes), bytes.len()) == bytes,
    decreases bytes.len(),
{
    if bytes.len() > 0 {
        lemma_le_bytes_of_value(bytes.drop_first());
    }
}

/// The unsigned 64-bit pattern of a signed number in two's complement.
pub open spec fn twos_complement(v: int) -> nat {
    if v >= 0 {
        v as nat
    } else {
        (v + 0x1_0000_0000_0000_0000) as nat
    }
}

/// The signed number that an unsigned 64-bit pattern stands for.
pub open spec fn from_twos_complement(n: nat) -> int {
    if n < 0x8000_0000_0000_0000 {
        n as int
    } else {
        n - 0x1_0000_0000_0000_0000
    }
}

/// The values of `radix_pow` at the widths that fit a `u64`.
pub proof fn lemma_radix_pow_values()
    ensures
        radix_pow(0) == 1,
        radix_pow(1) == 0x100,
        radix_pow(2) == 0x1_0000,
        radix_pow(3) == 0x100_0000,
        radix_pow(4) == 0x1_0000_0000,
        radix_pow(5) == 0x100_0000_0000,
        radix_pow(6) == 0x1_0000_0000_0000,
        radix_pow(7) == 0x100_0000_0000_0000,
        radix_pow(8) == 0x1_0000_0000_0000_0000,
{
    reveal_with_fuel(radix_pow, 9);
}

/// Appends the `width` lowest bytes of `value`, least significant first.
pub fn push_le(out: &mut Vec<u8>, value: u64, width: usize)
    requires
        width <= 8,
    ensures
        final(out)@ == old(out)@ + le_bytes(value as nat, width as nat),
{
    let mut rest: u64 = value;
    let mut done: usize = 0;
    while done < width
        invariant
            done <= width,
            old(out)@ + le_bytes(value as nat, width as nat) == out@ + le_bytes(
                rest as nat,
                (width - done) as nat,
            ),
        decreases width - done,
    {
        out.push((rest % 256) as u8);
        rest = rest / 256;
        done = done + 1;
    }
}

/// Reads the number that `width` bytes from `start` on stand for.
pub fn read_le(bytes: &[u8], start: usize, width: usize) -> (value: u64)
    requires
        width <= 8,
        start + width <= bytes@.len(),
    ensures
        value as nat == le_value(bytes@.subrange(start as int, start + width)),
{
    let mut value: u64 = 0;
    let mut left: usize = width;
    let total: usize = bytes.len();
    let ghost end = start + width;
    while left > 0
        invariant
            left <= width <= 8,
            end == start + width,
            end <= total == bytes@.len(),
            value as nat == le_value(bytes@.subrange(start + left, end)),
        decreases left,
    {
        left = left - 1;
        let byte: u8 = bytes[start + left];
        proof {
            let longer = bytes@.subrange(start + left, end);
            let shorter = bytes@.subrange(start + left + 1, end);
            assert(longer.drop_first() =~= shorter);
            lemma_le_value_bound(shorter);
            lemma_radix_pow_values();
            lemma_radix_pow_monotone(shorter.len(), 7);
        }
        value = value * 256 + byte as u64;
    }
    value
}

/// A wider field holds at least as many numbers.
pub proof fn lemma_radix_pow_monotone(narrow: nat, wide: nat)
    requires
        narrow <= wide,
    ensures
        radix_pow(narrow) <= radix_pow(wide),
    decreases wide,
{
    if narrow < wide {
        lemma_radix_pow_monotone(narrow, (wide - 1) as nat);
    }
}

} // verus!
