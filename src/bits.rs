use vstd::prelude::*;

verus! {

/// Bit `i` of `x` is set.
pub open spec fn has_bit(x: u64, i: u64) -> bool {
    (x >> i) & 1 == 1
}

/// The empty word has no bit set.
pub proof fn lemma_bit_zero(i: u64)
    by (bit_vector)
    requires
        i < 64,
    ensures
        !has_bit(0, i),
{
}

/// A one shifted left by `k` has bit `k` set and no other.
pub proof fn lemma_bit_single(k: u64, i: u64)
    by (bit_vector)
    requires
        k < 64,
        i < 64,
    ensures
        has_bit(1u64 << k, i) == (i == k),
{
}

/// Masking with a single bit tests that bit.
pub proof fn lemma_bit_test(x: u64, k: u64)
    by (bit_vector)
    requires
        k < 64,
    ensures
        (x & (1u64 << k) != 0) == has_bit(x, k),
{
}

/// A bit of a union is set when it is set in either operand.
pub proof fn lemma_bit_or(a: u64, b: u64, i: u64)
    by (bit_vector)
    requires
        i < 64,
    ensures
        has_bit(a | b, i) == (has_bit(a, i) || has_bit(b, i)),
{
}

/// Words that agree above bit `k` and on bit `k` agree above bit `k - 1`.
proof fn lemma_shr_step(a: u64, b: u64, k: u64)
    by (bit_vector)
    requires
        1 <= k <= 64,
        a >> k == b >> k,
        has_bit(a, (k - 1) as u64) == has_bit(b, (k - 1) as u64),
    ensures
        a >> ((k - 1) as u64) == b >> ((k - 1) as u64),
{
}

/// Words that agree on bits `k..64` agree once shifted right by `k`.
proof fn lemma_bits_ext_from(a: u64, b: u64, k: u64)
    requires
        k <= 64,
        forall|i: u64| k <= i < 64 ==> has_bit(a, i) == has_bit(b, i),
    ensures
        a >> k == b >> k,
    decreases 64 - k,
{
    if k == 64 {
        assert(a >> 64u64 == 0 && b >> 64u64 == 0) by (bit_vector);
    } else {
        lemma_bits_ext_from(a, b, (k + 1) as u64);
        lemma_shr_step(a, b, (k + 1) as u64);
    }
}

/// Two words that agree on every bit are equal.
pub proof fn lemma_bits_ext(a: u64, b: u64)
    requires
        forall|i: u64| i < 64 ==> has_bit(a, i) == has_bit(b, i),
    ensures
        a == b,
{
    lemma_bits_ext_from(a, b, 0);
    assert(a >> 0u64 == a && b >> 0u64 == b) by (bit_vector);
}

} // verus!
