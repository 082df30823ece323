use vstd::prelude::*;

verus! {

/// `n` is a power of two: 1, 2, 4, 8, ...
pub open spec fn is_pow2(n: nat) -> bool
    decreases n,
{
    if n == 0 {
        false
    } else if n == 1 {
        true
    } else {
        n % 2 == 0 && is_pow2(n / 2)
    }
}

/// The largest power of two a `usize` holds.
pub open spec fn max_usize_pow2() -> nat {
    (usize::MAX as nat) / 2 + 1
}

/// Of two powers of two, a smaller one is at most half of the larger one.
proof fn lemma_pow2_gap(a: nat, b: nat)
    requires
        is_pow2(a),
        is_pow2(b),
        b < a,
    ensures
        2 * b <= a,
    decreases a,
{
    if b != 1 {
        lemma_pow2_gap(a / 2, b / 2);
    }
}

/// The clear-lowest-bit test agrees with the arithmetic definition.
proof fn lemma_pow2_bits(n: usize)
    ensures
        (n != 0 && n & ((n - 1) as usize) == 0) == is_pow2(n as nat),
    decreases n,
{
    if n == 0 {
    } else if n == 1 {
        assert(1usize & 0usize == 0) by (bit_vector);
    } else if n % 2 == 0 {
        let m: usize = n / 2;
        assert(n % 2 == 0 && n >= 2 && m == n / 2 ==> ((n & ((n - 1) as usize)) == 0) == ((m & ((m - 1) as usize))
            == 0)) by (bit_vector);
        lemma_pow2_bits(m);
    } else {
        assert(n % 2 == 1 && n >= 3 ==> n & ((n - 1) as usize) != 0) by (bit_vector);
    }
}

/// Whether `number` is a power of two (zero is not).
pub fn is_power_of_two(number: usize) -> (r: bool)
    ensures
        r == is_pow2(number as nat),
{
    proof {
        lemma_pow2_bits(number);
    }
    number != 0 && (number & (number - 1)) == 0
}

/// The smallest power of two that is at least `len` (1 for an empty input).
pub fn padded_len(len: usize) -> (r: usize)
    requires
        len <= max_usize_pow2(),
    ensures
        is_pow2(r as nat),
        len <= r,
        forall|p: nat| is_pow2(p) && len <= p ==> r <= p,
{
    let mut p: usize = 1;
    while p < len
        invariant
            is_pow2(p as nat),
            p == 1 || p / 2 < len,
            len <= max_usize_pow2(),
        decreases 2 * len - p,
    {
        p = p * 2;
        assert(is_pow2(p as nat)) by {
            assert((p as nat) / 2 == (p / 2) as nat);
        }
    }
    assert forall|q: nat| is_pow2(q) && len <= q implies p <= q by {
        if q < p {
            lemma_pow2_gap(p as nat, q);
        }
    }
    p
}

/// Zero-pads `samples` at the end up to the smallest power of two that holds
/// them. An input whose length is already a power of two is left as it is.
pub fn pad_to_power_of_two<T: Copy>(samples: &mut Vec<T>, zero: T)
    requires
        old(samples).len() <= max_usize_pow2(),
    ensures
        is_pow2(final(samples).len() as nat),
        old(samples).len() <= final(samples).len(),
        forall|p: nat| is_pow2(p) && old(samples).len() <= p ==> final(samples).len() <= p,
        final(samples)@ == old(samples)@ + Seq::new(
            (final(samples).len() - old(samples).len()) as nat,
            |i: int| zero,
        ),
{
    let ghost original = samples@;
    if is_power_of_two(samples.len()) {
        assert(samples@ == original + Seq::new(0, |i: int| zero));
        return;
    }
    let target = padded_len(samples.len());
    while samples.len() < target
        invariant
            original.len() <= samples.len() <= target,
            samples@ == original + Seq::new((samples.len() - original.len()) as nat, |i: int| zero),
        decreases target - samples.len(),
    {
        samples.push(zero);
        assert(samples@ == original + Seq::new((samples.len() - original.len()) as nat, |i: int| zero));
    }
}

/// Bucket number for a bin whose position on the log-frequency axis, scaled
/// to `0..num_buckets - 1` and rounded down, is `position`.
pub open spec fn bucket_index_spec(position: nat, num_buckets: nat) -> nat {
    if position < num_buckets { position } else { (num_buckets - 1) as nat }
}

/// Clamps a scaled log-frequency position into the bucket range
/// `0..=num_buckets - 1`.
pub fn bucket_index(position: usize, num_buckets: usize) -> (r: usize)
    requires
        num_buckets > 0,
    ensures
        r == bucket_index_spec(position as nat, num_buckets as nat),
        r < num_buckets,
{
    if position < num_buckets {
        position
    } else {
        num_buckets - 1
    }
}

/// A bin further up the frequency axis never lands in a lower bucket.
pub proof fn bucket_index_monotone(p1: nat, p2: nat, num_buckets: nat)
    requires
        num_buckets > 0,
        p1 <= p2,
    ensures
        bucket_index_spec(p1, num_buckets) <= bucket_index_spec(p2, num_buckets),
{
}

} // verus!
