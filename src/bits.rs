//! Word-level helpers shared by both engines.
use vstd::prelude::*;

verus! {

/// Left rotation of a 32-bit word by `n` places.
pub open spec fn rotl_spec(x: u32, n: u32) -> u32 {
    if n == 0 {
        x
    } else {
        (x << n) | (x >> (32 - n))
    }
}

/// Rotates `x` to the left by `n` places, `n` below 32.
pub fn rotl(x: u32, n: u32) -> (r: u32)
    requires
        n < 32,
    ensures
        r == rotl_spec(x, n),
{
    if n == 0 {
        x
    } else {
        (x << n) | (x >> (32 - n))
    }
}

/// Number of set bits among the lowest `n` bits of `x`.
pub open spec fn ones_below(x: u32, n: nat) -> nat
    decreases n,
{
    if n == 0 {
        0
    } else {
        ones_below(x, (n - 1) as nat) + (if (x >> ((n - 1) as u32)) & 1 == 1 { 1nat } else { 0nat })
    }
}

/// Number of set bits of a 32-bit word.
pub open spec fn popcount(x: u32) -> nat {
    ones_below(x, 32)
}

/// Counts the set bits of `x`.
pub fn count_ones(x: u32) -> (r: u32)
    ensures
        r as nat == popcount(x),
{
    let mut total: u32 = 0;
    let mut i: u32 = 0;
    while i < 32
        invariant
            i <= 32,
            total as nat == ones_below(x, i as nat),
            total <= i,
        decreases 32 - i,
    {
        proof {
            lemma_ones_below_bound(x, i as nat);
        }
        if (x >> i) & 1 == 1 {
            total = total + 1;
        }
        i = i + 1;
    }
    total
}

/// At most `n` of the lowest `n` bits are set.
pub proof fn lemma_ones_below_bound(x: u32, n: nat)
    ensures
        ones_below(x, n) <= n,
    decreases n,
{
    if n > 0 {
        lemma_ones_below_bound(x, (n - 1) as nat);
    }
}

/// The zero word has no set bit.
pub proof fn lemma_ones_below_zero(n: nat)
    requires
        n <= 32,
    ensures
        ones_below(0u32, n) == 0,
    decreases n,
{
    if n > 0 {
        lemma_ones_below_zero((n - 1) as nat);
        let s = (n - 1) as u32;
        assert((0u32 >> s) & 1 == 0) by (bit_vector);
    }
}

/// Number of bit positions in which the word sequences `x` and `y` differ,
/// word by word over the length of `x`.
pub open spec fn distance(x: Seq<u32>, y: Seq<u32>) -> nat
    decreases x.len(),
{
    if x.len() == 0 {
        0
    } else {
        distance(x.drop_last(), y.subrange(0, x.len() - 1)) + popcount(x.last() ^ y[x.len() - 1])
    }
}

/// Extending both sequences by the word at `j` adds that word's difference.
pub proof fn lemma_distance_step(x: Seq<u32>, y: Seq<u32>, j: int)
    requires
        0 <= j < x.len(),
        j < y.len(),
    ensures
        distance(x.subrange(0, j + 1), y.subrange(0, j + 1)) == distance(
            x.subrange(0, j),
            y.subrange(0, j),
        ) + popcount(x[j] ^ y[j]),
{
    let xs = x.subrange(0, j + 1);
    let ys = y.subrange(0, j + 1);
    assert(xs.drop_last() =~= x.subrange(0, j));
    assert(ys.subrange(0, j) =~= y.subrange(0, j));
}

/// Number of bits in which two words differ.
pub fn diff(first: u32, second: u32) -> (r: u32)
    ensures
        r as nat == popcount(first ^ second),
        r <= 32,
{
    let r = count_ones(first ^ second);
    proof {
        lemma_ones_below_bound(first ^ second, 32);
    }
    r
}

/// Number of bits in which two word sequences of equal length differ.
pub fn diff_words(x: &[u32], y: &[u32]) -> (r: u32)
    requires
        x@.len() == y@.len(),
        x@.len() <= 0x0400_0000,
    ensures
        r as nat == distance(x@, y@),
{
    let mut sum: u32 = 0;
    let mut j: usize = 0;
    while j < x.len()
        invariant
            j <= x@.len(),
            x@.len() == y@.len(),
            x@.len() <= 0x0400_0000,
            sum as nat == distance(x@.subrange(0, j as int), y@.subrange(0, j as int)),
            sum <= 32 * j,
        decreases x@.len() - j,
    {
        let d = diff(x[j], y[j]);
        proof {
            lemma_distance_step(x@, y@, j as int);
        }
        sum = sum + d;
        j = j + 1;
    }
    assert(x@.subrange(0, j as int) =~= x@);
    assert(y@.subrange(0, j as int) =~= y@);
    sum
}

/// Word sequences of equal length: distance from itself is zero, distance is
/// symmetric, and at most 32 bits differ per word.
pub proof fn lemma_distance_laws(x: Seq<u32>, y: Seq<u32>)
    requires
        x.len() == y.len(),
    ensures
        distance(x, x) == 0,
        distance(x, y) == distance(y, x),
        distance(x, y) <= 32 * x.len(),
    decreases x.len(),
{
    if x.len() > 0 {
        let n = x.len() - 1;
        lemma_distance_laws(x.drop_last(), y.drop_last());
        assert(x.subrange(0, n) =~= x.drop_last());
        assert(y.subrange(0, n) =~= y.drop_last());
        let a = x.last();
        let b = y[n];
        assert(a ^ a == 0) by (bit_vector);
        assert(a ^ b == b ^ a) by (bit_vector);
        lemma_ones_below_zero(32);
        lemma_ones_below_bound(a ^ b, 32);
    }
}

proof fn lemma_low_bits_zero(z: u32, n: nat)
    requires
        n <= 32,
        ones_below(z, n) == 0,
    ensures
        (z as u64) << ((64 - n) as u64) == 0,
    decreases n,
{
    if n == 0 {
        assert((z as u64) << 64u64 == 0) by (bit_vector);
    } else {
        let k = (n - 1) as u32;
        let sh = (64 - n) as u64;
        lemma_low_bits_zero(z, (n - 1) as nat);
        assert((z >> k) & 1 == 1 || (z >> k) & 1 == 0) by (bit_vector);
        assert((z >> k) & 1 == 0);
        assert((z as u64) << sh == 0) by (bit_vector)
            requires
                k < 32,
                sh == 63 - k,
                (z as u64) << (sh + 1) == 0,
                (z >> k) & 1 == 0,
        ;
    }
}

/// Equal-length word sequences that differ in no bit are equal.
pub proof fn lemma_distance_zero(x: Seq<u32>, y: Seq<u32>)
    requires
        x.len() == y.len(),
        distance(x, y) == 0,
    ensures
        x == y,
    decreases x.len(),
{
    if x.len() > 0 {
        let n = x.len() - 1;
        assert(y.subrange(0, n) =~= y.drop_last());
        lemma_distance_zero(x.drop_last(), y.drop_last());
        let a = x.last();
        let b = y[n];
        let z = a ^ b;
        lemma_low_bits_zero(z, 32);
        assert(z == 0) by (bit_vector)
            requires
                (z as u64) << 32u64 == 0,
        ;
        assert(a == b) by (bit_vector)
            requires
                a ^ b == 0,
        ;
        assert(x =~= y) by {
            assert forall|i: int| 0 <= i < x.len() implies x[i] == y[i] by {
                if i < n {
                    assert(x[i] == x.drop_last()[i]);
                    assert(y[i] == y.drop_last()[i]);
                }
            }
        }
    }
}

} // verus!
