//! How the samples of one port are cut into transform blocks, and how the bins of the averaged
//! spectrum are ordered.
use vstd::arithmetic::power2::*;
use vstd::prelude::*;

verus! {

/// Longest transform that is ever run.
pub const MAX_FFT_SIZE: usize = 1048576;

/// `r` is the smallest power of two that is not below `n`.
pub open spec fn is_next_pow2(n: nat, r: nat) -> bool {
    &&& exists|e: nat| r == #[trigger] pow2(e)
    &&& r >= n
    &&& forall|e: nat| #[trigger] pow2(e) >= n ==> r <= pow2(e)
}

/// `r` is the transform length for a requested length: the next power of two, at most
/// `MAX_FFT_SIZE`.
pub open spec fn is_fft_size(requested: nat, r: nat) -> bool {
    if requested <= MAX_FFT_SIZE {
        is_next_pow2(requested, r)
    } else {
        r == MAX_FFT_SIZE
    }
}

proof fn lemma_pow2_not_below(e: nat, n: nat)
    requires
        pow2(e) >= n,
        e == 0 || pow2((e - 1) as nat) < n,
    ensures
        is_next_pow2(n, pow2(e)),
{
    assert forall|k: nat| #[trigger] pow2(k) >= n implies pow2(e) <= pow2(k) by {
        if k < e {
            if k < e - 1 {
                lemma_pow2_strictly_increases(k, (e - 1) as nat);
            }
        } else if k > e {
            lemma_pow2_strictly_increases(e, k);
        }
        if e == 0 && k == 0 {
            lemma2_to64();
        }
    }
}

/// The smallest power of two that is not below `n`.
pub fn next_pow2(n: usize) -> (r: usize)
    requires
        n <= usize::MAX / 2 + 1,
    ensures
        is_next_pow2(n as nat, r as nat),
{
    let mut p: usize = 1;
    let ghost mut e: nat = 0;
    proof {
        lemma2_to64();
    }
    while p < n
        invariant
            n <= usize::MAX / 2 + 1,
            p == pow2(e),
            e == 0 || pow2((e - 1) as nat) < n,
            p >= 1,
        decreases usize::MAX - p,
    {
        proof {
            lemma_pow2_unfold(e + 1);
            e = e + 1;
        }
        p = p * 2;
    }
    proof {
        lemma_pow2_not_below(e, n as nat);
    }
    p
}

/// The transform length for a requested length: the next power of two, at most `MAX_FFT_SIZE`.
pub fn fft_size_for(requested: usize) -> (r: usize)
    ensures
        is_fft_size(requested as nat, r as nat),
        0 < r <= MAX_FFT_SIZE,
{
    proof {
        lemma2_to64();
    }
    if requested > MAX_FFT_SIZE {
        MAX_FFT_SIZE
    } else {
        let r = next_pow2(requested);
        proof {
            assert(pow2(20) >= requested);
            let e = choose|e: nat| r == #[trigger] pow2(e);
            lemma_pow2_pos(e);
        }
        r
    }
}

/// How one port's samples are transformed.
#[derive(Clone, Copy, Debug, PartialEq, Eq, Structural)]
pub struct SpectrumPlan {
    /// Length of each transform.
    pub fft_size: usize,
    /// Blocks that the average divides by: never zero, even where no whole block came in.
    pub blocks: usize,
    /// Samples that those blocks stand for.
    pub samples_used: usize,
}

/// Number of whole blocks of `fft_size` samples in `n` samples.
pub open spec fn whole_blocks(n: nat, fft_size: nat) -> nat
    recommends
        fft_size > 0,
{
    n / fft_size
}

impl SpectrumPlan {
    /// This is the plan for `n` samples and a requested transform length.
    pub open spec fn plans(&self, n: nat, requested: nat) -> bool {
        &&& is_fft_size(requested, self.fft_size as nat)
        &&& self.fft_size > 0
        &&& self.blocks == if n < self.fft_size {
            1
        } else {
            whole_blocks(n, self.fft_size as nat)
        }
        &&& self.samples_used == self.blocks * self.fft_size
    }

    /// Plans the analysis of `n` samples with transforms of the requested length.
    pub fn new(n: usize, requested: usize) -> (plan: SpectrumPlan)
        ensures
            plan.plans(n as nat, requested as nat),
    {
        let fft_size = fft_size_for(requested);
        let blocks: usize = if n < fft_size {
            1
        } else {
            n / fft_size
        };
        proof {
            assert(n >= fft_size ==> (n / fft_size) * fft_size <= n) by (nonlinear_arith)
                requires
                    fft_size > 0,
            ;
            assert(n >= fft_size ==> blocks * fft_size <= n);
        }
        SpectrumPlan { fft_size, blocks, samples_used: blocks * fft_size }
    }
}

/// First sample of every whole block of `fft_size` samples among `n` samples, in order.
pub fn block_starts(n: usize, fft_size: usize) -> (starts: Vec<usize>)
    requires
        fft_size > 0,
    ensures
        starts@.len() == whole_blocks(n as nat, fft_size as nat),
        forall|b: int| 0 <= b < starts@.len() ==> #[trigger] starts@[b] == b * fft_size,
        forall|b: int|
            0 <= b < starts@.len() ==> (#[trigger] starts@[b]) + fft_size <= n,
{
    let mut starts: Vec<usize> = Vec::new();
    let mut start: usize = 0;
    proof {
        assert(0 * fft_size == 0);
    }
    while n - start >= fft_size
        invariant
            fft_size > 0,
            start <= n,
            start == starts@.len() * fft_size,
            forall|b: int| 0 <= b < starts@.len() ==> #[trigger] starts@[b] == b * fft_size,
            forall|b: int|
                0 <= b < starts@.len() ==> (#[trigger] starts@[b]) + fft_size <= n,
        decreases n - start,
    {
        let ghost k = starts@.len();
        starts.push(start);
        proof {
            assert((k + 1) * fft_size == k * fft_size + fft_size) by (nonlinear_arith);
        }
        start = start + fft_size;
    }
    proof {
        let k = starts@.len();
        assert(k == n as nat / fft_size as nat) by (nonlinear_arith)
            requires
                fft_size > 0,
                k * fft_size <= n,
                n - k * fft_size < fft_size,
                k >= 0,
        ;
    }
    starts
}

/// Position in a transform's output of the bin that stands at `k` once the bins are centred.
pub open spec fn centred_source(k: int, n: int) -> int {
    (k + n / 2) % n
}

/// Frequency of output bin `j` of a transform of length `n`, in bin widths: the upper half of the
/// output stands for negative frequencies.
pub open spec fn bin_frequency(j: int, n: int) -> int {
    if j < n / 2 {
        j
    } else {
        j - n
    }
}

/// Puts the output of a transform in order of frequency: the lowest one comes first, the zero
/// frequency stands in the middle.
pub fn centre_bins<T: Copy>(full: &Vec<T>) -> (bins: Vec<T>)
    ensures
        bins@.len() == full@.len(),
        forall|k: int|
            0 <= k < bins@.len() ==> #[trigger] bins@[k] == full@[centred_source(
                k,
                full@.len() as int,
            )],
{
    let n: usize = full.len();
    let half: usize = n / 2;
    let mut bins: Vec<T> = Vec::new();
    let mut k: usize = 0;
    while k < n
        invariant
            n == full@.len(),
            half == n / 2,
            k <= n,
            bins@.len() == k,
            forall|i: int|
                0 <= i < k ==> #[trigger] bins@[i] == full@[centred_source(i, n as int)],
        decreases n - k,
    {
        let j: usize = if k < n - half {
            k + half
        } else {
            k - (n - half)
        };
        proof {
            if k < n - half {
                assert((k + half) % (n as int) == k + half) by (nonlinear_arith)
                    requires
                        0 <= k + half < n,
                ;
            } else {
                assert((k + half) % (n as int) == k + half - n) by (nonlinear_arith)
                    requires
                        n <= k + half < 2 * n,
                ;
            }
            assert(j == centred_source(k as int, n as int));
        }
        bins.push(full[j]);
        k = k + 1;
    }
    bins
}

/// The centred bins run through the frequencies in order, from minus half the rate (position 0)
/// over zero (position `n / 2`) to one bin below half the rate (position `n - 1`).
pub proof fn law_centred_bins_are_in_order_of_frequency(k: int, n: int)
    requires
        0 <= k < n,
        n % 2 == 0,
    ensures
        bin_frequency(centred_source(k, n), n) == k - n / 2,
{
    if k < n / 2 {
        assert((k + n / 2) % n == k + n / 2) by (nonlinear_arith)
            requires
                0 <= k + n / 2 < n,
        ;
    } else {
        assert((k + n / 2) % n == k + n / 2 - n) by (nonlinear_arith)
            requires
                n <= k + n / 2 < 2 * n,
        ;
    }
}

/// Centring uses every bin once: at every transform length, centring twice gives the output back.
pub proof fn law_centring_twice_is_the_identity(k: int, n: int)
    requires
        0 <= k < n,
        n == 1 || n % 2 == 0,
    ensures
        0 <= centred_source(k, n) < n,
        centred_source(centred_source(k, n), n) == k,
{
    let j = centred_source(k, n);
    if n == 1 {
    } else if k < n / 2 {
        assert((k + n / 2) % n == k + n / 2) by (nonlinear_arith)
            requires
                0 <= k + n / 2 < n,
        ;
        assert((j + n / 2) % n == j + n / 2 - n) by (nonlinear_arith)
            requires
                n <= j + n / 2 < 2 * n,
        ;
    } else {
        assert((k + n / 2) % n == k + n / 2 - n) by (nonlinear_arith)
            requires
                n <= k + n / 2 < 2 * n,
        ;
        assert((j + n / 2) % n == j + n / 2) by (nonlinear_arith)
            requires
                0 <= j + n / 2 < n,
        ;
    }
}

/// A requested length has one transform length.
pub proof fn law_fft_size_is_unique(requested: nat, a: nat, b: nat)
    requires
        is_fft_size(requested, a),
        is_fft_size(requested, b),
    ensures
        a == b,
{
}

/// A transform length is itself a power of two, and asking for it again changes nothing.
pub proof fn law_fft_size_is_a_fixed_point(requested: nat, r: nat)
    requires
        is_fft_size(requested, r),
    ensures
        exists|e: nat| r == #[trigger] pow2(e),
        r <= MAX_FFT_SIZE,
        is_fft_size(r, r),
{
    lemma2_to64();
    assert(pow2(20) == MAX_FFT_SIZE);
}

/// The whole blocks lie one after the other inside the samples, and fewer samples than one block
/// are left over.
pub proof fn law_blocks_tile_the_samples(n: nat, fft_size: nat, b: nat)
    requires
        fft_size > 0,
        b < whole_blocks(n, fft_size),
    ensures
        (b + 1) * fft_size <= n,
        n - whole_blocks(n, fft_size) * fft_size < fft_size,
{
    assert((b + 1) * fft_size <= n && n - (n / fft_size) * fft_size < fft_size)
        by (nonlinear_arith)
        requires
            fft_size > 0,
            b < n / fft_size,
    ;
}

/// A tail that is shorter than a block makes no block.
pub proof fn law_a_tail_makes_no_block(m: nat, t: nat, fft_size: nat)
    requires
        t < fft_size,
    ensures
        whole_blocks(m * fft_size + t, fft_size) == m,
{
    assert((m * fft_size + t) / fft_size == m) by (nonlinear_arith)
        requires
            t < fft_size,
    ;
}

/// An incomplete last block counts for nothing: where there is at least one whole block, a tail that
/// is shorter than a block changes neither the plan nor what lies in the blocks.
pub proof fn law_an_incomplete_block_is_ignored<T>(
    samples: Seq<T>,
    tail: Seq<T>,
    m: nat,
    requested: nat,
    short: SpectrumPlan,
    long: SpectrumPlan,
    b: int,
)
    requires
        short.plans(samples.len(), requested),
        long.plans((samples + tail).len(), requested),
        samples.len() == m * short.fft_size,
        tail.len() < short.fft_size,
        0 <= b < m,
    ensures
        whole_blocks(samples.len(), short.fft_size as nat) == m,
        whole_blocks((samples + tail).len(), short.fft_size as nat) == m,
        long == short,
        (samples + tail).subrange(b * short.fft_size, (b + 1) * short.fft_size)
            == samples.subrange(b * short.fft_size, (b + 1) * short.fft_size),
{
    law_fft_size_is_unique(requested, short.fft_size as nat, long.fft_size as nat);
    let n = short.fft_size as int;
    law_a_tail_makes_no_block(m, 0, short.fft_size as nat);
    law_a_tail_makes_no_block(m, tail.len(), short.fft_size as nat);
    assert(m * n >= n && 0 <= b * n && (b + 1) * n <= m * n && b * n <= (b + 1) * n)
        by (nonlinear_arith)
        requires
            0 <= b < m,
            n > 0,
    ;
    assert((samples + tail).subrange(b * n, (b + 1) * n) =~= samples.subrange(b * n, (b + 1) * n));
}

/// Twice the samples make twice the blocks, of the same length, so that the average is taken over
/// twice as many.
pub proof fn law_blocks_grow_with_the_samples(
    n: nat,
    requested: nat,
    m: nat,
    once: SpectrumPlan,
    twice: SpectrumPlan,
)
    requires
        once.plans(n, requested),
        twice.plans(2 * n, requested),
        n == m * once.fft_size,
        m >= 1,
    ensures
        twice.fft_size == once.fft_size,
        once.blocks == m,
        twice.blocks == 2 * once.blocks,
        twice.samples_used == 2 * once.samples_used,
{
    law_fft_size_is_unique(requested, once.fft_size as nat, twice.fft_size as nat);
    let f = once.fft_size as int;
    law_a_tail_makes_no_block(m, 0, once.fft_size as nat);
    law_a_tail_makes_no_block(2 * m, 0, once.fft_size as nat);
    assert(m * f >= f && 2 * (m * f) == (2 * m) * f) by (nonlinear_arith)
        requires
            m >= 1,
            f > 0,
    ;
}

/// The transform is the shortest power of two that is not below the requested length, and never longer
/// than `1 << 20`.
pub proof fn law_fft_size_is_tight(requested: nat, r: nat)
    requires
        is_fft_size(requested, r),
    ensures
        exists|e: nat| e <= 20 && r == #[trigger] pow2(e),
        requested <= 1048576 ==> r >= requested,
        requested <= 1048576 && r > 1 ==> r < 2 * requested,
        requested > 1048576 ==> r == 1048576,
{
    lemma2_to64();
    law_fft_size_is_a_fixed_point(requested, r);
    let e = choose|e: nat| r == #[trigger] pow2(e);
    if e > 20 {
        lemma_pow2_strictly_increases(20, e);
    }
    if requested <= 1048576 && r > 1 {
        assert(e > 0);
        lemma_pow2_unfold(e);
        if r >= 2 * requested {
            assert(pow2((e - 1) as nat) >= requested);
            lemma_pow2_pos((e - 1) as nat);
        }
    }
}

/// A plan counts the whole blocks that the samples hold, but never fewer than one, and the samples of
/// as many blocks: no block beyond those would fit.
pub proof fn law_a_plan_counts_whole_blocks(plan: SpectrumPlan, n: nat, requested: nat)
    requires
        plan.plans(n, requested),
    ensures
        plan.fft_size > 0,
        plan.blocks >= 1,
        plan.samples_used == plan.blocks * plan.fft_size,
        n >= plan.fft_size ==> plan.samples_used <= n < plan.samples_used + plan.fft_size,
        n < plan.fft_size ==> plan.blocks == 1,
        is_fft_size(requested, plan.fft_size as nat),
{
    let f = plan.fft_size as int;
    assert(n >= f ==> n / (f as nat) >= 1 && (n / (f as nat)) * f <= n < (n / (f as nat)) * f + f)
        by (nonlinear_arith)
        requires
            f > 0,
    ;
}

/// Centring exchanges the two halves of a transform's output: the upper one comes first.
pub proof fn law_centring_exchanges_the_halves(k: int, n: int)
    requires
        0 <= k < n,
        n % 2 == 0,
    ensures
        k < n / 2 ==> centred_source(k, n) == n / 2 + k,
        k >= n / 2 ==> centred_source(k, n) == k - n / 2,
{
    law_centred_bins_are_in_order_of_frequency(k, n);
    if k < n / 2 {
        assert((k + n / 2) % n == k + n / 2) by (nonlinear_arith)
            requires
                0 <= k + n / 2 < n,
        ;
    } else {
        assert((k + n / 2) % n == k + n / 2 - n) by (nonlinear_arith)
            requires
                n <= k + n / 2 < 2 * n,
        ;
    }
}

} // verus!
