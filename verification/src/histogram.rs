//! Histograms of the raw 16-bit sample values of one port.
use vstd::prelude::*;

verus! {

/// One complex sample as the device sends it: in-phase and quadrature part.
#[derive(Clone, Copy, Debug, PartialEq, Eq, Structural)]
pub struct IqSample {
    pub re: i16,
    pub im: i16,
}

/// Lowest value on the axis.
pub const MIN_VAL: i32 = -32768;

/// Highest value on the axis.
pub const MAX_VAL: i32 = 32767;

/// Number of neighbouring values that share a bin.
pub const BIN_WIDTH: u32 = 4;

/// Number of bins that cover the axis.
pub const NBINS: usize = 16384;

/// Histogram of the values of one port.
#[derive(Clone, Debug)]
pub struct PortHistogram {
    pub port: usize,
    /// How many values were counted: two for each complex sample.
    pub samples: usize,
    pub bin_width: u32,
    pub min: i32,
    pub max: i32,
    /// One count for each bin, lowest values first.
    pub counts: Vec<u64>,
}

/// The bin that the value `v` falls into.
pub open spec fn bin_of(v: i16) -> int {
    (v - MIN_VAL) / BIN_WIDTH as int
}

/// 1 if `v` falls into bin `b`, else 0.
pub open spec fn hit(v: i16, b: int) -> nat {
    if bin_of(v) == b {
        1
    } else {
        0
    }
}

/// How many of the real and imaginary parts of `samples` fall into bin `b`.
pub open spec fn count_in_bin(samples: Seq<IqSample>, b: int) -> nat
    decreases samples.len(),
{
    if samples.len() == 0 {
        0
    } else {
        count_in_bin(samples.drop_last(), b) + hit(samples.last().re, b) + hit(
            samples.last().im,
            b,
        )
    }
}

impl PortHistogram {
    /// This is the histogram of `samples`, received on `port`.
    pub open spec fn describes(&self, port: usize, samples: Seq<IqSample>) -> bool {
        &&& self.port == port
        &&& self.samples == 2 * samples.len()
        &&& self.bin_width == BIN_WIDTH
        &&& self.min == MIN_VAL
        &&& self.max == MAX_VAL
        &&& self.counts@.len() == NBINS
        &&& forall|b: int|
            0 <= b < NBINS ==> #[trigger] self.counts@[b] == count_in_bin(samples, b)
    }
}

/// The first `n` entries of `counts`, added up.
pub open spec fn sum_of(counts: Seq<u64>, n: int) -> int
    decreases n,
{
    if n <= 0 {
        0
    } else {
        sum_of(counts, n - 1) + counts[n - 1]
    }
}

/// The values of `samples` that fall into one of the first `n` bins.
spec fn count_below(samples: Seq<IqSample>, n: int) -> int
    decreases n,
{
    if n <= 0 {
        0
    } else {
        count_below(samples, n - 1) + count_in_bin(samples, n - 1)
    }
}

spec fn hit_below(v: i16, n: int) -> int {
    if bin_of(v) < n {
        1
    } else {
        0
    }
}

proof fn lemma_count_below_last(samples: Seq<IqSample>, n: int)
    requires
        samples.len() > 0,
        n >= 0,
    ensures
        count_below(samples, n) == count_below(samples.drop_last(), n) + hit_below(
            samples.last().re,
            n,
        ) + hit_below(samples.last().im, n),
    decreases n,
{
    if n > 0 {
        lemma_count_below_last(samples, n - 1);
    }
}

proof fn lemma_count_below_none(n: int)
    ensures
        count_below(Seq::empty(), n) == 0,
    decreases n,
{
    if n > 0 {
        lemma_count_below_none(n - 1);
    }
}

proof fn lemma_count_below_all(samples: Seq<IqSample>)
    ensures
        count_below(samples, NBINS as int) == 2 * samples.len(),
    decreases samples.len(),
{
    if samples.len() == 0 {
        assert(samples =~= Seq::empty());
        lemma_count_below_none(NBINS as int);
    } else {
        lemma_count_below_last(samples, NBINS as int);
        lemma_count_below_all(samples.drop_last());
    }
}

proof fn lemma_sum_is_count_below(counts: Seq<u64>, samples: Seq<IqSample>, n: int)
    requires
        n <= counts.len(),
        forall|b: int| 0 <= b < counts.len() ==> #[trigger] counts[b] == count_in_bin(samples, b),
    ensures
        sum_of(counts, n) == count_below(samples, n),
    decreases n,
{
    if n > 0 {
        lemma_sum_is_count_below(counts, samples, n - 1);
    }
}

/// No bin counts more than all the values there are.
proof fn lemma_count_bounded(samples: Seq<IqSample>, b: int)
    ensures
        count_in_bin(samples, b) <= 2 * samples.len(),
    decreases samples.len(),
{
    if samples.len() > 0 {
        lemma_count_bounded(samples.drop_last(), b);
    }
}

/// Every value is counted exactly once: the bins of a histogram add up to the number of values.
pub proof fn law_every_value_is_counted_once(
    h: PortHistogram,
    port: usize,
    samples: Seq<IqSample>,
)
    requires
        h.describes(port, samples),
    ensures
        sum_of(h.counts@, h.counts@.len() as int) == h.samples,
{
    lemma_sum_is_count_below(h.counts@, samples, NBINS as int);
    lemma_count_below_all(samples);
}

/// Counting two captures after one another is counting each and adding the bins up.
pub proof fn law_counts_add_up(first: Seq<IqSample>, second: Seq<IqSample>, b: int)
    ensures
        count_in_bin(first + second, b) == count_in_bin(first, b) + count_in_bin(second, b),
    decreases second.len(),
{
    if second.len() == 0 {
        assert(first + second =~= first);
    } else {
        assert((first + second).drop_last() =~= first + second.drop_last());
        law_counts_add_up(first, second.drop_last(), b);
    }
}

/// The bins tile the axis: bin `b` holds the values from `MIN_VAL + 4 * b` to `MIN_VAL + 4 * b + 3`.
pub proof fn law_bins_tile_the_axis(v: i16)
    ensures
        0 <= bin_of(v) < NBINS,
        MIN_VAL + BIN_WIDTH * bin_of(v) <= v < MIN_VAL + BIN_WIDTH * (bin_of(v) + 1),
        MIN_VAL + BIN_WIDTH * NBINS == MAX_VAL + 1,
{
}

fn bin_index(v: i16) -> (idx: usize)
    ensures
        idx == bin_of(v),
        idx < NBINS,
{
    ((v as i32 - MIN_VAL) as u32 / BIN_WIDTH) as usize
}

/// Histogram of the raw values of `samples`: the axis runs from -32768 to 32767 in bins of four
/// values, and each sample counts once for its real and once for its imaginary part.
pub fn histogram_of(port_id: usize, samples: &[IqSample]) -> (h: PortHistogram)
    requires
        2 * samples@.len() <= usize::MAX,
    ensures
        h.describes(port_id, samples@),
{
    let mut counts: Vec<u64> = vec![0u64; NBINS];
    let mut i: usize = 0;
    while i < samples.len()
        invariant
            i <= samples@.len(),
            2 * samples@.len() <= usize::MAX,
            counts@.len() == NBINS,
            forall|b: int|
                0 <= b < NBINS ==> #[trigger] counts@[b] == count_in_bin(samples@.take(i as int), b),
        decreases samples@.len() - i,
    {
        let s = samples[i];
        let ghost seen = samples@.take(i as int);
        let ghost more = samples@.take(i + 1);
        proof {
            assert(more.drop_last() =~= seen);
            assert(more.last() == s);
            lemma_count_bounded(seen, bin_of(s.re));
            lemma_count_bounded(seen, bin_of(s.im));
        }
        let a = bin_index(s.re);
        counts[a] = counts[a] + 1;
        let b = bin_index(s.im);
        counts[b] = counts[b] + 1;
        i = i + 1;
    }
    proof {
        assert(samples@.take(i as int) =~= samples@);
    }
    PortHistogram {
        port: port_id,
        samples: samples.len() * 2,
        bin_width: BIN_WIDTH,
        min: MIN_VAL,
        max: MAX_VAL,
        counts,
    }
}

proof fn lemma_count_is_filter(samples: Seq<IqSample>, b: int)
    ensures
        count_in_bin(samples, b) == samples.filter(
            |s: IqSample| -32768 + 4 * b <= s.re < -32768 + 4 * (b + 1),
        ).len() + samples.filter(
            |s: IqSample| -32768 + 4 * b <= s.im < -32768 + 4 * (b + 1),
        ).len(),
    decreases samples.len(),
{
    reveal(Seq::filter);
    if samples.len() > 0 {
        lemma_count_is_filter(samples.drop_last(), b);
    }
}

/// A count is the number of samples whose real part lies in the bin, and of those whose imaginary part
/// does: bin `b` holds the four values from `-32768 + 4 * b` on.
pub proof fn law_a_count_is_a_number_of_values(
    h: PortHistogram,
    port: usize,
    samples: Seq<IqSample>,
    b: int,
)
    requires
        h.describes(port, samples),
        0 <= b < 16384,
    ensures
        h.port == port,
        h.samples == 2 * samples.len(),
        h.bin_width == 4,
        h.min == -32768,
        h.max == 32767,
        h.counts@.len() == 16384,
        h.counts@[b] == samples.filter(
            |s: IqSample| -32768 + 4 * b <= s.re < -32768 + 4 * (b + 1),
        ).len() + samples.filter(
            |s: IqSample| -32768 + 4 * b <= s.im < -32768 + 4 * (b + 1),
        ).len(),
{
    lemma_count_is_filter(samples, b);
}

} // verus!
