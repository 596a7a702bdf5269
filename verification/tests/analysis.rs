use syncdaq_web::float::{Float32, Float64};
use syncdaq_web::histogram::{histogram_of, IqSample, BIN_WIDTH, MAX_VAL, MIN_VAL, NBINS};
use syncdaq_web::spectrum::{
    block_starts, centre_bins, fft_size_for, next_pow2, SpectrumPlan, MAX_FFT_SIZE,
};

fn iq(re: i16, im: i16) -> IqSample {
    IqSample { re, im }
}

#[test]
fn histogram_counts_both_parts() {
    let h = histogram_of(3, &[iq(-32768, 32767), iq(0, 3), iq(-1, 4)]);
    assert_eq!(h.port, 3);
    assert_eq!(h.samples, 6);
    assert_eq!(h.bin_width, 4);
    assert_eq!(h.min, -32768);
    assert_eq!(h.max, 32767);
    assert_eq!(h.counts.len(), 16384);
    assert_eq!(h.counts[0], 1);
    assert_eq!(h.counts[16383], 1);
    assert_eq!(h.counts[8191], 1);
    assert_eq!(h.counts[8192], 2);
    assert_eq!(h.counts[8193], 1);
}

#[test]
fn histogram_of_nothing_is_empty() {
    let h = histogram_of(0, &[]);
    assert_eq!(h.samples, 0);
    assert!(h.counts.iter().all(|c| *c == 0));
}

#[test]
fn histogram_counts_every_value_once() {
    let samples: Vec<IqSample> = (0..5000).map(|i| iq((i * 13 % 60000 - 30000) as i16, -7)).collect();
    let h = histogram_of(1, &samples);
    assert_eq!(h.counts.iter().sum::<u64>(), 10000);
    assert_eq!(h.counts.iter().sum::<u64>() as usize, h.samples);
}

#[test]
fn histograms_of_parts_add_up() {
    let a = [iq(5, 6), iq(-9, 100)];
    let b = [iq(5, -32768), iq(7, 7), iq(101, 102)];
    let mut both = a.to_vec();
    both.extend_from_slice(&b);
    let (ha, hb, hab) = (histogram_of(0, &a), histogram_of(0, &b), histogram_of(0, &both));
    for k in 0..NBINS {
        assert_eq!(ha.counts[k] + hb.counts[k], hab.counts[k]);
    }
}

#[test]
fn bins_tile_the_axis() {
    assert_eq!(MIN_VAL as i64 + BIN_WIDTH as i64 * NBINS as i64, MAX_VAL as i64 + 1);
    for v in [-32768i32, -32765, -32764, -5, -4, -1, 0, 3, 4, 32764, 32767] {
        let h = histogram_of(0, &[iq(v as i16, v as i16)]);
        let b = ((v + 32768) / 4) as usize;
        assert_eq!(h.counts[b], 2);
    }
}

#[test]
fn next_power_of_two() {
    assert_eq!(next_pow2(0), 1);
    assert_eq!(next_pow2(1), 1);
    assert_eq!(next_pow2(2), 2);
    assert_eq!(next_pow2(3), 4);
    assert_eq!(next_pow2(8192), 8192);
    assert_eq!(next_pow2(8193), 16384);
    assert_eq!(next_pow2(usize::MAX / 2 + 1), usize::MAX / 2 + 1);
}

#[test]
fn transform_length_is_capped() {
    assert_eq!(fft_size_for(0), 1);
    assert_eq!(fft_size_for(1000), 1024);
    assert_eq!(fft_size_for(MAX_FFT_SIZE), 1 << 20);
    assert_eq!(fft_size_for(MAX_FFT_SIZE + 1), 1 << 20);
    assert_eq!(fft_size_for(usize::MAX), 1 << 20);
    assert_eq!(fft_size_for(fft_size_for(5000)), fft_size_for(5000));
}

#[test]
fn plan_counts_whole_blocks() {
    let p = SpectrumPlan::new(10000, 1000);
    assert_eq!((p.fft_size, p.blocks, p.samples_used), (1024, 9, 9216));
    let exact = SpectrumPlan::new(2048, 1024);
    assert_eq!((exact.fft_size, exact.blocks, exact.samples_used), (1024, 2, 2048));
}

#[test]
fn plan_divides_by_one_when_no_block_is_whole() {
    let p = SpectrumPlan::new(10, 1024);
    assert_eq!((p.fft_size, p.blocks, p.samples_used), (1024, 1, 1024));
}

#[test]
fn incomplete_blocks_are_ignored() {
    for tail in [0, 1, 500, 1023] {
        assert_eq!(SpectrumPlan::new(3072 + tail, 1024), SpectrumPlan::new(3072, 1024));
        assert_eq!(block_starts(3072 + tail, 1024), vec![0, 1024, 2048]);
    }
    let (once, twice) = (SpectrumPlan::new(3072, 1024), SpectrumPlan::new(6144, 1024));
    assert_eq!((once.blocks, twice.blocks, twice.samples_used), (3, 6, 6144));
}

#[test]
fn blocks_start_one_after_the_other() {
    assert_eq!(block_starts(10, 4), vec![0, 4]);
    assert_eq!(block_starts(8, 4), vec![0, 4]);
    assert_eq!(block_starts(3, 4), Vec::<usize>::new());
    assert_eq!(block_starts(3, 1), vec![0, 1, 2]);
}

#[test]
fn bins_are_centred() {
    assert_eq!(centre_bins(&vec![0, 1, 2, 3, -4, -3, -2, -1]), vec![-4, -3, -2, -1, 0, 1, 2, 3]);
    assert_eq!(centre_bins(&vec![7]), vec![7]);
    assert_eq!(centre_bins(&vec![0, 1, 2]), vec![1, 2, 0]);
    assert_eq!(centre_bins(&Vec::<u8>::new()), Vec::<u8>::new());
}

#[test]
fn centring_twice_gives_the_output_back() {
    let v: Vec<u32> = (0..64).collect();
    assert_eq!(centre_bins(&centre_bins(&v)), v);
}

#[test]
fn negation_matches_the_hardware() {
    for x in [0.0f64, -0.0, 1.5, -360.0, f64::INFINITY, f64::MIN_POSITIVE] {
        let n = Float64 { bits: x.to_bits() }.negated();
        assert_eq!(n.bits, (-x).to_bits());
        assert_eq!(n.negated().bits, x.to_bits());
    }
    assert_eq!(Float64::zero().bits, 0.0f64.to_bits());
    assert_eq!(Float32 { bits: 2.5f32.to_bits() }.bits, 0x4020_0000);
}

#[test]
fn whole_numbers_match_the_hardware() {
    for n in [0u32, 1, 2, 3, 5, 240, 480, 491, 65535, 65536, 0x7fff_ffff, 0x8000_0000, u32::MAX] {
        assert_eq!(Float64::from_u32(n).bits, (n as f64).to_bits(), "{n}");
    }
    for i in 0..32 {
        let n = 1u32 << i;
        assert_eq!(Float64::from_u32(n).bits, (n as f64).to_bits());
        assert_eq!(Float64::from_u32(n - 1).bits, ((n - 1) as f64).to_bits());
    }
}
