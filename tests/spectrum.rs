use num_complex::Complex;
use rusty_visualizer_core::audio::{padded_buffer, AudioData, AudioMode};
use rusty_visualizer_core::fft::{bit_reverse_permutation, process_fft, FFTMode, FFTSize};
use rusty_visualizer_core::scalar::Real;

#[derive(Clone, Copy, Debug, PartialEq)]
struct F(f32);

impl Real for F {
    fn spec_zero() -> Self {
        Self::zero()
    }

    fn spec_one() -> Self {
        Self::one()
    }

    fn spec_of_usize(n: usize) -> Self {
        Self::of_usize(n)
    }

    fn spec_plus(self, rhs: Self) -> Self {
        self.plus(rhs)
    }

    fn spec_minus(self, rhs: Self) -> Self {
        self.minus(rhs)
    }

    fn spec_times(self, rhs: Self) -> Self {
        self.times(rhs)
    }

    fn spec_over(self, rhs: Self) -> Self {
        self.over(rhs)
    }

    fn spec_negated(self) -> Self {
        self.negated()
    }

    fn spec_square_root(self) -> Self {
        self.square_root()
    }

    fn zero() -> Self {
        F(0.0)
    }

    fn one() -> Self {
        F(1.0)
    }

    fn of_usize(n: usize) -> Self {
        F(n as f32)
    }

    fn plus(self, rhs: Self) -> Self {
        F(self.0 + rhs.0)
    }

    fn minus(self, rhs: Self) -> Self {
        F(self.0 - rhs.0)
    }

    fn times(self, rhs: Self) -> Self {
        F(self.0 * rhs.0)
    }

    fn over(self, rhs: Self) -> Self {
        F(self.0 / rhs.0)
    }

    fn negated(self) -> Self {
        F(-self.0)
    }

    fn square_root(self) -> Self {
        F(self.0.sqrt())
    }
}

const SIZES: [FFTSize; 11] = [
    FFTSize::FFT16,
    FFTSize::FFT32,
    FFTSize::FFT64,
    FFTSize::FFT128,
    FFTSize::FFT256,
    FFTSize::FFT512,
    FFTSize::FFT1024,
    FFTSize::FFT2048,
    FFTSize::FFT4096,
    FFTSize::FFT8192,
    FFTSize::FFT16384,
];

fn floats(values: &[f32]) -> Vec<F> {
    values.iter().map(|v| F(*v)).collect()
}

#[test]
fn sizes_are_the_powers_of_two_from_16() {
    let expected = [16, 32, 64, 128, 256, 512, 1024, 2048, 4096, 8192, 16384];
    for (size, n) in SIZES.iter().zip(expected.iter()) {
        assert_eq!(size.size(), *n);
        assert_eq!(1usize << size.stages(), *n);
    }
}

#[test]
fn zero_input_gives_zero_spectrum_for_every_size() {
    for size in SIZES.iter() {
        let n = size.size();
        for len in [0usize, 1, 7, n, 2 * n + 3] {
            let zeros = vec![F(0.0); len];
            let frame = AudioData::new(&zeros, AudioMode::FFT(*size), 0);
            assert_eq!(frame.data.len(), n);
            assert!(frame.data.iter().all(|v| v.0 == 0.0));
            assert_eq!(frame.sum.0, 0.0);
            assert_eq!(frame.mode, AudioMode::FFT(*size));
        }
    }
}

#[test]
fn bit_reversal_matches_known_patterns() {
    let mut one = vec![0usize];
    bit_reverse_permutation(&mut one, 1);
    assert_eq!(one, vec![0]);

    let mut two = vec![0usize, 1];
    bit_reverse_permutation(&mut two, 2);
    assert_eq!(two, vec![0, 1]);

    let mut eight: Vec<usize> = (0..8).collect();
    bit_reverse_permutation(&mut eight, 8);
    assert_eq!(eight, vec![0, 4, 2, 6, 1, 5, 3, 7]);

    let mut sixteen: Vec<usize> = (0..16).collect();
    bit_reverse_permutation(&mut sixteen, 16);
    assert_eq!(sixteen, vec![0, 8, 4, 12, 2, 10, 6, 14, 1, 9, 5, 13, 3, 11, 7, 15]);
}

#[test]
fn bit_reversal_leaves_the_tail_alone() {
    let mut v: Vec<usize> = (0..11).collect();
    bit_reverse_permutation(&mut v, 8);
    assert_eq!(v, vec![0, 4, 2, 6, 1, 5, 3, 7, 8, 9, 10]);
}

#[test]
fn bit_reversal_twice_restores_order_for_every_size() {
    for size in SIZES.iter() {
        let n = size.size();
        let start: Vec<usize> = (0..n + 1).map(|i| i * 3 + 1).collect();
        let mut v = start.clone();
        bit_reverse_permutation(&mut v, n);
        assert_ne!(v, start);
        bit_reverse_permutation(&mut v, n);
        assert_eq!(v, start);
    }
}

#[test]
fn wave_mode_copies_samples_and_sums_them() {
    let samples = floats(&[0.5, -0.25, 1.0, 0.125, -2.0]);
    let frame = AudioData::new(&samples, AudioMode::Wave, 4);
    assert_eq!(frame.data, samples);
    assert!((frame.sum.0 - (-0.625)).abs() < 1e-6);
    assert_eq!(frame.mode, AudioMode::Wave);
    assert_eq!(frame.session, 4);

    let empty = AudioData::<F>::new(&[], AudioMode::Wave, 0);
    assert!(empty.data.is_empty());
    assert_eq!(empty.sum.0, 0.0);
}

#[test]
fn spectrum_of_a_constant_is_concentrated_in_the_first_bin() {
    let ones = vec![F(1.0); 16];
    let frame = AudioData::new(&ones, AudioMode::FFT(FFTSize::FFT16), 0);
    assert_eq!(frame.data.len(), 16);
    // |X[0]| = 16, shown as sqrt(sqrt(16^2)) / 10 = 0.4.
    assert!((frame.data[0].0 - 0.4).abs() < 1e-5);
    for v in &frame.data[1..] {
        assert!(v.0.abs() < 1e-3);
    }
    let total: f32 = frame.data.iter().map(|v| v.0).sum();
    assert!((frame.sum.0 - total).abs() < 1e-5);
}

#[test]
fn sine_wave_peaks_at_its_frequency_bin() {
    let n = 16;
    let bin = 3;
    let samples: Vec<F> = (0..n)
        .map(|i| F((2.0 * std::f32::consts::PI * bin as f32 * i as f32 / n as f32).sin()))
        .collect();
    let frame = AudioData::new(&samples, AudioMode::FFT(FFTSize::FFT16), 0);
    let half = &frame.data[..n / 2];
    let mut best = 0;
    for i in 0..half.len() {
        if half[i].0 > half[best].0 {
            best = i;
        }
    }
    assert_eq!(best, bin);
    // |X[3]| = 8 for a unit sine over 16 samples: sqrt(8) / 10.
    assert!((frame.data[bin].0 - 8f32.sqrt() / 10.0).abs() < 1e-4);
}

#[test]
fn forward_transform_normalises_by_the_size() {
    let mut backward = vec![Complex::new(F(1.0), F(0.0)); 17];
    process_fft(&mut backward, &FFTSize::FFT16, FFTMode::Backward);
    assert!((backward[0].re.0 - 16.0).abs() < 1e-5);

    let mut forward = vec![Complex::new(F(1.0), F(0.0)); 17];
    process_fft(&mut forward, &FFTSize::FFT16, FFTMode::Forward);
    assert!((forward[0].re.0 - 1.0).abs() < 1e-6);
    for c in &forward[1..16] {
        assert!(c.re.0.abs() < 1e-5 && c.im.0.abs() < 1e-5);
    }
    // The slot after the transform length is not touched.
    assert_eq!(forward[16], Complex::new(F(1.0), F(0.0)));
}

#[test]
fn mode_names_list_every_mode() {
    let names = AudioMode::all_named();
    assert_eq!(
        names,
        vec![
            "Wave", "FFT 16", "FFT 32", "FFT 64", "FFT 128", "FFT 256", "FFT 512", "FFT 1024",
            "FFT 2048", "FFT 4096", "FFT 8192", "FFT 16384",
        ]
    );
    let modes = AudioMode::all();
    assert_eq!(modes.len(), 12);
    assert_eq!(modes[0], AudioMode::Wave);
    assert_eq!(modes[11].name(), "FFT 16384");
    assert!(modes[1].is_fft());
    assert!(!modes[0].is_fft());
}

#[test]
fn padded_buffer_holds_the_samples_then_zeros() {
    let samples = floats(&[0.5, -1.5, 2.0]);
    let buffer = padded_buffer(&samples, 16);
    assert_eq!(buffer.len(), 20);
    for (i, c) in buffer.iter().enumerate() {
        let re = if i < 3 { samples[i].0 } else { 0.0 };
        assert_eq!(c.re.0, re);
        assert_eq!(c.im.0, 0.0);
    }
}
