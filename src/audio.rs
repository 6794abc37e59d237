use vstd::prelude::*;

use num_complex::Complex;

use crate::fft::{fft_of, process_fft, FFTMode, FFTSize, MAX_FFT_SIZE};
use crate::scalar::Real;

verus! {

/// How captured samples are exposed: as the raw waveform, or as the
/// magnitude spectrum of a transform of the given length.
#[derive(Copy, Clone, Debug, PartialEq, Eq, Structural)]
pub enum AudioMode {
    FFT(FFTSize),
    Wave,
}

/// The decimal digits of `n`, most significant first.
pub open spec fn decimal(n: nat) -> Seq<char>
    decreases n,
{
    if n < 10 {
        seq![digit(n)]
    } else {
        decimal(n / 10).push(digit(n % 10))
    }
}

pub open spec fn digit(d: nat) -> char {
    if d == 0 {
        '0'
    } else if d == 1 {
        '1'
    } else if d == 2 {
        '2'
    } else if d == 3 {
        '3'
    } else if d == 4 {
        '4'
    } else if d == 5 {
        '5'
    } else if d == 6 {
        '6'
    } else if d == 7 {
        '7'
    } else if d == 8 {
        '8'
    } else {
        '9'
    }
}

/// Every mode, the waveform first, then the spectra by increasing length.
pub open spec fn all_modes() -> Seq<AudioMode> {
    seq![
        AudioMode::Wave,
        AudioMode::FFT(FFTSize::FFT16),
        AudioMode::FFT(FFTSize::FFT32),
        AudioMode::FFT(FFTSize::FFT64),
        AudioMode::FFT(FFTSize::FFT128),
        AudioMode::FFT(FFTSize::FFT256),
        AudioMode::FFT(FFTSize::FFT512),
        AudioMode::FFT(FFTSize::FFT1024),
        AudioMode::FFT(FFTSize::FFT2048),
        AudioMode::FFT(FFTSize::FFT4096),
        AudioMode::FFT(FFTSize::FFT8192),
        AudioMode::FFT(FFTSize::FFT16384),
    ]
}

impl AudioMode {
    /// The display name: `Wave`, or `FFT ` followed by the length in decimal.
    pub open spec fn spec_name(self) -> Seq<char> {
        match self {
            AudioMode::Wave => seq!['W', 'a', 'v', 'e'],
            AudioMode::FFT(size) => seq!['F', 'F', 'T', ' '] + decimal(size.spec_size()),
        }
    }

    /// The number of values in a frame made in this mode from `n_samples`
    /// samples.
    pub open spec fn frame_len(self, n_samples: nat) -> nat {
        match self {
            AudioMode::Wave => n_samples,
            AudioMode::FFT(size) => size.spec_size(),
        }
    }

    pub open spec fn spec_is_fft(self) -> bool {
        self is FFT
    }

    pub fn is_fft(&self) -> (r: bool)
        ensures
            r == self.spec_is_fft(),
    {
        match self {
            AudioMode::FFT(_) => true,
            AudioMode::Wave => false,
        }
    }

    /// Every mode, in the order of `all_modes`.
    pub fn all() -> (r: Vec<AudioMode>)
        ensures
            r@ == all_modes(),
    {
        let r = vec![
            AudioMode::Wave,
            AudioMode::FFT(FFTSize::FFT16),
            AudioMode::FFT(FFTSize::FFT32),
            AudioMode::FFT(FFTSize::FFT64),
            AudioMode::FFT(FFTSize::FFT128),
            AudioMode::FFT(FFTSize::FFT256),
            AudioMode::FFT(FFTSize::FFT512),
            AudioMode::FFT(FFTSize::FFT1024),
            AudioMode::FFT(FFTSize::FFT2048),
            AudioMode::FFT(FFTSize::FFT4096),
            AudioMode::FFT(FFTSize::FFT8192),
            AudioMode::FFT(FFTSize::FFT16384),
        ];
        assert(r@ =~= all_modes());
        r
    }

    /// The display name of this mode.
    pub fn name(&self) -> (r: String)
        ensures
            r@ == self.spec_name(),
    {
        proof {
            vstd::arithmetic::power2::lemma2_to64();
            reveal_with_fuel(decimal, 6);
        }
        match self {
            AudioMode::Wave => {
                let r = "Wave".to_owned();
                proof {
                    reveal_strlit("Wave");
                }
                assert(r@ =~= self.spec_name());
                r
            },
            AudioMode::FFT(FFTSize::FFT16) => {
                let r = "FFT 16".to_owned();
                proof {
                    reveal_strlit("FFT 16");
                }
                assert(r@ =~= self.spec_name());
                r
            },
            AudioMode::FFT(FFTSize::FFT32) => {
                let r = "FFT 32".to_owned();
                proof {
                    reveal_strlit("FFT 32");
                }
                assert(r@ =~= self.spec_name());
                r
            },
            AudioMode::FFT(FFTSize::FFT64) => {
                let r = "FFT 64".to_owned();
                proof {
                    reveal_strlit("FFT 64");
                }
                assert(r@ =~= self.spec_name());
                r
            },
            AudioMode::FFT(FFTSize::FFT128) => {
                let r = "FFT 128".to_owned();
                proof {
                    reveal_strlit("FFT 128");
                }
                assert(r@ =~= self.spec_name());
                r
            },
            AudioMode::FFT(FFTSize::FFT256) => {
                let r = "FFT 256".to_owned();
                proof {
                    reveal_strlit("FFT 256");
                }
                assert(r@ =~= self.spec_name());
                r
            },
            AudioMode::FFT(FFTSize::FFT512) => {
                let r = "FFT 512".to_owned();
                proof {
                    reveal_strlit("FFT 512");
                }
                assert(r@ =~= self.spec_name());
                r
            },
            AudioMode::FFT(FFTSize::FFT1024) => {
                let r = "FFT 1024".to_owned();
                proof {
                    reveal_strlit("FFT 1024");
                }
                assert(r@ =~= self.spec_name());
                r
            },
            AudioMode::FFT(FFTSize::FFT2048) => {
                let r = "FFT 2048".to_owned();
                proof {
                    reveal_strlit("FFT 2048");
                }
                assert(r@ =~= self.spec_name());
                r
            },
            AudioMode::FFT(FFTSize::FFT4096) => {
                let r = "FFT 4096".to_owned();
                proof {
                    reveal_strlit("FFT 4096");
                }
                assert(r@ =~= self.spec_name());
                r
            },
            AudioMode::FFT(FFTSize::FFT8192) => {
                let r = "FFT 8192".to_owned();
                proof {
                    reveal_strlit("FFT 8192");
                }
                assert(r@ =~= self.spec_name());
                r
            },
            AudioMode::FFT(FFTSize::FFT16384) => {
                let r = "FFT 16384".to_owned();
                proof {
                    reveal_strlit("FFT 16384");
                }
                assert(r@ =~= self.spec_name());
                r
            },
        }
    }

    /// The display names of all modes, in the order of `all_modes`.
    pub fn all_named() -> (r: Vec<String>)
        ensures
            r.len() == all_modes().len(),
            forall|i: int| 0 <= i < r.len() ==> #[trigger] r[i]@ == all_modes()[i].spec_name(),
    {
        let modes = AudioMode::all();
        let mut r: Vec<String> = Vec::new();
        let mut i: usize = 0;
        while i < modes.len()
            invariant
                modes@ == all_modes(),
                i <= modes.len(),
                r.len() == i,
                forall|j: int| 0 <= j < i ==> #[trigger] r[j]@ == all_modes()[j].spec_name(),
            decreases modes.len() - i,
        {
            r.push(modes[i].name());
            i = i + 1;
        }
        r
    }
}

/// One frame of analysed audio: the values, their sum (a cheap loudness
/// figure), the mode that made them, and the capture session whose callback
/// made them.
#[derive(Clone, Debug)]
pub struct AudioData<R> {
    pub data: Vec<R>,
    pub sum: R,
    pub mode: AudioMode,
    pub session: u64,
}

/// The values of `s` added up from the first on, starting from zero.
pub open spec fn sum_of<R: Real>(s: Seq<R>) -> R
    decreases s.len(),
{
    if s.len() == 0 {
        R::spec_zero()
    } else {
        sum_of(s.drop_last()).spec_plus(s.last())
    }
}

/// The complex buffer a spectrum is computed in: the samples as real parts
/// with zero imaginary parts, then `size + 1` zeros.
pub open spec fn padded_of<R: Real>(samples: Seq<R>, size: nat) -> Seq<Complex<R>> {
    Seq::new(
        samples.len() + size + 1,
        |i: int|
            if i < samples.len() {
                Complex { re: samples[i], im: R::spec_zero() }
            } else {
                Complex { re: R::spec_zero(), im: R::spec_zero() }
            },
    )
}

/// The display magnitude of a bin, `sqrt(sqrt(re^2 + im^2)) / 10`: a
/// compression chosen for drawing, not a physical magnitude.
pub open spec fn display_magnitude<R: Real>(c: Complex<R>) -> R {
    c.re.spec_times(c.re).spec_plus(c.im.spec_times(c.im)).spec_square_root().spec_square_root().spec_over(
        R::spec_of_usize(10),
    )
}

/// The display magnitudes of the first `size` bins of the un-normalised
/// transform of the zero-padded samples.
pub open spec fn spectrum_of<R: Real>(samples: Seq<R>, size: FFTSize) -> Seq<R> {
    let bins = fft_of(padded_of(samples, size.spec_size()), size, FFTMode::Backward);
    Seq::new(size.spec_size(), |i: int| display_magnitude(bins[i]))
}

/// Copies `samples` into the real parts of a zero-filled complex buffer with
/// `size + 1` slots to spare.
pub fn padded_buffer<R: Real>(samples: &[R], size: usize) -> (r: Vec<Complex<R>>)
    requires
        samples@.len() + size + 1 <= usize::MAX,
    ensures
        r@ == padded_of(samples@, size as nat),
{
    let zero = R::zero();
    let len = samples.len() + size + 1;
    let mut buffer: Vec<Complex<R>> = Vec::with_capacity(len);
    let mut i: usize = 0;
    while i < len
        invariant
            len == samples@.len() + size + 1,
            i <= len,
            zero == R::spec_zero(),
            buffer@.len() == i,
            forall|j: int| 0 <= j < i ==> buffer@[j] == padded_of(samples@, size as nat)[j],
        decreases len - i,
    {
        if i < samples.len() {
            buffer.push(Complex { re: samples[i], im: zero });
        } else {
            buffer.push(Complex { re: zero, im: zero });
        }
        i = i + 1;
    }
    assert(buffer@ =~= padded_of(samples@, size as nat));
    buffer
}

impl<R: Real> AudioData<R> {
    /// A frame is well formed when a spectrum has exactly one value per bin
    /// and the sum is that of the values.
    pub open spec fn wf(&self) -> bool {
        &&& match self.mode {
            AudioMode::FFT(size) => self.data@.len() == size.spec_size(),
            AudioMode::Wave => true,
        }
        &&& self.sum == sum_of(self.data@)
    }

    /// Builds the frame for one buffer of samples. In `Wave` mode the values
    /// are the samples; in `FFT(n)` mode they are the display magnitudes
    /// `sqrt(sqrt(re^2 + im^2)) / 10` of the first `n` bins of the
    /// un-normalised transform of the samples, zero-padded. Either way `sum`
    /// adds the values up in order. The sample count leaves room for the
    /// padding of the largest transform.
    pub fn new(samples: &[R], mode: AudioMode, session: u64) -> (r: Self)
        requires
            samples@.len() + MAX_FFT_SIZE + 1 <= usize::MAX,
        ensures
            r.wf(),
            r.mode == mode,
            r.session == session,
            r.data@.len() == mode.frame_len(samples@.len()),
            r.sum == sum_of(r.data@),
            mode == AudioMode::Wave ==> r.data@ == samples@,
            mode matches AudioMode::FFT(size) ==> r.data@ == spectrum_of(samples@, size),
    {
        let mut sum = R::zero();
        let mut data: Vec<R> = Vec::new();
        match mode {
            AudioMode::Wave => {
                let mut i: usize = 0;
                while i < samples.len()
                    invariant
                        i <= samples@.len(),
                        data@ == samples@.subrange(0, i as int),
                        sum == sum_of(data@),
                    decreases samples@.len() - i,
                {
                    let v = samples[i];
                    let ghost before = data@;
                    sum = sum.plus(v);
                    data.push(v);
                    assert(data@.drop_last() =~= before);
                    i = i + 1;
                }
                assert(data@ =~= samples@);
            },
            AudioMode::FFT(size) => {
                let size_v = size.size();
                proof {
                    size.lemma_size_bounds();
                }
                let mut buffer = padded_buffer(samples, size_v);
                process_fft(buffer.as_mut_slice(), &size, FFTMode::Backward);
                let ghost bins = buffer@;
                assert(bins == fft_of(padded_of(samples@, size.spec_size()), size, FFTMode::Backward));
                let ten = R::of_usize(10);
                let mut i: usize = 0;
                while i < size_v
                    invariant
                        size_v == size.spec_size(),
                        size_v < buffer@.len(),
                        buffer@ == bins,
                        ten == R::spec_of_usize(10),
                        i <= size_v,
                        data@.len() == i,
                        forall|j: int| 0 <= j < i ==> data@[j] == display_magnitude(bins[j]),
                        sum == sum_of(data@),
                    decreases size_v - i,
                {
                    let c = buffer[i];
                    let v = c.re.times(c.re).plus(c.im.times(c.im)).square_root().square_root().over(
                        ten,
                    );
                    let ghost before = data@;
                    sum = sum.plus(v);
                    data.push(v);
                    assert(data@.drop_last() =~= before);
                    i = i + 1;
                }
                assert(data@ =~= spectrum_of(samples@, size));
            },
        }
        AudioData { data, sum, mode, session }
    }
}

impl<R: Real> Default for AudioData<R> {
    /// The frame of an empty buffer in waveform mode.
    fn default() -> (r: Self)
        ensures
            r.wf(),
            r.data@.len() == 0,
            r.mode == AudioMode::Wave,
            r.session == 0,
    {
        let empty: [R; 0] = [];
        AudioData::new(&empty, AudioMode::Wave, 0)
    }
}

} // verus!
