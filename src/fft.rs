use vstd::arithmetic::div_mod::{
    lemma_div_denominator,
    lemma_fundamental_div_mod,
    lemma_fundamental_div_mod_converse,
    lemma_mod_breakdown,
    lemma_mod_multiples_basic,
};
use vstd::arithmetic::power2::{
    lemma2_to64,
    lemma_pow2_adds,
    lemma_pow2_pos,
    lemma_pow2_strictly_increases,
    lemma_pow2_unfold,
    pow2,
};
use vstd::prelude::*;

use num_complex::Complex;

use crate::scalar::Real;

verus! {

/// Direction of the iterative transform.
#[derive(Copy, Clone, Debug, PartialEq, Eq, Structural)]
pub enum FFTMode {
    /// Normalised: every output is divided by the transform size.
    Forward,
    /// Un-normalised; the only direction the capture path uses.
    Backward,
}

/// The largest supported transform length.
pub const MAX_FFT_SIZE: usize = 16384;

/// The supported transform lengths: the powers of two from 16 to 16384.
#[derive(Copy, Clone, Debug, PartialEq, Eq, Structural)]
pub enum FFTSize {
    FFT16,
    FFT32,
    FFT64,
    FFT128,
    FFT256,
    FFT512,
    FFT1024,
    FFT2048,
    FFT4096,
    FFT8192,
    FFT16384,
}

impl FFTSize {
    /// The base-two logarithm of the transform length.
    pub open spec fn log2(self) -> nat {
        match self {
            FFTSize::FFT16 => 4,
            FFTSize::FFT32 => 5,
            FFTSize::FFT64 => 6,
            FFTSize::FFT128 => 7,
            FFTSize::FFT256 => 8,
            FFTSize::FFT512 => 9,
            FFTSize::FFT1024 => 10,
            FFTSize::FFT2048 => 11,
            FFTSize::FFT4096 => 12,
            FFTSize::FFT8192 => 13,
            FFTSize::FFT16384 => 14,
        }
    }

    /// The transform length.
    pub open spec fn spec_size(self) -> nat {
        pow2(self.log2())
    }

    pub proof fn lemma_size_bounds(self)
        ensures
            16 <= self.spec_size() <= 16384,
            self.spec_size() == 2 * pow2((self.log2() - 1) as nat),
    {
        lemma2_to64();
    }

    /// The transform length as a number of slots.
    pub fn size(&self) -> (r: usize)
        ensures
            r == self.spec_size(),
    {
        proof {
            lemma2_to64();
        }
        match self {
            FFTSize::FFT16 => 16,
            FFTSize::FFT32 => 32,
            FFTSize::FFT64 => 64,
            FFTSize::FFT128 => 128,
            FFTSize::FFT256 => 256,
            FFTSize::FFT512 => 512,
            FFTSize::FFT1024 => 1024,
            FFTSize::FFT2048 => 2048,
            FFTSize::FFT4096 => 4096,
            FFTSize::FFT8192 => 8192,
            FFTSize::FFT16384 => 16384,
        }
    }

    /// Number of butterfly stages, one per bit of the index.
    pub fn stages(&self) -> (r: usize)
        ensures
            r == self.log2(),
    {
        match self {
            FFTSize::FFT16 => 4,
            FFTSize::FFT32 => 5,
            FFTSize::FFT64 => 6,
            FFTSize::FFT128 => 7,
            FFTSize::FFT256 => 8,
            FFTSize::FFT512 => 9,
            FFTSize::FFT1024 => 10,
            FFTSize::FFT2048 => 11,
            FFTSize::FFT4096 => 12,
            FFTSize::FFT8192 => 13,
            FFTSize::FFT16384 => 14,
        }
    }
}

/// `i` read as a `k`-bit number with its bits in reverse order.
pub open spec fn bit_rev(i: nat, k: nat) -> nat
    decreases k,
{
    if k == 0 {
        0
    } else {
        low_bit_weight(i, k) + bit_rev(i / 2, (k - 1) as nat)
    }
}

/// The weight that the lowest bit of `i` carries once it is moved to the top
/// of `k` bits.
pub open spec fn low_bit_weight(i: nat, k: nat) -> nat {
    if i % 2 == 1 && k >= 1 {
        pow2((k - 1) as nat)
    } else {
        0
    }
}

/// `s` with its first `2^k` elements in bit-reversed index order; the rest
/// stay where they are.
pub open spec fn bit_reversed<T>(s: Seq<T>, k: nat) -> Seq<T> {
    Seq::new(
        s.len(),
        |x: int|
            if x < pow2(k) {
                s[bit_rev(x as nat, k) as int]
            } else {
                s[x]
            },
    )
}

pub proof fn lemma_bit_rev_bound(i: nat, k: nat)
    ensures
        bit_rev(i, k) < pow2(k),
    decreases k,
{
    lemma_pow2_pos(k);
    if k > 0 {
        lemma_bit_rev_bound(i / 2, (k - 1) as nat);
        lemma_pow2_unfold(k);
    }
}

pub proof fn lemma_bit_rev_zero(k: nat)
    ensures
        bit_rev(0, k) == 0,
    decreases k,
{
    if k > 0 {
        lemma_bit_rev_zero((k - 1) as nat);
    }
}

/// Low zero bits of the argument become high zero bits of the result.
pub proof fn lemma_bit_rev_shift(x: nat, j: nat, k: nat)
    requires
        j <= k,
    ensures
        bit_rev(x * pow2(j), k) == bit_rev(x, (k - j) as nat),
    decreases j,
{
    lemma2_to64();
    if j == 0 {
        assert(x * pow2(j) == x);
    } else {
        let y = x * pow2((j - 1) as nat);
        lemma_pow2_unfold(j);
        assert(x * pow2(j) == 2 * y) by (nonlinear_arith)
            requires
                pow2(j) == 2 * pow2((j - 1) as nat),
                y == x * pow2((j - 1) as nat),
        ;
        assert((2 * y) % 2 == 0 && (2 * y) / 2 == y) by (nonlinear_arith);
        assert(low_bit_weight(2 * y, k) == 0);
        assert(bit_rev(2 * y, k) == bit_rev(y, (k - 1) as nat));
        lemma_bit_rev_shift(x, (j - 1) as nat, (k - 1) as nat);
        assert(bit_rev(y, (k - 1) as nat) == bit_rev(x, (k - j) as nat));
        assert(bit_rev(x * pow2(j), k) == bit_rev(2 * y, k));
    }
}

/// The top bit of the argument becomes the lowest bit of the result.
pub proof fn lemma_bit_rev_top(x: nat, k: nat)
    requires
        k >= 1,
        x < pow2(k),
    ensures
        bit_rev(x, k) == x / pow2((k - 1) as nat) + 2 * bit_rev(
            x % pow2((k - 1) as nat),
            (k - 1) as nat,
        ),
    decreases k,
{
    if k == 1 {
        lemma2_to64();
        assert(bit_rev(x, 1) == low_bit_weight(x, 1) + bit_rev(x / 2, 0));
    } else {
        let p = pow2((k - 2) as nat);
        lemma_pow2_unfold(k);
        lemma_pow2_unfold((k - 1) as nat);
        lemma_pow2_pos((k - 2) as nat);
        assert(x / 2 < pow2((k - 1) as nat));
        lemma_bit_rev_top(x / 2, (k - 1) as nat);
        lemma_div_denominator(x as int, 2, p as int);
        lemma_mod_breakdown(x as int, 2, p as int);
        let m = x % (2 * p);
        let q = (x / 2) % p;
        assert(m == 2 * q + x % 2);
        lemma_fundamental_div_mod_converse(m as int, 2, q as int, (x % 2) as int);
        assert(bit_rev(m, (k - 1) as nat) == low_bit_weight(m, (k - 1) as nat) + bit_rev(
            m / 2,
            (k - 2) as nat,
        ));
        assert(pow2((k - 1) as nat) == 2 * p);
        assert(x / pow2((k - 1) as nat) == (x / 2) / p);
        assert(m % 2 == x % 2);
        assert(m / 2 == q);
        assert(low_bit_weight(m, (k - 1) as nat) == if x % 2 == 1 { p } else { 0 });
        assert(low_bit_weight(x, k) == if x % 2 == 1 { 2 * p } else { 0 });
        assert(bit_rev(x, k) == low_bit_weight(x, k) + bit_rev(x / 2, (k - 1) as nat));
    }
}

/// Reversing the bits twice gives the number back.
pub proof fn lemma_bit_rev_involution(x: nat, k: nat)
    requires
        x < pow2(k),
    ensures
        bit_rev(bit_rev(x, k), k) == x,
    decreases k,
{
    if k == 0 {
        lemma2_to64();
    } else {
        let p = pow2((k - 1) as nat);
        lemma_pow2_unfold(k);
        lemma_pow2_pos((k - 1) as nat);
        let r = bit_rev(x / 2, (k - 1) as nat);
        lemma_bit_rev_bound(x / 2, (k - 1) as nat);
        let y = bit_rev(x, k);
        lemma_bit_rev_bound(x, k);
        assert(y == low_bit_weight(x, k) + r);
        lemma_bit_rev_top(y, k);
        assert(y == (x % 2) * p + r) by (nonlinear_arith)
            requires
                y == low_bit_weight(x, k) + r,
                low_bit_weight(x, k) == if x % 2 == 1 { p } else { 0 },
                x % 2 == 0 || x % 2 == 1,
        ;
        lemma_fundamental_div_mod_converse(y as int, p as int, (x % 2) as int, r as int);
        lemma_bit_rev_involution(x / 2, (k - 1) as nat);
        lemma_fundamental_div_mod(x as int, 2);
    }
}

/// Bit-reversal reordering is an involution: applying it twice gives back
/// the sequence it started from, for every supported transform length.
pub proof fn lemma_bit_reversed_twice<T>(s: Seq<T>, size: FFTSize)
    requires
        size.spec_size() <= s.len(),
    ensures
        bit_reversed(bit_reversed(s, size.log2()), size.log2()) == s,
{
    lemma_bit_reversed_twice_any(s, size.log2());
}

/// Bit-reversal reordering of the first `2^k` elements is an involution.
pub proof fn lemma_bit_reversed_twice_any<T>(s: Seq<T>, k: nat)
    requires
        pow2(k) <= s.len(),
    ensures
        bit_reversed(bit_reversed(s, k), k) == s,
{
    let t = bit_reversed(s, k);
    let u = bit_reversed(t, k);
    assert forall|x: int| 0 <= x < s.len() implies u[x] == s[x] by {
        if x < pow2(k) {
            lemma_bit_rev_bound(x as nat, k);
            lemma_bit_rev_involution(x as nat, k);
        }
    }
    assert(u =~= s);
}

/// The first `c` elements of `cur` hold the bit-reversal reordering of `orig`
/// for every index that the walk has settled (it, or its partner, lies below
/// `i`), and their starting value otherwise.
pub open spec fn reversal_settled<T>(orig: Seq<T>, cur: Seq<T>, k: nat, i: nat) -> bool {
    &&& cur.len() == orig.len()
    &&& forall|x: int|
        0 <= x < cur.len() ==> #[trigger] cur[x] == if x < pow2(k) && (x < i || bit_rev(
            x as nat,
            k,
        ) < i) {
            orig[bit_rev(x as nat, k) as int]
        } else {
            orig[x]
        }
}

/// Reorders the first `c` elements of `data` into bit-reversed index order,
/// in place, walking the reversed counterpart `i2` of each index `i`
/// alongside it; `c` is a power of two.
pub fn bit_reverse_permutation<T: Copy>(data: &mut [T], c: usize)
    requires
        exists|k: nat| pow2(k) == c,
        c <= old(data)@.len(),
    ensures
        forall|k: nat| pow2(k) == c ==> final(data)@ == bit_reversed(old(data)@, k),
{
    let ghost k: nat = choose|k: nat| pow2(k) == c;
    let ghost orig = data@;
    proof {
        lemma_pow2_pos(k);
        lemma_bit_rev_zero(k);
    }
    let n1: usize = c / 2;
    let mut i2: usize = 0;
    let mut i: usize = 0;
    while i < c - 1
        invariant
            pow2(k) == c,
            c <= data@.len(),
            i < c,
            n1 == c / 2,
            i2 == bit_rev(i as nat, k),
            reversal_settled(orig, data@, k, i as nat),
        decreases c - i,
    {
        proof {
            lemma_bit_rev_involution(i as nat, k);
            lemma_bit_rev_bound(i as nat, k);
        }
        if i < i2 {
            let a = data[i];
            let b = data[i2];
            data[i] = b;
            data[i2] = a;
        }
        proof {
            assert forall|x: int| 0 <= x < data@.len() implies #[trigger] data@[x] == if x < pow2(k)
                && (x < i + 1 || bit_rev(x as nat, k) < i + 1) {
                orig[bit_rev(x as nat, k) as int]
            } else {
                orig[x]
            } by {
                if x < pow2(k) {
                    lemma_bit_rev_involution(x as nat, k);
                    lemma_bit_rev_bound(x as nat, k);
                }
            }
        }
        assert(k >= 1) by {
            if k == 0 {
                lemma2_to64();
            }
        }
        proof {
            lemma_pow2_unfold(k);
        }
        let mut n2: usize = n1;
        let ghost mut m: nat = i as nat;
        let ghost mut kk: nat = k;
        proof {
            lemma2_to64();
            assert(pow2((k - kk) as nat) == 1);
            assert((m + 1) * pow2((k - kk) as nat) == m + 1) by (nonlinear_arith)
                requires
                    pow2((k - kk) as nat) == 1,
            ;
        }
        while n2 <= i2
            invariant
                pow2(k) == c,
                i + 1 < c,
                1 <= kk <= k,
                n2 == pow2((kk - 1) as nat),
                m < pow2(kk),
                i2 == bit_rev(m, kk),
                i + 1 == (m + 1) * pow2((k - kk) as nat),
            decreases n2,
        {
            proof {
                lemma_bit_rev_bound(m / 2, (kk - 1) as nat);
                assert(m % 2 == 1);
                if kk == 1 {
                    lemma2_to64();
                    assert(m == 1);
                    assert(i + 1 == 2 * pow2((k - 1) as nat));
                    lemma_pow2_unfold(k);
                    assert(false);
                }
                lemma_pow2_unfold((kk - 1) as nat);
                lemma_pow2_unfold(kk);
                lemma_pow2_unfold((k - kk + 1) as nat);
                assert(m + 1 == 2 * (m / 2 + 1));
                assert((m + 1) * pow2((k - kk) as nat) == (m / 2 + 1) * pow2((k - kk + 1) as nat))
                    by (nonlinear_arith)
                    requires
                        m + 1 == 2 * (m / 2 + 1),
                        pow2((k - kk + 1) as nat) == 2 * pow2((k - kk) as nat),
                ;
            }
            i2 = i2 - n2;
            n2 = n2 / 2;
            proof {
                m = m / 2;
                kk = (kk - 1) as nat;
            }
        }
        proof {
            lemma_bit_rev_bound(m / 2, (kk - 1) as nat);
            assert(m % 2 == 0);
            assert((m + 1) % 2 == 1 && (m + 1) / 2 == m / 2);
            assert(bit_rev(m + 1, kk) == n2 + i2);
            lemma_bit_rev_shift(m + 1, (k - kk) as nat, k);
            lemma_bit_rev_bound((i + 1) as nat, k);
        }
        i2 = i2 + n2;
        i = i + 1;
    }
    proof {
        assert forall|kk: nat| pow2(kk) == c implies data@ == bit_reversed(orig, kk) by {
            if kk < k {
                lemma_pow2_strictly_increases(kk, k);
            } else if kk > k {
                lemma_pow2_strictly_increases(k, kk);
            }
            assert forall|x: int| 0 <= x < data@.len() implies data@[x] == bit_reversed(
                orig,
                k,
            )[x] by {
                if x < pow2(k) {
                    lemma_bit_rev_bound(x as nat, k);
                }
            }
            assert(data@ =~= bit_reversed(orig, k));
        }
    }
}

/// `d` with the slots `i3` and `i4` combined by one butterfly with twiddle
/// factor `(n5, n6)`: the twiddled `d[i4]` is added to `d[i3]` and taken
/// from it.
pub open spec fn butterfly_at<R: Real>(d: Seq<Complex<R>>, i3: int, i4: int, n5: R, n6: R) -> Seq<
    Complex<R>,
> {
    let a = d[i3];
    let b = d[i4];
    let n8 = n5.spec_times(b.re).spec_minus(n6.spec_times(b.im));
    let n9 = n5.spec_times(b.im).spec_plus(n6.spec_times(b.re));
    d.update(i4, Complex { re: a.re.spec_minus(n8), im: a.im.spec_minus(n9) }).update(
        i3,
        Complex { re: a.re.spec_plus(n8), im: a.im.spec_plus(n9) },
    )
}

/// The butterflies of span `n7` at `i3`, `i3 + 2 n7`, ... below `size`, in
/// that order.
pub open spec fn butterflies_from<R: Real>(
    d: Seq<Complex<R>>,
    size: nat,
    n7: nat,
    i3: nat,
    n5: R,
    n6: R,
) -> Seq<Complex<R>>
    decreases size + 2 * n7 - i3,
{
    if n7 == 0 || i3 >= size {
        d
    } else {
        butterflies_from(
            butterfly_at(d, i3 as int, (i3 + n7) as int, n5, n6),
            size,
            n7,
            i3 + 2 * n7,
            n5,
            n6,
        )
    }
}

/// One butterfly stage of span `n7`, from offset `i2` on: the butterflies of
/// each offset with twiddle `(n5, n6)`, which is then turned by `(n3, n4)`.
pub open spec fn stage_from<R: Real>(
    d: Seq<Complex<R>>,
    size: nat,
    n7: nat,
    i2: nat,
    n5: R,
    n6: R,
    n3: R,
    n4: R,
) -> Seq<Complex<R>>
    decreases n7 - i2,
{
    if i2 >= n7 {
        d
    } else {
        stage_from(
            butterflies_from(d, size, n7, i2, n5, n6),
            size,
            n7,
            i2 + 1,
            n3.spec_times(n5).spec_minus(n4.spec_times(n6)),
            n4.spec_times(n5).spec_plus(n3.spec_times(n6)),
            n3,
            n4,
        )
    }
}

/// The cosine of half the angle whose cosine is `n3`: `sqrt((1 + n3) / 2)`.
pub open spec fn half_angle_cos<R: Real>(n3: R) -> R {
    R::spec_one().spec_plus(n3).spec_over(R::spec_of_usize(2)).spec_square_root()
}

/// The sine of half the angle whose cosine is `n3`, `sqrt((1 - n3) / 2)`,
/// negated unless the direction is `Forward`.
pub open spec fn half_angle_sin<R: Real>(n3: R, mode: FFTMode) -> R {
    let half = R::spec_one().spec_minus(n3).spec_over(R::spec_of_usize(2)).spec_square_root();
    if mode != FFTMode::Forward {
        half.spec_negated()
    } else {
        half
    }
}

/// The butterfly stages `stage`, ..., `ex - 1`; stage `s` has span `2^s` and
/// the rotation `(n3, n4)` that the half-angle recurrence has reached.
pub open spec fn stages_from<R: Real>(
    d: Seq<Complex<R>>,
    size: nat,
    stage: nat,
    ex: nat,
    n3: R,
    n4: R,
    mode: FFTMode,
) -> Seq<Complex<R>>
    decreases ex - stage,
{
    if stage >= ex {
        d
    } else {
        stages_from(
            stage_from(d, size, pow2(stage), 0, R::spec_one(), R::spec_zero(), n3, n4),
            size,
            stage + 1,
            ex,
            half_angle_cos(n3),
            half_angle_sin(n3, mode),
            mode,
        )
    }
}

/// `d` with each of its first `c` values divided by `c`.
pub open spec fn normalized<R: Real>(d: Seq<Complex<R>>, c: nat) -> Seq<Complex<R>> {
    Seq::new(
        d.len(),
        |j: int|
            if j < c {
                Complex {
                    re: d[j].re.spec_over(R::spec_of_usize(c as usize)),
                    im: d[j].im.spec_over(R::spec_of_usize(c as usize)),
                }
            } else {
                d[j]
            },
    )
}

/// What the transform of the first `size` slots of `d` leaves in `d`: the
/// bit-reversal reordering, then one butterfly stage per bit with twiddles
/// from the half-angle recurrence started at `(cos, sin) = (-1, 0)`, then,
/// for `Forward`, the division by `size`.
pub open spec fn fft_of<R: Real>(d: Seq<Complex<R>>, size: FFTSize, mode: FFTMode) -> Seq<
    Complex<R>,
> {
    let staged = stages_from(
        bit_reversed(d, size.log2()),
        size.spec_size(),
        0,
        size.log2(),
        R::spec_one().spec_negated(),
        R::spec_zero(),
        mode,
    );
    if mode == FFTMode::Forward {
        normalized(staged, size.spec_size())
    } else {
        staged
    }
}

/// Divides the first `c` values by `c`.
fn forward<R: Real>(data: &mut [Complex<R>], c: usize)
    requires
        c <= old(data)@.len(),
    ensures
        final(data)@ == normalized(old(data)@, c as nat),
{
    let scale = R::of_usize(c);
    let mut i: usize = 0;
    while i < c
        invariant
            i <= c,
            c <= data@.len(),
            data@.len() == old(data)@.len(),
            scale == R::spec_of_usize(c),
            forall|j: int| 0 <= j < i ==> data@[j] == normalized(old(data)@, c as nat)[j],
            forall|j: int| i <= j < data@.len() ==> data@[j] == old(data)@[j],
        decreases c - i,
    {
        let v = data[i];
        data[i] = Complex { re: v.re.over(scale), im: v.im.over(scale) };
        i = i + 1;
    }
    assert(data@ =~= normalized(old(data)@, c as nat));
}

/// One butterfly pass of span `n7` with twiddle factor `(n5, n6)`: combines
/// each pair of slots `i3`, `i3 + n7` where `i3` runs over `i2, i2 + 2 n7,
/// ...` below `size`.
fn butterflies<R: Real>(data: &mut [Complex<R>], size: usize, n7: usize, i2: usize, n5: R, n6: R)
    requires
        i2 < n7,
        (size as int) % (2 * n7 as int) == 0,
        size <= old(data)@.len(),
        size + 2 * n7 <= usize::MAX,
    ensures
        final(data)@.len() == old(data)@.len(),
        final(data)@ == butterflies_from(old(data)@, size as nat, n7 as nat, i2 as nat, n5, n6),
        forall|j: int| size <= j < final(data)@.len() ==> final(data)@[j] == old(data)@[j],
{
    let n2 = n7 * 2;
    let ghost q: nat = (size / n2) as nat;
    proof {
        lemma_fundamental_div_mod(size as int, n2 as int);
    }
    let mut i3: usize = i2;
    let ghost mut t: nat = 0;
    while i3 < size
        invariant
            n2 == 2 * n7,
            i2 < n7,
            q * n2 == size,
            size <= data@.len(),
            size + n2 <= usize::MAX,
            i3 == i2 + t * n2,
            i3 < size ==> t < q,
            i3 <= size + n7,
            data@.len() == old(data)@.len(),
            forall|j: int| size <= j < data@.len() ==> data@[j] == old(data)@[j],
            butterflies_from(data@, size as nat, n7 as nat, i3 as nat, n5, n6) == butterflies_from(
                old(data)@,
                size as nat,
                n7 as nat,
                i2 as nat,
                n5,
                n6,
            ),
        decreases size + n2 - i3,
    {
        assert(i3 + n7 < size && i3 + n2 <= size + n7) by (nonlinear_arith)
            requires
                i3 == i2 + t * n2,
                t < q,
                q * n2 == size,
                n2 == 2 * n7,
                i2 < n7,
        ;
        let ghost before = data@;
        let i4 = i3 + n7;
        let a = data[i3];
        let b = data[i4];
        let n8 = n5.times(b.re).minus(n6.times(b.im));
        let n9 = n5.times(b.im).plus(n6.times(b.re));
        data[i4] = Complex { re: a.re.minus(n8), im: a.im.minus(n9) };
        data[i3] = Complex { re: a.re.plus(n8), im: a.im.plus(n9) };
        assert(data@ =~= butterfly_at(before, i3 as int, i4 as int, n5, n6));
        let ghost prev = i3;
        i3 = i3 + n2;
        proof {
            t = t + 1;
            assert(i3 == i2 + t * n2) by (nonlinear_arith)
                requires
                    prev == i2 + (t - 1) * n2,
                    i3 == prev + n2,
            ;
            if i3 < size {
                assert(t < q) by (nonlinear_arith)
                    requires
                        i3 == i2 + t * n2,
                        i3 < size,
                        q * n2 == size,
                        n2 > 0,
                ;
            }
        }
    }
}

/// In-place radix-2 decimation-in-time transform of the first `size` slots
/// of `data`: bit-reversal reordering, then one butterfly stage per bit,
/// with the twiddle factors advanced by the half-angle recurrence that
/// starts from `(cos, sin) = (-1, 0)`. `Forward` also divides every output
/// by `size`; `Backward` leaves the result un-normalised.
///
/// Every access stays within the first `size` slots; the slots after them
/// are left as they were.
pub fn process_fft<R: Real>(data: &mut [Complex<R>], size: &FFTSize, mode: FFTMode)
    requires
        size.spec_size() <= old(data)@.len(),
    ensures
        final(data)@.len() == old(data)@.len(),
        final(data)@ == fft_of(old(data)@, *size, mode),
        forall|j: int|
            size.spec_size() <= j < final(data)@.len() ==> final(data)@[j] == old(data)@[j],
{
    let size_v = size.size();
    let ex = size.stages();
    proof {
        size.lemma_size_bounds();
    }
    let ghost orig = data@;
    bit_reverse_permutation(data, size_v);
    let ghost reordered = data@;
    assert(reordered == bit_reversed(orig, size.log2()));
    let one = R::one();
    let two = R::of_usize(2);
    let mut n2: usize = 1;
    let mut n3 = one.negated();
    let mut n4 = R::zero();
    let mut stage: usize = 0;
    proof {
        lemma2_to64();
    }
    while stage < ex
        invariant
            ex == size.log2(),
            size_v == size.spec_size(),
            size_v <= 16384,
            stage <= ex,
            n2 == pow2(stage as nat),
            size_v <= data@.len(),
            data@.len() == old(data)@.len(),
            one == R::spec_one(),
            two == R::spec_of_usize(2),
            forall|j: int| size_v <= j < data@.len() ==> data@[j] == old(data)@[j],
            stages_from(data@, size_v as nat, stage as nat, ex as nat, n3, n4, mode)
                == stages_from(
                reordered,
                size_v as nat,
                0,
                ex as nat,
                R::spec_one().spec_negated(),
                R::spec_zero(),
                mode,
            ),
        decreases ex - stage,
    {
        let ghost at_start = data@;
        let mut n5 = one;
        let mut n6 = R::zero();
        let n7 = n2;
        proof {
            lemma_pow2_unfold((stage + 1) as nat);
            lemma_pow2_strictly_increases((stage + 1) as nat, (ex + 1) as nat);
            lemma_pow2_unfold((ex + 1) as nat);
            lemma_pow2_adds((ex - stage - 1) as nat, (stage + 1) as nat);
            assert(((ex - stage - 1) + (stage + 1)) as nat == ex);
        }
        n2 = n2 * 2;
        let ghost q: nat = pow2((ex - stage - 1) as nat);
        assert(q * n2 == size_v);
        proof {
            lemma_pow2_pos((ex - stage - 1) as nat);
            assert(n2 <= size_v) by (nonlinear_arith)
                requires
                    q * n2 == size_v,
                    q > 0,
            ;
        }
        let mut i2: usize = 0;
        while i2 < n7
            invariant
                n7 == pow2(stage as nat),
                n2 == 2 * n7,
                q * n2 == size_v,
                size_v <= 16384,
                n2 <= size_v,
                size_v <= data@.len(),
                data@.len() == old(data)@.len(),
                forall|j: int| size_v <= j < data@.len() ==> data@[j] == old(data)@[j],
                stage_from(data@, size_v as nat, n7 as nat, i2 as nat, n5, n6, n3, n4)
                    == stage_from(
                    at_start,
                    size_v as nat,
                    n7 as nat,
                    0,
                    R::spec_one(),
                    R::spec_zero(),
                    n3,
                    n4,
                ),
            decreases n7 - i2,
        {
            proof {
                lemma_mod_multiples_basic(q as int, n2 as int);
            }
            butterflies(data, size_v, n7, i2, n5, n6);
            let n10 = n3.times(n5).minus(n4.times(n6));
            n6 = n4.times(n5).plus(n3.times(n6));
            n5 = n10;
            i2 = i2 + 1;
        }
        let half = one.minus(n3).over(two).square_root();
        n4 = if mode != FFTMode::Forward {
            half.negated()
        } else {
            half
        };
        n3 = one.plus(n3).over(two).square_root();
        stage = stage + 1;
    }
    if mode == FFTMode::Forward {
        forward(data, size_v);
    }
}

} // verus!
