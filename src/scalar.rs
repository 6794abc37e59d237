use vstd::prelude::*;

verus! {

/// The real-number arithmetic that the transform and the frame builder use.
///
/// The library does the index work and the bookkeeping; the caller picks the
/// number type (single-precision floats, for the capture path) by
/// implementing this trait for it. Each operation has a spec counterpart that
/// names its result; nothing is assumed of the counterparts beyond each being
/// a function of its operands, so a contract over them says which operations
/// are applied to which values, in which order. An implementation gives each
/// counterpart the body of its operation.
pub trait Real: Copy {
    spec fn spec_zero() -> Self;

    spec fn spec_one() -> Self;

    spec fn spec_of_usize(n: usize) -> Self;

    spec fn spec_plus(self, rhs: Self) -> Self;

    spec fn spec_minus(self, rhs: Self) -> Self;

    spec fn spec_times(self, rhs: Self) -> Self;

    spec fn spec_over(self, rhs: Self) -> Self;

    spec fn spec_negated(self) -> Self;

    spec fn spec_square_root(self) -> Self;

    fn zero() -> (r: Self)
        ensures
            r == Self::spec_zero(),
    ;

    fn one() -> (r: Self)
        ensures
            r == Self::spec_one(),
    ;

    /// `n` as a number of this type.
    fn of_usize(n: usize) -> (r: Self)
        ensures
            r == Self::spec_of_usize(n),
    ;

    fn plus(self, rhs: Self) -> (r: Self)
        ensures
            r == self.spec_plus(rhs),
    ;

    fn minus(self, rhs: Self) -> (r: Self)
        ensures
            r == self.spec_minus(rhs),
    ;

    fn times(self, rhs: Self) -> (r: Self)
        ensures
            r == self.spec_times(rhs),
    ;

    fn over(self, rhs: Self) -> (r: Self)
        ensures
            r == self.spec_over(rhs),
    ;

    fn negated(self) -> (r: Self)
        ensures
            r == self.spec_negated(),
    ;

    fn square_root(self) -> (r: Self)
        ensures
            r == self.spec_square_root(),
    ;
}

/// Relies on num_complex::Complex: a plain struct of the two public fields
/// `re` and `im`, which the transform reads and writes directly.
#[verifier::external_type_specification]
#[verifier::reject_recursive_types(T)]
pub struct ExComplex<T>(num_complex::Complex<T>);

} // verus!
