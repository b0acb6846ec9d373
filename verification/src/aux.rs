//! Auxiliary coordinates: a sparse complex-weighted map from the state
//! points to the auxiliary points.
use vstd::prelude::*;
use fixed::FixedI8;
use fixed::types::extra::U4;

verus! {

/// Declares `fixed::FixedI8`, the eight-bit signed fixed-point number, as
/// an opaque type: weights are carried through, and nothing is claimed of
/// what a value holds.
#[verifier::external_type_specification]
#[verifier::external_body]
#[verifier::reject_recursive_types(Frac)]
pub struct ExFixedI8<Frac>(FixedI8<Frac>);

/// Declares `typenum::uint::UInt`, a type-level binary digit string; with
/// `UTerm`, `B0` and `B1` below it spells the `U4` of `Lin`.  Opaque; nothing
/// is claimed of it.
#[verifier::external_type_specification]
#[verifier::external_body]
#[verifier::reject_recursive_types(U)]
#[verifier::reject_recursive_types(B)]
pub struct ExUInt<U, B>(typenum::uint::UInt<U, B>);

/// Declares `typenum::uint::UTerm`, the end of a type-level digit string.
/// Opaque; nothing is claimed of it.
#[verifier::external_type_specification]
#[verifier::external_body]
pub struct ExUTerm(typenum::uint::UTerm);

/// Declares `typenum::bit::B0`, the type-level digit zero.  Opaque; nothing
/// is claimed of it.
#[verifier::external_type_specification]
#[verifier::external_body]
pub struct ExB0(typenum::bit::B0);

/// Declares `typenum::bit::B1`, the type-level digit one.  Opaque; nothing
/// is claimed of it.
#[verifier::external_type_specification]
#[verifier::external_body]
pub struct ExB1(typenum::bit::B1);

/// Fixed-point weight with four fractional bits.
pub type Lin = FixedI8<U4>;

/// An index meant to stay below `Max`.
pub struct SafeIndex<const Max: usize>(pub usize);

/// The weight of one state point in one auxiliary point: nothing, or the
/// complex factor `parr + i * perp`.
#[derive(Clone, Copy)]
pub enum Weight {
    Zero,
    Scaled { parr: Lin, perp: Lin },
}

/// The weights of every state point in one auxiliary point.
#[derive(Copy, Clone)]
pub struct AuxRow<const INLENGTH: usize> {
    pub weights: [Weight; INLENGTH],
}

/// The whole map: one row of weights for each of the `OUTLENGTH`
/// auxiliary points.
pub struct AuxState<const INLENGTH: usize, const OUTLENGTH: usize> {
    pub transform: [AuxRow<INLENGTH>; OUTLENGTH],
}

impl<const INLENGTH: usize> AuxRow<INLENGTH> {
    /// Builds a row from `contents` and drops it again: the row is not
    /// handed back, and nothing checks the weights.
    pub fn new(contents: [Weight; INLENGTH]) {
        let _row = AuxRow::<INLENGTH> { weights: contents };
    }
}

} // verus!
