//! Verified core of a small soft-body simulator.
use vstd::prelude::*;

pub mod aux;
pub mod force;
pub mod matrix;
pub mod pade;

verus! {

/// How a group of shapes is drawn.
#[allow(non_camel_case_types)]
pub enum colour_style {
    Colour([u8; 3]),
}

} // verus!
