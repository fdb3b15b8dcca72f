//! Cooperative matrix operations, which the device does not have.
use crate::arch::TtArchitecture;
use vstd::prelude::*;

verus! {

/// The matrix compiler of a device without cooperative matrix operations. Matrices are
/// multiplied by the matrix engine, so no combination of types and shapes is offered.
#[derive(Clone, Copy, Debug, Default, PartialEq, Eq, Hash)]
pub struct TtNoWmma;

/// The shape of a cooperative matrix multiplication.
#[derive(Clone, Copy, Debug, PartialEq, Eq, Structural)]
pub struct MmaShape {
    pub m: u32,
    pub n: u32,
    pub k: u32,
}

impl TtNoWmma {
    pub fn supported_wmma_combinations(_arch: &TtArchitecture) -> (combinations: Vec<MmaShape>)
        ensures
            combinations.len() == 0,
    {
        Vec::new()
    }

    pub fn supported_mma_combinations(_arch: &TtArchitecture) -> (combinations: Vec<MmaShape>)
        ensures
            combinations.len() == 0,
    {
        Vec::new()
    }

    pub fn supported_scaled_mma_combinations(_arch: &TtArchitecture) -> (combinations: Vec<
        MmaShape,
    >)
        ensures
            combinations.len() == 0,
    {
        Vec::new()
    }
}

} // verus!
