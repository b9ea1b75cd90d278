//! Seal for the [`crate::Word`] trait.
//!
//! This module is private, so downstream code can name and use `Word` but
//! cannot implement it for further types: the set of word types is closed.

use vstd::prelude::*;

verus! {

/// Bound implemented for exactly the fixed-width unsigned integer types that
/// may serve as machine words. [`crate::Word`] requires it, which closes the
/// set of types the memory operations accept: every other element type is
/// rejected at build time.
pub trait Sealed {}

impl Sealed for u8 {}

impl Sealed for u16 {}

impl Sealed for u32 {}

impl Sealed for u64 {}

impl Sealed for u128 {}

} // verus!
