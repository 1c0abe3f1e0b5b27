//! Type-level markers that let a packed struct prove, at compile time, that
//! its total width is a whole number of bytes.
//!
//! The markers are only ever named in types, never built. Each is an enum
//! with a single variant `Marker` rather than an enum without variants,
//! because Verus does not accept an enum without variants.

use vstd::prelude::*;

verus! {

/// Marker for a total width that leaves no bits over a whole byte. Markers
/// are only named in types; their single variant is never built.
pub enum ZeroMod8 {
    Marker,
}

/// Marker for a total width that leaves one bit over a whole byte.
pub enum OneMod8 {
    Marker,
}

/// Marker for a total width that leaves two bits over a whole byte.
pub enum TwoMod8 {
    Marker,
}

/// Marker for a total width that leaves three bits over a whole byte.
pub enum ThreeMod8 {
    Marker,
}

/// Marker for a total width that leaves four bits over a whole byte.
pub enum FourMod8 {
    Marker,
}

/// Marker for a total width that leaves five bits over a whole byte.
pub enum FiveMod8 {
    Marker,
}

/// Marker for a total width that leaves six bits over a whole byte.
pub enum SixMod8 {
    Marker,
}

/// Marker for a total width that leaves seven bits over a whole byte.
pub enum SevenMod8 {
    Marker,
}

/// Maps the array type `[(); k]`, for a remainder `k` below eight, to its marker.
pub trait Array {
    type Marker;
}

impl Array for [(); 0] {
    type Marker = ZeroMod8;
}

impl Array for [(); 1] {
    type Marker = OneMod8;
}

impl Array for [(); 2] {
    type Marker = TwoMod8;
}

impl Array for [(); 3] {
    type Marker = ThreeMod8;
}

impl Array for [(); 4] {
    type Marker = FourMod8;
}

impl Array for [(); 5] {
    type Marker = FiveMod8;
}

impl Array for [(); 6] {
    type Marker = SixMod8;
}

impl Array for [(); 7] {
    type Marker = SevenMod8;
}

/// Implemented by the marker of a width that is a multiple of eight, and by
/// no other marker: naming `CHECK` for any other marker fails to compile.
pub trait TotalSizeIsMultipleOfEightBits {
    const CHECK: ();
}

impl TotalSizeIsMultipleOfEightBits for ZeroMod8 {
    const CHECK: () = ();
}

} // verus!
