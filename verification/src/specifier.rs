//! How a field type of a packed struct maps to and from the raw bits it
//! occupies.
//!
//! The width types `B0`..`B64` are only named in types, never built; each is
//! an enum with a single variant `Marker` rather than an enum without
//! variants, because Verus does not accept an enum without variants.

use vstd::prelude::*;
use vstd::arithmetic::power2::pow2;
use crate::bits::{field_in_bounds, field_value, written, law_read_after_write};

verus! {

/// A type that can be stored in a field of a packed struct.
///
/// `BITS` is the field's width; `T` is the type that the accessors take and
/// return. A value is stored as the low `BITS` bits of `convert_to_u64`, and
/// the bits read back are turned into a `T` by `convert_from_u64`.
pub trait Specifier {
    const BITS: usize;

    type T;

    /// The item that `convert_from_u64` gives for `value`.
    spec fn from_u64_spec(value: u64) -> Self::T;

    /// The raw value that `convert_to_u64` gives for `item`.
    spec fn to_u64_spec(item: Self::T) -> u64;

    /// The raw values that `convert_from_u64` takes without panicking.
    spec fn accepts(value: u64) -> bool;

    fn convert_from_u64(value: u64) -> (item: Self::T)
        requires
            Self::accepts(value),
        ensures
            item == Self::from_u64_spec(value),
    ;

    fn convert_to_u64(item: Self::T) -> (value: u64)
        ensures
            value == Self::to_u64_spec(item),
    ;

    /// Law: turning an item into its raw value and back gives the item.
    proof fn law_round_trip(item: Self::T)
        ensures
            Self::accepts(Self::to_u64_spec(item)),
            Self::from_u64_spec(Self::to_u64_spec(item)) == item,
    ;
}

/// Law: a field of type `S` that was written with `item`, whose raw value
/// fits in the field's width, reads back as `item`.
pub proof fn law_field_round_trip<S: Specifier>(before: Seq<u8>, after: Seq<u8>, offset: int, item: S::T)
    requires
        field_in_bounds(before, offset, S::BITS as int),
        written(before, after, offset, S::BITS as int, S::to_u64_spec(item)),
        (S::to_u64_spec(item) as nat) < pow2(S::BITS as nat),
    ensures
        field_value(after, offset, S::BITS as nat) == S::to_u64_spec(item) as nat,
        S::accepts(field_value(after, offset, S::BITS as nat) as u64),
        S::from_u64_spec(field_value(after, offset, S::BITS as nat) as u64) == item,
{
    law_read_after_write(before, after, offset, S::BITS as int, S::to_u64_spec(item));
    vstd::arithmetic::div_mod::lemma_small_mod(S::to_u64_spec(item) as nat, pow2(S::BITS as nat));
    S::law_round_trip(item);
}

impl Specifier for bool {
    const BITS: usize = 1;

    type T = bool;

    open spec fn from_u64_spec(value: u64) -> bool {
        value != 0
    }

    open spec fn to_u64_spec(item: bool) -> u64 {
        if item {
            1
        } else {
            0
        }
    }

    open spec fn accepts(value: u64) -> bool {
        true
    }

    fn convert_from_u64(value: u64) -> (item: bool) {
        match value {
            0 => false,
            _ => true,
        }
    }

    fn convert_to_u64(item: bool) -> (value: u64) {
        if item {
            1
        } else {
            0
        }
    }

    proof fn law_round_trip(item: bool) {
    }
}

/// A field 0 bits wide, read and written as a `u8`.
pub enum B0 {
    Marker,
}

impl Specifier for B0 {
    const BITS: usize = 0;

    type T = u8;

    open spec fn from_u64_spec(value: u64) -> u8 {
        value as u8
    }

    open spec fn to_u64_spec(item: u8) -> u64 {
        item as u64
    }

    open spec fn accepts(value: u64) -> bool {
        value <= u8::MAX
    }

    fn convert_from_u64(value: u64) -> (item: u8) {
        value as u8
    }

    fn convert_to_u64(item: u8) -> (value: u64) {
        item as u64
    }

    proof fn law_round_trip(item: u8) {
    }
}

/// A field 1 bit wide, read and written as a `u8`.
pub enum B1 {
    Marker,
}

impl Specifier for B1 {
    const BITS: usize = 1;

    type T = u8;

    open spec fn from_u64_spec(value: u64) -> u8 {
        value as u8
    }

    open spec fn to_u64_spec(item: u8) -> u64 {
        item as u64
    }

    open spec fn accepts(value: u64) -> bool {
        value <= u8::MAX
    }

    fn convert_from_u64(value: u64) -> (item: u8) {
        value as u8
    }

    fn convert_to_u64(item: u8) -> (value: u64) {
        item as u64
    }

    proof fn law_round_trip(item: u8) {
    }
}

/// A field 2 bits wide, read and written as a `u8`.
pub enum B2 {
    Marker,
}

impl Specifier for B2 {
    const BITS: usize = 2;

    type T = u8;

    open spec fn from_u64_spec(value: u64) -> u8 {
        value as u8
    }

    open spec fn to_u64_spec(item: u8) -> u64 {
        item as u64
    }

    open spec fn accepts(value: u64) -> bool {
        value <= u8::MAX
    }

    fn convert_from_u64(value: u64) -> (item: u8) {
        value as u8
    }

    fn convert_to_u64(item: u8) -> (value: u64) {
        item as u64
    }

    proof fn law_round_trip(item: u8) {
    }
}

/// A field 3 bits wide, read and written as a `u8`.
pub enum B3 {
    Marker,
}

impl Specifier for B3 {
    const BITS: usize = 3;

    type T = u8;

    open spec fn from_u64_spec(value: u64) -> u8 {
        value as u8
    }

    open spec fn to_u64_spec(item: u8) -> u64 {
        item as u64
    }

    open spec fn accepts(value: u64) -> bool {
        value <= u8::MAX
    }

    fn convert_from_u64(value: u64) -> (item: u8) {
        value as u8
    }

    fn convert_to_u64(item: u8) -> (value: u64) {
        item as u64
    }

    proof fn law_round_trip(item: u8) {
    }
}

/// A field 4 bits wide, read and written as a `u8`.
pub enum B4 {
    Marker,
}

impl Specifier for B4 {
    const BITS: usize = 4;

    type T = u8;

    open spec fn from_u64_spec(value: u64) -> u8 {
        value as u8
    }

    open spec fn to_u64_spec(item: u8) -> u64 {
        item as u64
    }

    open spec fn accepts(value: u64) -> bool {
        value <= u8::MAX
    }

    fn convert_from_u64(value: u64) -> (item: u8) {
        value as u8
    }

    fn convert_to_u64(item: u8) -> (value: u64) {
        item as u64
    }

    proof fn law_round_trip(item: u8) {
    }
}

/// A field 5 bits wide, read and written as a `u8`.
pub enum B5 {
    Marker,
}

impl Specifier for B5 {
    const BITS: usize = 5;

    type T = u8;

    open spec fn from_u64_spec(value: u64) -> u8 {
        value as u8
    }

    open spec fn to_u64_spec(item: u8) -> u64 {
        item as u64
    }

    open spec fn accepts(value: u64) -> bool {
        value <= u8::MAX
    }

    fn convert_from_u64(value: u64) -> (item: u8) {
        value as u8
    }

    fn convert_to_u64(item: u8) -> (value: u64) {
        item as u64
    }

    proof fn law_round_trip(item: u8) {
    }
}

/// A field 6 bits wide, read and written as a `u8`.
pub enum B6 {
    Marker,
}

impl Specifier for B6 {
    const BITS: usize = 6;

    type T = u8;

    open spec fn from_u64_spec(value: u64) -> u8 {
        value as u8
    }

    open spec fn to_u64_spec(item: u8) -> u64 {
        item as u64
    }

    open spec fn accepts(value: u64) -> bool {
        value <= u8::MAX
    }

    fn convert_from_u64(value: u64) -> (item: u8) {
        value as u8
    }

    fn convert_to_u64(item: u8) -> (value: u64) {
        item as u64
    }

    proof fn law_round_trip(item: u8) {
    }
}

/// A field 7 bits wide, read and written as a `u8`.
pub enum B7 {
    Marker,
}

impl Specifier for B7 {
    const BITS: usize = 7;

    type T = u8;

    open spec fn from_u64_spec(value: u64) -> u8 {
        value as u8
    }

    open spec fn to_u64_spec(item: u8) -> u64 {
        item as u64
    }

    open spec fn accepts(value: u64) -> bool {
        value <= u8::MAX
    }

    fn convert_from_u64(value: u64) -> (item: u8) {
        value as u8
    }

    fn convert_to_u64(item: u8) -> (value: u64) {
        item as u64
    }

    proof fn law_round_trip(item: u8) {
    }
}

/// A field 8 bits wide, read and written as a `u8`.
pub enum B8 {
    Marker,
}

impl Specifier for B8 {
    const BITS: usize = 8;

    type T = u8;

    open spec fn from_u64_spec(value: u64) -> u8 {
        value as u8
    }

    open spec fn to_u64_spec(item: u8) -> u64 {
        item as u64
    }

    open spec fn accepts(value: u64) -> bool {
        value <= u8::MAX
    }

    fn convert_from_u64(value: u64) -> (item: u8) {
        value as u8
    }

    fn convert_to_u64(item: u8) -> (value: u64) {
        item as u64
    }

    proof fn law_round_trip(item: u8) {
    }
}

/// A field 9 bits wide, read and written as a `u16`.
pub enum B9 {
    Marker,
}

impl Specifier for B9 {
    const BITS: usize = 9;

    type T = u16;

    open spec fn from_u64_spec(value: u64) -> u16 {
        value as u16
    }

    open spec fn to_u64_spec(item: u16) -> u64 {
        item as u64
    }

    open spec fn accepts(value: u64) -> bool {
        value <= u16::MAX
    }

    fn convert_from_u64(value: u64) -> (item: u16) {
        value as u16
    }

    fn convert_to_u64(item: u16) -> (value: u64) {
        item as u64
    }

    proof fn law_round_trip(item: u16) {
    }
}

/// A field 10 bits wide, read and written as a `u16`.
pub enum B10 {
    Marker,
}

impl Specifier for B10 {
    const BITS: usize = 10;

    type T = u16;

    open spec fn from_u64_spec(value: u64) -> u16 {
        value as u16
    }

    open spec fn to_u64_spec(item: u16) -> u64 {
        item as u64
    }

    open spec fn accepts(value: u64) -> bool {
        value <= u16::MAX
    }

    fn convert_from_u64(value: u64) -> (item: u16) {
        value as u16
    }

    fn convert_to_u64(item: u16) -> (value: u64) {
        item as u64
    }

    proof fn law_round_trip(item: u16) {
    }
}

/// A field 11 bits wide, read and written as a `u16`.
pub enum B11 {
    Marker,
}

impl Specifier for B11 {
    const BITS: usize = 11;

    type T = u16;

    open spec fn from_u64_spec(value: u64) -> u16 {
        value as u16
    }

    open spec fn to_u64_spec(item: u16) -> u64 {
        item as u64
    }

    open spec fn accepts(value: u64) -> bool {
        value <= u16::MAX
    }

    fn convert_from_u64(value: u64) -> (item: u16) {
        value as u16
    }

    fn convert_to_u64(item: u16) -> (value: u64) {
        item as u64
    }

    proof fn law_round_trip(item: u16) {
    }
}

/// A field 12 bits wide, read and written as a `u16`.
pub enum B12 {
    Marker,
}

impl Specifier for B12 {
    const BITS: usize = 12;

    type T = u16;

    open spec fn from_u64_spec(value: u64) -> u16 {
        value as u16
    }

    open spec fn to_u64_spec(item: u16) -> u64 {
        item as u64
    }

    open spec fn accepts(value: u64) -> bool {
        value <= u16::MAX
    }

    fn convert_from_u64(value: u64) -> (item: u16) {
        value as u16
    }

    fn convert_to_u64(item: u16) -> (value: u64) {
        item as u64
    }

    proof fn law_round_trip(item: u16) {
    }
}

/// A field 13 bits wide, read and written as a `u16`.
pub enum B13 {
    Marker,
}

impl Specifier for B13 {
    const BITS: usize = 13;

    type T = u16;

    open spec fn from_u64_spec(value: u64) -> u16 {
        value as u16
    }

    open spec fn to_u64_spec(item: u16) -> u64 {
        item as u64
    }

    open spec fn accepts(value: u64) -> bool {
        value <= u16::MAX
    }

    fn convert_from_u64(value: u64) -> (item: u16) {
        value as u16
    }

    fn convert_to_u64(item: u16) -> (value: u64) {
        item as u64
    }

    proof fn law_round_trip(item: u16) {
    }
}

/// A field 14 bits wide, read and written as a `u16`.
pub enum B14 {
    Marker,
}

impl Specifier for B14 {
    const BITS: usize = 14;

    type T = u16;

    open spec fn from_u64_spec(value: u64) -> u16 {
        value as u16
    }

    open spec fn to_u64_spec(item: u16) -> u64 {
        item as u64
    }

    open spec fn accepts(value: u64) -> bool {
        value <= u16::MAX
    }

    fn convert_from_u64(value: u64) -> (item: u16) {
        value as u16
    }

    fn convert_to_u64(item: u16) -> (value: u64) {
        item as u64
    }

    proof fn law_round_trip(item: u16) {
    }
}

/// A field 15 bits wide, read and written as a `u16`.
pub enum B15 {
    Marker,
}

impl Specifier for B15 {
    const BITS: usize = 15;

    type T = u16;

    open spec fn from_u64_spec(value: u64) -> u16 {
        value as u16
    }

    open spec fn to_u64_spec(item: u16) -> u64 {
        item as u64
    }

    open spec fn accepts(value: u64) -> bool {
        value <= u16::MAX
    }

    fn convert_from_u64(value: u64) -> (item: u16) {
        value as u16
    }

    fn convert_to_u64(item: u16) -> (value: u64) {
        item as u64
    }

    proof fn law_round_trip(item: u16) {
    }
}

/// A field 16 bits wide, read and written as a `u16`.
pub enum B16 {
    Marker,
}

impl Specifier for B16 {
    const BITS: usize = 16;

    type T = u16;

    open spec fn from_u64_spec(value: u64) -> u16 {
        value as u16
    }

    open spec fn to_u64_spec(item: u16) -> u64 {
        item as u64
    }

    open spec fn accepts(value: u64) -> bool {
        value <= u16::MAX
    }

    fn convert_from_u64(value: u64) -> (item: u16) {
        value as u16
    }

    fn convert_to_u64(item: u16) -> (value: u64) {
        item as u64
    }

    proof fn law_round_trip(item: u16) {
    }
}

/// A field 17 bits wide, read and written as a `u32`.
pub enum B17 {
    Marker,
}

impl Specifier for B17 {
    const BITS: usize = 17;

    type T = u32;

    open spec fn from_u64_spec(value: u64) -> u32 {
        value as u32
    }

    open spec fn to_u64_spec(item: u32) -> u64 {
        item as u64
    }

    open spec fn accepts(value: u64) -> bool {
        value <= u32::MAX
    }

    fn convert_from_u64(value: u64) -> (item: u32) {
        value as u32
    }

    fn convert_to_u64(item: u32) -> (value: u64) {
        item as u64
    }

    proof fn law_round_trip(item: u32) {
    }
}

/// A field 18 bits wide, read and written as a `u32`.
pub enum B18 {
    Marker,
}

impl Specifier for B18 {
    const BITS: usize = 18;

    type T = u32;

    open spec fn from_u64_spec(value: u64) -> u32 {
        value as u32
    }

    open spec fn to_u64_spec(item: u32) -> u64 {
        item as u64
    }

    open spec fn accepts(value: u64) -> bool {
        value <= u32::MAX
    }

    fn convert_from_u64(value: u64) -> (item: u32) {
        value as u32
    }

    fn convert_to_u64(item: u32) -> (value: u64) {
        item as u64
    }

    proof fn law_round_trip(item: u32) {
    }
}

/// A field 19 bits wide, read and written as a `u32`.
pub enum B19 {
    Marker,
}

impl Specifier for B19 {
    const BITS: usize = 19;

    type T = u32;

    open spec fn from_u64_spec(value: u64) -> u32 {
        value as u32
    }

    open spec fn to_u64_spec(item: u32) -> u64 {
        item as u64
    }

    open spec fn accepts(value: u64) -> bool {
        value <= u32::MAX
    }

    fn convert_from_u64(value: u64) -> (item: u32) {
        value as u32
    }

    fn convert_to_u64(item: u32) -> (value: u64) {
        item as u64
    }

    proof fn law_round_trip(item: u32) {
    }
}

/// A field 20 bits wide, read and written as a `u32`.
pub enum B20 {
    Marker,
}

impl Specifier for B20 {
    const BITS: usize = 20;

    type T = u32;

    open spec fn from_u64_spec(value: u64) -> u32 {
        value as u32
    }

    open spec fn to_u64_spec(item: u32) -> u64 {
        item as u64
    }

    open spec fn accepts(value: u64) -> bool {
        value <= u32::MAX
    }

    fn convert_from_u64(value: u64) -> (item: u32) {
        value as u32
    }

    fn convert_to_u64(item: u32) -> (value: u64) {
        item as u64
    }

    proof fn law_round_trip(item: u32) {
    }
}

/// A field 21 bits wide, read and written as a `u32`.
pub enum B21 {
    Marker,
}

impl Specifier for B21 {
    const BITS: usize = 21;

    type T = u32;

    open spec fn from_u64_spec(value: u64) -> u32 {
        value as u32
    }

    open spec fn to_u64_spec(item: u32) -> u64 {
        item as u64
    }

    open spec fn accepts(value: u64) -> bool {
        value <= u32::MAX
    }

    fn convert_from_u64(value: u64) -> (item: u32) {
        value as u32
    }

    fn convert_to_u64(item: u32) -> (value: u64) {
        item as u64
    }

    proof fn law_round_trip(item: u32) {
    }
}

/// A field 22 bits wide, read and written as a `u32`.
pub enum B22 {
    Marker,
}

impl Specifier for B22 {
    const BITS: usize = 22;

    type T = u32;

    open spec fn from_u64_spec(value: u64) -> u32 {
        value as u32
    }

    open spec fn to_u64_spec(item: u32) -> u64 {
        item as u64
    }

    open spec fn accepts(value: u64) -> bool {
        value <= u32::MAX
    }

    fn convert_from_u64(value: u64) -> (item: u32) {
        value as u32
    }

    fn convert_to_u64(item: u32) -> (value: u64) {
        item as u64
    }

    proof fn law_round_trip(item: u32) {
    }
}

/// A field 23 bits wide, read and written as a `u32`.
pub enum B23 {
    Marker,
}

impl Specifier for B23 {
    const BITS: usize = 23;

    type T = u32;

    open spec fn from_u64_spec(value: u64) -> u32 {
        value as u32
    }

    open spec fn to_u64_spec(item: u32) -> u64 {
        item as u64
    }

    open spec fn accepts(value: u64) -> bool {
        value <= u32::MAX
    }

    fn convert_from_u64(value: u64) -> (item: u32) {
        value as u32
    }

    fn convert_to_u64(item: u32) -> (value: u64) {
        item as u64
    }

    proof fn law_round_trip(item: u32) {
    }
}

/// A field 24 bits wide, read and written as a `u32`.
pub enum B24 {
    Marker,
}

impl Specifier for B24 {
    const BITS: usize = 24;

    type T = u32;

    open spec fn from_u64_spec(value: u64) -> u32 {
        value as u32
    }

    open spec fn to_u64_spec(item: u32) -> u64 {
        item as u64
    }

    open spec fn accepts(value: u64) -> bool {
        value <= u32::MAX
    }

    fn convert_from_u64(value: u64) -> (item: u32) {
        value as u32
    }

    fn convert_to_u64(item: u32) -> (value: u64) {
        item as u64
    }

    proof fn law_round_trip(item: u32) {
    }
}

/// A field 25 bits wide, read and written as a `u32`.
pub enum B25 {
    Marker,
}

impl Specifier for B25 {
    const BITS: usize = 25;

    type T = u32;

    open spec fn from_u64_spec(value: u64) -> u32 {
        value as u32
    }

    open spec fn to_u64_spec(item: u32) -> u64 {
        item as u64
    }

    open spec fn accepts(value: u64) -> bool {
        value <= u32::MAX
    }

    fn convert_from_u64(value: u64) -> (item: u32) {
        value as u32
    }

    fn convert_to_u64(item: u32) -> (value: u64) {
        item as u64
    }

    proof fn law_round_trip(item: u32) {
    }
}

/// A field 26 bits wide, read and written as a `u32`.
pub enum B26 {
    Marker,
}

impl Specifier for B26 {
    const BITS: usize = 26;

    type T = u32;

    open spec fn from_u64_spec(value: u64) -> u32 {
        value as u32
    }

    open spec fn to_u64_spec(item: u32) -> u64 {
        item as u64
    }

    open spec fn accepts(value: u64) -> bool {
        value <= u32::MAX
    }

    fn convert_from_u64(value: u64) -> (item: u32) {
        value as u32
    }

    fn convert_to_u64(item: u32) -> (value: u64) {
        item as u64
    }

    proof fn law_round_trip(item: u32) {
    }
}

/// A field 27 bits wide, read and written as a `u32`.
pub enum B27 {
    Marker,
}

impl Specifier for B27 {
    const BITS: usize = 27;

    type T = u32;

    open spec fn from_u64_spec(value: u64) -> u32 {
        value as u32
    }

    open spec fn to_u64_spec(item: u32) -> u64 {
        item as u64
    }

    open spec fn accepts(value: u64) -> bool {
        value <= u32::MAX
    }

    fn convert_from_u64(value: u64) -> (item: u32) {
        value as u32
    }

    fn convert_to_u64(item: u32) -> (value: u64) {
        item as u64
    }

    proof fn law_round_trip(item: u32) {
    }
}

/// A field 28 bits wide, read and written as a `u32`.
pub enum B28 {
    Marker,
}

impl Specifier for B28 {
    const BITS: usize = 28;

    type T = u32;

    open spec fn from_u64_spec(value: u64) -> u32 {
        value as u32
    }

    open spec fn to_u64_spec(item: u32) -> u64 {
        item as u64
    }

    open spec fn accepts(value: u64) -> bool {
        value <= u32::MAX
    }

    fn convert_from_u64(value: u64) -> (item: u32) {
        value as u32
    }

    fn convert_to_u64(item: u32) -> (value: u64) {
        item as u64
    }

    proof fn law_round_trip(item: u32) {
    }
}

/// A field 29 bits wide, read and written as a `u32`.
pub enum B29 {
    Marker,
}

impl Specifier for B29 {
    const BITS: usize = 29;

    type T = u32;

    open spec fn from_u64_spec(value: u64) -> u32 {
        value as u32
    }

    open spec fn to_u64_spec(item: u32) -> u64 {
        item as u64
    }

    open spec fn accepts(value: u64) -> bool {
        value <= u32::MAX
    }

    fn convert_from_u64(value: u64) -> (item: u32) {
        value as u32
    }

    fn convert_to_u64(item: u32) -> (value: u64) {
        item as u64
    }

    proof fn law_round_trip(item: u32) {
    }
}

/// A field 30 bits wide, read and written as a `u32`.
pub enum B30 {
    Marker,
}

impl Specifier for B30 {
    const BITS: usize = 30;

    type T = u32;

    open spec fn from_u64_spec(value: u64) -> u32 {
        value as u32
    }

    open spec fn to_u64_spec(item: u32) -> u64 {
        item as u64
    }

    open spec fn accepts(value: u64) -> bool {
        value <= u32::MAX
    }

    fn convert_from_u64(value: u64) -> (item: u32) {
        value as u32
    }

    fn convert_to_u64(item: u32) -> (value: u64) {
        item as u64
    }

    proof fn law_round_trip(item: u32) {
    }
}

/// A field 31 bits wide, read and written as a `u32`.
pub enum B31 {
    Marker,
}

impl Specifier for B31 {
    const BITS: usize = 31;

    type T = u32;

    open spec fn from_u64_spec(value: u64) -> u32 {
        value as u32
    }

    open spec fn to_u64_spec(item: u32) -> u64 {
        item as u64
    }

    open spec fn accepts(value: u64) -> bool {
        value <= u32::MAX
    }

    fn convert_from_u64(value: u64) -> (item: u32) {
        value as u32
    }

    fn convert_to_u64(item: u32) -> (value: u64) {
        item as u64
    }

    proof fn law_round_trip(item: u32) {
    }
}

/// A field 32 bits wide, read and written as a `u32`.
pub enum B32 {
    Marker,
}

impl Specifier for B32 {
    const BITS: usize = 32;

    type T = u32;

    open spec fn from_u64_spec(value: u64) -> u32 {
        value as u32
    }

    open spec fn to_u64_spec(item: u32) -> u64 {
        item as u64
    }

    open spec fn accepts(value: u64) -> bool {
        value <= u32::MAX
    }

    fn convert_from_u64(value: u64) -> (item: u32) {
        value as u32
    }

    fn convert_to_u64(item: u32) -> (value: u64) {
        item as u64
    }

    proof fn law_round_trip(item: u32) {
    }
}

/// A field 33 bits wide, read and written as a `u64`.
pub enum B33 {
    Marker,
}

impl Specifier for B33 {
    const BITS: usize = 33;

    type T = u64;

    open spec fn from_u64_spec(value: u64) -> u64 {
        value as u64
    }

    open spec fn to_u64_spec(item: u64) -> u64 {
        item as u64
    }

    open spec fn accepts(value: u64) -> bool {
        true
    }

    fn convert_from_u64(value: u64) -> (item: u64) {
        value as u64
    }

    fn convert_to_u64(item: u64) -> (value: u64) {
        item as u64
    }

    proof fn law_round_trip(item: u64) {
    }
}

/// A field 34 bits wide, read and written as a `u64`.
pub enum B34 {
    Marker,
}

impl Specifier for B34 {
    const BITS: usize = 34;

    type T = u64;

    open spec fn from_u64_spec(value: u64) -> u64 {
        value as u64
    }

    open spec fn to_u64_spec(item: u64) -> u64 {
        item as u64
    }

    open spec fn accepts(value: u64) -> bool {
        true
    }

    fn convert_from_u64(value: u64) -> (item: u64) {
        value as u64
    }

    fn convert_to_u64(item: u64) -> (value: u64) {
        item as u64
    }

    proof fn law_round_trip(item: u64) {
    }
}

/// A field 35 bits wide, read and written as a `u64`.
pub enum B35 {
    Marker,
}

impl Specifier for B35 {
    const BITS: usize = 35;

    type T = u64;

    open spec fn from_u64_spec(value: u64) -> u64 {
        value as u64
    }

    open spec fn to_u64_spec(item: u64) -> u64 {
        item as u64
    }

    open spec fn accepts(value: u64) -> bool {
        true
    }

    fn convert_from_u64(value: u64) -> (item: u64) {
        value as u64
    }

    fn convert_to_u64(item: u64) -> (value: u64) {
        item as u64
    }

    proof fn law_round_trip(item: u64) {
    }
}

/// A field 36 bits wide, read and written as a `u64`.
pub enum B36 {
    Marker,
}

impl Specifier for B36 {
    const BITS: usize = 36;

    type T = u64;

    open spec fn from_u64_spec(value: u64) -> u64 {
        value as u64
    }

    open spec fn to_u64_spec(item: u64) -> u64 {
        item as u64
    }

    open spec fn accepts(value: u64) -> bool {
        true
    }

    fn convert_from_u64(value: u64) -> (item: u64) {
        value as u64
    }

    fn convert_to_u64(item: u64) -> (value: u64) {
        item as u64
    }

    proof fn law_round_trip(item: u64) {
    }
}

/// A field 37 bits wide, read and written as a `u64`.
pub enum B37 {
    Marker,
}

impl Specifier for B37 {
    const BITS: usize = 37;

    type T = u64;

    open spec fn from_u64_spec(value: u64) -> u64 {
        value as u64
    }

    open spec fn to_u64_spec(item: u64) -> u64 {
        item as u64
    }

    open spec fn accepts(value: u64) -> bool {
        true
    }

    fn convert_from_u64(value: u64) -> (item: u64) {
        value as u64
    }

    fn convert_to_u64(item: u64) -> (value: u64) {
        item as u64
    }

    proof fn law_round_trip(item: u64) {
    }
}

/// A field 38 bits wide, read and written as a `u64`.
pub enum B38 {
    Marker,
}

impl Specifier for B38 {
    const BITS: usize = 38;

    type T = u64;

    open spec fn from_u64_spec(value: u64) -> u64 {
        value as u64
    }

    open spec fn to_u64_spec(item: u64) -> u64 {
        item as u64
    }

    open spec fn accepts(value: u64) -> bool {
        true
    }

    fn convert_from_u64(value: u64) -> (item: u64) {
        value as u64
    }

    fn convert_to_u64(item: u64) -> (value: u64) {
        item as u64
    }

    proof fn law_round_trip(item: u64) {
    }
}

/// A field 39 bits wide, read and written as a `u64`.
pub enum B39 {
    Marker,
}

impl Specifier for B39 {
    const BITS: usize = 39;

    type T = u64;

    open spec fn from_u64_spec(value: u64) -> u64 {
        value as u64
    }

    open spec fn to_u64_spec(item: u64) -> u64 {
        item as u64
    }

    open spec fn accepts(value: u64) -> bool {
        true
    }

    fn convert_from_u64(value: u64) -> (item: u64) {
        value as u64
    }

    fn convert_to_u64(item: u64) -> (value: u64) {
        item as u64
    }

    proof fn law_round_trip(item: u64) {
    }
}

/// A field 40 bits wide, read and written as a `u64`.
pub enum B40 {
    Marker,
}

impl Specifier for B40 {
    const BITS: usize = 40;

    type T = u64;

    open spec fn from_u64_spec(value: u64) -> u64 {
        value as u64
    }

    open spec fn to_u64_spec(item: u64) -> u64 {
        item as u64
    }

    open spec fn accepts(value: u64) -> bool {
        true
    }

    fn convert_from_u64(value: u64) -> (item: u64) {
        value as u64
    }

    fn convert_to_u64(item: u64) -> (value: u64) {
        item as u64
    }

    proof fn law_round_trip(item: u64) {
    }
}

/// A field 41 bits wide, read and written as a `u64`.
pub enum B41 {
    Marker,
}

impl Specifier for B41 {
    const BITS: usize = 41;

    type T = u64;

    open spec fn from_u64_spec(value: u64) -> u64 {
        value as u64
    }

    open spec fn to_u64_spec(item: u64) -> u64 {
        item as u64
    }

    open spec fn accepts(value: u64) -> bool {
        true
    }

    fn convert_from_u64(value: u64) -> (item: u64) {
        value as u64
    }

    fn convert_to_u64(item: u64) -> (value: u64) {
        item as u64
    }

    proof fn law_round_trip(item: u64) {
    }
}

/// A field 42 bits wide, read and written as a `u64`.
pub enum B42 {
    Marker,
}

impl Specifier for B42 {
    const BITS: usize = 42;

    type T = u64;

    open spec fn from_u64_spec(value: u64) -> u64 {
        value as u64
    }

    open spec fn to_u64_spec(item: u64) -> u64 {
        item as u64
    }

    open spec fn accepts(value: u64) -> bool {
        true
    }

    fn convert_from_u64(value: u64) -> (item: u64) {
        value as u64
    }

    fn convert_to_u64(item: u64) -> (value: u64) {
        item as u64
    }

    proof fn law_round_trip(item: u64) {
    }
}

/// A field 43 bits wide, read and written as a `u64`.
pub enum B43 {
    Marker,
}

impl Specifier for B43 {
    const BITS: usize = 43;

    type T = u64;

    open spec fn from_u64_spec(value: u64) -> u64 {
        value as u64
    }

    open spec fn to_u64_spec(item: u64) -> u64 {
        item as u64
    }

    open spec fn accepts(value: u64) -> bool {
        true
    }

    fn convert_from_u64(value: u64) -> (item: u64) {
        value as u64
    }

    fn convert_to_u64(item: u64) -> (value: u64) {
        item as u64
    }

    proof fn law_round_trip(item: u64) {
    }
}

/// A field 44 bits wide, read and written as a `u64`.
pub enum B44 {
    Marker,
}

impl Specifier for B44 {
    const BITS: usize = 44;

    type T = u64;

    open spec fn from_u64_spec(value: u64) -> u64 {
        value as u64
    }

    open spec fn to_u64_spec(item: u64) -> u64 {
        item as u64
    }

    open spec fn accepts(value: u64) -> bool {
        true
    }

    fn convert_from_u64(value: u64) -> (item: u64) {
        value as u64
    }

    fn convert_to_u64(item: u64) -> (value: u64) {
        item as u64
    }

    proof fn law_round_trip(item: u64) {
    }
}

/// A field 45 bits wide, read and written as a `u64`.
pub enum B45 {
    Marker,
}

impl Specifier for B45 {
    const BITS: usize = 45;

    type T = u64;

    open spec fn from_u64_spec(value: u64) -> u64 {
        value as u64
    }

    open spec fn to_u64_spec(item: u64) -> u64 {
        item as u64
    }

    open spec fn accepts(value: u64) -> bool {
        true
    }

    fn convert_from_u64(value: u64) -> (item: u64) {
        value as u64
    }

    fn convert_to_u64(item: u64) -> (value: u64) {
        item as u64
    }

    proof fn law_round_trip(item: u64) {
    }
}

/// A field 46 bits wide, read and written as a `u64`.
pub enum B46 {
    Marker,
}

impl Specifier for B46 {
    const BITS: usize = 46;

    type T = u64;

    open spec fn from_u64_spec(value: u64) -> u64 {
        value as u64
    }

    open spec fn to_u64_spec(item: u64) -> u64 {
        item as u64
    }

    open spec fn accepts(value: u64) -> bool {
        true
    }

    fn convert_from_u64(value: u64) -> (item: u64) {
        value as u64
    }

    fn convert_to_u64(item: u64) -> (value: u64) {
        item as u64
    }

    proof fn law_round_trip(item: u64) {
    }
}

/// A field 47 bits wide, read and written as a `u64`.
pub enum B47 {
    Marker,
}

impl Specifier for B47 {
    const BITS: usize = 47;

    type T = u64;

    open spec fn from_u64_spec(value: u64) -> u64 {
        value as u64
    }

    open spec fn to_u64_spec(item: u64) -> u64 {
        item as u64
    }

    open spec fn accepts(value: u64) -> bool {
        true
    }

    fn convert_from_u64(value: u64) -> (item: u64) {
        value as u64
    }

    fn convert_to_u64(item: u64) -> (value: u64) {
        item as u64
    }

    proof fn law_round_trip(item: u64) {
    }
}

/// A field 48 bits wide, read and written as a `u64`.
pub enum B48 {
    Marker,
}

impl Specifier for B48 {
    const BITS: usize = 48;

    type T = u64;

    open spec fn from_u64_spec(value: u64) -> u64 {
        value as u64
    }

    open spec fn to_u64_spec(item: u64) -> u64 {
        item as u64
    }

    open spec fn accepts(value: u64) -> bool {
        true
    }

    fn convert_from_u64(value: u64) -> (item: u64) {
        value as u64
    }

    fn convert_to_u64(item: u64) -> (value: u64) {
        item as u64
    }

    proof fn law_round_trip(item: u64) {
    }
}

/// A field 49 bits wide, read and written as a `u64`.
pub enum B49 {
    Marker,
}

impl Specifier for B49 {
    const BITS: usize = 49;

    type T = u64;

    open spec fn from_u64_spec(value: u64) -> u64 {
        value as u64
    }

    open spec fn to_u64_spec(item: u64) -> u64 {
        item as u64
    }

    open spec fn accepts(value: u64) -> bool {
        true
    }

    fn convert_from_u64(value: u64) -> (item: u64) {
        value as u64
    }

    fn convert_to_u64(item: u64) -> (value: u64) {
        item as u64
    }

    proof fn law_round_trip(item: u64) {
    }
}

/// A field 50 bits wide, read and written as a `u64`.
pub enum B50 {
    Marker,
}

impl Specifier for B50 {
    const BITS: usize = 50;

    type T = u64;

    open spec fn from_u64_spec(value: u64) -> u64 {
        value as u64
    }

    open spec fn to_u64_spec(item: u64) -> u64 {
        item as u64
    }

    open spec fn accepts(value: u64) -> bool {
        true
    }

    fn convert_from_u64(value: u64) -> (item: u64) {
        value as u64
    }

    fn convert_to_u64(item: u64) -> (value: u64) {
        item as u64
    }

    proof fn law_round_trip(item: u64) {
    }
}

/// A field 51 bits wide, read and written as a `u64`.
pub enum B51 {
    Marker,
}

impl Specifier for B51 {
    const BITS: usize = 51;

    type T = u64;

    open spec fn from_u64_spec(value: u64) -> u64 {
        value as u64
    }

    open spec fn to_u64_spec(item: u64) -> u64 {
        item as u64
    }

    open spec fn accepts(value: u64) -> bool {
        true
    }

    fn convert_from_u64(value: u64) -> (item: u64) {
        value as u64
    }

    fn convert_to_u64(item: u64) -> (value: u64) {
        item as u64
    }

    proof fn law_round_trip(item: u64) {
    }
}

/// A field 52 bits wide, read and written as a `u64`.
pub enum B52 {
    Marker,
}

impl Specifier for B52 {
    const BITS: usize = 52;

    type T = u64;

    open spec fn from_u64_spec(value: u64) -> u64 {
        value as u64
    }

    open spec fn to_u64_spec(item: u64) -> u64 {
        item as u64
    }

    open spec fn accepts(value: u64) -> bool {
        true
    }

    fn convert_from_u64(value: u64) -> (item: u64) {
        value as u64
    }

    fn convert_to_u64(item: u64) -> (value: u64) {
        item as u64
    }

    proof fn law_round_trip(item: u64) {
    }
}

/// A field 53 bits wide, read and written as a `u64`.
pub enum B53 {
    Marker,
}

impl Specifier for B53 {
    const BITS: usize = 53;

    type T = u64;

    open spec fn from_u64_spec(value: u64) -> u64 {
        value as u64
    }

    open spec fn to_u64_spec(item: u64) -> u64 {
        item as u64
    }

    open spec fn accepts(value: u64) -> bool {
        true
    }

    fn convert_from_u64(value: u64) -> (item: u64) {
        value as u64
    }

    fn convert_to_u64(item: u64) -> (value: u64) {
        item as u64
    }

    proof fn law_round_trip(item: u64) {
    }
}

/// A field 54 bits wide, read and written as a `u64`.
pub enum B54 {
    Marker,
}

impl Specifier for B54 {
    const BITS: usize = 54;

    type T = u64;

    open spec fn from_u64_spec(value: u64) -> u64 {
        value as u64
    }

    open spec fn to_u64_spec(item: u64) -> u64 {
        item as u64
    }

    open spec fn accepts(value: u64) -> bool {
        true
    }

    fn convert_from_u64(value: u64) -> (item: u64) {
        value as u64
    }

    fn convert_to_u64(item: u64) -> (value: u64) {
        item as u64
    }

    proof fn law_round_trip(item: u64) {
    }
}

/// A field 55 bits wide, read and written as a `u64`.
pub enum B55 {
    Marker,
}

impl Specifier for B55 {
    const BITS: usize = 55;

    type T = u64;

    open spec fn from_u64_spec(value: u64) -> u64 {
        value as u64
    }

    open spec fn to_u64_spec(item: u64) -> u64 {
        item as u64
    }

    open spec fn accepts(value: u64) -> bool {
        true
    }

    fn convert_from_u64(value: u64) -> (item: u64) {
        value as u64
    }

    fn convert_to_u64(item: u64) -> (value: u64) {
        item as u64
    }

    proof fn law_round_trip(item: u64) {
    }
}

/// A field 56 bits wide, read and written as a `u64`.
pub enum B56 {
    Marker,
}

impl Specifier for B56 {
    const BITS: usize = 56;

    type T = u64;

    open spec fn from_u64_spec(value: u64) -> u64 {
        value as u64
    }

    open spec fn to_u64_spec(item: u64) -> u64 {
        item as u64
    }

    open spec fn accepts(value: u64) -> bool {
        true
    }

    fn convert_from_u64(value: u64) -> (item: u64) {
        value as u64
    }

    fn convert_to_u64(item: u64) -> (value: u64) {
        item as u64
    }

    proof fn law_round_trip(item: u64) {
    }
}

/// A field 57 bits wide, read and written as a `u64`.
pub enum B57 {
    Marker,
}

impl Specifier for B57 {
    const BITS: usize = 57;

    type T = u64;

    open spec fn from_u64_spec(value: u64) -> u64 {
        value as u64
    }

    open spec fn to_u64_spec(item: u64) -> u64 {
        item as u64
    }

    open spec fn accepts(value: u64) -> bool {
        true
    }

    fn convert_from_u64(value: u64) -> (item: u64) {
        value as u64
    }

    fn convert_to_u64(item: u64) -> (value: u64) {
        item as u64
    }

    proof fn law_round_trip(item: u64) {
    }
}

/// A field 58 bits wide, read and written as a `u64`.
pub enum B58 {
    Marker,
}

impl Specifier for B58 {
    const BITS: usize = 58;

    type T = u64;

    open spec fn from_u64_spec(value: u64) -> u64 {
        value as u64
    }

    open spec fn to_u64_spec(item: u64) -> u64 {
        item as u64
    }

    open spec fn accepts(value: u64) -> bool {
        true
    }

    fn convert_from_u64(value: u64) -> (item: u64) {
        value as u64
    }

    fn convert_to_u64(item: u64) -> (value: u64) {
        item as u64
    }

    proof fn law_round_trip(item: u64) {
    }
}

/// A field 59 bits wide, read and written as a `u64`.
pub enum B59 {
    Marker,
}

impl Specifier for B59 {
    const BITS: usize = 59;

    type T = u64;

    open spec fn from_u64_spec(value: u64) -> u64 {
        value as u64
    }

    open spec fn to_u64_spec(item: u64) -> u64 {
        item as u64
    }

    open spec fn accepts(value: u64) -> bool {
        true
    }

    fn convert_from_u64(value: u64) -> (item: u64) {
        value as u64
    }

    fn convert_to_u64(item: u64) -> (value: u64) {
        item as u64
    }

    proof fn law_round_trip(item: u64) {
    }
}

/// A field 60 bits wide, read and written as a `u64`.
pub enum B60 {
    Marker,
}

impl Specifier for B60 {
    const BITS: usize = 60;

    type T = u64;

    open spec fn from_u64_spec(value: u64) -> u64 {
        value as u64
    }

    open spec fn to_u64_spec(item: u64) -> u64 {
        item as u64
    }

    open spec fn accepts(value: u64) -> bool {
        true
    }

    fn convert_from_u64(value: u64) -> (item: u64) {
        value as u64
    }

    fn convert_to_u64(item: u64) -> (value: u64) {
        item as u64
    }

    proof fn law_round_trip(item: u64) {
    }
}

/// A field 61 bits wide, read and written as a `u64`.
pub enum B61 {
    Marker,
}

impl Specifier for B61 {
    const BITS: usize = 61;

    type T = u64;

    open spec fn from_u64_spec(value: u64) -> u64 {
        value as u64
    }

    open spec fn to_u64_spec(item: u64) -> u64 {
        item as u64
    }

    open spec fn accepts(value: u64) -> bool {
        true
    }

    fn convert_from_u64(value: u64) -> (item: u64) {
        value as u64
    }

    fn convert_to_u64(item: u64) -> (value: u64) {
        item as u64
    }

    proof fn law_round_trip(item: u64) {
    }
}

/// A field 62 bits wide, read and written as a `u64`.
pub enum B62 {
    Marker,
}

impl Specifier for B62 {
    const BITS: usize = 62;

    type T = u64;

    open spec fn from_u64_spec(value: u64) -> u64 {
        value as u64
    }

    open spec fn to_u64_spec(item: u64) -> u64 {
        item as u64
    }

    open spec fn accepts(value: u64) -> bool {
        true
    }

    fn convert_from_u64(value: u64) -> (item: u64) {
        value as u64
    }

    fn convert_to_u64(item: u64) -> (value: u64) {
        item as u64
    }

    proof fn law_round_trip(item: u64) {
    }
}

/// A field 63 bits wide, read and written as a `u64`.
pub enum B63 {
    Marker,
}

impl Specifier for B63 {
    const BITS: usize = 63;

    type T = u64;

    open spec fn from_u64_spec(value: u64) -> u64 {
        value as u64
    }

    open spec fn to_u64_spec(item: u64) -> u64 {
        item as u64
    }

    open spec fn accepts(value: u64) -> bool {
        true
    }

    fn convert_from_u64(value: u64) -> (item: u64) {
        value as u64
    }

    fn convert_to_u64(item: u64) -> (value: u64) {
        item as u64
    }

    proof fn law_round_trip(item: u64) {
    }
}

/// A field 64 bits wide, read and written as a `u64`.
pub enum B64 {
    Marker,
}

impl Specifier for B64 {
    const BITS: usize = 64;

    type T = u64;

    open spec fn from_u64_spec(value: u64) -> u64 {
        value as u64
    }

    open spec fn to_u64_spec(item: u64) -> u64 {
        item as u64
    }

    open spec fn accepts(value: u64) -> bool {
        true
    }

    fn convert_from_u64(value: u64) -> (item: u64) {
        value as u64
    }

    fn convert_to_u64(item: u64) -> (value: u64) {
        item as u64
    }

    proof fn law_round_trip(item: u64) {
    }
}

/// Law: the width types `B0`..`B8`, whose items are `u8`, convert by
/// value: an item's raw value is the item itself, and a raw value that fits
/// the width reads back as the item with that very value (so a fresh, zeroed
/// field reads as zero).
pub proof fn law_u8_widths_convert_by_value()
    ensures
        forall|item: u8| #[trigger] B0::to_u64_spec(item) == item as u64,
        forall|v: u64| v < pow2(0) ==> #[trigger] B0::from_u64_spec(v) as u64 == v,
        forall|item: u8| #[trigger] B1::to_u64_spec(item) == item as u64,
        forall|v: u64| v < pow2(1) ==> #[trigger] B1::from_u64_spec(v) as u64 == v,
        forall|item: u8| #[trigger] B2::to_u64_spec(item) == item as u64,
        forall|v: u64| v < pow2(2) ==> #[trigger] B2::from_u64_spec(v) as u64 == v,
        forall|item: u8| #[trigger] B3::to_u64_spec(item) == item as u64,
        forall|v: u64| v < pow2(3) ==> #[trigger] B3::from_u64_spec(v) as u64 == v,
        forall|item: u8| #[trigger] B4::to_u64_spec(item) == item as u64,
        forall|v: u64| v < pow2(4) ==> #[trigger] B4::from_u64_spec(v) as u64 == v,
        forall|item: u8| #[trigger] B5::to_u64_spec(item) == item as u64,
        forall|v: u64| v < pow2(5) ==> #[trigger] B5::from_u64_spec(v) as u64 == v,
        forall|item: u8| #[trigger] B6::to_u64_spec(item) == item as u64,
        forall|v: u64| v < pow2(6) ==> #[trigger] B6::from_u64_spec(v) as u64 == v,
        forall|item: u8| #[trigger] B7::to_u64_spec(item) == item as u64,
        forall|v: u64| v < pow2(7) ==> #[trigger] B7::from_u64_spec(v) as u64 == v,
        forall|item: u8| #[trigger] B8::to_u64_spec(item) == item as u64,
        forall|v: u64| v < pow2(8) ==> #[trigger] B8::from_u64_spec(v) as u64 == v,
{
    vstd::arithmetic::power2::lemma2_to64();
}

/// Law: the width types `B9`..`B16`, whose items are `u16`, convert by
/// value: an item's raw value is the item itself, and a raw value that fits
/// the width reads back as the item with that very value (so a fresh, zeroed
/// field reads as zero).
pub proof fn law_u16_widths_convert_by_value()
    ensures
        forall|item: u16| #[trigger] B9::to_u64_spec(item) == item as u64,
        forall|v: u64| v < pow2(9) ==> #[trigger] B9::from_u64_spec(v) as u64 == v,
        forall|item: u16| #[trigger] B10::to_u64_spec(item) == item as u64,
        forall|v: u64| v < pow2(10) ==> #[trigger] B10::from_u64_spec(v) as u64 == v,
        forall|item: u16| #[trigger] B11::to_u64_spec(item) == item as u64,
        forall|v: u64| v < pow2(11) ==> #[trigger] B11::from_u64_spec(v) as u64 == v,
        forall|item: u16| #[trigger] B12::to_u64_spec(item) == item as u64,
        forall|v: u64| v < pow2(12) ==> #[trigger] B12::from_u64_spec(v) as u64 == v,
        forall|item: u16| #[trigger] B13::to_u64_spec(item) == item as u64,
        forall|v: u64| v < pow2(13) ==> #[trigger] B13::from_u64_spec(v) as u64 == v,
        forall|item: u16| #[trigger] B14::to_u64_spec(item) == item as u64,
        forall|v: u64| v < pow2(14) ==> #[trigger] B14::from_u64_spec(v) as u64 == v,
        forall|item: u16| #[trigger] B15::to_u64_spec(item) == item as u64,
        forall|v: u64| v < pow2(15) ==> #[trigger] B15::from_u64_spec(v) as u64 == v,
        forall|item: u16| #[trigger] B16::to_u64_spec(item) == item as u64,
        forall|v: u64| v < pow2(16) ==> #[trigger] B16::from_u64_spec(v) as u64 == v,
{
    vstd::arithmetic::power2::lemma2_to64();
}

/// Law: the width types `B17`..`B32`, whose items are `u32`, convert by
/// value: an item's raw value is the item itself, and a raw value that fits
/// the width reads back as the item with that very value (so a fresh, zeroed
/// field reads as zero).
pub proof fn law_u32_widths_convert_by_value()
    ensures
        forall|item: u32| #[trigger] B17::to_u64_spec(item) == item as u64,
        forall|v: u64| v < pow2(17) ==> #[trigger] B17::from_u64_spec(v) as u64 == v,
        forall|item: u32| #[trigger] B18::to_u64_spec(item) == item as u64,
        forall|v: u64| v < pow2(18) ==> #[trigger] B18::from_u64_spec(v) as u64 == v,
        forall|item: u32| #[trigger] B19::to_u64_spec(item) == item as u64,
        forall|v: u64| v < pow2(19) ==> #[trigger] B19::from_u64_spec(v) as u64 == v,
        forall|item: u32| #[trigger] B20::to_u64_spec(item) == item as u64,
        forall|v: u64| v < pow2(20) ==> #[trigger] B20::from_u64_spec(v) as u64 == v,
        forall|item: u32| #[trigger] B21::to_u64_spec(item) == item as u64,
        forall|v: u64| v < pow2(21) ==> #[trigger] B21::from_u64_spec(v) as u64 == v,
        forall|item: u32| #[trigger] B22::to_u64_spec(item) == item as u64,
        forall|v: u64| v < pow2(22) ==> #[trigger] B22::from_u64_spec(v) as u64 == v,
        forall|item: u32| #[trigger] B23::to_u64_spec(item) == item as u64,
        forall|v: u64| v < pow2(23) ==> #[trigger] B23::from_u64_spec(v) as u64 == v,
        forall|item: u32| #[trigger] B24::to_u64_spec(item) == item as u64,
        forall|v: u64| v < pow2(24) ==> #[trigger] B24::from_u64_spec(v) as u64 == v,
        forall|item: u32| #[trigger] B25::to_u64_spec(item) == item as u64,
        forall|v: u64| v < pow2(25) ==> #[trigger] B25::from_u64_spec(v) as u64 == v,
        forall|item: u32| #[trigger] B26::to_u64_spec(item) == item as u64,
        forall|v: u64| v < pow2(26) ==> #[trigger] B26::from_u64_spec(v) as u64 == v,
        forall|item: u32| #[trigger] B27::to_u64_spec(item) == item as u64,
        forall|v: u64| v < pow2(27) ==> #[trigger] B27::from_u64_spec(v) as u64 == v,
        forall|item: u32| #[trigger] B28::to_u64_spec(item) == item as u64,
        forall|v: u64| v < pow2(28) ==> #[trigger] B28::from_u64_spec(v) as u64 == v,
        forall|item: u32| #[trigger] B29::to_u64_spec(item) == item as u64,
        forall|v: u64| v < pow2(29) ==> #[trigger] B29::from_u64_spec(v) as u64 == v,
        forall|item: u32| #[trigger] B30::to_u64_spec(item) == item as u64,
        forall|v: u64| v < pow2(30) ==> #[trigger] B30::from_u64_spec(v) as u64 == v,
        forall|item: u32| #[trigger] B31::to_u64_spec(item) == item as u64,
        forall|v: u64| v < pow2(31) ==> #[trigger] B31::from_u64_spec(v) as u64 == v,
        forall|item: u32| #[trigger] B32::to_u64_spec(item) == item as u64,
        forall|v: u64| v < pow2(32) ==> #[trigger] B32::from_u64_spec(v) as u64 == v,
{
    vstd::arithmetic::power2::lemma2_to64();
}

/// Law: the width types `B33`..`B64`, whose items are `u64`, convert by
/// value: an item's raw value is the item itself, and a raw value that fits
/// the width reads back as the item with that very value (so a fresh, zeroed
/// field reads as zero).
pub proof fn law_u64_widths_convert_by_value()
    ensures
        forall|item: u64| #[trigger] B33::to_u64_spec(item) == item as u64,
        forall|v: u64| v < pow2(33) ==> #[trigger] B33::from_u64_spec(v) as u64 == v,
        forall|item: u64| #[trigger] B34::to_u64_spec(item) == item as u64,
        forall|v: u64| v < pow2(34) ==> #[trigger] B34::from_u64_spec(v) as u64 == v,
        forall|item: u64| #[trigger] B35::to_u64_spec(item) == item as u64,
        forall|v: u64| v < pow2(35) ==> #[trigger] B35::from_u64_spec(v) as u64 == v,
        forall|item: u64| #[trigger] B36::to_u64_spec(item) == item as u64,
        forall|v: u64| v < pow2(36) ==> #[trigger] B36::from_u64_spec(v) as u64 == v,
        forall|item: u64| #[trigger] B37::to_u64_spec(item) == item as u64,
        forall|v: u64| v < pow2(37) ==> #[trigger] B37::from_u64_spec(v) as u64 == v,
        forall|item: u64| #[trigger] B38::to_u64_spec(item) == item as u64,
        forall|v: u64| v < pow2(38) ==> #[trigger] B38::from_u64_spec(v) as u64 == v,
        forall|item: u64| #[trigger] B39::to_u64_spec(item) == item as u64,
        forall|v: u64| v < pow2(39) ==> #[trigger] B39::from_u64_spec(v) as u64 == v,
        forall|item: u64| #[trigger] B40::to_u64_spec(item) == item as u64,
        forall|v: u64| v < pow2(40) ==> #[trigger] B40::from_u64_spec(v) as u64 == v,
        forall|item: u64| #[trigger] B41::to_u64_spec(item) == item as u64,
        forall|v: u64| v < pow2(41) ==> #[trigger] B41::from_u64_spec(v) as u64 == v,
        forall|item: u64| #[trigger] B42::to_u64_spec(item) == item as u64,
        forall|v: u64| v < pow2(42) ==> #[trigger] B42::from_u64_spec(v) as u64 == v,
        forall|item: u64| #[trigger] B43::to_u64_spec(item) == item as u64,
        forall|v: u64| v < pow2(43) ==> #[trigger] B43::from_u64_spec(v) as u64 == v,
        forall|item: u64| #[trigger] B44::to_u64_spec(item) == item as u64,
        forall|v: u64| v < pow2(44) ==> #[trigger] B44::from_u64_spec(v) as u64 == v,
        forall|item: u64| #[trigger] B45::to_u64_spec(item) == item as u64,
        forall|v: u64| v < pow2(45) ==> #[trigger] B45::from_u64_spec(v) as u64 == v,
        forall|item: u64| #[trigger] B46::to_u64_spec(item) == item as u64,
        forall|v: u64| v < pow2(46) ==> #[trigger] B46::from_u64_spec(v) as u64 == v,
        forall|item: u64| #[trigger] B47::to_u64_spec(item) == item as u64,
        forall|v: u64| v < pow2(47) ==> #[trigger] B47::from_u64_spec(v) as u64 == v,
        forall|item: u64| #[trigger] B48::to_u64_spec(item) == item as u64,
        forall|v: u64| v < pow2(48) ==> #[trigger] B48::from_u64_spec(v) as u64 == v,
        forall|item: u64| #[trigger] B49::to_u64_spec(item) == item as u64,
        forall|v: u64| v < pow2(49) ==> #[trigger] B49::from_u64_spec(v) as u64 == v,
        forall|item: u64| #[trigger] B50::to_u64_spec(item) == item as u64,
        forall|v: u64| v < pow2(50) ==> #[trigger] B50::from_u64_spec(v) as u64 == v,
        forall|item: u64| #[trigger] B51::to_u64_spec(item) == item as u64,
        forall|v: u64| v < pow2(51) ==> #[trigger] B51::from_u64_spec(v) as u64 == v,
        forall|item: u64| #[trigger] B52::to_u64_spec(item) == item as u64,
        forall|v: u64| v < pow2(52) ==> #[trigger] B52::from_u64_spec(v) as u64 == v,
        forall|item: u64| #[trigger] B53::to_u64_spec(item) == item as u64,
        forall|v: u64| v < pow2(53) ==> #[trigger] B53::from_u64_spec(v) as u64 == v,
        forall|item: u64| #[trigger] B54::to_u64_spec(item) == item as u64,
        forall|v: u64| v < pow2(54) ==> #[trigger] B54::from_u64_spec(v) as u64 == v,
        forall|item: u64| #[trigger] B55::to_u64_spec(item) == item as u64,
        forall|v: u64| v < pow2(55) ==> #[trigger] B55::from_u64_spec(v) as u64 == v,
        forall|item: u64| #[trigger] B56::to_u64_spec(item) == item as u64,
        forall|v: u64| v < pow2(56) ==> #[trigger] B56::from_u64_spec(v) as u64 == v,
        forall|item: u64| #[trigger] B57::to_u64_spec(item) == item as u64,
        forall|v: u64| v < pow2(57) ==> #[trigger] B57::from_u64_spec(v) as u64 == v,
        forall|item: u64| #[trigger] B58::to_u64_spec(item) == item as u64,
        forall|v: u64| v < pow2(58) ==> #[trigger] B58::from_u64_spec(v) as u64 == v,
        forall|item: u64| #[trigger] B59::to_u64_spec(item) == item as u64,
        forall|v: u64| v < pow2(59) ==> #[trigger] B59::from_u64_spec(v) as u64 == v,
        forall|item: u64| #[trigger] B60::to_u64_spec(item) == item as u64,
        forall|v: u64| v < pow2(60) ==> #[trigger] B60::from_u64_spec(v) as u64 == v,
        forall|item: u64| #[trigger] B61::to_u64_spec(item) == item as u64,
        forall|v: u64| v < pow2(61) ==> #[trigger] B61::from_u64_spec(v) as u64 == v,
        forall|item: u64| #[trigger] B62::to_u64_spec(item) == item as u64,
        forall|v: u64| v < pow2(62) ==> #[trigger] B62::from_u64_spec(v) as u64 == v,
        forall|item: u64| #[trigger] B63::to_u64_spec(item) == item as u64,
        forall|v: u64| v < pow2(63) ==> #[trigger] B63::from_u64_spec(v) as u64 == v,
        forall|item: u64| #[trigger] B64::to_u64_spec(item) == item as u64,
        forall|v: u64| v < pow2(64) ==> #[trigger] B64::from_u64_spec(v) as u64 == v,
{
    vstd::arithmetic::power2::lemma2_to64();
}

/// Law: a `bool` field stores `true` as the raw value one and `false` as
/// zero, and reads any nonzero raw value as `true`.
pub proof fn law_bool_converts_by_value()
    ensures
        <bool as Specifier>::to_u64_spec(true) == 1,
        <bool as Specifier>::to_u64_spec(false) == 0,
        forall|v: u64| #[trigger] <bool as Specifier>::from_u64_spec(v) == (v != 0),
{
}

} // verus!
