//! Session-scoped output settings for WKB serialization.

use vstd::prelude::*;

verus! {

/// Byte order used when a geometry is written as WKB.
///
/// In a WKB buffer the order is announced by the leading flag byte of each
/// geometry: `0` for big-endian, `1` for little-endian.
#[derive(Clone, Copy, PartialEq, Eq, Structural, Debug)]
pub enum ByteOrder {
    BigEndian,
    LittleEndian,
}

/// Coordinate dimensionality used when a geometry is written as WKB.
///
/// This crate builds two-dimensional geometries only, so the setting never
/// changes the bytes an encoding produces; it is kept as session state.
#[derive(Clone, Copy, PartialEq, Eq, Structural, Debug)]
pub enum Dimensions {
    TwoD,
    ThreeD,
}

} // verus!
