use vstd::prelude::*;

verus! {

/// A point on the integer grid of the domain.
#[derive(Clone, Copy, Debug, PartialEq, Eq, Structural)]
pub struct Point2 {
    pub x: i32,
    pub y: i32,
}

/// Returned when a domain is empty or stepped by a non-positive amount.
#[derive(Clone, Copy, Debug, PartialEq, Eq, Structural)]
pub struct InvalidDomainError;

/// A point whose coordinates are `x / den` and `y / den` for a
/// denominator that the owner of the point fixes.
#[derive(Clone, Copy, Debug, PartialEq, Eq, Structural)]
pub struct ScaledPoint {
    pub x: i64,
    pub y: i64,
}

/// A display color, one byte per channel.
#[derive(Clone, Copy, Debug, PartialEq, Eq, Structural)]
pub struct Rgba {
    pub r: u8,
    pub g: u8,
    pub b: u8,
    pub a: u8,
}

} // verus!
