//! Colours of the RYB colour model.

use vstd::prelude::*;

verus! {

/// A primary colour of the RYB colour model.
#[derive(Debug, PartialEq, Eq, Structural)]
pub enum PrimaryColor {
    Red,
    Yellow,
    Blue,
}

/// A secondary colour of the RYB colour model.
#[derive(Debug, PartialEq, Eq, Structural)]
pub enum SecondaryColor {
    Orange,
    Green,
    Purple,
}

/// What mixing two primary colours yields: the secondary colour between
/// them, or nothing when they are the same.
pub open spec fn spec_mix(a: PrimaryColor, b: PrimaryColor) -> Option<SecondaryColor> {
    match (a, b) {
        (PrimaryColor::Red, PrimaryColor::Yellow) => Some(SecondaryColor::Orange),
        (PrimaryColor::Yellow, PrimaryColor::Red) => Some(SecondaryColor::Orange),
        (PrimaryColor::Yellow, PrimaryColor::Blue) => Some(SecondaryColor::Green),
        (PrimaryColor::Blue, PrimaryColor::Yellow) => Some(SecondaryColor::Green),
        (PrimaryColor::Red, PrimaryColor::Blue) => Some(SecondaryColor::Purple),
        (PrimaryColor::Blue, PrimaryColor::Red) => Some(SecondaryColor::Purple),
        _ => None,
    }
}

/// Mixes two primary colours.
pub fn mix(a: PrimaryColor, b: PrimaryColor) -> (r: Option<SecondaryColor>)
    ensures
        r == spec_mix(a, b),
{
    match (a, b) {
        (PrimaryColor::Red, PrimaryColor::Yellow) => Some(SecondaryColor::Orange),
        (PrimaryColor::Yellow, PrimaryColor::Red) => Some(SecondaryColor::Orange),
        (PrimaryColor::Yellow, PrimaryColor::Blue) => Some(SecondaryColor::Green),
        (PrimaryColor::Blue, PrimaryColor::Yellow) => Some(SecondaryColor::Green),
        (PrimaryColor::Red, PrimaryColor::Blue) => Some(SecondaryColor::Purple),
        (PrimaryColor::Blue, PrimaryColor::Red) => Some(SecondaryColor::Purple),
        _ => None,
    }
}

} // verus!
