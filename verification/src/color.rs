use crate::scalar::{ONE, ZERO};
use vstd::prelude::*;

verus! {

/// A colour by its red, green and blue parts, each kept as the ordered key of
/// its number; zero is dark and one is full.
#[derive(Clone, Copy, Debug, PartialEq, Eq, Structural)]
pub struct Color {
    pub red: i64,
    pub green: i64,
    pub blue: i64,
}

impl Color {
    /// The colour of the three parts.
    pub fn new(red: i64, green: i64, blue: i64) -> (color: Self)
        ensures
            color == (Color { red, green, blue }),
    {
        Self { red, green, blue }
    }

    /// No light at all.
    pub fn black() -> (color: Self)
        ensures
            color == (Color { red: ZERO, green: ZERO, blue: ZERO }),
    {
        Self { red: ZERO, green: ZERO, blue: ZERO }
    }

    /// All three parts in full.
    pub fn white() -> (color: Self)
        ensures
            color == (Color { red: ONE, green: ONE, blue: ONE }),
    {
        Self { red: ONE, green: ONE, blue: ONE }
    }

    /// The red part in full and nothing else.
    pub fn red() -> (color: Self)
        ensures
            color == (Color { red: ONE, green: ZERO, blue: ZERO }),
    {
        Self { red: ONE, green: ZERO, blue: ZERO }
    }

    /// The green part in full and nothing else.
    pub fn green() -> (color: Self)
        ensures
            color == (Color { red: ZERO, green: ONE, blue: ZERO }),
    {
        Self { red: ZERO, green: ONE, blue: ZERO }
    }

    /// The blue part in full and nothing else.
    pub fn blue() -> (color: Self)
        ensures
            color == (Color { red: ZERO, green: ZERO, blue: ONE }),
    {
        Self { red: ZERO, green: ZERO, blue: ONE }
    }
}

} // verus!
