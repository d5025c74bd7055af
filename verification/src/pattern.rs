use crate::color::Color;
use crate::shape::IDENTITY;
use vstd::prelude::*;

verus! {

/// The way two colours are laid out in space.
#[derive(Clone, Copy, Debug, PartialEq, Eq, Structural)]
pub enum PatternType {
    /// Stripes across the first axis that take turns.
    Striped { a: Color, b: Color },
    /// A colour that changes evenly along the first axis from one to the
    /// other.
    Gradient { a: Color, b: Color },
    /// Rings round the second axis that take turns.
    Ring { a: Color, b: Color },
    /// Cubes that take turns in all three directions.
    Checkered { a: Color, b: Color },
}

/// A pattern in a frame of its own: the key of the transform that carries it
/// into the frame of the object that wears it, and its layout.
#[derive(Clone, Copy, Debug, PartialEq, Eq, Structural)]
pub struct Pattern {
    pub transform: u64,
    pub pattern_type: PatternType,
}

impl Pattern {
    /// A pattern of the given layout in the frame of its object.
    pub fn new(pattern_type: PatternType) -> (pattern: Self)
        ensures
            pattern == (Pattern { transform: IDENTITY, pattern_type }),
    {
        Self { transform: IDENTITY, pattern_type }
    }

    /// Stripes of the two colours.
    pub fn striped(a: Color, b: Color) -> (pattern: Self)
        ensures
            pattern == (Pattern { transform: IDENTITY, pattern_type: PatternType::Striped { a, b } }),
    {
        Self::new(PatternType::Striped { a, b })
    }

    /// A gradient from the first colour to the second.
    pub fn gradient(a: Color, b: Color) -> (pattern: Self)
        ensures
            pattern == (Pattern { transform: IDENTITY, pattern_type: PatternType::Gradient { a, b } }),
    {
        Self::new(PatternType::Gradient { a, b })
    }

    /// Rings of the two colours.
    pub fn ring(a: Color, b: Color) -> (pattern: Self)
        ensures
            pattern == (Pattern { transform: IDENTITY, pattern_type: PatternType::Ring { a, b } }),
    {
        Self::new(PatternType::Ring { a, b })
    }

    /// Cubes of the two colours.
    pub fn checkered(a: Color, b: Color) -> (pattern: Self)
        ensures
            pattern == (Pattern { transform: IDENTITY, pattern_type: PatternType::Checkered { a, b } }),
    {
        Self::new(PatternType::Checkered { a, b })
    }
}

} // verus!
