use crate::color::Color;
use crate::tuple::Tuple;
use vstd::prelude::*;

verus! {

/// A lamp without size: where it is, and the colour and strength of its
/// light.
#[derive(Clone, Copy, Debug, PartialEq, Eq, Structural)]
pub struct Light {
    pub position: Tuple,
    pub intensity: Color,
}

impl Light {
    /// The lamp at `position` with the light `intensity`.
    pub fn point_light(position: Tuple, intensity: Color) -> (light: Self)
        ensures
            light == (Light { position, intensity }),
    {
        Self { position, intensity }
    }
}

} // verus!
