use crate::color::Color;
use crate::pattern::Pattern;
use crate::scalar::{at_most, le, less, lt, NINE_TENTHS, ONE, TENTH, TWO_HUNDRED, ZERO};
use vstd::prelude::*;

verus! {

/// What a surface is made of. The numbers are kept as ordered keys.
#[derive(Clone, Copy, Debug, PartialEq, Eq, Structural)]
pub struct Material {
    /// The colour of the surface where it wears no pattern.
    pub color: Color,
    /// How much of the light that is everywhere the surface gives back.
    pub ambient: i64,
    /// How much of the light of a lamp the surface scatters.
    pub diffuse: i64,
    /// How bright the highlight of a lamp is.
    pub specular: i64,
    /// How small the highlight of a lamp is.
    pub shininess: i64,
    /// How much the surface mirrors: from zero, not at all, to one.
    pub reflective: i64,
    /// The pattern that the surface wears, if it wears one.
    pub pattern: Option<Pattern>,
    /// How much light goes through: from zero, none, to one.
    pub transparency: i64,
    /// How much the material bends light; empty space has one.
    pub refractive_index: i64,
    /// Whether the surface keeps the light of a lamp from what lies behind.
    pub casts_shadows: bool,
}

/// Where the colour of a point of a surface comes from.
#[derive(Clone, Copy, Debug, PartialEq, Eq, Structural)]
pub enum Paint {
    /// The one colour of the material.
    Plain(Color),
    /// The pattern that the material wears.
    Patterned(Pattern),
}

impl Material {
    /// The material of a thing that nothing was said about: white and matt,
    /// with a small bright highlight, neither mirroring nor transparent.
    pub open spec fn standard() -> Material {
        Material {
            color: Color { red: ONE, green: ONE, blue: ONE },
            ambient: TENTH,
            diffuse: NINE_TENTHS,
            specular: NINE_TENTHS,
            shininess: TWO_HUNDRED,
            reflective: ZERO,
            pattern: None,
            transparency: ZERO,
            refractive_index: ONE,
            casts_shadows: true,
        }
    }

    /// Where the colour of the surface comes from: from its pattern where it
    /// wears one, else from its one colour.
    pub open spec fn paint_of(self) -> Paint {
        match self.pattern {
            Some(pattern) => Paint::Patterned(pattern),
            None => Paint::Plain(self.color),
        }
    }

    /// Makes the material of a thing that nothing was said about.
    pub fn new() -> (material: Self)
        ensures
            material == Self::standard(),
    {
        Self {
            color: Color::white(),
            ambient: TENTH,
            diffuse: NINE_TENTHS,
            specular: NINE_TENTHS,
            shininess: TWO_HUNDRED,
            reflective: ZERO,
            pattern: None,
            transparency: ZERO,
            refractive_index: ONE,
            casts_shadows: true,
        }
    }

    /// Makes the standard material with a pattern on it.
    pub fn with_pattern(pattern: Pattern) -> (material: Self)
        ensures
            material == (Material { pattern: Some(pattern), ..Self::standard() }),
    {
        let mut material = Self::new();
        material.pattern = Some(pattern);
        material
    }

    /// Tells where the colour of the surface comes from.
    pub fn paint(&self) -> (paint: Paint)
        ensures
            paint == self.paint_of(),
    {
        match self.pattern {
            Some(pattern) => Paint::Patterned(pattern),
            None => Paint::Plain(self.color),
        }
    }
}

/// Which parts of the light of one lamp a point of a surface gives back,
/// besides the ambient part, which it always gives.
#[derive(Clone, Copy, Debug, PartialEq, Eq, Structural)]
pub struct LightingTerms {
    pub diffuse: bool,
    pub specular: bool,
}

/// The parts for a point that is in the shadow of the lamp or not, given the
/// cosine of the angle between the direction of the lamp and the normal, and
/// that of the angle between the mirrored direction of the lamp and the eye.
///
/// In shadow there is the ambient part alone. So it is where the lamp is
/// behind the surface, the first cosine being negative. Else there is the
/// diffuse part, and the specular part unless the mirrored light goes away
/// from the eye, the second cosine not being above zero.
pub open spec fn terms_of(in_shadow: bool, light_dot_normal: i64, reflect_dot_eye: i64) -> LightingTerms {
    let lit = !in_shadow && !less(light_dot_normal, ZERO);
    LightingTerms { diffuse: lit, specular: lit && !at_most(reflect_dot_eye, ZERO) }
}

/// Decides which parts of the light of one lamp a point gives back.
pub fn lighting(in_shadow: bool, light_dot_normal: i64, reflect_dot_eye: i64) -> (terms: LightingTerms)
    ensures
        terms == terms_of(in_shadow, light_dot_normal, reflect_dot_eye),
{
    if in_shadow || lt(light_dot_normal, ZERO) {
        LightingTerms { diffuse: false, specular: false }
    } else {
        LightingTerms { diffuse: true, specular: !le(reflect_dot_eye, ZERO) }
    }
}

/// There is no specular part without the diffuse part, and neither in shadow.
pub proof fn lemma_terms(in_shadow: bool, light_dot_normal: i64, reflect_dot_eye: i64)
    ensures
        terms_of(in_shadow, light_dot_normal, reflect_dot_eye).specular ==> terms_of(
            in_shadow,
            light_dot_normal,
            reflect_dot_eye,
        ).diffuse,
        in_shadow ==> !terms_of(in_shadow, light_dot_normal, reflect_dot_eye).diffuse,
{
}

} // verus!
