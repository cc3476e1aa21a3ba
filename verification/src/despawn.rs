//! The fragment material: the wire contract with the renderer's fragment
//! shader, and the flat colors it falls back to.

use vstd::prelude::*;
use crate::utils::{Vec2, FP_ONE};

verus! {

/// An RGBA color in fixed-point units: `FP_ONE` is full intensity.
#[derive(Clone, Copy, PartialEq, Eq, Structural, Debug)]
pub struct Color {
    pub r: i64,
    pub g: i64,
    pub b: i64,
    pub a: i64,
}

impl Color {
    /// Every channel within the displayable range.
    pub open spec fn wf(&self) -> bool {
        &&& 0 <= self.r <= FP_ONE
        &&& 0 <= self.g <= FP_ONE
        &&& 0 <= self.b <= FP_ONE
        &&& 0 <= self.a <= FP_ONE
    }

    /// The mid-gray fallback tint for meshes without a material.
    pub fn gray() -> (r: Color)
        ensures
            r.wf(),
            r.r == FP_ONE / 2 && r.g == FP_ONE / 2 && r.b == FP_ONE / 2 && r.a == FP_ONE,
    {
        Color { r: 500_000, g: 500_000, b: 500_000, a: FP_ONE }
    }
}

/// The luminance of a color in thousandths: `0.299 R + 0.587 G + 0.114 B`.
pub open spec fn luminance(c: Color) -> int {
    (299 * c.r + 587 * c.g + 114 * c.b) / 1000
}

/// A color's grayscale counterpart: every channel set to the luminance mix,
/// alpha kept.
pub fn grayscale(c: &Color) -> (r: Color)
    requires
        c.wf(),
    ensures
        r.wf(),
        r.r == luminance(*c) && r.g == luminance(*c) && r.b == luminance(*c),
        r.a == c.a,
{
    let mix: i64 = (299 * c.r + 587 * c.g + 114 * c.b) / 1000;
    proof {
        let num = 299 * c.r + 587 * c.g + 114 * c.b;
        vstd::arithmetic::div_mod::lemma_div_pos_is_pos(num as int, 1000);
        vstd::arithmetic::div_mod::lemma_div_is_ordered(num as int, 1000 * FP_ONE as int, 1000);
        vstd::arithmetic::div_mod::lemma_div_multiples_vanish(FP_ONE as int, 1000);
    }
    Color { r: mix, g: mix, b: mix, a: c.a }
}

/// The dynamic fragment material handed to the renderer: it samples the
/// sub-rectangle `offset .. offset + size` of the source texture (both as
/// fixed-point percentages of the texture, not pixels), scales by `alpha`,
/// and grayscales when `gray` is one. `padding` only keeps the uniform block
/// sixteen-byte aligned.
#[derive(Clone, Copy, PartialEq, Eq, Structural, Debug)]
pub struct DespawnMaterial {
    pub source_image: Option<u64>,
    pub offset: Vec2,
    pub size: Vec2,
    pub alpha: i64,
    pub gray: u32,
    pub padding: u32,
}

impl DespawnMaterial {
    /// A well-formed material keeps its percentages and alpha displayable and
    /// its gray flag boolean.
    pub open spec fn wf(&self) -> bool {
        &&& 0 <= self.offset.x <= FP_ONE && 0 <= self.offset.y <= FP_ONE
        &&& 0 <= self.size.x <= FP_ONE && 0 <= self.size.y <= FP_ONE
        &&& 0 <= self.alpha <= FP_ONE
        &&& self.gray == 0 || self.gray == 1
    }

    /// Where the renderer finds this material's shader.
    pub fn fragment_shader() -> (r: &'static str)
        ensures
            r@ == "embedded://despawn_material.wgsl"@,
    {
        "embedded://despawn_material.wgsl"
    }
}

} // verus!
