//! Terrain materials of the baked grid, the data layer the wargame stands on.

use vstd::prelude::*;
use crate::terrain::{color_material, is_rock_color, is_sand_color, is_water_color};

verus! {

#[derive(Clone, Copy, Debug, PartialEq, Eq, Structural)]
pub enum Material {
    Water,
    Sand,
    Road,
    Rock,
}

/// Slope (world rise/run) at or above which terrain is an impassable cliff for
/// ground units by default: 0.6, as a binary32 bit pattern.
pub const CLIFF_SLOPE_BITS: u32 = 0x3f19_999a;

impl Material {
    pub open spec fn spec_from_code(c: u8) -> Material {
        if c == 0 {
            Material::Water
        } else if c == 1 {
            Material::Sand
        } else if c == 3 {
            Material::Rock
        } else {
            Material::Road
        }
    }

    /// Decode a baked material code: 0 water, 1 sand, 3 rock; every other code
    /// (2 included) is road.
    pub fn from_code(c: u8) -> (m: Material)
        ensures
            m == Material::spec_from_code(c),
    {
        match c {
            0 => Material::Water,
            1 => Material::Sand,
            3 => Material::Rock,
            _ => Material::Road,
        }
    }
}

/// Law: the code a map colour is classified into decodes to the material the
/// colour shows: water for water colours, rock for the remaining dark grey
/// ones, sand for the remaining warm bright ones, road for all else.
pub proof fn lemma_color_code_decodes(r: u8, g: u8, b: u8)
    ensures
        color_material(r, g, b) <= 3,
        Material::spec_from_code(color_material(r, g, b)) == (if is_water_color(r, g, b) {
            Material::Water
        } else if is_rock_color(r, g, b) {
            Material::Rock
        } else if is_sand_color(r, g, b) {
            Material::Sand
        } else {
            Material::Road
        }),
{
}

} // verus!
