//! Hex geometry constants, shared with the browser's `web/hex.js`.
//!
//! The board's geometry is single-precision; each constant is written here as
//! its IEEE-754 binary32 bit pattern, the exact value the renderer and the
//! terrain queries use.

use vstd::prelude::*;

verus! {

/// Center to vertex: 6.0.
pub const HEX_RADIUS_BITS: u32 = 0x40c0_0000;

/// Extrusion thickness: 0.6.
pub const HEX_HEIGHT_BITS: u32 = 0x3f19_999a;

/// Top face Y, half the thickness: 0.3.
pub const HEX_TOP_Y_BITS: u32 = 0x3e99_999a;

/// Vertex to vertex along x, twice the radius: 12.0.
pub const HEX_WIDTH_BITS: u32 = 0x4140_0000;

/// Flat to flat along z, sqrt(3) times the radius: 10.392304845413264 rounded
/// to single precision.
pub const HEX_DEPTH_BITS: u32 = 0x4126_46e1;

} // verus!
