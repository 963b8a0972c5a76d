//! opengine-core: the integer core of the op-display terrain and wargame engine.
//!
//! `terrain` resamples raw pixel buffers onto the baked grid and classifies map
//! colours into materials; `wargame` holds the squad/boat/tank model, the
//! placement rules and the command session that the browser drives. Quantities
//! that are single-precision reals in the board's geometry travel through this
//! crate by their IEEE-754 bit pattern (`wargame::units::F32Bits`), so every
//! decision here is made on plain integers and booleans.

pub mod hex;
pub mod terrain;
pub mod wargame;
