//! The squad/boat/tank model over the baked terrain grid, in warapi-normalized
//! `[0,1]^2` coordinates: units, terrain materials, placement rules and the
//! command session the browser drives.

pub mod placement;
pub mod query;
pub mod session;
pub mod units;
