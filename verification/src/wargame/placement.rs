//! Placement rules and the placed board state.
//!
//! Whether a point lies inside the hexagon, whether the ground there is water,
//! how steep it is and whether another unit stands too close are measurements
//! on the baked grid; they reach these rules as a `Site` and an `occupied`
//! flag, and the rules decide from them.

use vstd::prelude::*;
use crate::wargame::units::{F32Bits, Kind, Unit, UnitId};

verus! {

#[derive(Clone, Copy, Debug, PartialEq, Eq, Structural)]
pub enum PlaceError {
    OutOfBounds,
    Water,
    Cliff,
    Occupied,
}

impl PlaceError {
    pub open spec fn spec_label(&self) -> Seq<char> {
        match self {
            PlaceError::OutOfBounds => "OutOfBounds"@,
            PlaceError::Water => "Water"@,
            PlaceError::Cliff => "Cliff"@,
            PlaceError::Occupied => "Occupied"@,
        }
    }

    /// The variant's name, as the session reports it.
    pub fn label(&self) -> (s: String)
        ensures
            s@ == self.spec_label(),
    {
        match self {
            PlaceError::OutOfBounds => "OutOfBounds".to_owned(),
            PlaceError::Water => "Water".to_owned(),
            PlaceError::Cliff => "Cliff".to_owned(),
            PlaceError::Occupied => "Occupied".to_owned(),
        }
    }
}

/// No slope limit (positive infinity), as a binary32 bit pattern.
pub const NO_SLOPE_LIMIT_BITS: u32 = 0x7f80_0000;

/// Steepest slope a tank may stand on: 0.4.
pub const TANK_MAX_SLOPE_BITS: u32 = 0x3ecc_cccd;

/// Steepest slope a squad may stand on: 0.8.
pub const SQUAD_MAX_SLOPE_BITS: u32 = 0x3f4c_cccd;

/// Minimum separation between two placed units, in normalized `[0,1]`
/// distance: 0.02.
pub const MIN_SEPARATION_BITS: u32 = 0x3ca3_d70a;

/// Per-unit-kind terrain constraints.
#[derive(Clone, Copy, Debug)]
pub struct UnitKindRules {
    pub allow_water: bool,
    pub max_slope: F32Bits,
}

pub open spec fn spec_rules_for(kind: Kind) -> UnitKindRules {
    match kind {
        Kind::Boat => UnitKindRules { allow_water: true, max_slope: F32Bits(NO_SLOPE_LIMIT_BITS) },
        Kind::Tank => UnitKindRules { allow_water: false, max_slope: F32Bits(TANK_MAX_SLOPE_BITS) },
        Kind::Squad => UnitKindRules {
            allow_water: false,
            max_slope: F32Bits(SQUAD_MAX_SLOPE_BITS),
        },
    }
}

/// Terrain rules per unit kind: boats need water and climb anything, tanks
/// keep off water and steep ground, infantry keep off water and are the most
/// forgiving on slopes.
pub fn rules_for(unit: &Unit) -> (r: UnitKindRules)
    ensures
        r == spec_rules_for(unit.spec_kind()),
{
    match unit {
        Unit::Boat { .. } => UnitKindRules {
            allow_water: true,
            max_slope: F32Bits(NO_SLOPE_LIMIT_BITS),
        },
        Unit::Tank { .. } => UnitKindRules {
            allow_water: false,
            max_slope: F32Bits(TANK_MAX_SLOPE_BITS),
        },
        Unit::Squad { .. } => UnitKindRules {
            allow_water: false,
            max_slope: F32Bits(SQUAD_MAX_SLOPE_BITS),
        },
    }
}

/// What the terrain says about a drop point for a given unit: whether the
/// point is inside the hexagon (not just its bounding box), whether its ground
/// is water, and whether its slope is above the unit's `max_slope`. The rules
/// read the facts in that order: `water` matters only inside the hexagon and
/// for a unit that may not swim, `too_steep` only when the earlier facts pass.
#[derive(Clone, Copy, Debug)]
pub struct Site {
    pub in_hex: bool,
    pub water: bool,
    pub too_steep: bool,
}

/// The terrain verdict on a drop: out of the hexagon first, then water for a
/// unit that may not swim, then a slope too steep for it.
pub open spec fn spec_validate(unit: Unit, site: Site) -> Result<(), PlaceError> {
    if !site.in_hex {
        Err(PlaceError::OutOfBounds)
    } else if !spec_rules_for(unit.spec_kind()).allow_water && site.water {
        Err(PlaceError::Water)
    } else if site.too_steep {
        Err(PlaceError::Cliff)
    } else {
        Ok(())
    }
}

/// Check whether `unit` may occupy the surveyed site. Read-only: used both to
/// validate a drop and to gate `place`.
pub fn validate_placement(unit: &Unit, site: &Site) -> (r: Result<(), PlaceError>)
    ensures
        r == spec_validate(*unit, *site),
{
    if !site.in_hex {
        return Err(PlaceError::OutOfBounds);
    }
    let rules = rules_for(unit);
    if !rules.allow_water && site.water {
        return Err(PlaceError::Water);
    }
    if site.too_steep {
        return Err(PlaceError::Cliff);
    }
    Ok(())
}

/// Law: a drop outside the hexagon is `OutOfBounds`, whatever the ground
/// there, and is never placed.
pub proof fn lemma_outside_hex_is_out_of_bounds(unit: Unit, site: Site, occupied: bool)
    requires
        !site.in_hex,
    ensures
        spec_validate(unit, site) == Err::<(), PlaceError>(PlaceError::OutOfBounds),
        spec_place(unit, site, occupied) == Err::<UnitId, PlaceError>(PlaceError::OutOfBounds),
{
}

/// Law: on gentle water inside the hexagon boats may stand and every other
/// kind is refused as `Water`.
pub proof fn lemma_boats_float_others_do_not(unit: Unit, site: Site)
    requires
        site.in_hex,
        site.water,
        !site.too_steep,
    ensures
        unit.spec_kind() == Kind::Boat ==> spec_validate(unit, site) is Ok,
        unit.spec_kind() != Kind::Boat ==> spec_validate(unit, site) == Err::<(), PlaceError>(PlaceError::Water),
{
}

/// Law: a placement succeeds exactly when the terrain verdict is clear and no
/// unit stands too close; it then answers the unit's own id.
pub proof fn lemma_place_needs_valid_free_site(unit: Unit, site: Site, occupied: bool)
    ensures
        spec_place(unit, site, occupied) is Ok <==> (spec_validate(unit, site) is Ok && !occupied),
        spec_place(unit, site, occupied) is Ok ==> spec_place(unit, site, occupied) == Ok::<UnitId, PlaceError>(unit.spec_id()),
{
}

/// The placed board state.
pub struct World {
    pub units: Vec<Unit>,
}

impl World {
    /// An empty board.
    pub fn new() -> (w: World)
        ensures
            w.units@ == Seq::<Unit>::empty(),
    {
        World { units: Vec::new() }
    }
}

impl Default for World {
    fn default() -> (w: World)
        ensures
            w.units@ == Seq::<Unit>::empty(),
    {
        World::new()
    }
}

/// The outcome of placing `unit` on `site`: the terrain verdict first, then
/// occupancy (another unit closer than `MIN_SEPARATION`), then the unit's id.
pub open spec fn spec_place(unit: Unit, site: Site, occupied: bool) -> Result<UnitId, PlaceError> {
    match spec_validate(unit, site) {
        Err(e) => Err(e),
        Ok(_) => if occupied {
            Err(PlaceError::Occupied)
        } else {
            Ok(unit.spec_id())
        },
    }
}

/// Validate the terrain rules and occupancy, then add `unit` to `world` and
/// return its id. `unit` already carries its id and the drop point as its
/// position; `occupied` says whether a placed unit stands within
/// `MIN_SEPARATION` of that point.
pub fn place(world: &mut World, unit: Unit, site: &Site, occupied: bool) -> (r: Result<UnitId, PlaceError>)
    ensures
        r == spec_place(unit, *site, occupied),
        final(world).units@ == (if r is Ok {
            old(world).units@.push(unit)
        } else {
            old(world).units@
        }),
{
    match validate_placement(&unit, site) {
        Err(e) => return Err(e),
        Ok(()) => {},
    }
    if occupied {
        return Err(PlaceError::Occupied);
    }
    let id = unit.id();
    world.units.push(unit);
    Ok(id)
}

} // verus!
