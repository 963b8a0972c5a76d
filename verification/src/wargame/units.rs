//! Unit model: the pieces a leader places on the board.

use vstd::prelude::*;

verus! {

/// A single-precision real carried by its IEEE-754 binary32 bit pattern.
/// Positions (warapi-normalized `[nx, ny]`), headings (radians) and slopes
/// travel through the library this way, unchanged bit for bit.
#[derive(Clone, Copy, Debug, PartialEq, Eq, Structural)]
pub struct F32Bits(pub u32);

/// Stable identifier for a placed unit.
#[derive(Clone, Copy, Debug, PartialEq, Eq, Hash, Structural)]
pub struct UnitId(pub u32);

#[derive(Clone, Copy, Debug, PartialEq, Eq, Structural)]
pub enum Faction {
    Warden,
    Colonial,
    Neutral,
}

/// Which kind of piece to spawn (the discriminant without the per-instance data).
#[derive(Clone, Copy, Debug, PartialEq, Eq, Structural)]
pub enum Kind {
    Squad,
    Boat,
    Tank,
}

/// A placeable piece. `pos` is warapi-normalized `[nx, ny]` in `[0,1]^2`.
#[derive(Clone, Copy, Debug)]
pub enum Unit {
    Squad { id: UnitId, faction: Faction, size: u8, pos: [F32Bits; 2] },
    Boat { id: UnitId, faction: Faction, pos: [F32Bits; 2], heading: F32Bits },
    Tank { id: UnitId, faction: Faction, pos: [F32Bits; 2], heading: F32Bits },
}

/// Law: a spawned unit answers back what it was spawned with: its kind, id,
/// faction and position, the size for a squad and the heading for a vehicle.
pub proof fn lemma_spawn_round_trip(
    kind: Kind,
    id: UnitId,
    faction: Faction,
    pos: [F32Bits; 2],
    size: u8,
    heading: F32Bits,
)
    ensures
        ({
            let u = Unit::spec_spawn(kind, id, faction, pos, size, heading);
            &&& u.spec_kind() == kind
            &&& u.spec_id() == id
            &&& u.spec_faction() == faction
            &&& u.spec_pos() == pos
            &&& u.spec_size() == (if kind == Kind::Squad { Some(size) } else { None })
            &&& u.spec_heading() == (if kind == Kind::Squad { None } else { Some(heading) })
        }),
{
}

impl Unit {
    pub open spec fn spec_spawn(
        kind: Kind,
        id: UnitId,
        faction: Faction,
        pos: [F32Bits; 2],
        size: u8,
        heading: F32Bits,
    ) -> Unit {
        match kind {
            Kind::Squad => Unit::Squad { id, faction, size, pos },
            Kind::Boat => Unit::Boat { id, faction, pos, heading },
            Kind::Tank => Unit::Tank { id, faction, pos, heading },
        }
    }

    /// Spawn a unit of `kind` at `pos`. `size` applies to squads, `heading` to
    /// vehicles; each is dropped where it does not apply.
    pub fn spawn(
        kind: Kind,
        id: UnitId,
        faction: Faction,
        pos: [F32Bits; 2],
        size: u8,
        heading: F32Bits,
    ) -> (u: Unit)
        ensures
            u == Unit::spec_spawn(kind, id, faction, pos, size, heading),
    {
        match kind {
            Kind::Squad => Unit::Squad { id, faction, size, pos },
            Kind::Boat => Unit::Boat { id, faction, pos, heading },
            Kind::Tank => Unit::Tank { id, faction, pos, heading },
        }
    }

    pub open spec fn spec_kind(&self) -> Kind {
        match self {
            Unit::Squad { .. } => Kind::Squad,
            Unit::Boat { .. } => Kind::Boat,
            Unit::Tank { .. } => Kind::Tank,
        }
    }

    #[verifier::when_used_as_spec(spec_kind)]
    pub fn kind(&self) -> (k: Kind)
        ensures
            k == self.spec_kind(),
    {
        match self {
            Unit::Squad { .. } => Kind::Squad,
            Unit::Boat { .. } => Kind::Boat,
            Unit::Tank { .. } => Kind::Tank,
        }
    }

    pub open spec fn spec_id(&self) -> UnitId {
        match *self {
            Unit::Squad { id, .. } => id,
            Unit::Boat { id, .. } => id,
            Unit::Tank { id, .. } => id,
        }
    }

    #[verifier::when_used_as_spec(spec_id)]
    pub fn id(&self) -> (id: UnitId)
        ensures
            id == self.spec_id(),
    {
        match *self {
            Unit::Squad { id, .. } => id,
            Unit::Boat { id, .. } => id,
            Unit::Tank { id, .. } => id,
        }
    }

    pub open spec fn spec_faction(&self) -> Faction {
        match *self {
            Unit::Squad { faction, .. } => faction,
            Unit::Boat { faction, .. } => faction,
            Unit::Tank { faction, .. } => faction,
        }
    }

    #[verifier::when_used_as_spec(spec_faction)]
    pub fn faction(&self) -> (f: Faction)
        ensures
            f == self.spec_faction(),
    {
        match *self {
            Unit::Squad { faction, .. } => faction,
            Unit::Boat { faction, .. } => faction,
            Unit::Tank { faction, .. } => faction,
        }
    }

    pub open spec fn spec_pos(&self) -> [F32Bits; 2] {
        match *self {
            Unit::Squad { pos, .. } => pos,
            Unit::Boat { pos, .. } => pos,
            Unit::Tank { pos, .. } => pos,
        }
    }

    #[verifier::when_used_as_spec(spec_pos)]
    pub fn pos(&self) -> (p: [F32Bits; 2])
        ensures
            p == self.spec_pos(),
    {
        match *self {
            Unit::Squad { pos, .. } => pos,
            Unit::Boat { pos, .. } => pos,
            Unit::Tank { pos, .. } => pos,
        }
    }

    pub open spec fn spec_size(&self) -> Option<u8> {
        match *self {
            Unit::Squad { size, .. } => Some(size),
            _ => None,
        }
    }

    /// Squad strength, if this is a squad.
    #[verifier::when_used_as_spec(spec_size)]
    pub fn size(&self) -> (s: Option<u8>)
        ensures
            s == self.spec_size(),
    {
        match *self {
            Unit::Squad { size, .. } => Some(size),
            _ => None,
        }
    }

    pub open spec fn spec_heading(&self) -> Option<F32Bits> {
        match *self {
            Unit::Boat { heading, .. } => Some(heading),
            Unit::Tank { heading, .. } => Some(heading),
            _ => None,
        }
    }

    /// Facing in radians, if this is a vehicle.
    #[verifier::when_used_as_spec(spec_heading)]
    pub fn heading(&self) -> (h: Option<F32Bits>)
        ensures
            h == self.spec_heading(),
    {
        match *self {
            Unit::Boat { heading, .. } => Some(heading),
            Unit::Tank { heading, .. } => Some(heading),
            _ => None,
        }
    }
}

} // verus!
