use opengine_core::wargame::placement::{
    place, rules_for, validate_placement, PlaceError, Site, World, NO_SLOPE_LIMIT_BITS,
    SQUAD_MAX_SLOPE_BITS, TANK_MAX_SLOPE_BITS,
};
use opengine_core::wargame::query::Material;
use opengine_core::wargame::session::{default_size, Command, Response, Session};
use opengine_core::wargame::units::{F32Bits, Faction, Kind, Unit, UnitId};

fn at(x: f32, y: f32) -> [F32Bits; 2] {
    [F32Bits(x.to_bits()), F32Bits(y.to_bits())]
}

fn boat(pos: [f32; 2]) -> Unit {
    Unit::Boat { id: UnitId(1), faction: Faction::Neutral, pos: at(pos[0], pos[1]), heading: F32Bits(0) }
}

fn tank(pos: [f32; 2]) -> Unit {
    Unit::Tank { id: UnitId(2), faction: Faction::Neutral, pos: at(pos[0], pos[1]), heading: F32Bits(0) }
}

/// Flat water inside the hexagon.
const WATER_SITE: Site = Site { in_hex: true, water: true, too_steep: false };
/// Flat dry land inside the hexagon.
const LAND_SITE: Site = Site { in_hex: true, water: false, too_steep: false };

#[test]
fn accessors_work_across_variants() {
    let s = Unit::Squad { id: UnitId(1), faction: Faction::Warden, size: 12, pos: at(0.5, 0.5) };
    assert_eq!(s.id(), UnitId(1));
    assert_eq!(s.faction(), Faction::Warden);
    assert_eq!(s.pos(), at(0.5, 0.5));
}

#[test]
fn spawn_round_trips() {
    let h = F32Bits(1.25_f32.to_bits());
    let b = Unit::spawn(Kind::Boat, UnitId(7), Faction::Colonial, at(0.1, 0.2), 4, h);
    assert_eq!(b.kind(), Kind::Boat);
    assert_eq!(b.id(), UnitId(7));
    assert_eq!(b.faction(), Faction::Colonial);
    assert_eq!(b.pos(), at(0.1, 0.2));
    assert_eq!(b.size(), None);
    assert_eq!(b.heading(), Some(h));
    let s = Unit::spawn(Kind::Squad, UnitId(3), Faction::Warden, at(0.4, 0.6), 12, h);
    assert_eq!(s.kind(), Kind::Squad);
    assert_eq!(s.size(), Some(12));
    assert_eq!(s.heading(), None);
    let t = Unit::spawn(Kind::Tank, UnitId(4), Faction::Neutral, at(0.5, 0.5), 1, h);
    assert_eq!(t.kind(), Kind::Tank);
    assert_eq!(t.heading(), Some(h));
}

#[test]
fn rules_per_kind() {
    let r = rules_for(&boat([0.5, 0.5]));
    assert!(r.allow_water);
    assert_eq!(r.max_slope, F32Bits(NO_SLOPE_LIMIT_BITS));
    assert_eq!(f32::from_bits(r.max_slope.0), f32::INFINITY);
    let r = rules_for(&tank([0.5, 0.5]));
    assert!(!r.allow_water);
    assert_eq!(f32::from_bits(r.max_slope.0), 0.4);
    assert_eq!(r.max_slope.0, TANK_MAX_SLOPE_BITS);
    let squad = Unit::spawn(Kind::Squad, UnitId(0), Faction::Warden, at(0.5, 0.5), 9, F32Bits(0));
    let r = rules_for(&squad);
    assert!(!r.allow_water);
    assert_eq!(f32::from_bits(r.max_slope.0), 0.8);
    assert_eq!(r.max_slope.0, SQUAD_MAX_SLOPE_BITS);
}

#[test]
fn boats_float_tanks_dont() {
    assert!(validate_placement(&boat([0.5, 0.5]), &WATER_SITE).is_ok());
    assert_eq!(validate_placement(&tank([0.5, 0.5]), &WATER_SITE), Err(PlaceError::Water));
}

#[test]
fn out_of_bounds_rejected() {
    // [1.5, 0.5] lies outside the hexagon: the survey says so.
    let outside = Site { in_hex: false, water: true, too_steep: false };
    assert_eq!(validate_placement(&boat([1.5, 0.5]), &outside), Err(PlaceError::OutOfBounds));
}

#[test]
fn hex_containment_rejects_clipped_corners() {
    // A unit dropped in a clipped corner ([0, 0]) is OutOfBounds, not Water/Cliff,
    // whatever the ground there.
    let corner = Site { in_hex: false, water: true, too_steep: true };
    assert_eq!(validate_placement(&boat([0.0, 0.0]), &corner), Err(PlaceError::OutOfBounds));
    assert_eq!(validate_placement(&tank([0.0, 0.0]), &corner), Err(PlaceError::OutOfBounds));
}

#[test]
fn steep_ground_is_a_cliff() {
    let steep = Site { in_hex: true, water: false, too_steep: true };
    assert_eq!(validate_placement(&tank([0.5, 0.5]), &steep), Err(PlaceError::Cliff));
    // water is reported before the slope for units that may not swim
    let steep_water = Site { in_hex: true, water: true, too_steep: true };
    assert_eq!(validate_placement(&tank([0.5, 0.5]), &steep_water), Err(PlaceError::Water));
    assert_eq!(validate_placement(&boat([0.5, 0.5]), &steep_water), Err(PlaceError::Cliff));
}

#[test]
fn place_then_occupancy_blocks_neighbour() {
    let mut world = World::default();
    assert!(place(&mut world, boat([0.5, 0.5]), &LAND_SITE, false).is_ok());
    assert_eq!(world.units.len(), 1);
    // A second unit right on top ([0.505, 0.5]) is rejected...
    assert_eq!(place(&mut world, tank([0.505, 0.5]), &LAND_SITE, true), Err(PlaceError::Occupied));
    assert_eq!(world.units.len(), 1);
    // ...but one comfortably clear ([0.7, 0.7]) is fine.
    assert_eq!(place(&mut world, tank([0.7, 0.7]), &LAND_SITE, false), Ok(UnitId(2)));
    assert_eq!(world.units.len(), 2);
    assert_eq!(world.units[1].pos(), at(0.7, 0.7));
}

#[test]
fn place_error_labels() {
    assert_eq!(PlaceError::OutOfBounds.label(), "OutOfBounds");
    assert_eq!(PlaceError::Water.label(), "Water");
    assert_eq!(PlaceError::Cliff.label(), "Cliff");
    assert_eq!(PlaceError::Occupied.label(), format!("{:?}", PlaceError::Occupied));
}

#[test]
fn material_and_height_round_trip() {
    // The 2x2 grid's codes [0, 2, 2, 3]: NW water, SE rock.
    assert_eq!(Material::from_code(0), Material::Water);
    assert_eq!(Material::from_code(3), Material::Rock);
    assert_eq!(Material::from_code(2), Material::Road);
}

// A session over a 2x2 grid: NW corner water and flat,
// everything else dry sand, SE raised. The terrain facts below are what that
// grid gives at each point.
fn load() -> Session<&'static str> {
    let mut s = Session::new();
    let r = s.dispatch(Command::LoadArtifact { grid: "2x2" });
    assert!(r.ok);
    s
}

fn place_cmd(kind: Kind, faction: Faction, pos: [f32; 2], site: Site, occupied: bool) -> Command<&'static str> {
    Command::Place {
        kind,
        faction,
        at: at(pos[0], pos[1]),
        size: default_size(),
        heading: F32Bits(0),
        site,
        occupied,
    }
}

#[test]
fn place_squad_on_land_ok_tank_on_water_rejected() {
    let mut s = load();
    // squad on dry interior ground (SE-ish, inside the hex)
    let r = s.dispatch(place_cmd(Kind::Squad, Faction::Warden, [0.5, 0.8], LAND_SITE, false));
    assert!(r.ok && r.id == Some(0));
    // tank on an interior water cell (NW-ish) -> rejected
    let r = s.dispatch(place_cmd(Kind::Tank, Faction::Colonial, [0.3, 0.3], WATER_SITE, false));
    assert!(!r.ok && r.error.as_deref() == Some("Water"));
    // boat on the same water -> ok
    let r = s.dispatch(place_cmd(Kind::Boat, Faction::Colonial, [0.3, 0.3], WATER_SITE, false));
    assert!(r.ok);
    assert_eq!(r.id, Some(1));
    // clipped corner -> OutOfBounds, not Water
    let corner = Site { in_hex: false, water: true, too_steep: false };
    let r = s.dispatch(place_cmd(Kind::Boat, Faction::Colonial, [0.0, 0.0], corner, false));
    assert!(!r.ok && r.error.as_deref() == Some("OutOfBounds"));
    assert_eq!(s.next_id(), 2);
    assert_eq!(s.units().len(), 2);
}

#[test]
fn line_of_sight_command() {
    let mut s = load();
    let r = s.dispatch(Command::LineOfSight { from: at(0.4, 0.5), to: at(0.6, 0.5), visible: true });
    assert!(r.ok && r.visible == Some(true));
    let r = s.dispatch(Command::LineOfSight { from: at(0.4, 0.5), to: at(0.6, 0.5), visible: false });
    assert!(r.ok && r.visible == Some(false));
}

fn units_of(r: &Response) -> usize {
    r.units.as_ref().map(|u| u.len()).unwrap_or(usize::MAX)
}

#[test]
fn list_and_clear() {
    let mut s = load();
    s.dispatch(place_cmd(Kind::Squad, Faction::Warden, [0.5, 0.8], LAND_SITE, false));
    let r = s.dispatch(Command::List);
    let units = r.units.as_ref().unwrap();
    assert_eq!(units.len(), 1);
    assert_eq!(units[0].kind, Kind::Squad);
    assert_eq!(units[0].faction, Faction::Warden);
    assert_eq!(units[0].size, Some(9));
    assert_eq!(units[0].heading, None);
    let r = s.dispatch(Command::Clear);
    assert!(r.ok);
    let r = s.dispatch(Command::List);
    assert_eq!(units_of(&r), 0);
}

#[test]
fn no_terrain_refuses_terrain_commands() {
    let mut s: Session<u8> = Session::new();
    let r = s.dispatch(place_cmd_u8());
    assert!(!r.ok && r.error.as_deref() == Some("no terrain loaded"));
    let r = s.dispatch(Command::Validate { kind: Kind::Boat, at: at(0.5, 0.5), site: LAND_SITE });
    assert!(!r.ok && r.error.as_deref() == Some("no terrain loaded") && r.valid.is_none());
    let r = s.dispatch(Command::LineOfSight { from: at(0.1, 0.1), to: at(0.2, 0.2), visible: true });
    assert!(!r.ok && r.visible.is_none());
    assert_eq!(s.next_id(), 0);
    assert!(s.units().is_empty());
    assert!(s.grid().is_none());
    // list/remove/clear work without terrain
    assert!(s.dispatch(Command::List).ok);
    assert!(s.dispatch(Command::Clear).ok);
}

fn place_cmd_u8() -> Command<u8> {
    Command::Place {
        kind: Kind::Squad,
        faction: Faction::Warden,
        at: at(0.5, 0.5),
        size: 9,
        heading: F32Bits(0),
        site: LAND_SITE,
        occupied: false,
    }
}

#[test]
fn validate_reports_verdict() {
    let mut s = load();
    let r = s.dispatch(Command::Validate { kind: Kind::Tank, at: at(0.3, 0.3), site: WATER_SITE });
    assert!(r.ok && r.valid == Some(false) && r.error.as_deref() == Some("Water"));
    let r = s.dispatch(Command::Validate { kind: Kind::Boat, at: at(0.3, 0.3), site: WATER_SITE });
    assert!(r.ok && r.valid == Some(true) && r.error.is_none());
    assert!(s.units().is_empty());
}

#[test]
fn remove_undoes_place_and_ids_stay_unique() {
    let mut s = load();
    for i in 0..3 {
        let r = s.dispatch(place_cmd(Kind::Squad, Faction::Warden, [0.2 + 0.2 * i as f32, 0.5], LAND_SITE, false));
        assert_eq!(r.id, Some(i));
    }
    let r = s.dispatch(Command::Remove { id: 1 });
    assert!(r.ok);
    let ids: Vec<u32> = s.units().iter().map(|u| u.id().0).collect();
    assert_eq!(ids, vec![0, 2]);
    // removing it again: no such unit, nothing changes
    let r = s.dispatch(Command::Remove { id: 1 });
    assert!(!r.ok && r.error.as_deref() == Some("no such unit"));
    assert_eq!(s.units().len(), 2);
    // ids are never reused
    let r = s.dispatch(place_cmd(Kind::Boat, Faction::Neutral, [0.3, 0.3], WATER_SITE, false));
    assert_eq!(r.id, Some(3));
    let r = s.dispatch(Command::Remove { id: 3 });
    assert!(r.ok);
    let ids: Vec<u32> = s.units().iter().map(|u| u.id().0).collect();
    assert_eq!(ids, vec![0, 2]);
}

#[test]
fn failed_place_keeps_counter() {
    let mut s = load();
    let r = s.dispatch(place_cmd(Kind::Tank, Faction::Warden, [0.5, 0.5], LAND_SITE, true));
    assert!(!r.ok && r.error.as_deref() == Some("Occupied"));
    assert_eq!(s.next_id(), 0);
    let r = s.dispatch(place_cmd(Kind::Tank, Faction::Warden, [0.5, 0.5], LAND_SITE, false));
    assert_eq!(r.id, Some(0));
}

#[test]
fn reload_keeps_units() {
    let mut s = load();
    s.dispatch(place_cmd(Kind::Squad, Faction::Warden, [0.5, 0.8], LAND_SITE, false));
    let r = s.dispatch(Command::LoadArtifact { grid: "other" });
    assert!(r.ok);
    assert_eq!(s.grid(), Some(&"other"));
    assert_eq!(s.units().len(), 1);
}

#[test]
fn unit_dto_flattens() {
    let u = Unit::spawn(Kind::Tank, UnitId(5), Faction::Colonial, at(0.25, 0.75), 3, F32Bits(2));
    let d = opengine_core::wargame::session::UnitDto::from(&u);
    assert_eq!(d.id, 5);
    assert_eq!(d.kind, Kind::Tank);
    assert_eq!(d.faction, Faction::Colonial);
    assert_eq!(d.pos, at(0.25, 0.75));
    assert_eq!(d.size, None);
    assert_eq!(d.heading, Some(F32Bits(2)));
}
