//! Interactive session: the command layer the browser drives. One `Session`
//! holds the loaded terrain grid and the placed `World` across commands.
//!
//! The grid itself is the caller's type `G`; commands that depend on the
//! terrain carry what the caller measured on the session's grid (a `Site`, an
//! occupancy flag, a line-of-sight answer), and the session decides from them.

use vstd::prelude::*;
use crate::wargame::placement::{
    place, spec_place, spec_validate, validate_placement, Site, World,
};
use crate::wargame::units::{F32Bits, Faction, Kind, Unit, UnitId};

verus! {

/// Squad strength of a `Place` command that names none.
pub fn default_size() -> (n: u8)
    ensures
        n == 9,
{
    9
}

/// A command from the UI.
pub enum Command<G> {
    /// Load the baked terrain grid for queries.
    LoadArtifact { grid: G },
    /// Preview whether a unit of `kind` could be placed at `at` (hover
    /// feedback); `site` is the terrain measured there for that kind.
    Validate { kind: Kind, at: [F32Bits; 2], site: Site },
    /// Place a unit; `site` is the terrain measured at `at` for `kind`, and
    /// `occupied` whether a placed unit stands within the minimum separation.
    Place {
        kind: Kind,
        faction: Faction,
        at: [F32Bits; 2],
        size: u8,
        heading: F32Bits,
        site: Site,
        occupied: bool,
    },
    /// All placed units.
    List,
    /// Remove every unit with this id.
    Remove { id: u32 },
    /// Remove all units.
    Clear,
    /// Whether an observer at `from` can see a target at `to`; `visible` is
    /// the sight line marched over the session's grid.
    LineOfSight { from: [F32Bits; 2], to: [F32Bits; 2], visible: bool },
}

/// A unit flattened for the wire.
#[derive(Clone, Copy, Debug)]
pub struct UnitDto {
    pub id: u32,
    pub kind: Kind,
    pub faction: Faction,
    pub pos: [F32Bits; 2],
    pub size: Option<u8>,
    pub heading: Option<F32Bits>,
}

pub open spec fn dto_of(u: Unit) -> UnitDto {
    UnitDto {
        id: u.spec_id().0,
        kind: u.spec_kind(),
        faction: u.spec_faction(),
        pos: u.spec_pos(),
        size: u.spec_size(),
        heading: u.spec_heading(),
    }
}

impl UnitDto {
    /// Flatten a unit: its id number, kind, faction, position, and the squad
    /// size or vehicle heading where the kind has one.
    pub fn from_unit(u: &Unit) -> (d: UnitDto)
        ensures
            d == dto_of(*u),
    {
        UnitDto {
            id: u.id().0,
            kind: u.kind(),
            faction: u.faction(),
            pos: u.pos(),
            size: u.size(),
            heading: u.heading(),
        }
    }
}

impl<'a> From<&'a Unit> for UnitDto {
    fn from(u: &'a Unit) -> (d: UnitDto) {
        UnitDto::from_unit(u)
    }
}

impl<'a> vstd::std_specs::convert::FromSpecImpl<&'a Unit> for UnitDto {
    open spec fn obeys_from_spec() -> bool {
        true
    }

    open spec fn from_spec(u: &'a Unit) -> UnitDto {
        dto_of(*u)
    }
}

/// The response envelope. Only the fields relevant to a command are set.
pub struct Response {
    pub ok: bool,
    pub error: Option<String>,
    pub id: Option<u32>,
    pub valid: Option<bool>,
    pub visible: Option<bool>,
    pub units: Option<Vec<UnitDto>>,
}

/// A response as plain values.
pub struct ResponseView {
    pub ok: bool,
    pub error: Option<Seq<char>>,
    pub id: Option<u32>,
    pub valid: Option<bool>,
    pub visible: Option<bool>,
    pub units: Option<Seq<UnitDto>>,
}

impl View for Response {
    type V = ResponseView;

    open spec fn view(&self) -> ResponseView {
        ResponseView {
            ok: self.ok,
            error: match self.error {
                Some(s) => Some(s@),
                None => None,
            },
            id: self.id,
            valid: self.valid,
            visible: self.visible,
            units: match self.units {
                Some(v) => Some(v@),
                None => None,
            },
        }
    }
}

/// `ok: true` and nothing else.
pub open spec fn reply_ok() -> ResponseView {
    ResponseView { ok: true, error: None, id: None, valid: None, visible: None, units: None }
}

/// `ok: false` with an error message and nothing else.
pub open spec fn reply_err(msg: Seq<char>) -> ResponseView {
    ResponseView { ok: false, error: Some(msg), id: None, valid: None, visible: None, units: None }
}

pub open spec fn no_terrain_msg() -> Seq<char> {
    "no terrain loaded"@
}

pub open spec fn no_such_unit_msg() -> Seq<char> {
    "no such unit"@
}

fn reply_ok_exec() -> (r: Response)
    ensures
        r@ == reply_ok(),
{
    Response { ok: true, error: None, id: None, valid: None, visible: None, units: None }
}

fn reply_err_exec(msg: String) -> (r: Response)
    ensures
        r@ == reply_err(msg@),
{
    Response { ok: false, error: Some(msg), id: None, valid: None, visible: None, units: None }
}

/// Holds the loaded terrain and the placed units across commands.
pub struct Session<G> {
    grid: Option<G>,
    world: World,
    next_id: u32,
}

/// A session as plain values: the loaded grid, the placed units in placing
/// order, and the id the next placed unit gets.
pub struct SessionView<G> {
    pub grid: Option<G>,
    pub units: Seq<Unit>,
    pub next_id: u32,
}

impl<G> View for Session<G> {
    type V = SessionView<G>;

    closed spec fn view(&self) -> SessionView<G> {
        SessionView { grid: self.grid, units: self.world.units@, next_id: self.next_id }
    }
}

/// Keep the units whose id is not `id`.
pub open spec fn keeps(id: u32) -> spec_fn(Unit) -> bool {
    |u: Unit| u.spec_id().0 != id
}

/// Some unit in `units` has id `id`.
pub open spec fn has_id(units: Seq<Unit>, id: u32) -> bool {
    exists|j: int| 0 <= j < units.len() && (#[trigger] units[j]).spec_id().0 == id
}

/// The probe a `Validate` command checks: a neutral unit of the kind, id 0,
/// strength 1, heading 0.
pub open spec fn probe(kind: Kind, at: [F32Bits; 2]) -> Unit {
    Unit::spec_spawn(kind, UnitId(0), Faction::Neutral, at, 1, F32Bits(0))
}

/// What one command does to a session and what it answers.
pub open spec fn spec_dispatch<G>(s: SessionView<G>, cmd: Command<G>) -> (SessionView<G>, ResponseView) {
    match cmd {
        Command::LoadArtifact { grid } => (
            SessionView { grid: Some(grid), units: s.units, next_id: s.next_id },
            reply_ok(),
        ),
        Command::Validate { kind, at, site } => match s.grid {
            None => (s, reply_err(no_terrain_msg())),
            Some(_) => (
                s,
                match spec_validate(probe(kind, at), site) {
                    Ok(_) => ResponseView {
                        ok: true,
                        error: None,
                        id: None,
                        valid: Some(true),
                        visible: None,
                        units: None,
                    },
                    Err(e) => ResponseView {
                        ok: true,
                        error: Some(e.spec_label()),
                        id: None,
                        valid: Some(false),
                        visible: None,
                        units: None,
                    },
                },
            ),
        },
        Command::Place { kind, faction, at, size, heading, site, occupied } => match s.grid {
            None => (s, reply_err(no_terrain_msg())),
            Some(_) => {
                let unit = Unit::spec_spawn(kind, UnitId(s.next_id), faction, at, size, heading);
                match spec_place(unit, site, occupied) {
                    Ok(id) => (
                        SessionView {
                            grid: s.grid,
                            units: s.units.push(unit),
                            next_id: (s.next_id + 1) as u32,
                        },
                        ResponseView {
                            ok: true,
                            error: None,
                            id: Some(id.0),
                            valid: None,
                            visible: None,
                            units: None,
                        },
                    ),
                    Err(e) => (s, reply_err(e.spec_label())),
                }
            },
        },
        Command::List => (
            s,
            ResponseView {
                ok: true,
                error: None,
                id: None,
                valid: None,
                visible: None,
                units: Some(s.units.map_values(|u: Unit| dto_of(u))),
            },
        ),
        Command::Remove { id } => (
            SessionView { grid: s.grid, units: s.units.filter(keeps(id)), next_id: s.next_id },
            if has_id(s.units, id) {
                reply_ok()
            } else {
                reply_err(no_such_unit_msg())
            },
        ),
        Command::Clear => (
            SessionView { grid: s.grid, units: Seq::empty(), next_id: s.next_id },
            reply_ok(),
        ),
        Command::LineOfSight { from, to, visible } => match s.grid {
            None => (s, reply_err(no_terrain_msg())),
            Some(_) => (
                s,
                ResponseView {
                    ok: true,
                    error: None,
                    id: None,
                    valid: None,
                    visible: Some(visible),
                    units: None,
                },
            ),
        },
    }
}

/// The command is a `Place` that succeeds (and so takes the next id).
pub open spec fn place_succeeds<G>(s: SessionView<G>, cmd: Command<G>) -> bool {
    match cmd {
        Command::Place { kind, faction, at, size, heading, site, occupied } => {
            &&& s.grid is Some
            &&& spec_place(
                Unit::spec_spawn(kind, UnitId(s.next_id), faction, at, size, heading),
                site,
                occupied,
            ) is Ok
        },
        _ => false,
    }
}

/// Removing the units with `id` shortens the list exactly when one has it.
proof fn lemma_filter_shrinks(units: Seq<Unit>, id: u32)
    ensures
        units.filter(keeps(id)).len() <= units.len(),
        units.filter(keeps(id)).len() < units.len() <==> has_id(units, id),
    decreases units.len(),
{
    if units.len() == 0 {
        reveal(Seq::filter);
    } else {
        let rest = units.drop_last();
        let last = units.last();
        lemma_filter_shrinks(rest, id);
        assert(rest.push(last) =~= units);
        rest.lemma_filter_push(last, keeps(id));
        if has_id(rest, id) {
            let j = choose|j: int| 0 <= j < rest.len() && (#[trigger] rest[j]).spec_id().0 == id;
            assert(units[j] == rest[j]);
        }
        if has_id(units, id) {
            let j = choose|j: int| 0 <= j < units.len() && (#[trigger] units[j]).spec_id().0 == id;
            if j < rest.len() {
                assert(rest[j] == units[j]);
            }
        }
    }
}

/// Ids increase strictly in placing order.
pub open spec fn ids_increasing(units: Seq<Unit>) -> bool {
    forall|i: int, j: int|
        0 <= i < j < units.len() ==> (#[trigger] units[i]).spec_id().0 < (#[trigger] units[j]).spec_id().0
}

/// Every id is below `bound`.
pub open spec fn ids_below(units: Seq<Unit>, bound: int) -> bool {
    forall|i: int| 0 <= i < units.len() ==> (#[trigger] units[i]).spec_id().0 < bound
}

/// The session's id discipline: placed units carry strictly increasing ids,
/// all below the id the next placed unit gets. No two units share an id.
pub open spec fn ids_well_ordered<G>(s: SessionView<G>) -> bool {
    ids_increasing(s.units) && ids_below(s.units, s.next_id as int)
}

proof fn lemma_filter_keeps_order(units: Seq<Unit>, id: u32, bound: int)
    requires
        ids_increasing(units),
        ids_below(units, bound),
    ensures
        ids_increasing(units.filter(keeps(id))),
        ids_below(units.filter(keeps(id)), bound),
    decreases units.len(),
{
    reveal(Seq::filter);
    if units.len() > 0 {
        let rest = units.drop_last();
        let last = units.last();
        assert(rest.push(last) =~= units);
        assert forall|i: int| 0 <= i < rest.len() implies (#[trigger] rest[i]).spec_id().0 < last.spec_id().0 by {
            assert(units[i] == rest[i]);
        }
        lemma_filter_keeps_order(rest, id, last.spec_id().0 as int);
        rest.lemma_filter_push(last, keeps(id));
    }
}

proof fn lemma_filter_keeps_all(units: Seq<Unit>, id: u32)
    requires
        !has_id(units, id),
    ensures
        units.filter(keeps(id)) == units,
    decreases units.len(),
{
    reveal(Seq::filter);
    if units.len() > 0 {
        let rest = units.drop_last();
        let last = units.last();
        assert(rest.push(last) =~= units);
        if has_id(rest, id) {
            let j = choose|j: int| 0 <= j < rest.len() && (#[trigger] rest[j]).spec_id().0 == id;
            assert(units[j] == rest[j]);
        }
        lemma_filter_keeps_all(rest, id);
        rest.lemma_filter_push(last, keeps(id));
        assert(units.len() - 1 < units.len());
        assert(units[units.len() - 1] == last);
    }
}

/// Law: a new session keeps the id discipline, and every command keeps it.
/// Hence no two placed units ever share an id.
pub proof fn lemma_dispatch_keeps_ids_well_ordered<G>(s: SessionView<G>, cmd: Command<G>)
    requires
        ids_well_ordered(s),
        place_succeeds(s, cmd) ==> s.next_id < u32::MAX,
    ensures
        ids_well_ordered(spec_dispatch(s, cmd).0),
{
    match cmd {
        Command::Remove { id } => {
            lemma_filter_keeps_order(s.units, id, s.next_id as int);
        },
        Command::Place { kind, faction, at, size, heading, site, occupied } => {
            if place_succeeds(s, cmd) {
                let unit = Unit::spec_spawn(kind, UnitId(s.next_id), faction, at, size, heading);
                let post = spec_dispatch(s, cmd).0;
                assert(post.units == s.units.push(unit));
                assert forall|i: int| 0 <= i < post.units.len() implies (#[trigger] post.units[i]).spec_id().0 < post.next_id by {
                    if i < s.units.len() {
                        assert(post.units[i] == s.units[i]);
                    }
                }
                assert forall|i: int, j: int| 0 <= i < j < post.units.len() implies
                    (#[trigger] post.units[i]).spec_id().0 < (#[trigger] post.units[j]).spec_id().0 by {
                    assert(post.units[i] == s.units[i]);
                    if j < s.units.len() {
                        assert(post.units[j] == s.units[j]);
                    }
                }
            }
        },
        _ => {},
    }
}

/// Law: a successful `Place` answers with the id the session was about to
/// hand out, appends the unit and advances the counter; a `Remove` of that id
/// then gives back exactly the units that stood before.
pub proof fn lemma_remove_undoes_place<G>(s: SessionView<G>, cmd: Command<G>)
    requires
        ids_well_ordered(s),
        place_succeeds(s, cmd),
        s.next_id < u32::MAX,
    ensures
        spec_dispatch(s, cmd).1.ok,
        spec_dispatch(s, cmd).1.id == Some(s.next_id),
        spec_dispatch(s, cmd).0.next_id == s.next_id + 1,
        spec_dispatch(s, cmd).0.units.len() == s.units.len() + 1,
        spec_dispatch(spec_dispatch(s, cmd).0, Command::Remove { id: s.next_id }).1 == reply_ok(),
        spec_dispatch(spec_dispatch(s, cmd).0, Command::Remove { id: s.next_id }).0.units == s.units,
{
    let post = spec_dispatch(s, cmd).0;
    let id = s.next_id;
    let unit = post.units.last();
    assert(post.units == s.units.push(unit));
    assert(post.units[post.units.len() - 1] == unit);
    assert(has_id(post.units, id));
    assert(!has_id(s.units, id));
    s.units.lemma_filter_push(unit, keeps(id));
    lemma_filter_keeps_all(s.units, id);
}

/// Law: after `Clear`, `List` answers an empty unit list; the grid and the id
/// counter are untouched.
pub proof fn lemma_clear_then_list_is_empty<G>(s: SessionView<G>)
    ensures
        spec_dispatch(spec_dispatch(s, Command::Clear).0, Command::List).1.units == Some(Seq::<UnitDto>::empty()),
        spec_dispatch(s, Command::Clear).0.grid == s.grid,
        spec_dispatch(s, Command::Clear).0.next_id == s.next_id,
{
    let cleared = spec_dispatch(s, Command::Clear).0;
    assert(cleared.units.map_values(|u: Unit| dto_of(u)) =~= Seq::<UnitDto>::empty());
}

/// Law: before any terrain is loaded, every command that needs it answers
/// "no terrain loaded" and changes nothing.
pub proof fn lemma_no_terrain_refuses<G>(s: SessionView<G>, cmd: Command<G>)
    requires
        s.grid is None,
        cmd is Validate || cmd is Place || cmd is LineOfSight,
    ensures
        spec_dispatch(s, cmd) == (s, reply_err(no_terrain_msg())),
{
}

/// Law: a `Place` that fails answers `ok: false` with the failure's name and
/// changes nothing; the id counter does not move.
pub proof fn lemma_failed_place_changes_nothing<G>(s: SessionView<G>, cmd: Command<G>)
    requires
        cmd is Place,
        !place_succeeds(s, cmd),
    ensures
        spec_dispatch(s, cmd).0 == s,
        !spec_dispatch(s, cmd).1.ok,
{
}

/// Law: `Remove` of an id that no unit has answers "no such unit" and leaves
/// the units as they were.
pub proof fn lemma_remove_missing_changes_nothing<G>(s: SessionView<G>, id: u32)
    requires
        !has_id(s.units, id),
    ensures
        spec_dispatch(s, Command::Remove { id }).0 == s,
        spec_dispatch(s, Command::Remove { id }).1 == reply_err(no_such_unit_msg()),
{
    lemma_filter_keeps_all(s.units, id);
}

/// Law: `Validate`, `List` and `LineOfSight` only read the session.
pub proof fn lemma_queries_read_only<G>(s: SessionView<G>, cmd: Command<G>)
    requires
        cmd is Validate || cmd is List || cmd is LineOfSight,
    ensures
        spec_dispatch(s, cmd).0 == s,
{
}

/// Law: a successful `Place` appends exactly the commanded unit: the units
/// that stood before keep their places, and the new last unit has the
/// commanded kind, faction and position, the id the session was about to hand
/// out, and the commanded size (a squad) or heading (a vehicle).
pub proof fn lemma_place_appends_commanded_unit<G>(
    s: SessionView<G>,
    kind: Kind,
    faction: Faction,
    at: [F32Bits; 2],
    size: u8,
    heading: F32Bits,
    site: Site,
    occupied: bool,
)
    requires
        place_succeeds(s, Command::Place { kind, faction, at, size, heading, site, occupied }),
        s.next_id < u32::MAX,
    ensures
        ({
            let post = spec_dispatch(s, Command::Place { kind, faction, at, size, heading, site, occupied }).0;
            let u = post.units[post.units.len() - 1];
            &&& post.units.len() == s.units.len() + 1
            &&& post.units.drop_last() == s.units
            &&& u.spec_kind() == kind
            &&& u.spec_faction() == faction
            &&& u.spec_pos() == at
            &&& u.spec_id() == UnitId(s.next_id)
            &&& u.spec_size() == (if kind == Kind::Squad { Some(size) } else { None })
            &&& u.spec_heading() == (if kind == Kind::Squad { None } else { Some(heading) })
            &&& post.next_id == s.next_id + 1
        }),
{
    let post = spec_dispatch(s, Command::Place { kind, faction, at, size, heading, site, occupied }).0;
    assert(post.units.drop_last() =~= s.units);
}

/// Law: with terrain loaded, `Validate` answers `valid: Some(true)` exactly
/// when the point is inside the hexagon, the ground is not water (unless the
/// unit is a boat) and not too steep; a refusal names the first failing
/// fact. `Validate` always answers `ok: true` and never an id.
pub proof fn lemma_validate_answers_verdict<G>(s: SessionView<G>, kind: Kind, at: [F32Bits; 2], site: Site)
    requires
        s.grid is Some,
    ensures
        ({
            let r = spec_dispatch(s, Command::Validate { kind, at, site }).1;
            &&& r.ok
            &&& r.id is None
            &&& r.valid == Some(site.in_hex && (kind == Kind::Boat || !site.water) && !site.too_steep)
            &&& (!site.in_hex ==> r.error == Some("OutOfBounds"@))
            &&& (site.in_hex && kind != Kind::Boat && site.water ==> r.error == Some("Water"@))
            &&& (site.in_hex && (kind == Kind::Boat || !site.water) && site.too_steep ==> r.error == Some("Cliff"@))
            &&& (r.valid == Some(true) ==> r.error is None)
        }),
{
}

/// Law: `Validate` previews `Place`: on the same site, for the same kind, a
/// free drop is placed exactly when `Validate` calls it valid, and a refused
/// drop is refused for the reason `Validate` reports.
pub proof fn lemma_validate_agrees_with_place<G>(
    s: SessionView<G>,
    kind: Kind,
    faction: Faction,
    at: [F32Bits; 2],
    size: u8,
    heading: F32Bits,
    site: Site,
)
    requires
        s.grid is Some,
    ensures
        ({
            let v = spec_dispatch(s, Command::Validate { kind, at, site }).1;
            let p = spec_dispatch(s, Command::Place { kind, faction, at, size, heading, site, occupied: false }).1;
            &&& (v.valid == Some(true) <==> p.ok)
            &&& (v.valid == Some(false) ==> p.error == v.error)
        }),
{
}

/// Law: `List` answers the placed units in placing order, each entry carrying
/// that unit's own id, kind, faction and position; and every listed id can
/// be removed (the `Remove` answers `ok`).
pub proof fn lemma_list_reports_units<G>(s: SessionView<G>)
    ensures
        ({
            let r = spec_dispatch(s, Command::List).1;
            &&& r.ok
            &&& r.units is Some
            &&& r.units.unwrap().len() == s.units.len()
            &&& forall|j: int| 0 <= j < s.units.len() ==> {
                let d = #[trigger] r.units.unwrap()[j];
                &&& d.id == s.units[j].spec_id().0
                &&& d.kind == s.units[j].spec_kind()
                &&& d.faction == s.units[j].spec_faction()
                &&& d.pos == s.units[j].spec_pos()
                &&& spec_dispatch(s, Command::Remove { id: d.id }).1 == reply_ok()
            }
        }),
{
    let r = spec_dispatch(s, Command::List).1;
    assert forall|j: int| 0 <= j < s.units.len() implies {
        let d = #[trigger] r.units.unwrap()[j];
        spec_dispatch(s, Command::Remove { id: d.id }).1 == reply_ok()
    } by {
        let d = r.units.unwrap()[j];
        assert(d.id == s.units[j].spec_id().0);
        assert(has_id(s.units, d.id));
    }
}

impl<G> Session<G> {
    /// A session with no terrain, no units, and ids starting at 0.
    pub fn new() -> (s: Session<G>)
        ensures
            s@.grid is None,
            s@.units == Seq::<Unit>::empty(),
            s@.next_id == 0,
            ids_well_ordered(s@),
    {
        Session { grid: None, world: World::new(), next_id: 0 }
    }

    /// The loaded terrain grid, if any.
    pub fn grid(&self) -> (g: Option<&G>)
        ensures
            g == (match self@.grid {
                Some(x) => Some(&x),
                None => None::<&G>,
            }),
    {
        match &self.grid {
            Some(x) => Some(x),
            None => None,
        }
    }

    /// The placed units, in placing order.
    pub fn units(&self) -> (u: &Vec<Unit>)
        ensures
            u@ == self@.units,
    {
        &self.world.units
    }

    /// The id the next placed unit gets.
    pub fn next_id(&self) -> (n: u32)
        ensures
            n == self@.next_id,
    {
        self.next_id
    }

    /// Run one command. The id counter only moves on a successful `Place`,
    /// which the caller must not issue once every id has been handed out.
    pub fn dispatch(&mut self, cmd: Command<G>) -> (r: Response)
        requires
            place_succeeds(old(self)@, cmd) ==> old(self)@.next_id < u32::MAX,
        ensures
            (final(self)@, r@) == spec_dispatch(old(self)@, cmd),
            ids_well_ordered(old(self)@) ==> ids_well_ordered(final(self)@),
    {
        proof {
            if ids_well_ordered(self@) {
                lemma_dispatch_keeps_ids_well_ordered(self@, cmd);
            }
        }
        match cmd {
            Command::LoadArtifact { grid } => {
                self.grid = Some(grid);
                reply_ok_exec()
            },
            Command::Validate { kind, at, site } => match &self.grid {
                None => reply_err_exec("no terrain loaded".to_owned()),
                Some(_) => {
                    let unit = Unit::spawn(kind, UnitId(0), Faction::Neutral, at, 1, F32Bits(0));
                    match validate_placement(&unit, &site) {
                        Ok(()) => Response {
                            ok: true,
                            error: None,
                            id: None,
                            valid: Some(true),
                            visible: None,
                            units: None,
                        },
                        Err(e) => Response {
                            ok: true,
                            error: Some(e.label()),
                            id: None,
                            valid: Some(false),
                            visible: None,
                            units: None,
                        },
                    }
                },
            },
            Command::Place { kind, faction, at, size, heading, site, occupied } => {
                match &self.grid {
                    None => {
                        return reply_err_exec("no terrain loaded".to_owned());
                    },
                    Some(_) => {},
                }
                let id = UnitId(self.next_id);
                let unit = Unit::spawn(kind, id, faction, at, size, heading);
                match place(&mut self.world, unit, &site, occupied) {
                    Ok(_) => {
                        self.next_id = self.next_id + 1;
                        Response {
                            ok: true,
                            error: None,
                            id: Some(id.0),
                            valid: None,
                            visible: None,
                            units: None,
                        }
                    },
                    Err(e) => reply_err_exec(e.label()),
                }
            },
            Command::List => {
                let mut out: Vec<UnitDto> = Vec::new();
                let n = self.world.units.len();
                let mut i: usize = 0;
                while i < n
                    invariant
                        n == self.world.units@.len(),
                        i <= n,
                        out@.len() == i,
                        forall|j: int| 0 <= j < i ==> #[trigger] out@[j] == dto_of(self.world.units@[j]),
                    decreases n - i,
                {
                    out.push(UnitDto::from_unit(&self.world.units[i]));
                    i = i + 1;
                }
                assert(out@ =~= self.world.units@.map_values(|u: Unit| dto_of(u)));
                Response {
                    ok: true,
                    error: None,
                    id: None,
                    valid: None,
                    visible: None,
                    units: Some(out),
                }
            },
            Command::Remove { id } => {
                let before = self.world.units.len();
                let mut kept: Vec<Unit> = Vec::new();
                let mut i: usize = 0;
                while i < before
                    invariant
                        before == self.world.units@.len(),
                        i <= before,
                        kept@ == self.world.units@.take(i as int).filter(keeps(id)),
                    decreases before - i,
                {
                    let u = self.world.units[i];
                    proof {
                        let s = self.world.units@;
                        assert(s.take(i + 1) =~= s.take(i as int).push(s[i as int]));
                        s.take(i as int).lemma_filter_push(s[i as int], keeps(id));
                    }
                    if u.id().0 != id {
                        kept.push(u);
                    }
                    i = i + 1;
                }
                proof {
                    assert(self.world.units@.take(before as int) =~= self.world.units@);
                    lemma_filter_shrinks(self.world.units@, id);
                }
                let shrank = kept.len() < before;
                self.world.units = kept;
                if shrank {
                    reply_ok_exec()
                } else {
                    reply_err_exec("no such unit".to_owned())
                }
            },
            Command::Clear => {
                self.world.units.clear();
                reply_ok_exec()
            },
            Command::LineOfSight { from, to, visible } => match &self.grid {
                None => reply_err_exec("no terrain loaded".to_owned()),
                Some(_) => Response {
                    ok: true,
                    error: None,
                    id: None,
                    valid: None,
                    visible: Some(visible),
                    units: None,
                },
            },
        }
    }
}

impl<G> Default for Session<G> {
    fn default() -> (s: Session<G>)
        ensures
            s@.grid is None,
            s@.units == Seq::<Unit>::empty(),
            s@.next_id == 0,
    {
        Session::new()
    }
}

} // verus!
