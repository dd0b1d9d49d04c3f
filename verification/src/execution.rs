use vstd::prelude::*;
use vstd::string::*;

use crate::farm::{Facility, FarmEvent, FieldZone, Robot};
use crate::grid::{in_clipped_rect, painted, position_of_index, FarmGrid, RectPaint};
use crate::inventory::Inventory;
use crate::map::MapFacilityDef;
use crate::model::{manhattan_distance, abs_diff, Capability, FacilityKind, RobotBody, RobotState, TerrainKind, TilePos};
use crate::simulation::{keep_last, GameSimulation};
use crate::text::{decimal, push_decimal};
use crate::textmap::text_eq;

verus! {

/// The upper-case form of a character (one or more characters).
pub uninterp spec fn uppercase_of(c: char) -> Seq<char>;

/// `char::to_uppercase`, collected into a text.
#[verifier::external_body]
fn char_to_uppercase(c: char) -> (r: String)
    ensures
        r@ == uppercase_of(c),
{
    c.to_uppercase().collect()
}

/// A text with its first character in upper case.
pub open spec fn title_case_spec(s: Seq<char>) -> Seq<char> {
    if s.len() == 0 {
        Seq::empty()
    } else {
        uppercase_of(s[0]) + s.drop_first()
    }
}

pub fn title_case(input: &str) -> (r: String)
    ensures
        r@ == title_case_spec(input@),
{
    let n = input.unicode_len();
    if n == 0 {
        return String::new();
    }
    let mut out = char_to_uppercase(input.get_char(0));
    out.append(input.substring_char(1, n));
    assert(input@.subrange(1, n as int) =~= input@.drop_first());
    out
}

/// The text of the event that announces a new field zone.
pub open spec fn zone_created_text(crop_id: Seq<char>, origin: TilePos) -> Seq<char> {
    "Created "@ + crop_id + " field at ("@ + decimal(origin.x as nat) + ", "@ + decimal(
        origin.y as nat,
    ) + ")"@
}

/// The event log after recording `event`.
pub open spec fn logged(events: Seq<FarmEvent>, event: FarmEvent) -> Seq<FarmEvent> {
    keep_last(events.push(event), 80)
}

/// What an event says, with its texts taken by their characters.
pub enum Notice {
    CropReady(TilePos),
    CropCritical(TilePos),
    RobotLowBattery(u64),
    RobotBroken(u64),
    StorageFull,
    WaterLow,
    PowerLow,
    ContractAccepted(Seq<char>),
    ContractNearDeadline(Seq<char>),
    ContractCompleted(Seq<char>),
    ContractFailed(Seq<char>),
    AutonomyTrialStarted,
    AutonomyTrialCompleted(u8),
    AiAction { actor: Seq<char>, message: Seq<char>, reason: Seq<char> },
    Info(Seq<char>),
}

pub open spec fn notice_of(e: FarmEvent) -> Notice {
    match e {
        FarmEvent::CropReady(p) => Notice::CropReady(p),
        FarmEvent::CropCritical(p) => Notice::CropCritical(p),
        FarmEvent::RobotLowBattery(id) => Notice::RobotLowBattery(id),
        FarmEvent::RobotBroken(id) => Notice::RobotBroken(id),
        FarmEvent::StorageFull => Notice::StorageFull,
        FarmEvent::WaterLow => Notice::WaterLow,
        FarmEvent::PowerLow => Notice::PowerLow,
        FarmEvent::ContractAccepted(s) => Notice::ContractAccepted(s@),
        FarmEvent::ContractNearDeadline(s) => Notice::ContractNearDeadline(s@),
        FarmEvent::ContractCompleted(s) => Notice::ContractCompleted(s@),
        FarmEvent::ContractFailed(s) => Notice::ContractFailed(s@),
        FarmEvent::AutonomyTrialStarted => Notice::AutonomyTrialStarted,
        FarmEvent::AutonomyTrialCompleted(score) => Notice::AutonomyTrialCompleted(score),
        FarmEvent::AiAction { actor, message, reason } => Notice::AiAction {
            actor: actor@,
            message: message@,
            reason: reason@,
        },
        FarmEvent::Info(s) => Notice::Info(s@),
    }
}

/// The event log after recording an event that says `notice`.
pub open spec fn logged_notice(before: Seq<FarmEvent>, after: Seq<FarmEvent>, notice: Notice) -> bool {
    exists|e: FarmEvent| after == #[trigger] logged(before, e) && notice_of(e) == notice
}

/// The event log after recording an information event with text `text`.
pub open spec fn logged_info(before: Seq<FarmEvent>, after: Seq<FarmEvent>, text: Seq<char>) -> bool {
    exists|e: FarmEvent| after == #[trigger] logged(before, e) && (e matches FarmEvent::Info(m) && m@ == text)
}

/// A spawn cell for a robot: on the grid, no building, no robot standing there,
/// and ground a robot of this body may stand on.
pub open spec fn spawn_candidate(sim: GameSimulation, p: TilePos, body: RobotBody, def_id: Seq<char>) -> bool {
    &&& sim.grid.in_bounds(p)
    &&& sim.grid.tile_at(p).building is None
    &&& forall|r: int| 0 <= r < sim.robots@.len() ==> #[trigger] sim.robots@[r].position != p
    &&& (body is Flying || {
        let t = sim.grid.tile_at(p);
        &&& !(t.terrain is Water || t.terrain is Rock || t.terrain is IrrigationChannel)
        &&& !(body is Wheeled && t.terrain is PaddyBund)
        &&& (!(body is Wheeled) || t.crop is None || def_id == "rice_harvester"@)
    })
}

/// Preference order of spawn cells: nearest first, then smaller row distance, then
/// smaller column distance, then lower row, then lower column.
pub open spec fn spawn_key_le(p: TilePos, q: TilePos, preferred: TilePos) -> bool {
    let kp = (manhattan_distance(p, preferred), abs_diff(p.y as int, preferred.y as int), abs_diff(p.x as int, preferred.x as int));
    let kq = (manhattan_distance(q, preferred), abs_diff(q.y as int, preferred.y as int), abs_diff(q.x as int, preferred.x as int));
    kp.0 < kq.0 || (kp.0 == kq.0 && (kp.1 < kq.1 || (kp.1 == kq.1 && (kp.2 < kq.2 || (kp.2 == kq.2
        && (p.y < q.y || (p.y == q.y && p.x <= q.x)))))))
}

proof fn lemma_spawn_key_order(p: TilePos, q: TilePos, c: TilePos, preferred: TilePos)
    ensures
        spawn_key_le(p, q, preferred) && spawn_key_le(q, c, preferred) ==> spawn_key_le(p, c, preferred),
        spawn_key_le(p, q, preferred) || spawn_key_le(q, p, preferred),
        spawn_key_le(p, p, preferred),
{
}

fn dist(a: u32, b: u32) -> (r: u64)
    ensures
        r == abs_diff(a as int, b as int),
{
    if a >= b {
        (a - b) as u64
    } else {
        (b - a) as u64
    }
}

/// Lexicographic `<` on spawn keys.
fn key_less(a: (u64, u64, u64, u32, u32), b: (u64, u64, u64, u32, u32)) -> (r: bool)
    ensures
        r == (a.0 < b.0 || (a.0 == b.0 && (a.1 < b.1 || (a.1 == b.1 && (a.2 < b.2 || (a.2 == b.2
            && (a.3 < b.3 || (a.3 == b.3 && a.4 < b.4)))))))),
{
    a.0 < b.0 || (a.0 == b.0 && (a.1 < b.1 || (a.1 == b.1 && (a.2 < b.2 || (a.2 == b.2 && (a.3 < b.3
        || (a.3 == b.3 && a.4 < b.4)))))))
}

impl GameSimulation {
    /// Records an event, keeping only the most recent ones.
    pub fn push_event(&mut self, event: FarmEvent)
        ensures
            final(self).events@ == logged(old(self).events@, event),
            final(self).version == old(self).version,
            final(self).seed == old(self).seed,
            final(self).catalog == old(self).catalog,
            final(self).map_id == old(self).map_id,
            final(self).map == old(self).map,
            final(self).grid == old(self).grid,
            final(self).clock == old(self).clock,
            final(self).weather == old(self).weather,
            final(self).credits == old(self).credits,
            final(self).reputation == old(self).reputation,
            final(self).inventory == old(self).inventory,
            final(self).robots == old(self).robots,
            final(self).facilities == old(self).facilities,
            final(self).zones == old(self).zones,
            final(self).jobs == old(self).jobs,
            final(self).contracts == old(self).contracts,
            final(self).current_contract == old(self).current_contract,
            final(self).npc_assignments == old(self).npc_assignments,
            final(self).metrics == old(self).metrics,
            final(self).autonomy_trial == old(self).autonomy_trial,
            final(self).world_revision == old(self).world_revision,
            final(self).next_entity_id == old(self).next_entity_id,
            final(self).next_job_id == old(self).next_job_id,
            final(self).next_zone_id == old(self).next_zone_id,
            final(self).next_command_id == old(self).next_command_id,
    {
        let ghost all = self.events@.push(event);
        let mut events: Vec<FarmEvent> = Vec::new();
        std::mem::swap(&mut events, &mut self.events);
        events.push(event);
        let ghost mut dropped: int = 0;
        while events.len() > 80
            invariant
                0 <= dropped,
                all.len() - dropped == events@.len(),
                events@ == all.subrange(dropped, all.len() as int),
                dropped > 0 ==> events@.len() >= 80,
            decreases events@.len(),
        {
            events.remove(0);
            proof {
                dropped = dropped + 1;
                assert(events@ =~= all.subrange(dropped, all.len() as int));
            }
        }
        self.events = events;
        assert(self.events@ =~= keep_last(all, 80));
    }
}

} // verus!

verus! {

/// `b` is `a` after laying out zone number `a.next_zone_id` over the rectangle:
/// the zone is appended, its cells are marked occupied and an event announces it;
/// nothing else changes.
pub open spec fn zone_created(
    a: GameSimulation,
    b: GameSimulation,
    origin: TilePos,
    size: (u32, u32),
    crop_id: Seq<char>,
    priority: u8,
) -> bool {
    let id = a.next_zone_id;
    &&& b == GameSimulation { zones: b.zones, grid: b.grid, events: b.events, next_zone_id: b.next_zone_id, ..a }
    &&& b.next_zone_id == id + 1
    &&& b.zones@.len() == a.zones@.len() + 1
    &&& forall|i: int| 0 <= i < a.zones@.len() ==> #[trigger] b.zones@[i] == a.zones@[i]
    &&& ({
        let z = b.zones@.last();
        &&& z.id == id
        &&& z.name@ == title_case_spec(crop_id) + " Zone "@ + decimal(id as nat)
        &&& z.origin == origin
        &&& z.size == size
        &&& z.crop_id@ == crop_id
        &&& z.priority == priority
        &&& z.manager is None
    })
    &&& b.grid.width == a.grid.width
    &&& b.grid.height == a.grid.height
    &&& b.grid.tiles@.len() == a.grid.tiles@.len()
    &&& forall|i: int|
        0 <= i < b.grid.tiles@.len() ==> #[trigger] b.grid.tiles@[i] == if in_clipped_rect(
            origin,
            size,
            a.grid.width,
            a.grid.height,
            position_of_index(a.grid.width, i),
        ) {
            painted(a.grid.tiles@[i], RectPaint::Occupied(true))
        } else {
            a.grid.tiles@[i]
        }
    &&& logged_info(a.events@, b.events@, zone_created_text(crop_id, origin))
}

impl GameSimulation {
    /// Lays out a field zone without checking the rules: a new zone with the next
    /// zone id, its cells marked occupied, and an event announcing it.
    pub fn create_zone_unchecked(
        &mut self,
        origin: TilePos,
        size: (u32, u32),
        crop_id: &str,
        priority: u8,
    ) -> (id: u64)
        requires
            old(self).wf(),
            old(self).next_zone_id < u64::MAX,
        ensures
            final(self).wf(),
            id == old(self).next_zone_id,
            zone_created(*old(self), *final(self), origin, size, crop_id@, priority),
    {
        let id = self.next_zone_id;
        self.next_zone_id = self.next_zone_id + 1;
        let mut name = title_case(crop_id);
        name.append(" Zone ");
        push_decimal(&mut name, id);
        self.zones.push(FieldZone {
            id,
            name,
            origin,
            size,
            crop_id: crop_id.to_string(),
            priority,
            manager: None,
        });
        self.grid.paint_rect(origin, size, RectPaint::Occupied(true));
        let mut text = "Created ".to_string();
        text.append(crop_id);
        text.append(" field at (");
        push_decimal(&mut text, origin.x as u64);
        text.append(", ");
        push_decimal(&mut text, origin.y as u64);
        text.append(")");
        let ghost text_view = text@;
        let ghost before = self.events@;
        let event = FarmEvent::Info(text);
        let ghost ev = event;
        self.push_event(event);
        assert(self.events@ == logged(before, ev));
        id
    }
}

} // verus!

verus! {

/// A tile after a facility with id `id` has been built on it.
pub open spec fn built_tile(t: crate::grid::Tile, id: u64) -> crate::grid::Tile {
    crate::grid::Tile { building: Some(id), occupied: true, terrain: TerrainKind::Concrete, ..t }
}

/// Tiles after painting, in order, the collision areas owned by `kind` as covered by building `id`.
pub open spec fn paint_collision_areas(
    tiles: Seq<crate::grid::Tile>,
    areas: Seq<crate::map::CollisionAreaDef>,
    kind: FacilityKind,
    id: u64,
    width: u32,
    height: u32,
) -> Seq<crate::grid::Tile>
    decreases areas.len(),
{
    if areas.len() == 0 {
        tiles
    } else {
        let before = paint_collision_areas(tiles, areas.drop_last(), kind, id, width, height);
        let area = areas.last();
        if area.owner == Some(kind) {
            Seq::new(
                before.len(),
                |i: int|
                    if in_clipped_rect(area.origin, area.size, width, height, position_of_index(width, i)) {
                        painted(before[i], RectPaint::Building(id))
                    } else {
                        before[i]
                    },
            )
        } else {
            before
        }
    }
}

/// The tiles after facility `id` of `kind` is built at `position`: the tile there, if
/// on the grid, becomes covered concrete.
pub open spec fn tiles_with_building(a: GameSimulation, position: TilePos, id: u64) -> Seq<crate::grid::Tile> {
    if a.grid.in_bounds(position) {
        a.grid.tiles@.update(
            crate::grid::row_major(a.grid.width, position),
            built_tile(a.grid.tile_at(position), id),
        )
    } else {
        a.grid.tiles@
    }
}

/// `b` is `a` after building facility number `a.next_entity_id`, powered, at
/// `position`; nothing else changes.
pub open spec fn facility_built(a: GameSimulation, b: GameSimulation, kind: FacilityKind, position: TilePos) -> bool {
    let id = a.next_entity_id;
    &&& b == GameSimulation { facilities: b.facilities, grid: b.grid, next_entity_id: b.next_entity_id, ..a }
    &&& b.next_entity_id == id + 1
    &&& b.facilities@ == a.facilities@.push(Facility { id, kind, position, powered: true })
    &&& b.grid.width == a.grid.width
    &&& b.grid.height == a.grid.height
    &&& b.grid.tiles@ == tiles_with_building(a, position, id)
}

/// `b` is `a` after building a facility of the starting map: as `facility_built`, and
/// the map's collision areas owned by its kind are covered by it too.
pub open spec fn map_facility_built(a: GameSimulation, b: GameSimulation, definition: MapFacilityDef) -> bool {
    let id = a.next_entity_id;
    &&& b == GameSimulation { facilities: b.facilities, grid: b.grid, next_entity_id: b.next_entity_id, ..a }
    &&& b.next_entity_id == id + 1
    &&& b.facilities@ == a.facilities@.push(
        Facility { id, kind: definition.kind, position: definition.position, powered: true },
    )
    &&& b.grid.width == a.grid.width
    &&& b.grid.height == a.grid.height
    &&& b.grid.tiles@ == paint_collision_areas(
        tiles_with_building(a, definition.position, id),
        a.map.collision_areas@,
        definition.kind,
        id,
        a.grid.width,
        a.grid.height,
    )
}

impl GameSimulation {
    /// Builds a facility without checking the rules: the next entity id, powered,
    /// on a concrete tile that it now covers.
    pub fn spawn_facility_unchecked(&mut self, kind: FacilityKind, position: TilePos) -> (id: u64)
        requires
            old(self).wf(),
            old(self).next_entity_id < u64::MAX,
        ensures
            final(self).wf(),
            id == old(self).next_entity_id,
            facility_built(*old(self), *final(self), kind, position),
    {
        let id = self.next_entity_id;
        self.next_entity_id = self.next_entity_id + 1;
        self.facilities.push(Facility { id, kind, position, powered: true });
        if self.grid.contains(position) {
            proof {
                crate::grid::lemma_row_major(self.grid.width, self.grid.height, position);
            }
            let idx = (position.y * self.grid.width + position.x) as usize;
            let mut t = self.grid.tiles[idx].clone_shallow();
            t.building = Some(id);
            t.occupied = true;
            t.terrain = TerrainKind::Concrete;
            self.grid.tiles.set(idx, t);
        }
        id
    }

    /// Builds a facility of the starting map, and marks the collision areas that the
    /// map gives its kind as covered by it.
    pub fn spawn_map_facility_unchecked(&mut self, definition: &MapFacilityDef) -> (id: u64)
        requires
            old(self).wf(),
            old(self).next_entity_id < u64::MAX,
        ensures
            final(self).wf(),
            id == old(self).next_entity_id,
            map_facility_built(*old(self), *final(self), *definition),
    {
        let id = self.spawn_facility_unchecked(definition.kind, definition.position);
        let ghost start_tiles = self.grid.tiles@;
        let mut grid = FarmGrid { width: 0, height: 0, tiles: Vec::new() };
        std::mem::swap(&mut grid, &mut self.grid);
        let n = self.map.collision_areas.len();
        let mut k: usize = 0;
        while k < n
            invariant
                grid.wf(),
                n == self.map.collision_areas@.len(),
                k <= n,
                grid.width == old(self).grid.width,
                grid.height == old(self).grid.height,
                grid.tiles@ == paint_collision_areas(
                    start_tiles,
                    self.map.collision_areas@.take(k as int),
                    definition.kind,
                    id,
                    grid.width,
                    grid.height,
                ),
                start_tiles.len() == grid.tiles@.len(),
            decreases n - k,
        {
            let area = self.map.collision_areas[k];
            proof {
                assert(self.map.collision_areas@.take(k + 1).drop_last() =~= self.map.collision_areas@.take(k as int));
            }
            if area.owner == Some(definition.kind) {
                grid.paint_rect(area.origin, area.size, RectPaint::Building(id));
                assert(grid.tiles@ =~= paint_collision_areas(
                    start_tiles,
                    self.map.collision_areas@.take(k + 1),
                    definition.kind,
                    id,
                    grid.width,
                    grid.height,
                ));
            }
            k += 1;
        }
        self.grid = grid;
        assert(self.map.collision_areas@.take(n as int) =~= self.map.collision_areas@);
        id
    }
}

} // verus!

verus! {

/// The outcome of deploying a robot of model `robot_def_id` near `position`: it
/// fails, changing nothing, exactly when the model is unknown or no cell may take it;
/// otherwise robot number `a.next_entity_id` is appended, parked at home on the
/// preferred candidate cell, and an event announces it.
pub open spec fn robot_deployed(
    a: GameSimulation,
    b: GameSimulation,
    robot_def_id: Seq<char>,
    position: TilePos,
    r: Option<u64>,
) -> bool {
    let def = a.catalog.robots.to_map()[robot_def_id];
    &&& (r is Some <==> a.robot_def_known(robot_def_id) && exists|q: TilePos|
        spawn_candidate(a, q, def.body, def.id@))
    &&& (r is None ==> b == a)
    &&& (r matches Some(id) ==> {
        let robot = b.robots@.last();
        &&& b == GameSimulation { robots: b.robots, events: b.events, next_entity_id: b.next_entity_id, ..a }
        &&& id == a.next_entity_id
        &&& b.next_entity_id == a.next_entity_id + 1
        &&& b.robots@.len() == a.robots@.len() + 1
        &&& forall|i: int| 0 <= i < a.robots@.len() ==> #[trigger] b.robots@[i] == a.robots@[i]
        &&& robot.id == id
        &&& robot.def_id@ == def.id@
        &&& robot.body == def.body
        &&& robot.capabilities@ == def.capabilities@
        &&& robot.state == RobotState::Parked
        &&& robot.current_job is None
        &&& robot.inventory.wf()
        &&& robot.inventory.capacity == def.cargo_capacity
        &&& robot.inventory.stock() == Map::<Seq<char>, u32>::empty()
        &&& robot.movement_target is None
        &&& robot.home_position == robot.position
        &&& spawn_candidate(a, robot.position, def.body, def.id@)
        &&& forall|q: TilePos| spawn_candidate(a, q, def.body, def.id@) ==> spawn_key_le(robot.position, q, position)
        &&& logged_info(a.events@, b.events@, def.display_name@ + " deployed"@)
    })
}

impl GameSimulation {
    /// Whether a robot of `body` and model `def_id` may be placed at `p`.
    pub fn is_spawn_candidate(&self, p: TilePos, body: RobotBody, def_id: &str) -> (r: bool)
        requires
            self.grid.wf(),
        ensures
            r == spawn_candidate(*self, p, body, def_id@),
    {
        if !self.grid.contains(p) {
            return false;
        }
        proof {
            crate::grid::lemma_row_major(self.grid.width, self.grid.height, p);
        }
        let idx = (p.y * self.grid.width + p.x) as usize;
        let tile = &self.grid.tiles[idx];
        if tile.building.is_some() {
            return false;
        }
        let mut r: usize = 0;
        while r < self.robots.len()
            invariant
                r <= self.robots@.len(),
                forall|q: int| 0 <= q < r ==> #[trigger] self.robots@[q].position != p,
            decreases self.robots@.len() - r,
        {
            if self.robots[r].position == p {
                return false;
            }
            r += 1;
        }
        if body == RobotBody::Flying {
            return true;
        }
        let blocked = match tile.terrain {
            TerrainKind::Water | TerrainKind::Rock | TerrainKind::IrrigationChannel => true,
            TerrainKind::PaddyBund => body == RobotBody::Wheeled,
            _ => false,
        };
        if blocked {
            return false;
        }
        proof {
            reveal_strlit("rice_harvester");
        }
        body != RobotBody::Wheeled || tile.crop.is_none() || text_eq(def_id, "rice_harvester")
    }

    /// The preferred free cell for a new robot: the candidate cell nearest to
    /// `preferred` (ties broken by row distance, column distance, row, column).
    pub fn available_robot_spawn(&self, preferred: TilePos, body: RobotBody, robot_def_id: &str) -> (r: Option<TilePos>)
        requires
            self.grid.wf(),
        ensures
            r is None <==> forall|q: TilePos| !spawn_candidate(*self, q, body, robot_def_id@),
            r matches Some(p) ==> spawn_candidate(*self, p, body, robot_def_id@) && forall|q: TilePos|
                spawn_candidate(*self, q, body, robot_def_id@) ==> spawn_key_le(p, q, preferred),
    {
        let mut best: Option<(TilePos, (u64, u64, u64, u32, u32))> = None;
        let mut y: u32 = 0;
        while y < self.grid.height
            invariant
                self.grid.wf(),
                y <= self.grid.height,
                best matches Some((p, k)) ==> {
                    &&& spawn_candidate(*self, p, body, robot_def_id@)
                    &&& k.0 == manhattan_distance(p, preferred)
                    &&& k.1 == abs_diff(p.y as int, preferred.y as int)
                    &&& k.2 == abs_diff(p.x as int, preferred.x as int)
                    &&& k.3 == p.y
                    &&& k.4 == p.x
                },
                best is None ==> forall|q: TilePos| q.y < y ==> !spawn_candidate(*self, q, body, robot_def_id@),
                best matches Some((p, k)) ==> forall|q: TilePos|
                    q.y < y && spawn_candidate(*self, q, body, robot_def_id@) ==> spawn_key_le(p, q, preferred),
            decreases self.grid.height - y,
        {
            let mut x: u32 = 0;
            while x < self.grid.width
                invariant
                    self.grid.wf(),
                    y < self.grid.height,
                    x <= self.grid.width,
                    best matches Some((p, k)) ==> {
                        &&& spawn_candidate(*self, p, body, robot_def_id@)
                        &&& k.0 == manhattan_distance(p, preferred)
                        &&& k.1 == abs_diff(p.y as int, preferred.y as int)
                        &&& k.2 == abs_diff(p.x as int, preferred.x as int)
                        &&& k.3 == p.y
                        &&& k.4 == p.x
                    },
                    best is None ==> forall|q: TilePos|
                        (q.y < y || (q.y == y && q.x < x)) ==> !spawn_candidate(*self, q, body, robot_def_id@),
                    best matches Some((p, k)) ==> forall|q: TilePos|
                        (q.y < y || (q.y == y && q.x < x)) && spawn_candidate(*self, q, body, robot_def_id@)
                            ==> spawn_key_le(p, q, preferred),
                decreases self.grid.width - x,
            {
                let p = TilePos::new(x, y);
                if self.is_spawn_candidate(p, body, robot_def_id) {
                    let dy = dist(y, preferred.y);
                    let dx = dist(x, preferred.x);
                    let key = (dx + dy, dy, dx, y, x);
                    let replace = match best {
                        None => true,
                        Some((_, k)) => key_less(key, k),
                    };
                    let ghost old_best = best;
                    if replace {
                        best = Some((p, key));
                    }
                    proof {
                        if let Some((bp, bk)) = best {
                            assert forall|q: TilePos|
                                (q.y < y || (q.y == y && q.x < x + 1)) && spawn_candidate(*self, q, body, robot_def_id@)
                                    implies spawn_key_le(bp, q, preferred) by {
                                lemma_spawn_key_order(p, q, q, preferred);
                                if let Some((op, ok)) = old_best {
                                    lemma_spawn_key_order(p, op, q, preferred);
                                    lemma_spawn_key_order(op, p, q, preferred);
                                }
                            }
                        }
                    }
                }
                x += 1;
            }
            y += 1;
        }
        match best {
            None => None,
            Some((p, _)) => Some(p),
        }
    }

    /// Deploys a robot of model `robot_def_id` at the preferred free cell near
    /// `position`, parked there as its home; `None` when the model is unknown or
    /// no cell is free.
    pub fn spawn_robot_unchecked(&mut self, robot_def_id: &str, position: TilePos) -> (r: Option<u64>)
        requires
            old(self).wf(),
            old(self).next_entity_id < u64::MAX,
        ensures
            final(self).wf(),
            robot_deployed(*old(self), *final(self), robot_def_id@, position, r),
    {
        let (def_id, body, display_name, capacity, capabilities) = match self.catalog.robots.get(robot_def_id) {
            None => {
                return None;
            },
            Some(definition) => {
                let mut caps: Vec<Capability> = Vec::new();
                let mut k: usize = 0;
                while k < definition.capabilities.len()
                    invariant
                        k <= definition.capabilities@.len(),
                        caps@ == definition.capabilities@.take(k as int),
                    decreases definition.capabilities@.len() - k,
                {
                    caps.push(definition.capabilities[k]);
                    assert(caps@ =~= definition.capabilities@.take(k + 1));
                    k += 1;
                }
                assert(caps@ =~= definition.capabilities@);
                (definition.id.clone(), definition.body, definition.display_name.clone(), definition.cargo_capacity, caps)
            },
        };
        let spot = match self.available_robot_spawn(position, body, def_id.as_str()) {
            None => {
                return None;
            },
            Some(p) => p,
        };
        let id = self.next_entity_id;
        self.next_entity_id = self.next_entity_id + 1;
        self.robots.push(Robot {
            id,
            def_id,
            body,
            capabilities,
            state: RobotState::Parked,
            current_job: None,
            inventory: Inventory::with_capacity(capacity),
            position: spot,
            movement_target: None,
            home_position: spot,
        });
        let mut text = display_name;
        text.append(" deployed");
        let ghost before = self.events@;
        let event = FarmEvent::Info(text);
        let ghost ev = event;
        self.push_event(event);
        assert(self.events@ == logged(before, ev));
        Some(id)
    }
}

} // verus!

verus! {

/// The robots other than the one with id `id`, in order.
pub open spec fn robots_without(s: Seq<Robot>, id: u64) -> Seq<Robot>
    decreases s.len(),
{
    if s.len() == 0 {
        s
    } else if s.last().id == id {
        robots_without(s.drop_last(), id)
    } else {
        robots_without(s.drop_last(), id).push(s.last())
    }
}

/// Every robot kept by `robots_without` is one of the robots it started from.
pub proof fn lemma_robots_without_subset(s: Seq<Robot>, id: u64)
    ensures
        robots_without(s, id).len() <= s.len(),
        forall|i: int|
            0 <= i < robots_without(s, id).len() ==> exists|j: int|
                0 <= j < s.len() && #[trigger] robots_without(s, id)[i] == s[j],
    decreases s.len(),
{
    if s.len() > 0 {
        lemma_robots_without_subset(s.drop_last(), id);
        let r = robots_without(s.drop_last(), id);
        assert forall|i: int| 0 <= i < robots_without(s, id).len() implies exists|j: int|
            0 <= j < s.len() && #[trigger] robots_without(s, id)[i] == s[j] by {
            if i < r.len() {
                let j = choose|j: int| 0 <= j < s.drop_last().len() && #[trigger] r[i] == s.drop_last()[j];
                assert(s[j] == s.drop_last()[j]);
            } else {
                assert(robots_without(s, id)[i] == s[s.len() - 1]);
            }
        }
    }
}

/// A tile once building `id` is gone: uncovered and free.
pub open spec fn cleared_tile(t: crate::grid::Tile, id: u64) -> crate::grid::Tile {
    if t.building == Some(id) {
        crate::grid::Tile { building: None, occupied: false, ..t }
    } else {
        t
    }
}

/// Index of the first facility with id `id`.
pub open spec fn first_facility(s: Seq<Facility>, id: u64) -> int {
    choose|i: int| 0 <= i < s.len() && s[i].id == id && forall|j: int| 0 <= j < i ==> #[trigger] s[j].id != id
}

/// Index of the first zone with id `id`.
pub open spec fn first_zone(s: Seq<FieldZone>, id: u64) -> int {
    choose|i: int| 0 <= i < s.len() && s[i].id == id && forall|j: int| 0 <= j < i ==> #[trigger] s[j].id != id
}

/// The first zone with an id is the one with no zone of that id before it.
pub proof fn lemma_first_zone(s: Seq<FieldZone>, id: u64, i: int)
    requires
        0 <= i < s.len(),
        s[i].id == id,
        forall|j: int| 0 <= j < i ==> #[trigger] s[j].id != id,
    ensures
        first_zone(s, id) == i,
{
    let c = first_zone(s, id);
    assert(0 <= c < s.len() && s[c].id == id);
    if c < i {
        assert(s[c].id != id);
    } else if c > i {
        assert(s[i].id != id);
    }
}

/// `b` is `a` after deleting entity `entity_id`: a facility with that id is removed
/// and the tiles it covered are freed; when there is none, the robots with that id
/// and the first zone with that id are removed, and the zone's cells freed.
pub open spec fn entity_deleted(a: GameSimulation, b: GameSimulation, entity_id: u64) -> bool {
    &&& b == GameSimulation { facilities: b.facilities, robots: b.robots, zones: b.zones, grid: b.grid, ..a }
    &&& b.grid.width == a.grid.width
    &&& b.grid.height == a.grid.height
    &&& a.facility_exists(entity_id) ==> {
        &&& b.facilities@ == a.facilities@.remove(first_facility(a.facilities@, entity_id))
        &&& b.grid.tiles@ == Seq::new(a.grid.tiles@.len(), |k: int| cleared_tile(a.grid.tiles@[k], entity_id))
        &&& b.robots == a.robots
        &&& b.zones == a.zones
    }
    &&& !a.facility_exists(entity_id) ==> {
        &&& b.facilities == a.facilities
        &&& b.robots@ == robots_without(a.robots@, entity_id)
        &&& (a.zone_exists(entity_id) ==> {
            let z = a.zones@[first_zone(a.zones@, entity_id)];
            &&& b.zones@ == a.zones@.remove(first_zone(a.zones@, entity_id))
            &&& b.grid.tiles@.len() == a.grid.tiles@.len()
            &&& forall|k: int|
                0 <= k < b.grid.tiles@.len() ==> #[trigger] b.grid.tiles@[k] == if in_clipped_rect(
                    z.origin,
                    z.size,
                    a.grid.width,
                    a.grid.height,
                    position_of_index(a.grid.width, k),
                ) {
                    painted(a.grid.tiles@[k], RectPaint::Occupied(false))
                } else {
                    a.grid.tiles@[k]
                }
        })
        &&& (!a.zone_exists(entity_id) ==> b.zones == a.zones && b.grid == a.grid)
    }
}

impl GameSimulation {
    /// Removes the facility with `entity_id`, freeing the tiles it covered; otherwise
    /// removes the robots with that id and the zone with that id, freeing its cells.
    pub fn delete_entity(&mut self, entity_id: u64)
        requires
            old(self).wf(),
        ensures
            final(self).wf(),
            entity_deleted(*old(self), *final(self), entity_id),
    {
        if let Some(index) = self.facility_index(entity_id) {
            let ghost old_tiles = self.grid.tiles@;
            self.facilities.remove(index);
            let mut grid = FarmGrid { width: 0, height: 0, tiles: Vec::new() };
            std::mem::swap(&mut grid, &mut self.grid);
            let n = grid.tiles.len();
            let mut k: usize = 0;
            while k < n
                invariant
                    n == grid.tiles@.len(),
                    n == old_tiles.len(),
                    k <= n,
                    grid.width == old(self).grid.width,
                    grid.height == old(self).grid.height,
                    n == grid.width * grid.height,
                    forall|m: int| 0 <= m < k ==> #[trigger] grid.tiles@[m] == cleared_tile(old_tiles[m], entity_id),
                    forall|m: int| k <= m < n ==> #[trigger] grid.tiles@[m] == old_tiles[m],
                decreases n - k,
            {
                if grid.tiles[k].building == Some(entity_id) {
                    let mut t = grid.tiles[k].clone_shallow();
                    t.building = None;
                    t.occupied = false;
                    grid.tiles.set(k, t);
                }
                k += 1;
            }
            assert(grid.tiles@ =~= Seq::new(old_tiles.len(), |m: int| cleared_tile(old_tiles[m], entity_id)));
            self.grid = grid;
            return;
        }
        let mut robots: Vec<Robot> = Vec::new();
        std::mem::swap(&mut robots, &mut self.robots);
        let ghost all = robots@;
        let mut kept: Vec<Robot> = Vec::new();
        let mut done: usize = 0;
        let total = robots.len();
        while robots.len() > 0
            invariant
                done + robots@.len() == all.len(),
                total == all.len(),
                robots@ == all.skip(done as int),
                kept@ == robots_without(all.take(done as int), entity_id),
            decreases robots@.len(),
        {
            let robot = robots.remove(0);
            assert(robot == all[done as int]);
            assert(all.take(done + 1).drop_last() =~= all.take(done as int));
            assert(robots@ =~= all.skip(done + 1));
            if robot.id != entity_id {
                kept.push(robot);
            }
            done += 1;
        }
        assert(all.take(done as int) =~= all);
        proof {
            lemma_robots_without_subset(all, entity_id);
            assert forall|i: int| 0 <= i < kept@.len() implies (#[trigger] kept@[i]).inventory.wf()
                && kept@[i].inventory.total() <= kept@[i].inventory.capacity by {
                let j = choose|j: int| 0 <= j < all.len() && #[trigger] robots_without(all, entity_id)[i] == all[j];
            }
        }
        self.robots = kept;
        if let Some(index) = self.zone_index(entity_id) {
            let zone = self.zones.remove(index);
            self.grid.paint_rect(zone.origin, zone.size, RectPaint::Occupied(false));
        }
    }

    /// Position of the first facility of `kind`, or the middle of the farm when there is none.
    pub fn facility_position(&self, kind: FacilityKind) -> (r: TilePos)
        ensures
            (exists|i: int| 0 <= i < self.facilities@.len() && #[trigger] self.facilities@[i].kind == kind) ==> exists|i: int|
                0 <= i < self.facilities@.len() && #[trigger] self.facilities@[i].kind == kind && r == self.facilities@[i].position
                    && forall|j: int| 0 <= j < i ==> #[trigger] self.facilities@[j].kind != kind,
            !(exists|i: int| 0 <= i < self.facilities@.len() && #[trigger] self.facilities@[i].kind == kind) ==> r == (TilePos { x: 31, y: 31 }),
    {
        let mut i: usize = 0;
        while i < self.facilities.len()
            invariant
                i <= self.facilities@.len(),
                forall|j: int| 0 <= j < i ==> #[trigger] self.facilities@[j].kind != kind,
            decreases self.facilities@.len() - i,
        {
            if self.facilities[i].kind == kind {
                return self.facilities[i].position;
            }
            i += 1;
        }
        TilePos::new(31, 31)
    }

    /// Whether a powered facility of `kind` stands on the farm.
    pub fn has_facility(&self, kind: FacilityKind) -> (r: bool)
        ensures
            r == exists|i: int|
                0 <= i < self.facilities@.len() && #[trigger] self.facilities@[i].kind == kind
                    && self.facilities@[i].powered,
    {
        let mut i: usize = 0;
        while i < self.facilities.len()
            invariant
                i <= self.facilities@.len(),
                forall|j: int| 0 <= j < i ==> !(#[trigger] self.facilities@[j].kind == kind && self.facilities@[j].powered),
            decreases self.facilities@.len() - i,
        {
            if self.facilities[i].kind == kind && self.facilities[i].powered {
                return true;
            }
            i += 1;
        }
        false
    }
}

} // verus!
