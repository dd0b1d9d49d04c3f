use vstd::prelude::*;
use vstd::string::*;

use crate::campaign::contract_activated;
use crate::clock::SimClock;
use crate::content::{same_contract, ContentCatalog};
use crate::execution::{first_zone, lemma_first_zone, logged_info, map_facility_built, robot_deployed, zone_created};
use crate::farm::{ActiveContract, FarmEvent, FieldZone, GameMetrics, NpcAssignment};
use crate::grid::{fresh_tile, FarmGrid};
use crate::inventory::Inventory;
use crate::map::{painted_terrain, MapDefinition, MapZoneDef};
use crate::model::{ContractStatus, TilePos, Weather};
use crate::simulation::{GameSimulation, SAVE_VERSION};
use crate::textmap::TextMap;

verus! {

/// The NPC managers a new farm has: Aster and Mira, managing nothing yet.
pub open spec fn default_npcs(m: Map<Seq<char>, NpcAssignment>) -> bool {
    &&& m.dom() == set!["aster"@, "mira"@]
    &&& m["aster"@].npc_id@ == "aster"@
    &&& m["aster"@].display_name@ == "Aster"@
    &&& m["aster"@].managed_zones@.len() == 0
    &&& m["mira"@].npc_id@ == "mira"@
    &&& m["mira"@].display_name@ == "Mira"@
    &&& m["mira"@].managed_zones@.len() == 0
}

/// An NPC manager with no zones yet.
fn npc(npc_id: &str, display_name: &str) -> (r: NpcAssignment)
    ensures
        r.npc_id@ == npc_id@,
        r.display_name@ == display_name@,
        r.managed_zones@.len() == 0,
{
    NpcAssignment {
        npc_id: npc_id.to_string(),
        display_name: display_name.to_string(),
        managed_zones: Vec::new(),
    }
}

/// The NPC managers of a new farm.
pub fn default_npc_assignments() -> (r: TextMap<NpcAssignment>)
    ensures
        r.wf(),
        default_npcs(r.to_map()),
        forall|i: int| 0 <= i < r.entries@.len() ==> (#[trigger] r.entries@[i]).1.managed_zones@.len() == 0,
{
    let mut r: TextMap<NpcAssignment> = TextMap::new();
    let aster = npc("aster", "Aster");
    r.insert("aster".to_string(), aster);
    let mira = npc("mira", "Mira");
    r.insert("mira".to_string(), mira);
    proof {
        reveal_strlit("aster");
        reveal_strlit("mira");
        assert("aster"@ != "mira"@) by {
            assert("aster"@[0] != "mira"@[0]);
        }
        assert(r.to_map().dom() =~= set!["aster"@, "mira"@]);
        assert forall|i: int| 0 <= i < r.entries@.len() implies (#[trigger] r.entries@[i]).1.managed_zones@.len() == 0 by {
            r.lemma_index_of(i);
        }
    }
    r
}

/// `s` is the farm before its scenario is laid out: the map's terrain, the opening
/// economy, the campaign with its first contract unlocked, and nothing built.
pub open spec fn blank_farm(s: GameSimulation, seed: u64, catalog: ContentCatalog, map: MapDefinition) -> bool {
    &&& s.version == SAVE_VERSION
    &&& s.seed == seed
    &&& s.catalog == catalog
    &&& s.map_id@ == map.id@
    &&& s.map == map
    &&& s.grid.wf()
    &&& s.grid.width == map.width
    &&& s.grid.height == map.height
    &&& forall|p: TilePos|
        #![trigger s.grid.tile_at(p)]
        s.grid.in_bounds(p) ==> s.grid.tile_at(p) == fresh_tile(
            painted_terrain(map.terrain_regions@, map.default_terrain, p),
        )
    &&& s.clock == SimClock { minute: 480, paused: false, speed: 1 }
    &&& s.weather == Weather::Clear
    &&& s.credits == 5000
    &&& s.reputation == 0
    &&& s.inventory.wf()
    &&& s.inventory.capacity == 2000
    &&& s.inventory.stock() == Map::<Seq<char>, u32>::empty()
    &&& s.inventory.total() == 0
    &&& s.robots@.len() == 0
    &&& s.facilities@.len() == 0
    &&& s.zones@.len() == 0
    &&& s.jobs@.len() == 0
    &&& s.contracts@.len() == catalog.contracts@.len()
    &&& forall|i: int|
        #![trigger s.contracts@[i]]
        0 <= i < s.contracts@.len() ==> {
            let c = s.contracts@[i];
            &&& same_contract(c.definition, catalog.contracts@[i])
            &&& c.delivered.wf()
            &&& c.delivered.to_map() == Map::<Seq<char>, u32>::empty()
            &&& c.accepted_at == 0
            &&& c.deadline == 0
            &&& c.status == if i == 0 {
                ContractStatus::Active
            } else {
                ContractStatus::Locked
            }
            &&& c.priority == 70
        }
    &&& s.current_contract == Some(0usize)
    &&& default_npcs(s.npc_assignments.to_map())
    &&& s.metrics == GameMetrics {
        crops_produced: 0,
        crops_lost: 0,
        robot_work_minutes: 0,
        robot_idle_minutes: 0,
        robot_charge_minutes: 0,
        robot_recoveries: 0,
        jobs_created: 0,
        jobs_completed: 0,
        jobs_failed: 0,
        energy_generated: 0,
        energy_consumed: 0,
        water_consumed: 0,
        contracts_fulfilled: 0,
        contracts_expected: 1,
        manual_commands: 0,
        npc_commands: 0,
        packed_items: 0,
    }
    &&& s.autonomy_trial is None
    &&& s.events@.len() == 0
    &&& s.world_revision == 0
    &&& s.next_entity_id == 1
    &&& s.next_job_id == 1
    &&& s.next_zone_id == 1
    &&& s.next_command_id == 1
}

/// The first `k` facilities of the starting map built one after the other.
pub open spec fn starter_facilities_built(a: GameSimulation, b: GameSimulation, k: nat) -> bool
    decreases k,
{
    if k == 0 {
        b == a
    } else {
        exists|m: GameSimulation|
            starter_facilities_built(a, m, (k - 1) as nat) && #[trigger] map_facility_built(
                m,
                b,
                a.map.starter_facilities@[k - 1],
            )
    }
}

/// The first `k` starting robots deployed one after the other, each near its garage bay.
pub open spec fn starter_robots_deployed(a: GameSimulation, b: GameSimulation, k: nat) -> bool
    decreases k,
{
    if k == 0 {
        b == a
    } else {
        exists|m: GameSimulation, r: Option<u64>|
            starter_robots_deployed(a, m, (k - 1) as nat) && #[trigger] robot_deployed(
                m,
                b,
                a.map.starter_robots@[k - 1]@,
                a.map.garage_bays@[k - 1],
                r,
            )
    }
}

/// `b` is `a` after laying out a starting zone: created as any new zone, then given
/// the map's name for it.
pub open spec fn starter_zone_laid_out(a: GameSimulation, b: GameSimulation, zone: MapZoneDef) -> bool {
    exists|m: GameSimulation|
        #[trigger] zone_created(a, m, zone.origin, zone.size, zone.crop_id@, zone.priority) && {
            let i = first_zone(m.zones@, a.next_zone_id);
            &&& b == GameSimulation { zones: b.zones, ..m }
            &&& b.zones@ == m.zones@.update(i, FieldZone { name: b.zones@[i].name, ..m.zones@[i] })
            &&& b.zones@[i].name@ == zone.name@
        }
}

/// The first `k` starting zones laid out one after the other.
pub open spec fn starter_zones_laid_out(a: GameSimulation, b: GameSimulation, k: nat) -> bool
    decreases k,
{
    if k == 0 {
        b == a
    } else {
        exists|m: GameSimulation|
            starter_zones_laid_out(a, m, (k - 1) as nat) && #[trigger] starter_zone_laid_out(
                m,
                b,
                a.map.starter_zones@[k - 1],
            )
    }
}

/// The text of the event that opens a new farm.
pub open spec fn opening_text() -> Seq<char> {
    "Rice cells online: garage departure, plough, rotary till, flood, transplant, protect, harvest."@
}

/// `r` is the farm that `seed`, `catalog` and `map` start: the blank farm accepts its
/// first contract, builds the map's facilities, parks the starting robots in the
/// garage bays (as many as there are bays), lays out the starting zones and opens
/// with an event.
pub open spec fn starting_farm(r: GameSimulation, seed: u64, catalog: ContentCatalog, map: MapDefinition) -> bool {
    exists|s0: GameSimulation, s1: GameSimulation, s2: GameSimulation, s3: GameSimulation, s4: GameSimulation|
        #![trigger blank_farm(s0, seed, catalog, map), contract_activated(s0, s1, 0), starter_facilities_built(s1, s2, map.starter_facilities@.len()), starter_zones_laid_out(s3, s4, map.starter_zones@.len())]
        {
            &&& blank_farm(s0, seed, catalog, map)
            &&& contract_activated(s0, s1, 0)
            &&& starter_facilities_built(s1, s2, map.starter_facilities@.len())
            &&& starter_robots_deployed(
                s2,
                s3,
                if map.starter_robots@.len() < map.garage_bays@.len() {
                    map.starter_robots@.len()
                } else {
                    map.garage_bays@.len()
                },
            )
            &&& starter_zones_laid_out(s3, s4, map.starter_zones@.len())
            &&& r == GameSimulation { events: r.events, ..s4 }
            &&& logged_info(s4.events@, r.events@, opening_text())
        }
}

/// What a new farm needs of its inputs to keep its counters and clock in range.
pub open spec fn starting_inputs_fit(catalog: ContentCatalog, map: MapDefinition) -> bool {
    &&& catalog.crops.wf()
    &&& catalog.robots.wf()
    &&& (map.width as int) * (map.height as int) <= u32::MAX
    &&& map.starter_facilities@.len() + map.starter_robots@.len() + 2 <= u64::MAX
    &&& map.starter_zones@.len() + 2 <= u64::MAX
    &&& catalog.contracts@.len() > 0 ==> 480 + catalog.contracts@[0].deadline_minutes <= u64::MAX
}

impl GameSimulation {
    /// A new farm for `seed` on `map` with the content of `catalog`.
    pub fn new(seed: u64, catalog: ContentCatalog, map: MapDefinition) -> (r: Self)
        requires
            starting_inputs_fit(catalog, map),
        ensures
            r.wf(),
            starting_farm(r, seed, catalog, map),
    {
        let grid = FarmGrid::from_definition(&map);
        let map_id = map.id.clone();
        let mut contracts: Vec<ActiveContract> = Vec::new();
        let mut i: usize = 0;
        while i < catalog.contracts.len()
            invariant
                i <= catalog.contracts@.len(),
                contracts@.len() == i,
                forall|j: int|
                    #![trigger contracts@[j]]
                    0 <= j < i ==> {
                        let c = contracts@[j];
                        &&& same_contract(c.definition, catalog.contracts@[j])
                        &&& c.delivered.wf()
                        &&& c.delivered.to_map() == Map::<Seq<char>, u32>::empty()
                        &&& c.accepted_at == 0
                        &&& c.deadline == 0
                        &&& c.status == if j == 0 {
                            ContractStatus::Active
                        } else {
                            ContractStatus::Locked
                        }
                        &&& c.priority == 70
                    },
            decreases catalog.contracts@.len() - i,
        {
            contracts.push(
                ActiveContract {
                    definition: catalog.contracts[i].clone(),
                    delivered: TextMap::new(),
                    accepted_at: 0,
                    deadline: 0,
                    status: if i == 0 {
                        ContractStatus::Active
                    } else {
                        ContractStatus::Locked
                    },
                    priority: 70,
                },
            );
            i += 1;
        }
        let mut sim = GameSimulation {
            version: SAVE_VERSION,
            seed,
            catalog,
            map_id,
            map,
            grid,
            clock: SimClock::starting(),
            weather: Weather::Clear,
            credits: 5000,
            reputation: 0,
            inventory: Inventory::with_capacity(2000),
            robots: Vec::new(),
            facilities: Vec::new(),
            zones: Vec::new(),
            jobs: Vec::new(),
            contracts,
            current_contract: Some(0),
            npc_assignments: default_npc_assignments(),
            metrics: GameMetrics { contracts_expected: 1, ..GameMetrics::zero() },
            autonomy_trial: None,
            events: Vec::new(),
            world_revision: 0,
            next_entity_id: 1,
            next_job_id: 1,
            next_zone_id: 1,
            next_command_id: 1,
        };
        let ghost s0 = sim;
        assert(blank_farm(s0, seed, catalog, map));
        sim.activate_contract(0);
        let ghost s1 = sim;
        let facility_count = sim.map.starter_facilities.len();
        let mut k: usize = 0;
        while k < facility_count
            invariant
                sim.wf(),
                facility_count == s1.map.starter_facilities@.len(),
                k <= facility_count,
                sim.map == s1.map,
                sim.next_entity_id == 1 + k,
                sim.next_zone_id == 1,
                s1.map.starter_facilities@.len() + s1.map.starter_robots@.len() + 2 <= u64::MAX,
                starter_facilities_built(s1, sim, k as nat),
            decreases facility_count - k,
        {
            let definition = sim.map.starter_facilities[k];
            let ghost m = sim;
            sim.spawn_map_facility_unchecked(&definition);
            proof {
                let kk = (k + 1) as nat;
                assert(starter_facilities_built(s1, m, (kk - 1) as nat));
                assert(map_facility_built(m, sim, s1.map.starter_facilities@[kk - 1]));
                assert(starter_facilities_built(s1, sim, kk));
            }
            k += 1;
        }
        let ghost s2 = sim;
        let robot_count = if sim.map.starter_robots.len() < sim.map.garage_bays.len() {
            sim.map.starter_robots.len()
        } else {
            sim.map.garage_bays.len()
        };
        let mut k: usize = 0;
        while k < robot_count
            invariant
                sim.wf(),
                robot_count <= s2.map.starter_robots@.len(),
                robot_count <= s2.map.garage_bays@.len(),
                k <= robot_count,
                sim.map == s2.map,
                sim.next_entity_id <= 1 + facility_count + k,
                facility_count == s2.map.starter_facilities@.len(),
                sim.next_zone_id == 1,
                s2.map.starter_facilities@.len() + s2.map.starter_robots@.len() + 2 <= u64::MAX,
                starter_robots_deployed(s2, sim, k as nat),
            decreases robot_count - k,
        {
            let robot_id = sim.map.starter_robots[k].clone();
            let bay = sim.map.garage_bays[k];
            let ghost m = sim;
            let r = sim.spawn_robot_unchecked(robot_id.as_str(), bay);
            proof {
                let kk = (k + 1) as nat;
                assert(starter_robots_deployed(s2, m, (kk - 1) as nat));
                assert(robot_deployed(m, sim, s2.map.starter_robots@[kk - 1]@, s2.map.garage_bays@[kk - 1], r));
                assert(starter_robots_deployed(s2, sim, kk));
            }
            k += 1;
        }
        let ghost s3 = sim;
        let zone_count = sim.map.starter_zones.len();
        let mut k: usize = 0;
        while k < zone_count
            invariant
                sim.wf(),
                zone_count == s3.map.starter_zones@.len(),
                k <= zone_count,
                sim.map == s3.map,
                sim.next_zone_id == 1 + k,
                s3.map.starter_zones@.len() + 2 <= u64::MAX,
                starter_zones_laid_out(s3, sim, k as nat),
            decreases zone_count - k,
        {
            let zone = sim.map.starter_zones[k].clone();
            let ghost m = sim;
            let id = sim.create_zone_unchecked(zone.origin, zone.size, zone.crop_id.as_str(), zone.priority);
            let ghost m2 = sim;
            if let Some(i) = sim.zone_index(id) {
                proof {
                    lemma_first_zone(sim.zones@, id, i as int);
                }
                sim.zones[i].name = zone.name;
            }
            proof {
                let kk = (k + 1) as nat;
                assert(zone_created(m, m2, zone.origin, zone.size, zone.crop_id@, zone.priority));
                assert(starter_zones_laid_out(s3, m, (kk - 1) as nat));
                assert(starter_zone_laid_out(m, sim, s3.map.starter_zones@[kk - 1]));
                assert(starter_zones_laid_out(s3, sim, kk));
            }
            k += 1;
        }
        let ghost s4 = sim;
        let ghost before = sim.events@;
        let event = FarmEvent::Info(
            "Rice cells online: garage departure, plough, rotary till, flood, transplant, protect, harvest.".to_string(),
        );
        let ghost ev = event;
        sim.push_event(event);
        assert(sim.events@ == crate::execution::logged(before, ev));
        assert(blank_farm(s0, seed, catalog, map));
        assert(contract_activated(s0, s1, 0));
        assert(starter_facilities_built(s1, s2, map.starter_facilities@.len()));
        assert(starter_zones_laid_out(s3, s4, map.starter_zones@.len()));
        sim
    }
}

} // verus!
