use vstd::prelude::*;
use vstd::string::*;

use crate::map::MapDefinition;
use crate::model::{JobStatus, RobotState};
use crate::farm::{strictly_increasing, FarmEvent, Job, Robot};
use crate::text::{decimal, push_decimal};
use crate::simulation::{GameSimulation, SimulationError, SAVE_VERSION};

verus! {

/// How many robots of `robots` are in a state that `class` accepts:
/// 0 idle or parked, 1 on their way to or at a job, 2 charging or heading to a
/// charger, 3 broken.
pub open spec fn state_class(state: RobotState, class: int) -> bool {
    if class == 0 {
        state is Idle || state is Parked
    } else if class == 1 {
        state is Departing || state is MovingToJob || state is Preparing || state is Working || state is Finishing
    } else if class == 2 {
        state is Charging || state is MovingToCharge
    } else {
        state is Broken
    }
}

pub open spec fn robots_in_class(robots: Seq<Robot>, class: int) -> int
    decreases robots.len(),
{
    if robots.len() == 0 {
        0
    } else {
        robots_in_class(robots.drop_last(), class) + if state_class(robots.last().state, class) {
            1int
        } else {
            0int
        }
    }
}

pub open spec fn pending_count(jobs: Seq<Job>) -> int
    decreases jobs.len(),
{
    if jobs.len() == 0 {
        0
    } else {
        pending_count(jobs.drop_last()) + if jobs.last().status is Pending {
            1int
        } else {
            0int
        }
    }
}

proof fn lemma_robots_in_class_bound(robots: Seq<Robot>, class: int)
    ensures
        0 <= robots_in_class(robots, class) <= robots.len(),
    decreases robots.len(),
{
    if robots.len() > 0 {
        lemma_robots_in_class_bound(robots.drop_last(), class);
    }
}

proof fn lemma_pending_count_bound(jobs: Seq<Job>)
    ensures
        0 <= pending_count(jobs) <= jobs.len(),
    decreases jobs.len(),
{
    if jobs.len() > 0 {
        lemma_pending_count_bound(jobs.drop_last());
    }
}

/// The counts a snapshot of the farm reports.
#[derive(Debug, Clone, Copy, PartialEq, Eq)]
pub struct FarmCounts {
    pub robots_idle: usize,
    pub robots_working: usize,
    pub robots_charging: usize,
    pub robots_broken: usize,
    pub pending_jobs: usize,
}

fn count_class(robots: &Vec<Robot>, class: u8) -> (r: usize)
    requires
        class <= 3,
    ensures
        r == robots_in_class(robots@, class as int),
{
    let mut n: usize = 0;
    let mut i: usize = 0;
    while i < robots.len()
        invariant
            i <= robots@.len(),
            n == robots_in_class(robots@.take(i as int), class as int),
            class <= 3,
        decreases robots@.len() - i,
    {
        proof {
            assert(robots@.take(i + 1).drop_last() =~= robots@.take(i as int));
            lemma_robots_in_class_bound(robots@.take(i as int), class as int);
        }
        let state = robots[i].state;
        let hit = match state {
            RobotState::Idle | RobotState::Parked => class == 0,
            RobotState::Departing(_) | RobotState::MovingToJob(_) | RobotState::Preparing(_)
            | RobotState::Working(_) | RobotState::Finishing(_) => class == 1,
            RobotState::Charging | RobotState::MovingToCharge => class == 2,
            RobotState::Broken => class == 3,
            _ => false,
        };
        if hit {
            n = n + 1;
        }
        i += 1;
    }
    assert(robots@.take(robots@.len() as int) =~= robots@);
    n
}

impl GameSimulation {
    /// Robots by what they are doing, and the jobs waiting for a robot.
    pub fn counts(&self) -> (r: FarmCounts)
        ensures
            r.robots_idle == robots_in_class(self.robots@, 0),
            r.robots_working == robots_in_class(self.robots@, 1),
            r.robots_charging == robots_in_class(self.robots@, 2),
            r.robots_broken == robots_in_class(self.robots@, 3),
            r.pending_jobs == pending_count(self.jobs@),
    {
        let mut pending: usize = 0;
        let mut i: usize = 0;
        while i < self.jobs.len()
            invariant
                i <= self.jobs@.len(),
                pending == pending_count(self.jobs@.take(i as int)),
            decreases self.jobs@.len() - i,
        {
            proof {
                assert(self.jobs@.take(i + 1).drop_last() =~= self.jobs@.take(i as int));
                lemma_pending_count_bound(self.jobs@.take(i as int));
            }
            if self.jobs[i].status == JobStatus::Pending {
                pending = pending + 1;
            }
            i += 1;
        }
        assert(self.jobs@.take(self.jobs@.len() as int) =~= self.jobs@);
        FarmCounts {
            robots_idle: count_class(&self.robots, 0),
            robots_working: count_class(&self.robots, 1),
            robots_charging: count_class(&self.robots, 2),
            robots_broken: count_class(&self.robots, 3),
            pending_jobs: pending,
        }
    }

    /// Whether the farm is well formed: sorted catalogs, stores and manager lists, a
    /// grid with one tile per cell, and no store holding more than its capacity.
    pub fn is_consistent(&self) -> (r: bool)
        ensures
            r == self.wf(),
    {
        if !self.catalog.crops.is_ordered() || !self.catalog.robots.is_ordered() || !self.npc_assignments.is_ordered() {
            return false;
        }
        let width = self.grid.width as u64;
        let height = self.grid.height as u64;
        assert(width * height <= 0xffff_ffffu64 * 0xffff_ffffu64) by (nonlinear_arith)
            requires
                width <= 0xffff_ffffu64,
                height <= 0xffff_ffffu64,
        ;
        let cells = width * height;
        if cells > u32::MAX as u64 || self.grid.tiles.len() as u64 != cells {
            return false;
        }
        if !self.inventory.is_consistent() {
            return false;
        }
        let mut c: usize = 0;
        while c < self.contracts.len()
            invariant
                c <= self.contracts@.len(),
                forall|i: int| 0 <= i < c ==> (#[trigger] self.contracts@[i]).delivered.wf(),
            decreases self.contracts@.len() - c,
        {
            if !self.contracts[c].delivered.is_ordered() {
                return false;
            }
            c += 1;
        }
        let mut b: usize = 0;
        while b < self.robots.len()
            invariant
                b <= self.robots@.len(),
                forall|i: int|
                    0 <= i < b ==> (#[trigger] self.robots@[i]).inventory.wf()
                        && self.robots@[i].inventory.total() <= self.robots@[i].inventory.capacity,
            decreases self.robots@.len() - b,
        {
            if !self.robots[b].inventory.is_consistent() {
                return false;
            }
            b += 1;
        }
        let entries = &self.npc_assignments.entries;
        let mut e: usize = 0;
        while e < entries.len()
            invariant
                entries == &self.npc_assignments.entries,
                e <= entries@.len(),
                forall|i: int| 0 <= i < e ==> strictly_increasing((#[trigger] entries@[i]).1.managed_zones@),
            decreases entries@.len() - e,
        {
            let zones = &entries[e].1.managed_zones;
            let mut k: usize = 1;
            while k < zones.len()
                invariant
                    entries == &self.npc_assignments.entries,
                    e < entries@.len(),
                    zones == &entries@[e as int].1.managed_zones,
                    1 <= k,
                    k <= zones@.len() || zones@.len() == 0,
                    forall|i: int, j: int| 0 <= i < j < k && j < zones@.len() ==> zones@[i] < zones@[j],
                decreases zones@.len() - k,
            {
                if zones[k - 1] >= zones[k] {
                    assert(!strictly_increasing(entries@[e as int].1.managed_zones@));
                    return false;
                }
                k += 1;
            }
            e += 1;
        }
        true
    }

    /// Takes a farm read back from a save: refused when it was saved by another
    /// version of the format or on another map, otherwise it is given the runtime's map.
    pub fn restore(saved: GameSimulation, map: MapDefinition) -> (r: Result<GameSimulation, SimulationError>)
        ensures
            saved.version != SAVE_VERSION ==> r == Err::<GameSimulation, SimulationError>(
                SimulationError::UnsupportedSaveVersion { found: saved.version, expected: SAVE_VERSION },
            ),
            saved.version == SAVE_VERSION && saved.map_id@ != map.id@ ==> (r matches Err(SimulationError::MapLoad(m))
                && m@ == "save references map "@ + saved.map_id@ + "; runtime provides "@ + map.id@),
            saved.version == SAVE_VERSION && saved.map_id@ == map.id@ ==> r == Ok::<GameSimulation, SimulationError>(
                GameSimulation { map, ..saved },
            ),
    {
        if saved.version != SAVE_VERSION {
            return Err(SimulationError::UnsupportedSaveVersion { found: saved.version, expected: SAVE_VERSION });
        }
        if !crate::textmap::text_eq(saved.map_id.as_str(), map.id.as_str()) {
            let mut text = "save references map ".to_string();
            text.append(saved.map_id.as_str());
            text.append("; runtime provides ");
            text.append(map.id.as_str());
            return Err(SimulationError::MapLoad(text));
        }
        let mut restored = saved;
        restored.map = map;
        Ok(restored)
    }
}

/// The line the event log shows for an event.
pub open spec fn event_text_of(event: FarmEvent) -> Seq<char> {
    match event {
        FarmEvent::CropReady(p) => "Crop ready @ "@ + decimal(p.x as nat) + ","@ + decimal(p.y as nat),
        FarmEvent::CropCritical(p) => "Crop critical @ "@ + decimal(p.x as nat) + ","@ + decimal(p.y as nat),
        FarmEvent::RobotLowBattery(id) => "Robot "@ + decimal(id as nat) + " returning to charge"@,
        FarmEvent::RobotBroken(id) => "Robot "@ + decimal(id as nat) + " broken"@,
        FarmEvent::StorageFull => "Storage full"@,
        FarmEvent::WaterLow => "Water reserve low"@,
        FarmEvent::PowerLow => "Power reserve low"@,
        FarmEvent::ContractAccepted(id) => "Contract accepted: "@ + id@,
        FarmEvent::ContractNearDeadline(id) => "Deadline near: "@ + id@,
        FarmEvent::ContractCompleted(id) => "Contract complete: "@ + id@,
        FarmEvent::ContractFailed(id) => "Contract failed: "@ + id@,
        FarmEvent::AutonomyTrialStarted => "Autonomy Trial started"@,
        FarmEvent::AutonomyTrialCompleted(score) => "Autonomy score: "@ + decimal(score as nat),
        FarmEvent::AiAction { actor, message, .. } => "["@ + actor@ + "] "@ + message@,
        FarmEvent::Info(message) => message@,
    }
}

/// The line the event log shows for `event`.
pub fn event_text(event: &FarmEvent) -> (r: String)
    ensures
        r@ == event_text_of(*event),
{
    match event {
        FarmEvent::CropReady(p) => {
            let mut out = "Crop ready @ ".to_string();
            push_decimal(&mut out, p.x as u64);
            out.append(",");
            push_decimal(&mut out, p.y as u64);
            out
        },
        FarmEvent::CropCritical(p) => {
            let mut out = "Crop critical @ ".to_string();
            push_decimal(&mut out, p.x as u64);
            out.append(",");
            push_decimal(&mut out, p.y as u64);
            out
        },
        FarmEvent::RobotLowBattery(id) => {
            let mut out = "Robot ".to_string();
            push_decimal(&mut out, *id);
            out.append(" returning to charge");
            out
        },
        FarmEvent::RobotBroken(id) => {
            let mut out = "Robot ".to_string();
            push_decimal(&mut out, *id);
            out.append(" broken");
            out
        },
        FarmEvent::StorageFull => "Storage full".to_string(),
        FarmEvent::WaterLow => "Water reserve low".to_string(),
        FarmEvent::PowerLow => "Power reserve low".to_string(),
        FarmEvent::ContractAccepted(id) => {
            let mut out = "Contract accepted: ".to_string();
            out.append(id.as_str());
            out
        },
        FarmEvent::ContractNearDeadline(id) => {
            let mut out = "Deadline near: ".to_string();
            out.append(id.as_str());
            out
        },
        FarmEvent::ContractCompleted(id) => {
            let mut out = "Contract complete: ".to_string();
            out.append(id.as_str());
            out
        },
        FarmEvent::ContractFailed(id) => {
            let mut out = "Contract failed: ".to_string();
            out.append(id.as_str());
            out
        },
        FarmEvent::AutonomyTrialStarted => "Autonomy Trial started".to_string(),
        FarmEvent::AutonomyTrialCompleted(score) => {
            let mut out = "Autonomy score: ".to_string();
            push_decimal(&mut out, *score as u64);
            out
        },
        FarmEvent::AiAction { actor, message, .. } => {
            let mut out = "[".to_string();
            out.append(actor.as_str());
            out.append("] ");
            out.append(message.as_str());
            out
        },
        FarmEvent::Info(message) => message.clone(),
    }
}

} // verus!
