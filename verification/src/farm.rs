use vstd::prelude::*;

use crate::content::ContractDef;
use crate::inventory::Inventory;
use crate::model::{
    Capability, ContractStatus, EntityId, FacilityKind, JobId, JobKind, JobStatus, RobotBody,
    RobotState, TilePos, ZoneId,
};
use crate::textmap::TextMap;

verus! {

/// A robot on the farm, as far as the farm rules read it; its energy and motion
/// progress are tracked by the runtime that moves it.
#[derive(Debug, Clone, PartialEq)]
pub struct Robot {
    pub id: EntityId,
    pub def_id: String,
    pub body: RobotBody,
    pub capabilities: Vec<Capability>,
    pub state: RobotState,
    pub current_job: Option<JobId>,
    pub inventory: Inventory,
    pub position: TilePos,
    pub movement_target: Option<TilePos>,
    pub home_position: TilePos,
}

/// A unit of work the scheduler hands to a robot.
#[derive(Debug, Clone, Copy, PartialEq, Eq)]
pub struct Job {
    pub id: JobId,
    pub kind: JobKind,
    pub location: TilePos,
    pub required_capability: Capability,
    pub priority: u8,
    pub zone_id: ZoneId,
    pub created_at: u64,
    pub deadline: Option<u64>,
    pub assigned_robot: Option<EntityId>,
    pub status: JobStatus,
}

/// A rectangle of the farm dedicated to one crop.
#[derive(Debug, PartialEq, Eq)]
pub struct FieldZone {
    pub id: ZoneId,
    pub name: String,
    pub origin: TilePos,
    pub size: (u32, u32),
    pub crop_id: String,
    pub priority: u8,
    pub manager: Option<String>,
}

impl Clone for FieldZone {
    fn clone(&self) -> (r: Self)
        ensures
            r == *self,
    {
        FieldZone {
            id: self.id,
            name: self.name.clone(),
            origin: self.origin,
            size: self.size,
            crop_id: self.crop_id.clone(),
            priority: self.priority,
            manager: match &self.manager {
                Some(m) => Some(m.clone()),
                None => None,
            },
        }
    }
}

/// A building on the farm.
#[derive(Debug, Clone, Copy, PartialEq, Eq)]
pub struct Facility {
    pub id: EntityId,
    pub kind: FacilityKind,
    pub position: TilePos,
    pub powered: bool,
}

/// A contract of the campaign with its delivery progress.
#[derive(Debug, Clone, PartialEq, Eq)]
pub struct ActiveContract {
    pub definition: ContractDef,
    pub delivered: TextMap<u32>,
    pub accepted_at: u64,
    pub deadline: u64,
    pub status: ContractStatus,
    pub priority: u8,
}

/// Running totals of what happened on the farm.
#[derive(Debug, Clone, Copy, PartialEq, Eq, Default)]
pub struct GameMetrics {
    pub crops_produced: u64,
    pub crops_lost: u64,
    pub robot_work_minutes: u64,
    pub robot_idle_minutes: u64,
    pub robot_charge_minutes: u64,
    pub robot_recoveries: u64,
    pub jobs_created: u64,
    pub jobs_completed: u64,
    pub jobs_failed: u64,
    pub energy_generated: u64,
    pub energy_consumed: u64,
    pub water_consumed: u64,
    pub contracts_fulfilled: u64,
    pub contracts_expected: u64,
    pub manual_commands: u64,
    pub npc_commands: u64,
    pub packed_items: u64,
}

impl GameMetrics {
    /// All counters at zero.
    pub fn zero() -> (r: Self)
        ensures
            r == (GameMetrics {
                crops_produced: 0,
                crops_lost: 0,
                robot_work_minutes: 0,
                robot_idle_minutes: 0,
                robot_charge_minutes: 0,
                robot_recoveries: 0,
                jobs_created: 0,
                jobs_completed: 0,
                jobs_failed: 0,
                energy_generated: 0,
                energy_consumed: 0,
                water_consumed: 0,
                contracts_fulfilled: 0,
                contracts_expected: 0,
                manual_commands: 0,
                npc_commands: 0,
                packed_items: 0,
            }),
    {
        GameMetrics {
            crops_produced: 0,
            crops_lost: 0,
            robot_work_minutes: 0,
            robot_idle_minutes: 0,
            robot_charge_minutes: 0,
            robot_recoveries: 0,
            jobs_created: 0,
            jobs_completed: 0,
            jobs_failed: 0,
            energy_generated: 0,
            energy_consumed: 0,
            water_consumed: 0,
            contracts_fulfilled: 0,
            contracts_expected: 0,
            manual_commands: 0,
            npc_commands: 0,
            packed_items: 0,
        }
    }
}

/// A timed run in which the farm is scored on running without help.
#[derive(Debug, Clone, PartialEq, Eq)]
pub struct AutonomyTrial {
    pub start_time: u64,
    pub end_time: u64,
    pub baseline: GameMetrics,
    pub manual_interventions: u32,
    pub finished: bool,
    pub score: Option<u8>,
    pub grade: Option<String>,
}

/// The zones an NPC manager looks after.
#[derive(Debug, Clone, PartialEq, Eq)]
pub struct NpcAssignment {
    pub npc_id: String,
    pub display_name: String,
    pub managed_zones: Vec<ZoneId>,
}

/// Each id is larger than the one before it (so none occurs twice).
pub open spec fn strictly_increasing(s: Seq<u64>) -> bool {
    forall|i: int, j: int| 0 <= i < j < s.len() ==> s[i] < s[j]
}

impl NpcAssignment {
    /// Adds `zone_id` to the managed zones, kept in increasing order without repeats.
    pub fn manage(&mut self, zone_id: ZoneId)
        requires
            strictly_increasing(old(self).managed_zones@),
        ensures
            strictly_increasing(final(self).managed_zones@),
            final(self).managed_zones@.to_set() == old(self).managed_zones@.to_set().insert(zone_id),
            final(self).npc_id == old(self).npc_id,
            final(self).display_name == old(self).display_name,
    {
        let n = self.managed_zones.len();
        let mut i: usize = 0;
        while i < n && self.managed_zones[i] < zone_id
            invariant
                n == self.managed_zones@.len(),
                i <= n,
                forall|j: int| 0 <= j < i ==> self.managed_zones@[j] < zone_id,
            decreases n - i,
        {
            i += 1;
        }
        if i < n && self.managed_zones[i] == zone_id {
            assert(old(self).managed_zones@.to_set().insert(zone_id) =~= old(self).managed_zones@.to_set());
            return;
        }
        self.managed_zones.insert(i, zone_id);
        assert(self.managed_zones@ == old(self).managed_zones@.insert(i as int, zone_id));
        assert(self.managed_zones@.to_set() =~= old(self).managed_zones@.to_set().insert(zone_id)) by {
            assert forall|x: u64| self.managed_zones@.to_set().contains(x) implies old(self).managed_zones@.to_set().insert(zone_id).contains(x) by {
                let k = choose|k: int| 0 <= k < self.managed_zones@.len() && self.managed_zones@[k] == x;
                if k < i {
                    assert(old(self).managed_zones@[k] == x);
                } else if k > i {
                    assert(old(self).managed_zones@[k - 1] == x);
                }
            }
            assert forall|x: u64| old(self).managed_zones@.to_set().insert(zone_id).contains(x) implies self.managed_zones@.to_set().contains(x) by {
                if x == zone_id {
                    assert(self.managed_zones@[i as int] == x);
                } else {
                    let k = choose|k: int| 0 <= k < old(self).managed_zones@.len() && old(self).managed_zones@[k] == x;
                    if k < i {
                        assert(self.managed_zones@[k] == x);
                    } else {
                        assert(self.managed_zones@[k + 1] == x);
                    }
                }
            }
        }
    }
}

/// Something worth telling the player.
#[derive(Debug, Clone, PartialEq, Eq)]
pub enum FarmEvent {
    CropReady(TilePos),
    CropCritical(TilePos),
    RobotLowBattery(EntityId),
    RobotBroken(EntityId),
    StorageFull,
    WaterLow,
    PowerLow,
    ContractAccepted(String),
    ContractNearDeadline(String),
    ContractCompleted(String),
    ContractFailed(String),
    AutonomyTrialStarted,
    AutonomyTrialCompleted(u8),
    AiAction { actor: String, message: String, reason: String },
    Info(String),
}

} // verus!
