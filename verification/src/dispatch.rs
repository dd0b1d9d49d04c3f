use vstd::prelude::*;
use vstd::string::*;

use crate::campaign::{contract_activated, deadline_fits};
use crate::command::{CommandActor, CommandEnvelope, CommandError, EditorCommand, FarmCommand, GameCommand};
use crate::content::ContentCatalog;
use crate::execution::{
    entity_deleted, facility_built, first_zone, lemma_first_zone, logged, logged_info, logged_notice, notice_of,
    robot_deployed, zone_created, Notice,
};
use crate::farm::{ActiveContract, AutonomyTrial, FarmEvent, FieldZone, GameMetrics, NpcAssignment};
use crate::model::{facility_price, TilePos};
use crate::simulation::{refusal_of, GameSimulation, Refusal};
use crate::text::{decimal, push_decimal};

verus! {

/// The first garage bay that no robot calls home.
pub open spec fn first_free_bay(sim: GameSimulation) -> TilePos {
    let bays = sim.map.garage_bays@;
    bays[choose|b: int|
        0 <= b < bays.len() && sim.bay_is_free(bays[b]) && forall|c: int|
            0 <= c < b ==> !sim.bay_is_free(#[trigger] bays[c])]
}

/// The text announcing a change of a zone's priority.
pub open spec fn priority_change_text(name: Seq<char>, before: u8, after: u8) -> Seq<char> {
    "Zone "@ + name + " priority: "@ + decimal(before as nat) + " -> "@ + decimal(after as nat)
}

/// The text announcing an updated reserve policy of a robot.
pub open spec fn policy_text(robot_id: u64) -> Seq<char> {
    "Robot "@ + decimal(robot_id as nat) + " reserve policy updated"@
}

/// `b` is `a` after NPC `npc_id` takes over zone `zone_id`: the first zone with that
/// id names the NPC as its manager, and the NPC's managed zones include it.
pub open spec fn npc_assigned(a: GameSimulation, b: GameSimulation, npc_id: Seq<char>, zone_id: u64) -> bool {
    let i = first_zone(a.zones@, zone_id);
    let before = a.npc_assignments.to_map()[npc_id];
    let after = b.npc_assignments.to_map()[npc_id];
    &&& b == GameSimulation { zones: b.zones, npc_assignments: b.npc_assignments, ..a }
    &&& b.zones@.len() == a.zones@.len()
    &&& forall|j: int| 0 <= j < a.zones@.len() && j != i ==> #[trigger] b.zones@[j] == a.zones@[j]
    &&& b.zones@[i] == (FieldZone { manager: b.zones@[i].manager, ..a.zones@[i] })
    &&& b.zones@[i].manager matches Some(m) && m@ == npc_id
    &&& b.npc_assignments.to_map() == a.npc_assignments.to_map().insert(
        npc_id,
        NpcAssignment { managed_zones: after.managed_zones, ..before },
    )
    &&& after.managed_zones@.to_set() == before.managed_zones@.to_set().insert(zone_id)
}

/// `b` is `a` after carrying out farm command `command`, which the rules accept.
pub open spec fn farm_command_applied(a: GameSimulation, b: GameSimulation, command: FarmCommand) -> bool {
    match command {
        FarmCommand::CreateFieldZone { origin, size, crop_id } => zone_created(a, b, origin, size, crop_id@, 60),
        FarmCommand::SetZoneCrop { zone_id, crop_id } => {
            let i = first_zone(a.zones@, zone_id);
            &&& b == GameSimulation { zones: b.zones, ..a }
            &&& b.zones@ == a.zones@.update(i, FieldZone { crop_id, ..a.zones@[i] })
        },
        FarmCommand::SetZonePriority { zone_id, priority } => {
            let i = first_zone(a.zones@, zone_id);
            &&& b == GameSimulation { zones: b.zones, events: b.events, ..a }
            &&& b.zones@ == a.zones@.update(i, FieldZone { priority, ..a.zones@[i] })
            &&& logged_info(
                a.events@,
                b.events@,
                priority_change_text(a.zones@[i].name@, a.zones@[i].priority, priority),
            )
        },
        FarmCommand::AssignNpc { npc_id, zone_id } => npc_assigned(a, b, npc_id@, zone_id),
        FarmCommand::PurchaseRobot { robot_def_id } => {
            let price = a.catalog.robots.to_map()[robot_def_id@].purchase_price;
            exists|r: Option<u64>|
                #[trigger] robot_deployed(
                    GameSimulation { credits: (a.credits - price) as i32, ..a },
                    b,
                    robot_def_id@,
                    first_free_bay(a),
                    r,
                )
        },
        FarmCommand::SetRobotPolicy { robot_id, .. } => {
            &&& b == GameSimulation { events: b.events, ..a }
            &&& logged_info(a.events@, b.events@, policy_text(robot_id))
        },
        FarmCommand::BuildFacility { kind, position } => facility_built(
            GameSimulation { credits: (a.credits - facility_price(kind)) as i32, ..a },
            b,
            kind,
            position,
        ),
        FarmCommand::ChangeContractPriority { priority } => match a.current_contract {
            Some(i) => if i < a.contracts@.len() {
                &&& b == GameSimulation { contracts: b.contracts, ..a }
                &&& b.contracts@ == a.contracts@.update(
                    i as int,
                    ActiveContract { priority, ..a.contracts@[i as int] },
                )
            } else {
                b == a
            },
            None => b == a,
        },
        FarmCommand::StartAutonomyTrial { duration_minutes } => {
            &&& b == GameSimulation {
                autonomy_trial: Some(
                    AutonomyTrial {
                        start_time: a.clock.minute,
                        end_time: (a.clock.minute + duration_minutes) as u64,
                        baseline: a.metrics,
                        manual_interventions: 0,
                        finished: false,
                        score: None,
                        grade: None,
                    },
                ),
                events: b.events,
                ..a
            }
            &&& logged_notice(a.events@, b.events@, Notice::AutonomyTrialStarted)
        },
    }
}

/// The counters and sums that carrying out `command` touches stay in range.
pub open spec fn farm_command_fits(sim: GameSimulation, command: FarmCommand) -> bool {
    &&& sim.next_zone_id < u64::MAX
    &&& sim.next_entity_id < u64::MAX
    &&& (command matches FarmCommand::PurchaseRobot { robot_def_id } ==> (sim.robot_def_known(robot_def_id@)
        ==> sim.credits - sim.catalog.robots.to_map()[robot_def_id@].purchase_price <= i32::MAX))
    &&& (command matches FarmCommand::StartAutonomyTrial { duration_minutes } ==> sim.clock.minute
        + duration_minutes <= u64::MAX)
}

impl GameSimulation {
    /// Gives the first zone with `zone_id` a new crop.
    pub fn set_zone_crop(&mut self, zone_id: u64, crop_id: String)
        requires
            old(self).wf(),
            old(self).zone_exists(zone_id),
        ensures
            final(self).wf(),
            farm_command_applied(*old(self), *final(self), FarmCommand::SetZoneCrop { zone_id, crop_id }),
    {
        if let Some(i) = self.zone_index(zone_id) {
            proof {
                lemma_first_zone(self.zones@, zone_id, i as int);
            }
            self.zones[i].crop_id = crop_id;
        }
    }

    /// Gives the first zone with `zone_id` a new priority and announces the change.
    pub fn set_zone_priority(&mut self, zone_id: u64, priority: u8)
        requires
            old(self).wf(),
            old(self).zone_exists(zone_id),
        ensures
            final(self).wf(),
            farm_command_applied(*old(self), *final(self), FarmCommand::SetZonePriority { zone_id, priority }),
    {
        if let Some(i) = self.zone_index(zone_id) {
            proof {
                lemma_first_zone(self.zones@, zone_id, i as int);
            }
            let before = self.zones[i].priority;
            self.zones[i].priority = priority;
            let mut text = "Zone ".to_string();
            text.append(self.zones[i].name.as_str());
            text.append(" priority: ");
            push_decimal(&mut text, before as u64);
            text.append(" -> ");
            push_decimal(&mut text, priority as u64);
            let ghost log = self.events@;
            let event = FarmEvent::Info(text);
            let ghost ev = event;
            self.push_event(event);
            assert(self.events@ == logged(log, ev));
        }
    }

    /// Puts NPC `npc_id` in charge of zone `zone_id`.
    pub fn assign_npc(&mut self, npc_id: String, zone_id: u64)
        requires
            old(self).wf(),
            old(self).zone_exists(zone_id),
            old(self).npc_assignments.to_map().contains_key(npc_id@),
        ensures
            final(self).wf(),
            npc_assigned(*old(self), *final(self), npc_id@, zone_id),
    {
        if let Some(i) = self.zone_index(zone_id) {
            proof {
                lemma_first_zone(self.zones@, zone_id, i as int);
            }
            self.zones[i].manager = Some(npc_id.clone());
        }
        let ghost mid = self.npc_assignments;
        if let Some(mut npc) = self.npc_assignments.remove(npc_id.as_str()) {
            proof {
                let k = mid.index_of(npc_id@);
                mid.lemma_index_of(k);
                assert(mid.entries@[k].1 == npc);
            }
            npc.manage(zone_id);
            self.npc_assignments.insert(npc_id, npc);
            proof {
                assert(self.npc_assignments.to_map() =~= mid.to_map().insert(npc_id@, npc));
            }
        }
    }
}

impl GameSimulation {
    /// Buys a robot of model `robot_def_id` and parks it in the first free garage bay.
    pub fn purchase_robot(&mut self, robot_def_id: String) -> (r: Result<(), CommandError>)
        requires
            old(self).wf(),
            old(self).farm_refusal(FarmCommand::PurchaseRobot { robot_def_id }) is None,
            farm_command_fits(*old(self), FarmCommand::PurchaseRobot { robot_def_id }),
        ensures
            final(self).wf(),
            r is Ok,
            farm_command_applied(*old(self), *final(self), FarmCommand::PurchaseRobot { robot_def_id }),
            final(self).world_revision == old(self).world_revision,
            final(self).metrics == old(self).metrics,
            final(self).autonomy_trial == old(self).autonomy_trial,
    {
        let price = match self.catalog.robots.get(robot_def_id.as_str()) {
            Some(definition) => definition.purchase_price,
            None => {
                return Err(CommandError::NotFound(crate::text::text_with_text("robot definition ", robot_def_id.as_str())));
            },
        };
        let ghost a = *self;
        self.credits = self.credits - price;
        let position = match self.available_garage_bay() {
            Some(bay) => bay,
            None => {
                return Err(CommandError::Invalid("robot garage has no free parking bay".to_string()));
            },
        };
        proof {
            let b = choose|b: int|
                0 <= b < a.map.garage_bays@.len() && a.bay_is_free(a.map.garage_bays@[b]) && forall|c: int|
                    0 <= c < b ==> !a.bay_is_free(#[trigger] a.map.garage_bays@[c]);
            let w = choose|w: int|
                0 <= w < self.map.garage_bays@.len() && #[trigger] self.map.garage_bays@[w] == position
                    && self.bay_is_free(position) && forall|c: int|
                    0 <= c < w ==> !self.bay_is_free(#[trigger] self.map.garage_bays@[c]);
            assert(a.bay_is_free(a.map.garage_bays@[w]));
            if b < w {
                assert(!self.bay_is_free(self.map.garage_bays@[b]));
            } else if w < b {
                assert(!a.bay_is_free(a.map.garage_bays@[w]));
            }
            assert(first_free_bay(a) == position);
        }
        let ghost m = *self;
        let r = self.spawn_robot_unchecked(robot_def_id.as_str(), position);
        assert(robot_deployed(m, *self, robot_def_id@, position, r));
        Ok(())
    }

    /// Records that the reserve policy of robot `robot_id` was updated.
    pub fn set_robot_policy(&mut self, robot_id: u64, reserve_battery_percent: u8)
        requires
            old(self).wf(),
        ensures
            final(self).wf(),
            farm_command_applied(
                *old(self),
                *final(self),
                FarmCommand::SetRobotPolicy { robot_id, reserve_battery_percent },
            ),
    {
        let mut text = "Robot ".to_string();
        push_decimal(&mut text, robot_id);
        text.append(" reserve policy updated");
        let ghost log = self.events@;
        let event = FarmEvent::Info(text);
        let ghost ev = event;
        self.push_event(event);
        assert(self.events@ == logged(log, ev));
    }

    /// Pays for and builds a facility of `kind` at `position`.
    pub fn build_facility(&mut self, kind: crate::model::FacilityKind, position: TilePos)
        requires
            old(self).wf(),
            old(self).farm_refusal(FarmCommand::BuildFacility { kind, position }) is None,
            old(self).next_entity_id < u64::MAX,
        ensures
            final(self).wf(),
            farm_command_applied(*old(self), *final(self), FarmCommand::BuildFacility { kind, position }),
    {
        self.credits = self.credits - kind.price();
        self.spawn_facility_unchecked(kind, position);
    }

    /// Gives the current contract a new priority.
    pub fn change_contract_priority(&mut self, priority: u8)
        requires
            old(self).wf(),
        ensures
            final(self).wf(),
            farm_command_applied(*old(self), *final(self), FarmCommand::ChangeContractPriority { priority }),
    {
        if let Some(index) = self.current_contract {
            if index < self.contracts.len() {
                self.contracts[index].priority = priority;
            }
        }
    }
}

impl GameSimulation {
    /// Carries out a farm command that the rules accept.
    pub fn execute_farm_command(&mut self, command: FarmCommand) -> (r: Result<(), CommandError>)
        requires
            old(self).wf(),
            old(self).farm_refusal(command) is None,
            farm_command_fits(*old(self), command),
        ensures
            final(self).wf(),
            r is Ok,
            farm_command_applied(*old(self), *final(self), command),
            final(self).world_revision == old(self).world_revision,
            final(self).metrics == old(self).metrics,
            final(self).autonomy_trial == old(self).autonomy_trial || (final(self).autonomy_trial matches Some(t)
                && t.manual_interventions == 0),
    {
        match command {
            FarmCommand::CreateFieldZone { origin, size, crop_id } => {
                self.create_zone_unchecked(origin, size, crop_id.as_str(), 60);
            },
            FarmCommand::SetZoneCrop { zone_id, crop_id } => {
                self.set_zone_crop(zone_id, crop_id);
            },
            FarmCommand::SetZonePriority { zone_id, priority } => {
                self.set_zone_priority(zone_id, priority);
            },
            FarmCommand::AssignNpc { npc_id, zone_id } => {
                self.assign_npc(npc_id, zone_id);
            },
            FarmCommand::PurchaseRobot { robot_def_id } => {
                return self.purchase_robot(robot_def_id);
            },
            FarmCommand::SetRobotPolicy { robot_id, reserve_battery_percent } => {
                self.set_robot_policy(robot_id, reserve_battery_percent);
            },
            FarmCommand::BuildFacility { kind, position } => {
                self.build_facility(kind, position);
            },
            FarmCommand::ChangeContractPriority { priority } => {
                self.change_contract_priority(priority);
            },
            FarmCommand::StartAutonomyTrial { duration_minutes } => {
                self.start_autonomy_trial(duration_minutes);
            },
        }
        Ok(())
    }
}

/// Robots of model `robot_def_id` deployed `k` times in a row near `position`.
pub open spec fn robots_deployed(
    a: GameSimulation,
    b: GameSimulation,
    robot_def_id: Seq<char>,
    position: TilePos,
    k: nat,
) -> bool
    decreases k,
{
    if k == 0 {
        b == a
    } else {
        exists|m: GameSimulation, id: u64|
            robots_deployed(a, m, robot_def_id, position, (k - 1) as nat) && #[trigger] robot_deployed(
                m,
                b,
                robot_def_id,
                position,
                Some(id),
            )
    }
}

/// The reason given when no free cell near `position` can take another robot.
pub open spec fn spawn_failure_text(position: TilePos) -> Seq<char> {
    "there is no collision-free spawn near ("@ + decimal(position.x as nat) + ", "@ + decimal(
        position.y as nat,
    ) + ")"@
}

/// The sum saturated to the range of `i32`.
pub open spec fn saturated_sum(x: i32, y: i32) -> i32 {
    if x + y > i32::MAX {
        i32::MAX
    } else if x + y < i32::MIN {
        i32::MIN
    } else {
        (x + y) as i32
    }
}

/// The first contract with id `id`.
pub open spec fn first_contract(s: Seq<ActiveContract>, id: Seq<char>) -> int {
    choose|i: int|
        0 <= i < s.len() && s[i].definition.id@ == id && forall|j: int|
            0 <= j < i ==> #[trigger] s[j].definition.id@ != id
}

/// `b` is `a` after carrying out editor command `command`, which the rules accept,
/// with outcome `r`: only a spawn of robots can fail, once no free cell is left,
/// keeping the robots deployed before.
pub open spec fn editor_command_applied(
    a: GameSimulation,
    b: GameSimulation,
    command: EditorCommand,
    r: Result<(), CommandError>,
) -> bool {
    match command {
        EditorCommand::PlaceBuilding { kind, position } => r is Ok && facility_built(a, b, kind, position),
        EditorCommand::DeleteEntity { entity_id } => r is Ok && entity_deleted(a, b, entity_id),
        EditorCommand::CreateFieldZone { origin, size, crop_id } => r is Ok && zone_created(
            a,
            b,
            origin,
            size,
            crop_id@,
            60,
        ),
        EditorCommand::SpawnRobot { robot_def_id, count, position } => {
            &&& (r is Ok ==> robots_deployed(a, b, robot_def_id@, position, count as nat))
            &&& (r matches Err(e) ==> {
                &&& refusal_of(e) == Refusal::Invalid(spawn_failure_text(position))
                &&& robot_deployed(b, b, robot_def_id@, position, None)
                &&& exists|k: nat| k < count && #[trigger] robots_deployed(a, b, robot_def_id@, position, k)
            })
        },
        EditorCommand::PatchCropDefinition { definition } => {
            &&& r is Ok
            &&& b == GameSimulation {
                catalog: ContentCatalog { crops: b.catalog.crops, ..a.catalog },
                ..a
            }
            &&& b.catalog.crops.to_map() == a.catalog.crops.to_map().insert(definition.id@, definition)
        },
        EditorCommand::SetEnvironment { weather } => r is Ok && b == GameSimulation { weather, ..a },
        EditorCommand::GiveCredits { amount } => r is Ok && b == GameSimulation {
            credits: saturated_sum(a.credits, amount),
            ..a
        },
        EditorCommand::StartContract { contract_id } => r is Ok && contract_activated(
            a,
            b,
            first_contract(a.contracts@, contract_id@),
        ),
        EditorCommand::SetSimulationSpeed { speed } => r is Ok && b == GameSimulation {
            clock: crate::clock::SimClock {
                paused: speed == 0,
                speed: if speed == 0 {
                    1
                } else {
                    speed
                },
                ..a.clock
            },
            ..a
        },
    }
}

/// The counters and sums that carrying out `command` touches stay in range.
pub open spec fn editor_command_fits(sim: GameSimulation, command: EditorCommand) -> bool {
    &&& sim.next_zone_id < u64::MAX
    &&& sim.next_entity_id + 256 <= u64::MAX
    &&& forall|i: int| deadline_fits(sim, i)
}

impl GameSimulation {
    /// Deploys `count` robots of model `robot_def_id` near `position`, one after the other.
    pub fn spawn_robots(&mut self, robot_def_id: String, count: u8, position: TilePos) -> (r: Result<(), CommandError>)
        requires
            old(self).wf(),
            old(self).next_entity_id + count < u64::MAX,
        ensures
            final(self).wf(),
            editor_command_applied(
                *old(self),
                *final(self),
                EditorCommand::SpawnRobot { robot_def_id, count, position },
                r,
            ),
            final(self).world_revision == old(self).world_revision,
            final(self).metrics == old(self).metrics,
            final(self).autonomy_trial == old(self).autonomy_trial,
    {
        let mut k: u8 = 0;
        while k < count
            invariant
                self.wf(),
                k <= count,
                self.next_entity_id == old(self).next_entity_id + k,
                old(self).next_entity_id + count < u64::MAX,
                robots_deployed(*old(self), *self, robot_def_id@, position, k as nat),
                self.world_revision == old(self).world_revision,
                self.metrics == old(self).metrics,
                self.autonomy_trial == old(self).autonomy_trial,
            decreases count - k,
        {
            let ghost m = *self;
            match self.spawn_robot_unchecked(robot_def_id.as_str(), position) {
                None => {
                    assert(robots_deployed(*old(self), *self, robot_def_id@, position, k as nat));
                    let mut text = "there is no collision-free spawn near (".to_string();
                    push_decimal(&mut text, position.x as u64);
                    text.append(", ");
                    push_decimal(&mut text, position.y as u64);
                    text.append(")");
                    return Err(CommandError::Invalid(text));
                },
                Some(id) => {
                    assert(robot_deployed(m, *self, robot_def_id@, position, Some(id)));
                    assert(robots_deployed(*old(self), *self, robot_def_id@, position, (k + 1) as nat));
                },
            }
            k += 1;
        }
        Ok(())
    }

    /// Adds `amount` credits, saturating at the bounds of the balance.
    pub fn give_credits(&mut self, amount: i32)
        ensures
            *final(self) == (GameSimulation { credits: saturated_sum(old(self).credits, amount), ..*old(self) }),
    {
        self.credits = match self.credits.checked_add(amount) {
            Some(v) => v,
            None => if amount > 0 {
                i32::MAX
            } else {
                i32::MIN
            },
        };
    }

    /// Replaces (or adds) the crop definition with the id of `definition`.
    pub fn patch_crop_definition(&mut self, definition: crate::content::CropDef)
        requires
            old(self).wf(),
        ensures
            final(self).wf(),
            editor_command_applied(*old(self), *final(self), EditorCommand::PatchCropDefinition { definition }, Ok(())),
    {
        let id = definition.id.clone();
        self.catalog.crops.insert(id, definition);
    }

    /// Accepts the first contract with id `contract_id`.
    pub fn start_contract(&mut self, contract_id: String)
        requires
            old(self).wf(),
            old(self).contract_exists(contract_id@),
            forall|i: int| deadline_fits(*old(self), i),
        ensures
            final(self).wf(),
            editor_command_applied(*old(self), *final(self), EditorCommand::StartContract { contract_id }, Ok(())),
    {
        if let Some(index) = self.contract_index(contract_id.as_str()) {
            proof {
                let s = self.contracts@;
                let c = first_contract(s, contract_id@);
                assert(0 <= c < s.len() && s[c].definition.id@ == contract_id@);
                if c < index {
                    assert(s[c].definition.id@ != contract_id@);
                } else if c > index {
                    assert(s[index as int].definition.id@ != contract_id@);
                }
            }
            self.activate_contract(index);
        }
    }

    /// Pauses the clock at speed zero, otherwise runs it at `speed`.
    pub fn set_simulation_speed(&mut self, speed: u8)
        ensures
            editor_command_applied(*old(self), *final(self), EditorCommand::SetSimulationSpeed { speed }, Ok(())),
    {
        self.clock.paused = speed == 0;
        self.clock.speed = if speed == 0 {
            1
        } else {
            speed
        };
    }
}

impl GameSimulation {
    /// Carries out an editor command that the rules accept.
    pub fn execute_editor_command(&mut self, command: EditorCommand) -> (r: Result<(), CommandError>)
        requires
            old(self).wf(),
            old(self).editor_refusal(command) is None,
            editor_command_fits(*old(self), command),
        ensures
            final(self).wf(),
            editor_command_applied(*old(self), *final(self), command, r),
            final(self).world_revision == old(self).world_revision,
            final(self).metrics == old(self).metrics,
            final(self).autonomy_trial == old(self).autonomy_trial,
    {
        match command {
            EditorCommand::PlaceBuilding { kind, position } => {
                self.spawn_facility_unchecked(kind, position);
            },
            EditorCommand::DeleteEntity { entity_id } => {
                self.delete_entity(entity_id);
            },
            EditorCommand::CreateFieldZone { origin, size, crop_id } => {
                self.create_zone_unchecked(origin, size, crop_id.as_str(), 60);
            },
            EditorCommand::SpawnRobot { robot_def_id, count, position } => {
                return self.spawn_robots(robot_def_id, count, position);
            },
            EditorCommand::PatchCropDefinition { definition } => {
                self.patch_crop_definition(definition);
            },
            EditorCommand::SetEnvironment { weather } => {
                self.weather = weather;
            },
            EditorCommand::GiveCredits { amount } => {
                self.give_credits(amount);
            },
            EditorCommand::StartContract { contract_id } => {
                self.start_contract(contract_id);
            },
            EditorCommand::SetSimulationSpeed { speed } => {
                self.set_simulation_speed(speed);
            },
        }
        Ok(())
    }
}

/// `b` is `a` after carrying out the accepted `command`, with outcome `r`.
pub open spec fn command_executed(a: GameSimulation, b: GameSimulation, command: GameCommand, r: Result<(), CommandError>) -> bool {
    &&& b.world_revision == a.world_revision
    &&& match command {
        GameCommand::Farm(c) => r is Ok && farm_command_applied(a, b, c),
        GameCommand::Editor(c) => editor_command_applied(a, b, c, r),
    }
}

/// Whether `command` starts an autonomy trial.
pub open spec fn starts_trial(command: GameCommand) -> bool {
    command matches GameCommand::Farm(FarmCommand::StartAutonomyTrial { .. })
}

/// `b` is `a` after the bookkeeping of an accepted command by `actor`: a human's
/// command counts as manual (and as an intervention in a running trial, unless it
/// starts one), an NPC's as an NPC command, and the world revision moves on by one.
pub open spec fn command_recorded(a: GameSimulation, b: GameSimulation, actor: CommandActor, command: GameCommand) -> bool {
    b == GameSimulation {
        metrics: match actor {
            CommandActor::Human => GameMetrics {
                manual_commands: (a.metrics.manual_commands + 1) as u64,
                ..a.metrics
            },
            CommandActor::Npc(_) => GameMetrics { npc_commands: (a.metrics.npc_commands + 1) as u64, ..a.metrics },
            _ => a.metrics,
        },
        autonomy_trial: match a.autonomy_trial {
            Some(t) => if actor is Human && !t.finished && !starts_trial(command) {
                Some(AutonomyTrial { manual_interventions: (t.manual_interventions + 1) as u32, ..t })
            } else {
                Some(t)
            },
            None => None,
        },
        world_revision: (a.world_revision + 1) as u64,
        ..a
    }
}

/// `b` and `r` are what applying `envelope` to `a` gives: a refused envelope is
/// answered with its refusal and changes nothing; an accepted one is carried out and,
/// when that succeeds, recorded.
pub open spec fn command_applied(a: GameSimulation, b: GameSimulation, envelope: CommandEnvelope, r: Result<(), CommandError>) -> bool {
    match a.command_refusal(envelope) {
        Some(refusal) => r matches Err(e) && refusal_of(e) == refusal && b == a,
        None => exists|m: GameSimulation|
            #[trigger] command_executed(a, m, envelope.command, r) && (r is Ok ==> command_recorded(
                m,
                b,
                envelope.actor,
                envelope.command,
            )) && (r is Err ==> b == m),
    }
}

/// Carrying out `command` keeps every counter and sum in range.
pub open spec fn game_command_fits(sim: GameSimulation, command: GameCommand) -> bool {
    &&& sim.world_revision < u64::MAX
    &&& sim.metrics.manual_commands < u64::MAX
    &&& sim.metrics.npc_commands < u64::MAX
    &&& (sim.autonomy_trial matches Some(t) ==> t.manual_interventions < u32::MAX)
    &&& match command {
        GameCommand::Farm(c) => farm_command_fits(sim, c),
        GameCommand::Editor(c) => editor_command_fits(sim, c),
    }
}

/// Applying `envelope` keeps every counter and sum in range.
pub open spec fn command_fits(sim: GameSimulation, envelope: CommandEnvelope) -> bool {
    game_command_fits(sim, envelope.command)
}

impl GameSimulation {
    /// Whether carrying out farm command `command` now keeps every counter and sum in range.
    pub fn farm_command_fits_now(&self, command: &FarmCommand) -> (r: bool)
        requires
            self.wf(),
        ensures
            r == game_command_fits(*self, GameCommand::Farm(*command)),
    {
        if self.world_revision == u64::MAX || self.metrics.manual_commands == u64::MAX
            || self.metrics.npc_commands == u64::MAX {
            return false;
        }
        match &self.autonomy_trial {
            Some(t) => if t.manual_interventions == u32::MAX {
                return false;
            },
            None => {},
        }
        if self.next_zone_id == u64::MAX || self.next_entity_id == u64::MAX {
            return false;
        }
        match command {
            FarmCommand::PurchaseRobot { robot_def_id } => match self.catalog.robots.get(robot_def_id.as_str()) {
                Some(definition) => (self.credits as i64) - (definition.purchase_price as i64) <= i32::MAX as i64,
                None => true,
            },
            FarmCommand::StartAutonomyTrial { duration_minutes } => *duration_minutes <= u64::MAX - self.clock.minute,
            _ => true,
        }
    }

    /// Whether carrying out editor command `command` now keeps every counter and sum in range.
    pub fn editor_command_fits_now(&self, command: &EditorCommand) -> (r: bool)
        requires
            self.wf(),
        ensures
            r == game_command_fits(*self, GameCommand::Editor(*command)),
    {
        if self.world_revision == u64::MAX || self.metrics.manual_commands == u64::MAX
            || self.metrics.npc_commands == u64::MAX {
            return false;
        }
        match &self.autonomy_trial {
            Some(t) => if t.manual_interventions == u32::MAX {
                return false;
            },
            None => {},
        }
        if self.next_zone_id == u64::MAX || self.next_entity_id > u64::MAX - 256 {
            return false;
        }
        let mut i: usize = 0;
        while i < self.contracts.len()
            invariant
                i <= self.contracts@.len(),
                forall|j: int| 0 <= j < i ==> deadline_fits(*self, j),
            decreases self.contracts@.len() - i,
        {
            if self.contracts[i].definition.deadline_minutes > u64::MAX - self.clock.minute {
                assert(!deadline_fits(*self, i as int));
                return false;
            }
            i += 1;
        }
        assert forall|j: int| deadline_fits(*self, j) by {
            if 0 <= j < self.contracts@.len() {
                assert(j < i);
            }
        }
        true
    }

    /// Whether carrying out `command` now keeps every counter and sum in range.
    pub fn command_fits_now(&self, command: &GameCommand) -> (r: bool)
        requires
            self.wf(),
        ensures
            r == game_command_fits(*self, *command),
    {
        match command {
            GameCommand::Farm(c) => self.farm_command_fits_now(c),
            GameCommand::Editor(c) => self.editor_command_fits_now(c),
        }
    }
}

impl GameSimulation {
    /// Validates `envelope` and, if it is accepted, carries it out and records it.
    pub fn apply_command(&mut self, envelope: CommandEnvelope) -> (r: Result<(), CommandError>)
        requires
            old(self).wf(),
            command_fits(*old(self), envelope),
        ensures
            final(self).wf(),
            command_applied(*old(self), *final(self), envelope, r),
    {
        let checked = self.validate_command(&envelope);
        match checked {
            Err(e) => {
                return Err(e);
            },
            Ok(()) => {},
        }
        assert(self.command_refusal(envelope) is None);
        let trial_command = match &envelope.command {
            GameCommand::Farm(FarmCommand::StartAutonomyTrial { .. }) => true,
            _ => false,
        };
        let ghost env = envelope;
        let CommandEnvelope { actor, command, .. } = envelope;
        let outcome = match command {
            GameCommand::Farm(c) => self.execute_farm_command(c),
            GameCommand::Editor(c) => self.execute_editor_command(c),
        };
        let ghost m = *self;
        assert(command_executed(*old(self), m, env.command, outcome));
        match outcome {
            Err(e) => {
                return Err(e);
            },
            Ok(()) => {},
        }
        match actor {
            CommandActor::Human => {
                self.metrics.manual_commands = self.metrics.manual_commands + 1;
                let trial = self.autonomy_trial.take();
                self.autonomy_trial = match trial {
                    Some(t) => if !t.finished && !trial_command {
                        Some(AutonomyTrial { manual_interventions: t.manual_interventions + 1, ..t })
                    } else {
                        Some(t)
                    },
                    None => None,
                };
            },
            CommandActor::Npc(_) => {
                self.metrics.npc_commands = self.metrics.npc_commands + 1;
            },
            _ => {},
        }
        self.world_revision = self.world_revision + 1;
        assert(command_recorded(m, *self, env.actor, env.command));
        assert(old(self).command_refusal(env) is None);
        assert(command_executed(*old(self), m, env.command, Ok(())));
        Ok(())
    }

    /// An envelope for `command` by `actor`, planned against the current revision,
    /// with the next command id.
    pub fn next_command(&mut self, actor: CommandActor, command: GameCommand) -> (r: CommandEnvelope)
        requires
            old(self).next_command_id < u64::MAX,
        ensures
            r == (CommandEnvelope {
                id: old(self).next_command_id,
                actor,
                expected_world_revision: old(self).world_revision,
                command,
            }),
            *final(self) == (GameSimulation { next_command_id: (old(self).next_command_id + 1) as u64, ..*old(self) }),
    {
        let envelope = CommandEnvelope {
            id: self.next_command_id,
            actor,
            expected_world_revision: self.world_revision,
            command,
        };
        self.next_command_id = self.next_command_id + 1;
        envelope
    }

    /// Records something an AI actor did, with its reason.
    pub fn record_ai_event(&mut self, actor: String, message: String, reason: String)
        ensures
            *final(self) == (GameSimulation { events: final(self).events, ..*old(self) }),
            logged_notice(
                old(self).events@,
                final(self).events@,
                Notice::AiAction { actor: actor@, message: message@, reason: reason@ },
            ),
    {
        let ghost before = self.events@;
        let event = FarmEvent::AiAction { actor, message, reason };
        let ghost ev = event;
        self.push_event(event);
        assert(self.events@ == logged(before, ev));
    }
}

/// Once a command has been accepted, the world revision has moved on by one, and
/// any envelope planned against the revision before it is refused as stale, naming
/// the revision it expected and the current one.
pub proof fn accepted_command_outdates_older_plans(
    a: GameSimulation,
    b: GameSimulation,
    envelope: CommandEnvelope,
    later: CommandEnvelope,
)
    requires
        command_applied(a, b, envelope, Ok(())),
        later.expected_world_revision == a.world_revision,
        a.world_revision < u64::MAX,
    ensures
        b.world_revision == a.world_revision + 1,
        b.command_refusal(later) == Some(
            Refusal::Stale { expected: a.world_revision, current: (a.world_revision + 1) as u64 },
        ),
{
    let m = choose|m: GameSimulation|
        #[trigger] command_executed(a, m, envelope.command, Ok(())) && (Ok::<(), CommandError>(()) is Ok ==> command_recorded(
            m,
            b,
            envelope.actor,
            envelope.command,
        )) && (Ok::<(), CommandError>(()) is Err ==> b == m);
    assert(command_recorded(m, b, envelope.actor, envelope.command));
}

/// A refused envelope is answered with exactly the refusal the rules give, and the
/// farm is left as it was.
pub proof fn refused_command_changes_nothing(
    a: GameSimulation,
    b: GameSimulation,
    envelope: CommandEnvelope,
    r: Result<(), CommandError>,
)
    requires
        command_applied(a, b, envelope, r),
        a.command_refusal(envelope) is Some,
    ensures
        b == a,
        r matches Err(e) && Some(refusal_of(e)) == a.command_refusal(envelope),
{
}

} // verus!
