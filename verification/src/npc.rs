use vstd::prelude::*;
use vstd::string::*;

use crate::command::{CommandActor, CommandEnvelope, CommandError, FarmCommand, GameCommand};
use crate::dispatch::{command_applied, game_command_fits};
use crate::execution::{logged_notice, Notice};
use crate::farm::{FieldZone, Job};
use crate::grid::{clipped_end, lemma_rect_rows_inside, Tile};
use crate::model::TilePos;
use crate::scheduling::zone_cells;
use crate::simulation::GameSimulation;
use crate::textmap::text_eq;

verus! {

/// What an NPC manager sees of one of its zones.
#[derive(Debug, PartialEq, Eq)]
pub struct ZoneSnapshot {
    pub id: u64,
    pub crop_id: String,
    pub priority: u8,
    pub critical_tiles: usize,
    pub pending_jobs: usize,
}

/// A crop in trouble: nearly dry or in poor health.
pub open spec fn tile_critical(t: Tile) -> bool {
    t.crop matches Some(c) && (c.moisture < 20 || c.health < 40)
}

/// How many of `cells` hold a crop in trouble.
pub open spec fn critical_count(sim: GameSimulation, cells: Seq<TilePos>) -> int
    decreases cells.len(),
{
    if cells.len() == 0 {
        0
    } else {
        critical_count(sim, cells.drop_last()) + if sim.grid.in_bounds(cells.last()) && tile_critical(
            sim.grid.tile_at(cells.last()),
        ) {
            1int
        } else {
            0int
        }
    }
}

/// How many of `jobs` belong to zone `zone_id`.
pub open spec fn zone_job_count(jobs: Seq<Job>, zone_id: u64) -> int
    decreases jobs.len(),
{
    if jobs.len() == 0 {
        0
    } else {
        zone_job_count(jobs.drop_last(), zone_id) + if jobs.last().zone_id == zone_id {
            1int
        } else {
            0int
        }
    }
}

proof fn lemma_critical_count_bound(sim: GameSimulation, cells: Seq<TilePos>)
    ensures
        0 <= critical_count(sim, cells) <= cells.len(),
    decreases cells.len(),
{
    if cells.len() > 0 {
        lemma_critical_count_bound(sim, cells.drop_last());
    }
}

proof fn lemma_zone_job_count_bound(jobs: Seq<Job>, zone_id: u64)
    ensures
        0 <= zone_job_count(jobs, zone_id) <= jobs.len(),
    decreases jobs.len(),
{
    if jobs.len() > 0 {
        lemma_zone_job_count_bound(jobs.drop_last(), zone_id);
    }
}

/// The snapshot of `zone` an NPC manager sees.
pub open spec fn snapshot_of(sim: GameSimulation, zone: FieldZone, s: ZoneSnapshot) -> bool {
    &&& s.id == zone.id
    &&& s.crop_id@ == zone.crop_id@
    &&& s.priority == zone.priority
    &&& s.critical_tiles == critical_count(sim, zone_cells(sim, zone))
    &&& s.pending_jobs == zone_job_count(sim.jobs@, zone.id)
}

/// The zones an NPC manages, in the farm's order: those listed, or every zone when
/// it lists none.
pub open spec fn managed_zone(managed: Seq<u64>, zone: FieldZone) -> bool {
    managed.len() == 0 || managed.contains(zone.id)
}

pub open spec fn managed_zones(zones: Seq<FieldZone>, managed: Seq<u64>) -> Seq<FieldZone>
    decreases zones.len(),
{
    if zones.len() == 0 {
        Seq::empty()
    } else if managed_zone(managed, zones.last()) {
        managed_zones(zones.drop_last(), managed).push(zones.last())
    } else {
        managed_zones(zones.drop_last(), managed)
    }
}

impl GameSimulation {
    /// The snapshot of `zone` an NPC manager sees.
    pub fn zone_snapshot(&self, zone: &FieldZone) -> (r: ZoneSnapshot)
        requires
            self.grid.wf(),
        ensures
            snapshot_of(*self, *zone, r),
    {
        let cells = self.grid.positions_in_rect(zone.origin, zone.size);
        let ghost all = zone_cells(*self, *zone);
        let mut critical: usize = 0;
        let mut k: usize = 0;
        while k < cells.len()
            invariant
                self.grid.wf(),
                cells@ == all,
                all == zone_cells(*self, *zone),
                k <= cells@.len(),
                critical == critical_count(*self, all.take(k as int)),
            decreases cells@.len() - k,
        {
            proof {
                assert(all.take(k + 1).drop_last() =~= all.take(k as int));
                lemma_critical_count_bound(*self, all.take(k as int));
                let p = all[k as int];
                if self.grid.in_bounds(p) {
                    crate::grid::lemma_row_major(self.grid.width, self.grid.height, p);
                }
            }
            let p = cells[k];
            let hit = match self.grid.tile(p) {
                Some(t) => match &t.crop {
                    Some(c) => c.moisture < 20 || c.health < 40,
                    None => false,
                },
                None => false,
            };
            if hit {
                critical = critical + 1;
            }
            k += 1;
        }
        assert(all.take(all.len() as int) =~= all);
        let mut pending: usize = 0;
        let mut j: usize = 0;
        while j < self.jobs.len()
            invariant
                j <= self.jobs@.len(),
                pending == zone_job_count(self.jobs@.take(j as int), zone.id),
            decreases self.jobs@.len() - j,
        {
            proof {
                assert(self.jobs@.take(j + 1).drop_last() =~= self.jobs@.take(j as int));
                lemma_zone_job_count_bound(self.jobs@.take(j as int), zone.id);
            }
            if self.jobs[j].zone_id == zone.id {
                pending = pending + 1;
            }
            j += 1;
        }
        assert(self.jobs@.take(self.jobs@.len() as int) =~= self.jobs@);
        ZoneSnapshot {
            id: zone.id,
            crop_id: zone.crop_id.clone(),
            priority: zone.priority,
            critical_tiles: critical,
            pending_jobs: pending,
        }
    }

    /// Snapshots of the zones an NPC manages (every zone when `managed` is empty), in order.
    pub fn zone_snapshots(&self, managed: &Vec<u64>) -> (r: Vec<ZoneSnapshot>)
        requires
            self.grid.wf(),
        ensures
            r@.len() == managed_zones(self.zones@, managed@).len(),
            forall|i: int| 0 <= i < r@.len() ==> snapshot_of(*self, managed_zones(self.zones@, managed@)[i], #[trigger] r@[i]),
    {
        let mut out: Vec<ZoneSnapshot> = Vec::new();
        let mut z: usize = 0;
        while z < self.zones.len()
            invariant
                self.grid.wf(),
                z <= self.zones@.len(),
                out@.len() == managed_zones(self.zones@.take(z as int), managed@).len(),
                forall|i: int| 0 <= i < out@.len() ==> snapshot_of(*self, managed_zones(self.zones@.take(z as int), managed@)[i], #[trigger] out@[i]),
            decreases self.zones@.len() - z,
        {
            proof {
                assert(self.zones@.take(z + 1).drop_last() =~= self.zones@.take(z as int));
            }
            let zone = &self.zones[z];
            let mut listed = managed.len() == 0;
            let mut m: usize = 0;
            while m < managed.len()
                invariant
                    m <= managed@.len(),
                    listed == (managed@.len() == 0 || exists|q: int| 0 <= q < m && managed@[q] == zone.id),
                decreases managed@.len() - m,
            {
                if managed[m] == zone.id {
                    listed = true;
                }
                m += 1;
            }
            if listed {
                let snapshot = self.zone_snapshot(zone);
                out.push(snapshot);
            }
            z += 1;
        }
        assert(self.zones@.take(self.zones@.len() as int) =~= self.zones@);
        out
    }
}

/// The change an NPC manager asks for on the zone it favours, and why.
#[derive(Debug, PartialEq, Eq)]
pub struct NpcDirective {
    pub zone_id: Option<u64>,
    pub priority: u8,
    pub message: String,
    pub rationale: String,
}

/// The priority an NPC gives its favoured zone: Aster raises it for contract
/// throughput (higher with an active contract), Mira for crop health (higher with
/// crops in trouble).
pub open spec fn directive_priority(npc_id: Seq<char>, contract_active: bool, critical_tiles: int) -> u8 {
    if npc_id == "aster"@ {
        if contract_active {
            92
        } else {
            75
        }
    } else if critical_tiles > 0 {
        96
    } else {
        84
    }
}

/// What NPC `npc_id` decides about the zone `zone` it favours (none when it has no zone).
pub fn npc_directive(npc_id: &str, contract_active: bool, zone: Option<&ZoneSnapshot>) -> (r: NpcDirective)
    ensures
        zone is None ==> r.zone_id is None && r.message@ == "No managed zone is available yet."@
            && r.rationale@ == "Assign a field before requesting a strategy review."@,
        zone matches Some(z) ==> {
            let p = directive_priority(npc_id@, contract_active, z.critical_tiles as int);
            &&& r.zone_id == Some(z.id)
            &&& r.priority == p
            &&& if npc_id@ == "aster"@ {
                &&& r.message@ == "I raised the "@ + z.crop_id@ + " zone to "@ + crate::text::decimal(p as nat)
                    + " to protect contract throughput."@
                &&& r.rationale@ == "Aster favors predictable delivery and concentrates the fleet on the strongest contract lane."@
            } else {
                &&& r.message@ == "I raised the "@ + z.crop_id@ + " zone to "@ + crate::text::decimal(p as nat)
                    + " to preserve crop health and pollination flow."@
                &&& r.rationale@ == "Mira prioritizes vulnerable, high-value crops and keeps resource headroom for recovery."@
            }
        },
{
    let zone = match zone {
        None => {
            return NpcDirective {
                zone_id: None,
                priority: 0,
                message: "No managed zone is available yet.".to_string(),
                rationale: "Assign a field before requesting a strategy review.".to_string(),
            };
        },
        Some(z) => z,
    };
    let aster = text_eq(npc_id, "aster");
    let priority: u8 = if aster {
        if contract_active {
            92
        } else {
            75
        }
    } else if zone.critical_tiles > 0 {
        96
    } else {
        84
    };
    let mut message = "I raised the ".to_string();
    message.append(zone.crop_id.as_str());
    message.append(" zone to ");
    crate::text::push_decimal(&mut message, priority as u64);
    if aster {
        message.append(" to protect contract throughput.");
        NpcDirective {
            zone_id: Some(zone.id),
            priority,
            message,
            rationale: "Aster favors predictable delivery and concentrates the fleet on the strongest contract lane.".to_string(),
        }
    } else {
        message.append(" to preserve crop health and pollination flow.");
        NpcDirective {
            zone_id: Some(zone.id),
            priority,
            message,
            rationale: "Mira prioritizes vulnerable, high-value crops and keeps resource headroom for recovery.".to_string(),
        }
    }
}

/// The envelope that action `command` of NPC `npc_id` gets on `sim`: the next command
/// id, planned against the current revision.
pub open spec fn npc_envelope(sim: GameSimulation, npc_id: String, command: FarmCommand) -> CommandEnvelope {
    CommandEnvelope {
        id: sim.next_command_id,
        actor: CommandActor::Npc(npc_id),
        expected_world_revision: sim.world_revision,
        command: GameCommand::Farm(command),
    }
}

/// The action can be issued and carried out on `sim` with every counter in range.
pub open spec fn npc_action_fits(sim: GameSimulation, command: FarmCommand) -> bool {
    sim.next_command_id < u64::MAX && game_command_fits(sim, GameCommand::Farm(command))
}

/// `b` and `r` are what action `command` of NPC `npc_id` gives on `a`: the action takes
/// the next command id and is applied.
#[verifier::opaque]
pub open spec fn npc_action_taken(
    a: GameSimulation,
    b: GameSimulation,
    npc_id: String,
    command: FarmCommand,
    r: Result<(), CommandError>,
) -> bool {
    command_applied(
        GameSimulation { next_command_id: (a.next_command_id + 1) as u64, ..a },
        b,
        npc_envelope(a, npc_id, command),
        r,
    )
}

/// Action `k` of the trace `states` fitted and was accepted.
pub open spec fn npc_step_accepted(states: Seq<GameSimulation>, npc_id: String, actions: Seq<FarmCommand>, k: int) -> bool {
    npc_action_fits(states[k], actions[k]) && npc_action_taken(states[k], states[k + 1], npc_id, actions[k], Ok(()))
}

/// `states` are the farm before and after each of the first `states.len() - 1`
/// actions, every one of them accepted.
pub open spec fn npc_actions_accepted(states: Seq<GameSimulation>, npc_id: String, actions: Seq<FarmCommand>) -> bool {
    &&& 1 <= states.len() <= actions.len() + 1
    &&& forall|k: int| 0 <= k < states.len() - 1 ==> #[trigger] npc_step_accepted(states, npc_id, actions, k)
}

/// How an NPC turn ends after the accepted actions traced by `states`: with every
/// action accepted, the decision is logged under the NPC's name; otherwise the next
/// action either finds the command counters exhausted (and is not issued) or is
/// refused, and the turn stops with its refusal.
pub open spec fn npc_turn_ended(
    states: Seq<GameSimulation>,
    fin: GameSimulation,
    npc_id: String,
    npc_name: Seq<char>,
    actions: Seq<FarmCommand>,
    message: Seq<char>,
    rationale: Seq<char>,
    r: Result<(), CommandError>,
) -> bool {
    let k = states.len() - 1;
    let last = states.last();
    if k == actions.len() {
        &&& r is Ok
        &&& fin == (GameSimulation { events: fin.events, ..last })
        &&& logged_notice(
            last.events@,
            fin.events@,
            Notice::AiAction { actor: npc_name, message, reason: rationale },
        )
    } else if !npc_action_fits(last, actions[k]) {
        &&& r matches Err(CommandError::Invalid(m)) && m@ == "command counters are exhausted"@
        &&& fin == last
    } else {
        &&& r is Err
        &&& npc_action_taken(last, fin, npc_id, actions[k], r)
    }
}

impl GameSimulation {
    /// Whether `command` can be issued and carried out now with every counter in range.
    fn npc_action_fits_now(&self, command: &FarmCommand) -> (r: bool)
        requires
            self.wf(),
        ensures
            r == npc_action_fits(*self, *command),
    {
        self.next_command_id < u64::MAX && self.farm_command_fits_now(command)
    }

    /// Issues `command` for NPC `npc_id` and applies it.
    fn take_npc_action(&mut self, npc_id: &String, command: FarmCommand) -> (r: Result<(), CommandError>)
        requires
            old(self).wf(),
            npc_action_fits(*old(self), command),
        ensures
            final(self).wf(),
            npc_action_taken(*old(self), *final(self), *npc_id, command, r),
    {
        let envelope = self.next_command(CommandActor::Npc(npc_id.clone()), GameCommand::Farm(command));
        let r = self.apply_command(envelope);
        proof {
            reveal(npc_action_taken);
        }
        r
    }

    /// NPC `npc_id`, called `npc_name`, carries out the actions of its decision in
    /// order, each as a command of its own. The first refused action ends the turn with
    /// its refusal (the actions before it stay applied); when every action was
    /// accepted, the decision's message and rationale are logged under the NPC's name.
    pub fn apply_npc_decision(
        &mut self,
        npc_id: String,
        npc_name: String,
        actions: Vec<FarmCommand>,
        message: String,
        rationale: String,
    ) -> (r: Result<(), CommandError>)
        requires
            old(self).wf(),
        ensures
            final(self).wf(),
            exists|states: Seq<GameSimulation>|
                states[0] == *old(self) && npc_actions_accepted(states, npc_id, actions@) && npc_turn_ended(
                    states,
                    *final(self),
                    npc_id,
                    npc_name@,
                    actions@,
                    message@,
                    rationale@,
                    r,
                ),
    {
        let ghost all = actions@;
        let ghost mut states: Seq<GameSimulation> = seq![*self];
        let mut pending = actions;
        while pending.len() > 0
            invariant
                self.wf(),
                all == actions@,
                1 <= states.len(),
                states[0] == *old(self),
                states.last() == *self,
                npc_actions_accepted(states, npc_id, all),
                states.len() - 1 + pending@.len() == all.len(),
                pending@ == all.subrange(states.len() - 1, all.len() as int),
            decreases pending@.len(),
        {
            let ghost k = states.len() - 1;
            let action = pending.remove(0);
            assert(action == all[k]);
            let fits = self.npc_action_fits_now(&action);
            if !fits {
                let r = Err(CommandError::Invalid("command counters are exhausted".to_string()));
                assert(npc_turn_ended(states, *self, npc_id, npc_name@, all, message@, rationale@, r));
                return r;
            }
            let ghost before = *self;
            let outcome = self.take_npc_action(&npc_id, action);
            match outcome {
                Err(e) => {
                    let r: Result<(), CommandError> = Err(e);
                    assert(npc_turn_ended(states, *self, npc_id, npc_name@, all, message@, rationale@, r));
                    return r;
                },
                Ok(()) => {},
            }
            proof {
                match outcome {
                    Ok(u) => {
                        assert(u == ());
                    },
                    Err(_) => {},
                }
            }
            assert(outcome == Ok::<(), CommandError>(()));
            proof {
                let next = states.push(*self);
                assert forall|j: int| 0 <= j < next.len() - 1 implies #[trigger] npc_step_accepted(next, npc_id, all, j) by {
                    if j < k {
                        assert(npc_step_accepted(states, npc_id, all, j));
                        assert(states[j] == next[j] && states[j + 1] == next[j + 1]);
                    } else {
                        assert(j == k);
                        assert(next[j] == before && next[j + 1] == *self);
                        assert(npc_action_fits(before, all[k]));
                        assert(npc_action_taken(before, *self, npc_id, all[k], Ok(())));
                    }
                }
                states = next;
                assert(pending@ =~= all.subrange(states.len() - 1, all.len() as int));
            }
        }
        let ghost last = *self;
        self.record_ai_event(npc_name, message, rationale);
        assert(npc_turn_ended(states, *self, npc_id, npc_name@, all, message@, rationale@, Ok(())));
        Ok(())
    }
}

} // verus!
