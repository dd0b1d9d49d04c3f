use vstd::prelude::*;
use vstd::string::*;

use crate::clock::day_of;
use crate::content::CropDef;
use crate::environment::is_rice;
use crate::farm::{FieldZone, Job};
use crate::grid::{clipped_end, lemma_rect_rows_inside, rect_rows, Tile};
use crate::model::{capability_for, share_work_patch, Capability, JobKind, JobStatus, TilePos};
use crate::simulation::GameSimulation;
use crate::textmap::text_eq;

verus! {

/// The on-grid cells of a zone, row by row.
pub open spec fn zone_cells(sim: GameSimulation, zone: FieldZone) -> Seq<TilePos> {
    rect_rows(
        zone.origin.x as int,
        clipped_end(zone.origin.x, zone.size.0, sim.grid.width),
        zone.origin.y as int,
        clipped_end(zone.origin.y, zone.size.1, sim.grid.height),
    )
}

/// Some empty cell of the zone fails `test`.
pub open spec fn some_empty_cell(sim: GameSimulation, zone: FieldZone, stage: int) -> bool {
    exists|k: int|
        0 <= k < zone_cells(sim, zone).len() && {
            let t = #[trigger] sim.grid.tile_at(zone_cells(sim, zone)[k]);
            &&& t.crop is None
            &&& if stage == 0 {
                !t.plowed
            } else if stage == 1 {
                !t.tilled
            } else {
                t.water_level < 60
            }
        }
}

/// The preparation a zone still needs before planting: ploughing while some empty
/// cell is unploughed, then tilling, then flooding for crops grown in flooded fields.
pub open spec fn preparation_phase(sim: GameSimulation, zone: FieldZone, def: CropDef) -> Option<JobKind> {
    if some_empty_cell(sim, zone, 0) {
        Some(JobKind::Plow)
    } else if some_empty_cell(sim, zone, 1) {
        Some(JobKind::Till)
    } else if def.requires_flooded_field && some_empty_cell(sim, zone, 2) {
        Some(JobKind::FloodPaddy)
    } else {
        None
    }
}

/// The job a cell of a zone needs now, if any: preparation or planting on an empty
/// cell; on a planted one harvest when ripe, else water, weeding, loosening, pest
/// treatment (spray or laser, alternating by cell and day), pollination, inspection.
pub open spec fn job_needed(sim: GameSimulation, p: TilePos, zone: FieldZone) -> Option<JobKind> {
    let crops = sim.catalog.crops.to_map();
    if !sim.grid.in_bounds(p) || !crops.contains_key(zone.crop_id@) {
        None
    } else {
        let t = sim.grid.tile_at(p);
        let zone_def = crops[zone.crop_id@];
        match t.crop {
            None => match preparation_phase(sim, zone, zone_def) {
                Some(JobKind::Plow) => if !t.plowed {
                    Some(JobKind::Plow)
                } else {
                    None
                },
                Some(JobKind::Till) => if !t.tilled {
                    Some(JobKind::Till)
                } else {
                    None
                },
                Some(_) => if t.water_level < 60 {
                    Some(JobKind::FloodPaddy)
                } else {
                    None
                },
                None => Some(
                    match zone_def.plant_capability {
                        Capability::Seed => JobKind::Seed,
                        Capability::Transplant => JobKind::Transplant,
                        _ => JobKind::Plant,
                    },
                ),
            },
            Some(crop) => if !crops.contains_key(crop.crop_id@) {
                None
            } else {
                let def = crops[crop.crop_id@];
                if crop.stage_index + 1 == def.stages@.len() {
                    Some(
                        match def.harvest_capability {
                            Capability::Dig => JobKind::Dig,
                            Capability::PrecisionHarvest => JobKind::PrecisionHarvest,
                            _ => JobKind::Harvest,
                        },
                    )
                } else if crop.moisture < def.water_threshold || (def.requires_flooded_field
                    && t.water_level < def.water_threshold) {
                    Some(JobKind::Water)
                } else if is_rice(crop) && crop.stage_index >= 1 && crop.weed_pressure >= 28 {
                    Some(JobKind::Weed)
                } else if is_rice(crop) && crop.stage_index >= 2 && crop.soil_compaction >= 30 {
                    Some(JobKind::LoosenSoil)
                } else if def.needs_pest_control && crop.stage_index >= 2 && crop.pest_pressure >= 24 {
                    if (p.x + p.y + day_of(sim.clock.minute)) % 2 == 0 {
                        Some(JobKind::SprayPests)
                    } else {
                        Some(JobKind::LaserPests)
                    }
                } else if def.needs_pollination && crop.stage_index >= 1 && !crop.pollinated {
                    Some(JobKind::Pollinate)
                } else if def.needs_inspection && crop.inspection_due {
                    Some(JobKind::Inspect)
                } else {
                    None
                }
            },
        }
    }
}

impl GameSimulation {
    /// Whether some empty cell of the zone is unploughed (stage 0), untilled
    /// (stage 1) or not flooded (stage 2).
    fn empty_cell_lacks(&self, zone: &FieldZone, stage: u8) -> (r: bool)
        requires
            self.grid.wf(),
        ensures
            r == some_empty_cell(*self, *zone, stage as int),
    {
        let cells = self.grid.positions_in_rect(zone.origin, zone.size);
        let ghost all = zone_cells(*self, *zone);
        let mut k: usize = 0;
        while k < cells.len()
            invariant
                self.grid.wf(),
                cells@ == all,
                all == zone_cells(*self, *zone),
                k <= cells@.len(),
                forall|j: int|
                    0 <= j < k ==> {
                        let t = #[trigger] self.grid.tile_at(all[j]);
                        !(t.crop is None && if stage == 0 {
                            !t.plowed
                        } else if stage == 1 {
                            !t.tilled
                        } else {
                            t.water_level < 60
                        })
                    },
            decreases cells@.len() - k,
        {
            let p = cells[k];
            proof {
                lemma_rect_rows_inside(
                    zone.origin.x as int,
                    clipped_end(zone.origin.x, zone.size.0, self.grid.width),
                    zone.origin.y as int,
                    clipped_end(zone.origin.y, zone.size.1, self.grid.height),
                    k as int,
                );
                crate::grid::lemma_row_major(self.grid.width, self.grid.height, p);
            }
            match self.grid.tile(p) {
                None => {},
                Some(t) => {
                    let lacks = if stage == 0 {
                        !t.plowed
                    } else if stage == 1 {
                        !t.tilled
                    } else {
                        t.water_level < 60
                    };
                    if t.crop.is_none() && lacks {
                        assert(self.grid.tile_at(zone_cells(*self, *zone)[k as int]) == *t);
                        return true;
                    }
                },
            }
            k += 1;
        }
        false
    }

    /// The preparation the zone still needs before planting, if any.
    pub fn zone_preparation_phase(&self, zone: &FieldZone, definition: &CropDef) -> (r: Option<JobKind>)
        requires
            self.grid.wf(),
        ensures
            r == preparation_phase(*self, *zone, *definition),
    {
        if self.empty_cell_lacks(zone, 0) {
            Some(JobKind::Plow)
        } else if self.empty_cell_lacks(zone, 1) {
            Some(JobKind::Till)
        } else if definition.requires_flooded_field && self.empty_cell_lacks(zone, 2) {
            Some(JobKind::FloodPaddy)
        } else {
            None
        }
    }
}

impl GameSimulation {
    /// The job that `position` in `zone` needs now, if any.
    pub fn required_job(&self, position: TilePos, zone: &FieldZone) -> (r: Option<JobKind>)
        requires
            self.wf(),
        ensures
            r == job_needed(*self, position, *zone),
    {
        proof {
            if self.grid.in_bounds(position) {
                crate::grid::lemma_row_major(self.grid.width, self.grid.height, position);
            }
        }
        let tile = match self.grid.tile(position) {
            None => {
                return None;
            },
            Some(t) => t,
        };
        let zone_definition = match self.catalog.crops.get(zone.crop_id.as_str()) {
            None => {
                return None;
            },
            Some(d) => d,
        };
        let crop = match &tile.crop {
            None => {
                return match self.zone_preparation_phase(zone, zone_definition) {
                    Some(JobKind::Plow) => if !tile.plowed {
                        Some(JobKind::Plow)
                    } else {
                        None
                    },
                    Some(JobKind::Till) => if !tile.tilled {
                        Some(JobKind::Till)
                    } else {
                        None
                    },
                    Some(_) => if tile.water_level < 60 {
                        Some(JobKind::FloodPaddy)
                    } else {
                        None
                    },
                    None => Some(
                        match zone_definition.plant_capability {
                            Capability::Seed => JobKind::Seed,
                            Capability::Transplant => JobKind::Transplant,
                            _ => JobKind::Plant,
                        },
                    ),
                };
            },
            Some(crop) => crop,
        };
        let definition = match self.catalog.crops.get(crop.crop_id.as_str()) {
            None => {
                return None;
            },
            Some(d) => d,
        };
        let stages = definition.stages.len();
        if crop.stage_index < stages && crop.stage_index + 1 == stages {
            return Some(
                match definition.harvest_capability {
                    Capability::Dig => JobKind::Dig,
                    Capability::PrecisionHarvest => JobKind::PrecisionHarvest,
                    _ => JobKind::Harvest,
                },
            );
        }
        if crop.moisture < definition.water_threshold || (definition.requires_flooded_field
            && tile.water_level < definition.water_threshold) {
            return Some(JobKind::Water);
        }
        proof {
            reveal_strlit("rice");
        }
        let rice = text_eq(crop.crop_id.as_str(), "rice");
        if rice && crop.stage_index >= 1 && crop.weed_pressure >= 28 {
            return Some(JobKind::Weed);
        }
        if rice && crop.stage_index >= 2 && crop.soil_compaction >= 30 {
            return Some(JobKind::LoosenSoil);
        }
        if definition.needs_pest_control && crop.stage_index >= 2 && crop.pest_pressure >= 24 {
            let parity = (position.x as u64 + position.y as u64 + self.clock.day()) % 2;
            return if parity == 0 {
                Some(JobKind::SprayPests)
            } else {
                Some(JobKind::LaserPests)
            };
        }
        if definition.needs_pollination && crop.stage_index >= 1 && !crop.pollinated {
            return Some(JobKind::Pollinate);
        }
        if definition.needs_inspection && crop.inspection_due {
            return Some(JobKind::Inspect);
        }
        None
    }
}

/// The cells of the zones, zone by zone and row by row, each with its zone.
pub open spec fn zone_tasks(sim: GameSimulation, zones: Seq<FieldZone>) -> Seq<(FieldZone, TilePos)>
    decreases zones.len(),
{
    if zones.len() == 0 {
        Seq::empty()
    } else {
        zone_tasks(sim, zones.drop_last()) + zone_cells(sim, zones.last()).map_values(
            |p: TilePos| (zones.last(), p),
        )
    }
}

/// A pending or assigned job already covers the work of `kind` at `p`.
pub open spec fn patch_queued(jobs: Seq<Job>, kind: JobKind, p: TilePos) -> bool {
    exists|i: int|
        0 <= i < jobs.len() && share_work_patch(#[trigger] jobs[i].kind, jobs[i].location, kind, p) && (
        jobs[i].status is Pending || jobs[i].status is Assigned)
}

/// The new pending job `id` of `kind` at `p` for `zone`, due within two days.
pub open spec fn fresh_job(sim: GameSimulation, id: u64, kind: JobKind, p: TilePos, zone: FieldZone) -> Job {
    Job {
        id,
        kind,
        location: p,
        required_capability: capability_for(kind),
        priority: zone.priority,
        zone_id: zone.id,
        created_at: sim.clock.minute,
        deadline: Some((sim.clock.minute + 2880) as u64),
        assigned_robot: None,
        status: JobStatus::Pending,
    }
}

/// Jobs, next job id and number of jobs created after visiting `tasks` in order:
/// each cell that needs work gets a new job unless a queued job already covers it.
pub open spec fn jobs_generated(sim: GameSimulation, tasks: Seq<(FieldZone, TilePos)>) -> (Seq<Job>, int, int)
    decreases tasks.len(),
{
    if tasks.len() == 0 {
        (sim.jobs@, sim.next_job_id as int, 0)
    } else {
        let (js, id, created) = jobs_generated(sim, tasks.drop_last());
        let (zone, p) = tasks.last();
        match job_needed(sim, p, zone) {
            None => (js, id, created),
            Some(kind) => if patch_queued(js, kind, p) {
                (js, id, created)
            } else {
                (js.push(fresh_job(sim, id as u64, kind, p, zone)), id + 1, created + 1)
            },
        }
    }
}

proof fn lemma_zone_tasks_prefix(sim: GameSimulation, zones: Seq<FieldZone>, m: int)
    requires
        0 <= m <= zones.len(),
    ensures
        zone_tasks(sim, zones.take(m)).len() <= zone_tasks(sim, zones).len(),
    decreases zones.len(),
{
    if m == zones.len() {
        assert(zones.take(m) =~= zones);
    } else {
        assert(zones.drop_last().take(m) =~= zones.take(m));
        lemma_zone_tasks_prefix(sim, zones.drop_last(), m);
    }
}

proof fn lemma_jobs_generated_bound(sim: GameSimulation, tasks: Seq<(FieldZone, TilePos)>)
    ensures
        jobs_generated(sim, tasks).1 == sim.next_job_id + jobs_generated(sim, tasks).2,
        0 <= jobs_generated(sim, tasks).2 <= tasks.len(),
    decreases tasks.len(),
{
    if tasks.len() > 0 {
        lemma_jobs_generated_bound(sim, tasks.drop_last());
    }
}

/// `b` is `a` after the scheduler's pass over every zone cell: new jobs are
/// appended in order, numbered from the next job id, and counted.
pub open spec fn jobs_updated(a: GameSimulation, b: GameSimulation) -> bool {
    let (jobs, next, created) = jobs_generated(a, zone_tasks(a, a.zones@));
    &&& b == GameSimulation {
        jobs: b.jobs,
        next_job_id: next as u64,
        metrics: crate::farm::GameMetrics { jobs_created: (a.metrics.jobs_created + created) as u64, ..a.metrics },
        ..a
    }
    &&& b.jobs@ == jobs
}

/// The pass over the zones stays within the counters' range.
pub open spec fn scheduling_fits(sim: GameSimulation) -> bool {
    let n = zone_tasks(sim, sim.zones@).len();
    &&& sim.next_job_id + n <= u64::MAX
    &&& sim.metrics.jobs_created + n <= u64::MAX
    &&& sim.clock.minute + 2880 <= u64::MAX
}

impl GameSimulation {
    /// Whether a pending or assigned job already covers the work of `kind` at `position`.
    pub fn patch_already_queued(&self, kind: JobKind, position: TilePos) -> (r: bool)
        ensures
            r == patch_queued(self.jobs@, kind, position),
    {
        let mut i: usize = 0;
        while i < self.jobs.len()
            invariant
                i <= self.jobs@.len(),
                forall|j: int|
                    0 <= j < i ==> !(share_work_patch(#[trigger] self.jobs@[j].kind, self.jobs@[j].location, kind, position)
                        && (self.jobs@[j].status is Pending || self.jobs@[j].status is Assigned)),
            decreases self.jobs@.len() - i,
        {
            let job = self.jobs[i];
            if crate::model::jobs_share_work_patch(job.kind, job.location, kind, position) && (
            job.status == JobStatus::Pending || job.status == JobStatus::Assigned) {
                return true;
            }
            i += 1;
        }
        false
    }

    /// Visits every cell of every zone and queues the work each one needs.
    pub fn generate_jobs(&mut self)
        requires
            old(self).wf(),
            scheduling_fits(*old(self)),
        ensures
            final(self).wf(),
            jobs_updated(*old(self), *final(self)),
    {
        let ghost a = *self;
        let ghost all = zone_tasks(a, a.zones@);
        proof {
            lemma_jobs_generated_bound(a, all);
        }
        let zone_count = self.zones.len();
        let mut created: u64 = 0;
        let mut z: usize = 0;
        let ghost mut done: Seq<(FieldZone, TilePos)> = Seq::empty();
        while z < zone_count
            invariant
                self.wf(),
                zone_count == a.zones@.len(),
                z <= zone_count,
                *self == (GameSimulation {
                    jobs: self.jobs,
                    next_job_id: self.next_job_id,
                    metrics: self.metrics,
                    ..a
                }),
                self.metrics == (crate::farm::GameMetrics { jobs_created: (a.metrics.jobs_created + created) as u64, ..a.metrics }),
                done == zone_tasks(a, a.zones@.take(z as int)),
                jobs_generated(a, done) == (self.jobs@, self.next_job_id as int, created as int),
                scheduling_fits(a),
                all == zone_tasks(a, a.zones@),
                done.len() <= all.len(),
            decreases zone_count - z,
        {
            let cells = self.grid.positions_in_rect(self.zones[z].origin, self.zones[z].size);
            let ghost zone = a.zones@[z as int];
            let ghost before = done;
            let mut k: usize = 0;
            while k < cells.len()
                invariant
                    self.wf(),
                    zone_count == a.zones@.len(),
                    z < zone_count,
                    zone == a.zones@[z as int],
                    cells@ == zone_cells(a, zone),
                    k <= cells@.len(),
                    *self == (GameSimulation {
                        jobs: self.jobs,
                        next_job_id: self.next_job_id,
                        metrics: self.metrics,
                        ..a
                    }),
                    self.metrics == (crate::farm::GameMetrics { jobs_created: (a.metrics.jobs_created + created) as u64, ..a.metrics }),
                    before == zone_tasks(a, a.zones@.take(z as int)),
                    done == before + cells@.take(k as int).map_values(|p: TilePos| (zone, p)),
                    jobs_generated(a, done) == (self.jobs@, self.next_job_id as int, created as int),
                    scheduling_fits(a),
                    all == zone_tasks(a, a.zones@),
                    done.len() <= all.len(),
                decreases cells@.len() - k,
            {
                let position = cells[k];
                proof {
                    lemma_jobs_generated_bound(a, done);
                    lemma_zone_tasks_prefix(a, a.zones@, z + 1);
                    assert(a.zones@.take(z + 1).drop_last() =~= a.zones@.take(z as int));
                    assert(a.zones@.take(z + 1).last() == zone);
                }
                let needed = self.required_job(position, &self.zones[z]);
                match needed {
                    None => {},
                    Some(kind) => {
                        if !self.patch_already_queued(kind, position) {
                            let job = Job {
                                id: self.next_job_id,
                                kind,
                                location: position,
                                required_capability: kind.required_capability(),
                                priority: self.zones[z].priority,
                                zone_id: self.zones[z].id,
                                created_at: self.clock.minute,
                                deadline: Some(self.clock.minute + 2880),
                                assigned_robot: None,
                                status: JobStatus::Pending,
                            };
                            self.jobs.push(job);
                            self.next_job_id = self.next_job_id + 1;
                            self.metrics.jobs_created = self.metrics.jobs_created + 1;
                            created = created + 1;
                        }
                    },
                }
                proof {
                    let next_done = done.push((zone, position));
                    assert(next_done.drop_last() =~= done);
                    assert(next_done =~= before + cells@.take(k + 1).map_values(|p: TilePos| (zone, p)));
                    done = next_done;
                }
                k += 1;
            }
            proof {
                assert(a.zones@.take(z + 1).drop_last() =~= a.zones@.take(z as int));
                assert(cells@.take(cells@.len() as int) =~= cells@);
                assert(done =~= zone_tasks(a, a.zones@.take(z + 1)));
                lemma_zone_tasks_prefix(a, a.zones@, z + 1);
            }
            z += 1;
        }
        assert(a.zones@.take(zone_count as int) =~= a.zones@);
    }
}

} // verus!

verus! {

/// Empty cells of a zone follow whole-field gates: no cell is tilled while some
/// empty cell is unploughed, none flooded while some is untilled, and nothing is
/// planted while the field still needs preparation.
pub proof fn preparation_follows_gates(sim: GameSimulation, p: TilePos, zone: FieldZone)
    requires
        sim.grid.in_bounds(p),
        sim.grid.tile_at(p).crop is None,
    ensures
        job_needed(sim, p, zone) == Some(JobKind::Till) ==> !some_empty_cell(sim, zone, 0),
        job_needed(sim, p, zone) == Some(JobKind::FloodPaddy) ==> !some_empty_cell(sim, zone, 0)
            && !some_empty_cell(sim, zone, 1),
        (job_needed(sim, p, zone) == Some(JobKind::Seed) || job_needed(sim, p, zone) == Some(JobKind::Plant)
            || job_needed(sim, p, zone) == Some(JobKind::Transplant)) ==> preparation_phase(
            sim,
            zone,
            sim.catalog.crops.to_map()[zone.crop_id@],
        ) is None,
{
}

/// A growing crop drier than its definition's water threshold gets a watering job,
/// whatever else it may need; a ripe crop gets its harvest job first.
pub proof fn thirsty_crops_get_water(sim: GameSimulation, p: TilePos, zone: FieldZone, crop: crate::grid::CropInstance)
    requires
        sim.grid.in_bounds(p),
        sim.catalog.crops.to_map().contains_key(zone.crop_id@),
        sim.grid.tile_at(p).crop == Some(crop),
        sim.catalog.crops.to_map().contains_key(crop.crop_id@),
    ensures
        ({
            let def = sim.catalog.crops.to_map()[crop.crop_id@];
            &&& crop.stage_index + 1 != def.stages@.len() && crop.moisture < def.water_threshold ==> job_needed(
                sim,
                p,
                zone,
            ) == Some(JobKind::Water)
            &&& crop.stage_index + 1 != def.stages@.len() && def.requires_flooded_field
                && sim.grid.tile_at(p).water_level < def.water_threshold ==> job_needed(sim, p, zone) == Some(
                JobKind::Water,
            )
            &&& crop.stage_index + 1 == def.stages@.len() ==> (job_needed(sim, p, zone) == Some(JobKind::Harvest)
                || job_needed(sim, p, zone) == Some(JobKind::PrecisionHarvest) || job_needed(sim, p, zone)
                == Some(JobKind::Dig))
        }),
{
}

} // verus!
