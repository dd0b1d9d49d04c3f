use vstd::prelude::*;
use vstd::string::*;

use crate::execution::{first_zone, lemma_first_zone};
use crate::farm::Job;
use crate::grid::{clipped_end, position_of_index, rect_rows, CropInstance, Tile};
use crate::content::CropDef;
use crate::model::{share_work_patch, work_group, work_group_of, JobKind, JobStatus, TerrainKind, TilePos};
use crate::textmap::text_eq;
use crate::simulation::GameSimulation;

verus! {

pub open spec fn sat_add_u32(a: u32, b: u32) -> u32 {
    if a + b > u32::MAX {
        u32::MAX
    } else {
        (a + b) as u32
    }
}

pub open spec fn sat_sub_u32(a: u32, b: u32) -> u32 {
    if a < b {
        0
    } else {
        (a - b) as u32
    }
}

pub open spec fn max_u32(a: u32, b: u32) -> u32 {
    if a >= b {
        a
    } else {
        b
    }
}

pub open spec fn min_u32(a: u32, b: u32) -> u32 {
    if a <= b {
        a
    } else {
        b
    }
}

/// The corners of the 3x3 patch around `job`'s cell, kept inside the zone of its
/// first zone with its id: (first column, first row, last column, last row).
pub open spec fn patch_corners(sim: GameSimulation, job: Job) -> (u32, u32, u32, u32) {
    let zone = sim.zones@[first_zone(sim.zones@, job.zone_id)];
    let zone_end_x = sat_add_u32(zone.origin.x, zone.size.0);
    let zone_end_y = sat_add_u32(zone.origin.y, zone.size.1);
    (
        max_u32(sat_sub_u32(job.location.x, 1), zone.origin.x),
        max_u32(sat_sub_u32(job.location.y, 1), zone.origin.y),
        min_u32((job.location.x + 1) as u32, sat_sub_u32(zone_end_x, 1)),
        min_u32((job.location.y + 1) as u32, sat_sub_u32(zone_end_y, 1)),
    )
}

/// The job has a patch: its kind works a patch and its zone still exists.
pub open spec fn has_patch(sim: GameSimulation, job: Job) -> bool {
    work_group_of(job.kind) != 0 && sim.zone_exists(job.zone_id)
}

/// The cells a job works: the patch around its cell within its zone, row by row,
/// or its own cell alone when it has no patch.
pub open spec fn patch_positions(sim: GameSimulation, job: Job) -> Seq<TilePos> {
    if !has_patch(sim, job) {
        seq![job.location]
    } else {
        let (sx, sy, ex, ey) = patch_corners(sim, job);
        rect_rows(
            sx as int,
            clipped_end(sx, (ex - sx + 1) as u32, sim.grid.width),
            sy as int,
            clipped_end(sy, (ey - sy + 1) as u32, sim.grid.height),
        )
    }
}

/// The patch of the job can be computed: its cell is not on the last row or column
/// of the coordinate range, and a patch lies around it inside its zone.
pub open spec fn patch_fits(sim: GameSimulation, job: Job) -> bool {
    &&& job.location.x < u32::MAX
    &&& job.location.y < u32::MAX
    &&& has_patch(sim, job) ==> {
        let (sx, sy, ex, ey) = patch_corners(sim, job);
        sx <= ex && sy <= ey
    }
}

impl GameSimulation {
    /// The cells a job works.
    pub fn job_patch_positions(&self, job: &Job) -> (r: Vec<TilePos>)
        requires
            patch_fits(*self, *job),
        ensures
            r@ == patch_positions(*self, *job),
    {
        if work_group(job.kind) == 0 {
            return vec![job.location];
        }
        let index = match self.zone_index(job.zone_id) {
            None => {
                return vec![job.location];
            },
            Some(i) => i,
        };
        proof {
            lemma_first_zone(self.zones@, job.zone_id, index as int);
        }
        let zone = &self.zones[index];
        let zone_end_x = zone.origin.x.saturating_add(zone.size.0);
        let zone_end_y = zone.origin.y.saturating_add(zone.size.1);
        let low_x = job.location.x.saturating_sub(1);
        let low_y = job.location.y.saturating_sub(1);
        let start_x = if low_x >= zone.origin.x {
            low_x
        } else {
            zone.origin.x
        };
        let start_y = if low_y >= zone.origin.y {
            low_y
        } else {
            zone.origin.y
        };
        let edge_x = zone_end_x.saturating_sub(1);
        let edge_y = zone_end_y.saturating_sub(1);
        let end_x = if job.location.x + 1 <= edge_x {
            job.location.x + 1
        } else {
            edge_x
        };
        let end_y = if job.location.y + 1 <= edge_y {
            job.location.y + 1
        } else {
            edge_y
        };
        self.grid.positions_in_rect(TilePos::new(start_x, start_y), (end_x - start_x + 1, end_y - start_y + 1))
    }
}

/// A queued job of the same zone covering the completed job's patch.
pub open spec fn superseded(queued: Job, completed: Job) -> bool {
    &&& queued.id != completed.id
    &&& queued.zone_id == completed.zone_id
    &&& share_work_patch(queued.kind, queued.location, completed.kind, completed.location)
    &&& (queued.status is Pending || queued.status is Assigned)
}

/// A job after `completed` is done: cancelled when the completed job covered its work.
pub open spec fn after_completion(queued: Job, completed: Job) -> Job {
    if superseded(queued, completed) {
        Job { status: JobStatus::Cancelled, ..queued }
    } else {
        queued
    }
}

impl GameSimulation {
    /// Cancels the pending and assigned jobs of the same zone whose work the
    /// completed job covered.
    pub fn cancel_patch_jobs(&mut self, completed: &Job)
        ensures
            *final(self) == (GameSimulation { jobs: final(self).jobs, ..*old(self) }),
            final(self).jobs@ == Seq::new(
                old(self).jobs@.len(),
                |i: int| after_completion(old(self).jobs@[i], *completed),
            ),
    {
        let n = self.jobs.len();
        let mut i: usize = 0;
        while i < n
            invariant
                n == old(self).jobs@.len(),
                i <= n,
                self.jobs@.len() == n,
                *self == (GameSimulation { jobs: self.jobs, ..*old(self) }),
                forall|j: int| 0 <= j < i ==> #[trigger] self.jobs@[j] == after_completion(old(self).jobs@[j], *completed),
                forall|j: int| i <= j < n ==> #[trigger] self.jobs@[j] == old(self).jobs@[j],
            decreases n - i,
        {
            let queued = self.jobs[i];
            if queued.id != completed.id && queued.zone_id == completed.zone_id
                && crate::model::jobs_share_work_patch(queued.kind, queued.location, completed.kind, completed.location)
                && (queued.status == JobStatus::Pending || queued.status == JobStatus::Assigned) {
                self.jobs.set(i, Job { status: JobStatus::Cancelled, ..queued });
            }
            i += 1;
        }
        assert(self.jobs@ =~= Seq::new(n as nat, |j: int| after_completion(old(self).jobs@[j], *completed)));
    }
}

/// A crop after tending of `kind`: weeding and loosening relieve weeds and
/// compaction, spraying and laser treatment relieve pests and mark them controlled.
pub open spec fn tended_crop(crop: CropInstance, kind: JobKind) -> CropInstance {
    match kind {
        JobKind::Weed => CropInstance {
            weed_pressure: crate::environment::sat_sub(crop.weed_pressure, 70),
            ..crop
        },
        JobKind::LoosenSoil => CropInstance {
            soil_compaction: crate::environment::sat_sub(crop.soil_compaction, 70),
            health: crate::environment::sat_add_cap(crop.health, 1, 100),
            ..crop
        },
        JobKind::SprayPests => CropInstance {
            pest_pressure: crate::environment::sat_sub(crop.pest_pressure, 80),
            pest_controlled: true,
            ..crop
        },
        JobKind::LaserPests | JobKind::PestControl => CropInstance {
            pest_pressure: crate::environment::sat_sub(crop.pest_pressure, 55),
            pest_controlled: true,
            ..crop
        },
        _ => crop,
    }
}

/// A tile after tending of `kind`.
pub open spec fn tended_tile(t: Tile, kind: JobKind) -> Tile {
    match t.crop {
        None => t,
        Some(crop) => Tile { crop: Some(tended_crop(crop, kind)), ..t },
    }
}

/// `p` lies in the 3x3 square around `center`, clipped to a grid of `width` by `height`.
pub open spec fn in_tending_square(center: TilePos, width: u32, height: u32, p: TilePos) -> bool {
    &&& sat_sub_u32(center.x, 1) <= p.x <= min_u32((center.x + 1) as u32, sat_sub_u32(width, 1))
    &&& sat_sub_u32(center.y, 1) <= p.y <= min_u32((center.y + 1) as u32, sat_sub_u32(height, 1))
    &&& p.x < width
    &&& p.y < height
}

fn tend_tile(t: &mut Tile, kind: JobKind)
    ensures
        *final(t) == tended_tile(*old(t), kind),
{
    let taken = t.crop.take();
    match taken {
        None => {},
        Some(mut crop) => {
            match kind {
                JobKind::Weed => {
                    crop.weed_pressure = crop.weed_pressure.saturating_sub(70);
                },
                JobKind::LoosenSoil => {
                    crop.soil_compaction = crop.soil_compaction.saturating_sub(70);
                    crop.health = if crop.health >= 100 {
                        100
                    } else {
                        crop.health + 1
                    };
                },
                JobKind::SprayPests => {
                    crop.pest_pressure = crop.pest_pressure.saturating_sub(80);
                    crop.pest_controlled = true;
                },
                JobKind::LaserPests | JobKind::PestControl => {
                    crop.pest_pressure = crop.pest_pressure.saturating_sub(55);
                    crop.pest_controlled = true;
                },
                _ => {},
            }
            t.crop = Some(crop);
        },
    }
}

impl GameSimulation {
    /// Tends every crop in the 3x3 square around `center`.
    pub fn complete_tending_patch(&mut self, center: TilePos, kind: JobKind)
        requires
            old(self).wf(),
            center.x < u32::MAX,
            center.y < u32::MAX,
        ensures
            final(self).wf(),
            *final(self) == (GameSimulation { grid: final(self).grid, ..*old(self) }),
            final(self).grid.width == old(self).grid.width,
            final(self).grid.height == old(self).grid.height,
            final(self).grid.tiles@ == Seq::new(
                old(self).grid.tiles@.len(),
                |i: int|
                    if in_tending_square(center, old(self).grid.width, old(self).grid.height, position_of_index(old(self).grid.width, i)) {
                        tended_tile(old(self).grid.tiles@[i], kind)
                    } else {
                        old(self).grid.tiles@[i]
                    },
            ),
    {
        let n = self.grid.tiles.len();
        let width = self.grid.width;
        let height = self.grid.height;
        let mut i: usize = 0;
        while i < n
            invariant
                self.wf(),
                n == old(self).grid.tiles@.len(),
                n == (width as int) * (height as int),
                width == old(self).grid.width,
                height == old(self).grid.height,
                center.x < u32::MAX,
                center.y < u32::MAX,
                i <= n,
                self.grid.tiles@.len() == n,
                *self == (GameSimulation { grid: self.grid, ..*old(self) }),
                self.grid.width == width,
                self.grid.height == height,
                forall|j: int|
                    0 <= j < i ==> #[trigger] self.grid.tiles@[j] == if in_tending_square(center, width, height, position_of_index(width, j)) {
                        tended_tile(old(self).grid.tiles@[j], kind)
                    } else {
                        old(self).grid.tiles@[j]
                    },
                forall|j: int| i <= j < n ==> #[trigger] self.grid.tiles@[j] == old(self).grid.tiles@[j],
            decreases n - i,
        {
            assert(width > 0) by (nonlinear_arith)
                requires
                    (i as int) < (width as int) * (height as int),
            ;
            let p = self.grid.index_position(i);
            let low_x = center.x.saturating_sub(1);
            let low_y = center.y.saturating_sub(1);
            let last_x = width.saturating_sub(1);
            let last_y = height.saturating_sub(1);
            let high_x = if center.x + 1 <= last_x {
                center.x + 1
            } else {
                last_x
            };
            let high_y = if center.y + 1 <= last_y {
                center.y + 1
            } else {
                last_y
            };
            if low_x <= p.x && p.x <= high_x && low_y <= p.y && p.y <= high_y {
                let mut t = self.grid.tiles[i].clone_shallow();
                tend_tile(&mut t, kind);
                self.grid.tiles.set(i, t);
            }
            i += 1;
        }
        assert(self.grid.tiles@ =~= Seq::new(
            old(self).grid.tiles@.len(),
            |j: int|
                if in_tending_square(center, width, height, position_of_index(width, j)) {
                    tended_tile(old(self).grid.tiles@[j], kind)
                } else {
                    old(self).grid.tiles@[j]
                },
        ));
    }
}

} // verus!

verus! {

/// A new crop of `def` planted at `minute` on a tile with `moisture`.
pub open spec fn planted_crop(def: CropDef, moisture: u8, minute: u64) -> CropInstance {
    CropInstance {
        crop_id: def.id,
        planted_at: minute,
        stage_index: 0,
        stage_progress: 0,
        moisture: if moisture >= 55 {
            moisture
        } else {
            55
        },
        health: 100,
        pollinated: false,
        inspection_due: def.needs_inspection,
        pest_pressure: 0,
        pest_controlled: !def.needs_pest_control,
        weed_pressure: 12,
        soil_compaction: 10,
        remaining_harvests: def.harvest_count,
    }
}

/// A crop of `def` after one of its harvests, ready to bear again.
pub open spec fn regrown_crop(crop: CropInstance, def: CropDef) -> CropInstance {
    CropInstance {
        remaining_harvests: (crop.remaining_harvests - 1) as u8,
        stage_index: if def.stages@.len() >= 2 {
            (def.stages@.len() - 2) as usize
        } else {
            0
        },
        stage_progress: 0,
        pollinated: !def.needs_pollination,
        inspection_due: def.needs_inspection,
        pest_pressure: 0,
        pest_controlled: !def.needs_pest_control,
        weed_pressure: 0,
        soil_compaction: 0,
        ..crop
    }
}

/// A tile after a job of `kind` worked it at `minute`; `planting` is the crop of the
/// job's zone, `harvest` the definition of the crop standing on the tile.
pub open spec fn worked_tile(t: Tile, kind: JobKind, planting: Option<CropDef>, harvest: Option<CropDef>, minute: u64) -> Tile {
    match kind {
        JobKind::Plow => Tile { plowed: true, tilled: false, terrain: TerrainKind::Soil, water_level: 0, ..t },
        JobKind::Till => Tile { tilled: true, terrain: TerrainKind::Soil, water_level: 0, ..t },
        JobKind::FloodPaddy => Tile { water_level: 100, moisture: 100, ..t },
        JobKind::Seed | JobKind::Plant | JobKind::Transplant => match (t.crop, planting) {
            (None, Some(def)) => Tile {
                crop: Some(planted_crop(def, t.moisture, minute)),
                fertility: crate::environment::sat_sub(t.fertility, def.fertility_cost),
                ..t
            },
            _ => t,
        },
        JobKind::Water => match t.crop {
            Some(crop) => if crate::environment::is_rice(crop) {
                let level = crate::environment::sat_add_cap(t.water_level, 65, 100);
                Tile { water_level: level, crop: Some(CropInstance { moisture: level, ..crop }), ..t }
            } else {
                Tile {
                    crop: Some(CropInstance { moisture: crate::environment::sat_add_cap(crop.moisture, 60, 100), ..crop }),
                    ..t
                }
            },
            None => t,
        },
        JobKind::Pollinate => match t.crop {
            Some(crop) => Tile { crop: Some(CropInstance { pollinated: true, ..crop }), ..t },
            None => t,
        },
        JobKind::Inspect => match t.crop {
            Some(crop) => Tile {
                crop: Some(
                    CropInstance {
                        inspection_due: false,
                        health: crate::environment::sat_add_cap(crop.health, 5, 100),
                        ..crop
                    },
                ),
                ..t
            },
            None => t,
        },
        JobKind::Harvest | JobKind::PrecisionHarvest | JobKind::Dig => match (t.crop, harvest) {
            (Some(crop), Some(def)) => if crop.remaining_harvests > 1 {
                Tile { crop: Some(regrown_crop(crop, def)), ..t }
            } else {
                Tile { crop: None, plowed: false, tilled: false, water_level: 0, ..t }
            },
            _ => t,
        },
        _ => t,
    }
}

/// What harvesting a tile yields: the crop's id and its harvest yield.
pub open spec fn tile_yield(t: Tile, kind: JobKind, harvest: Option<CropDef>) -> Option<(Seq<char>, u32)> {
    if (kind is Harvest || kind is PrecisionHarvest || kind is Dig) && t.crop is Some && harvest is Some {
        Some((harvest->0.id@, harvest->0.harvest_yield))
    } else {
        None
    }
}

/// Water a job of `kind` draws for each tile it works.
pub open spec fn water_per_tile(kind: JobKind) -> int {
    match kind {
        JobKind::FloodPaddy => 5,
        JobKind::Water => 3,
        _ => 0,
    }
}

/// Works one tile; hands back what was harvested, if anything.
fn work_tile(t: &mut Tile, kind: JobKind, planting: Option<&CropDef>, harvest: Option<&CropDef>, minute: u64) -> (r: Option<(String, u32)>)
    ensures
        *final(t) == worked_tile(*old(t), kind, match planting {
            Some(d) => Some(*d),
            None => None,
        }, match harvest {
            Some(d) => Some(*d),
            None => None,
        }, minute),
        match r {
            Some((item, amount)) => tile_yield(*old(t), kind, match harvest {
                Some(d) => Some(*d),
                None => None,
            }) == Some((item@, amount)),
            None => tile_yield(*old(t), kind, match harvest {
                Some(d) => Some(*d),
                None => None,
            }) is None,
        },
{
    match kind {
        JobKind::Plow => {
            t.plowed = true;
            t.tilled = false;
            t.terrain = TerrainKind::Soil;
            t.water_level = 0;
            None
        },
        JobKind::Till => {
            t.tilled = true;
            t.terrain = TerrainKind::Soil;
            t.water_level = 0;
            None
        },
        JobKind::FloodPaddy => {
            t.water_level = 100;
            t.moisture = 100;
            None
        },
        JobKind::Seed | JobKind::Plant | JobKind::Transplant => {
            if t.crop.is_none() {
                if let Some(definition) = planting {
                    t.crop = Some(
                        CropInstance {
                            crop_id: definition.id.clone(),
                            planted_at: minute,
                            stage_index: 0,
                            stage_progress: 0,
                            moisture: if t.moisture >= 55 {
                                t.moisture
                            } else {
                                55
                            },
                            health: 100,
                            pollinated: false,
                            inspection_due: definition.needs_inspection,
                            pest_pressure: 0,
                            pest_controlled: !definition.needs_pest_control,
                            weed_pressure: 12,
                            soil_compaction: 10,
                            remaining_harvests: definition.harvest_count,
                        },
                    );
                    t.fertility = t.fertility.saturating_sub(definition.fertility_cost);
                }
            }
            None
        },
        JobKind::Water => {
            let taken = t.crop.take();
            if let Some(mut crop) = taken {
                proof {
                    reveal_strlit("rice");
                }
                if text_eq(crop.crop_id.as_str(), "rice") {
                    t.water_level = if t.water_level >= 35 {
                        100
                    } else {
                        t.water_level + 65
                    };
                    crop.moisture = t.water_level;
                } else {
                    crop.moisture = if crop.moisture >= 40 {
                        100
                    } else {
                        crop.moisture + 60
                    };
                }
                t.crop = Some(crop);
            }
            None
        },
        JobKind::Pollinate => {
            let taken = t.crop.take();
            if let Some(mut crop) = taken {
                crop.pollinated = true;
                t.crop = Some(crop);
            }
            None
        },
        JobKind::Inspect => {
            let taken = t.crop.take();
            if let Some(mut crop) = taken {
                crop.inspection_due = false;
                crop.health = if crop.health >= 95 {
                    100
                } else {
                    crop.health + 5
                };
                t.crop = Some(crop);
            }
            None
        },
        JobKind::Harvest | JobKind::PrecisionHarvest | JobKind::Dig => {
            let taken = t.crop.take();
            match (taken, harvest) {
                (Some(mut crop), Some(definition)) => {
                    let item = definition.id.clone();
                    if crop.remaining_harvests > 1 {
                        crop.remaining_harvests = crop.remaining_harvests - 1;
                        let stages = definition.stages.len();
                        crop.stage_index = stages.saturating_sub(2);
                        crop.stage_progress = 0;
                        crop.pollinated = !definition.needs_pollination;
                        crop.inspection_due = definition.needs_inspection;
                        crop.pest_pressure = 0;
                        crop.pest_controlled = !definition.needs_pest_control;
                        crop.weed_pressure = 0;
                        crop.soil_compaction = 0;
                        t.crop = Some(crop);
                    } else {
                        t.plowed = false;
                        t.tilled = false;
                        t.water_level = 0;
                    }
                    Some((item, definition.harvest_yield))
                },
                (taken, _) => {
                    t.crop = taken;
                    None
                },
            }
        },
        _ => None,
    }
}

} // verus!

verus! {

/// The catalog's definition of the crop standing on `t`, if any.
pub open spec fn crop_def_of(sim: GameSimulation, t: Tile) -> Option<CropDef> {
    match t.crop {
        Some(c) => if sim.catalog.crops.to_map().contains_key(c.crop_id@) {
            Some(sim.catalog.crops.to_map()[c.crop_id@])
        } else {
            None
        },
        None => None,
    }
}

/// The crop a job plants: that of its zone, or rice once the zone is gone.
pub open spec fn job_crop(sim: GameSimulation, job: Job) -> Seq<char> {
    if sim.zone_exists(job.zone_id) {
        sim.zones@[first_zone(sim.zones@, job.zone_id)].crop_id@
    } else {
        "rice"@
    }
}

/// The catalog's definition of the crop a job plants, if it has one.
pub open spec fn planting_def(sim: GameSimulation, job: Job) -> Option<CropDef> {
    if sim.catalog.crops.to_map().contains_key(job_crop(sim, job)) {
        Some(sim.catalog.crops.to_map()[job_crop(sim, job)])
    } else {
        None
    }
}

/// Tiles, harvest yields (in order) and number of cells worked after a job works
/// the on-grid cells of `ps` one after the other.
pub open spec fn patch_work(sim: GameSimulation, job: Job, ps: Seq<TilePos>) -> (Seq<Tile>, Seq<(Seq<char>, u32)>, int)
    decreases ps.len(),
{
    if ps.len() == 0 {
        (sim.grid.tiles@, Seq::empty(), 0)
    } else {
        let (ts, ys, n) = patch_work(sim, job, ps.drop_last());
        let p = ps.last();
        if sim.grid.in_bounds(p) {
            let i = crate::grid::row_major(sim.grid.width, p);
            let t = ts[i];
            let h = crop_def_of(sim, t);
            (
                ts.update(i, worked_tile(t, job.kind, planting_def(sim, job), h, sim.clock.minute)),
                match tile_yield(t, job.kind, h) {
                    Some(y) => ys.push(y),
                    None => ys,
                },
                n + 1,
            )
        } else {
            (ts, ys, n)
        }
    }
}

/// The yields summed per item.
pub open spec fn tally(ys: Seq<(Seq<char>, u32)>) -> Map<Seq<char>, int>
    decreases ys.len(),
{
    if ys.len() == 0 {
        Map::empty()
    } else {
        let m = tally(ys.drop_last());
        let (item, amount) = ys.last();
        m.insert(item, (if m.contains_key(item) {
            m[item]
        } else {
            0
        }) + amount)
    }
}

/// Every per-item sum of the yields fits in a `u32`.
pub open spec fn tally_fits(ys: Seq<(Seq<char>, u32)>) -> bool {
    forall|k: int, item: Seq<char>|
        0 <= k <= ys.len() && #[trigger] tally(ys.take(k)).contains_key(item) ==> tally(ys.take(k))[item] <= u32::MAX
}

/// `b` is `a` after `job` works its patch: the worked tiles, and the water drawn.
pub open spec fn patch_worked(a: GameSimulation, b: GameSimulation, job: Job) -> bool {
    let (tiles, ys, worked) = patch_work(a, job, patch_positions(a, job));
    &&& b == GameSimulation {
        grid: b.grid,
        metrics: crate::farm::GameMetrics {
            water_consumed: (a.metrics.water_consumed + worked * water_per_tile(job.kind)) as u64,
            ..a.metrics
        },
        ..a
    }
    &&& b.grid.width == a.grid.width
    &&& b.grid.height == a.grid.height
    &&& b.grid.tiles@ == tiles
}

proof fn lemma_patch_work_len(sim: GameSimulation, job: Job, ps: Seq<TilePos>)
    requires
        sim.grid.wf(),
    ensures
        patch_work(sim, job, ps).0.len() == sim.grid.tiles@.len(),
        0 <= patch_work(sim, job, ps).2 <= ps.len(),
    decreases ps.len(),
{
    if ps.len() > 0 {
        lemma_patch_work_len(sim, job, ps.drop_last());
        let p = ps.last();
        if sim.grid.in_bounds(p) {
            crate::grid::lemma_row_major(sim.grid.width, sim.grid.height, p);
        }
    }
}

proof fn lemma_patch_work_prefix(sim: GameSimulation, job: Job, ps: Seq<TilePos>, m: int)
    requires
        0 <= m <= ps.len(),
    ensures
        patch_work(sim, job, ps.take(m)).1.len() <= patch_work(sim, job, ps).1.len(),
        patch_work(sim, job, ps.take(m)).1 == patch_work(sim, job, ps).1.take(
            patch_work(sim, job, ps.take(m)).1.len() as int,
        ),
    decreases ps.len(),
{
    if m == ps.len() {
        assert(ps.take(m) =~= ps);
        let ys = patch_work(sim, job, ps).1;
        assert(ys.take(ys.len() as int) =~= ys);
    } else {
        assert(ps.drop_last().take(m) =~= ps.take(m));
        lemma_patch_work_prefix(sim, job, ps.drop_last(), m);
        let short = patch_work(sim, job, ps.take(m)).1;
        let prev = patch_work(sim, job, ps.drop_last()).1;
        let full = patch_work(sim, job, ps).1;
        assert(full.take(short.len() as int) =~= prev.take(short.len() as int));
    }
}

impl GameSimulation {
    /// Works the cells of `job`'s patch; hands back the harvest, summed per item.
    pub fn work_patch(&mut self, job: &Job) -> (harvested: crate::textmap::TextMap<u32>)
        requires
            old(self).wf(),
            patch_fits(*old(self), *job),
            old(self).metrics.water_consumed + 5 * patch_positions(*old(self), *job).len() <= u64::MAX,
            tally_fits(patch_work(*old(self), *job, patch_positions(*old(self), *job)).1),
        ensures
            final(self).wf(),
            patch_worked(*old(self), *final(self), *job),
            harvested.wf(),
            forall|item: Seq<char>|
                #![trigger harvested.to_map().contains_key(item)]
                harvested.to_map().contains_key(item) <==> tally(
                    patch_work(*old(self), *job, patch_positions(*old(self), *job)).1,
                ).contains_key(item),
            forall|item: Seq<char>|
                #![trigger harvested.to_map()[item]]
                harvested.to_map().contains_key(item) ==> harvested.to_map()[item] == tally(
                    patch_work(*old(self), *job, patch_positions(*old(self), *job)).1,
                )[item],
    {
        let ghost a = *self;
        let positions = self.job_patch_positions(job);
        let ghost ps = positions@;
        let zone_crop: String = match self.zone_index(job.zone_id) {
            Some(i) => {
                proof {
                    lemma_first_zone(self.zones@, job.zone_id, i as int);
                }
                self.zones[i].crop_id.clone()
            },
            None => "rice".to_string(),
        };
        proof {
            reveal_strlit("rice");
        }
        let minute = self.clock.minute;
        let water = match job.kind {
            JobKind::FloodPaddy => 5u64,
            JobKind::Water => 3u64,
            _ => 0u64,
        };
        let mut harvested: crate::textmap::TextMap<u32> = crate::textmap::TextMap::new();
        let mut k: usize = 0;
        proof {
            lemma_patch_work_len(a, *job, ps);
            assert(ps.take(0) =~= Seq::<TilePos>::empty());
            assert(patch_work(a, *job, ps.take(0)) == (a.grid.tiles@, Seq::<(Seq<char>, u32)>::empty(), 0int));
            assert(harvested.to_map().dom() =~= tally(Seq::<(Seq<char>, u32)>::empty()).dom());
        }
        while k < positions.len()
            invariant
                self.wf(),
                a.wf(),
                ps == positions@,
                ps == patch_positions(a, *job),
                k <= ps.len(),
                minute == a.clock.minute,
                water == water_per_tile(job.kind),
                zone_crop@ == job_crop(a, *job),
                a.metrics.water_consumed + 5 * ps.len() <= u64::MAX,
                tally_fits(patch_work(a, *job, ps).1),
                *self == (GameSimulation { grid: self.grid, metrics: self.metrics, ..a }),
                self.grid.width == a.grid.width,
                self.grid.height == a.grid.height,
                ({
                    let (tiles, ys, worked) = patch_work(a, *job, ps.take(k as int));
                    &&& self.grid.tiles@ == tiles
                    &&& self.metrics == (crate::farm::GameMetrics {
                        water_consumed: (a.metrics.water_consumed + worked * water_per_tile(job.kind)) as u64,
                        ..a.metrics
                    })
                    &&& worked <= k
                    &&& harvested.wf()
                    &&& forall|item: Seq<char>|
                        #![trigger harvested.to_map().contains_key(item)]
                        harvested.to_map().contains_key(item) <==> tally(ys).contains_key(item)
                    &&& forall|item: Seq<char>|
                        #![trigger harvested.to_map()[item]]
                        harvested.to_map().contains_key(item) ==> harvested.to_map()[item] == tally(ys)[item]
                }),
            decreases ps.len() - k,
        {
            proof {
                assert(ps.take(k + 1).drop_last() =~= ps.take(k as int));
                assert(ps.take(k + 1).last() == ps[k as int]);
                lemma_patch_work_len(a, *job, ps.take(k as int));
            }
            let p = positions[k];
            if self.grid.contains(p) {
                proof {
                    crate::grid::lemma_row_major(self.grid.width, self.grid.height, p);
                }
                let idx = (p.y * self.grid.width + p.x) as usize;
                let mut t = self.grid.tiles[idx].clone_shallow();
                let harvest_def = match &t.crop {
                    Some(c) => self.catalog.crops.get(c.crop_id.as_str()),
                    None => None,
                };
                let planting = self.catalog.crops.get(zone_crop.as_str());
                let gained = work_tile(&mut t, job.kind, planting, harvest_def, minute);
                self.grid.tiles.set(idx, t);
                self.metrics.water_consumed = self.metrics.water_consumed + water;
                match gained {
                    None => {},
                    Some((item, amount)) => {
                        let ghost before = harvested.to_map();
                        let have: u32 = match harvested.get(item.as_str()) {
                            Some(v) => *v,
                            None => 0,
                        };
                        proof {
                            let ys_prev = patch_work(a, *job, ps.take(k as int)).1;
                            let ys_next = patch_work(a, *job, ps.take(k + 1)).1;
                            assert(ys_next == ys_prev.push((item@, amount)));
                            assert(ys_next.drop_last() =~= ys_prev);
                            lemma_patch_work_prefix(a, *job, ps, k + 1);
                            let full = patch_work(a, *job, ps).1;
                            assert(ys_next == full.take(ys_next.len() as int));
                            assert(tally(full.take(ys_next.len() as int)).contains_key(item@));
                        }
                        harvested.insert(item, have + amount);
                        proof {
                            let ys_prev = patch_work(a, *job, ps.take(k as int)).1;
                            let ys_next = patch_work(a, *job, ps.take(k + 1)).1;
                            assert(harvested.to_map() =~= before.insert(item@, (have + amount) as u32));
                            assert(tally(ys_next) =~= tally(ys_prev).insert(item@, have + amount));
                        }
                    },
                }
            }
            k += 1;
        }
        assert(ps.take(ps.len() as int) =~= ps);
        harvested
    }
}

} // verus!

verus! {

/// Index of the first job with id `id`.
pub open spec fn first_job(s: Seq<Job>, id: u64) -> int {
    choose|i: int| 0 <= i < s.len() && s[i].id == id && forall|j: int| 0 <= j < i ==> #[trigger] s[j].id != id
}

pub open spec fn job_exists(sim: GameSimulation, id: u64) -> bool {
    exists|i: int| 0 <= i < sim.jobs@.len() && #[trigger] sim.jobs@[i].id == id
}

/// A job kind that tends the crops around its cell.
pub open spec fn is_tending(kind: JobKind) -> bool {
    kind is PestControl || kind is Weed || kind is LoosenSoil || kind is SprayPests || kind is LaserPests
}

/// `b` is `a` after the harvest `harvested` is loaded onto robot `index`: as much
/// of it as fits, item by item in order, counted as produced.
pub open spec fn harvest_stowed(a: GameSimulation, b: GameSimulation, index: int, harvested: crate::textmap::TextMap<u32>) -> bool {
    let inv = a.robots@[index].inventory;
    let (stock, total) = crate::inventory::add_all(inv.stock(), inv.total(), inv.capacity as int, harvested.entries@);
    &&& b == GameSimulation {
        robots: b.robots,
        metrics: crate::farm::GameMetrics {
            crops_produced: (a.metrics.crops_produced + total - inv.total()) as u64,
            ..a.metrics
        },
        ..a
    }
    &&& b.robots@.len() == a.robots@.len()
    &&& forall|j: int| 0 <= j < a.robots@.len() && j != index ==> #[trigger] b.robots@[j] == a.robots@[j]
    &&& b.robots@[index] == (crate::farm::Robot { inventory: b.robots@[index].inventory, ..a.robots@[index] })
    &&& b.robots@[index].inventory.capacity == inv.capacity
    &&& b.robots@[index].inventory.stock() == stock
    &&& b.robots@[index].inventory.total() == total
}

impl GameSimulation {
    /// Index of the first job with id `job_id`.
    pub fn job_index(&self, job_id: u64) -> (r: Option<usize>)
        ensures
            r is None <==> !job_exists(*self, job_id),
            r matches Some(i) ==> i < self.jobs@.len() && i == first_job(self.jobs@, job_id),
    {
        let mut i: usize = 0;
        while i < self.jobs.len()
            invariant
                i <= self.jobs@.len(),
                forall|j: int| 0 <= j < i ==> #[trigger] self.jobs@[j].id != job_id,
            decreases self.jobs@.len() - i,
        {
            if self.jobs[i].id == job_id {
                proof {
                    let c = first_job(self.jobs@, job_id);
                    assert(0 <= c < self.jobs@.len() && self.jobs@[c].id == job_id);
                    if c < i {
                        assert(self.jobs@[c].id != job_id);
                    } else if c > i {
                        assert(self.jobs@[i as int].id != job_id);
                    }
                }
                return Some(i);
            }
            i += 1;
        }
        None
    }

    /// Loads the harvest onto robot `index`, as much as it can carry.
    pub fn stow_harvest(&mut self, index: usize, harvested: &crate::textmap::TextMap<u32>)
        requires
            old(self).wf(),
            index < old(self).robots@.len(),
            old(self).metrics.crops_produced + old(self).robots@[index as int].inventory.capacity <= u64::MAX,
        ensures
            final(self).wf(),
            harvest_stowed(*old(self), *final(self), index as int, *harvested),
    {
        let ghost a = *self;
        let ghost inv = a.robots@[index as int].inventory;
        let ghost s = harvested.entries@;
        let n = harvested.entries.len();
        let mut k: usize = 0;
        proof {
            assert(a.robots@[index as int].inventory.total() <= a.robots@[index as int].inventory.capacity);
            crate::inventory::lemma_sum_nonnegative(inv.items.entries@);
            assert(s.take(0) =~= Seq::<(String, u32)>::empty());
        }
        while k < n
            invariant
                self.wf(),
                n == s.len(),
                s == harvested.entries@,
                k <= n,
                index < a.robots@.len(),
                inv == a.robots@[index as int].inventory,
                a.wf(),
                a.metrics.crops_produced + inv.capacity <= u64::MAX,
                self.robots@.len() == a.robots@.len(),
                forall|j: int| 0 <= j < a.robots@.len() && j != index ==> #[trigger] self.robots@[j] == a.robots@[j],
                self.robots@[index as int] == (crate::farm::Robot { inventory: self.robots@[index as int].inventory, ..a.robots@[index as int] }),
                self.robots@[index as int].inventory.capacity == inv.capacity,
                (self.robots@[index as int].inventory.stock(), self.robots@[index as int].inventory.total())
                    == crate::inventory::add_all(inv.stock(), inv.total(), inv.capacity as int, s.take(k as int)),
                *self == (GameSimulation {
                    robots: self.robots,
                    metrics: crate::farm::GameMetrics {
                        crops_produced: (a.metrics.crops_produced + self.robots@[index as int].inventory.total() - inv.total()) as u64,
                        ..a.metrics
                    },
                    ..a
                }),
                inv.total() <= self.robots@[index as int].inventory.total() <= inv.capacity,
                0 <= inv.total() <= inv.capacity,
            decreases n - k,
        {
            proof {
                assert(s.take(k + 1).drop_last() =~= s.take(k as int));
                assert(s.take(k + 1).last() == s[k as int]);
                crate::inventory::lemma_add_all_total(inv.stock(), inv.total(), inv.capacity as int, s.take(k + 1));
                crate::inventory::lemma_add_all_total(inv.stock(), inv.total(), inv.capacity as int, s.take(k as int));
            }
            let item = harvested.entries[k].0.as_str();
            let amount = harvested.entries[k].1;
            let accepted = self.robots[index].inventory.add(item, amount);
            self.metrics.crops_produced = self.metrics.crops_produced + accepted as u64;
            k += 1;
        }
        assert(s.take(n as int) =~= s);
    }

    /// Sends robot `index` back to idling, dropping its job and its next step.
    pub fn reset_robot(&mut self, index: usize)
        requires
            old(self).wf(),
            index < old(self).robots@.len(),
        ensures
            final(self).wf(),
            *final(self) == (GameSimulation { robots: final(self).robots, ..*old(self) }),
            final(self).robots@.len() == old(self).robots@.len(),
            forall|j: int| 0 <= j < old(self).robots@.len() && j != index ==> #[trigger] final(self).robots@[j] == old(self).robots@[j],
            final(self).robots@[index as int] == (crate::farm::Robot {
                state: crate::model::RobotState::Idle,
                current_job: None,
                movement_target: None,
                ..old(self).robots@[index as int]
            }),
    {
        self.robots[index].state = crate::model::RobotState::Idle;
        self.robots[index].current_job = None;
        self.robots[index].movement_target = None;
    }
}

} // verus!

verus! {

/// The tiles after tending of `kind` around `center` (nothing else changes).
pub open spec fn tending_applied(a: GameSimulation, b: GameSimulation, center: TilePos, kind: JobKind) -> bool {
    &&& b == GameSimulation { grid: b.grid, ..a }
    &&& b.grid.width == a.grid.width
    &&& b.grid.height == a.grid.height
    &&& b.grid.tiles@ == Seq::new(
        a.grid.tiles@.len(),
        |i: int|
            if in_tending_square(center, a.grid.width, a.grid.height, position_of_index(a.grid.width, i)) {
                tended_tile(a.grid.tiles@[i], kind)
            } else {
                a.grid.tiles@[i]
            },
    )
}

/// Where a robot goes after finishing a job: to storage with cargo, to a charger
/// with a low battery, otherwise it idles.
pub open spec fn state_after_job(loaded: bool, battery_low: bool) -> crate::model::RobotState {
    if loaded {
        crate::model::RobotState::MovingToStorage
    } else if battery_low {
        crate::model::RobotState::MovingToCharge
    } else {
        crate::model::RobotState::Idle
    }
}

/// `b` is `a` after robot `index` completes job `job_id`: the job works its patch,
/// tends the crops around its cell when it is a tending job, loads the harvest on
/// the robot, cancels the queued jobs it made redundant and is marked completed; the
/// robot drops the job and heads on. A job that is gone only resets the robot.
pub open spec fn job_completed(a: GameSimulation, b: GameSimulation, index: int, job_id: u64, battery_low: bool) -> bool {
    if !job_exists(a, job_id) {
        &&& b == GameSimulation { robots: b.robots, ..a }
        &&& b.robots@ == a.robots@.update(
            index,
            crate::farm::Robot {
                state: crate::model::RobotState::Idle,
                current_job: None,
                movement_target: None,
                ..a.robots@[index]
            },
        )
    } else {
        let j = first_job(a.jobs@, job_id);
        let job = a.jobs@[j];
        exists|m1: GameSimulation, m2: GameSimulation, m3: GameSimulation, harvested: crate::textmap::TextMap<u32>|
            #![trigger patch_worked(a, m1, job), harvest_stowed(m2, m3, index, harvested)]
            {
                &&& patch_worked(a, m1, job)
                &&& (if is_tending(job.kind) {
                    tending_applied(m1, m2, job.location, job.kind)
                } else {
                    m2 == m1
                })
                &&& harvested.wf()
                &&& harvested.to_map().dom() == tally(patch_work(a, job, patch_positions(a, job)).1).dom()
                &&& forall|item: Seq<char>|
                    #[trigger] harvested.to_map().contains_key(item) ==> harvested.to_map()[item] == tally(
                        patch_work(a, job, patch_positions(a, job)).1,
                    )[item]
                &&& harvest_stowed(m2, m3, index, harvested)
                &&& b == GameSimulation {
                    jobs: b.jobs,
                    robots: b.robots,
                    metrics: crate::farm::GameMetrics {
                        jobs_completed: (m3.metrics.jobs_completed + 1) as u64,
                        ..m3.metrics
                    },
                    ..m3
                }
                &&& b.jobs@ == Seq::new(m3.jobs@.len(), |i: int| after_completion(m3.jobs@[i], job)).update(
                    j,
                    Job { status: JobStatus::Completed, ..after_completion(m3.jobs@[j], job) },
                )
                &&& b.robots@ == m3.robots@.update(
                    index,
                    crate::farm::Robot {
                        current_job: None,
                        state: state_after_job(m3.robots@[index].inventory.total() > 0, battery_low),
                        ..m3.robots@[index]
                    },
                )
            }
    }
}

/// Completing job `job_id` with robot `index` keeps every counter in range.
pub open spec fn job_completion_fits(sim: GameSimulation, index: int, job_id: u64) -> bool {
    job_exists(sim, job_id) ==> {
        let job = sim.jobs@[first_job(sim.jobs@, job_id)];
        &&& patch_fits(sim, job)
        &&& sim.metrics.water_consumed + 5 * patch_positions(sim, job).len() <= u64::MAX
        &&& tally_fits(patch_work(sim, job, patch_positions(sim, job)).1)
        &&& sim.metrics.crops_produced + sim.robots@[index].inventory.capacity <= u64::MAX
        &&& sim.metrics.jobs_completed < u64::MAX
    }
}

impl GameSimulation {
    /// Robot `index` completes job `job_id`; `battery_low` tells whether its battery
    /// is at or below the level that sends it to a charger.
    pub fn complete_job(&mut self, index: usize, job_id: u64, battery_low: bool)
        requires
            old(self).wf(),
            index < old(self).robots@.len(),
            job_completion_fits(*old(self), index as int, job_id),
        ensures
            final(self).wf(),
            job_completed(*old(self), *final(self), index as int, job_id, battery_low),
    {
        let job_index = match self.job_index(job_id) {
            None => {
                self.reset_robot(index);
                assert(self.robots@ =~= old(self).robots@.update(
                    index as int,
                    crate::farm::Robot {
                        state: crate::model::RobotState::Idle,
                        current_job: None,
                        movement_target: None,
                        ..old(self).robots@[index as int]
                    },
                ));
                return;
            },
            Some(j) => j,
        };
        let job = self.jobs[job_index];
        let harvested = self.work_patch(&job);
        let ghost m1 = *self;
        let tending = match job.kind {
            JobKind::PestControl | JobKind::Weed | JobKind::LoosenSoil | JobKind::SprayPests
            | JobKind::LaserPests => true,
            _ => false,
        };
        if tending {
            self.complete_tending_patch(job.location, job.kind);
        }
        let ghost m2 = *self;
        self.stow_harvest(index, &harvested);
        let ghost m3 = *self;
        self.cancel_patch_jobs(&job);
        self.jobs[job_index].status = JobStatus::Completed;
        self.metrics.jobs_completed = self.metrics.jobs_completed + 1;
        let loaded = self.robots[index].inventory.used() > 0;
        self.robots[index].current_job = None;
        self.robots[index].state = if loaded {
            crate::model::RobotState::MovingToStorage
        } else if battery_low {
            crate::model::RobotState::MovingToCharge
        } else {
            crate::model::RobotState::Idle
        };
        proof {
            assert(harvested.to_map().dom() =~= tally(patch_work(*old(self), job, patch_positions(*old(self), job)).1).dom());
            assert(patch_worked(*old(self), m1, job));
            assert(harvest_stowed(m2, m3, index as int, harvested));
            assert(self.robots@ =~= m3.robots@.update(
                index as int,
                crate::farm::Robot {
                    current_job: None,
                    state: state_after_job(m3.robots@[index as int].inventory.total() > 0, battery_low),
                    ..m3.robots@[index as int]
                },
            ));
        }
    }
}

} // verus!

verus! {

/// The jobs still open: those neither completed nor cancelled, in order.
pub open spec fn open_jobs(jobs: Seq<Job>) -> Seq<Job>
    decreases jobs.len(),
{
    if jobs.len() == 0 {
        jobs
    } else if jobs.last().status is Completed || jobs.last().status is Cancelled {
        open_jobs(jobs.drop_last())
    } else {
        open_jobs(jobs.drop_last()).push(jobs.last())
    }
}

impl GameSimulation {
    /// Drops the completed and cancelled jobs from the queue.
    pub fn prune_finished_jobs(&mut self)
        ensures
            *final(self) == (GameSimulation { jobs: final(self).jobs, ..*old(self) }),
            final(self).jobs@ == open_jobs(old(self).jobs@),
    {
        let mut kept: Vec<Job> = Vec::new();
        let mut i: usize = 0;
        while i < self.jobs.len()
            invariant
                i <= self.jobs@.len(),
                *self == *old(self),
                kept@ == open_jobs(self.jobs@.take(i as int)),
            decreases self.jobs@.len() - i,
        {
            proof {
                assert(self.jobs@.take(i + 1).drop_last() =~= self.jobs@.take(i as int));
            }
            let job = self.jobs[i];
            if job.status != JobStatus::Completed && job.status != JobStatus::Cancelled {
                kept.push(job);
            }
            i += 1;
        }
        assert(self.jobs@.take(self.jobs@.len() as int) =~= self.jobs@);
        self.jobs = kept;
    }
}

/// The ground work of a preparation job leaves its cell ready for the next gate:
/// ploughing leaves it ploughed and untilled soil, tilling leaves it tilled soil
/// without standing water, flooding leaves it full of water; nothing else of the
/// preparation state changes.
pub proof fn preparation_work_prepares_the_cell(
    t: Tile,
    planting: Option<CropDef>,
    harvest: Option<CropDef>,
    minute: u64,
)
    ensures
        ({
            let w = worked_tile(t, JobKind::Plow, planting, harvest, minute);
            w.plowed && !w.tilled && w.terrain == TerrainKind::Soil && w.water_level == 0 && w.crop == t.crop
        }),
        ({
            let w = worked_tile(t, JobKind::Till, planting, harvest, minute);
            w.tilled && w.plowed == t.plowed && w.terrain == TerrainKind::Soil && w.water_level == 0 && w.crop
                == t.crop
        }),
        ({
            let w = worked_tile(t, JobKind::FloodPaddy, planting, harvest, minute);
            w.water_level == 100 && w.tilled == t.tilled && w.plowed == t.plowed && w.crop == t.crop
        }),
{
}

/// What a preparation job of `kind` leaves on every cell it works.
pub open spec fn prepared_for(kind: JobKind, t: Tile) -> bool {
    match kind {
        JobKind::Plow => t.plowed && !t.tilled,
        JobKind::Till => t.tilled,
        JobKind::FloodPaddy => t.water_level == 100,
        _ => true,
    }
}

proof fn lemma_patch_prepared(sim: GameSimulation, job: Job, ps: Seq<TilePos>, q: TilePos)
    requires
        sim.grid.wf(),
        job.kind == JobKind::Plow || job.kind == JobKind::Till || job.kind == JobKind::FloodPaddy,
        ps.contains(q),
        sim.grid.in_bounds(q),
    ensures
        prepared_for(job.kind, patch_work(sim, job, ps).0[crate::grid::row_major(sim.grid.width, q)]),
    decreases ps.len(),
{
    let p = ps.last();
    let qi = crate::grid::row_major(sim.grid.width, q);
    crate::grid::lemma_row_major(sim.grid.width, sim.grid.height, q);
    lemma_patch_work_len(sim, job, ps.drop_last());
    let ts = patch_work(sim, job, ps.drop_last()).0;
    if p == q {
        let t = ts[qi];
        preparation_work_prepares_the_cell(t, planting_def(sim, job), crop_def_of(sim, t), sim.clock.minute);
    } else {
        let k = choose|k: int| 0 <= k < ps.len() && ps[k] == q;
        assert(k < ps.len() - 1);
        assert(ps.drop_last()[k] == q);
        lemma_patch_prepared(sim, job, ps.drop_last(), q);
        if sim.grid.in_bounds(p) {
            crate::grid::lemma_row_major(sim.grid.width, sim.grid.height, p);
            let pi = crate::grid::row_major(sim.grid.width, p);
            if pi == qi {
                assert(p == q) by {
                    assert(crate::grid::position_of_index(sim.grid.width, pi) == p);
                    assert(crate::grid::position_of_index(sim.grid.width, qi) == q);
                }
            }
        }
    }
}

/// A completed preparation job leaves every cell of its patch past its own gate:
/// after ploughing each cell is ploughed and untilled, after tilling tilled, after
/// flooding full of water, so no cell of the patch asks for the same work again.
pub proof fn preparation_covers_its_patch(a: GameSimulation, b: GameSimulation, job: Job, q: TilePos)
    requires
        a.grid.wf(),
        job.kind == JobKind::Plow || job.kind == JobKind::Till || job.kind == JobKind::FloodPaddy,
        patch_worked(a, b, job),
        patch_positions(a, job).contains(q),
        a.grid.in_bounds(q),
    ensures
        ({
            let t = b.grid.tiles@[crate::grid::row_major(b.grid.width, q)];
            &&& job.kind == JobKind::Plow ==> t.plowed && !t.tilled
            &&& job.kind == JobKind::Till ==> t.tilled
            &&& job.kind == JobKind::FloodPaddy ==> t.water_level == 100
        }),
{
    lemma_patch_prepared(a, job, patch_positions(a, job), q);
}

} // verus!
