use vstd::prelude::*;
use vstd::string::*;

use crate::farm::{Job, Robot};
use crate::model::{manhattan_distance, JobStatus, RobotBody, RobotState, TilePos};
use crate::pathfinding::{path_exists_avoiding, route_exists, small_grid};
use crate::simulation::GameSimulation;
use crate::textmap::text_eq;

verus! {

/// A ground robot may cross planted tiles unless it is wheeled; the rice harvester
/// is the wheeled exception.
pub open spec fn allows_planted_fields(robot: Robot) -> bool {
    !(robot.body is Wheeled) || robot.def_id@ == "rice_harvester"@
}

pub fn robot_allows_planted_fields(robot: &Robot) -> (r: bool)
    ensures
        r == allows_planted_fields(*robot),
{
    proof {
        reveal_strlit("rice_harvester");
    }
    robot.body != RobotBody::Wheeled || text_eq(robot.def_id.as_str(), "rice_harvester")
}

/// The cells held by the robots other than `robot_id` that share the air (for a
/// flying robot) or the ground (otherwise): where each stands and where it is
/// stepping to, robot by robot.
pub open spec fn occupied_cells(robots: Seq<Robot>, robot_id: u64, flying: bool) -> Seq<TilePos>
    decreases robots.len(),
{
    if robots.len() == 0 {
        Seq::empty()
    } else {
        let earlier = occupied_cells(robots.drop_last(), robot_id, flying);
        let r = robots.last();
        if r.id != robot_id && (r.body is Flying) == flying {
            match r.movement_target {
                Some(t) => earlier.push(r.position).push(t),
                None => earlier.push(r.position),
            }
        } else {
            earlier
        }
    }
}

/// A robot can get to `target`: flying robots always, ground robots along a route
/// that keeps clear of the cells other ground robots hold.
pub open spec fn robot_reaches(sim: GameSimulation, robot: Robot, target: TilePos) -> bool {
    robot.body is Flying || route_exists(
        sim.grid,
        robot.position,
        target,
        robot.body,
        allows_planted_fields(robot),
        occupied_cells(sim.robots@, robot.id, false),
    )
}

impl GameSimulation {
    /// The cells held by the robots other than `robot_id` in the same medium as `body`.
    pub fn robot_occupied_tiles(&self, robot_id: u64, body: RobotBody) -> (r: Vec<TilePos>)
        ensures
            r@ == occupied_cells(self.robots@, robot_id, body is Flying),
    {
        let flying = body == RobotBody::Flying;
        let mut cells: Vec<TilePos> = Vec::new();
        let mut i: usize = 0;
        while i < self.robots.len()
            invariant
                i <= self.robots@.len(),
                flying == (body is Flying),
                cells@ == occupied_cells(self.robots@.take(i as int), robot_id, flying),
            decreases self.robots@.len() - i,
        {
            proof {
                assert(self.robots@.take(i + 1).drop_last() =~= self.robots@.take(i as int));
            }
            let other = &self.robots[i];
            if other.id != robot_id && (other.body == RobotBody::Flying) == flying {
                cells.push(other.position);
                match other.movement_target {
                    Some(t) => cells.push(t),
                    None => {},
                }
            }
            i += 1;
        }
        assert(self.robots@.take(self.robots@.len() as int) =~= self.robots@);
        cells
    }

    /// Whether `robot` can get to `target`.
    pub fn robot_can_reach(&self, robot: &Robot, target: TilePos) -> (r: bool)
        requires
            self.wf(),
            small_grid(self.grid),
        ensures
            r == robot_reaches(*self, *robot, target),
    {
        if robot.body == RobotBody::Flying {
            return true;
        }
        let occupied = self.robot_occupied_tiles(robot.id, robot.body);
        path_exists_avoiding(
            &self.grid,
            robot.position,
            target,
            robot.body,
            robot_allows_planted_fields(robot),
            &occupied,
        )
    }

    /// Whether robot `index` stands on `target` with no step under way.
    pub fn robot_arrived(&self, index: usize, target: TilePos) -> (r: bool)
        requires
            index < self.robots@.len(),
        ensures
            r == (self.robots@[index as int].position == target && self.robots@[index as int].movement_target is None),
    {
        self.robots[index].position == target && self.robots[index].movement_target.is_none()
    }
}

/// Whether `capabilities` includes `wanted`.
pub fn has_capability(capabilities: &Vec<crate::model::Capability>, wanted: crate::model::Capability) -> (r: bool)
    ensures
        r == capabilities@.contains(wanted),
{
    let mut i: usize = 0;
    while i < capabilities.len()
        invariant
            i <= capabilities@.len(),
            forall|j: int| 0 <= j < i ==> capabilities@[j] != wanted,
        decreases capabilities@.len() - i,
    {
        if capabilities[i] == wanted {
            return true;
        }
        i += 1;
    }
    false
}

/// What the scheduler reads of a robot's energy and speed, measured by the runtime
/// that tracks them.
#[derive(Debug, Clone, Copy, PartialEq, Eq)]
pub struct RobotReadiness {
    /// The battery is charged enough to start a job.
    pub can_start: bool,
    /// The battery is low enough that jobs should rather go elsewhere.
    pub battery_low: bool,
    /// The robot's work speed in hundredths.
    pub speed_bonus: i32,
}

/// A job robot `robot` may take: pending, within its capabilities, and reachable.
pub open spec fn job_candidate(sim: GameSimulation, robot: Robot, job: Job) -> bool {
    &&& job.status is Pending
    &&& robot.capabilities@.contains(job.required_capability)
    &&& robot_reaches(sim, robot, job.location)
}

/// How much the scheduler wants `robot` on `job`: priority first, then nearness;
/// a low battery counts against every job, a fast robot for every job.
pub open spec fn job_score(robot: Robot, job: Job, readiness: RobotReadiness) -> int {
    job.priority * 100 - manhattan_distance(robot.position, job.location) * 4 - (if readiness.battery_low {
        500int
    } else {
        0int
    }) + readiness.speed_bonus
}

/// Job `a` ranks above job `b`: a higher score, or the same score and a lower id.
pub open spec fn ranks_above(robot: Robot, readiness: RobotReadiness, a: Job, b: Job) -> bool {
    job_score(robot, a, readiness) > job_score(robot, b, readiness) || (job_score(robot, a, readiness)
        == job_score(robot, b, readiness) && a.id < b.id)
}

/// Job `j` is the best candidate of `robot`: no candidate ranks above it, and it
/// ranks above every candidate before it.
pub open spec fn best_candidate(sim: GameSimulation, robot: Robot, readiness: RobotReadiness, j: int) -> bool {
    &&& 0 <= j < sim.jobs@.len()
    &&& job_candidate(sim, robot, sim.jobs@[j])
    &&& forall|c: int|
        0 <= c < sim.jobs@.len() && job_candidate(sim, robot, #[trigger] sim.jobs@[c]) ==> !ranks_above(
            robot,
            readiness,
            sim.jobs@[c],
            sim.jobs@[j],
        )
    &&& forall|c: int|
        0 <= c < j && job_candidate(sim, robot, #[trigger] sim.jobs@[c]) ==> ranks_above(
            robot,
            readiness,
            sim.jobs@[j],
            sim.jobs@[c],
        )
}

impl GameSimulation {
    /// The best job for robot `index`, if it has a candidate.
    pub fn best_job_for(&self, index: usize, readiness: RobotReadiness) -> (r: Option<usize>)
        requires
            self.wf(),
            small_grid(self.grid),
            index < self.robots@.len(),
        ensures
            r is None <==> forall|c: int|
                0 <= c < self.jobs@.len() ==> !job_candidate(*self, self.robots@[index as int], #[trigger] self.jobs@[c]),
            r matches Some(j) ==> best_candidate(*self, self.robots@[index as int], readiness, j as int),
    {
        let robot = &self.robots[index];
        let mut best: Option<(usize, i64, u64)> = None;
        let mut k: usize = 0;
        while k < self.jobs.len()
            invariant
                self.wf(),
                small_grid(self.grid),
                index < self.robots@.len(),
                *robot == self.robots@[index as int],
                k <= self.jobs@.len(),
                best is None ==> forall|c: int| 0 <= c < k ==> !job_candidate(*self, *robot, #[trigger] self.jobs@[c]),
                best matches Some((j, score, id)) ==> {
                    &&& j < k
                    &&& job_candidate(*self, *robot, self.jobs@[j as int])
                    &&& score == job_score(*robot, self.jobs@[j as int], readiness)
                    &&& id == self.jobs@[j as int].id
                    &&& forall|c: int|
                        0 <= c < k && job_candidate(*self, *robot, #[trigger] self.jobs@[c]) ==> !ranks_above(
                            *robot,
                            readiness,
                            self.jobs@[c],
                            self.jobs@[j as int],
                        )
                    &&& forall|c: int|
                        0 <= c < j && job_candidate(*self, *robot, #[trigger] self.jobs@[c]) ==> ranks_above(
                            *robot,
                            readiness,
                            self.jobs@[j as int],
                            self.jobs@[c],
                        )
                },
            decreases self.jobs@.len() - k,
        {
            let job = self.jobs[k];
            if job.status == JobStatus::Pending && has_capability(&robot.capabilities, job.required_capability)
                && self.robot_can_reach(robot, job.location) {
                let dx: i64 = if robot.position.x >= job.location.x {
                    (robot.position.x - job.location.x) as i64
                } else {
                    (job.location.x - robot.position.x) as i64
                };
                let dy: i64 = if robot.position.y >= job.location.y {
                    (robot.position.y - job.location.y) as i64
                } else {
                    (job.location.y - robot.position.y) as i64
                };
                let penalty: i64 = if readiness.battery_low {
                    500
                } else {
                    0
                };
                let score: i64 = job.priority as i64 * 100 - (dx + dy) * 4 - penalty + readiness.speed_bonus as i64;
                let replace = match best {
                    None => true,
                    Some((_, best_score, best_id)) => score > best_score || (score == best_score && job.id < best_id),
                };
                if replace {
                    best = Some((k, score, job.id));
                }
            }
            k += 1;
        }
        match best {
            None => None,
            Some((j, _, _)) => Some(j),
        }
    }
}

} // verus!

verus! {

/// `b` is `a` after the scheduler considers robot `index`: an idle or parked robot
/// that can start a job takes its best candidate, which becomes assigned to it; the
/// robot sets off for it (leaving the garage first when parked).
pub open spec fn robot_assigned(a: GameSimulation, b: GameSimulation, index: int, readiness: RobotReadiness) -> bool {
    let robot = a.robots@[index];
    if !(robot.state is Idle || robot.state is Parked) || !readiness.can_start || forall|c: int|
        0 <= c < a.jobs@.len() ==> !job_candidate(a, robot, #[trigger] a.jobs@[c]) {
        b == a
    } else {
        exists|j: int|
            #[trigger] best_candidate(a, robot, readiness, j) && {
                let job = a.jobs@[j];
                &&& b == GameSimulation { jobs: b.jobs, robots: b.robots, ..a }
                &&& b.jobs@ == a.jobs@.update(j, Job { status: JobStatus::Assigned, assigned_robot: Some(robot.id), ..job })
                &&& b.robots@ == a.robots@.update(
                    index,
                    Robot {
                        current_job: Some(job.id),
                        state: if robot.state is Parked {
                            RobotState::Departing(job.id)
                        } else {
                            RobotState::MovingToJob(job.id)
                        },
                        ..robot
                    },
                )
            }
    }
}

/// The first `k` robots considered one after the other.
pub open spec fn robots_assigned(a: GameSimulation, b: GameSimulation, readiness: Seq<RobotReadiness>, k: nat) -> bool
    decreases k,
{
    if k == 0 {
        b == a
    } else {
        exists|m: GameSimulation|
            robots_assigned(a, m, readiness, (k - 1) as nat) && #[trigger] robot_assigned(m, b, k - 1, readiness[k - 1])
    }
}

impl GameSimulation {
    /// Hands each idle or parked robot that can start a job its best pending job.
    pub fn assign_jobs(&mut self, readiness: &Vec<RobotReadiness>)
        requires
            old(self).wf(),
            small_grid(old(self).grid),
            readiness@.len() == old(self).robots@.len(),
        ensures
            final(self).wf(),
            robots_assigned(*old(self), *final(self), readiness@, old(self).robots@.len()),
    {
        let n = self.robots.len();
        let mut i: usize = 0;
        while i < n
            invariant
                self.wf(),
                small_grid(self.grid),
                self.grid == old(self).grid,
                n == old(self).robots@.len(),
                n == self.robots@.len(),
                readiness@.len() == n,
                i <= n,
                robots_assigned(*old(self), *self, readiness@, i as nat),
            decreases n - i,
        {
            let ghost m = *self;
            let r = readiness[i];
            let state = self.robots[i].state;
            let ready = match state {
                RobotState::Idle | RobotState::Parked => r.can_start,
                _ => false,
            };
            if ready {
                match self.best_job_for(i, r) {
                    None => {},
                    Some(j) => {
                        let job_id = self.jobs[j].id;
                        let robot_id = self.robots[i].id;
                        self.jobs.set(j, Job { status: JobStatus::Assigned, assigned_robot: Some(robot_id), ..self.jobs[j] });
                        self.robots[i].current_job = Some(job_id);
                        self.robots[i].state = match state {
                            RobotState::Parked => RobotState::Departing(job_id),
                            _ => RobotState::MovingToJob(job_id),
                        };
                        proof {
                            assert(best_candidate(m, m.robots@[i as int], r, j as int));
                            assert(self.robots@ =~= m.robots@.update(
                                i as int,
                                Robot {
                                    current_job: Some(job_id),
                                    state: if m.robots@[i as int].state is Parked {
                                        RobotState::Departing(job_id)
                                    } else {
                                        RobotState::MovingToJob(job_id)
                                    },
                                    ..m.robots@[i as int]
                                },
                            ));
                        }
                    },
                }
            }
            proof {
                let kk = (i + 1) as nat;
                assert(robots_assigned(*old(self), m, readiness@, (kk - 1) as nat));
                assert(robot_assigned(m, *self, kk - 1, readiness@[kk - 1]));
            }
            i += 1;
        }
    }
}

} // verus!

verus! {

/// The next cell robot `robot` heads for on its way to `target`: none once there;
/// a flying robot flies straight unless another flyer holds the cell; a ground robot
/// takes the first step of a route around the cells other ground robots hold.
pub open spec fn step_plan_ok(sim: GameSimulation, robot: Robot, target: TilePos, r: Option<TilePos>) -> bool {
    if robot.position == target {
        r is None
    } else if robot.body is Flying {
        let candidate = crate::model::step_toward_spec(robot.position, target);
        r == if occupied_cells(sim.robots@, robot.id, true).contains(candidate) {
            None::<TilePos>
        } else {
            Some(candidate)
        }
    } else {
        &&& (r matches Some(step) ==> crate::pathfinding::valid_first_step(
            sim.grid,
            robot.position,
            target,
            robot.body,
            allows_planted_fields(robot),
            occupied_cells(sim.robots@, robot.id, false),
            step,
        ))
        &&& (small_grid(sim.grid) && route_exists(
            sim.grid,
            robot.position,
            target,
            robot.body,
            allows_planted_fields(robot),
            occupied_cells(sim.robots@, robot.id, false),
        ) ==> r is Some)
    }
}

fn cells_contain(cells: &Vec<TilePos>, p: TilePos) -> (r: bool)
    ensures
        r == cells@.contains(p),
{
    let mut i: usize = 0;
    while i < cells.len()
        invariant
            i <= cells@.len(),
            forall|j: int| 0 <= j < i ==> cells@[j] != p,
        decreases cells@.len() - i,
    {
        if cells[i] == p {
            return true;
        }
        i += 1;
    }
    false
}

impl GameSimulation {
    /// The next cell robot `index` should step to on its way to `target`, if any.
    pub fn plan_robot_step(&self, index: usize, target: TilePos) -> (r: Option<TilePos>)
        requires
            self.wf(),
            index < self.robots@.len(),
        ensures
            step_plan_ok(*self, self.robots@[index as int], target, r),
    {
        let robot = &self.robots[index];
        if robot.position == target {
            return None;
        }
        let occupied = self.robot_occupied_tiles(robot.id, robot.body);
        if robot.body == RobotBody::Flying {
            let candidate = robot.position.step_toward(target);
            if cells_contain(&occupied, candidate) {
                None
            } else {
                Some(candidate)
            }
        } else {
            crate::pathfinding::next_ground_step_avoiding(
                &self.grid,
                robot.position,
                target,
                robot.body,
                robot_allows_planted_fields(robot),
                &occupied,
            )
        }
    }

    /// Robot `index` unloads its cargo into the farm's store, as much as fits.
    pub fn unload_robot(&mut self, index: usize) -> (moved: u32)
        requires
            old(self).wf(),
            index < old(self).robots@.len(),
        ensures
            final(self).wf(),
            ({
                let cargo = old(self).robots@[index as int].inventory;
                let store = old(self).inventory;
                &&& *final(self) == (GameSimulation { robots: final(self).robots, inventory: final(self).inventory, ..*old(self) })
                &&& final(self).robots@.len() == old(self).robots@.len()
                &&& forall|j: int| 0 <= j < old(self).robots@.len() && j != index ==> #[trigger] final(self).robots@[j] == old(self).robots@[j]
                &&& final(self).robots@[index as int] == (Robot { inventory: final(self).robots@[index as int].inventory, ..old(self).robots@[index as int] })
                &&& final(self).robots@[index as int].inventory.stock() == Map::<Seq<char>, u32>::empty()
                &&& final(self).robots@[index as int].inventory.capacity == cargo.capacity
                &&& final(self).inventory.capacity == store.capacity
                &&& (final(self).inventory.stock(), final(self).inventory.total()) == crate::inventory::add_all(
                    store.stock(),
                    store.total(),
                    store.capacity as int,
                    cargo.items.entries@,
                )
                &&& moved == final(self).inventory.total() - store.total()
            }),
    {
        let mut store = crate::inventory::Inventory::with_capacity(0);
        std::mem::swap(&mut store, &mut self.inventory);
        let moved = self.robots[index].inventory.drain_into(&mut store);
        std::mem::swap(&mut store, &mut self.inventory);
        moved
    }
}

} // verus!

verus! {

/// A planned step never enters a cell that another robot of the same medium
/// (ground or air) stands on or is stepping to, and it moves by one cell.
pub proof fn planned_steps_avoid_reserved_cells(sim: GameSimulation, robot: Robot, target: TilePos, r: Option<TilePos>)
    requires
        step_plan_ok(sim, robot, target, r),
        r is Some,
    ensures
        !occupied_cells(sim.robots@, robot.id, robot.body is Flying).contains(r->0),
        manhattan_distance(robot.position, r->0) == 1,
{
    if robot.body is Flying {
        crate::model::step_toward_closes_distance(robot.position, target);
    }
}

/// Among candidate jobs of the same priority, the nearer job is worth more to a
/// robot: each step of distance costs four points of score.
pub proof fn nearer_jobs_score_higher(robot: Robot, readiness: RobotReadiness, a: Job, b: Job)
    requires
        a.priority == b.priority,
    ensures
        job_score(robot, a, readiness) - job_score(robot, b, readiness) == 4 * (manhattan_distance(
            robot.position,
            b.location,
        ) - manhattan_distance(robot.position, a.location)),
        manhattan_distance(robot.position, a.location) < manhattan_distance(robot.position, b.location)
            ==> job_score(robot, a, readiness) > job_score(robot, b, readiness),
{
}

/// The job a robot is given is, among the candidates of its own priority, one of the
/// nearest; and no candidate of higher priority lies within 25 steps more of it.
pub proof fn best_job_is_nearest_of_its_priority(
    sim: GameSimulation,
    robot: Robot,
    readiness: RobotReadiness,
    j: int,
    c: int,
)
    requires
        best_candidate(sim, robot, readiness, j),
        0 <= c < sim.jobs@.len(),
        job_candidate(sim, robot, sim.jobs@[c]),
    ensures
        sim.jobs@[c].priority == sim.jobs@[j].priority ==> manhattan_distance(robot.position, sim.jobs@[j].location)
            <= manhattan_distance(robot.position, sim.jobs@[c].location),
        sim.jobs@[c].priority > sim.jobs@[j].priority ==> manhattan_distance(robot.position, sim.jobs@[c].location)
            >= manhattan_distance(robot.position, sim.jobs@[j].location) + 25,
{
    assert(!ranks_above(robot, readiness, sim.jobs@[c], sim.jobs@[j]));
}

} // verus!
