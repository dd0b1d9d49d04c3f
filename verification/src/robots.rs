use vstd::prelude::*;

use crate::execution::{logged, logged_notice, Notice};
use crate::farm::{FarmEvent, Robot};
use crate::model::RobotState;
use crate::simulation::GameSimulation;

verus! {

/// Where a robot is heading this minute.
#[derive(Debug, Clone, Copy, PartialEq, Eq, Structural)]
pub enum Heading {
    Stay,
    GarageExit,
    JobSite,
    Charger,
    Warehouse,
    Home,
}

/// What the runtime that tracks a robot's energy, motion and work measured this
/// minute, after moving it toward its heading.
#[derive(Debug, Clone, Copy, PartialEq, Eq)]
pub struct RobotReading {
    /// The battery is at or below a fifth of a full charge.
    pub battery_low: bool,
    /// An idle robot has waited long enough to go back to the garage.
    pub idle_time_up: bool,
    /// The robot stands on its heading's target with no step under way.
    pub arrived: bool,
    /// The current phase of its job (preparing, working, finishing) is complete.
    pub phase_done: bool,
    /// A charging robot is charged enough to leave.
    pub charged: bool,
}

/// What a robot does in one minute: its next state, where it heads, and what the
/// farm records of it.
#[derive(Debug, Clone, Copy, PartialEq, Eq)]
pub struct RobotStep {
    pub state: RobotState,
    pub heading: Heading,
    pub low_battery_alert: bool,
    pub reset: bool,
    pub finish_job: bool,
    pub unload: bool,
    pub idle_minute: bool,
    pub work_minute: bool,
    pub charge_minute: bool,
    pub failed_minute: bool,
    pub energy_used: u8,
}

pub open spec fn quiet(state: RobotState, heading: Heading) -> RobotStep {
    RobotStep {
        state,
        heading,
        low_battery_alert: false,
        reset: false,
        finish_job: false,
        unload: false,
        idle_minute: false,
        work_minute: false,
        charge_minute: false,
        failed_minute: false,
        energy_used: 0,
    }
}

/// One minute of a robot in `state`; `job_known` tells whether the job its state
/// names is still queued.
/// A waiting robot counts an idle minute and leaves for a charger when its battery
/// is low (raising an alert), an idle one goes home once its time is up; a robot
/// whose job vanished is reset; the way to a job passes the garage exit when parked;
/// a job is prepared, worked and finished, each phase counting work minutes, the
/// work itself using energy; charging uses energy until charged; cargo is unloaded
/// at the warehouse; a broken robot counts a failure every minute.
pub open spec fn robot_step_spec(state: RobotState, job_known: bool, r: RobotReading) -> RobotStep {
    match state {
        RobotState::Parked => if r.battery_low {
            RobotStep { low_battery_alert: true, idle_minute: true, ..quiet(RobotState::MovingToCharge, Heading::Stay) }
        } else {
            RobotStep { idle_minute: true, ..quiet(RobotState::Parked, Heading::Stay) }
        },
        RobotState::Idle => if r.battery_low {
            RobotStep { low_battery_alert: true, idle_minute: true, ..quiet(RobotState::MovingToCharge, Heading::Stay) }
        } else if r.idle_time_up {
            RobotStep { idle_minute: true, ..quiet(RobotState::ReturningToGarage, Heading::Stay) }
        } else {
            RobotStep { idle_minute: true, ..quiet(RobotState::Idle, Heading::Stay) }
        },
        RobotState::Departing(j) => if !job_known {
            RobotStep { reset: true, ..quiet(RobotState::Idle, Heading::Stay) }
        } else if r.arrived {
            quiet(RobotState::MovingToJob(j), Heading::GarageExit)
        } else {
            quiet(RobotState::Departing(j), Heading::GarageExit)
        },
        RobotState::MovingToJob(j) => if !job_known {
            RobotStep { reset: true, ..quiet(RobotState::Idle, Heading::Stay) }
        } else if r.arrived {
            quiet(RobotState::Preparing(j), Heading::JobSite)
        } else {
            quiet(RobotState::MovingToJob(j), Heading::JobSite)
        },
        RobotState::Preparing(j) => if !job_known {
            RobotStep { reset: true, ..quiet(RobotState::Idle, Heading::Stay) }
        } else if r.phase_done {
            RobotStep { work_minute: true, ..quiet(RobotState::Working(j), Heading::Stay) }
        } else {
            RobotStep { work_minute: true, ..quiet(RobotState::Preparing(j), Heading::Stay) }
        },
        RobotState::Working(j) => if r.phase_done {
            RobotStep { work_minute: true, energy_used: 1, ..quiet(RobotState::Finishing(j), Heading::Stay) }
        } else {
            RobotStep { work_minute: true, energy_used: 1, ..quiet(RobotState::Working(j), Heading::Stay) }
        },
        RobotState::Finishing(j) => if !job_known {
            RobotStep { reset: true, ..quiet(RobotState::Idle, Heading::Stay) }
        } else {
            RobotStep {
                work_minute: true,
                finish_job: r.phase_done,
                ..quiet(RobotState::Finishing(j), Heading::Stay)
            }
        },
        RobotState::MovingToCharge => if r.arrived {
            quiet(RobotState::Charging, Heading::Charger)
        } else {
            quiet(RobotState::MovingToCharge, Heading::Charger)
        },
        RobotState::Charging => if r.charged {
            RobotStep { charge_minute: true, energy_used: 2, ..quiet(RobotState::ReturningToGarage, Heading::Stay) }
        } else {
            RobotStep { charge_minute: true, energy_used: 2, ..quiet(RobotState::Charging, Heading::Stay) }
        },
        RobotState::MovingToStorage => if r.arrived {
            RobotStep {
                unload: true,
                ..quiet(
                    if r.battery_low {
                        RobotState::MovingToCharge
                    } else {
                        RobotState::ReturningToGarage
                    },
                    Heading::Warehouse,
                )
            }
        } else {
            quiet(RobotState::MovingToStorage, Heading::Warehouse)
        },
        RobotState::ReturningToGarage => if r.arrived {
            quiet(RobotState::Parked, Heading::Home)
        } else {
            quiet(RobotState::ReturningToGarage, Heading::Home)
        },
        RobotState::Broken => RobotStep { failed_minute: true, ..quiet(RobotState::Broken, Heading::Stay) },
    }
}

fn quiet_step(state: RobotState, heading: Heading) -> (r: RobotStep)
    ensures
        r == quiet(state, heading),
{
    RobotStep {
        state,
        heading,
        low_battery_alert: false,
        reset: false,
        finish_job: false,
        unload: false,
        idle_minute: false,
        work_minute: false,
        charge_minute: false,
        failed_minute: false,
        energy_used: 0,
    }
}

/// One minute of a robot in `state`.
pub fn next_robot_step(state: RobotState, job_known: bool, r: RobotReading) -> (step: RobotStep)
    ensures
        step == robot_step_spec(state, job_known, r),
{
    match state {
        RobotState::Parked => if r.battery_low {
            RobotStep { low_battery_alert: true, idle_minute: true, ..quiet_step(RobotState::MovingToCharge, Heading::Stay) }
        } else {
            RobotStep { idle_minute: true, ..quiet_step(RobotState::Parked, Heading::Stay) }
        },
        RobotState::Idle => if r.battery_low {
            RobotStep { low_battery_alert: true, idle_minute: true, ..quiet_step(RobotState::MovingToCharge, Heading::Stay) }
        } else if r.idle_time_up {
            RobotStep { idle_minute: true, ..quiet_step(RobotState::ReturningToGarage, Heading::Stay) }
        } else {
            RobotStep { idle_minute: true, ..quiet_step(RobotState::Idle, Heading::Stay) }
        },
        RobotState::Departing(j) => if !job_known {
            RobotStep { reset: true, ..quiet_step(RobotState::Idle, Heading::Stay) }
        } else if r.arrived {
            quiet_step(RobotState::MovingToJob(j), Heading::GarageExit)
        } else {
            quiet_step(RobotState::Departing(j), Heading::GarageExit)
        },
        RobotState::MovingToJob(j) => if !job_known {
            RobotStep { reset: true, ..quiet_step(RobotState::Idle, Heading::Stay) }
        } else if r.arrived {
            quiet_step(RobotState::Preparing(j), Heading::JobSite)
        } else {
            quiet_step(RobotState::MovingToJob(j), Heading::JobSite)
        },
        RobotState::Preparing(j) => if !job_known {
            RobotStep { reset: true, ..quiet_step(RobotState::Idle, Heading::Stay) }
        } else if r.phase_done {
            RobotStep { work_minute: true, ..quiet_step(RobotState::Working(j), Heading::Stay) }
        } else {
            RobotStep { work_minute: true, ..quiet_step(RobotState::Preparing(j), Heading::Stay) }
        },
        RobotState::Working(j) => if r.phase_done {
            RobotStep { work_minute: true, energy_used: 1, ..quiet_step(RobotState::Finishing(j), Heading::Stay) }
        } else {
            RobotStep { work_minute: true, energy_used: 1, ..quiet_step(RobotState::Working(j), Heading::Stay) }
        },
        RobotState::Finishing(j) => if !job_known {
            RobotStep { reset: true, ..quiet_step(RobotState::Idle, Heading::Stay) }
        } else {
            RobotStep { work_minute: true, finish_job: r.phase_done, ..quiet_step(RobotState::Finishing(j), Heading::Stay) }
        },
        RobotState::MovingToCharge => if r.arrived {
            quiet_step(RobotState::Charging, Heading::Charger)
        } else {
            quiet_step(RobotState::MovingToCharge, Heading::Charger)
        },
        RobotState::Charging => if r.charged {
            RobotStep { charge_minute: true, energy_used: 2, ..quiet_step(RobotState::ReturningToGarage, Heading::Stay) }
        } else {
            RobotStep { charge_minute: true, energy_used: 2, ..quiet_step(RobotState::Charging, Heading::Stay) }
        },
        RobotState::MovingToStorage => if r.arrived {
            RobotStep {
                unload: true,
                ..quiet_step(
                    if r.battery_low {
                        RobotState::MovingToCharge
                    } else {
                        RobotState::ReturningToGarage
                    },
                    Heading::Warehouse,
                )
            }
        } else {
            quiet_step(RobotState::MovingToStorage, Heading::Warehouse)
        },
        RobotState::ReturningToGarage => if r.arrived {
            quiet_step(RobotState::Parked, Heading::Home)
        } else {
            quiet_step(RobotState::ReturningToGarage, Heading::Home)
        },
        RobotState::Broken => RobotStep { failed_minute: true, ..quiet_step(RobotState::Broken, Heading::Stay) },
    }
}

/// The farm's minute counters stay in range for one more step of robot bookkeeping.
pub open spec fn step_fits(sim: GameSimulation) -> bool {
    &&& sim.metrics.robot_idle_minutes < u64::MAX
    &&& sim.metrics.robot_work_minutes < u64::MAX
    &&& sim.metrics.robot_charge_minutes < u64::MAX
    &&& sim.metrics.jobs_failed < u64::MAX
    &&& sim.metrics.energy_consumed + 2 <= u64::MAX
}

pub open spec fn count_if(n: u64, b: bool) -> u64 {
    if b {
        (n + 1) as u64
    } else {
        n
    }
}

impl GameSimulation {
    /// Records robot `index`'s step: its new state (a reset also drops its job and
    /// its next cell), the minutes and energy it counts, and a low-battery alert.
    pub fn record_robot_step(&mut self, index: usize, step: RobotStep)
        requires
            old(self).wf(),
            index < old(self).robots@.len(),
            step_fits(*old(self)),
            step.energy_used <= 2,
        ensures
            final(self).wf(),
            ({
                let a = *old(self);
                let robot = a.robots@[index as int];
                &&& *final(self) == (GameSimulation {
                    robots: final(self).robots,
                    metrics: crate::farm::GameMetrics {
                        robot_idle_minutes: count_if(a.metrics.robot_idle_minutes, step.idle_minute),
                        robot_work_minutes: count_if(a.metrics.robot_work_minutes, step.work_minute),
                        robot_charge_minutes: count_if(a.metrics.robot_charge_minutes, step.charge_minute),
                        jobs_failed: count_if(a.metrics.jobs_failed, step.failed_minute),
                        energy_consumed: (a.metrics.energy_consumed + step.energy_used) as u64,
                        ..a.metrics
                    },
                    events: final(self).events,
                    ..a
                })
                &&& final(self).robots@ == a.robots@.update(
                    index as int,
                    if step.reset {
                        Robot { state: step.state, current_job: None, movement_target: None, ..robot }
                    } else {
                        Robot { state: step.state, ..robot }
                    },
                )
                &&& if step.low_battery_alert {
                    logged_notice(a.events@, final(self).events@, Notice::RobotLowBattery(robot.id))
                } else {
                    final(self).events@ == a.events@
                }
            }),
    {
        if step.idle_minute {
            self.metrics.robot_idle_minutes = self.metrics.robot_idle_minutes + 1;
        }
        if step.work_minute {
            self.metrics.robot_work_minutes = self.metrics.robot_work_minutes + 1;
        }
        if step.charge_minute {
            self.metrics.robot_charge_minutes = self.metrics.robot_charge_minutes + 1;
        }
        if step.failed_minute {
            self.metrics.jobs_failed = self.metrics.jobs_failed + 1;
        }
        self.metrics.energy_consumed = self.metrics.energy_consumed + step.energy_used as u64;
        self.robots[index].state = step.state;
        if step.reset {
            self.robots[index].current_job = None;
            self.robots[index].movement_target = None;
        }
        if step.low_battery_alert {
            let id = self.robots[index].id;
            let ghost before = self.events@;
            self.push_event(FarmEvent::RobotLowBattery(id));
            assert(self.events@ == logged(before, FarmEvent::RobotLowBattery(id)));
        }
    }
}

} // verus!

verus! {

/// Every job runs through the same cycle while it stays queued: the robot arrives,
/// deploys its tool (preparing), works, stows its tool (finishing), and only then
/// is the job completed.
pub proof fn job_cycle_order(j: u64, r: RobotReading)
    requires
        r.arrived,
        r.phase_done,
    ensures
        robot_step_spec(RobotState::MovingToJob(j), true, r).state == RobotState::Preparing(j),
        robot_step_spec(RobotState::Preparing(j), true, r).state == RobotState::Working(j),
        robot_step_spec(RobotState::Working(j), true, r).state == RobotState::Finishing(j),
        robot_step_spec(RobotState::Finishing(j), true, r).finish_job,
        !robot_step_spec(RobotState::MovingToJob(j), true, r).finish_job,
        !robot_step_spec(RobotState::Preparing(j), true, r).finish_job,
        !robot_step_spec(RobotState::Working(j), true, r).finish_job,
{
}

/// A robot whose job is no longer queued is reset to idle from every job-bound
/// state but work already under way.
pub proof fn vanished_jobs_reset_robots(j: u64, r: RobotReading)
    ensures
        robot_step_spec(RobotState::Departing(j), false, r).reset,
        robot_step_spec(RobotState::MovingToJob(j), false, r).reset,
        robot_step_spec(RobotState::Preparing(j), false, r).reset,
        robot_step_spec(RobotState::Finishing(j), false, r).reset,
        robot_step_spec(RobotState::Finishing(j), false, r).state == RobotState::Idle,
{
}

/// A waiting robot counts an idle minute; an idle one with charge left heads home
/// once its waiting time is up and keeps waiting before; a robot heading home parks
/// only on arrival.
pub proof fn idle_robots_head_home(r: RobotReading)
    ensures
        robot_step_spec(RobotState::Idle, false, r).idle_minute,
        robot_step_spec(RobotState::Parked, false, r).idle_minute,
        !r.battery_low && r.idle_time_up ==> robot_step_spec(RobotState::Idle, false, r).state
            == RobotState::ReturningToGarage,
        !r.battery_low && !r.idle_time_up ==> robot_step_spec(RobotState::Idle, false, r).state == RobotState::Idle,
        (robot_step_spec(RobotState::ReturningToGarage, false, r).state == RobotState::Parked) == r.arrived,
{
}

} // verus!
