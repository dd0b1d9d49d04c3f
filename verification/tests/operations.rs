use autofarm::content::{ContentCatalog, ContractDef, CropDef, GrowthStageDef, ItemRequirement, RobotDef};
use autofarm::farm::{FarmEvent, Job};
use autofarm::fleet::RobotReadiness;
use autofarm::grid::CropInstance;
use autofarm::map::{MapDefinition, MapFacilityDef, MapZoneDef};
use autofarm::model::{Capability, FacilityKind, JobKind, JobStatus, RobotBody, RobotState, TerrainKind, TilePos, Weather};
use autofarm::npc::npc_directive;
use autofarm::robots::{next_robot_step, Heading, RobotReading};
use autofarm::simulation::{GameSimulation, SimulationError};

fn crop(id: &str, yield_per_tile: u32) -> CropDef {
    CropDef {
        id: id.to_owned(),
        display_name: id.to_owned(),
        stages: vec![
            GrowthStageDef { name: "seed".to_owned(), duration_minutes: 100 },
            GrowthStageDef { name: "green".to_owned(), duration_minutes: 100 },
            GrowthStageDef { name: "ripe".to_owned(), duration_minutes: 1 },
        ],
        water_threshold: 30,
        fertility_cost: 5,
        needs_pollination: false,
        needs_inspection: false,
        needs_pest_control: false,
        requires_flooded_field: false,
        plant_capability: Capability::Seed,
        harvest_capability: Capability::Harvest,
        harvest_count: 1,
        harvest_yield: yield_per_tile,
        market_value: 10,
    }
}

fn catalog() -> ContentCatalog {
    let crops = vec![crop("wheat", 6), crop("potato", 4), crop("tomato", 3), crop("strawberry", 2), crop("rice", 5)];
    let robot = |id: &str, body: RobotBody, caps: &[Capability]| RobotDef {
        id: id.to_owned(),
        display_name: id.to_owned(),
        body,
        capabilities: caps.to_vec(),
        cargo_capacity: 20,
        purchase_price: 1500,
    };
    let robots = vec![
        robot("basic_rover", RobotBody::Wheeled, &[Capability::Plow, Capability::Till, Capability::Seed, Capability::Harvest]),
        robot("pollination_drone", RobotBody::Flying, &[Capability::Pollinate]),
        robot("field_quadruped", RobotBody::Quadruped, &[Capability::Water]),
        robot("biped_farmhand", RobotBody::Biped, &[Capability::Weed]),
    ];
    let contracts = (0..4)
        .map(|i| ContractDef {
            id: format!("order_{i}"),
            display_name: format!("Order {i}"),
            requirements: vec![ItemRequirement { item: "packed_wheat".to_owned(), amount: 8 }],
            deadline_minutes: 600,
            reward: 1_000,
            reputation: 5,
        })
        .collect();
    ContentCatalog::from_definitions(crops, robots, contracts).expect("fixture catalog")
}

fn map() -> MapDefinition {
    MapDefinition {
        id: "test-farm".to_owned(),
        display_name: "Test Farm".to_owned(),
        width: 20,
        height: 20,
        tile_size: 32,
        background_asset: String::new(),
        terrain_tileset_asset: String::new(),
        default_terrain: TerrainKind::Soil,
        terrain_regions: Vec::new(),
        collision_areas: Vec::new(),
        garage_exit: TilePos::new(10, 2),
        garage_bays: vec![TilePos::new(10, 0), TilePos::new(11, 0)],
        starter_facilities: vec![
            MapFacilityDef { kind: FacilityKind::Warehouse, position: TilePos::new(18, 18) },
            MapFacilityDef { kind: FacilityKind::Packer, position: TilePos::new(17, 18) },
        ],
        starter_zones: vec![MapZoneDef {
            name: "Home Field".to_owned(),
            origin: TilePos::new(2, 2),
            size: (3, 3),
            crop_id: "wheat".to_owned(),
            priority: 50,
        }],
        starter_robots: vec!["basic_rover".to_owned(), "pollination_drone".to_owned()],
    }
}

fn simulation() -> GameSimulation {
    GameSimulation::new(7, catalog(), map())
}

fn ripe_wheat() -> CropInstance {
    CropInstance {
        crop_id: "wheat".to_owned(),
        planted_at: 0,
        stage_index: 2,
        stage_progress: 0,
        moisture: 80,
        health: 90,
        pollinated: false,
        inspection_due: false,
        pest_pressure: 0,
        pest_controlled: true,
        weed_pressure: 50,
        soil_compaction: 0,
        remaining_harvests: 1,
    }
}

#[test]
fn scheduler_queues_one_plough_job_per_patch() {
    let mut simulation = simulation();
    simulation.generate_jobs();
    assert!(!simulation.jobs.is_empty());
    assert!(simulation.jobs.iter().all(|job| job.kind == JobKind::Plow && job.status == JobStatus::Pending));
    assert_eq!(simulation.jobs[0].location, TilePos::new(2, 2));
    assert_eq!(simulation.jobs[0].required_capability, Capability::Plow);
    assert_eq!(simulation.jobs[0].priority, 50);
    assert_eq!(simulation.jobs[0].deadline, Some(480 + 2 * 1440));
    assert_eq!(simulation.metrics.jobs_created, simulation.jobs.len() as u64);
    let count = simulation.jobs.len();
    simulation.generate_jobs();
    assert_eq!(simulation.jobs.len(), count);
}

#[test]
fn completing_a_plough_job_works_its_patch() {
    let mut simulation = simulation();
    simulation.generate_jobs();
    let job = simulation.jobs[0];
    simulation.complete_job(0, job.id, false);
    for y in 2..4 {
        for x in 2..4 {
            assert!(simulation.grid.tile(TilePos::new(x, y)).is_some_and(|tile| tile.plowed));
        }
    }
    assert!(simulation.grid.tile(TilePos::new(4, 4)).is_some_and(|tile| !tile.plowed));
    assert_eq!(simulation.jobs[0].status, JobStatus::Completed);
    assert_eq!(simulation.metrics.jobs_completed, 1);
    assert_eq!(simulation.robots[0].state, RobotState::Idle);
    assert_eq!(simulation.robots[0].current_job, None);
}

#[test]
fn harvest_reaches_inventory_and_packer() {
    let mut simulation = simulation();
    simulation.jobs.clear();
    if let Some(tile) = simulation.grid.tile_mut(TilePos::new(3, 3)) {
        tile.crop = Some(ripe_wheat());
    }
    simulation.jobs.push(Job {
        id: 42,
        kind: JobKind::Harvest,
        location: TilePos::new(3, 3),
        required_capability: Capability::Harvest,
        priority: 80,
        zone_id: 1,
        created_at: 0,
        deadline: None,
        assigned_robot: Some(simulation.robots[0].id),
        status: JobStatus::Assigned,
    });
    simulation.complete_job(0, 42, false);
    assert_eq!(simulation.robots[0].inventory.amount("wheat"), 6);
    assert_eq!(simulation.metrics.crops_produced, 6);
    assert_eq!(simulation.robots[0].state, RobotState::MovingToStorage);
    assert!(simulation.grid.tile(TilePos::new(3, 3)).is_some_and(|tile| tile.crop.is_none() && !tile.plowed));
    let moved = simulation.unload_robot(0);
    assert_eq!(moved, 6);
    assert_eq!(simulation.inventory.amount("wheat"), 6);
    assert_eq!(simulation.robots[0].inventory.used(), 0);
    simulation.update_logistics();
    assert_eq!(simulation.inventory.amount("wheat"), 2);
    assert_eq!(simulation.inventory.amount("packed_wheat"), 4);
    assert_eq!(simulation.metrics.packed_items, 4);
}

#[test]
fn vanished_job_resets_the_robot() {
    let mut simulation = simulation();
    simulation.robots[0].state = RobotState::Finishing(77);
    simulation.robots[0].current_job = Some(77);
    simulation.complete_job(0, 77, true);
    assert_eq!(simulation.robots[0].state, RobotState::Idle);
    assert_eq!(simulation.robots[0].current_job, None);
}

#[test]
fn weeding_tends_the_surrounding_square() {
    let mut simulation = simulation();
    for (x, y) in [(2, 2), (3, 3), (6, 6)] {
        if let Some(tile) = simulation.grid.tile_mut(TilePos::new(x, y)) {
            tile.crop = Some(ripe_wheat());
        }
    }
    simulation.complete_tending_patch(TilePos::new(3, 3), JobKind::Weed);
    let weeds = |sim: &GameSimulation, x: u32, y: u32| {
        sim.grid.tile(TilePos::new(x, y)).and_then(|tile| tile.crop.as_ref()).map(|crop| crop.weed_pressure)
    };
    assert_eq!(weeds(&simulation, 2, 2), Some(0));
    assert_eq!(weeds(&simulation, 3, 3), Some(0));
    assert_eq!(weeds(&simulation, 6, 6), Some(50));
}

#[test]
fn contract_fails_after_its_deadline() {
    let mut simulation = simulation();
    simulation.clock.minute = 480 + 601;
    simulation.update_economy();
    assert_eq!(simulation.contracts[0].status, autofarm::model::ContractStatus::Failed);
    assert_eq!(simulation.current_contract, Some(1));
    assert_eq!(simulation.metrics.jobs_failed, 1);
    assert_eq!(simulation.metrics.contracts_expected, 2);
    assert_eq!(simulation.events.last(), Some(&FarmEvent::ContractAccepted("order_1".to_owned())));
}

#[test]
fn contract_warns_three_hours_before_its_deadline() {
    let mut simulation = simulation();
    simulation.clock.minute = 480 + 600 - 180;
    simulation.update_economy();
    assert_eq!(simulation.events.last(), Some(&FarmEvent::ContractNearDeadline("order_0".to_owned())));
}

#[test]
fn partial_delivery_is_kept_on_the_contract() {
    let mut simulation = simulation();
    simulation.inventory.add("packed_wheat", 5);
    simulation.update_economy();
    assert_eq!(simulation.contracts[0].delivered.get("packed_wheat"), Some(&5));
    assert_eq!(simulation.inventory.amount("packed_wheat"), 0);
    simulation.inventory.add("packed_wheat", 10);
    simulation.update_economy();
    assert_eq!(simulation.contracts[0].status, autofarm::model::ContractStatus::Completed);
    assert_eq!(simulation.inventory.amount("packed_wheat"), 7);
    assert_eq!(simulation.credits, 6_000);
    assert_eq!(simulation.reputation, 5);
}

#[test]
fn weather_is_rolled_at_dawn_and_announced() {
    let mut simulation = simulation();
    simulation.clock.minute = 1440;
    simulation.update_weather();
    let expected = match (7u64 + 2 * 17) % 10 {
        0..=3 => Weather::Rain,
        4 => Weather::Hot,
        _ => Weather::Clear,
    };
    assert_eq!(simulation.weather, expected);
    assert_eq!(
        simulation.events.last(),
        Some(&FarmEvent::Info(format!("Spring day 2 weather: {expected:?}")))
    );
    let before = simulation.events.len();
    simulation.clock.minute = 1441;
    simulation.update_weather();
    assert_eq!(simulation.events.len(), before);
}

#[test]
fn snapshot_counts_robots_and_pending_jobs() {
    let mut simulation = simulation();
    simulation.generate_jobs();
    simulation.robots[1].state = RobotState::Charging;
    let counts = simulation.counts();
    assert_eq!(counts.robots_idle, 1);
    assert_eq!(counts.robots_charging, 1);
    assert_eq!(counts.robots_working, 0);
    assert_eq!(counts.robots_broken, 0);
    assert_eq!(counts.pending_jobs, simulation.jobs.len());
}

#[test]
fn saves_from_other_versions_or_maps_are_refused() {
    let mut saved = simulation();
    saved.version = 5;
    assert!(matches!(
        GameSimulation::restore(saved, map()),
        Err(SimulationError::UnsupportedSaveVersion { found: 5, expected: 6 })
    ));
    let mut other = map();
    other.id = "elsewhere".to_owned();
    match GameSimulation::restore(simulation(), other) {
        Err(SimulationError::MapLoad(message)) => {
            assert_eq!(message, "save references map test-farm; runtime provides elsewhere")
        }
        _ => panic!("expected a map mismatch"),
    }
    assert!(GameSimulation::restore(simulation(), map()).is_ok());
}

#[test]
fn idle_robot_takes_the_best_reachable_job() {
    let mut simulation = simulation();
    simulation.generate_jobs();
    let readiness = vec![
        RobotReadiness { can_start: true, battery_low: false, speed_bonus: 100 },
        RobotReadiness { can_start: true, battery_low: false, speed_bonus: 100 },
    ];
    simulation.assign_jobs(&readiness);
    let taken: Vec<&Job> = simulation.jobs.iter().filter(|job| job.status == JobStatus::Assigned).collect();
    assert_eq!(taken.len(), 1);
    assert_eq!(taken[0].assigned_robot, Some(simulation.robots[0].id));
    assert_eq!(simulation.robots[0].state, RobotState::Departing(taken[0].id));
    assert_eq!(simulation.robots[1].state, RobotState::Parked);
}

#[test]
fn robot_steps_follow_the_job_cycle() {
    let done = RobotReading { battery_low: false, idle_time_up: false, arrived: true, phase_done: true, charged: false };
    assert_eq!(next_robot_step(RobotState::MovingToJob(3), true, done).state, RobotState::Preparing(3));
    assert_eq!(next_robot_step(RobotState::Preparing(3), true, done).state, RobotState::Working(3));
    let working = next_robot_step(RobotState::Working(3), true, done);
    assert_eq!(working.state, RobotState::Finishing(3));
    assert_eq!(working.energy_used, 1);
    assert!(next_robot_step(RobotState::Finishing(3), true, done).finish_job);
    assert!(next_robot_step(RobotState::MovingToJob(3), false, done).reset);
    let low = RobotReading { battery_low: true, ..done };
    let parked = next_robot_step(RobotState::Parked, true, low);
    assert_eq!(parked.state, RobotState::MovingToCharge);
    assert!(parked.low_battery_alert);
    assert_eq!(next_robot_step(RobotState::MovingToStorage, true, done).heading, Heading::Warehouse);
    assert_eq!(next_robot_step(RobotState::MovingToStorage, true, low).state, RobotState::MovingToCharge);
}

#[test]
fn npc_directives_name_the_zone_and_priority() {
    let simulation = simulation();
    let snapshots = simulation.zone_snapshots(&Vec::new());
    assert_eq!(snapshots.len(), 1);
    assert_eq!(snapshots[0].crop_id, "wheat");
    assert_eq!(snapshots[0].critical_tiles, 0);
    let aster = npc_directive("aster", true, snapshots.first());
    assert_eq!(aster.priority, 92);
    assert_eq!(aster.message, "I raised the wheat zone to 92 to protect contract throughput.");
    let mira = npc_directive("mira", false, snapshots.first());
    assert_eq!(mira.priority, 84);
    let nobody = npc_directive("mira", false, None);
    assert_eq!(nobody.zone_id, None);
    assert_eq!(nobody.message, "No managed zone is available yet.");
}

fn take_step(simulation: &mut GameSimulation, index: usize, reading: RobotReading) -> autofarm::robots::RobotStep {
    let state = simulation.robots[index].state;
    let job_known = match state {
        RobotState::Departing(j)
        | RobotState::MovingToJob(j)
        | RobotState::Preparing(j)
        | RobotState::Working(j)
        | RobotState::Finishing(j) => simulation.job_index(j).is_some(),
        _ => false,
    };
    let step = next_robot_step(state, job_known, reading);
    simulation.record_robot_step(index, step);
    step
}

#[test]
fn ploughing_deploys_works_and_stows_before_completion() {
    let mut simulation = simulation();
    simulation.jobs.clear();
    let location = simulation.zones[0].origin;
    let rover_id = simulation.robots[0].id;
    simulation.jobs.push(Job {
        id: 9_001,
        kind: JobKind::Plow,
        location,
        required_capability: Capability::Plow,
        priority: 100,
        zone_id: 1,
        created_at: 0,
        deadline: None,
        assigned_robot: Some(rover_id),
        status: JobStatus::Assigned,
    });
    simulation.robots[0].position = location;
    simulation.robots[0].state = RobotState::MovingToJob(9_001);
    simulation.robots[0].current_job = Some(9_001);
    let busy = RobotReading { battery_low: false, idle_time_up: false, arrived: true, phase_done: false, charged: false };
    let done = RobotReading { phase_done: true, ..busy };

    take_step(&mut simulation, 0, busy);
    assert_eq!(simulation.robots[0].state, RobotState::Preparing(9_001));
    for _ in 1..JobKind::Plow.preparation_minutes() {
        take_step(&mut simulation, 0, busy);
        assert_eq!(simulation.robots[0].state, RobotState::Preparing(9_001));
    }
    take_step(&mut simulation, 0, done);
    assert_eq!(simulation.robots[0].state, RobotState::Working(9_001));
    take_step(&mut simulation, 0, done);
    assert_eq!(simulation.robots[0].state, RobotState::Finishing(9_001));
    for _ in 1..JobKind::Plow.finishing_minutes() {
        assert!(!take_step(&mut simulation, 0, busy).finish_job);
    }
    assert!(!simulation.grid.tile(location).is_some_and(|tile| tile.plowed));
    let last = take_step(&mut simulation, 0, done);
    assert!(last.finish_job);
    simulation.complete_job(0, 9_001, false);
    assert!(simulation.grid.tile(location).is_some_and(|tile| tile.plowed && !tile.tilled));
    assert!(simulation
        .grid
        .tile(TilePos::new(location.x + 1, location.y + 1))
        .is_some_and(|tile| tile.plowed && !tile.tilled));
    assert_eq!(simulation.robots[0].state, RobotState::Idle);
}

#[test]
fn robot_returns_to_charger() {
    let mut simulation = simulation();
    let charger = TilePos::new(15, 15);
    simulation.facilities.push(autofarm::farm::Facility {
        id: 500,
        kind: FacilityKind::ChargingStation,
        position: charger,
        powered: true,
    });
    simulation.robots[0].position = TilePos::new(12, 12);
    simulation.robots[0].state = RobotState::Idle;
    let low = RobotReading { battery_low: true, idle_time_up: false, arrived: false, phase_done: false, charged: false };
    let step = take_step(&mut simulation, 0, low);
    assert_eq!(step.state, RobotState::MovingToCharge);
    assert_eq!(simulation.events.last(), Some(&FarmEvent::RobotLowBattery(simulation.robots[0].id)));
    assert_eq!(simulation.facility_position(FacilityKind::ChargingStation), charger);
    let mut moves = 0;
    while !simulation.robot_arrived(0, charger) {
        let next = simulation.plan_robot_step(0, charger).expect("the charger is reachable");
        simulation.robots[0].position = next;
        moves += 1;
        assert!(moves <= 6);
    }
    take_step(&mut simulation, 0, RobotReading { arrived: true, ..low });
    assert_eq!(simulation.robots[0].state, RobotState::Charging);
    take_step(&mut simulation, 0, RobotReading { arrived: true, ..low });
    assert!(simulation.metrics.robot_charge_minutes > 0);
    take_step(&mut simulation, 0, RobotReading { charged: true, ..low });
    assert_eq!(simulation.robots[0].state, RobotState::ReturningToGarage);
}

#[test]
fn autonomy_trial_finishes_with_report() {
    let mut simulation = simulation();
    let envelope = simulation.next_command(
        autofarm::command::CommandActor::Human,
        autofarm::command::GameCommand::Farm(autofarm::command::FarmCommand::StartAutonomyTrial {
            duration_minutes: 120,
        }),
    );
    assert!(simulation.apply_command(envelope).is_ok());
    assert_eq!(simulation.autonomy_trial.as_ref().map(|trial| trial.manual_interventions), Some(0));
    assert!(!simulation.autonomy_trial_due());
    simulation.clock.minute += 120;
    assert!(simulation.autonomy_trial_due());
    simulation.finish_autonomy_trial(93);
    let trial = simulation.autonomy_trial.as_ref().expect("trial");
    assert!(trial.finished);
    assert_eq!(trial.score, Some(93));
    assert_eq!(trial.grade.as_deref(), Some("S"));
    assert_eq!(simulation.events.last(), Some(&FarmEvent::AutonomyTrialCompleted(93)));
}
