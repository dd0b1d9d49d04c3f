use autofarm::command::{CommandActor, CommandEnvelope, CommandError, FarmCommand, GameCommand};
use autofarm::content::{ContentCatalog, ContractDef, CropDef, GrowthStageDef, ItemRequirement, RobotDef};
use autofarm::editor::plan_for_intent;
use autofarm::farm::Job;
use autofarm::fleet::RobotReadiness;
use autofarm::grid::CropInstance;
use autofarm::map::{CollisionAreaDef, MapDefinition, MapFacilityDef, MapZoneDef, TerrainRegionDef};
use autofarm::model::{
    Capability, ContractStatus, FacilityKind, JobKind, JobStatus, RobotBody, RobotState, TerrainKind, TilePos,
};
use autofarm::simulation::GameSimulation;

fn stages(durations: &[u32]) -> Vec<GrowthStageDef> {
    durations
        .iter()
        .enumerate()
        .map(|(i, d)| GrowthStageDef { name: format!("stage {i}"), duration_minutes: *d })
        .collect()
}

fn crop(id: &str, durations: &[u32], pollination: bool, flooded: bool, plant: Capability, pests: bool) -> CropDef {
    CropDef {
        id: id.to_owned(),
        display_name: id.to_owned(),
        stages: stages(durations),
        water_threshold: 30,
        fertility_cost: 5,
        needs_pollination: pollination,
        needs_inspection: false,
        needs_pest_control: pests,
        requires_flooded_field: flooded,
        plant_capability: plant,
        harvest_capability: Capability::Harvest,
        harvest_count: 1,
        harvest_yield: 6,
        market_value: 10,
    }
}

fn robot(id: &str, name: &str, body: RobotBody, caps: &[Capability]) -> RobotDef {
    RobotDef {
        id: id.to_owned(),
        display_name: name.to_owned(),
        body,
        capabilities: caps.to_vec(),
        cargo_capacity: 40,
        purchase_price: 1500,
    }
}

fn contract(id: &str, item: &str, amount: u32) -> ContractDef {
    ContractDef {
        id: id.to_owned(),
        display_name: id.to_owned(),
        requirements: vec![ItemRequirement { item: item.to_owned(), amount }],
        deadline_minutes: 20_000,
        reward: 2_500,
        reputation: 10,
    }
}

fn catalog() -> ContentCatalog {
    let crops = vec![
        crop("wheat", &[1200, 1200, 1200, 1], false, false, Capability::Seed, false),
        crop("potato", &[1500, 1500, 1], false, false, Capability::Plant, false),
        crop("tomato", &[900, 900, 900, 1], true, false, Capability::Plant, false),
        crop("strawberry", &[900, 900, 1], true, false, Capability::Plant, false),
        crop("rice", &[4000, 5000, 6000, 8000, 1], false, true, Capability::Transplant, true),
    ];
    let robots = vec![
        robot("basic_rover", "Basic Rover", RobotBody::Wheeled, &[Capability::Till, Capability::Seed, Capability::Harvest]),
        robot("pollination_drone", "Pollen Drone", RobotBody::Flying, &[Capability::Pollinate, Capability::Inspect]),
        robot("field_quadruped", "Field Quadruped", RobotBody::Quadruped, &[Capability::Water, Capability::Harvest]),
        robot("biped_farmhand", "Biped Farmhand", RobotBody::Biped, &[Capability::Plant, Capability::Pack]),
        robot("paddy_rover", "Paddy Rover", RobotBody::Wheeled, &[Capability::Plow, Capability::Till, Capability::Flood]),
        robot(
            "rice_transplanter",
            "Rice Spider",
            RobotBody::Hexapod,
            &[Capability::Transplant, Capability::Water, Capability::Weed, Capability::LoosenSoil],
        ),
        robot(
            "pest_control_drone",
            "Pest Drone",
            RobotBody::Flying,
            &[Capability::Spray, Capability::LaserPestControl],
        ),
        robot("rice_harvester", "Rice Harvester", RobotBody::Wheeled, &[Capability::Harvest]),
    ];
    let contracts = vec![
        contract("rice_first_harvest", "packed_rice", 120),
        contract("wheat_order", "packed_wheat", 60),
        contract("tomato_order", "packed_tomato", 40),
        contract("potato_order", "packed_potato", 40),
    ];
    match ContentCatalog::from_definitions(crops, robots, contracts) {
        Ok(catalog) => catalog,
        Err(e) => panic!("fixture catalog rejected: {e:?}"),
    }
}

fn map() -> MapDefinition {
    MapDefinition {
        id: "verdant-paddy".to_owned(),
        display_name: "Verdant Paddy".to_owned(),
        width: 64,
        height: 64,
        tile_size: 32,
        background_asset: "art/pixel/maps/verdant-paddy.png".to_owned(),
        terrain_tileset_asset: "art/pixel/tilesets/verdant-paddy-terrain.png".to_owned(),
        default_terrain: TerrainKind::Soil,
        terrain_regions: vec![
            TerrainRegionDef { terrain: TerrainKind::FarmPath, origin: TilePos::new(0, 16), size: (64, 1) },
            TerrainRegionDef { terrain: TerrainKind::Culvert, origin: TilePos::new(6, 16), size: (1, 1) },
            TerrainRegionDef { terrain: TerrainKind::IrrigationChannel, origin: TilePos::new(6, 30), size: (1, 4) },
            TerrainRegionDef { terrain: TerrainKind::Water, origin: TilePos::new(55, 40), size: (9, 20) },
        ],
        collision_areas: vec![CollisionAreaDef {
            origin: TilePos::new(38, 3),
            size: (5, 3),
            owner: Some(FacilityKind::RobotGarage),
        }],
        garage_exit: TilePos::new(40, 10),
        garage_bays: vec![TilePos::new(38, 7), TilePos::new(39, 7), TilePos::new(41, 7), TilePos::new(42, 7)],
        starter_facilities: vec![
            MapFacilityDef { kind: FacilityKind::RobotGarage, position: TilePos::new(40, 5) },
            MapFacilityDef { kind: FacilityKind::Warehouse, position: TilePos::new(46, 5) },
            MapFacilityDef { kind: FacilityKind::ChargingStation, position: TilePos::new(48, 5) },
            MapFacilityDef { kind: FacilityKind::Packer, position: TilePos::new(50, 5) },
        ],
        starter_zones: vec![
            MapZoneDef {
                name: "North Paddy".to_owned(),
                origin: TilePos::new(2, 18),
                size: (11, 28),
                crop_id: "rice".to_owned(),
                priority: 70,
            },
            MapZoneDef {
                name: "South Paddy".to_owned(),
                origin: TilePos::new(16, 18),
                size: (13, 28),
                crop_id: "rice".to_owned(),
                priority: 60,
            },
        ],
        starter_robots: vec![
            "paddy_rover".to_owned(),
            "rice_transplanter".to_owned(),
            "pest_control_drone".to_owned(),
            "rice_harvester".to_owned(),
        ],
    }
}

fn simulation() -> GameSimulation {
    GameSimulation::new(123, catalog(), map())
}

fn plant(simulation: &mut GameSimulation, position: TilePos, crop_id: &str, stage: usize, moisture: u8, health: u8) {
    let minute = simulation.clock.minute;
    if let Some(tile) = simulation.grid.tile_mut(position) {
        tile.crop = Some(CropInstance {
            crop_id: crop_id.to_owned(),
            planted_at: minute,
            stage_index: stage,
            stage_progress: 0,
            moisture,
            health,
            pollinated: false,
            inspection_due: false,
            pest_pressure: 0,
            pest_controlled: true,
            weed_pressure: 0,
            soil_compaction: 0,
            remaining_harvests: 1,
        });
    } else {
        panic!("test tile should exist");
    }
}

fn crop_at(simulation: &GameSimulation, position: TilePos) -> Option<&CropInstance> {
    simulation.grid.tile(position).and_then(|tile| tile.crop.as_ref())
}

#[test]
fn rice_does_not_change_stage_after_one_day() {
    let mut simulation = simulation();
    let position = TilePos::new(8, 8);
    if let Some(tile) = simulation.grid.tile_mut(position) {
        tile.water_level = 100;
    }
    plant(&mut simulation, position, "rice", 0, 100, 100);
    for _ in 0..SIM_MINUTES_PER_DAY {
        simulation.clock.minute += 1;
        simulation.update_crops();
    }
    let crop = crop_at(&simulation, position).expect("rice should still be growing");
    assert_eq!(crop.stage_index, 0);
    assert_eq!(crop.stage_progress, SIM_MINUTES_PER_DAY as u32);
}

const SIM_MINUTES_PER_DAY: u64 = autofarm::clock::SimClock::MINUTES_PER_DAY;

#[test]
fn planted_rice_work_is_reserved_for_legged_and_flying_robots() {
    let simulation = simulation();
    let rover = simulation.catalog.robots.get("paddy_rover").expect("paddy rover definition should exist");
    let spider = simulation.catalog.robots.get("rice_transplanter").expect("rice spider definition should exist");
    let drone = simulation.catalog.robots.get("pest_control_drone").expect("pest drone definition should exist");
    assert!(!rover.capabilities.contains(&Capability::Water));
    assert!(!rover.capabilities.contains(&Capability::Weed));
    assert!(spider.capabilities.contains(&Capability::Water));
    assert!(spider.capabilities.contains(&Capability::Weed));
    assert!(spider.capabilities.contains(&Capability::LoosenSoil));
    assert!(drone.capabilities.contains(&Capability::Spray));
    assert!(drone.capabilities.contains(&Capability::LaserPestControl));
}

#[test]
fn starter_fleet_is_parked_without_overlap() {
    let simulation = simulation();
    assert!(simulation.facilities.iter().any(|facility| facility.kind == FacilityKind::RobotGarage));
    let mut positions: Vec<TilePos> = simulation.robots.iter().map(|robot| robot.position).collect();
    positions.sort();
    positions.dedup();
    assert_eq!(positions.len(), simulation.robots.len());
    assert!(simulation
        .robots
        .iter()
        .all(|robot| robot.state == RobotState::Parked && robot.position == robot.home_position));
    assert!(simulation.grid.tile(TilePos::new(40, 5)).is_some_and(|tile| tile.building.is_some()));
    assert!(simulation
        .map
        .garage_bays
        .iter()
        .all(|bay| simulation.grid.tile(*bay).is_some_and(|tile| tile.building.is_none())));
}

#[test]
fn generated_map_definition_drives_navigation_and_scenario_layout() {
    let simulation = simulation();
    assert_eq!((simulation.map.width, simulation.map.height), (64, 64));
    assert_eq!(simulation.map.tile_size, 32);
    assert_eq!(simulation.map.terrain_tileset_asset, "art/pixel/tilesets/verdant-paddy-terrain.png");
    assert_eq!(simulation.zones[0].size, (11, 28));
    assert_eq!(simulation.zones[1].size, (13, 28));
    assert_eq!(simulation.grid.tile(TilePos::new(6, 16)).map(|tile| tile.terrain), Some(TerrainKind::Culvert));
    assert_eq!(simulation.grid.tile(TilePos::new(10, 16)).map(|tile| tile.terrain), Some(TerrainKind::FarmPath));
    assert_eq!(
        simulation.grid.tile(TilePos::new(6, 30)).map(|tile| tile.terrain),
        Some(TerrainKind::IrrigationChannel)
    );
}

#[test]
fn robots_reserve_their_incoming_tile() {
    let mut simulation = simulation();
    let first = 0;
    let second = 1;
    let reserved = TilePos::new(41, 16);
    simulation.robots[first].position = TilePos::new(40, 16);
    simulation.robots[second].position = TilePos::new(42, 16);
    let step = simulation.plan_robot_step(first, reserved);
    simulation.robots[first].movement_target = step;
    let step = simulation.plan_robot_step(second, reserved);
    simulation.robots[second].movement_target = step;
    assert_eq!(simulation.robots[first].movement_target, Some(reserved));
    assert_eq!(simulation.robots[second].movement_target, None);
}

#[test]
fn crop_progresses_through_stages() {
    let mut simulation = simulation();
    let position = TilePos::new(8, 8);
    plant(&mut simulation, position, "wheat", 0, 100, 100);
    for _ in 0..(SIM_MINUTES_PER_DAY * 3 + 1) {
        simulation.clock.minute += 1;
        simulation.update_crops();
    }
    let stage = crop_at(&simulation, position).map(|crop| crop.stage_index);
    assert!(stage.is_some_and(|stage| stage >= 1));
}

#[test]
fn crop_loses_health_without_water() {
    let mut simulation = simulation();
    let position = TilePos::new(8, 8);
    plant(&mut simulation, position, "wheat", 0, 0, 20);
    simulation.update_environment();
    let health = crop_at(&simulation, position).map(|crop| crop.health);
    assert_eq!(health, Some(19));
}

#[test]
fn tomato_waits_for_pollination() {
    let mut simulation = simulation();
    let position = TilePos::new(8, 8);
    plant(&mut simulation, position, "tomato", 1, 100, 100);
    for _ in 0..30 {
        simulation.clock.minute += 1;
        simulation.update_crops();
    }
    let progress = crop_at(&simulation, position).map(|crop| crop.stage_progress);
    assert_eq!(progress, Some(0));
}

#[test]
fn scheduler_assigns_pest_control_to_drone_not_rover() {
    let mut simulation = simulation();
    simulation.jobs.clear();
    for robot in &mut simulation.robots {
        robot.state = RobotState::Idle;
        robot.current_job = None;
    }
    simulation.jobs.push(Job {
        id: 999,
        kind: JobKind::LaserPests,
        location: TilePos::new(12, 12),
        required_capability: Capability::LaserPestControl,
        priority: 90,
        zone_id: 1,
        created_at: 0,
        deadline: None,
        assigned_robot: None,
        status: JobStatus::Pending,
    });
    let readiness = vec![RobotReadiness { can_start: true, battery_low: false, speed_bonus: 100 }; simulation.robots.len()];
    simulation.assign_jobs(&readiness);
    let assigned = simulation.jobs.first().and_then(|job| job.assigned_robot);
    let body = assigned.and_then(|id| simulation.robots.iter().find(|robot| robot.id == id).map(|robot| robot.body));
    assert_eq!(body, Some(RobotBody::Flying));
}

#[test]
fn rice_field_requests_jobs_in_cultivation_order() {
    let mut simulation = simulation();
    let zone = simulation.zones.first().cloned().expect("starter rice zone should exist");
    let position = zone.origin;
    assert_eq!(simulation.required_job(position, &zone), Some(JobKind::Plow));
    for p in simulation.grid.positions_in_rect(zone.origin, zone.size) {
        simulation.grid.tile_mut(p).expect("starter rice tile should exist").plowed = true;
    }
    assert_eq!(simulation.required_job(position, &zone), Some(JobKind::Till));
    for p in simulation.grid.positions_in_rect(zone.origin, zone.size) {
        simulation.grid.tile_mut(p).expect("starter rice tile should exist").tilled = true;
    }
    assert_eq!(simulation.required_job(position, &zone), Some(JobKind::FloodPaddy));
    for p in simulation.grid.positions_in_rect(zone.origin, zone.size) {
        simulation.grid.tile_mut(p).expect("starter rice tile should exist").water_level = 100;
    }
    assert_eq!(simulation.required_job(position, &zone), Some(JobKind::Transplant));
    if let Some(tile) = simulation.grid.tile_mut(position) {
        tile.crop = Some(CropInstance {
            crop_id: "rice".to_owned(),
            planted_at: 0,
            stage_index: 2,
            stage_progress: 0,
            moisture: 100,
            health: 100,
            pollinated: false,
            inspection_due: false,
            pest_pressure: 36,
            pest_controlled: false,
            weed_pressure: 0,
            soil_compaction: 0,
            remaining_harvests: 1,
        });
    }
    assert!(matches!(
        simulation.required_job(position, &zone),
        Some(JobKind::SprayPests | JobKind::LaserPests)
    ));
}

#[test]
fn contract_completes_after_delivery() {
    let mut simulation = simulation();
    simulation.inventory.add("packed_rice", 120);
    simulation.update_economy();
    assert_eq!(simulation.contracts.first().map(|contract| contract.status), Some(ContractStatus::Completed));
    assert!(simulation.credits > 5_000);
}

#[test]
fn stale_world_revision_is_rejected() {
    let mut simulation = simulation();
    let envelope = CommandEnvelope {
        id: 1,
        actor: CommandActor::Human,
        expected_world_revision: 99,
        command: GameCommand::Farm(FarmCommand::SetZonePriority { zone_id: 1, priority: 80 }),
    };
    assert!(matches!(simulation.apply_command(envelope), Err(CommandError::StaleRevision { .. })));
}

#[test]
fn npc_cannot_execute_forbidden_command() {
    let mut simulation = simulation();
    let envelope = simulation.next_command(
        CommandActor::Npc("mira".to_owned()),
        GameCommand::Farm(FarmCommand::PurchaseRobot { robot_def_id: "pollination_drone".to_owned() }),
    );
    assert!(matches!(simulation.apply_command(envelope), Err(CommandError::PermissionDenied)));
}

#[test]
fn preview_apply_and_undo_are_transactional() {
    // The tomato cell goes on the west strip, so this farm keeps only the south paddy.
    let mut west_free = map();
    west_free.starter_zones.remove(0);
    let mut simulation = GameSimulation::new(123, catalog(), west_free);
    let initial_zone_count = simulation.zones.len();
    let initial_robot_count = simulation.robots.len();
    let preview = match plan_for_intent("create tomato field", simulation.world_revision) {
        Ok(plan) => plan,
        Err(e) => panic!("tomato plan refused: {e:?}"),
    };
    assert_eq!(preview.commands.len(), 3);
    assert_eq!(simulation.zones.len(), initial_zone_count);

    let before = simulation.clone();
    let applied = simulation.apply_editor_commands(preview.expected_world_revision, preview.commands.clone(), before.clone());
    assert_eq!(applied, Ok(()));
    assert_eq!(simulation.zones.len(), initial_zone_count + 1);
    assert_eq!(simulation.robots.len(), initial_robot_count + 2);

    simulation.revert_to(before);
    assert_eq!(simulation.zones.len(), initial_zone_count);
    assert_eq!(simulation.robots.len(), initial_robot_count);
}

#[test]
fn stale_preview_is_rejected() {
    let mut simulation = simulation();
    let preview = match plan_for_intent("add drone", simulation.world_revision) {
        Ok(plan) => plan,
        Err(e) => panic!("drone plan refused: {e:?}"),
    };
    simulation.world_revision += 1;
    let rollback = simulation.clone();
    assert!(matches!(
        simulation.apply_editor_commands(preview.expected_world_revision, preview.commands.clone(), rollback),
        Err(CommandError::StaleRevision { .. })
    ));
}
