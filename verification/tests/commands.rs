use autofarm::command::{
    CommandActor, CommandEnvelope, CommandError, CommandPermissions, EditorCommand, FarmCommand, GameCommand,
};
use autofarm::actions::purchase_model;
use autofarm::campaign::autonomy_grade;
use autofarm::census::event_text;
use autofarm::content::{ContentCatalog, ContractDef, CropDef, GrowthStageDef, ItemRequirement, RobotDef};
use autofarm::farm::{Facility, FarmEvent};
use autofarm::map::{MapDefinition, MapFacilityDef, MapZoneDef};
use autofarm::model::{Capability, FacilityKind, RobotBody, TerrainKind, TilePos, Weather};
use autofarm::simulation::GameSimulation;
use autofarm::textmap::TextMap;

fn crop(id: &str) -> CropDef {
    CropDef {
        id: id.to_owned(),
        display_name: id.to_owned(),
        stages: vec![
            GrowthStageDef { name: "seed".to_owned(), duration_minutes: 100 },
            GrowthStageDef { name: "ripe".to_owned(), duration_minutes: 1 },
        ],
        water_threshold: 30,
        fertility_cost: 5,
        needs_pollination: false,
        needs_inspection: false,
        needs_pest_control: false,
        requires_flooded_field: false,
        plant_capability: Capability::Seed,
        harvest_capability: Capability::Harvest,
        harvest_count: 1,
        harvest_yield: 6,
        market_value: 10,
    }
}

fn robot(id: &str, body: RobotBody) -> RobotDef {
    RobotDef {
        id: id.to_owned(),
        display_name: format!("Unit {id}"),
        body,
        capabilities: vec![Capability::Harvest],
        cargo_capacity: 20,
        purchase_price: 1500,
    }
}

fn catalog() -> ContentCatalog {
    let crops = vec![crop("wheat"), crop("potato"), crop("tomato"), crop("strawberry"), crop("rice")];
    let robots = vec![
        robot("basic_rover", RobotBody::Wheeled),
        robot("pollination_drone", RobotBody::Flying),
        robot("field_quadruped", RobotBody::Quadruped),
        robot("biped_farmhand", RobotBody::Biped),
    ];
    let contracts = (0..4)
        .map(|i| ContractDef {
            id: format!("order_{i}"),
            display_name: format!("Order {i}"),
            requirements: vec![ItemRequirement { item: "packed_wheat".to_owned(), amount: 10 }],
            deadline_minutes: 5_000,
            reward: 1_000,
            reputation: 5,
        })
        .collect();
    ContentCatalog::from_definitions(crops, robots, contracts).expect("fixture catalog")
}

fn map(bays: usize) -> MapDefinition {
    MapDefinition {
        id: "test-farm".to_owned(),
        display_name: "Test Farm".to_owned(),
        width: 20,
        height: 20,
        tile_size: 32,
        background_asset: String::new(),
        terrain_tileset_asset: String::new(),
        default_terrain: TerrainKind::Soil,
        terrain_regions: Vec::new(),
        collision_areas: Vec::new(),
        garage_exit: TilePos::new(10, 2),
        garage_bays: (0..bays).map(|i| TilePos::new(10 + i as u32, 0)).collect(),
        starter_facilities: vec![MapFacilityDef { kind: FacilityKind::Warehouse, position: TilePos::new(18, 18) }],
        starter_zones: vec![MapZoneDef {
            name: "Home Field".to_owned(),
            origin: TilePos::new(2, 2),
            size: (3, 3),
            crop_id: "wheat".to_owned(),
            priority: 50,
        }],
        starter_robots: vec!["basic_rover".to_owned()],
    }
}

fn simulation(bays: usize) -> GameSimulation {
    GameSimulation::new(7, catalog(), map(bays))
}

fn apply(simulation: &mut GameSimulation, actor: CommandActor, command: GameCommand) -> Result<(), CommandError> {
    let envelope = simulation.next_command(actor, command);
    simulation.apply_command(envelope)
}

fn last_info(simulation: &GameSimulation) -> Option<String> {
    match simulation.events.last() {
        Some(FarmEvent::Info(text)) => Some(text.clone()),
        _ => None,
    }
}

#[test]
fn new_farm_opens_with_its_scenario() {
    let simulation = simulation(2);
    assert_eq!(simulation.credits, 5_000);
    assert_eq!(simulation.zones.len(), 1);
    assert_eq!(simulation.zones[0].name, "Home Field");
    assert_eq!(simulation.zones[0].id, 1);
    assert_eq!(simulation.facilities.len(), 1);
    assert_eq!(simulation.robots.len(), 1);
    assert_eq!(simulation.robots[0].position, TilePos::new(10, 0));
    assert_eq!(simulation.current_contract, Some(0));
    assert_eq!(simulation.contracts[0].deadline, 480 + 5_000);
    assert_eq!(simulation.metrics.contracts_expected, 1);
    assert_eq!(simulation.world_revision, 0);
    assert!(simulation.npc_assignments.contains_key("aster"));
    assert!(simulation.npc_assignments.contains_key("mira"));
    assert_eq!(
        last_info(&simulation).as_deref(),
        Some("Rice cells online: garage departure, plough, rotary till, flood, transplant, protect, harvest.")
    );
}

#[test]
fn accepted_command_is_recorded_and_bumps_revision() {
    let mut simulation = simulation(2);
    let result = apply(
        &mut simulation,
        CommandActor::Human,
        GameCommand::Farm(FarmCommand::CreateFieldZone {
            origin: TilePos::new(6, 6),
            size: (2, 2),
            crop_id: "potato".to_owned(),
        }),
    );
    assert_eq!(result, Ok(()));
    assert_eq!(simulation.world_revision, 1);
    assert_eq!(simulation.metrics.manual_commands, 1);
    assert_eq!(simulation.zones.len(), 2);
    assert_eq!(simulation.zones[1].name, "Potato Zone 2");
    assert_eq!(simulation.zones[1].priority, 60);
    assert_eq!(last_info(&simulation).as_deref(), Some("Created potato field at (6, 6)"));
    assert!(simulation.grid.tile(TilePos::new(7, 7)).is_some_and(|tile| tile.occupied));
}

#[test]
fn envelope_planned_before_a_change_is_stale() {
    let mut simulation = simulation(2);
    let first = simulation.next_command(
        CommandActor::Human,
        GameCommand::Farm(FarmCommand::SetZonePriority { zone_id: 1, priority: 90 }),
    );
    let second = simulation.next_command(
        CommandActor::Human,
        GameCommand::Farm(FarmCommand::SetZonePriority { zone_id: 1, priority: 10 }),
    );
    assert_eq!(first.id + 1, second.id);
    assert_eq!(simulation.apply_command(first), Ok(()));
    assert_eq!(last_info(&simulation).as_deref(), Some("Zone Home Field priority: 50 -> 90"));
    assert_eq!(
        simulation.apply_command(second),
        Err(CommandError::StaleRevision { expected: 0, current: 1 })
    );
    assert_eq!(simulation.zones[0].priority, 90);
}

#[test]
fn npc_may_not_build_facilities() {
    let mut simulation = simulation(2);
    let before = simulation.credits;
    let result = apply(
        &mut simulation,
        CommandActor::Npc("mira".to_owned()),
        GameCommand::Farm(FarmCommand::BuildFacility { kind: FacilityKind::Packer, position: TilePos::new(15, 15) }),
    );
    assert_eq!(result, Err(CommandError::PermissionDenied));
    assert_eq!(simulation.credits, before);
    assert_eq!(simulation.world_revision, 0);
    assert!(CommandPermissions::standard().allows(
        &CommandActor::Npc("aster".to_owned()),
        &GameCommand::Farm(FarmCommand::SetZonePriority { zone_id: 1, priority: 1 })
    ));
}

#[test]
fn invalid_zone_and_missing_crop_are_refused() {
    let mut simulation = simulation(2);
    let too_big = apply(
        &mut simulation,
        CommandActor::Human,
        GameCommand::Farm(FarmCommand::CreateFieldZone { origin: TilePos::new(1, 1), size: (17, 1), crop_id: "wheat".to_owned() }),
    );
    assert_eq!(too_big, Err(CommandError::Invalid("field size must be between 1x1 and 16x16".to_owned())));
    let unknown = apply(
        &mut simulation,
        CommandActor::Human,
        GameCommand::Farm(FarmCommand::CreateFieldZone { origin: TilePos::new(1, 1), size: (1, 1), crop_id: "kale".to_owned() }),
    );
    assert_eq!(unknown, Err(CommandError::NotFound("crop kale".to_owned())));
    let overlap = apply(
        &mut simulation,
        CommandActor::Human,
        GameCommand::Farm(FarmCommand::BuildFacility { kind: FacilityKind::Packer, position: TilePos::new(3, 3) }),
    );
    assert_eq!(overlap, Err(CommandError::Invalid("facility position is blocked".to_owned())));
}

#[test]
fn building_costs_credits_and_covers_the_tile() {
    let mut simulation = simulation(2);
    let result = apply(
        &mut simulation,
        CommandActor::Human,
        GameCommand::Farm(FarmCommand::BuildFacility { kind: FacilityKind::Packer, position: TilePos::new(15, 15) }),
    );
    assert_eq!(result, Ok(()));
    assert_eq!(simulation.credits, 5_000 - 900);
    assert!(simulation.has_facility(FacilityKind::Packer));
    let tile = simulation.grid.tile(TilePos::new(15, 15)).expect("tile");
    assert_eq!(tile.terrain, TerrainKind::Concrete);
    assert!(tile.building.is_some());
    simulation.credits = 100;
    let poor = apply(
        &mut simulation,
        CommandActor::Human,
        GameCommand::Farm(FarmCommand::BuildFacility { kind: FacilityKind::Warehouse, position: TilePos::new(16, 16) }),
    );
    assert_eq!(poor, Err(CommandError::InsufficientCredits { required: 800, available: 100 }));
}

#[test]
fn purchase_needs_a_free_garage_bay() {
    let mut full = simulation(1);
    let refused = apply(
        &mut full,
        CommandActor::Human,
        GameCommand::Farm(FarmCommand::PurchaseRobot { robot_def_id: "field_quadruped".to_owned() }),
    );
    assert_eq!(refused, Err(CommandError::Invalid("robot garage has no free parking bay".to_owned())));
    let mut roomy = simulation(2);
    let bought = apply(
        &mut roomy,
        CommandActor::Human,
        GameCommand::Farm(FarmCommand::PurchaseRobot { robot_def_id: "field_quadruped".to_owned() }),
    );
    assert_eq!(bought, Ok(()));
    assert_eq!(roomy.credits, 3_500);
    assert_eq!(roomy.robots.len(), 2);
    assert_eq!(roomy.robots[1].position, TilePos::new(11, 0));
    assert_eq!(roomy.robots[1].home_position, TilePos::new(11, 0));
    assert_eq!(last_info(&roomy).as_deref(), Some("Unit field_quadruped deployed"));
}

#[test]
fn assigning_an_npc_records_the_manager() {
    let mut simulation = simulation(2);
    let result = apply(
        &mut simulation,
        CommandActor::Human,
        GameCommand::Farm(FarmCommand::AssignNpc { npc_id: "mira".to_owned(), zone_id: 1 }),
    );
    assert_eq!(result, Ok(()));
    assert_eq!(simulation.zones[0].manager.as_deref(), Some("mira"));
    assert_eq!(simulation.npc_assignments.get("mira").map(|npc| npc.managed_zones.clone()), Some(vec![1]));
    let unknown = apply(
        &mut simulation,
        CommandActor::Human,
        GameCommand::Farm(FarmCommand::AssignNpc { npc_id: "zed".to_owned(), zone_id: 1 }),
    );
    assert_eq!(unknown, Err(CommandError::NotFound("NPC zed".to_owned())));
}

#[test]
fn trial_counts_later_manual_commands() {
    let mut simulation = simulation(2);
    let started = apply(
        &mut simulation,
        CommandActor::Human,
        GameCommand::Farm(FarmCommand::StartAutonomyTrial { duration_minutes: 120 }),
    );
    assert_eq!(started, Ok(()));
    assert_eq!(simulation.autonomy_trial.as_ref().map(|t| t.manual_interventions), Some(0));
    assert_eq!(simulation.autonomy_trial.as_ref().map(|t| t.end_time), Some(480 + 120));
    let again = apply(
        &mut simulation,
        CommandActor::Human,
        GameCommand::Farm(FarmCommand::StartAutonomyTrial { duration_minutes: 10 }),
    );
    assert_eq!(again, Err(CommandError::Invalid("an autonomy trial is already running".to_owned())));
    let tweak = apply(
        &mut simulation,
        CommandActor::Human,
        GameCommand::Farm(FarmCommand::SetZonePriority { zone_id: 1, priority: 5 }),
    );
    assert_eq!(tweak, Ok(()));
    assert_eq!(simulation.autonomy_trial.as_ref().map(|t| t.manual_interventions), Some(1));
    let npc = apply(
        &mut simulation,
        CommandActor::Npc("aster".to_owned()),
        GameCommand::Farm(FarmCommand::SetZonePriority { zone_id: 1, priority: 6 }),
    );
    assert_eq!(npc, Ok(()));
    assert_eq!(simulation.metrics.npc_commands, 1);
    assert_eq!(simulation.autonomy_trial.as_ref().map(|t| t.manual_interventions), Some(1));
    simulation.clock.minute = 480 + 120;
    assert!(simulation.autonomy_trial_due());
    simulation.finish_autonomy_trial(80);
    assert_eq!(simulation.reputation, 16);
    assert_eq!(simulation.autonomy_trial.as_ref().and_then(|t| t.grade.clone()).as_deref(), Some("A"));
    assert!(!simulation.autonomy_trial_due());
    assert_eq!(simulation.events.last(), Some(&FarmEvent::AutonomyTrialCompleted(80)));
}

#[test]
fn editor_commands_change_the_world() {
    let mut simulation = simulation(2);
    let speed = apply(&mut simulation, CommandActor::EditorAi, GameCommand::Editor(EditorCommand::SetSimulationSpeed { speed: 0 }));
    assert_eq!(speed, Ok(()));
    assert!(simulation.clock.paused);
    assert_eq!(simulation.clock.speed, 1);
    let odd = apply(&mut simulation, CommandActor::EditorAi, GameCommand::Editor(EditorCommand::SetSimulationSpeed { speed: 3 }));
    assert_eq!(odd, Err(CommandError::Invalid("simulation speed must be 0, 1, 8, or 64".to_owned())));
    let rain = apply(&mut simulation, CommandActor::EditorAi, GameCommand::Editor(EditorCommand::SetEnvironment { weather: Weather::Rain }));
    assert_eq!(rain, Ok(()));
    assert_eq!(simulation.weather, Weather::Rain);
    simulation.credits = i32::MAX - 5;
    let rich = apply(&mut simulation, CommandActor::EditorAi, GameCommand::Editor(EditorCommand::GiveCredits { amount: 100 }));
    assert_eq!(rich, Ok(()));
    assert_eq!(simulation.credits, i32::MAX);
    let spawn = apply(
        &mut simulation,
        CommandActor::EditorAi,
        GameCommand::Editor(EditorCommand::SpawnRobot { robot_def_id: "pollination_drone".to_owned(), count: 2, position: TilePos::new(5, 10) }),
    );
    assert_eq!(spawn, Ok(()));
    assert_eq!(simulation.robots.len(), 3);
    assert_eq!(simulation.robots[1].position, TilePos::new(5, 10));
    assert_ne!(simulation.robots[2].position, TilePos::new(5, 10));
    let facility_id = simulation.facilities[0].id;
    let delete = apply(&mut simulation, CommandActor::EditorAi, GameCommand::Editor(EditorCommand::DeleteEntity { entity_id: facility_id }));
    assert_eq!(delete, Ok(()));
    assert!(simulation.facilities.is_empty());
    assert!(simulation.grid.tile(TilePos::new(18, 18)).is_some_and(|tile| tile.building.is_none() && !tile.occupied));
    let zone_id = simulation.zones[0].id;
    let delete_zone = apply(&mut simulation, CommandActor::EditorAi, GameCommand::Editor(EditorCommand::DeleteEntity { entity_id: zone_id }));
    assert_eq!(delete_zone, Ok(()));
    assert!(simulation.zones.is_empty());
    assert!(simulation.grid.tile(TilePos::new(3, 3)).is_some_and(|tile| !tile.occupied));
    let missing = apply(&mut simulation, CommandActor::EditorAi, GameCommand::Editor(EditorCommand::DeleteEntity { entity_id: 999 }));
    assert_eq!(missing, Err(CommandError::NotFound("entity 999".to_owned())));
    assert_eq!(simulation.metrics.manual_commands, 0);
}

#[test]
fn ai_events_are_logged_and_old_events_drop_out() {
    let mut simulation = simulation(2);
    simulation.record_ai_event("Mira".to_owned(), "raised tomato".to_owned(), "pollination".to_owned());
    assert_eq!(
        simulation.events.last(),
        Some(&FarmEvent::AiAction { actor: "Mira".to_owned(), message: "raised tomato".to_owned(), reason: "pollination".to_owned() })
    );
    for i in 0..100 {
        simulation.push_event(FarmEvent::Info(format!("note {i}")));
    }
    assert_eq!(simulation.events.len(), 80);
    assert_eq!(simulation.events.first(), Some(&FarmEvent::Info("note 20".to_owned())));
}

#[test]
fn npc_decision_applies_its_actions_and_logs_the_message() {
    let mut simulation = simulation(2);
    let result = simulation.apply_npc_decision(
        "aster".to_owned(),
        "Aster".to_owned(),
        vec![
            FarmCommand::SetZonePriority { zone_id: 1, priority: 92 },
            FarmCommand::ChangeContractPriority { priority: 80 },
        ],
        "Raised the field.".to_owned(),
        "Deadline is close.".to_owned(),
    );
    assert_eq!(result, Ok(()));
    assert_eq!(simulation.zones[0].priority, 92);
    assert_eq!(simulation.contracts[0].priority, 80);
    assert_eq!(simulation.metrics.npc_commands, 2);
    assert_eq!(simulation.world_revision, 2);
    assert_eq!(
        simulation.events.last(),
        Some(&FarmEvent::AiAction {
            actor: "Aster".to_owned(),
            message: "Raised the field.".to_owned(),
            reason: "Deadline is close.".to_owned(),
        })
    );
}

#[test]
fn npc_decision_stops_at_the_first_refused_action() {
    let mut simulation = simulation(2);
    let events_before = simulation.events.len();
    let result = simulation.apply_npc_decision(
        "mira".to_owned(),
        "Mira".to_owned(),
        vec![
            FarmCommand::SetZonePriority { zone_id: 1, priority: 96 },
            FarmCommand::PurchaseRobot { robot_def_id: "pollination_drone".to_owned() },
            FarmCommand::SetZonePriority { zone_id: 1, priority: 10 },
        ],
        "Protecting crops.".to_owned(),
        "Crops are dry.".to_owned(),
    );
    assert_eq!(result, Err(CommandError::PermissionDenied));
    assert_eq!(simulation.zones[0].priority, 96);
    assert_eq!(simulation.metrics.npc_commands, 1);
    assert_eq!(simulation.credits, 5_000);
    assert!(!simulation.events[events_before..].iter().any(|e| matches!(e, FarmEvent::AiAction { .. })));
}

#[test]
fn editor_plan_is_applied_in_order() {
    let mut simulation = simulation(2);
    let rollback = simulation.clone();
    let result = simulation.apply_editor_commands(
        0,
        vec![
            EditorCommand::CreateFieldZone { origin: TilePos::new(6, 6), size: (2, 2), crop_id: "tomato".to_owned() },
            EditorCommand::GiveCredits { amount: 250 },
        ],
        rollback,
    );
    assert_eq!(result, Ok(()));
    assert_eq!(simulation.zones.len(), 2);
    assert_eq!(simulation.credits, 5_250);
    assert_eq!(simulation.world_revision, 2);
}

#[test]
fn refused_editor_plan_rolls_the_farm_back() {
    let mut simulation = simulation(2);
    let rollback = simulation.clone();
    let result = simulation.apply_editor_commands(
        0,
        vec![
            EditorCommand::GiveCredits { amount: 250 },
            EditorCommand::CreateFieldZone { origin: TilePos::new(6, 6), size: (2, 2), crop_id: "cactus".to_owned() },
        ],
        rollback,
    );
    assert!(matches!(result, Err(CommandError::NotFound(_))));
    assert_eq!(simulation.credits, 5_000);
    assert_eq!(simulation.zones.len(), 1);
    assert_eq!(simulation.world_revision, 0);
}

#[test]
fn editor_plan_for_an_older_revision_is_stale() {
    let mut simulation = simulation(2);
    simulation.world_revision = 3;
    let rollback = simulation.clone();
    let result = simulation.apply_editor_commands(2, vec![EditorCommand::GiveCredits { amount: 250 }], rollback);
    assert_eq!(result, Err(CommandError::StaleRevision { expected: 2, current: 3 }));
    assert_eq!(simulation.credits, 5_000);
}

#[test]
fn undo_restores_the_copy_and_moves_the_revision_on() {
    let mut simulation = simulation(2);
    let before = simulation.clone();
    let result = simulation.apply_editor_commands(0, vec![EditorCommand::GiveCredits { amount: 250 }], before.clone());
    assert_eq!(result, Ok(()));
    assert_eq!(simulation.world_revision, 1);
    simulation.revert_to(before);
    assert_eq!(simulation.credits, 5_000);
    assert_eq!(simulation.world_revision, 2);
}

#[test]
fn command_counters_bound_what_can_be_issued() {
    let mut simulation = simulation(2);
    assert!(simulation.command_fits_now(&GameCommand::Farm(FarmCommand::ChangeContractPriority { priority: 5 })));
    simulation.world_revision = u64::MAX;
    assert!(!simulation.command_fits_now(&GameCommand::Farm(FarmCommand::ChangeContractPriority { priority: 5 })));
    let result = simulation.apply_npc_decision(
        "aster".to_owned(),
        "Aster".to_owned(),
        vec![FarmCommand::ChangeContractPriority { priority: 5 }],
        String::new(),
        String::new(),
    );
    assert_eq!(result, Err(CommandError::Invalid("command counters are exhausted".to_owned())));
    assert_eq!(simulation.contracts[0].priority, 70);
}

#[test]
fn trial_grades_follow_the_score_bands() {
    assert_eq!(autonomy_grade(100), "S");
    assert_eq!(autonomy_grade(90), "S");
    assert_eq!(autonomy_grade(89), "A");
    assert_eq!(autonomy_grade(80), "A");
    assert_eq!(autonomy_grade(79), "B");
    assert_eq!(autonomy_grade(69), "C");
    assert_eq!(autonomy_grade(60), "C");
    assert_eq!(autonomy_grade(59), "D");
    assert_eq!(autonomy_grade(0), "D");
    assert_eq!(autonomy_grade(101), "D");
}

#[test]
fn consistency_checks_find_unsorted_lists_and_overfull_stores() {
    let mut simulation = simulation(2);
    assert!(simulation.is_consistent());
    simulation.npc_assignments.entries[0].1.managed_zones = vec![3, 1];
    assert!(!simulation.is_consistent());
    simulation.npc_assignments.entries[0].1.managed_zones = vec![1, 3];
    assert!(simulation.is_consistent());
    simulation.inventory.capacity = 0;
    assert!(simulation.is_consistent());
    simulation.inventory.items.entries.push(("packed_wheat".to_owned(), 5));
    assert!(!simulation.is_consistent());
    let unsorted = TextMap { entries: vec![("b".to_owned(), 1u32), ("a".to_owned(), 2u32)] };
    assert!(!unsorted.is_ordered());
    let sorted = TextMap { entries: vec![("a".to_owned(), 1u32), ("b".to_owned(), 2u32)] };
    assert!(sorted.is_ordered());
}

#[test]
fn event_log_lines_name_what_happened() {
    assert_eq!(event_text(&FarmEvent::CropReady(TilePos::new(12, 7))), "Crop ready @ 12,7");
    assert_eq!(event_text(&FarmEvent::RobotLowBattery(3)), "Robot 3 returning to charge");
    assert_eq!(event_text(&FarmEvent::RobotBroken(41)), "Robot 41 broken");
    assert_eq!(event_text(&FarmEvent::StorageFull), "Storage full");
    assert_eq!(event_text(&FarmEvent::ContractFailed("order_2".to_owned())), "Contract failed: order_2");
    assert_eq!(event_text(&FarmEvent::AutonomyTrialCompleted(87)), "Autonomy score: 87");
    assert_eq!(
        event_text(&FarmEvent::AiAction {
            actor: "Mira".to_owned(),
            message: "Raised tomatoes.".to_owned(),
            reason: "dry".to_owned()
        }),
        "[Mira] Raised tomatoes."
    );
    assert_eq!(event_text(&FarmEvent::Info("Rover deployed".to_owned())), "Rover deployed");
}

#[test]
fn player_actions_cycle_through_models_and_missing_facilities() {
    assert_eq!(purchase_model(0), "paddy_rover");
    assert_eq!(purchase_model(9), "rice_transplanter");
    assert_eq!(purchase_model(7), "biped_farmhand");
    let mut simulation = simulation(2);
    assert_eq!(simulation.next_starter_facility(0), Some((FacilityKind::SeedStorage, TilePos::new(25, 20))));
    assert_eq!(simulation.next_starter_facility(6), Some((FacilityKind::IrrigationNode, TilePos::new(23, 20))));
    simulation.facilities.push(Facility { id: 99, kind: FacilityKind::SeedStorage, position: TilePos::new(1, 1), powered: true });
    assert_eq!(simulation.next_starter_facility(0), Some((FacilityKind::IrrigationNode, TilePos::new(23, 20))));
    assert_eq!(simulation.next_starter_facility(3), Some((FacilityKind::Packer, TilePos::new(25, 22))));
    for (id, kind) in [FacilityKind::IrrigationNode, FacilityKind::SolarGenerator, FacilityKind::Battery, FacilityKind::Packer]
        .into_iter()
        .enumerate()
    {
        simulation.facilities.push(Facility { id: 100 + id as u64, kind, position: TilePos::new(1, 1), powered: true });
    }
    assert_eq!(simulation.next_starter_facility(0), None);
}
