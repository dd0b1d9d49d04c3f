use autofarm::command::EditorCommand;
use autofarm::editor::{plan_for_intent, text_contains, text_trim, EditorError, PreviewKind};
use autofarm::model::{FacilityKind, TilePos};

#[test]
fn tomato_request_plans_zone_irrigation_and_drones() {
    let plan = plan_for_intent("  Create TOMATO field  ", 7).expect("tomato plan");
    assert_eq!(plan.expected_world_revision, 7);
    assert_eq!(plan.commands.len(), 3);
    assert_eq!(plan.summary, "Create the north tomato automation cell");
    assert_eq!(
        plan.commands[1],
        EditorCommand::PlaceBuilding { kind: FacilityKind::IrrigationNode, position: TilePos::new(5, 25) }
    );
    assert_eq!(plan.preview.len(), 3);
    assert_eq!(plan.preview[2].label, "2 x Pollen Drone");
}

#[test]
fn rice_keywords_win_over_later_ones() {
    let plan = plan_for_intent("add a drone to the rice paddy", 0).expect("rice plan");
    assert_eq!(plan.commands.len(), 5);
    assert_eq!(plan.preview[0].kind, PreviewKind::Field);
    let chinese = plan_for_intent("新建水稻田", 3).expect("rice plan");
    assert_eq!(chinese.summary, "Create a second autonomous rice cell");
}

#[test]
fn drone_and_wheat_requests() {
    let drone = plan_for_intent("add drone", 1).expect("drone plan");
    assert_eq!(
        drone.commands,
        vec![EditorCommand::SpawnRobot { robot_def_id: "pollination_drone".to_owned(), count: 1, position: TilePos::new(31, 29) }]
    );
    let wheat = plan_for_intent("Wheat please", 1).expect("wheat plan");
    assert_eq!(
        wheat.commands,
        vec![EditorCommand::CreateFieldZone { origin: TilePos::new(1, 38), size: (4, 6), crop_id: "wheat".to_owned() }]
    );
}

#[test]
fn unknown_request_is_not_understood() {
    assert!(matches!(plan_for_intent("build a castle", 0), Err(EditorError::UnsupportedIntent)));
    assert!(matches!(plan_for_intent("", 0), Err(EditorError::UnsupportedIntent)));
}

#[test]
fn text_helpers_trim_and_search() {
    assert_eq!(text_trim("  a b \t\n"), "a b");
    assert_eq!(text_trim("   "), "");
    assert!(text_contains("grow rice", "rice"));
    assert!(!text_contains("ric", "rice"));
    assert!(text_contains("anything", ""));
}

#[test]
fn plans_carry_the_editor_request_settings() {
    let plan = plan_for_intent("create wheat field", 4).expect("wheat plan");
    assert_eq!(plan.params.model, "mock-autofarm-v1");
    assert_eq!(plan.params.temperature_hundredths, 20);
    assert_eq!(plan.params.max_output_tokens, 1200);
    assert_eq!(plan.params.timeout_ms, 8000);
    assert_eq!(plan.params.response_schema, "NpcDecisionV1");
}

#[test]
fn unicode_white_space_is_trimmed() {
    assert_eq!(text_trim("\u{3000}\t wheat \u{2029}\u{85}"), "wheat");
    assert_eq!(text_trim("\u{a0}\u{1680}\u{2000}\u{200a}\u{202f}\u{205f}"), "");
    assert_eq!(text_trim("\u{200b}x"), "\u{200b}x");
    assert!(plan_for_intent("\u{3000}WHEAT\u{2028}", 0).is_ok());
}
