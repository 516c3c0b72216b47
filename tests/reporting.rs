use protossbot::model::{BuildStatus, TilePosition};
use protossbot::report::{base_location_report, phase_name, SerializableTilePosition};
use protossbot::scheduler::{BaseLocation, CheckedPosition};
use protossbot::model::UnitOrUpgradeType;
use protossbot::scheduler::GameState;
use protossbot::shared::{SharedBuildStatus, SharedGameSpeed};
use protossbot::status::WantToBuildStatus;

#[test]
fn game_speed_is_shared_and_checked() {
    let speed = SharedGameSpeed::new(-1);
    let other = speed.clone();
    assert_eq!(speed.get(), -1);
    assert!(other.set(42));
    assert_eq!(speed.get(), 42);
    assert!(!speed.set(1001));
    assert!(!speed.set(-2));
    assert_eq!(other.get(), 42);
    assert!(speed.set(1000));
    assert_eq!(other.get(), 1000);
    assert_eq!(SharedGameSpeed::new(5000).get(), -1);
    assert_eq!(SharedGameSpeed::new(0).get(), 0);
}

#[test]
fn base_locations_are_numbered() {
    let bases = vec![
        BaseLocation {
            position: TilePosition { x: 3, y: 4 },
            checked_positions: vec![CheckedPosition { tile_position: TilePosition { x: 2, y: 4 }, is_valid: false }],
        },
        BaseLocation { position: TilePosition { x: 30, y: 40 }, checked_positions: Vec::new() },
    ];
    let report = base_location_report(&bases);
    assert_eq!(report.len(), 2);
    assert_eq!(report[0].id, 0);
    assert_eq!(report[1].id, 1);
    assert_eq!(report[1].position, SerializableTilePosition { x: 30, y: 40 });
    assert_eq!(report[0].checked_positions[0].tile_position, SerializableTilePosition { x: 2, y: 4 });
    assert!(!report[0].checked_positions[0].is_valid);
    assert!(report[0].path_to_location.is_empty());
}

#[test]
fn phase_names() {
    assert_eq!(phase_name(BuildStatus::Assigned), "Assigned");
    assert_eq!(phase_name(BuildStatus::Started), "Started");
}

#[test]
fn status_snapshot_is_published() {
    let mut state = GameState::default();
    state.stage_item_status = vec![(UnitOrUpgradeType::Unit(7), WantToBuildStatus::ReadyToBuild)];
    let snap = state.build_status();
    assert_eq!(snap.stage_name, "Start");
    assert_eq!(snap.stage_index, 0);
    assert_eq!(snap.item_status, state.stage_item_status);
    state.current_stage_index = state.build_stages.len();
    assert_eq!(state.build_status().stage_name, "Unknown");

    let shared = SharedBuildStatus::new();
    let reader = shared.clone();
    assert_eq!(reader.get().stage_name, "");
    shared.update(snap.stage_name.clone(), snap.stage_index, snap.item_status.clone());
    let got = reader.get();
    assert_eq!(got.stage_name, "Start");
    assert_eq!(got.item_status, snap.item_status);
}
