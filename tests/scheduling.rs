use protossbot::model::{
    find_kind, BuildHistoryEntry, Resource, BuildStatus, Command, KindInfo, NextBuildItem, Order, Requirement,
    Resources, TilePosition, Unit, UnitOrUpgradeType, World,
};
use protossbot::bases::{
    get_base_locations, get_base_position_for_cluster, get_player_start_location, get_resource_clusters,
    sort_by_distance,
};
use protossbot::scheduler::GameState;
use protossbot::select::{get_next_thing_to_build, need_more_supply};
use protossbot::site::{
    blocks_worker_path, building_covers_command_center_location, find_build_location,
    get_command_center_location, is_next_to_other_building, is_viable_location,
};
use protossbot::stages::{
    get_build_stages, BuildStage, TERRAN_BARRACKS, TERRAN_COMMAND_CENTER, TERRAN_MARINE, TERRAN_REFINERY,
    TERRAN_SCV, TERRAN_SUPPLY_DEPOT,
};
use protossbot::status::{
    count_completed_units_of_type, count_units_of_type, find_builder_for_unit, get_status_for_stage_items, get_unit_status,
    get_upgrade_status, WantToBuildStatus,
};

const MAP: i32 = 64;
const ACADEMY_UPGRADE: u32 = 3;

fn grid(ok: bool) -> Vec<bool> {
    vec![ok; (MAP * MAP) as usize]
}

fn grid_only(x: i32, y: i32) -> Vec<bool> {
    let mut g = grid(false);
    g[(y * MAP + x) as usize] = true;
    g
}

fn kind(id: u32, minerals: u32, gas: u32, producer: u32, building: bool, w: i32, h: i32) -> KindInfo {
    KindInfo {
        id,
        mineral_price: minerals,
        gas_price: gas,
        producer,
        is_building: building,
        is_refinery: false,
        is_depot: false,
        capacity: 0,
        width: w,
        height: h,
        requires: Vec::new(),
        tech_ready: true,
        placement: if building { grid(true) } else { Vec::new() },
    }
}

fn catalog() -> Vec<KindInfo> {
    let mut depot = kind(TERRAN_SUPPLY_DEPOT, 100, 0, TERRAN_SCV, true, 3, 2);
    depot.capacity = 16;
    let mut cc = kind(TERRAN_COMMAND_CENTER, 400, 0, TERRAN_SCV, true, 4, 3);
    cc.is_depot = true;
    let mut refinery = kind(TERRAN_REFINERY, 100, 0, TERRAN_SCV, true, 4, 2);
    refinery.is_refinery = true;
    refinery.placement = grid_only(30, 30);
    let mut marine = kind(TERRAN_MARINE, 50, 0, TERRAN_BARRACKS, false, 1, 1);
    marine.requires = vec![Requirement { kind: TERRAN_BARRACKS, count: 1 }];
    vec![
        kind(TERRAN_SCV, 50, 0, TERRAN_COMMAND_CENTER, false, 1, 1),
        depot,
        kind(TERRAN_BARRACKS, 150, 0, TERRAN_SCV, true, 4, 3),
        cc,
        refinery,
        marine,
    ]
}

fn unit(id: usize, kind: u32, x: i32, y: i32) -> Unit {
    Unit {
        id,
        kind,
        tile: TilePosition { x, y },
        width: 1,
        height: 1,
        is_building: false,
        is_depot: false,
        is_worker: kind == TERRAN_SCV,
        is_refinery: kind == TERRAN_REFINERY,
        completed: true,
        constructing: false,
        training: false,
        upgrading: false,
        idle: true,
        gathering: false,
        order: Order::Idle,
        activity: None,
    }
}

fn building(id: usize, kind: u32, x: i32, y: i32, w: i32, h: i32) -> Unit {
    let mut u = unit(id, kind, x, y);
    u.is_building = true;
    u.width = w;
    u.height = h;
    u
}

fn world(units: Vec<Unit>, minerals: u32, gas: u32) -> World {
    World {
        resources: Resources { minerals, gas, capacity_used: 10, capacity_total: 200 },
        units,
        unit_kinds: catalog(),
        upgrade_kinds: vec![kind(ACADEMY_UPGRADE, 100, 100, 112, false, 1, 1)],
        map_width: MAP,
        map_height: MAP,
        geysers: vec![TilePosition { x: 2, y: 2 }, TilePosition { x: 30, y: 30 }],
        created: Vec::new(),
        minerals: Vec::new(),
        start_locations: Vec::new(),
    }
}

fn stage_of(goals: Vec<(u32, u32)>) -> BuildStage {
    let mut s = BuildStage::new("test");
    for (k, c) in goals {
        s = s.with_unit(k, c);
    }
    s
}

#[test]
fn statuses_are_idempotent() {
    let w = world(vec![unit(1, TERRAN_SCV, 10, 10)], 120, 0);
    let s = stage_of(vec![(TERRAN_SCV, 1), (TERRAN_BARRACKS, 1), (TERRAN_MARINE, 4)]);
    let ledger: Vec<BuildHistoryEntry> = Vec::new();
    let first = get_status_for_stage_items(&s, &w, &ledger);
    let second = get_status_for_stage_items(&s, &w, &ledger);
    assert_eq!(first, second);
    assert_eq!(first[0], (UnitOrUpgradeType::Unit(TERRAN_SCV), WantToBuildStatus::HaveAllNeeded));
    assert_eq!(
        first[1],
        (UnitOrUpgradeType::Unit(TERRAN_BARRACKS), WantToBuildStatus::CannotAfford { minerals_short: 30, gas_short: 0 })
    );
}

#[test]
fn status_order_of_checks() {
    let scv = unit(1, TERRAN_SCV, 10, 10);
    let ledger: Vec<BuildHistoryEntry> = Vec::new();
    // Affordability is reported before the missing barracks.
    let w = world(vec![scv], 10, 0);
    assert_eq!(
        get_unit_status(&w, &ledger, TERRAN_MARINE, 1),
        WantToBuildStatus::CannotAfford { minerals_short: 40, gas_short: 0 }
    );
    let w = world(vec![scv], 500, 0);
    assert_eq!(get_unit_status(&w, &ledger, TERRAN_MARINE, 1), WantToBuildStatus::MissingPrerequisite);
    // A barracks under construction is no producer yet.
    let mut rax = building(2, TERRAN_BARRACKS, 20, 20, 4, 3);
    rax.completed = false;
    let w = world(vec![scv, rax], 500, 0);
    assert_eq!(get_unit_status(&w, &ledger, TERRAN_MARINE, 1), WantToBuildStatus::MissingPrerequisite);
    rax.completed = true;
    rax.training = true;
    let w = world(vec![scv, rax], 500, 0);
    assert_eq!(get_unit_status(&w, &ledger, TERRAN_MARINE, 1), WantToBuildStatus::NoBuilderAvailable);
    rax.training = false;
    let w = world(vec![scv, rax], 500, 0);
    assert_eq!(get_unit_status(&w, &ledger, TERRAN_MARINE, 1), WantToBuildStatus::ReadyToBuild);
    assert_eq!(get_unit_status(&w, &ledger, TERRAN_MARINE, 0), WantToBuildStatus::HaveAllNeeded);
    assert_eq!(get_unit_status(&w, &ledger, 999, 1), WantToBuildStatus::NoBuilderAvailable);
}

#[test]
fn producer_bound_to_pending_entry_is_not_eligible() {
    let w = world(vec![unit(1, TERRAN_SCV, 10, 10)], 500, 0);
    let ledger = vec![BuildHistoryEntry {
        goal: UnitOrUpgradeType::Unit(TERRAN_BARRACKS),
        assigned_unit_id: Some(1),
        tile_position: None,
        status: BuildStatus::Assigned,
    }];
    assert_eq!(get_unit_status(&w, &ledger, TERRAN_SUPPLY_DEPOT, 1), WantToBuildStatus::NoBuilderAvailable);
}

#[test]
fn upgrade_status_follows_ledger() {
    let mut academy = building(5, 112, 20, 20, 3, 2);
    academy.completed = true;
    let w = world(vec![academy], 50, 0);
    let mut ledger: Vec<BuildHistoryEntry> = Vec::new();
    assert_eq!(
        get_upgrade_status(&w, &ledger, ACADEMY_UPGRADE),
        WantToBuildStatus::CannotAfford { minerals_short: 50, gas_short: 100 }
    );
    let w = world(vec![academy], 500, 500);
    assert_eq!(get_upgrade_status(&w, &ledger, ACADEMY_UPGRADE), WantToBuildStatus::ReadyToBuild);
    ledger.push(BuildHistoryEntry {
        goal: UnitOrUpgradeType::Upgrade(ACADEMY_UPGRADE),
        assigned_unit_id: Some(5),
        tile_position: None,
        status: BuildStatus::Started,
    });
    assert_eq!(get_upgrade_status(&w, &ledger, ACADEMY_UPGRADE), WantToBuildStatus::HaveAllNeeded);
}

#[test]
fn counts_of_kinds() {
    let mut b = building(3, TERRAN_BARRACKS, 20, 20, 4, 3);
    b.completed = false;
    let w = world(vec![unit(1, TERRAN_SCV, 1, 1), unit(2, TERRAN_SCV, 2, 2), b], 0, 0);
    assert_eq!(count_units_of_type(&w, TERRAN_SCV), 2);
    assert_eq!(count_units_of_type(&w, TERRAN_BARRACKS), 1);
    assert_eq!(count_completed_units_of_type(&w, TERRAN_BARRACKS), 0);
    assert_eq!(count_units_of_type(&w, TERRAN_MARINE), 0);
}

#[test]
fn valve_overrides_dearer_goal() {
    let mut w = world(vec![unit(1, TERRAN_SCV, 10, 10)], 500, 0);
    w.resources.capacity_used = 195;
    w.resources.capacity_total = 200;
    let s = stage_of(vec![(TERRAN_BARRACKS, 1)]);
    let ledger: Vec<BuildHistoryEntry> = Vec::new();
    assert_eq!(
        get_next_thing_to_build(Some(&s), &w, &ledger, TERRAN_SUPPLY_DEPOT),
        Some(NextBuildItem::Unit(TERRAN_SUPPLY_DEPOT))
    );
    // With room to spare the stage's own goal is picked.
    w.resources.capacity_used = 10;
    assert_eq!(
        get_next_thing_to_build(Some(&s), &w, &ledger, TERRAN_SUPPLY_DEPOT),
        Some(NextBuildItem::Unit(TERRAN_BARRACKS))
    );
}

#[test]
fn capacity_threshold() {
    let depot = find_kind(&catalog(), TERRAN_SUPPLY_DEPOT).unwrap().clone();
    let mut w = world(Vec::new(), 0, 0);
    w.resources.capacity_total = 100;
    w.resources.capacity_used = 86;
    assert!(need_more_supply(&w, &depot));
    w.resources.capacity_used = 85;
    assert!(!need_more_supply(&w, &depot));
    w.resources.capacity_total = 4;
    w.resources.capacity_used = 3;
    assert!(need_more_supply(&w, &depot));
    w.resources.capacity_total = 0;
    w.resources.capacity_used = 0;
    assert!(!need_more_supply(&w, &depot));
    // A depot under construction counts towards the total.
    let mut d = building(9, TERRAN_SUPPLY_DEPOT, 30, 30, 3, 2);
    d.completed = false;
    w.units.push(d);
    w.resources.capacity_total = 100;
    w.resources.capacity_used = 86;
    assert!(!need_more_supply(&w, &depot));
}

#[test]
fn tie_break_prefers_price() {
    let rax = building(2, TERRAN_BARRACKS, 40, 40, 4, 3);
    let w = world(vec![unit(1, TERRAN_SCV, 10, 10), rax], 1000, 0);
    let s = stage_of(vec![(TERRAN_MARINE, 4), (TERRAN_BARRACKS, 2)]);
    let ledger: Vec<BuildHistoryEntry> = Vec::new();
    assert_eq!(
        get_next_thing_to_build(Some(&s), &w, &ledger, TERRAN_SUPPLY_DEPOT),
        Some(NextBuildItem::Unit(TERRAN_BARRACKS))
    );
}

#[test]
fn equal_prices_keep_declaration_order() {
    let rax = building(2, TERRAN_BARRACKS, 40, 40, 4, 3);
    let cc = building(3, TERRAN_COMMAND_CENTER, 50, 50, 4, 3);
    let w = world(vec![cc, rax], 1000, 0);
    let s = stage_of(vec![(TERRAN_MARINE, 4), (TERRAN_SCV, 9)]);
    let ledger: Vec<BuildHistoryEntry> = Vec::new();
    assert_eq!(
        get_next_thing_to_build(Some(&s), &w, &ledger, TERRAN_SUPPLY_DEPOT),
        Some(NextBuildItem::Unit(TERRAN_MARINE))
    );
}

#[test]
fn nothing_selected_while_pending() {
    let w = world(vec![unit(1, TERRAN_SCV, 10, 10), unit(4, TERRAN_SCV, 11, 11)], 1000, 0);
    let s = stage_of(vec![(TERRAN_BARRACKS, 2)]);
    let ledger = vec![BuildHistoryEntry {
        goal: UnitOrUpgradeType::Unit(TERRAN_BARRACKS),
        assigned_unit_id: Some(1),
        tile_position: None,
        status: BuildStatus::Assigned,
    }];
    assert_eq!(get_next_thing_to_build(Some(&s), &w, &ledger, TERRAN_SUPPLY_DEPOT), None);
    assert_eq!(get_next_thing_to_build(None, &w, &Vec::new(), TERRAN_SUPPLY_DEPOT), None);
}

#[test]
fn clearance_rejects_tile_next_to_depot() {
    let cc = {
        let mut c = building(7, TERRAN_COMMAND_CENTER, 10, 10, 4, 3);
        c.is_depot = true;
        c
    };
    let depot = find_kind(&catalog(), TERRAN_SUPPLY_DEPOT).unwrap().clone();
    let w = world(vec![cc], 0, 0);
    let t = TilePosition { x: 6, y: 10 };
    let bases: Vec<TilePosition> = Vec::new();
    assert!(blocks_worker_path(&w, t, 3, 2));
    assert!(!is_next_to_other_building(&w, t, 3, 2));
    assert!(!is_viable_location(&w, &depot, t, &bases, 4, 3));
    let empty = world(Vec::new(), 0, 0);
    assert!(is_viable_location(&empty, &depot, t, &bases, 4, 3));
    // Two tiles further away the depot no longer blocks.
    assert!(!blocks_worker_path(&w, TilePosition { x: 4, y: 10 }, 3, 2));
}

#[test]
fn buffer_and_reserved_base() {
    let rax = building(2, TERRAN_BARRACKS, 20, 20, 4, 3);
    let w = world(vec![rax], 0, 0);
    assert!(is_next_to_other_building(&w, TilePosition { x: 24, y: 20 }, 3, 2));
    assert!(!is_next_to_other_building(&w, TilePosition { x: 25, y: 20 }, 3, 2));
    let bases = vec![TilePosition { x: 40, y: 40 }];
    assert!(building_covers_command_center_location(TilePosition { x: 38, y: 39 }, 3, 2, &bases, 4, 3));
    assert!(!building_covers_command_center_location(TilePosition { x: 37, y: 39 }, 3, 2, &bases, 4, 3));
}

#[test]
fn spread_search_finds_nearest_ring() {
    let mut depot = find_kind(&catalog(), TERRAN_SUPPLY_DEPOT).unwrap().clone();
    depot.placement = grid(false);
    depot.placement[(12 * MAP + 14) as usize] = true;
    depot.placement[(10 * MAP + 13) as usize] = true;
    let w = world(Vec::new(), 0, 0);
    let bases: Vec<TilePosition> = Vec::new();
    let c = TilePosition { x: 10, y: 10 };
    assert_eq!(find_build_location(&w, &depot, c, &bases, 4, 3, 15), Some(TilePosition { x: 13, y: 10 }));
    assert_eq!(find_build_location(&w, &depot, c, &bases, 4, 3, 2), None);
    depot.placement = grid(false);
    assert_eq!(find_build_location(&w, &depot, c, &bases, 4, 3, 15), None);
}

#[test]
fn refinery_and_expansion_sites() {
    let kinds = catalog();
    let refinery = find_kind(&kinds, TERRAN_REFINERY).unwrap().clone();
    let cc_kind = find_kind(&kinds, TERRAN_COMMAND_CENTER).unwrap().clone();
    let mut home = building(7, TERRAN_COMMAND_CENTER, 10, 10, 4, 3);
    home.is_depot = true;
    let w = world(vec![home], 0, 0);
    let bases = vec![TilePosition { x: 10, y: 11 }, TilePosition { x: 40, y: 40 }];
    let c = TilePosition { x: 0, y: 0 };
    assert_eq!(find_build_location(&w, &refinery, c, &bases, 4, 3, 15), Some(TilePosition { x: 30, y: 30 }));
    assert_eq!(find_build_location(&w, &cc_kind, c, &bases, 4, 3, 15), Some(TilePosition { x: 40, y: 40 }));
    assert_eq!(get_command_center_location(&w, &vec![TilePosition { x: 12, y: 12 }]), None);
}

fn barracks_world(scv: Unit, rax_count: usize) -> World {
    let mut units = vec![scv];
    for i in 0..rax_count {
        units.push(building(100 + i, TERRAN_BARRACKS, 50, 5 + 5 * i as i32, 4, 3));
    }
    let mut w = world(units, 1000, 0);
    for k in w.unit_kinds.iter_mut() {
        if k.id == TERRAN_BARRACKS {
            k.placement = grid_only(20, 10);
        }
    }
    w
}

#[test]
fn end_to_end_stage_progression() {
    let stages = vec![stage_of(vec![(TERRAN_BARRACKS, 2)]), stage_of(vec![(TERRAN_SCV, 30)])];
    let mut state = GameState::new(stages, TERRAN_SUPPLY_DEPOT, TERRAN_COMMAND_CENTER);
    let scv = unit(1, TERRAN_SCV, 10, 10);

    let cmds = state.on_frame(&barracks_world(scv, 0));
    assert_eq!(state.unit_build_history.len(), 1);
    let entry = state.unit_build_history[0];
    assert_eq!(entry.goal, UnitOrUpgradeType::Unit(TERRAN_BARRACKS));
    assert_eq!(entry.status, BuildStatus::Assigned);
    assert_eq!(entry.assigned_unit_id, Some(1));
    assert_eq!(entry.tile_position, Some(TilePosition { x: 20, y: 10 }));
    assert_eq!(cmds, vec![Command::Build { unit_id: 1, kind: TERRAN_BARRACKS, tile: TilePosition { x: 20, y: 10 } }]);

    let mut busy = scv;
    busy.idle = false;
    busy.constructing = true;
    busy.order = Order::ConstructingBuilding;
    busy.activity = Some(TERRAN_BARRACKS);
    let cmds = state.on_frame(&barracks_world(busy, 0));
    assert_eq!(state.unit_build_history.len(), 1);
    assert_eq!(state.unit_build_history[0].status, BuildStatus::Started);
    assert!(cmds.is_empty());
    assert_eq!(state.current_stage_index, 0);

    let mut done = barracks_world(busy, 2);
    done.created = vec![TERRAN_BARRACKS];
    state.on_frame(&done);
    assert!(state.unit_build_history.is_empty());
    assert_eq!(state.current_stage_index, 1);
}

#[test]
fn stalled_builder_gets_command_again() {
    let stages = vec![stage_of(vec![(TERRAN_BARRACKS, 1)])];
    let mut state = GameState::new(stages, TERRAN_SUPPLY_DEPOT, TERRAN_COMMAND_CENTER);
    state.unit_build_history.push(BuildHistoryEntry {
        goal: UnitOrUpgradeType::Unit(TERRAN_BARRACKS),
        assigned_unit_id: Some(1),
        tile_position: None,
        status: BuildStatus::Assigned,
    });
    let scv = unit(1, TERRAN_SCV, 10, 10);
    let cmds = state.on_frame(&barracks_world(scv, 0));
    assert_eq!(cmds, vec![Command::Build { unit_id: 1, kind: TERRAN_BARRACKS, tile: TilePosition { x: 20, y: 10 } }]);
    assert_eq!(state.unit_build_history.len(), 1);
    assert_eq!(state.unit_build_history[0].tile_position, Some(TilePosition { x: 20, y: 10 }));
    assert_eq!(state.unit_build_history[0].status, BuildStatus::Assigned);

    // A builder still walking to the site is left alone.
    let mut walking = scv;
    walking.idle = false;
    walking.order = Order::Move;
    let cmds = state.on_frame(&barracks_world(walking, 0));
    assert!(cmds.is_empty());
}

#[test]
fn lost_builder_is_replaced() {
    let stages = vec![stage_of(vec![(TERRAN_BARRACKS, 1)])];
    let mut state = GameState::new(stages, TERRAN_SUPPLY_DEPOT, TERRAN_COMMAND_CENTER);
    state.unit_build_history.push(BuildHistoryEntry {
        goal: UnitOrUpgradeType::Unit(TERRAN_BARRACKS),
        assigned_unit_id: Some(77),
        tile_position: None,
        status: BuildStatus::Assigned,
    });
    let cmds = state.on_frame(&barracks_world(unit(5, TERRAN_SCV, 10, 10), 0));
    assert_eq!(state.unit_build_history.len(), 1);
    assert_eq!(state.unit_build_history[0].assigned_unit_id, Some(5));
    assert_eq!(cmds, vec![Command::Build { unit_id: 5, kind: TERRAN_BARRACKS, tile: TilePosition { x: 20, y: 10 } }]);
}

#[test]
fn training_and_research_commands() {
    let mut cc = building(3, TERRAN_COMMAND_CENTER, 50, 50, 4, 3);
    cc.is_depot = true;
    let stages = vec![stage_of(vec![(TERRAN_SCV, 5)])];
    let mut state = GameState::new(stages, TERRAN_SUPPLY_DEPOT, TERRAN_COMMAND_CENTER);
    let cmds = state.on_frame(&world(vec![cc], 1000, 0));
    assert_eq!(cmds, vec![Command::Train { unit_id: 3, kind: TERRAN_SCV }]);
    assert_eq!(state.unit_build_history[0].tile_position, None);

    let academy = building(5, 112, 20, 20, 3, 2);
    let stages = vec![BuildStage::new("research").with_upgrade(ACADEMY_UPGRADE)];
    let mut state = GameState::new(stages, TERRAN_SUPPLY_DEPOT, TERRAN_COMMAND_CENTER);
    let cmds = state.on_frame(&world(vec![academy], 1000, 1000));
    assert_eq!(cmds, vec![Command::Research { unit_id: 5, upgrade: ACADEMY_UPGRADE }]);
    assert_eq!(state.current_stage_index, 0);
    let mut researching = academy;
    researching.upgrading = true;
    researching.idle = false;
    researching.activity = Some(ACADEMY_UPGRADE);
    state.on_frame(&world(vec![researching], 1000, 1000));
    assert_eq!(state.unit_build_history[0].status, BuildStatus::Started);
    assert_eq!(state.current_stage_index, 1);
    // Past the last stage the cursor stays put.
    state.on_frame(&world(vec![researching], 1000, 1000));
    assert_eq!(state.current_stage_index, 1);
}

#[test]
fn goal_table_and_stage_builder() {
    let stages = get_build_stages();
    assert_eq!(stages.len(), 6);
    assert_eq!(stages[0].name, "Start");
    assert_eq!(stages[0].desired_counts, vec![(TERRAN_SCV, 8), (TERRAN_SUPPLY_DEPOT, 1)]);
    assert_eq!(stages[5].name, "late game tech");
    let s = BuildStage::new("x").with_unit(TERRAN_SCV, 3).with_unit(TERRAN_MARINE, 2).with_unit(TERRAN_SCV, 5);
    assert_eq!(s.desired_counts, vec![(TERRAN_SCV, 5), (TERRAN_MARINE, 2)]);
    assert_eq!(s.with_upgrade(4).desired_upgrades, vec![4]);
    let d = GameState::default();
    assert_eq!(d.build_stages.len(), 6);
    assert_eq!(d.current_stage_index, 0);
}

fn tp(x: i32, y: i32) -> TilePosition {
    TilePosition { x, y }
}

#[test]
fn clusters_are_linked_groups() {
    let minerals = vec![tp(0, 0), tp(30, 30), tp(3, 4), tp(6, 8), tp(34, 30), tp(60, 0)];
    let clusters = get_resource_clusters(&minerals);
    assert_eq!(clusters, vec![vec![0, 2, 3], vec![1, 4], vec![5]]);
    assert!(get_resource_clusters(&Vec::new()).is_empty());
    // Exactly five tiles apart still joins.
    assert_eq!(get_resource_clusters(&vec![tp(0, 0), tp(5, 0), tp(11, 0)]), vec![vec![0, 1], vec![2]]);
}

#[test]
fn cluster_site_minimises_distance() {
    let minerals = vec![tp(10, 10), tp(14, 10)];
    let mut cc = find_kind(&catalog(), TERRAN_COMMAND_CENTER).unwrap().clone();
    let w = world(Vec::new(), 0, 0);
    assert_eq!(get_base_position_for_cluster(&w, &cc, &minerals, &vec![0, 1]), tp(12, 10));
    cc.placement = grid(false);
    cc.placement[(20 * MAP + 12) as usize] = true;
    cc.placement[(3 * MAP + 12) as usize] = true;
    assert_eq!(get_base_position_for_cluster(&w, &cc, &minerals, &vec![0, 1]), tp(12, 3));
    cc.placement = grid(false);
    assert_eq!(get_base_position_for_cluster(&w, &cc, &minerals, &vec![1, 0]), tp(14, 10));
    assert_eq!(get_base_position_for_cluster(&w, &cc, &minerals, &Vec::new()), tp(0, 0));
}

#[test]
fn start_location_nearest_first_building() {
    let mut w = world(vec![unit(1, TERRAN_SCV, 0, 0), building(9, TERRAN_COMMAND_CENTER, 50, 50, 4, 3)], 0, 0);
    w.start_locations = vec![tp(5, 5), tp(48, 52), tp(52, 48)];
    assert_eq!(get_player_start_location(&w), Some(tp(48, 52)));
    w.units.push(building(3, TERRAN_BARRACKS, 6, 6, 4, 3));
    assert_eq!(get_player_start_location(&w), Some(tp(5, 5)));
    w.start_locations = Vec::new();
    assert_eq!(get_player_start_location(&w), None);
    let w = world(vec![unit(1, TERRAN_SCV, 0, 0)], 0, 0);
    assert_eq!(get_player_start_location(&w), None);
}

#[test]
fn sorting_by_distance() {
    let sorted = sort_by_distance(&vec![tp(10, 0), tp(1, 1), tp(0, 5), tp(1, 1)], tp(0, 0));
    assert_eq!(sorted, vec![tp(1, 1), tp(1, 1), tp(0, 5), tp(10, 0)]);
}

#[test]
fn base_locations_from_minerals() {
    let mut w = world(vec![building(9, TERRAN_COMMAND_CENTER, 50, 50, 4, 3)], 0, 0);
    w.start_locations = vec![tp(50, 50)];
    w.minerals = vec![
        Resource { id: 200, tile: tp(10, 10) },
        Resource { id: 201, tile: tp(12, 10) },
        Resource { id: 202, tile: tp(48, 50) },
        Resource { id: 203, tile: tp(52, 50) },
    ];
    let mut cc = find_kind(&catalog(), TERRAN_COMMAND_CENTER).unwrap().clone();
    cc.placement[(50 * MAP + 50) as usize] = false;
    let bases = get_base_locations(&w, &cc);
    assert_eq!(bases.len(), 2);
    assert_eq!(bases[0].position, tp(49, 50));
    assert_eq!(bases[1].position, tp(11, 10));
    assert_eq!(bases[1].checked_positions.len(), 49);
    assert_eq!(bases[1].checked_positions[0].tile_position, tp(8, 7));
    assert_eq!(bases[1].checked_positions[1].tile_position, tp(8, 8));
    assert_eq!(bases[1].checked_positions[7].tile_position, tp(9, 7));
    assert_eq!(bases[1].checked_positions[48].tile_position, tp(14, 13));
    assert!(bases[1].checked_positions.iter().all(|c| c.is_valid));
    let around_home = &bases[0].checked_positions;
    assert!(around_home.iter().any(|c| c.tile_position == tp(50, 50) && !c.is_valid));
    let mut none = w.clone();
    none.start_locations = Vec::new();
    assert!(get_base_locations(&none, &cc).is_empty());

    let mut state = GameState::default();
    w.unit_kinds = vec![cc];
    state.on_start(&w);
    assert_eq!(state.base_locations.len(), 2);
}

#[test]
fn workers_fill_refinery_then_minerals() {
    let mut cc = building(10, TERRAN_COMMAND_CENTER, 10, 10, 4, 3);
    cc.is_depot = true;
    let mut refinery = building(50, TERRAN_REFINERY, 20, 20, 4, 2);
    refinery.is_refinery = true;
    let mut w = world(
        vec![cc, refinery, unit(1, TERRAN_SCV, 11, 11), unit(2, TERRAN_SCV, 11, 12), unit(3, TERRAN_SCV, 12, 12), unit(4, TERRAN_SCV, 12, 13)],
        0,
        0,
    );
    w.minerals = vec![Resource { id: 200, tile: tp(15, 10) }, Resource { id: 201, tile: tp(40, 40) }];
    let mut state = GameState::default();
    let cmds = state.worker_onframe(&w);
    assert_eq!(
        cmds,
        vec![
            Command::Gather { unit_id: 1, target: 50 },
            Command::Gather { unit_id: 2, target: 50 },
            Command::Gather { unit_id: 3, target: 50 },
            Command::Gather { unit_id: 4, target: 200 },
        ]
    );
    assert_eq!(state.worker_refinery_assignments, vec![(1, 50), (2, 50), (3, 50)]);

    // A worker bound to a pending assignment is left alone.
    let mut state = GameState::default();
    state.unit_build_history.push(BuildHistoryEntry {
        goal: UnitOrUpgradeType::Unit(TERRAN_BARRACKS),
        assigned_unit_id: Some(1),
        tile_position: None,
        status: BuildStatus::Assigned,
    });
    let cmds = state.worker_onframe(&w);
    assert_eq!(
        cmds,
        vec![
            Command::Gather { unit_id: 2, target: 50 },
            Command::Gather { unit_id: 3, target: 50 },
            Command::Gather { unit_id: 4, target: 50 },
        ]
    );
}

#[test]
fn idle_producer_is_eligible_even_if_not_completed() {
    let mut scv = unit(1, TERRAN_SCV, 10, 10);
    scv.completed = false;
    let w = world(vec![scv], 0, 0);
    assert_eq!(find_builder_for_unit(&w, TERRAN_SCV, &Vec::new()), Some(0));
    let mut busy = scv;
    busy.constructing = true;
    let w = world(vec![busy], 0, 0);
    assert_eq!(find_builder_for_unit(&w, TERRAN_SCV, &Vec::new()), None);
}

#[test]
fn builder_of_started_entry_is_not_reselected() {
    let stages = vec![stage_of(vec![(TERRAN_BARRACKS, 2)])];
    let mut state = GameState::new(stages, TERRAN_SUPPLY_DEPOT, TERRAN_COMMAND_CENTER);
    state.unit_build_history.push(BuildHistoryEntry {
        goal: UnitOrUpgradeType::Unit(TERRAN_BARRACKS),
        assigned_unit_id: Some(1),
        tile_position: Some(tp(30, 30)),
        status: BuildStatus::Started,
    });
    state.unit_build_history.push(BuildHistoryEntry {
        goal: UnitOrUpgradeType::Unit(TERRAN_BARRACKS),
        assigned_unit_id: Some(77),
        tile_position: None,
        status: BuildStatus::Assigned,
    });
    let mut w = barracks_world(unit(1, TERRAN_SCV, 10, 10), 0);
    w.units.push(unit(5, TERRAN_SCV, 10, 10));
    let cmds = state.on_frame(&w);
    assert_eq!(state.unit_build_history[1].assigned_unit_id, Some(5));
    assert_eq!(cmds, vec![Command::Build { unit_id: 5, kind: TERRAN_BARRACKS, tile: tp(20, 10) }]);
    // With only the busy builder left, nobody is reselected.
    let mut state2 = GameState::new(vec![stage_of(vec![(TERRAN_BARRACKS, 2)])], TERRAN_SUPPLY_DEPOT, TERRAN_COMMAND_CENTER);
    state2.unit_build_history = state.unit_build_history.clone();
    state2.unit_build_history[1].assigned_unit_id = Some(77);
    let cmds = state2.on_frame(&barracks_world(unit(1, TERRAN_SCV, 10, 10), 0));
    assert!(cmds.is_empty());
    assert_eq!(state2.unit_build_history[1].assigned_unit_id, Some(77));
}
