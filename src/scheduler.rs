use vstd::prelude::*;
use crate::model::{
    find_kind, first_index, lemma_first_index, lemma_first_index_stays, lookup_kind, BuildHistoryEntry,
    BuildStatus, Command, NextBuildItem, Order, TilePosition, Unit, UnitOrUpgradeType, World,
};
use crate::select::{any_assigned, best_unit, get_next_thing_to_build, select_item, valve};
use crate::site::{find_build_location_default, ring, site_result, viable, SEARCH_RANGE};
use crate::stages::{get_build_stages, BuildStage, TERRAN_COMMAND_CENTER, TERRAN_SUPPLY_DEPOT};
use crate::status::{
    builder_index, count_units_of_type, find_builder_for_unit, get_status_for_stage_items, stage_statuses,
    unit_status, units_of, upgrade_started, WantToBuildStatus,
};

verus! {

/// A tile around a base location and whether a depot could stand there.
#[derive(Clone, Copy, Debug, PartialEq, Eq, Structural)]
pub struct CheckedPosition {
    pub tile_position: TilePosition,
    pub is_valid: bool,
}

/// A precomputed expansion site.
#[derive(Clone, Debug)]
pub struct BaseLocation {
    pub position: TilePosition,
    pub checked_positions: Vec<CheckedPosition>,
}

/// The scheduler's state, owned by the tick handler.
#[derive(Clone, Debug)]
pub struct GameState {
    /// The assignment ledger.
    pub unit_build_history: Vec<BuildHistoryEntry>,
    /// The goal table.
    pub build_stages: Vec<BuildStage>,
    /// The active stage; equal to the number of stages once all are done.
    pub current_stage_index: usize,
    /// The status table computed on the last tick.
    pub stage_item_status: Vec<(UnitOrUpgradeType, WantToBuildStatus)>,
    /// Expansion sites, nearest to the start location first.
    pub base_locations: Vec<BaseLocation>,
    /// The capacity-increasing structure.
    pub supply_kind: u32,
    /// The resource depot structure, whose footprint base locations reserve.
    pub depot_kind: u32,
    /// `(worker id, refinery id)`: the workers sent to gather gas.
    pub worker_refinery_assignments: Vec<(usize, usize)>,
}

/// At most one ledger entry is `Assigned`.
pub open spec fn at_most_one_assigned(ledger: Seq<BuildHistoryEntry>) -> bool {
    forall|i: int, j: int|
        0 <= i < ledger.len() && 0 <= j < ledger.len() && (#[trigger] ledger[i]).status == BuildStatus::Assigned
            && (#[trigger] ledger[j]).status == BuildStatus::Assigned ==> i == j
}

/// No worker is listed twice among the gas assignments.
pub open spec fn workers_unique(a: Seq<(usize, usize)>) -> bool {
    forall|i: int, j: int| 0 <= i < j < a.len() ==> (#[trigger] a[i]).0 != (#[trigger] a[j]).0
}

pub open spec fn stages_wf(stages: Seq<BuildStage>) -> bool {
    forall|k: int| 0 <= k < stages.len() ==> (#[trigger] stages[k]).wf()
}

impl GameState {
    pub open spec fn wf(&self) -> bool {
        &&& self.current_stage_index <= self.build_stages@.len()
        &&& at_most_one_assigned(self.unit_build_history@)
        &&& stages_wf(self.build_stages@)
        &&& workers_unique(self.worker_refinery_assignments@)
    }

    /// A fresh state over the given goal table.
    pub fn new(build_stages: Vec<BuildStage>, supply_kind: u32, depot_kind: u32) -> (r: Self)
        requires
            stages_wf(build_stages@),
        ensures
            r.wf(),
            r.build_stages == build_stages,
            r.current_stage_index == 0,
            r.unit_build_history@.len() == 0,
            r.stage_item_status@.len() == 0,
            r.base_locations@.len() == 0,
            r.supply_kind == supply_kind,
            r.depot_kind == depot_kind,
            r.worker_refinery_assignments@.len() == 0,
    {
        GameState {
            unit_build_history: Vec::new(),
            build_stages,
            current_stage_index: 0,
            stage_item_status: Vec::new(),
            base_locations: Vec::new(),
            supply_kind,
            depot_kind,
            worker_refinery_assignments: Vec::new(),
        }
    }
}

impl Default for GameState {
    fn default() -> (r: Self)
        ensures
            r.wf(),
            r.build_stages@.len() == 6,
            r.current_stage_index == 0,
            r.unit_build_history@.len() == 0,
            r.supply_kind == TERRAN_SUPPLY_DEPOT,
            r.depot_kind == TERRAN_COMMAND_CENTER,
    {
        GameState::new(get_build_stages(), TERRAN_SUPPLY_DEPOT, TERRAN_COMMAND_CENTER)
    }
}

pub open spec fn goal_is_unit(ledger: Seq<BuildHistoryEntry>, kind: u32) -> spec_fn(int) -> bool {
    |i: int| ledger[i].goal == UnitOrUpgradeType::Unit(kind)
}

/// The ledger once an entity of `kind` was created: the first entry for
/// that kind is gone.
pub open spec fn remove_completed(ledger: Seq<BuildHistoryEntry>, kind: u32) -> Seq<BuildHistoryEntry> {
    let i = first_index(goal_is_unit(ledger, kind), ledger.len() as int);
    if i >= 0 {
        ledger.remove(i)
    } else {
        ledger
    }
}

/// The ledger once the first `n` creations were seen.
pub open spec fn after_created(ledger: Seq<BuildHistoryEntry>, created: Seq<u32>, n: int) -> Seq<BuildHistoryEntry>
    decreases n,
{
    if n <= 0 {
        ledger
    } else {
        remove_completed(after_created(ledger, created, n - 1), created[n - 1])
    }
}

pub proof fn lemma_remove_keeps_one(s: Seq<BuildHistoryEntry>, i: int)
    requires
        at_most_one_assigned(s),
        0 <= i < s.len(),
    ensures
        at_most_one_assigned(s.remove(i)),
{
    let t = s.remove(i);
    assert forall|a: int, b: int|
        0 <= a < t.len() && 0 <= b < t.len() && (#[trigger] t[a]).status == BuildStatus::Assigned
            && (#[trigger] t[b]).status == BuildStatus::Assigned implies a == b by {
        let a2 = if a < i { a } else { a + 1 };
        let b2 = if b < i { b } else { b + 1 };
        assert(t[a] == s[a2]);
        assert(t[b] == s[b2]);
    }
}

/// The entity with the given id, if the world still lists it.
pub open spec fn id_is(units: Seq<Unit>, id: usize) -> spec_fn(int) -> bool {
    |i: int| units[i].id == id
}

pub open spec fn unit_by_id(world: World, id: usize) -> Option<Unit> {
    let i = first_index(id_is(world.units@, id), world.units@.len() as int);
    if i >= 0 {
        Some(world.units@[i])
    } else {
        None
    }
}

/// Looks an entity up by id; a missing one is a normal outcome.
pub fn find_unit(world: &World, id: usize) -> (r: Option<Unit>)
    ensures
        r == unit_by_id(*world, id),
{
    let ghost p = id_is(world.units@, id);
    let n = world.units.len();
    proof {
        lemma_first_index(p, n as int);
    }
    let mut i: usize = 0;
    while i < n
        invariant
            i <= n,
            n == world.units@.len(),
            p == id_is(world.units@, id),
            first_index(p, i as int) == -1,
        decreases n - i,
    {
        if world.units[i].id == id {
            proof {
                assert(p(i as int));
                assert(first_index(p, i + 1) == i);
                lemma_first_index_stays(p, i + 1, n as int);
            }
            return Some(world.units[i]);
        }
        proof {
            assert(!p(i as int));
        }
        i = i + 1;
    }
    None
}

/// The entity is visibly doing the work of `goal`.
pub open spec fn performing(u: Unit, goal: UnitOrUpgradeType) -> bool {
    match goal {
        UnitOrUpgradeType::Unit(k) => (u.constructing || u.training) && u.activity == Some(k),
        UnitOrUpgradeType::Upgrade(k) => u.upgrading && u.activity == Some(k),
    }
}

/// One entry after progress detection.
pub open spec fn progressed(e: BuildHistoryEntry, world: World) -> BuildHistoryEntry {
    if e.status == BuildStatus::Assigned {
        match e.assigned_unit_id {
            Some(id) => match unit_by_id(world, id) {
                Some(u) => if performing(u, e.goal) {
                    BuildHistoryEntry { status: BuildStatus::Started, ..e }
                } else {
                    e
                },
                None => e,
            },
            None => e,
        }
    } else {
        e
    }
}

fn is_performing(u: &Unit, goal: UnitOrUpgradeType) -> (r: bool)
    ensures
        r == performing(*u, goal),
{
    match goal {
        UnitOrUpgradeType::Unit(k) => (u.constructing || u.training) && u.activity == Some(k),
        UnitOrUpgradeType::Upgrade(k) => u.upgrading && u.activity == Some(k),
    }
}

fn progress_entry(e: BuildHistoryEntry, world: &World) -> (r: BuildHistoryEntry)
    ensures
        r == progressed(e, *world),
{
    if e.status == BuildStatus::Assigned {
        if let Some(id) = e.assigned_unit_id {
            if let Some(u) = find_unit(world, id) {
                if is_performing(&u, e.goal) {
                    return BuildHistoryEntry { status: BuildStatus::Started, ..e };
                }
            }
        }
    }
    e
}

impl GameState {
    /// Completion detection: an entity of `kind` was created, so the first
    /// ledger entry for that kind is done.
    pub fn on_building_create(&mut self, kind: u32)
        requires
            old(self).wf(),
        ensures
            final(self).wf(),
            final(self).unit_build_history@ == remove_completed(old(self).unit_build_history@, kind),
            final(self).build_stages == old(self).build_stages,
            final(self).current_stage_index == old(self).current_stage_index,
            final(self).base_locations == old(self).base_locations,
            final(self).supply_kind == old(self).supply_kind,
            final(self).depot_kind == old(self).depot_kind,
            final(self).stage_item_status == old(self).stage_item_status,
            final(self).worker_refinery_assignments == old(self).worker_refinery_assignments,
    {
        let ghost ledger = self.unit_build_history@;
        let ghost start = *self;
        let ghost p = goal_is_unit(ledger, kind);
        let n = self.unit_build_history.len();
        proof {
            lemma_first_index(p, n as int);
        }
        let mut i: usize = 0;
        while i < n && self.unit_build_history[i].goal != UnitOrUpgradeType::Unit(kind)
            invariant
                i <= n,
                n == ledger.len(),
                *self == start,
                start.wf(),
                start.unit_build_history@ == ledger,
                p == goal_is_unit(ledger, kind),
                first_index(p, i as int) == -1,
            decreases n - i,
        {
            proof {
                assert(!p(i as int));
            }
            i = i + 1;
        }
        if i < n {
            proof {
                assert(p(i as int));
                assert(first_index(p, i + 1) == i);
                lemma_first_index_stays(p, i + 1, n as int);
                lemma_remove_keeps_one(ledger, i as int);
            }
            self.unit_build_history.remove(i);
        }
    }

    /// Completion detection for every creation the world reports.
    pub fn record_created(&mut self, world: &World)
        requires
            old(self).wf(),
        ensures
            final(self).wf(),
            final(self).unit_build_history@ == after_created(old(self).unit_build_history@, world.created@, world.created@.len() as int),
            final(self).build_stages == old(self).build_stages,
            final(self).current_stage_index == old(self).current_stage_index,
            final(self).base_locations == old(self).base_locations,
            final(self).supply_kind == old(self).supply_kind,
            final(self).depot_kind == old(self).depot_kind,
            final(self).stage_item_status == old(self).stage_item_status,
            final(self).worker_refinery_assignments == old(self).worker_refinery_assignments,
    {
        let ghost start = *self;
        let mut i: usize = 0;
        while i < world.created.len()
            invariant
                i <= world.created@.len(),
                self.wf(),
                self.unit_build_history@ == after_created(start.unit_build_history@, world.created@, i as int),
                self.build_stages == start.build_stages,
                self.current_stage_index == start.current_stage_index,
                self.base_locations == start.base_locations,
                self.supply_kind == start.supply_kind,
                self.depot_kind == start.depot_kind,
                self.stage_item_status == start.stage_item_status,
                self.worker_refinery_assignments == start.worker_refinery_assignments,
            decreases world.created.len() - i,
        {
            self.on_building_create(world.created[i]);
            i = i + 1;
        }
    }

    /// Progress detection: an `Assigned` entry whose entity is seen doing
    /// the work becomes `Started`.
    pub fn check_if_building_started(&mut self, world: &World)
        requires
            old(self).wf(),
        ensures
            final(self).wf(),
            final(self).unit_build_history@.len() == old(self).unit_build_history@.len(),
            forall|i: int| 0 <= i < old(self).unit_build_history@.len() ==>
                final(self).unit_build_history@[i] == progressed(#[trigger] old(self).unit_build_history@[i], *world),
            final(self).build_stages == old(self).build_stages,
            final(self).current_stage_index == old(self).current_stage_index,
            final(self).base_locations == old(self).base_locations,
            final(self).supply_kind == old(self).supply_kind,
            final(self).depot_kind == old(self).depot_kind,
            final(self).stage_item_status == old(self).stage_item_status,
            final(self).worker_refinery_assignments == old(self).worker_refinery_assignments,
    {
        let ghost old_ledger = self.unit_build_history@;
        let ghost start = *self;
        let n = self.unit_build_history.len();
        let mut i: usize = 0;
        while i < n
            invariant
                i <= n,
                n == old_ledger.len(),
                self.unit_build_history@.len() == n,
                self.build_stages == start.build_stages,
                self.current_stage_index == start.current_stage_index,
                self.base_locations == start.base_locations,
                self.supply_kind == start.supply_kind,
                self.depot_kind == start.depot_kind,
                self.stage_item_status == start.stage_item_status,
                self.worker_refinery_assignments == start.worker_refinery_assignments,
                start.wf(),
                at_most_one_assigned(old_ledger),
                forall|j: int| 0 <= j < i ==> self.unit_build_history@[j] == progressed(#[trigger] old_ledger[j], *world),
                forall|j: int| i <= j < n ==> self.unit_build_history@[j] == #[trigger] old_ledger[j],
            decreases n - i,
        {
            let e = self.unit_build_history[i];
            let e2 = progress_entry(e, world);
            self.unit_build_history.set(i, e2);
            i = i + 1;
        }
        proof {
            let s = self.unit_build_history@;
            assert forall|a: int, b: int|
                0 <= a < s.len() && 0 <= b < s.len() && (#[trigger] s[a]).status == BuildStatus::Assigned
                    && (#[trigger] s[b]).status == BuildStatus::Assigned implies a == b by {
                assert(s[a] == progressed(old_ledger[a], *world));
                assert(s[b] == progressed(old_ledger[b], *world));
            }
        }
    }
}

/// Every unit goal of the stage has its desired count and every upgrade
/// goal has a started research.
pub open spec fn stage_complete(stage: BuildStage, world: World, ledger: Seq<BuildHistoryEntry>) -> bool {
    &&& forall|j: int| 0 <= j < stage.desired_counts@.len() ==>
        units_of(world, (#[trigger] stage.desired_counts@[j]).0) >= stage.desired_counts@[j].1 as nat
    &&& forall|j: int| 0 <= j < stage.desired_upgrades@.len() ==>
        upgrade_started(ledger, #[trigger] stage.desired_upgrades@[j])
}

/// The stage cursor after the advancer ran.
pub open spec fn advanced(state: GameState, world: World) -> int {
    advance_cursor(state.build_stages@, state.current_stage_index as int, world, state.unit_build_history@)
}

/// The cursor `c` after the advancer ran over `stages` with this ledger.
pub open spec fn advance_cursor(stages: Seq<BuildStage>, c: int, world: World, ledger: Seq<BuildHistoryEntry>) -> int {
    if 0 <= c < stages.len() && stage_complete(stages[c], world, ledger) {
        c + 1
    } else {
        c
    }
}

/// Footprint reserved at base locations: the depot kind's.
pub open spec fn depot_dims(world: World, depot_kind: u32) -> (int, int) {
    match lookup_kind(world.unit_kinds@, depot_kind) {
        Some(info) => (info.width as int, info.height as int),
        None => (0, 0),
    }
}

/// The kind of entity that produces `goal`, if the world describes it.
pub open spec fn producer_for(world: World, goal: UnitOrUpgradeType) -> Option<u32> {
    match goal {
        UnitOrUpgradeType::Unit(k) => match lookup_kind(world.unit_kinds@, k) {
            Some(info) => Some(info.producer),
            None => None,
        },
        UnitOrUpgradeType::Upgrade(k) => match lookup_kind(world.upgrade_kinds@, k) {
            Some(info) => Some(info.producer),
            None => None,
        },
    }
}

/// The first eligible producer for `goal`.
pub open spec fn producer_unit(world: World, goal: UnitOrUpgradeType, ledger: Seq<BuildHistoryEntry>) -> Option<Unit> {
    match producer_for(world, goal) {
        Some(p) => {
            let i = builder_index(world, p, ledger);
            if i >= 0 {
                Some(world.units@[i])
            } else {
                None
            }
        },
        None => None,
    }
}

/// What issuing `goal` to `u` yields: the chosen tile, if any, and the
/// command, if any. A building without a site gets no command yet.
pub open spec fn issue_ok(world: World, goal: UnitOrUpgradeType, u: Unit, bases: Seq<TilePosition>, dw: int, dh: int, r: (Option<TilePosition>, Option<Command>)) -> bool {
    match goal {
        UnitOrUpgradeType::Unit(k) => match lookup_kind(world.unit_kinds@, k) {
            None => r.0.is_none() && r.1.is_none(),
            Some(info) => if info.is_building {
                &&& site_result(world, info, u.tile, bases, dw, dh, SEARCH_RANGE as int, r.0)
                &&& r.1 == match r.0 {
                    Some(t) => Some(Command::Build { unit_id: u.id, kind: k, tile: t }),
                    None => None,
                }
            } else {
                r.0.is_none() && r.1 == Some(Command::Train { unit_id: u.id, kind: k })
            },
        },
        UnitOrUpgradeType::Upgrade(k) => r.0.is_none() && r.1 == Some(Command::Research { unit_id: u.id, upgrade: k }),
    }
}

/// An order in which a builder is still on its way to, or at, the work.
pub open spec fn harmless(o: Order) -> bool {
    o == Order::Move || o == Order::PlaceBuilding || o == Order::ConstructingBuilding || o == Order::ResetCollision
}

/// The entity bound to `e`, if the world still lists it.
pub open spec fn bound_unit(e: BuildHistoryEntry, world: World) -> Option<Unit> {
    match e.assigned_unit_id {
        Some(id) => unit_by_id(world, id),
        None => None,
    }
}

/// The entity that the recovery pass issues `e`'s command to: its bound
/// entity when that one stalled, or a newly selected producer when the bound
/// one is gone; nothing otherwise.
pub open spec fn restart_target(e: BuildHistoryEntry, world: World, ledger: Seq<BuildHistoryEntry>) -> Option<Unit> {
    if e.status != BuildStatus::Assigned {
        None
    } else {
        match bound_unit(e, world) {
            Some(u) => if !performing(u, e.goal) && !harmless(u.order) {
                Some(u)
            } else {
                None
            },
            None => producer_unit(world, e.goal, ledger),
        }
    }
}

/// The entry after the recovery pass issued `r` for it.
pub open spec fn restarted(e: BuildHistoryEntry, u: Unit, r: (Option<TilePosition>, Option<Command>)) -> BuildHistoryEntry {
    BuildHistoryEntry {
        assigned_unit_id: Some(u.id),
        tile_position: if r.0.is_some() { r.0 } else { e.tile_position },
        ..e
    }
}

pub open spec fn opt_seq(c: Option<Command>) -> Seq<Command> {
    match c {
        Some(x) => seq![x],
        None => Seq::empty(),
    }
}

pub open spec fn assigned_at(ledger: Seq<BuildHistoryEntry>) -> spec_fn(int) -> bool {
    |i: int| ledger[i].status == BuildStatus::Assigned
}

/// Index of the first `Assigned` entry, or -1.
pub open spec fn first_assigned(ledger: Seq<BuildHistoryEntry>) -> int {
    first_index(assigned_at(ledger), ledger.len() as int)
}

/// The positions of the base locations, in order.
pub open spec fn positions(bases: Seq<BaseLocation>) -> Seq<TilePosition> {
    bases.map_values(|b: BaseLocation| b.position)
}

/// The active stage, if any is left.
pub open spec fn active_stage(state: GameState) -> Option<BuildStage> {
    stage_at(state.build_stages@, state.current_stage_index as int)
}

pub open spec fn stage_at(stages: Seq<BuildStage>, c: int) -> Option<BuildStage> {
    if 0 <= c < stages.len() {
        Some(stages[c])
    } else {
        None
    }
}

pub open spec fn goal_of(item: NextBuildItem) -> UnitOrUpgradeType {
    match item {
        NextBuildItem::Unit(k) => UnitOrUpgradeType::Unit(k),
        NextBuildItem::Upgrade(k) => UnitOrUpgradeType::Upgrade(k),
    }
}

/// The state keeps everything but the ledger.
pub open spec fn same_but_ledger(a: GameState, b: GameState) -> bool {
    &&& a.build_stages == b.build_stages
    &&& a.current_stage_index == b.current_stage_index
    &&& a.base_locations == b.base_locations
    &&& a.supply_kind == b.supply_kind
    &&& a.depot_kind == b.depot_kind
    &&& a.stage_item_status == b.stage_item_status
    &&& a.worker_refinery_assignments == b.worker_refinery_assignments
}

/// The recovery pass: the `Assigned` entry, if any, restarted when its
/// entity stalled or is gone.
pub open spec fn restart_ok(old_ledger: Seq<BuildHistoryEntry>, new_ledger: Seq<BuildHistoryEntry>, world: World, bases: Seq<TilePosition>, dw: int, dh: int, cmds: Seq<Command>) -> bool {
    let i = first_assigned(old_ledger);
    if i < 0 {
        new_ledger == old_ledger && cmds.len() == 0
    } else {
        match restart_target(old_ledger[i], world, old_ledger) {
            None => new_ledger == old_ledger && cmds.len() == 0,
            Some(u) => exists|r: (Option<TilePosition>, Option<Command>)|
                #[trigger] issue_ok(world, old_ledger[i].goal, u, bases, dw, dh, r)
                    && new_ledger == old_ledger.update(i, restarted(old_ledger[i], u, r)) && cmds == opt_seq(r.1),
        }
    }
}

/// The assignment engine: the selected item is bound to the first eligible
/// producer and recorded as `Assigned`.
pub open spec fn assign_ok(state: GameState, new_ledger: Seq<BuildHistoryEntry>, world: World, cmds: Seq<Command>) -> bool {
    assign_parts(
        state.build_stages@,
        state.current_stage_index as int,
        state.supply_kind,
        state.depot_kind,
        positions(state.base_locations@),
        state.unit_build_history@,
        new_ledger,
        world,
        cmds,
    )
}

/// `assign_ok` over the parts of the state it reads.
pub open spec fn assign_parts(stages: Seq<BuildStage>, cursor: int, supply_kind: u32, depot_kind: u32, bases: Seq<TilePosition>, ledger: Seq<BuildHistoryEntry>, new_ledger: Seq<BuildHistoryEntry>, world: World, cmds: Seq<Command>) -> bool {
    let (dw, dh) = depot_dims(world, depot_kind);
    match select_item(stage_at(stages, cursor), world, ledger, supply_kind) {
        None => new_ledger == ledger && cmds.len() == 0,
        Some(item) => match producer_unit(world, goal_of(item), ledger) {
            None => new_ledger == ledger && cmds.len() == 0,
            Some(u) => exists|r: (Option<TilePosition>, Option<Command>)|
                #[trigger] issue_ok(world, goal_of(item), u, bases, dw, dh, r)
                    && new_ledger == ledger.push(BuildHistoryEntry {
                        goal: goal_of(item),
                        assigned_unit_id: Some(u.id),
                        tile_position: r.0,
                        status: BuildStatus::Assigned,
                    }) && cmds == opt_seq(r.1),
        },
    }
}

/// Progress detection over the whole ledger.
pub open spec fn progressed_all(ledger: Seq<BuildHistoryEntry>, world: World) -> Seq<BuildHistoryEntry> {
    Seq::new(ledger.len(), |i: int| progressed(ledger[i], world))
}

/// The status table of stage `c`, empty past the last stage.
pub open spec fn status_table(stages: Seq<BuildStage>, c: int, world: World, ledger: Seq<BuildHistoryEntry>) -> Seq<(UnitOrUpgradeType, WantToBuildStatus)> {
    match stage_at(stages, c) {
        Some(st) => stage_statuses(st, world, ledger),
        None => Seq::empty(),
    }
}

/// One tick, phase by phase: completions, progress, the advancer and the
/// status table, then the recovery pass and the assignment engine, whose
/// commands come out in that order.
pub open spec fn tick_ok(s0: GameState, world: World, s: GameState, cmds: Seq<Command>) -> bool {
    let l1 = after_created(s0.unit_build_history@, world.created@, world.created@.len() as int);
    let l2 = progressed_all(l1, world);
    let c = advance_cursor(s0.build_stages@, s0.current_stage_index as int, world, l2);
    let bases = positions(s0.base_locations@);
    let dims = depot_dims(world, s0.depot_kind);
    &&& s.current_stage_index == c
    &&& s.stage_item_status@ == status_table(s0.build_stages@, c, world, l2)
    &&& exists|l3: Seq<BuildHistoryEntry>, c1: Seq<Command>, c2: Seq<Command>|
        #[trigger] restart_ok(l2, l3, world, bases, dims.0, dims.1, c1)
            && #[trigger] assign_parts(s0.build_stages@, c, s0.supply_kind, s0.depot_kind, bases, l3, s.unit_build_history@, world, c2)
            && cmds == c1 + c2
}

fn depot_footprint(world: &World, depot_kind: u32) -> (r: (i32, i32))
    ensures
        r.0 as int == depot_dims(*world, depot_kind).0,
        r.1 as int == depot_dims(*world, depot_kind).1,
{
    match find_kind(&world.unit_kinds, depot_kind) {
        Some(info) => (info.width, info.height),
        None => (0, 0),
    }
}

fn find_producer(world: &World, goal: UnitOrUpgradeType, ledger: &Vec<BuildHistoryEntry>) -> (r: Option<Unit>)
    ensures
        r == producer_unit(*world, goal, ledger@),
{
    let info = match goal {
        UnitOrUpgradeType::Unit(k) => find_kind(&world.unit_kinds, k),
        UnitOrUpgradeType::Upgrade(k) => find_kind(&world.upgrade_kinds, k),
    };
    match info {
        Some(info) => match find_builder_for_unit(world, info.producer, ledger) {
            Some(i) => {
                proof {
                    lemma_first_index(
                        crate::status::eligible_at(world.units@, info.producer, ledger@),
                        world.units@.len() as int,
                    );
                }
                Some(world.units[i])
            },
            None => None,
        },
        None => None,
    }
}

/// Issues `goal` to `u`: runs the location search for buildings.
fn issue_command(world: &World, goal: UnitOrUpgradeType, u: &Unit, bases: &Vec<TilePosition>, dw: i32, dh: i32) -> (r: (Option<TilePosition>, Option<Command>))
    ensures
        issue_ok(*world, goal, *u, bases@, dw as int, dh as int, r),
{
    match goal {
        UnitOrUpgradeType::Unit(k) => match find_kind(&world.unit_kinds, k) {
            None => (None, None),
            Some(info) => if info.is_building {
                let site = find_build_location_default(world, info, u.tile, bases, dw, dh);
                match site {
                    Some(t) => (site, Some(Command::Build { unit_id: u.id, kind: k, tile: t })),
                    None => (None, None),
                }
            } else {
                (None, Some(Command::Train { unit_id: u.id, kind: k }))
            },
        },
        UnitOrUpgradeType::Upgrade(k) => (None, Some(Command::Research { unit_id: u.id, upgrade: k })),
    }
}

fn is_harmless(o: Order) -> (r: bool)
    ensures
        r == harmless(o),
{
    o == Order::Move || o == Order::PlaceBuilding || o == Order::ConstructingBuilding || o == Order::ResetCollision
}

fn find_restart_target(e: &BuildHistoryEntry, world: &World, ledger: &Vec<BuildHistoryEntry>) -> (r: Option<Unit>)
    ensures
        r == restart_target(*e, *world, ledger@),
{
    if e.status != BuildStatus::Assigned {
        return None;
    }
    let bound = match e.assigned_unit_id {
        Some(id) => find_unit(world, id),
        None => None,
    };
    match bound {
        Some(u) => if !is_performing(&u, e.goal) && !is_harmless(u.order) {
            Some(u)
        } else {
            None
        },
        None => find_producer(world, e.goal, ledger),
    }
}

pub proof fn lemma_push_first_assigned(s: Seq<BuildHistoryEntry>, e: BuildHistoryEntry)
    requires
        !any_assigned(s),
    ensures
        at_most_one_assigned(s.push(e)),
{
    let t = s.push(e);
    assert forall|a: int, b: int|
        0 <= a < t.len() && 0 <= b < t.len() && (#[trigger] t[a]).status == BuildStatus::Assigned
            && (#[trigger] t[b]).status == BuildStatus::Assigned implies a == b by {
        if a < s.len() {
            assert(t[a] == s[a]);
        }
        if b < s.len() {
            assert(t[b] == s[b]);
        }
    }
}

/// Whether the stage's goals are all met.
pub fn stage_done(stage: &BuildStage, world: &World, ledger: &Vec<BuildHistoryEntry>) -> (r: bool)
    ensures
        r == stage_complete(*stage, *world, ledger@),
{
    let mut j: usize = 0;
    while j < stage.desired_counts.len()
        invariant
            j <= stage.desired_counts@.len(),
            forall|k: int| 0 <= k < j ==>
                units_of(*world, (#[trigger] stage.desired_counts@[k]).0) >= stage.desired_counts@[k].1 as nat,
        decreases stage.desired_counts.len() - j,
    {
        let (kind, want) = stage.desired_counts[j];
        if count_units_of_type(world, kind) < want as usize {
            return false;
        }
        j = j + 1;
    }
    let mut k: usize = 0;
    while k < stage.desired_upgrades.len()
        invariant
            k <= stage.desired_upgrades@.len(),
            forall|m: int| 0 <= m < k ==> upgrade_started(ledger@, #[trigger] stage.desired_upgrades@[m]),
        decreases stage.desired_upgrades.len() - k,
    {
        if !crate::status::is_upgrade_started(ledger, stage.desired_upgrades[k]) {
            return false;
        }
        k = k + 1;
    }
    true
}

impl GameState {
    /// The stage advancer: moves the cursor on by one once the active stage
    /// is complete.
    pub fn check_and_advance_stage(&mut self, world: &World)
        requires
            old(self).wf(),
        ensures
            final(self).wf(),
            final(self).current_stage_index == advanced(*old(self), *world),
            final(self).unit_build_history == old(self).unit_build_history,
            final(self).build_stages == old(self).build_stages,
            final(self).base_locations == old(self).base_locations,
            final(self).supply_kind == old(self).supply_kind,
            final(self).depot_kind == old(self).depot_kind,
            final(self).stage_item_status == old(self).stage_item_status,
            final(self).worker_refinery_assignments == old(self).worker_refinery_assignments,
    {
        let c = self.current_stage_index;
        if c < self.build_stages.len() && stage_done(&self.build_stages[c], world, &self.unit_build_history) {
            self.current_stage_index = c + 1;
        }
    }

    /// Recomputes the status table of the active stage (empty once all
    /// stages are done).
    pub fn update_stage_item_status(&mut self, world: &World)
        requires
            old(self).wf(),
        ensures
            final(self).wf(),
            final(self).stage_item_status@ == match active_stage(*old(self)) {
                Some(st) => stage_statuses(st, *world, old(self).unit_build_history@),
                None => Seq::empty(),
            },
            final(self).unit_build_history == old(self).unit_build_history,
            final(self).build_stages == old(self).build_stages,
            final(self).current_stage_index == old(self).current_stage_index,
            final(self).base_locations == old(self).base_locations,
            final(self).supply_kind == old(self).supply_kind,
            final(self).depot_kind == old(self).depot_kind,
            final(self).worker_refinery_assignments == old(self).worker_refinery_assignments,
    {
        let table = if self.current_stage_index < self.build_stages.len() {
            get_status_for_stage_items(&self.build_stages[self.current_stage_index], world, &self.unit_build_history)
        } else {
            Vec::new()
        };
        self.stage_item_status = table;
    }

    /// The positions of the base locations.
    pub fn base_positions(&self) -> (r: Vec<TilePosition>)
        ensures
            r@ == positions(self.base_locations@),
    {
        let mut out: Vec<TilePosition> = Vec::new();
        let mut i: usize = 0;
        while i < self.base_locations.len()
            invariant
                i <= self.base_locations@.len(),
                out@.len() == i,
                forall|j: int| 0 <= j < i ==> out@[j] == (#[trigger] self.base_locations@[j]).position,
            decreases self.base_locations.len() - i,
        {
            out.push(self.base_locations[i].position);
            i = i + 1;
        }
        proof {
            assert(out@ =~= positions(self.base_locations@));
        }
        out
    }
}

fn first_assigned_index(ledger: &Vec<BuildHistoryEntry>) -> (r: Option<usize>)
    ensures
        match r {
            Some(i) => i == first_assigned(ledger@),
            None => first_assigned(ledger@) == -1,
        },
{
    let ghost p = assigned_at(ledger@);
    let n = ledger.len();
    proof {
        lemma_first_index(p, n as int);
    }
    let mut i: usize = 0;
    while i < n && ledger[i].status != BuildStatus::Assigned
        invariant
            i <= n,
            n == ledger@.len(),
            p == assigned_at(ledger@),
            first_index(p, i as int) == -1,
        decreases n - i,
    {
        proof {
            assert(!p(i as int));
        }
        i = i + 1;
    }
    if i < n {
        proof {
            assert(p(i as int));
            assert(first_index(p, i + 1) == i);
            lemma_first_index_stays(p, i + 1, n as int);
        }
        Some(i)
    } else {
        None
    }
}

fn to_goal(item: NextBuildItem) -> (r: UnitOrUpgradeType)
    ensures
        r == goal_of(item),
{
    match item {
        NextBuildItem::Unit(k) => UnitOrUpgradeType::Unit(k),
        NextBuildItem::Upgrade(k) => UnitOrUpgradeType::Upgrade(k),
    }
}

impl GameState {
    /// The recovery pass: the `Assigned` entry whose entity stalled gets its
    /// command again (with a fresh site for buildings); one whose entity is
    /// gone is bound to a newly selected producer.
    pub fn try_restart_failed_builing_builds(&mut self, world: &World) -> (cmds: Vec<Command>)
        requires
            old(self).wf(),
        ensures
            final(self).wf(),
            same_but_ledger(*old(self), *final(self)),
            restart_ok(
                old(self).unit_build_history@,
                final(self).unit_build_history@,
                *world,
                positions(old(self).base_locations@),
                depot_dims(*world, old(self).depot_kind).0,
                depot_dims(*world, old(self).depot_kind).1,
                cmds@,
            ),
    {
        let ghost old_ledger = self.unit_build_history@;
        let mut cmds: Vec<Command> = Vec::new();
        let i = match first_assigned_index(&self.unit_build_history) {
            Some(i) => i,
            None => {
                return cmds;
            },
        };
        proof {
            lemma_first_index(assigned_at(old_ledger), old_ledger.len() as int);
        }
        let e = self.unit_build_history[i];
        let target = find_restart_target(&e, world, &self.unit_build_history);
        let u = match target {
            Some(u) => u,
            None => {
                return cmds;
            },
        };
        let bases = self.base_positions();
        let (dw, dh) = depot_footprint(world, self.depot_kind);
        let r = issue_command(world, e.goal, &u, &bases, dw, dh);
        let tile = if r.0.is_some() { r.0 } else { e.tile_position };
        let e2 = BuildHistoryEntry { assigned_unit_id: Some(u.id), tile_position: tile, ..e };
        self.unit_build_history.set(i, e2);
        if let Some(c) = r.1 {
            cmds.push(c);
        }
        proof {
            assert(e2 == restarted(e, u, r));
            assert(cmds@ =~= opt_seq(r.1));
            assert(issue_ok(*world, old_ledger[i as int].goal, u, positions(self.base_locations@),
                depot_dims(*world, self.depot_kind).0, depot_dims(*world, self.depot_kind).1, r));
            let s = self.unit_build_history@;
            assert forall|a: int, b: int|
                0 <= a < s.len() && 0 <= b < s.len() && (#[trigger] s[a]).status == BuildStatus::Assigned
                    && (#[trigger] s[b]).status == BuildStatus::Assigned implies a == b by {
                assert(s[a].status == old_ledger[a].status);
                assert(s[b].status == old_ledger[b].status);
            }
        }
        cmds
    }

    /// The assignment engine: binds the selected item to the first eligible
    /// producer, records an `Assigned` entry and hands back the command.
    pub fn try_start_next_build(&mut self, world: &World) -> (cmds: Vec<Command>)
        requires
            old(self).wf(),
        ensures
            final(self).wf(),
            same_but_ledger(*old(self), *final(self)),
            assign_ok(*old(self), final(self).unit_build_history@, *world, cmds@),
    {
        let ghost old_state = *self;
        let mut cmds: Vec<Command> = Vec::new();
        let stage = if self.current_stage_index < self.build_stages.len() {
            Some(&self.build_stages[self.current_stage_index])
        } else {
            None
        };
        let item = match get_next_thing_to_build(stage, world, &self.unit_build_history, self.supply_kind) {
            Some(item) => item,
            None => {
                return cmds;
            },
        };
        let goal = to_goal(item);
        let u = match find_producer(world, goal, &self.unit_build_history) {
            Some(u) => u,
            None => {
                return cmds;
            },
        };
        let bases = self.base_positions();
        let (dw, dh) = depot_footprint(world, self.depot_kind);
        let r = issue_command(world, goal, &u, &bases, dw, dh);
        let entry = BuildHistoryEntry {
            goal,
            assigned_unit_id: Some(u.id),
            tile_position: r.0,
            status: BuildStatus::Assigned,
        };
        proof {
            lemma_push_first_assigned(self.unit_build_history@, entry);
        }
        self.unit_build_history.push(entry);
        if let Some(c) = r.1 {
            cmds.push(c);
        }
        proof {
            assert(cmds@ =~= opt_seq(r.1));
            assert(issue_ok(*world, goal_of(item), u, positions(old_state.base_locations@),
                depot_dims(*world, old_state.depot_kind).0, depot_dims(*world, old_state.depot_kind).1, r));
        }
        cmds
    }
}

impl GameState {
    /// One tick: completion and progress detection, the stage advancer, the
    /// status table, the recovery pass, then the assignment engine. Returns
    /// the commands to issue, recovery first.
    pub fn on_frame(&mut self, world: &World) -> (cmds: Vec<Command>)
        requires
            old(self).wf(),
        ensures
            final(self).wf(),
            at_most_one_assigned(final(self).unit_build_history@),
            old(self).current_stage_index <= final(self).current_stage_index,
            final(self).current_stage_index <= old(self).current_stage_index + 1,
            final(self).current_stage_index <= final(self).build_stages@.len(),
            final(self).build_stages == old(self).build_stages,
            final(self).base_locations == old(self).base_locations,
            final(self).supply_kind == old(self).supply_kind,
            final(self).depot_kind == old(self).depot_kind,
            final(self).worker_refinery_assignments == old(self).worker_refinery_assignments,
            tick_ok(*old(self), *world, *final(self), cmds@),
    {
        let ghost s0 = *self;
        self.record_created(world);
        let ghost l1 = self.unit_build_history@;
        self.check_if_building_started(world);
        let ghost l2 = self.unit_build_history@;
        proof {
            assert(l2 =~= progressed_all(l1, *world));
        }
        self.check_and_advance_stage(world);
        self.update_stage_item_status(world);
        let mut cmds = self.try_restart_failed_builing_builds(world);
        let ghost l3 = self.unit_build_history@;
        let ghost c1 = cmds@;
        let mut more = self.try_start_next_build(world);
        let ghost c2 = more@;
        cmds.append(&mut more);
        proof {
            let dims = depot_dims(*world, s0.depot_kind);
            assert(restart_ok(l2, l3, *world, positions(s0.base_locations@), dims.0, dims.1, c1));
            assert(cmds@ == c1 + c2);
        }
        cmds
    }
}

/// The stage advancer never moves the cursor back, moves it on by at most
/// one, and never past the number of stages.
pub proof fn stage_cursor_is_monotonic(state: GameState, world: World)
    requires
        state.wf(),
    ensures
        state.current_stage_index <= advanced(state, world) <= state.current_stage_index + 1,
        advanced(state, world) <= state.build_stages@.len(),
{
}

impl GameState {
    /// Match start: precomputes the base locations for the depot kind
    /// (none when the world does not describe that kind).
    pub fn on_start(&mut self, world: &World)
        requires
            old(self).wf(),
        ensures
            final(self).wf(),
            final(self).unit_build_history == old(self).unit_build_history,
            final(self).build_stages == old(self).build_stages,
            final(self).current_stage_index == old(self).current_stage_index,
            final(self).stage_item_status == old(self).stage_item_status,
            final(self).supply_kind == old(self).supply_kind,
            final(self).depot_kind == old(self).depot_kind,
            final(self).worker_refinery_assignments == old(self).worker_refinery_assignments,
            match lookup_kind(world.unit_kinds@, old(self).depot_kind) {
                Some(depot) => exists|st: Option<TilePosition>, cv: Seq<Seq<usize>>, sites: Seq<TilePosition>|
                    #[trigger] crate::bases::base_plan(*world, depot, st, cv, sites)
                        && crate::bases::base_result(*world, depot, st, sites, final(self).base_locations@),
                None => final(self).base_locations@.len() == 0,
            },
    {
        self.base_locations = match find_kind(&world.unit_kinds, self.depot_kind) {
            Some(depot) => crate::bases::get_base_locations(world, depot),
            None => Vec::new(),
        };
    }
}

/// An `Assigned` entry whose bound entity is seen idle, and not doing the
/// work, is restarted on that entity: the recovery pass reissues its command
/// and, for a building whose site search succeeds, records the new tile.
pub proof fn idle_builder_is_restarted(ledger: Seq<BuildHistoryEntry>, new_ledger: Seq<BuildHistoryEntry>, world: World, bases: Seq<TilePosition>, dw: int, dh: int, cmds: Seq<Command>, u: Unit)
    requires
        at_most_one_assigned(ledger),
        0 <= first_assigned(ledger),
        bound_unit(ledger[first_assigned(ledger)], world) == Some(u),
        u.order == Order::Idle,
        !performing(u, ledger[first_assigned(ledger)].goal),
        restart_ok(ledger, new_ledger, world, bases, dw, dh, cmds),
    ensures
        ({
            let i = first_assigned(ledger);
            exists|r: (Option<TilePosition>, Option<Command>)|
                #[trigger] issue_ok(world, ledger[i].goal, u, bases, dw, dh, r)
                    && new_ledger == ledger.update(i, restarted(ledger[i], u, r))
                    && cmds == opt_seq(r.1)
                    && (r.0.is_some() ==> new_ledger[i].tile_position == r.0)
        }),
{
    let i = first_assigned(ledger);
    lemma_first_index(assigned_at(ledger), ledger.len() as int);
    assert(restart_target(ledger[i], world, ledger) == Some(u));
    let r = choose|r: (Option<TilePosition>, Option<Command>)|
        #[trigger] issue_ok(world, ledger[i].goal, u, bases, dw, dh, r)
            && new_ledger == ledger.update(i, restarted(ledger[i], u, r)) && cmds == opt_seq(r.1);
    assert(new_ledger[i] == restarted(ledger[i], u, r));
}

/// The reporting snapshot of the status table.
#[derive(Clone, Debug)]
pub struct BuildStatusData {
    pub stage_name: String,
    pub stage_index: usize,
    pub item_status: Vec<(UnitOrUpgradeType, WantToBuildStatus)>,
}

impl GameState {
    /// The read-only snapshot the reporting layer copies out under the lock:
    /// the active stage's name ("Unknown" past the last stage), the cursor
    /// and the status table.
    pub fn build_status(&self) -> (r: BuildStatusData)
        ensures
            r.stage_index == self.current_stage_index,
            r.item_status@ == self.stage_item_status@,
            match active_stage(*self) {
                Some(st) => r.stage_name@ == st.name@,
                None => r.stage_name@ == "Unknown"@,
            },
    {
        let stage_name = if self.current_stage_index < self.build_stages.len() {
            self.build_stages[self.current_stage_index].name.clone()
        } else {
            "Unknown".to_owned()
        };
        let mut items: Vec<(UnitOrUpgradeType, WantToBuildStatus)> = Vec::new();
        let mut i: usize = 0;
        while i < self.stage_item_status.len()
            invariant
                i <= self.stage_item_status@.len(),
                items@ == self.stage_item_status@.subrange(0, i as int),
            decreases self.stage_item_status.len() - i,
        {
            items.push(self.stage_item_status[i]);
            proof {
                assert(items@ =~= self.stage_item_status@.subrange(0, i + 1));
            }
            i = i + 1;
        }
        proof {
            assert(items@ =~= self.stage_item_status@);
        }
        BuildStatusData { stage_name, stage_index: self.current_stage_index, item_status: items }
    }
}

proof fn lemma_after_created_keeps_one(l: Seq<BuildHistoryEntry>, created: Seq<u32>, n: int)
    requires
        at_most_one_assigned(l),
        0 <= n <= created.len(),
    ensures
        at_most_one_assigned(after_created(l, created, n)),
    decreases n,
{
    if n > 0 {
        lemma_after_created_keeps_one(l, created, n - 1);
        let prev = after_created(l, created, n - 1);
        let i = first_index(goal_is_unit(prev, created[n - 1]), prev.len() as int);
        lemma_first_index(goal_is_unit(prev, created[n - 1]), prev.len() as int);
        if i >= 0 {
            lemma_remove_keeps_one(prev, i);
        }
    }
}

proof fn lemma_progress_keeps_one(l: Seq<BuildHistoryEntry>, world: World)
    requires
        at_most_one_assigned(l),
    ensures
        at_most_one_assigned(progressed_all(l, world)),
{
    let t = progressed_all(l, world);
    assert forall|a: int, b: int|
        0 <= a < t.len() && 0 <= b < t.len() && (#[trigger] t[a]).status == BuildStatus::Assigned
            && (#[trigger] t[b]).status == BuildStatus::Assigned implies a == b by {
        assert(l[a].status == BuildStatus::Assigned);
        assert(l[b].status == BuildStatus::Assigned);
    }
}

proof fn lemma_restart_keeps_one(l: Seq<BuildHistoryEntry>, l2: Seq<BuildHistoryEntry>, world: World, bases: Seq<TilePosition>, dw: int, dh: int, cmds: Seq<Command>)
    requires
        at_most_one_assigned(l),
        restart_ok(l, l2, world, bases, dw, dh, cmds),
    ensures
        at_most_one_assigned(l2),
{
    let i = first_assigned(l);
    lemma_first_index(assigned_at(l), l.len() as int);
    if i >= 0 {
        if let Some(u) = restart_target(l[i], world, l) {
            let r = choose|r: (Option<TilePosition>, Option<Command>)|
                #[trigger] issue_ok(world, l[i].goal, u, bases, dw, dh, r)
                    && l2 == l.update(i, restarted(l[i], u, r)) && cmds == opt_seq(r.1);
            assert forall|a: int, b: int|
                0 <= a < l2.len() && 0 <= b < l2.len() && (#[trigger] l2[a]).status == BuildStatus::Assigned
                    && (#[trigger] l2[b]).status == BuildStatus::Assigned implies a == b by {
                assert(l2[a].status == l[a].status);
                assert(l2[b].status == l[b].status);
            }
        }
    }
}

proof fn lemma_assign_keeps_one(stages: Seq<BuildStage>, cursor: int, supply_kind: u32, depot_kind: u32, bases: Seq<TilePosition>, l: Seq<BuildHistoryEntry>, l2: Seq<BuildHistoryEntry>, world: World, cmds: Seq<Command>)
    requires
        at_most_one_assigned(l),
        assign_parts(stages, cursor, supply_kind, depot_kind, bases, l, l2, world, cmds),
    ensures
        at_most_one_assigned(l2),
{
    if let Some(item) = select_item(stage_at(stages, cursor), world, l, supply_kind) {
        if let Some(u) = producer_unit(world, goal_of(item), l) {
            let (dw, dh) = depot_dims(world, depot_kind);
            let r = choose|r: (Option<TilePosition>, Option<Command>)|
                #[trigger] issue_ok(world, goal_of(item), u, bases, dw, dh, r)
                    && l2 == l.push(BuildHistoryEntry {
                        goal: goal_of(item),
                        assigned_unit_id: Some(u.id),
                        tile_position: r.0,
                        status: BuildStatus::Assigned,
                    }) && cmds == opt_seq(r.1);
            lemma_push_first_assigned(l, BuildHistoryEntry {
                goal: goal_of(item),
                assigned_unit_id: Some(u.id),
                tile_position: r.0,
                status: BuildStatus::Assigned,
            });
        }
    }
}

/// A tick keeps at most one `Assigned` ledger entry, and moves the stage
/// cursor on by at most one, never back and never past the stage count.
pub proof fn tick_keeps_invariants(s0: GameState, world: World, s: GameState, cmds: Seq<Command>)
    requires
        at_most_one_assigned(s0.unit_build_history@),
        s0.current_stage_index <= s0.build_stages@.len(),
        s.build_stages == s0.build_stages,
        tick_ok(s0, world, s, cmds),
    ensures
        at_most_one_assigned(s.unit_build_history@),
        s0.current_stage_index <= s.current_stage_index <= s0.current_stage_index + 1,
        s.current_stage_index <= s.build_stages@.len(),
{
    let l1 = after_created(s0.unit_build_history@, world.created@, world.created@.len() as int);
    let l2 = progressed_all(l1, world);
    let bases = positions(s0.base_locations@);
    let dims = depot_dims(world, s0.depot_kind);
    let c = advance_cursor(s0.build_stages@, s0.current_stage_index as int, world, l2);
    lemma_after_created_keeps_one(s0.unit_build_history@, world.created@, world.created@.len() as int);
    lemma_progress_keeps_one(l1, world);
    let (l3, c1, c2) = choose|l3: Seq<BuildHistoryEntry>, c1: Seq<Command>, c2: Seq<Command>|
        #[trigger] restart_ok(l2, l3, world, bases, dims.0, dims.1, c1)
            && #[trigger] assign_parts(s0.build_stages@, c, s0.supply_kind, s0.depot_kind, bases, l3, s.unit_build_history@, world, c2)
            && cmds == c1 + c2;
    lemma_restart_keeps_one(l2, l3, world, bases, dims.0, dims.1, c1);
    lemma_assign_keeps_one(s0.build_stages@, c, s0.supply_kind, s0.depot_kind, bases, l3, s.unit_build_history@, world, c2);
}

/// Over any run of ticks from a well-formed state, the ledger never holds
/// two `Assigned` entries, and the stage cursor never decreases and never
/// exceeds the number of stages.
pub proof fn ticks_keep_invariants(states: Seq<GameState>, worlds: Seq<World>, cmds: Seq<Seq<Command>>)
    requires
        states.len() > 0,
        states[0].wf(),
        worlds.len() + 1 == states.len(),
        cmds.len() == worlds.len(),
        forall|i: int| 0 <= i < worlds.len() ==> (#[trigger] states[i + 1]).build_stages == states[i].build_stages
            && stages_wf(states[i + 1].build_stages@)
            && tick_ok(states[i], worlds[i], states[i + 1], cmds[i]),
    ensures
        forall|i: int| 0 <= i < states.len() ==> #[trigger] at_most_one_assigned(states[i].unit_build_history@),
        forall|i: int| 0 <= i < states.len() ==> (#[trigger] states[i]).current_stage_index <= states[i].build_stages@.len(),
        forall|i: int, j: int| 0 <= i <= j < states.len() ==>
            (#[trigger] states[i]).current_stage_index <= (#[trigger] states[j]).current_stage_index,
    decreases states.len(),
{
    if states.len() > 1 {
        let n = states.len() - 1;
        let prefix = states.subrange(0, n);
        ticks_keep_invariants(prefix, worlds.subrange(0, n - 1), cmds.subrange(0, n - 1));
        assert(prefix[n - 1] == states[n - 1]);
        let k = n - 1;
        assert(states[k + 1].build_stages == states[k].build_stages && tick_ok(states[k], worlds[k], states[k + 1], cmds[k]));
        tick_keeps_invariants(states[n - 1], worlds[n - 1], states[n], cmds[n - 1]);
        assert forall|i: int, j: int| 0 <= i <= j < states.len() implies
            (#[trigger] states[i]).current_stage_index <= (#[trigger] states[j]).current_stage_index by {
            if j < n {
                assert(prefix[i] == states[i] && prefix[j] == states[j]);
            } else if i < n {
                assert(prefix[i] == states[i] && prefix[n - 1] == states[n - 1]);
            }
        }
        assert forall|i: int| 0 <= i < states.len() implies #[trigger] at_most_one_assigned(states[i].unit_build_history@) by {
            if i < n {
                assert(prefix[i] == states[i]);
            }
        }
        assert forall|i: int| 0 <= i < states.len() implies (#[trigger] states[i]).current_stage_index <= states[i].build_stages@.len() by {
            if i < n {
                assert(prefix[i] == states[i]);
            }
        }
    }
}

/// A producer chosen for a goal, by the assignment engine or by the
/// recovery pass when an entry's entity is gone, passes the eligibility
/// predicate: no pending ledger entry holds it, so no command reaches an
/// entity that another entry is still waiting on.
pub proof fn chosen_producer_is_free(world: World, goal: UnitOrUpgradeType, ledger: Seq<BuildHistoryEntry>, u: Unit)
    requires
        producer_unit(world, goal, ledger) == Some(u),
    ensures
        !crate::status::bound_pending(ledger, u.id),
        crate::status::eligible(u, producer_for(world, goal).unwrap(), ledger),
{
    let p = producer_for(world, goal).unwrap();
    lemma_first_index(crate::status::eligible_at(world.units@, p, ledger), world.units@.len() as int);
}

/// When the entity bound to an entry is gone, the entity the recovery pass
/// turns to is free of every pending entry.
pub proof fn reselected_producer_is_free(e: BuildHistoryEntry, world: World, ledger: Seq<BuildHistoryEntry>, u: Unit)
    requires
        bound_unit(e, world).is_none(),
        restart_target(e, world, ledger) == Some(u),
    ensures
        !crate::status::bound_pending(ledger, u.id),
{
    chosen_producer_is_free(world, e.goal, ledger, u);
}

proof fn lemma_after_created_empty(created: Seq<u32>, n: int)
    requires
        0 <= n <= created.len(),
    ensures
        after_created(Seq::<BuildHistoryEntry>::empty(), created, n) == Seq::<BuildHistoryEntry>::empty(),
    decreases n,
{
    if n > 0 {
        lemma_after_created_empty(created, n - 1);
        lemma_first_index(goal_is_unit(Seq::<BuildHistoryEntry>::empty(), created[n - 1]), 0);
    }
}

/// A tick on an empty ledger whose active stage asks only for more of one
/// building kind, ready to be built, with the valve quiet and exactly one
/// viable tile in range of the chosen producer: the tick records exactly one
/// `Assigned` entry for that kind, bound to the producer and to that tile,
/// issues exactly the build command, and keeps the stage.
pub proof fn first_tick_assigns_the_goal(s0: GameState, world: World, s: GameState, cmds: Seq<Command>, kind: u32, want: u32, info: crate::model::KindInfo, p: Unit, t: TilePosition)
    requires
        s0.unit_build_history@.len() == 0,
        s0.current_stage_index < s0.build_stages@.len(),
        s0.build_stages@[s0.current_stage_index as int].desired_counts@ == seq![(kind, want)],
        s0.build_stages@[s0.current_stage_index as int].desired_upgrades@.len() == 0,
        units_of(world, kind) < want as nat,
        unit_status(world, Seq::empty(), kind, want) == WantToBuildStatus::ReadyToBuild,
        !valve(world, s0.supply_kind),
        lookup_kind(world.unit_kinds@, kind) == Some(info),
        info.is_building && !info.is_refinery && !info.is_depot,
        producer_unit(world, UnitOrUpgradeType::Unit(kind), Seq::empty()) == Some(p),
        viable(world, info, t, positions(s0.base_locations@), depot_dims(world, s0.depot_kind).0, depot_dims(world, s0.depot_kind).1),
        ring(t, p.tile) <= SEARCH_RANGE,
        forall|u: TilePosition| ring(u, p.tile) <= SEARCH_RANGE
            && #[trigger] viable(world, info, u, positions(s0.base_locations@), depot_dims(world, s0.depot_kind).0, depot_dims(world, s0.depot_kind).1)
            ==> u == t,
        tick_ok(s0, world, s, cmds),
    ensures
        s.unit_build_history@ == seq![BuildHistoryEntry {
            goal: UnitOrUpgradeType::Unit(kind),
            assigned_unit_id: Some(p.id),
            tile_position: Some(t),
            status: BuildStatus::Assigned,
        }],
        cmds == seq![Command::Build { unit_id: p.id, kind, tile: t }],
        s.current_stage_index == s0.current_stage_index,
{
    let empty = Seq::<BuildHistoryEntry>::empty();
    let st = s0.build_stages@[s0.current_stage_index as int];
    let bases = positions(s0.base_locations@);
    let dims = depot_dims(world, s0.depot_kind);
    assert(s0.unit_build_history@ =~= empty);
    lemma_after_created_empty(world.created@, world.created@.len() as int);
    let l2 = progressed_all(empty, world);
    assert(l2 =~= empty);
    assert(st.desired_counts@[0] == (kind, want));
    assert(!stage_complete(st, world, l2));
    let c = advance_cursor(s0.build_stages@, s0.current_stage_index as int, world, l2);
    assert(c == s0.current_stage_index);
    let (l3, c1, c2) = choose|l3: Seq<BuildHistoryEntry>, c1: Seq<Command>, c2: Seq<Command>|
        #[trigger] restart_ok(l2, l3, world, bases, dims.0, dims.1, c1)
            && #[trigger] assign_parts(s0.build_stages@, c, s0.supply_kind, s0.depot_kind, bases, l3, s.unit_build_history@, world, c2)
            && cmds == c1 + c2;
    lemma_first_index(assigned_at(l2), 0);
    assert(l3 == empty && c1.len() == 0);
    assert(!any_assigned(empty));
    lemma_first_index(crate::select::upgrade_ready_at(st, world, empty), 0);
    assert(best_unit(st, world, empty, 0) == -1);
    assert(crate::select::unit_ready(st, world, empty, 0));
    assert(best_unit(st, world, empty, 1) == 0);
    assert(select_item(stage_at(s0.build_stages@, c), world, l3, s0.supply_kind) == Some(NextBuildItem::Unit(kind)));
    let r = choose|r: (Option<TilePosition>, Option<Command>)|
        #[trigger] issue_ok(world, UnitOrUpgradeType::Unit(kind), p, bases, dims.0, dims.1, r)
            && s.unit_build_history@ == l3.push(BuildHistoryEntry {
                goal: UnitOrUpgradeType::Unit(kind),
                assigned_unit_id: Some(p.id),
                tile_position: r.0,
                status: BuildStatus::Assigned,
            }) && c2 == opt_seq(r.1);
    match r.0 {
        Some(t2) => {
            assert(t2 == t);
        },
        None => {
            assert(!viable(world, info, t, bases, dims.0, dims.1));
        },
    }
    assert(s.unit_build_history@ =~= seq![BuildHistoryEntry {
        goal: UnitOrUpgradeType::Unit(kind),
        assigned_unit_id: Some(p.id),
        tile_position: Some(t),
        status: BuildStatus::Assigned,
    }]);
    assert(cmds =~= seq![Command::Build { unit_id: p.id, kind, tile: t }]);
}

proof fn lemma_assign_pushes_assigned(stages: Seq<BuildStage>, cursor: int, supply_kind: u32, depot_kind: u32, bases: Seq<TilePosition>, l: Seq<BuildHistoryEntry>, l2: Seq<BuildHistoryEntry>, world: World, cmds: Seq<Command>)
    requires
        assign_parts(stages, cursor, supply_kind, depot_kind, bases, l, l2, world, cmds),
    ensures
        l2 == l || (l2.len() == l.len() + 1 && l2.subrange(0, l.len() as int) == l && l2.last().status == BuildStatus::Assigned),
{
    if let Some(item) = select_item(stage_at(stages, cursor), world, l, supply_kind) {
        if let Some(u) = producer_unit(world, goal_of(item), l) {
            let (dw, dh) = depot_dims(world, depot_kind);
            let r = choose|r: (Option<TilePosition>, Option<Command>)|
                #[trigger] issue_ok(world, goal_of(item), u, bases, dw, dh, r)
                    && l2 == l.push(BuildHistoryEntry {
                        goal: goal_of(item),
                        assigned_unit_id: Some(u.id),
                        tile_position: r.0,
                        status: BuildStatus::Assigned,
                    }) && cmds == opt_seq(r.1);
            assert(l2.subrange(0, l.len() as int) =~= l);
        }
    }
}

/// An `Assigned` entry whose bound entity is seen doing its work becomes
/// `Started` in that tick, and stays at the head of the ledger.
pub proof fn working_builder_starts_entry(s0: GameState, world: World, s: GameState, cmds: Seq<Command>, e: BuildHistoryEntry, u: Unit)
    requires
        s0.unit_build_history@ == seq![e],
        world.created@.len() == 0,
        e.status == BuildStatus::Assigned,
        bound_unit(e, world) == Some(u),
        performing(u, e.goal),
        tick_ok(s0, world, s, cmds),
    ensures
        s.unit_build_history@.len() >= 1,
        s.unit_build_history@[0] == (BuildHistoryEntry { status: BuildStatus::Started, ..e }),
{
    let l1 = after_created(s0.unit_build_history@, world.created@, 0);
    let l2 = progressed_all(l1, world);
    let e2 = BuildHistoryEntry { status: BuildStatus::Started, ..e };
    assert(l2 =~= seq![e2]);
    let bases = positions(s0.base_locations@);
    let dims = depot_dims(world, s0.depot_kind);
    let c = advance_cursor(s0.build_stages@, s0.current_stage_index as int, world, l2);
    let (l3, c1, c2) = choose|l3: Seq<BuildHistoryEntry>, c1: Seq<Command>, c2: Seq<Command>|
        #[trigger] restart_ok(l2, l3, world, bases, dims.0, dims.1, c1)
            && #[trigger] assign_parts(s0.build_stages@, c, s0.supply_kind, s0.depot_kind, bases, l3, s.unit_build_history@, world, c2)
            && cmds == c1 + c2;
    lemma_first_index(assigned_at(l2), 1);
    assert(l3 == l2);
    lemma_assign_pushes_assigned(s0.build_stages@, c, s0.supply_kind, s0.depot_kind, bases, l3, s.unit_build_history@, world, c2);
    if s.unit_build_history@ != l3 {
        assert(s.unit_build_history@[0] == s.unit_build_history@.subrange(0, 1)[0]);
    }
}

/// When the entity that the only ledger entry waits for is created and the
/// active stage's unit goal is met, that tick removes the entry and moves
/// the cursor on; whatever the ledger then holds was assigned in that tick.
pub proof fn creation_clears_entry_and_advances(s0: GameState, world: World, s: GameState, cmds: Seq<Command>, e: BuildHistoryEntry, kind: u32, want: u32)
    requires
        s0.unit_build_history@ == seq![e],
        e.goal == UnitOrUpgradeType::Unit(kind),
        world.created@ == seq![kind],
        s0.current_stage_index < s0.build_stages@.len(),
        s0.build_stages@[s0.current_stage_index as int].desired_counts@ == seq![(kind, want)],
        s0.build_stages@[s0.current_stage_index as int].desired_upgrades@.len() == 0,
        units_of(world, kind) >= want as nat,
        tick_ok(s0, world, s, cmds),
    ensures
        s.current_stage_index == s0.current_stage_index + 1,
        s.unit_build_history@.len() <= 1,
        forall|i: int| 0 <= i < s.unit_build_history@.len() ==> (#[trigger] s.unit_build_history@[i]).status == BuildStatus::Assigned,
{
    let empty = Seq::<BuildHistoryEntry>::empty();
    lemma_first_index(goal_is_unit(seq![e], kind), 1);
    assert(after_created(s0.unit_build_history@, world.created@, 0) == seq![e]);
    assert(seq![e].remove(0) =~= empty);
    let l1 = after_created(s0.unit_build_history@, world.created@, 1);
    assert(l1 == empty);
    let l2 = progressed_all(l1, world);
    assert(l2 =~= empty);
    let st = s0.build_stages@[s0.current_stage_index as int];
    assert(st.desired_counts@[0] == (kind, want));
    assert(stage_complete(st, world, l2));
    let bases = positions(s0.base_locations@);
    let dims = depot_dims(world, s0.depot_kind);
    let c = advance_cursor(s0.build_stages@, s0.current_stage_index as int, world, l2);
    let (l3, c1, c2) = choose|l3: Seq<BuildHistoryEntry>, c1: Seq<Command>, c2: Seq<Command>|
        #[trigger] restart_ok(l2, l3, world, bases, dims.0, dims.1, c1)
            && #[trigger] assign_parts(s0.build_stages@, c, s0.supply_kind, s0.depot_kind, bases, l3, s.unit_build_history@, world, c2)
            && cmds == c1 + c2;
    lemma_first_index(assigned_at(l2), 0);
    assert(l3 == empty);
    lemma_assign_pushes_assigned(s0.build_stages@, c, s0.supply_kind, s0.depot_kind, bases, l3, s.unit_build_history@, world, c2);
}

} // verus!
