use vstd::prelude::*;
use crate::model::{
    find_kind, first_index, lemma_first_index, lemma_first_index_stays, lookup_kind, BuildHistoryEntry,
    BuildStatus, KindInfo, NextBuildItem, World,
};
use crate::stages::BuildStage;
use crate::status::{
    affordable, can_afford_unit, count_completed, count_completed_units_of_type, count_kind,
    count_units_of_type, completed_of, get_status_for_stage_items, stage_statuses, unit_status,
    units_of, upgrade_status, WantToBuildStatus,
};

verus! {

/// Some ledger entry is still `Assigned`.
pub open spec fn any_assigned(ledger: Seq<BuildHistoryEntry>) -> bool {
    exists|i: int| 0 <= i < ledger.len() && (#[trigger] ledger[i]).status == BuildStatus::Assigned
}

/// Capacity that is already on its way: incomplete capacity structures.
pub open spec fn pending_capacity(world: World, supply: KindInfo) -> int {
    (units_of(world, supply.id) - completed_of(world, supply.id)) * supply.capacity
}

/// Remaining capacity is under 15% of the capacity total (counting what is
/// under construction), or at most one unit.
pub open spec fn capacity_low(world: World, supply: KindInfo) -> bool {
    let total = world.resources.capacity_total + pending_capacity(world, supply);
    let headroom = total - world.resources.capacity_used;
    world.resources.capacity_total > 0 && (headroom * 20 < total * 3 || headroom <= 1)
}

/// The capacity safety valve fires: capacity is low and the capacity
/// structure is affordable.
pub open spec fn valve(world: World, supply_kind: u32) -> bool {
    match lookup_kind(world.unit_kinds@, supply_kind) {
        Some(info) => capacity_low(world, info) && affordable(world, info),
        None => false,
    }
}

/// Combined price of a unit kind (zero for a kind the world does not describe).
pub open spec fn unit_price(world: World, kind: u32) -> int {
    match lookup_kind(world.unit_kinds@, kind) {
        Some(info) => info.mineral_price + info.gas_price,
        None => 0,
    }
}

pub open spec fn unit_ready(stage: BuildStage, world: World, ledger: Seq<BuildHistoryEntry>, i: int) -> bool {
    unit_status(world, ledger, stage.desired_counts@[i].0, stage.desired_counts@[i].1)
        == WantToBuildStatus::ReadyToBuild
}

pub open spec fn goal_price(stage: BuildStage, world: World, i: int) -> int {
    unit_price(world, stage.desired_counts@[i].0)
}

/// Among the first `n` unit goals, the first `Ready` one of the highest
/// combined price, or -1.
pub open spec fn best_unit(stage: BuildStage, world: World, ledger: Seq<BuildHistoryEntry>, n: int) -> int
    decreases n,
{
    if n <= 0 {
        -1
    } else {
        let b = best_unit(stage, world, ledger, n - 1);
        if unit_ready(stage, world, ledger, n - 1) && (b < 0 || goal_price(stage, world, n - 1) > goal_price(stage, world, b)) {
            n - 1
        } else {
            b
        }
    }
}

pub open spec fn upgrade_ready_at(stage: BuildStage, world: World, ledger: Seq<BuildHistoryEntry>) -> spec_fn(int) -> bool {
    |j: int| upgrade_status(world, ledger, stage.desired_upgrades@[j]) == WantToBuildStatus::ReadyToBuild
}

/// What the stage's own goals ask for: the first ready upgrade, else the
/// dearest ready unit goal.
pub open spec fn stage_pick(stage: BuildStage, world: World, ledger: Seq<BuildHistoryEntry>) -> Option<NextBuildItem> {
    let up = first_index(upgrade_ready_at(stage, world, ledger), stage.desired_upgrades@.len() as int);
    if up >= 0 {
        Some(NextBuildItem::Upgrade(stage.desired_upgrades@[up]))
    } else {
        let b = best_unit(stage, world, ledger, stage.desired_counts@.len() as int);
        if b >= 0 {
            Some(NextBuildItem::Unit(stage.desired_counts@[b].0))
        } else {
            None
        }
    }
}

/// The selector: nothing while an assignment is pending; then the capacity
/// valve; then the active stage's goals.
pub open spec fn select_item(stage: Option<BuildStage>, world: World, ledger: Seq<BuildHistoryEntry>, supply_kind: u32) -> Option<NextBuildItem> {
    if any_assigned(ledger) {
        None
    } else if valve(world, supply_kind) {
        Some(NextBuildItem::Unit(supply_kind))
    } else {
        match stage {
            Some(st) => stage_pick(st, world, ledger),
            None => None,
        }
    }
}

proof fn lemma_best_unit_bounds(stage: BuildStage, world: World, ledger: Seq<BuildHistoryEntry>, n: int)
    requires
        0 <= n <= stage.desired_counts@.len(),
    ensures
        -1 <= best_unit(stage, world, ledger, n) < n,
        best_unit(stage, world, ledger, n) >= 0 ==> unit_ready(stage, world, ledger, best_unit(stage, world, ledger, n)),
    decreases n,
{
    if n > 0 {
        lemma_best_unit_bounds(stage, world, ledger, n - 1);
    }
}

proof fn lemma_count_completed_le(units: Seq<crate::model::Unit>, kind: u32, n: int)
    requires
        0 <= n,
    ensures
        count_completed(units, kind, n) <= count_kind(units, kind, n),
        count_kind(units, kind, n) <= n,
    decreases n,
{
    if n > 0 {
        lemma_count_completed_le(units, kind, n - 1);
    }
}

/// Whether remaining capacity is low (see `capacity_low`).
pub fn need_more_supply(world: &World, supply: &KindInfo) -> (r: bool)
    ensures
        r == capacity_low(*world, *supply),
{
    let all = count_units_of_type(world, supply.id);
    let done = count_completed_units_of_type(world, supply.id);
    proof {
        lemma_count_completed_le(world.units@, supply.id, world.units@.len() as int);
    }
    let incomplete: u128 = (all - done) as u128;
    let cap: u128 = supply.capacity as u128;
    assert(incomplete * cap <= 0xffff_ffff_ffff_ffffu128 * 0xffff_ffffu128) by (nonlinear_arith)
        requires
            incomplete <= 0xffff_ffff_ffff_ffffu128,
            cap <= 0xffff_ffffu128,
    ;
    let pending: u128 = incomplete * cap;
    let total: u128 = world.resources.capacity_total as u128 + pending;
    let used: u128 = world.resources.capacity_used as u128;
    if world.resources.capacity_total == 0 {
        return false;
    }
    if used >= total {
        return true;
    }
    let headroom: u128 = total - used;
    assert(headroom <= total);
    headroom * 20 < total * 3 || headroom <= 1
}

fn valve_fires(world: &World, supply_kind: u32) -> (r: bool)
    ensures
        r == valve(*world, supply_kind),
{
    match find_kind(&world.unit_kinds, supply_kind) {
        Some(info) => need_more_supply(world, info) && can_afford_unit(world, info),
        None => false,
    }
}

fn has_assigned(ledger: &Vec<BuildHistoryEntry>) -> (r: bool)
    ensures
        r == any_assigned(ledger@),
{
    let mut i: usize = 0;
    while i < ledger.len()
        invariant
            i <= ledger.len(),
            forall|j: int| 0 <= j < i ==> (#[trigger] ledger@[j]).status != BuildStatus::Assigned,
        decreases ledger.len() - i,
    {
        if ledger[i].status == BuildStatus::Assigned {
            return true;
        }
        i = i + 1;
    }
    false
}

fn price_of(world: &World, kind: u32) -> (r: u64)
    ensures
        r == unit_price(*world, kind),
{
    match find_kind(&world.unit_kinds, kind) {
        Some(info) => info.mineral_price as u64 + info.gas_price as u64,
        None => 0,
    }
}

fn pick_from_stage(stage: &BuildStage, world: &World, ledger: &Vec<BuildHistoryEntry>) -> (r: Option<NextBuildItem>)
    ensures
        r == stage_pick(*stage, *world, ledger@),
{
    let table = get_status_for_stage_items(stage, world, ledger);
    let nu = stage.desired_counts.len();
    let ghost p = upgrade_ready_at(*stage, *world, ledger@);
    let nup = stage.desired_upgrades.len();
    proof {
        lemma_first_index(p, nup as int);
    }
    let tl = table.len();
    assert(tl == nu + nup);
    let mut j: usize = 0;
    while j < nup
        invariant
            j <= nup,
            nup == stage.desired_upgrades@.len(),
            nu == stage.desired_counts@.len(),
            tl == nu + nup,
            tl == table@.len(),
            table@ == stage_statuses(*stage, *world, ledger@),
            p == upgrade_ready_at(*stage, *world, ledger@),
            first_index(p, j as int) == -1,
        decreases nup - j,
    {
        if table[nu + j].1 == WantToBuildStatus::ReadyToBuild {
            proof {
                assert(p(j as int));
                assert(first_index(p, j + 1) == j);
                lemma_first_index_stays(p, j + 1, nup as int);
            }
            return Some(NextBuildItem::Upgrade(stage.desired_upgrades[j]));
        }
        proof {
            assert(!p(j as int));
        }
        j = j + 1;
    }
    let mut best: Option<usize> = None;
    let mut best_price: u64 = 0;
    let mut i: usize = 0;
    while i < nu
        invariant
            i <= nu,
            nu == stage.desired_counts@.len(),
            table@ == stage_statuses(*stage, *world, ledger@),
            match best {
                Some(b) => b == best_unit(*stage, *world, ledger@, i as int)
                    && best_price == goal_price(*stage, *world, b as int),
                None => best_unit(*stage, *world, ledger@, i as int) == -1,
            },
        decreases nu - i,
    {
        if table[i].1 == WantToBuildStatus::ReadyToBuild {
            let price = price_of(world, stage.desired_counts[i].0);
            match best {
                Some(_) => {
                    if price > best_price {
                        best = Some(i);
                        best_price = price;
                    }
                },
                None => {
                    best = Some(i);
                    best_price = price;
                },
            }
        }
        i = i + 1;
    }
    proof {
        lemma_best_unit_bounds(*stage, *world, ledger@, nu as int);
    }
    match best {
        Some(b) => Some(NextBuildItem::Unit(stage.desired_counts[b].0)),
        None => None,
    }
}

/// The selector: picks at most one item to act on this tick, without
/// changing anything.
pub fn get_next_thing_to_build(stage: Option<&BuildStage>, world: &World, ledger: &Vec<BuildHistoryEntry>, supply_kind: u32) -> (r: Option<NextBuildItem>)
    ensures
        r == select_item(
            match stage {
                Some(s) => Some(*s),
                None => None,
            },
            *world,
            ledger@,
            supply_kind,
        ),
{
    if has_assigned(ledger) {
        return None;
    }
    if valve_fires(world, supply_kind) {
        return Some(NextBuildItem::Unit(supply_kind));
    }
    match stage {
        Some(st) => pick_from_stage(st, world, ledger),
        None => None,
    }
}

/// The capacity valve overrides the stage's goals: when nothing is pending,
/// capacity is low and the capacity structure is affordable, the selector
/// picks that structure, whatever the stage holds.
pub proof fn valve_overrides_stage_goals(stage: Option<BuildStage>, world: World, ledger: Seq<BuildHistoryEntry>, supply_kind: u32)
    requires
        !any_assigned(ledger),
        valve(world, supply_kind),
    ensures
        select_item(stage, world, ledger, supply_kind) == Some(NextBuildItem::Unit(supply_kind)),
{
}

/// The unit goal picked among the first `n` is ready, no ready goal is
/// dearer, and every ready goal declared before it is strictly cheaper; one
/// is picked whenever some goal is ready.
pub proof fn best_unit_has_highest_price(stage: BuildStage, world: World, ledger: Seq<BuildHistoryEntry>, n: int)
    requires
        0 <= n <= stage.desired_counts@.len(),
    ensures
        ({
            let b = best_unit(stage, world, ledger, n);
            &&& -1 <= b < n
            &&& b >= 0 ==> unit_ready(stage, world, ledger, b)
            &&& forall|i: int| 0 <= i < n && #[trigger] unit_ready(stage, world, ledger, i) ==> b >= 0
                && goal_price(stage, world, i) <= goal_price(stage, world, b)
            &&& forall|i: int| 0 <= i < b && #[trigger] unit_ready(stage, world, ledger, i) ==>
                goal_price(stage, world, i) < goal_price(stage, world, b)
        }),
    decreases n,
{
    if n > 0 {
        best_unit_has_highest_price(stage, world, ledger, n - 1);
    }
}

/// When the stage has no ready upgrade and the selector acts on the stage's
/// unit goals, the unit it returns is a ready goal of the highest combined
/// price, the first such in declaration order.
pub proof fn selector_prefers_dearest_unit(stage: BuildStage, world: World, ledger: Seq<BuildHistoryEntry>, supply_kind: u32)
    requires
        !any_assigned(ledger),
        !valve(world, supply_kind),
        first_index(upgrade_ready_at(stage, world, ledger), stage.desired_upgrades@.len() as int) < 0,
    ensures
        ({
            let n = stage.desired_counts@.len() as int;
            let b = best_unit(stage, world, ledger, n);
            &&& select_item(Some(stage), world, ledger, supply_kind) == if b >= 0 {
                Some(NextBuildItem::Unit(stage.desired_counts@[b].0))
            } else {
                None
            }
            &&& forall|i: int| 0 <= i < n && #[trigger] unit_ready(stage, world, ledger, i) ==> b >= 0
                && goal_price(stage, world, i) <= goal_price(stage, world, b)
            &&& forall|i: int| 0 <= i < b && #[trigger] unit_ready(stage, world, ledger, i) ==>
                goal_price(stage, world, i) < goal_price(stage, world, b)
        }),
{
    best_unit_has_highest_price(stage, world, ledger, stage.desired_counts@.len() as int);
}

} // verus!
