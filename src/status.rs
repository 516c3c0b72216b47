use vstd::prelude::*;
use crate::model::{
    first_index, find_kind, lemma_first_index, lemma_first_index_stays, lookup_kind, BuildHistoryEntry,
    BuildStatus, KindInfo, Requirement, Unit, UnitOrUpgradeType, World,
};
use crate::stages::BuildStage;

verus! {

/// Readiness of one goal item, recomputed from scratch every tick.
#[derive(Clone, Copy, Debug, PartialEq, Eq, Structural)]
pub enum WantToBuildStatus {
    ReadyToBuild,
    CannotAfford { minerals_short: u32, gas_short: u32 },
    MissingPrerequisite,
    NoBuilderAvailable,
    HaveAllNeeded,
}

/// Number of units of `kind` among the first `n`.
pub open spec fn count_kind(units: Seq<Unit>, kind: u32, n: int) -> nat
    decreases n,
{
    if n <= 0 {
        0
    } else {
        count_kind(units, kind, n - 1) + if units[n - 1].kind == kind { 1nat } else { 0nat }
    }
}

/// Number of completed units of `kind` among the first `n`.
pub open spec fn count_completed(units: Seq<Unit>, kind: u32, n: int) -> nat
    decreases n,
{
    if n <= 0 {
        0
    } else {
        count_completed(units, kind, n - 1) + if units[n - 1].kind == kind && units[n - 1].completed {
            1nat
        } else {
            0nat
        }
    }
}

pub open spec fn units_of(world: World, kind: u32) -> nat {
    count_kind(world.units@, kind, world.units@.len() as int)
}

pub open spec fn completed_of(world: World, kind: u32) -> nat {
    count_completed(world.units@, kind, world.units@.len() as int)
}

/// The ledger holds a pending entry bound to this entity.
pub open spec fn bound_pending(ledger: Seq<BuildHistoryEntry>, id: usize) -> bool {
    exists|i: int| 0 <= i < ledger.len() && holds_entity(#[trigger] ledger[i], id)
}

/// The entry keeps entity `id` busy: it is bound to it and still pending.
/// An `Assigned` entry is pending; so is a `Started` unit entry, until the
/// unit is created and the entry leaves the ledger. A `Started` upgrade
/// entry stays as the record of the research and keeps no entity.
pub open spec fn holds_entity(e: BuildHistoryEntry, id: usize) -> bool {
    e.assigned_unit_id == Some(id) && (e.status == BuildStatus::Assigned || e.goal is Unit)
}

/// The producer eligibility predicate, shared by the status evaluator and
/// the assignment engine.
pub open spec fn eligible(u: Unit, producer: u32, ledger: Seq<BuildHistoryEntry>) -> bool {
    &&& u.kind == producer
    &&& !u.constructing
    &&& !u.training
    &&& (u.idle || u.gathering)
    &&& !bound_pending(ledger, u.id)
}

pub open spec fn eligible_at(units: Seq<Unit>, producer: u32, ledger: Seq<BuildHistoryEntry>) -> spec_fn(int) -> bool {
    |i: int| eligible(units[i], producer, ledger)
}

/// Index of the first eligible producer, or -1.
pub open spec fn builder_index(world: World, producer: u32, ledger: Seq<BuildHistoryEntry>) -> int {
    first_index(eligible_at(world.units@, producer, ledger), world.units@.len() as int)
}

/// Counts the units of a kind.
pub fn count_units_of_type(world: &World, unit_type: u32) -> (r: usize)
    ensures
        r == units_of(*world, unit_type),
{
    let mut n: usize = 0;
    let mut i: usize = 0;
    while i < world.units.len()
        invariant
            i <= world.units.len(),
            n == count_kind(world.units@, unit_type, i as int),
            n <= i,
        decreases world.units.len() - i,
    {
        if world.units[i].kind == unit_type {
            n = n + 1;
        }
        i = i + 1;
    }
    n
}

/// Counts the completed units of a kind.
pub fn count_completed_units_of_type(world: &World, unit_type: u32) -> (r: usize)
    ensures
        r == completed_of(*world, unit_type),
{
    let mut n: usize = 0;
    let mut i: usize = 0;
    while i < world.units.len()
        invariant
            i <= world.units.len(),
            n == count_completed(world.units@, unit_type, i as int),
            n <= i,
        decreases world.units.len() - i,
    {
        if world.units[i].kind == unit_type && world.units[i].completed {
            n = n + 1;
        }
        i = i + 1;
    }
    n
}

/// Whether the ledger holds an `Assigned` entry bound to `id`.
pub fn has_pending_assignment(ledger: &Vec<BuildHistoryEntry>, id: usize) -> (r: bool)
    ensures
        r == bound_pending(ledger@, id),
{
    let mut i: usize = 0;
    while i < ledger.len()
        invariant
            i <= ledger.len(),
            forall|j: int| 0 <= j < i ==> !holds_entity(#[trigger] ledger@[j], id),
        decreases ledger.len() - i,
    {
        let e = ledger[i];
        let unit_goal = match e.goal {
            UnitOrUpgradeType::Unit(_) => true,
            UnitOrUpgradeType::Upgrade(_) => false,
        };
        if e.assigned_unit_id == Some(id) && (e.status == BuildStatus::Assigned || unit_goal) {
            return true;
        }
        i = i + 1;
    }
    false
}

/// Index of the first entity eligible to produce for `producer`'s kind.
pub fn find_builder_for_unit(world: &World, producer: u32, ledger: &Vec<BuildHistoryEntry>) -> (r: Option<usize>)
    ensures
        match r {
            Some(i) => i == builder_index(*world, producer, ledger@),
            None => builder_index(*world, producer, ledger@) == -1,
        },
{
    let ghost p = eligible_at(world.units@, producer, ledger@);
    proof {
        lemma_first_index(p, world.units@.len() as int);
    }
    let mut i: usize = 0;
    while i < world.units.len()
        invariant
            i <= world.units.len(),
            p == eligible_at(world.units@, producer, ledger@),
            first_index(p, i as int) == -1,
        decreases world.units.len() - i,
    {
        let u = &world.units[i];
        if u.kind == producer && !u.constructing && !u.training && (u.idle || u.gathering) && !has_pending_assignment(ledger, u.id) {
            proof {
                assert(p(i as int));
                assert(first_index(p, i + 1) == i);
                lemma_first_index_stays(p, i + 1, world.units@.len() as int);
            }
            return Some(i);
        }
        proof {
            assert(!p(i as int));
        }
        i = i + 1;
    }
    None
}

/// What is missing of `price` when `have` is at hand.
pub open spec fn shortfall(price: u32, have: u32) -> u32 {
    if price > have {
        (price - have) as u32
    } else {
        0
    }
}

pub open spec fn requirements_met(world: World, reqs: Seq<Requirement>) -> bool {
    forall|j: int| 0 <= j < reqs.len() ==> completed_of(world, (#[trigger] reqs[j]).kind) >= reqs[j].count as nat
}

pub open spec fn affordable(world: World, info: KindInfo) -> bool {
    world.resources.minerals >= info.mineral_price && world.resources.gas >= info.gas_price
}

/// The first blocker of a goal item that is not yet satisfied, in the order
/// cost, prerequisite, producer.
pub open spec fn blocker_status(world: World, ledger: Seq<BuildHistoryEntry>, info: KindInfo) -> WantToBuildStatus {
    if !affordable(world, info) {
        WantToBuildStatus::CannotAfford {
            minerals_short: shortfall(info.mineral_price, world.resources.minerals),
            gas_short: shortfall(info.gas_price, world.resources.gas),
        }
    } else if !info.tech_ready || !requirements_met(world, info.requires@) {
        WantToBuildStatus::MissingPrerequisite
    } else if builder_index(world, info.producer, ledger) < 0 {
        WantToBuildStatus::NoBuilderAvailable
    } else {
        WantToBuildStatus::ReadyToBuild
    }
}

/// Status of a unit goal; a kind that the world does not describe has no
/// producer.
pub open spec fn unit_status(world: World, ledger: Seq<BuildHistoryEntry>, kind: u32, desired: u32) -> WantToBuildStatus {
    if units_of(world, kind) >= desired as nat {
        WantToBuildStatus::HaveAllNeeded
    } else {
        match lookup_kind(world.unit_kinds@, kind) {
            None => WantToBuildStatus::NoBuilderAvailable,
            Some(info) => blocker_status(world, ledger, info),
        }
    }
}

/// The ledger records a started research of `upgrade`.
pub open spec fn upgrade_started(ledger: Seq<BuildHistoryEntry>, upgrade: u32) -> bool {
    exists|i: int|
        0 <= i < ledger.len() && (#[trigger] ledger[i]).goal == UnitOrUpgradeType::Upgrade(upgrade)
            && ledger[i].status == BuildStatus::Started
}

/// Status of an upgrade goal: satisfied once its research is seen started.
pub open spec fn upgrade_status(world: World, ledger: Seq<BuildHistoryEntry>, upgrade: u32) -> WantToBuildStatus {
    if upgrade_started(ledger, upgrade) {
        WantToBuildStatus::HaveAllNeeded
    } else {
        match lookup_kind(world.upgrade_kinds@, upgrade) {
            None => WantToBuildStatus::NoBuilderAvailable,
            Some(info) => blocker_status(world, ledger, info),
        }
    }
}

/// Status of every goal item of a stage: unit goals first, then upgrade
/// goals, each in declaration order.
pub open spec fn stage_statuses(stage: BuildStage, world: World, ledger: Seq<BuildHistoryEntry>) -> Seq<(UnitOrUpgradeType, WantToBuildStatus)> {
    let units = stage.desired_counts@;
    let upgrades = stage.desired_upgrades@;
    Seq::new(
        (units.len() + upgrades.len()) as nat,
        |i: int|
            if i < units.len() {
                (UnitOrUpgradeType::Unit(units[i].0), unit_status(world, ledger, units[i].0, units[i].1))
            } else {
                let u = upgrades[i - units.len()];
                (UnitOrUpgradeType::Upgrade(u), upgrade_status(world, ledger, u))
            },
    )
}

fn requirements_satisfied(world: &World, reqs: &Vec<Requirement>) -> (r: bool)
    ensures
        r == requirements_met(*world, reqs@),
{
    let mut j: usize = 0;
    while j < reqs.len()
        invariant
            j <= reqs.len(),
            forall|k: int| 0 <= k < j ==> completed_of(*world, (#[trigger] reqs@[k]).kind) >= reqs@[k].count as nat,
        decreases reqs.len() - j,
    {
        let have = count_completed_units_of_type(world, reqs[j].kind);
        if have < reqs[j].count as usize {
            return false;
        }
        j = j + 1;
    }
    true
}

/// Whether the resources at hand cover the price of `info`.
pub fn can_afford_unit(world: &World, info: &KindInfo) -> (r: bool)
    ensures
        r == affordable(*world, *info),
{
    world.resources.minerals >= info.mineral_price && world.resources.gas >= info.gas_price
}

fn get_blocker_status(world: &World, ledger: &Vec<BuildHistoryEntry>, info: &KindInfo) -> (r: WantToBuildStatus)
    ensures
        r == blocker_status(*world, ledger@, *info),
{
    if !can_afford_unit(world, info) {
        let minerals_short = if info.mineral_price > world.resources.minerals {
            info.mineral_price - world.resources.minerals
        } else {
            0
        };
        let gas_short = if info.gas_price > world.resources.gas {
            info.gas_price - world.resources.gas
        } else {
            0
        };
        WantToBuildStatus::CannotAfford { minerals_short, gas_short }
    } else if !info.tech_ready || !requirements_satisfied(world, &info.requires) {
        WantToBuildStatus::MissingPrerequisite
    } else if find_builder_for_unit(world, info.producer, ledger).is_none() {
        WantToBuildStatus::NoBuilderAvailable
    } else {
        WantToBuildStatus::ReadyToBuild
    }
}

/// Status of a unit goal with its desired count.
pub fn get_unit_status(world: &World, ledger: &Vec<BuildHistoryEntry>, unit_type: u32, desired_count: u32) -> (r: WantToBuildStatus)
    ensures
        r == unit_status(*world, ledger@, unit_type, desired_count),
{
    if count_units_of_type(world, unit_type) >= desired_count as usize {
        return WantToBuildStatus::HaveAllNeeded;
    }
    match find_kind(&world.unit_kinds, unit_type) {
        None => WantToBuildStatus::NoBuilderAvailable,
        Some(info) => get_blocker_status(world, ledger, info),
    }
}

pub fn is_upgrade_started(ledger: &Vec<BuildHistoryEntry>, upgrade: u32) -> (r: bool)
    ensures
        r == upgrade_started(ledger@, upgrade),
{
    let mut i: usize = 0;
    while i < ledger.len()
        invariant
            i <= ledger.len(),
            forall|j: int| 0 <= j < i ==> !((#[trigger] ledger@[j]).goal == UnitOrUpgradeType::Upgrade(upgrade)
                && ledger@[j].status == BuildStatus::Started),
        decreases ledger.len() - i,
    {
        if ledger[i].goal == UnitOrUpgradeType::Upgrade(upgrade) && ledger[i].status == BuildStatus::Started {
            return true;
        }
        i = i + 1;
    }
    false
}

/// Status of an upgrade goal.
pub fn get_upgrade_status(world: &World, ledger: &Vec<BuildHistoryEntry>, upgrade_type: u32) -> (r: WantToBuildStatus)
    ensures
        r == upgrade_status(*world, ledger@, upgrade_type),
{
    if is_upgrade_started(ledger, upgrade_type) {
        return WantToBuildStatus::HaveAllNeeded;
    }
    match find_kind(&world.upgrade_kinds, upgrade_type) {
        None => WantToBuildStatus::NoBuilderAvailable,
        Some(info) => get_blocker_status(world, ledger, info),
    }
}

/// The status evaluator: one status per goal item of the stage. It reads its
/// inputs only, so equal inputs give equal tables.
pub fn get_status_for_stage_items(stage: &BuildStage, world: &World, ledger: &Vec<BuildHistoryEntry>) -> (r: Vec<(UnitOrUpgradeType, WantToBuildStatus)>)
    ensures
        r@ == stage_statuses(*stage, *world, ledger@),
{
    let mut out: Vec<(UnitOrUpgradeType, WantToBuildStatus)> = Vec::new();
    let ghost want = stage_statuses(*stage, *world, ledger@);
    let nu = stage.desired_counts.len();
    let mut i: usize = 0;
    while i < nu
        invariant
            i <= nu,
            nu == stage.desired_counts@.len(),
            want == stage_statuses(*stage, *world, ledger@),
            out@ == want.subrange(0, i as int),
        decreases nu - i,
    {
        let (kind, desired) = stage.desired_counts[i];
        let st = get_unit_status(world, ledger, kind, desired);
        out.push((UnitOrUpgradeType::Unit(kind), st));
        proof {
            assert(out@ =~= want.subrange(0, i + 1));
        }
        i = i + 1;
    }
    let mut j: usize = 0;
    while j < stage.desired_upgrades.len()
        invariant
            j <= stage.desired_upgrades@.len(),
            nu == stage.desired_counts@.len(),
            want == stage_statuses(*stage, *world, ledger@),
            out@ == want.subrange(0, nu + j),
        decreases stage.desired_upgrades.len() - j,
    {
        let u = stage.desired_upgrades[j];
        let st = get_upgrade_status(world, ledger, u);
        out.push((UnitOrUpgradeType::Upgrade(u), st));
        proof {
            assert(out@ =~= want.subrange(0, nu + j + 1));
        }
        j = j + 1;
    }
    proof {
        assert(out@ =~= want);
    }
    out
}

/// Evaluating the same stage against the same world and ledger twice gives
/// the same status for every item.
pub proof fn evaluation_is_idempotent(stage: BuildStage, world: World, ledger: Seq<BuildHistoryEntry>, first: Seq<(UnitOrUpgradeType, WantToBuildStatus)>, second: Seq<(UnitOrUpgradeType, WantToBuildStatus)>)
    requires
        first == stage_statuses(stage, world, ledger),
        second == stage_statuses(stage, world, ledger),
    ensures
        first == second,
        forall|i: int| 0 <= i < first.len() ==> #[trigger] first[i] == second[i],
{
}

} // verus!
