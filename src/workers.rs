use rand::Rng;
use vstd::prelude::*;
use crate::bases::sq_dist;
use crate::model::{
    first_index, lemma_first_index, lemma_first_index_stays, BuildHistoryEntry, Command, Resource, Unit, World,
};
use crate::scheduler::{workers_unique, GameState};
use crate::status::{bound_pending, has_pending_assignment};

verus! {

/// Workers sent to one refinery at most.
pub const REFINERY_WORKERS: usize = 3;

/// Relies on rand's `Rng::gen_range` over `thread_rng()`: a value in
/// `0..len`. It panics on an empty range, which `requires` rules out.
#[verifier::external_body]
fn random_index(len: usize) -> (r: usize)
    requires
        len > 0,
    ensures
        r < len,
{
    rand::thread_rng().gen_range(0..len)
}

/// Number of workers assigned to refinery `rid` among the first `n` pairs.
pub open spec fn refinery_load(a: Seq<(usize, usize)>, rid: usize, n: int) -> nat
    decreases n,
{
    if n <= 0 {
        0
    } else {
        refinery_load(a, rid, n - 1) + if a[n - 1].1 == rid { 1nat } else { 0nat }
    }
}

pub open spec fn has_assignment(a: Seq<(usize, usize)>, wid: usize) -> bool {
    exists|i: int| 0 <= i < a.len() && (#[trigger] a[i]).0 == wid
}

pub open spec fn open_refinery_at(world: World, a: Seq<(usize, usize)>) -> spec_fn(int) -> bool {
    |i: int| world.units@[i].is_refinery && world.units@[i].completed
        && refinery_load(a, world.units@[i].id, a.len() as int) < REFINERY_WORKERS
}

/// Index of the first completed refinery with room for a worker, or -1.
pub open spec fn open_refinery(world: World, a: Seq<(usize, usize)>) -> int {
    first_index(open_refinery_at(world, a), world.units@.len() as int)
}

/// A mineral field within ten tiles of one of the player's depots.
pub open spec fn mineral_in_reach(world: World, r: Resource) -> bool {
    exists|i: int| 0 <= i < world.units@.len() && (#[trigger] world.units@[i]).is_depot
        && sq_dist(world.units@[i].tile, r.tile) < 100
}

/// The mineral fields in reach among the first `n`, in order.
pub open spec fn minerals_in_reach(world: World, n: int) -> Seq<Resource>
    decreases n,
{
    if n <= 0 {
        Seq::empty()
    } else {
        let p = minerals_in_reach(world, n - 1);
        if mineral_in_reach(world, world.minerals@[n - 1]) {
            p.push(world.minerals@[n - 1])
        } else {
            p
        }
    }
}

pub open spec fn reachable_minerals(world: World) -> Seq<Resource> {
    minerals_in_reach(world, world.minerals@.len() as int)
}

/// What one worker is told: a worker that is free of the ledger and not yet
/// sent to gas goes to the first refinery with room; otherwise an idle one
/// goes to the mineral field `pick` among those in reach.
pub open spec fn worker_step(world: World, ledger: Seq<BuildHistoryEntry>, a: Seq<(usize, usize)>, u: Unit, pick: usize) -> (Seq<(usize, usize)>, Option<Command>) {
    if !(u.is_worker && u.completed && !bound_pending(ledger, u.id)) {
        (a, None)
    } else if !has_assignment(a, u.id) && open_refinery(world, a) >= 0 {
        let r = world.units@[open_refinery(world, a)];
        (a.push((u.id, r.id)), Some(Command::Gather { unit_id: u.id, target: r.id }))
    } else if u.idle && !u.gathering && pick < reachable_minerals(world).len() {
        (a, Some(Command::Gather { unit_id: u.id, target: reachable_minerals(world)[pick as int].id }))
    } else {
        (a, None)
    }
}

/// The worker pass over the first `n` units, with the given picks.
pub open spec fn worker_pass(world: World, ledger: Seq<BuildHistoryEntry>, a: Seq<(usize, usize)>, picks: Seq<usize>, n: int) -> (Seq<(usize, usize)>, Seq<Command>)
    decreases n,
{
    if n <= 0 {
        (a, Seq::empty())
    } else {
        let (a1, c1) = worker_pass(world, ledger, a, picks, n - 1);
        let (a2, c) = worker_step(world, ledger, a1, world.units@[n - 1], picks[n - 1]);
        (a2, match c {
            Some(x) => c1.push(x),
            None => c1,
        })
    }
}

fn load_of(a: &Vec<(usize, usize)>, rid: usize) -> (r: usize)
    ensures
        r == refinery_load(a@, rid, a@.len() as int),
{
    let mut n: usize = 0;
    let mut i: usize = 0;
    while i < a.len()
        invariant
            i <= a@.len(),
            n == refinery_load(a@, rid, i as int),
            n <= i,
        decreases a.len() - i,
    {
        if a[i].1 == rid {
            n = n + 1;
        }
        i = i + 1;
    }
    n
}

fn assigned(a: &Vec<(usize, usize)>, wid: usize) -> (r: bool)
    ensures
        r == has_assignment(a@, wid),
{
    let mut i: usize = 0;
    while i < a.len()
        invariant
            i <= a@.len(),
            forall|j: int| 0 <= j < i ==> (#[trigger] a@[j]).0 != wid,
        decreases a.len() - i,
    {
        if a[i].0 == wid {
            return true;
        }
        i = i + 1;
    }
    false
}

fn find_open_refinery(world: &World, a: &Vec<(usize, usize)>) -> (r: Option<usize>)
    ensures
        match r {
            Some(i) => i == open_refinery(*world, a@) && i < world.units@.len(),
            None => open_refinery(*world, a@) == -1,
        },
{
    let ghost p = open_refinery_at(*world, a@);
    let n = world.units.len();
    proof {
        lemma_first_index(p, n as int);
    }
    let mut i: usize = 0;
    while i < n
        invariant
            i <= n,
            n == world.units@.len(),
            p == open_refinery_at(*world, a@),
            first_index(p, i as int) == -1,
        decreases n - i,
    {
        let u = &world.units[i];
        if u.is_refinery && u.completed && load_of(a, u.id) < REFINERY_WORKERS {
            proof {
                assert(p(i as int));
                assert(first_index(p, i + 1) == i);
                lemma_first_index_stays(p, i + 1, n as int);
            }
            return Some(i);
        }
        proof {
            assert(!p(i as int));
        }
        i = i + 1;
    }
    None
}

fn in_reach(world: &World, r: Resource) -> (b: bool)
    ensures
        b == mineral_in_reach(*world, r),
{
    let mut i: usize = 0;
    while i < world.units.len()
        invariant
            i <= world.units@.len(),
            forall|j: int| 0 <= j < i ==> !((#[trigger] world.units@[j]).is_depot
                && sq_dist(world.units@[j].tile, r.tile) < 100),
        decreases world.units.len() - i,
    {
        let u = &world.units[i];
        if u.is_depot && crate::bases::distance_squared(u.tile, r.tile) < 100 {
            return true;
        }
        i = i + 1;
    }
    false
}

/// The mineral fields within reach of the player's depots.
pub fn find_available_minerals(world: &World) -> (r: Vec<Resource>)
    ensures
        r@ == reachable_minerals(*world),
{
    let mut out: Vec<Resource> = Vec::new();
    let mut i: usize = 0;
    while i < world.minerals.len()
        invariant
            i <= world.minerals@.len(),
            out@ == minerals_in_reach(*world, i as int),
        decreases world.minerals.len() - i,
    {
        let m = world.minerals[i];
        if in_reach(world, m) {
            out.push(m);
        }
        i = i + 1;
    }
    out
}

impl GameState {
    /// Worker management: sends free workers to refineries with room, and
    /// idle ones to a random mineral field in reach of a depot. Workers
    /// bound to a pending assignment are left to the scheduler.
    pub fn worker_onframe(&mut self, world: &World) -> (cmds: Vec<Command>)
        requires
            old(self).wf(),
        ensures
            final(self).wf(),
            final(self).unit_build_history == old(self).unit_build_history,
            final(self).build_stages == old(self).build_stages,
            final(self).current_stage_index == old(self).current_stage_index,
            final(self).stage_item_status == old(self).stage_item_status,
            final(self).base_locations == old(self).base_locations,
            final(self).supply_kind == old(self).supply_kind,
            final(self).depot_kind == old(self).depot_kind,
            exists|picks: Seq<usize>|
                picks.len() == world.units@.len()
                    && (forall|k: int| 0 <= k < picks.len() ==> reachable_minerals(*world).len() == 0
                        || #[trigger] picks[k] < reachable_minerals(*world).len())
                    && #[trigger] worker_pass(*world, old(self).unit_build_history@, old(self).worker_refinery_assignments@, picks, world.units@.len() as int)
                        == (final(self).worker_refinery_assignments@, cmds@),
    {
        let near = find_available_minerals(world);
        let ghost a0 = self.worker_refinery_assignments@;
        let ghost start = *self;
        let ghost mut picks: Seq<usize> = Seq::empty();
        let mut cmds: Vec<Command> = Vec::new();
        let mut i: usize = 0;
        while i < world.units.len()
            invariant
                i <= world.units@.len(),
                near@ == reachable_minerals(*world),
                picks.len() == i,
                forall|k: int| 0 <= k < picks.len() ==> reachable_minerals(*world).len() == 0
                    || #[trigger] picks[k] < reachable_minerals(*world).len(),
                worker_pass(*world, start.unit_build_history@, a0, picks, i as int) == (self.worker_refinery_assignments@, cmds@),
                self.unit_build_history == start.unit_build_history,
                self.build_stages == start.build_stages,
                self.current_stage_index == start.current_stage_index,
                self.stage_item_status == start.stage_item_status,
                self.base_locations == start.base_locations,
                self.supply_kind == start.supply_kind,
                self.depot_kind == start.depot_kind,
                start.wf(),
                workers_unique(self.worker_refinery_assignments@),
            decreases world.units.len() - i,
        {
            let u = world.units[i];
            let pick: usize = if near.len() > 0 { random_index(near.len()) } else { 0 };
            let ghost prev = picks;
            proof {
                picks = picks.push(pick);
                assert forall|k: int| 0 <= k < i implies #[trigger] picks[k] == prev[k] by {}
                assert(worker_pass(*world, start.unit_build_history@, a0, picks, i as int)
                    == worker_pass(*world, start.unit_build_history@, a0, prev, i as int)) by {
                    lemma_pass_prefix(*world, start.unit_build_history@, a0, prev, picks, i as int);
                }
            }
            if u.is_worker && u.completed && !has_pending_assignment(&self.unit_build_history, u.id) {
                let mut sent = false;
                if !assigned(&self.worker_refinery_assignments, u.id) {
                    if let Some(ri) = find_open_refinery(world, &self.worker_refinery_assignments) {
                        let rid = world.units[ri].id;
                        let ghost before = self.worker_refinery_assignments@;
                        self.worker_refinery_assignments.push((u.id, rid));
                        proof {
                            assert forall|a: int, b: int| 0 <= a < b < self.worker_refinery_assignments@.len() implies
                                (#[trigger] self.worker_refinery_assignments@[a]).0 != (#[trigger] self.worker_refinery_assignments@[b]).0 by {
                                assert(self.worker_refinery_assignments@[a] == before[a]);
                                if b < before.len() {
                                    assert(self.worker_refinery_assignments@[b] == before[b]);
                                }
                            }
                        }
                        cmds.push(Command::Gather { unit_id: u.id, target: rid });
                        sent = true;
                    }
                }
                if !sent && u.idle && !u.gathering && pick < near.len() {
                    cmds.push(Command::Gather { unit_id: u.id, target: near[pick].id });
                }
            }
            proof {
                assert(world.units@[i as int] == u);
                assert(picks[i as int] == pick);
                assert(cmds@ =~= worker_pass(*world, start.unit_build_history@, a0, picks, i + 1).1);
            }
            i = i + 1;
        }
        cmds
    }
}

proof fn lemma_pass_prefix(world: World, ledger: Seq<BuildHistoryEntry>, a: Seq<(usize, usize)>, picks_a: Seq<usize>, picks_b: Seq<usize>, n: int)
    requires
        0 <= n <= picks_a.len(),
        n <= picks_b.len(),
        forall|k: int| 0 <= k < n ==> picks_a[k] == picks_b[k],
    ensures
        worker_pass(world, ledger, a, picks_a, n) == worker_pass(world, ledger, a, picks_b, n),
    decreases n,
{
    if n > 0 {
        lemma_pass_prefix(world, ledger, a, picks_a, picks_b, n - 1);
    }
}

} // verus!
