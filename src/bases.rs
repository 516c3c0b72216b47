use vstd::prelude::*;
use crate::model::{KindInfo, Resource, TilePosition, Unit, World};
use crate::scheduler::{positions, BaseLocation, CheckedPosition};
use crate::site::{can_place, placeable};

verus! {

/// Two resource nodes at most five tiles apart belong to the same cluster.
pub open spec fn close(a: TilePosition, b: TilePosition) -> bool {
    (a.x - b.x) * (a.x - b.x) + (a.y - b.y) * (a.y - b.y) <= 25
}

pub open spec fn close_at(m: Seq<TilePosition>, a: int, b: int) -> bool {
    close(m[a], m[b])
}

proof fn lemma_close_symmetric(a: TilePosition, b: TilePosition)
    ensures
        close(a, b) == close(b, a),
{
    assert((a.x - b.x) * (a.x - b.x) == (b.x - a.x) * (b.x - a.x)) by (nonlinear_arith);
    assert((a.y - b.y) * (a.y - b.y) == (b.y - a.y) * (b.y - a.y)) by (nonlinear_arith);
}

fn is_close(a: TilePosition, b: TilePosition) -> (r: bool)
    ensures
        r == close(a, b),
{
    let dx: i64 = a.x as i64 - b.x as i64;
    let dy: i64 = a.y as i64 - b.y as i64;
    if dx > 5 || dx < -5 || dy > 5 || dy < -5 {
        assert(dx * dx > 25 || dy * dy > 25) by (nonlinear_arith)
            requires
                dx > 5 || dx < -5 || dy > 5 || dy < -5,
        ;
        assert(dx * dx >= 0 && dy * dy >= 0) by (nonlinear_arith);
        return false;
    }
    assert(0 <= dx * dx <= 25 && 0 <= dy * dy <= 25) by (nonlinear_arith)
        requires
            -5 <= dx <= 5,
            -5 <= dy <= 5,
    ;
    dx * dx + dy * dy <= 25
}

/// Member `k` is close to an earlier member.
pub open spec fn linked(m: Seq<TilePosition>, members: Seq<usize>, k: int) -> bool {
    exists|k2: int| 0 <= k2 < k && #[trigger] close_at(m, members[k2] as int, members[k] as int)
}

pub open spec fn has_member(members: Seq<usize>, i: int) -> bool {
    exists|k: int| 0 <= k < members.len() && #[trigger] members[k] == i
}

pub open spec fn in_clusters(cv: Seq<Seq<usize>>, i: int) -> bool {
    exists|c: int, k: int| 0 <= c < cv.len() && 0 <= k < cv[c].len() && #[trigger] cv[c][k] == i
}

pub open spec fn cview(clusters: Seq<Vec<usize>>) -> Seq<Seq<usize>> {
    clusters.map_values(|v: Vec<usize>| v@)
}

/// The clusters are exactly the groups of nodes linked by chains of close
/// pairs: every node is in exactly one cluster, a node close to a member is a
/// member, and every member but the first is close to an earlier one.
/// Clusters come in the order of their smallest node, which leads each.
pub open spec fn clustering(m: Seq<TilePosition>, cv: Seq<Seq<usize>>) -> bool {
    let n = m.len();
    &&& forall|c: int| 0 <= c < cv.len() ==> (#[trigger] cv[c]).len() > 0
    &&& forall|c: int, k: int| 0 <= c < cv.len() && 0 <= k < cv[c].len() ==> (#[trigger] cv[c][k]) < n
    &&& forall|i: int| 0 <= i < n ==> #[trigger] in_clusters(cv, i)
    &&& forall|c1: int, k1: int, c2: int, k2: int|
        0 <= c1 < cv.len() && 0 <= k1 < cv[c1].len() && 0 <= c2 < cv.len() && 0 <= k2 < cv[c2].len()
            && #[trigger] cv[c1][k1] == #[trigger] cv[c2][k2] ==> c1 == c2 && k1 == k2
    &&& forall|c: int, k: int, j: int|
        0 <= c < cv.len() && 0 <= k < cv[c].len() && 0 <= j < n && #[trigger] close_at(m, cv[c][k] as int, j)
            ==> has_member(cv[c], j)
    &&& forall|c: int, k: int| 0 <= c < cv.len() && 0 < k < cv[c].len() ==> #[trigger] linked(m, cv[c], k)
    &&& forall|c: int, k: int| 0 <= c < cv.len() && 0 <= k < cv[c].len() ==> cv[c][0] <= #[trigger] cv[c][k]
    &&& forall|c1: int, c2: int| 0 <= c1 < c2 < cv.len() ==> (#[trigger] cv[c1])[0] < (#[trigger] cv[c2])[0]
}

/// Groups the resource nodes into clusters (see `clustering`); each cluster
/// lists node indices.
pub fn get_resource_clusters(minerals: &Vec<TilePosition>) -> (r: Vec<Vec<usize>>)
    ensures
        clustering(minerals@, cview(r@)),
{
    let n = minerals.len();
    let ghost m = minerals@;
    let mut label: Vec<usize> = Vec::new();
    let mut i0: usize = 0;
    while i0 < n
        invariant
            i0 <= n,
            label@.len() == i0,
            forall|i: int| 0 <= i < i0 ==> label@[i] == n,
        decreases n - i0,
    {
        label.push(n);
        i0 = i0 + 1;
    }
    let mut clusters: Vec<Vec<usize>> = Vec::new();
    let mut s: usize = 0;
    while s < n
        invariant
            s <= n,
            n == m.len(),
            m == minerals@,
            label@.len() == n,
            clusters@.len() <= s,
            forall|i: int| 0 <= i < n ==> (#[trigger] label@[i]) == n || label@[i] < clusters@.len(),
            forall|i: int| 0 <= i < s ==> (#[trigger] label@[i]) != n,
            forall|c: int, k: int| 0 <= c < clusters@.len() && 0 <= k < clusters@[c]@.len() ==>
                (#[trigger] clusters@[c]@[k]) < n && label@[clusters@[c]@[k] as int] == c,
            forall|i: int| 0 <= i < n && (#[trigger] label@[i]) < clusters@.len() ==> has_member(clusters@[label@[i] as int]@, i),
            forall|c: int, k1: int, k2: int| 0 <= c < clusters@.len() && 0 <= k1 < clusters@[c]@.len() && 0 <= k2 < clusters@[c]@.len()
                && k1 != k2 ==> #[trigger] clusters@[c]@[k1] != #[trigger] clusters@[c]@[k2],
            forall|c: int, k: int, j: int| 0 <= c < clusters@.len() && 0 <= k < clusters@[c]@.len() && 0 <= j < n
                && #[trigger] close_at(m, clusters@[c]@[k] as int, j) ==> label@[j] == c,
            forall|c: int, k: int| 0 <= c < clusters@.len() && 0 < k < clusters@[c]@.len() ==> #[trigger] linked(m, clusters@[c]@, k),
            forall|c: int| 0 <= c < clusters@.len() ==> (#[trigger] clusters@[c])@.len() > 0 && clusters@[c]@[0] < s,
            forall|c: int, k: int| 0 <= c < clusters@.len() && 0 <= k < clusters@[c]@.len() ==>
                clusters@[c]@[0] <= #[trigger] clusters@[c]@[k],
            forall|c1: int, c2: int| 0 <= c1 < c2 < clusters@.len() ==> (#[trigger] clusters@[c1])@[0] < (#[trigger] clusters@[c2])@[0],
        decreases n - s,
    {
        if label[s] == n {
            let c = clusters.len();
            proof {
                lemma_unassigned_update(label@, n, s as int, c, n as int);
            }
            label.set(s, c);
            let mut cur: Vec<usize> = Vec::new();
            cur.push(s);
            proof {
                assert(cur@[0] == s);
                assert(has_member(cur@, s as int));
            }
            let mut head: usize = 0;
            while head < cur.len()
                invariant
                    s < n,
                    n == m.len(),
                    m == minerals@,
                    c == clusters@.len(),
                    label@.len() == n,
                    head <= cur@.len(),
                    cur@.len() > 0,
                    cur@[0] == s,
                    label@[s as int] == c,
                    forall|i: int| 0 <= i < n ==> (#[trigger] label@[i]) == n || label@[i] <= c,
                    forall|i: int| 0 <= i < s ==> (#[trigger] label@[i]) != n,
                    forall|cc: int, k: int| 0 <= cc < c && 0 <= k < clusters@[cc]@.len() ==>
                        (#[trigger] clusters@[cc]@[k]) < n && label@[clusters@[cc]@[k] as int] == cc,
                    forall|i: int| 0 <= i < n && (#[trigger] label@[i]) < c ==> has_member(clusters@[label@[i] as int]@, i),
                    forall|cc: int, k1: int, k2: int| 0 <= cc < c && 0 <= k1 < clusters@[cc]@.len() && 0 <= k2 < clusters@[cc]@.len()
                        && k1 != k2 ==> #[trigger] clusters@[cc]@[k1] != #[trigger] clusters@[cc]@[k2],
                    forall|cc: int, k: int, j: int| 0 <= cc < c && 0 <= k < clusters@[cc]@.len() && 0 <= j < n
                        && #[trigger] close_at(m, clusters@[cc]@[k] as int, j) ==> label@[j] == cc,
                    forall|cc: int, k: int| 0 <= cc < c && 0 < k < clusters@[cc]@.len() ==> #[trigger] linked(m, clusters@[cc]@, k),
                    forall|cc: int| 0 <= cc < c ==> (#[trigger] clusters@[cc])@.len() > 0 && clusters@[cc]@[0] < s,
                    forall|cc: int, k: int| 0 <= cc < c && 0 <= k < clusters@[cc]@.len() ==>
                        clusters@[cc]@[0] <= #[trigger] clusters@[cc]@[k],
                    forall|c1: int, c2: int| 0 <= c1 < c2 < c ==> (#[trigger] clusters@[c1])@[0] < (#[trigger] clusters@[c2])@[0],
                    forall|k: int| 0 <= k < cur@.len() ==> (#[trigger] cur@[k]) < n && label@[cur@[k] as int] == c && s <= cur@[k],
                    forall|i: int| 0 <= i < n && (#[trigger] label@[i]) == c ==> has_member(cur@, i),
                    forall|k1: int, k2: int| 0 <= k1 < cur@.len() && 0 <= k2 < cur@.len() && k1 != k2 ==>
                        #[trigger] cur@[k1] != #[trigger] cur@[k2],
                    forall|k: int, j: int| 0 <= k < head && 0 <= j < n && #[trigger] close_at(m, cur@[k] as int, j) ==> label@[j] == c,
                    forall|k: int| 0 < k < cur@.len() ==> #[trigger] linked(m, cur@, k),
                    c != n,
                    c <= s,
                decreases unassigned(label@, n, n as int) + cur@.len() - head,
            {
                let here = cur[head];
                let ghost budget = unassigned(label@, n, n as int) + cur@.len();
                let mut j: usize = 0;
                while j < n
                    invariant
                        s < n,
                        n == m.len(),
                        m == minerals@,
                        c == clusters@.len(),
                        label@.len() == n,
                        head < cur@.len(),
                        cur@[head as int] == here,
                        cur@.len() > 0,
                        cur@[0] == s,
                        label@[s as int] == c,
                        forall|i: int| 0 <= i < n ==> (#[trigger] label@[i]) == n || label@[i] <= c,
                        forall|i: int| 0 <= i < s ==> (#[trigger] label@[i]) != n,
                        forall|cc: int, k: int| 0 <= cc < c && 0 <= k < clusters@[cc]@.len() ==>
                            (#[trigger] clusters@[cc]@[k]) < n && label@[clusters@[cc]@[k] as int] == cc,
                        forall|i: int| 0 <= i < n && (#[trigger] label@[i]) < c ==> has_member(clusters@[label@[i] as int]@, i),
                        forall|cc: int, k: int, jj: int| 0 <= cc < c && 0 <= k < clusters@[cc]@.len() && 0 <= jj < n
                            && #[trigger] close_at(m, clusters@[cc]@[k] as int, jj) ==> label@[jj] == cc,
                        forall|k: int| 0 <= k < cur@.len() ==> (#[trigger] cur@[k]) < n && label@[cur@[k] as int] == c && s <= cur@[k],
                        forall|i: int| 0 <= i < n && (#[trigger] label@[i]) == c ==> has_member(cur@, i),
                        forall|k1: int, k2: int| 0 <= k1 < cur@.len() && 0 <= k2 < cur@.len() && k1 != k2 ==>
                            #[trigger] cur@[k1] != #[trigger] cur@[k2],
                        forall|k: int, jj: int| 0 <= k < head && 0 <= jj < n && #[trigger] close_at(m, cur@[k] as int, jj) ==> label@[jj] == c,
                        forall|jj: int| 0 <= jj < j && #[trigger] close_at(m, here as int, jj) ==> label@[jj] == c,
                        forall|k: int| 0 < k < cur@.len() ==> #[trigger] linked(m, cur@, k),
                        c != n,
                        c <= s,
                        budget == unassigned(label@, n, n as int) + cur@.len(),
                    decreases n - j,
                {
                    if label[j] == n && is_close(minerals[here], minerals[j]) {
                        proof {
                            assert(close_at(m, here as int, j as int));
                            assert forall|k: int| 0 <= k < cur@.len() implies (#[trigger] cur@[k]) != j by {
                                assert(label@[cur@[k] as int] == c);
                            }
                        }
                        proof {
                            lemma_unassigned_update(label@, n, j as int, c, n as int);
                        }
                        let ghost before = label@;
                        let ghost cur_before = cur@;
                        label.set(j, c);
                        cur.push(j);
                        proof {
                            assert forall|cc: int, k: int| 0 <= cc < c && 0 <= k < clusters@[cc]@.len() implies
                                (#[trigger] clusters@[cc]@[k]) < n && label@[clusters@[cc]@[k] as int] == cc by {
                                assert(before[clusters@[cc]@[k] as int] == cc);
                            }
                            assert forall|cc: int, k: int, jj: int| 0 <= cc < c && 0 <= k < clusters@[cc]@.len() && 0 <= jj < n
                                && #[trigger] close_at(m, clusters@[cc]@[k] as int, jj) implies label@[jj] == cc by {
                                assert(before[jj] == cc);
                            }
                            assert forall|i: int| 0 <= i < n && (#[trigger] label@[i]) == c implies has_member(cur@, i) by {
                                if i == j {
                                    assert(cur@[cur@.len() - 1] == j);
                                } else {
                                    assert(before[i] == c);
                                    assert(has_member(cur_before, i));
                                    let k = choose|k: int| 0 <= k < cur_before.len() && #[trigger] cur_before[k] == i;
                                    assert(cur@[k] == i);
                                }
                            }
                        }
                        proof {
                            let last = cur@.len() - 1;
                            assert(cur@[last] == j);
                            assert(close_at(m, cur@[head as int] as int, cur@[last] as int));
                            assert forall|k: int| 0 < k < cur@.len() implies #[trigger] linked(m, cur@, k) by {
                                if k == last {
                                    assert(close_at(m, cur@[head as int] as int, cur@[k] as int));
                                } else {
                                    assert(linked(m, cur_before, k));
                                    let k2 = choose|k2: int| 0 <= k2 < k && #[trigger] close_at(m, cur_before[k2] as int, cur_before[k] as int);
                                    assert(close_at(m, cur@[k2] as int, cur@[k] as int));
                                }
                            }
                        }
                    } else {
                        proof {
                            if close_at(m, here as int, j as int) && label@[j as int] != n && label@[j as int] != c {
                                let cc = label@[j as int] as int;
                                let k = choose|k: int| 0 <= k < clusters@[cc]@.len() && #[trigger] clusters@[cc]@[k] == j;
                                lemma_close_symmetric(m[here as int], m[j as int]);
                                assert(close_at(m, clusters@[cc]@[k] as int, here as int));
                                assert(label@[here as int] == cc);
                            }
                        }
                    }
                    j = j + 1;
                }
                head = head + 1;
            }
            proof {
                assert forall|k: int, jj: int| 0 <= k < cur@.len() && 0 <= jj < n && #[trigger] close_at(m, cur@[k] as int, jj)
                    implies label@[jj] == c by {}
            }
            clusters.push(cur);
            proof {
                assert(clusters@[c as int]@ == cur@);
            }
        }
        s = s + 1;
    }
    proof {
        let cv = cview(clusters@);
        assert forall|c: int, k: int| 0 <= c < cv.len() && 0 <= k < cv[c].len() implies #[trigger] cv[c][k] == clusters@[c]@[k] by {}
        assert forall|i: int| 0 <= i < n implies #[trigger] in_clusters(cv, i) by {
            let c = label@[i] as int;
            assert(has_member(clusters@[c]@, i));
            let k = choose|k: int| 0 <= k < clusters@[c]@.len() && #[trigger] clusters@[c]@[k] == i;
            assert(cv[c][k] == i);
        }
        assert forall|c1: int, k1: int, c2: int, k2: int|
            0 <= c1 < cv.len() && 0 <= k1 < cv[c1].len() && 0 <= c2 < cv.len() && 0 <= k2 < cv[c2].len()
                && #[trigger] cv[c1][k1] == #[trigger] cv[c2][k2] implies c1 == c2 && k1 == k2 by {
            assert(clusters@[c1]@[k1] == clusters@[c2]@[k2]);
        }
        assert forall|c: int, k: int, j: int|
            0 <= c < cv.len() && 0 <= k < cv[c].len() && 0 <= j < n && #[trigger] close_at(m, cv[c][k] as int, j)
                implies has_member(cv[c], j) by {
            assert(close_at(m, clusters@[c]@[k] as int, j));
            assert(label@[j] == c);
            assert(has_member(clusters@[c]@, j));
            assert(cv[c] == clusters@[c]@);
        }
        assert forall|c: int, k: int| 0 <= c < cv.len() && 0 < k < cv[c].len() implies #[trigger] linked(m, cv[c], k) by {
            assert(linked(m, clusters@[c]@, k));
            assert(cv[c] == clusters@[c]@);
        }
        assert forall|c1: int, c2: int| 0 <= c1 < c2 < cv.len() implies (#[trigger] cv[c1])[0] < (#[trigger] cv[c2])[0] by {
            assert(clusters@[c1]@[0] < clusters@[c2]@[0]);
        }
    }
    clusters
}

/// Number of nodes among the first `k` without a cluster yet.
pub open spec fn unassigned(label: Seq<usize>, none: usize, k: int) -> nat
    decreases k,
{
    if k <= 0 {
        0
    } else {
        unassigned(label, none, k - 1) + if label[k - 1] == none { 1nat } else { 0nat }
    }
}

proof fn lemma_unassigned_update(label: Seq<usize>, none: usize, j: int, v: usize, k: int)
    requires
        0 <= j < label.len(),
        0 <= k <= label.len(),
        label[j] == none,
        v != none,
    ensures
        unassigned(label.update(j, v), none, k) == unassigned(label, none, k) - if j < k { 1int } else { 0int },
        unassigned(label, none, k) >= if j < k { 1int } else { 0int },
    decreases k,
{
    if k > 0 {
        lemma_unassigned_update(label, none, j, v, k - 1);
    }
}

/// Sums of squared distances are capped here; no map comes near it.
pub const COST_CAP: u128 = 0x8000_0000_0000_0000_0000_0000_0000_0000;

/// How far around each resource node depot sites are considered.
pub const SITE_REACH: i64 = 36;

pub open spec fn sq_dist(a: TilePosition, b: TilePosition) -> int {
    (a.x - b.x) * (a.x - b.x) + (a.y - b.y) * (a.y - b.y)
}

/// Total squared distance from `t` to the first `k` members, capped.
pub open spec fn site_cost(m: Seq<TilePosition>, cl: Seq<usize>, t: TilePosition, k: int) -> int
    decreases k,
{
    if k <= 0 {
        0
    } else {
        let s = site_cost(m, cl, t, k - 1) + sq_dist(m[cl[k - 1] as int], t);
        if s < COST_CAP {
            s
        } else {
            COST_CAP as int
        }
    }
}

pub open spec fn cost(m: Seq<TilePosition>, cl: Seq<usize>, t: TilePosition) -> int {
    site_cost(m, cl, t, cl.len() as int)
}

/// `t` lies in the square of reach around member `k`.
pub open spec fn in_box(m: Seq<TilePosition>, cl: Seq<usize>, k: int, t: TilePosition) -> bool {
    let c = m[cl[k] as int];
    c.x - SITE_REACH <= t.x <= c.x + SITE_REACH && c.y - SITE_REACH <= t.y <= c.y + SITE_REACH
}

/// A depot could stand at `t`, near some member of the cluster.
pub open spec fn site_candidate(world: World, depot: KindInfo, m: Seq<TilePosition>, cl: Seq<usize>, t: TilePosition) -> bool {
    can_place(world, depot, t) && exists|k: int| 0 <= k < cl.len() && #[trigger] in_box(m, cl, k, t)
}

/// Where the depot of a cluster goes: the candidate of least total squared
/// distance to the members; the first member's tile when there is no
/// candidate; the origin for an empty cluster.
pub open spec fn cluster_site(world: World, depot: KindInfo, m: Seq<TilePosition>, cl: Seq<usize>, r: TilePosition) -> bool {
    if cl.len() == 0 {
        r == TilePosition { x: 0, y: 0 }
    } else if exists|t: TilePosition| #[trigger] site_candidate(world, depot, m, cl, t) {
        &&& site_candidate(world, depot, m, cl, r)
        &&& forall|t: TilePosition| #[trigger] site_candidate(world, depot, m, cl, t) ==> cost(m, cl, r) <= cost(m, cl, t)
    } else {
        r == m[cl[0] as int]
    }
}

fn site_cost_exec(minerals: &Vec<TilePosition>, cluster: &Vec<usize>, t: TilePosition) -> (r: u128)
    requires
        forall|k: int| 0 <= k < cluster@.len() ==> (#[trigger] cluster@[k]) < minerals@.len(),
    ensures
        r == cost(minerals@, cluster@, t),
{
    let mut acc: u128 = 0;
    let mut k: usize = 0;
    while k < cluster.len()
        invariant
            k <= cluster@.len(),
            forall|j: int| 0 <= j < cluster@.len() ==> (#[trigger] cluster@[j]) < minerals@.len(),
            acc == site_cost(minerals@, cluster@, t, k as int),
            acc <= COST_CAP,
        decreases cluster.len() - k,
    {
        let c = minerals[cluster[k]];
        let dx: i64 = c.x as i64 - t.x as i64;
        let dy: i64 = c.y as i64 - t.y as i64;
        assert(0 <= dx * dx <= 0x1_0000_0000_0000_0000 && 0 <= dy * dy <= 0x1_0000_0000_0000_0000) by (nonlinear_arith)
            requires
                -0x1_0000_0000 <= dx <= 0x1_0000_0000,
                -0x1_0000_0000 <= dy <= 0x1_0000_0000,
        ;
        let term: u128 = (dx as i128 * dx as i128 + dy as i128 * dy as i128) as u128;
        assert(term == sq_dist(minerals@[cluster@[k as int] as int], t));
        if acc + term < COST_CAP {
            acc = acc + term;
        } else {
            acc = COST_CAP;
        }
        k = k + 1;
    }
    acc
}

pub open spec fn best_ok(world: World, depot: KindInfo, m: Seq<TilePosition>, cl: Seq<usize>, best: Option<(TilePosition, u128)>) -> bool {
    match best {
        Some((b, bc)) => bc == cost(m, cl, b) && site_candidate(world, depot, m, cl, b),
        None => true,
    }
}

pub open spec fn beats(m: Seq<TilePosition>, cl: Seq<usize>, best: Option<(TilePosition, u128)>, t: TilePosition) -> bool {
    match best {
        Some((_, bc)) => bc <= cost(m, cl, t),
        None => false,
    }
}

/// The depot site of one cluster (see `cluster_site`).
pub fn get_base_position_for_cluster(world: &World, depot: &KindInfo, minerals: &Vec<TilePosition>, cluster: &Vec<usize>) -> (r: TilePosition)
    requires
        forall|k: int| 0 <= k < cluster@.len() ==> (#[trigger] cluster@[k]) < minerals@.len(),
    ensures
        cluster_site(*world, *depot, minerals@, cluster@, r),
{
    let ghost m = minerals@;
    let ghost cl = cluster@;
    let mut best: Option<(TilePosition, u128)> = None;
    let mut ki: usize = 0;
    while ki < cluster.len()
        invariant
            ki <= cl.len(),
            m == minerals@,
            cl == cluster@,
            forall|k: int| 0 <= k < cl.len() ==> (#[trigger] cl[k]) < m.len(),
            best_ok(*world, *depot, m, cl, best),
            forall|t: TilePosition, k: int| 0 <= k < ki && #[trigger] in_box(m, cl, k, t) && can_place(*world, *depot, t)
                ==> beats(m, cl, best, t),
        decreases cluster.len() - ki,
    {
        let c = minerals[cluster[ki]];
        let mut dx: i64 = -SITE_REACH;
        while dx <= SITE_REACH
            invariant
                ki < cl.len(),
                -SITE_REACH <= dx <= SITE_REACH + 1,
                m == minerals@,
                cl == cluster@,
                c == m[cl[ki as int] as int],
                forall|k: int| 0 <= k < cl.len() ==> (#[trigger] cl[k]) < m.len(),
                best_ok(*world, *depot, m, cl, best),
                forall|t: TilePosition, k: int| 0 <= k < ki && #[trigger] in_box(m, cl, k, t) && can_place(*world, *depot, t)
                    ==> beats(m, cl, best, t),
                forall|t: TilePosition| #[trigger] in_box(m, cl, ki as int, t) && t.x - c.x < dx && can_place(*world, *depot, t)
                    ==> beats(m, cl, best, t),
            decreases SITE_REACH + 1 - dx,
        {
            let mut dy: i64 = -SITE_REACH;
            while dy <= SITE_REACH
                invariant
                    ki < cl.len(),
                    -SITE_REACH <= dx <= SITE_REACH,
                    -SITE_REACH <= dy <= SITE_REACH + 1,
                    m == minerals@,
                    cl == cluster@,
                    c == m[cl[ki as int] as int],
                    forall|k: int| 0 <= k < cl.len() ==> (#[trigger] cl[k]) < m.len(),
                    best_ok(*world, *depot, m, cl, best),
                    forall|t: TilePosition, k: int| 0 <= k < ki && #[trigger] in_box(m, cl, k, t) && can_place(*world, *depot, t)
                        ==> beats(m, cl, best, t),
                    forall|t: TilePosition| #[trigger] in_box(m, cl, ki as int, t) && t.x - c.x < dx && can_place(*world, *depot, t)
                        ==> beats(m, cl, best, t),
                    forall|t: TilePosition| #[trigger] in_box(m, cl, ki as int, t) && t.x - c.x == dx && t.y - c.y < dy
                        && can_place(*world, *depot, t) ==> beats(m, cl, best, t),
                decreases SITE_REACH + 1 - dy,
            {
                let tx: i64 = c.x as i64 + dx;
                let ty: i64 = c.y as i64 + dy;
                if -0x8000_0000 <= tx && tx <= 0x7fff_ffff && -0x8000_0000 <= ty && ty <= 0x7fff_ffff {
                    let cand = TilePosition { x: tx as i32, y: ty as i32 };
                    if placeable(world, depot, cand) {
                        let cc = site_cost_exec(minerals, cluster, cand);
                        proof {
                            assert(in_box(m, cl, ki as int, cand));
                        }
                        let better = match best {
                            Some((_, bc)) => cc < bc,
                            None => true,
                        };
                        if better {
                            best = Some((cand, cc));
                        }
                        proof {
                            assert forall|t: TilePosition| #[trigger] in_box(m, cl, ki as int, t) && t.x - c.x == dx && t.y - c.y < dy + 1
                                && can_place(*world, *depot, t) implies beats(m, cl, best, t) by {
                                if t.y - c.y == dy {
                                    assert(t == cand);
                                }
                            }
                        }
                    }
                }
                dy = dy + 1;
            }
            dx = dx + 1;
        }
        ki = ki + 1;
    }
    match best {
        Some((b, _)) => {
            proof {
                assert forall|t: TilePosition| #[trigger] site_candidate(*world, *depot, m, cl, t) implies
                    cost(m, cl, b) <= cost(m, cl, t) by {
                    let k = choose|k: int| 0 <= k < cl.len() && #[trigger] in_box(m, cl, k, t);
                    assert(beats(m, cl, best, t));
                }
                assert(site_candidate(*world, *depot, m, cl, b));
            }
            b
        },
        None => {
            proof {
                assert forall|t: TilePosition| !#[trigger] site_candidate(*world, *depot, m, cl, t) by {
                    if site_candidate(*world, *depot, m, cl, t) {
                        let k = choose|k: int| 0 <= k < cl.len() && #[trigger] in_box(m, cl, k, t);
                        assert(beats(m, cl, best, t));
                    }
                }
            }
            if cluster.len() == 0 {
                TilePosition { x: 0, y: 0 }
            } else {
                minerals[cluster[0]]
            }
        },
    }
}

/// The squared distance between two tiles.
pub fn distance_squared(a: TilePosition, b: TilePosition) -> (r: u128)
    ensures
        r == sq_dist(a, b),
{
    let dx: i64 = a.x as i64 - b.x as i64;
    let dy: i64 = a.y as i64 - b.y as i64;
    assert(0 <= dx * dx <= 0x1_0000_0000_0000_0000 && 0 <= dy * dy <= 0x1_0000_0000_0000_0000) by (nonlinear_arith)
        requires
            -0x1_0000_0000 <= dx <= 0x1_0000_0000,
            -0x1_0000_0000 <= dy <= 0x1_0000_0000,
    ;
    (dx as i128 * dx as i128 + dy as i128 * dy as i128) as u128
}

/// The player's first building: the building of least id.
pub open spec fn first_building(world: World, r: Option<Unit>) -> bool {
    let us = world.units@;
    match r {
        Some(u) => (exists|i: int| 0 <= i < us.len() && #[trigger] us[i] == u && u.is_building)
            && forall|i: int| 0 <= i < us.len() && (#[trigger] us[i]).is_building ==> u.id <= us[i].id,
        None => forall|i: int| 0 <= i < us.len() ==> !(#[trigger] us[i]).is_building,
    }
}

/// The player's start location: the start location nearest its first
/// building (the first such on ties); none without buildings or start
/// locations.
pub open spec fn start_location(world: World, r: Option<TilePosition>) -> bool {
    let sl = world.start_locations@;
    (exists|b: Option<Unit>| #[trigger] first_building(world, b) && match b {
        None => r.is_none(),
        Some(u) => match r {
            None => sl.len() == 0,
            Some(t) => exists|i: int| 0 <= i < sl.len() && #[trigger] sl[i] == t
                && (forall|j: int| 0 <= j < sl.len() ==> sq_dist(t, u.tile) <= sq_dist(#[trigger] sl[j], u.tile))
                && (forall|j: int| 0 <= j < i ==> sq_dist(t, u.tile) < sq_dist(#[trigger] sl[j], u.tile)),
        },
    })
}

fn find_first_building(world: &World) -> (r: Option<Unit>)
    ensures
        first_building(*world, r),
{
    let mut best: Option<Unit> = None;
    let mut i: usize = 0;
    while i < world.units.len()
        invariant
            i <= world.units@.len(),
            match best {
                Some(u) => (exists|j: int| 0 <= j < i && #[trigger] world.units@[j] == u && u.is_building)
                    && forall|j: int| 0 <= j < i && (#[trigger] world.units@[j]).is_building ==> u.id <= world.units@[j].id,
                None => forall|j: int| 0 <= j < i ==> !(#[trigger] world.units@[j]).is_building,
            },
        decreases world.units.len() - i,
    {
        let u = world.units[i];
        if u.is_building {
            let take = match best {
                Some(b) => u.id < b.id,
                None => true,
            };
            if take {
                best = Some(u);
            }
            proof {
                assert(world.units@[i as int] == u);
            }
        }
        i = i + 1;
    }
    best
}

/// The start location of the player (see `start_location`).
pub fn get_player_start_location(world: &World) -> (r: Option<TilePosition>)
    ensures
        start_location(*world, r),
{
    let first = find_first_building(world);
    let u = match first {
        Some(u) => u,
        None => {
            proof {
                assert(first_building(*world, first));
            }
            return None;
        },
    };
    let sl = &world.start_locations;
    let mut best: Option<(usize, u128)> = None;
    let mut i: usize = 0;
    while i < sl.len()
        invariant
            i <= sl@.len(),
            sl == &world.start_locations,
            match best {
                Some((bi, bd)) => bi < i && bd == sq_dist(sl@[bi as int], u.tile)
                    && (forall|j: int| 0 <= j < i ==> bd <= sq_dist(#[trigger] sl@[j], u.tile))
                    && (forall|j: int| 0 <= j < bi ==> bd < sq_dist(#[trigger] sl@[j], u.tile)),
                None => i == 0,
            },
        decreases sl.len() - i,
    {
        let d = distance_squared(sl[i], u.tile);
        let take = match best {
            Some((_, bd)) => d < bd,
            None => true,
        };
        if take {
            best = Some((i, d));
        }
        i = i + 1;
    }
    proof {
        assert(first_building(*world, first));
    }
    match best {
        Some((bi, _)) => {
            proof {
                assert(sl@[bi as int] == world.start_locations@[bi as int]);
            }
            Some(sl[bi])
        },
        None => None,
    }
}

pub open spec fn sorted_by_distance(s: Seq<TilePosition>, start: TilePosition) -> bool {
    forall|i: int, j: int| 0 <= i < j < s.len() ==> sq_dist(#[trigger] s[i], start) <= sq_dist(#[trigger] s[j], start)
}

/// Orders tiles by distance to `start`, nearest first.
pub fn sort_by_distance(sites: &Vec<TilePosition>, start: TilePosition) -> (r: Vec<TilePosition>)
    ensures
        r@.to_multiset() == sites@.to_multiset(),
        sorted_by_distance(r@, start),
{
    let mut out: Vec<TilePosition> = Vec::new();
    proof {
        assert(out@ =~= sites@.subrange(0, 0));
    }
    let mut i: usize = 0;
    while i < sites.len()
        invariant
            i <= sites@.len(),
            out@.to_multiset() == sites@.subrange(0, i as int).to_multiset(),
            sorted_by_distance(out@, start),
        decreases sites.len() - i,
    {
        let p = sites[i];
        let d = distance_squared(p, start);
        let mut k: usize = 0;
        while k < out.len() && distance_squared(out[k], start) <= d
            invariant
                k <= out@.len(),
                forall|j: int| 0 <= j < k ==> sq_dist(#[trigger] out@[j], start) <= d,
            decreases out.len() - k,
        {
            k = k + 1;
        }
        let ghost before = out@;
        proof {
            vstd::seq_lib::to_multiset_insert(before, k as int, p);
            assert(sites@.subrange(0, i + 1) =~= sites@.subrange(0, i as int).push(p));
            vstd::seq_lib::to_multiset_build(sites@.subrange(0, i as int), p);
        }
        out.insert(k, p);
        proof {
            assert forall|a: int, b: int| 0 <= a < b < out@.len() implies
                sq_dist(#[trigger] out@[a], start) <= sq_dist(#[trigger] out@[b], start) by {
                if b < k {
                } else if b == k {
                    assert(out@[a] == before[a]);
                } else if a == k {
                    assert(out@[b] == before[b - 1]);
                    assert(sq_dist(before[k as int], start) > d);
                    if b - 1 > k {
                        assert(sq_dist(before[k as int], start) <= sq_dist(before[b - 1], start));
                    }
                } else if a < k {
                    assert(out@[b] == before[b - 1]);
                } else {
                    assert(out@[a] == before[a - 1]);
                    assert(out@[b] == before[b - 1]);
                }
            }
        }
        i = i + 1;
    }
    proof {
        assert(sites@.subrange(0, sites@.len() as int) =~= sites@);
    }
    out
}

/// `t` lies within three tiles (on each axis) of `b`.
pub open spec fn near_base(b: TilePosition, t: TilePosition) -> bool {
    b.x - 3 <= t.x <= b.x + 3 && b.y - 3 <= t.y <= b.y + 3
}

/// The square of radius three around `b` lies within the coordinate range
/// (true of every tile on a map).
pub open spec fn square_fits(b: TilePosition) -> bool {
    -0x8000_0000 + 3 <= b.x <= 0x7fff_ffff - 3 && -0x8000_0000 + 3 <= b.y <= 0x7fff_ffff - 3
}

/// The tiles checked around a base location: each tile of the square of
/// radius three, with whether a depot could stand there. They come row by
/// row, 49 of them: entry `k` is offset `(k / 7 - 3, k % 7 - 3)` from `b`.
/// Only where the square would leave the coordinate range are the tiles
/// outside it left out.
pub open spec fn checked_around(world: World, depot: KindInfo, b: TilePosition, r: Seq<CheckedPosition>) -> bool {
    &&& r.len() <= 49
    &&& square_fits(b) ==> r.len() == 49
    &&& square_fits(b) ==> forall|k: int| 0 <= k < r.len() ==>
        (#[trigger] r[k]).tile_position.x == b.x + k / 7 - 3 && r[k].tile_position.y == b.y + k % 7 - 3
    &&& forall|k: int| 0 <= k < r.len() ==> near_base(b, (#[trigger] r[k]).tile_position)
        && r[k].is_valid == can_place(world, depot, r[k].tile_position)
    &&& forall|t: TilePosition| #[trigger] near_base(b, t) ==> exists|k: int| 0 <= k < r.len() && #[trigger] r[k].tile_position == t
}

fn check_positions(world: &World, depot: &KindInfo, b: TilePosition) -> (r: Vec<CheckedPosition>)
    ensures
        checked_around(*world, *depot, b, r@),
{
    let mut out: Vec<CheckedPosition> = Vec::new();
    let mut dx: i64 = -3;
    while dx <= 3
        invariant
            -3 <= dx <= 4,
            out@.len() <= (dx + 3) * 7,
            square_fits(b) ==> out@.len() == (dx + 3) * 7,
            square_fits(b) ==> forall|k: int| 0 <= k < out@.len() ==>
                (#[trigger] out@[k]).tile_position.x == b.x + k / 7 - 3 && out@[k].tile_position.y == b.y + k % 7 - 3,
            forall|k: int| 0 <= k < out@.len() ==> near_base(b, (#[trigger] out@[k]).tile_position)
                && out@[k].is_valid == can_place(*world, *depot, out@[k].tile_position),
            forall|t: TilePosition| #[trigger] near_base(b, t) && t.x - b.x < dx ==>
                exists|k: int| 0 <= k < out@.len() && #[trigger] out@[k].tile_position == t,
        decreases 4 - dx,
    {
        let mut dy: i64 = -3;
        while dy <= 3
            invariant
                -3 <= dx <= 3,
                -3 <= dy <= 4,
                out@.len() <= (dx + 3) * 7 + (dy + 3),
                square_fits(b) ==> out@.len() == (dx + 3) * 7 + (dy + 3),
                square_fits(b) ==> forall|k: int| 0 <= k < out@.len() ==>
                    (#[trigger] out@[k]).tile_position.x == b.x + k / 7 - 3 && out@[k].tile_position.y == b.y + k % 7 - 3,
                forall|k: int| 0 <= k < out@.len() ==> near_base(b, (#[trigger] out@[k]).tile_position)
                    && out@[k].is_valid == can_place(*world, *depot, out@[k].tile_position),
                forall|t: TilePosition| #[trigger] near_base(b, t) && t.x - b.x < dx ==>
                    exists|k: int| 0 <= k < out@.len() && #[trigger] out@[k].tile_position == t,
                forall|t: TilePosition| #[trigger] near_base(b, t) && t.x - b.x == dx && t.y - b.y < dy ==>
                    exists|k: int| 0 <= k < out@.len() && #[trigger] out@[k].tile_position == t,
            decreases 4 - dy,
        {
            let tx: i64 = b.x as i64 + dx;
            let ty: i64 = b.y as i64 + dy;
            let ghost before = out@;
            if -0x8000_0000 <= tx && tx <= 0x7fff_ffff && -0x8000_0000 <= ty && ty <= 0x7fff_ffff {
                let t = TilePosition { x: tx as i32, y: ty as i32 };
                let ok = placeable(world, depot, t);
                out.push(CheckedPosition { tile_position: t, is_valid: ok });
                proof {
                    let last = out@.len() - 1;
                    assert(out@[last].tile_position == t);
                    if square_fits(b) {
                        vstd::arithmetic::div_mod::lemma_fundamental_div_mod_converse(last, 7, dx + 3, dy + 3);
                        assert forall|k: int| 0 <= k < out@.len() implies
                            (#[trigger] out@[k]).tile_position.x == b.x + k / 7 - 3 && out@[k].tile_position.y == b.y + k % 7 - 3 by {
                            if k < last {
                                assert(out@[k] == before[k]);
                            }
                        }
                    }
                    assert forall|u: TilePosition| #[trigger] near_base(b, u) && u.x - b.x < dx implies
                        exists|k: int| 0 <= k < out@.len() && #[trigger] out@[k].tile_position == u by {
                        let k = choose|k: int| 0 <= k < before.len() && #[trigger] before[k].tile_position == u;
                        assert(out@[k] == before[k]);
                    }
                    assert forall|u: TilePosition| #[trigger] near_base(b, u) && u.x - b.x == dx && u.y - b.y < dy + 1 implies
                        exists|k: int| 0 <= k < out@.len() && #[trigger] out@[k].tile_position == u by {
                        if u.y - b.y == dy {
                            assert(u == t);
                        } else {
                            let k = choose|k: int| 0 <= k < before.len() && #[trigger] before[k].tile_position == u;
                            assert(out@[k] == before[k]);
                        }
                    }
                }
            }
            dy = dy + 1;
        }
        dx = dx + 1;
    }
    out
}

/// The tiles of the mineral fields, in order.
pub open spec fn mineral_tiles(world: World) -> Seq<TilePosition> {
    world.minerals@.map_values(|r: Resource| r.tile)
}

fn tiles_of(minerals: &Vec<Resource>) -> (r: Vec<TilePosition>)
    ensures
        r@ == minerals@.map_values(|m: Resource| m.tile),
{
    let mut out: Vec<TilePosition> = Vec::new();
    let mut i: usize = 0;
    while i < minerals.len()
        invariant
            i <= minerals@.len(),
            out@.len() == i,
            forall|j: int| 0 <= j < i ==> out@[j] == (#[trigger] minerals@[j]).tile,
        decreases minerals.len() - i,
    {
        out.push(minerals[i].tile);
        i = i + 1;
    }
    proof {
        assert(out@ =~= minerals@.map_values(|m: Resource| m.tile));
    }
    out
}

/// What the precomputation works from: the start location, a clustering of
/// the mineral fields and the depot site of each cluster.
pub open spec fn base_plan(world: World, depot: KindInfo, st: Option<TilePosition>, cv: Seq<Seq<usize>>, sites: Seq<TilePosition>) -> bool {
    &&& start_location(world, st)
    &&& clustering(mineral_tiles(world), cv)
    &&& sites.len() == cv.len()
    &&& forall|c: int| 0 <= c < cv.len() ==> #[trigger] cluster_site(world, depot, mineral_tiles(world), cv[c], sites[c])
}

/// The base locations: no start location, none; else the cluster sites
/// nearest the start first, each with its checked tiles.
pub open spec fn base_result(world: World, depot: KindInfo, st: Option<TilePosition>, sites: Seq<TilePosition>, r: Seq<BaseLocation>) -> bool {
    match st {
        None => r.len() == 0,
        Some(s) => {
            &&& positions(r).to_multiset() == sites.to_multiset()
            &&& sorted_by_distance(positions(r), s)
            &&& forall|i: int| 0 <= i < r.len() ==> #[trigger] checked_around(world, depot, r[i].position, r[i].checked_positions@)
        },
    }
}

/// Precomputes the base locations at match start, for depots of kind
/// `depot`.
pub fn get_base_locations(world: &World, depot: &KindInfo) -> (r: Vec<BaseLocation>)
    ensures
        exists|st: Option<TilePosition>, cv: Seq<Seq<usize>>, sites: Seq<TilePosition>|
            #[trigger] base_plan(*world, *depot, st, cv, sites) && base_result(*world, *depot, st, sites, r@),
{
    let tiles = tiles_of(&world.minerals);
    let clusters = get_resource_clusters(&tiles);
    let ghost cv = cview(clusters@);
    let ghost m = tiles@;
    proof {
        assert(m =~= mineral_tiles(*world));
    }
    let mut sites: Vec<TilePosition> = Vec::new();
    let mut c: usize = 0;
    while c < clusters.len()
        invariant
            c <= clusters@.len(),
            cv == cview(clusters@),
            m == tiles@,
            m == mineral_tiles(*world),
            clustering(m, cv),
            sites@.len() == c,
            forall|j: int| 0 <= j < c ==> #[trigger] cluster_site(*world, *depot, m, cv[j], sites@[j]),
        decreases clusters.len() - c,
    {
        proof {
            assert(cv[c as int] == clusters@[c as int]@);
            assert forall|k: int| 0 <= k < clusters@[c as int]@.len() implies (#[trigger] clusters@[c as int]@[k]) < m.len() by {
                assert(cv[c as int][k] == clusters@[c as int]@[k]);
            }
        }
        let site = get_base_position_for_cluster(world, depot, &tiles, &clusters[c]);
        sites.push(site);
        proof {
            assert(sites@[c as int] == site);
        }
        c = c + 1;
    }
    let st = get_player_start_location(world);
    let start = match st {
        None => {
            let empty: Vec<BaseLocation> = Vec::new();
            proof {
                assert(base_plan(*world, *depot, st, cv, sites@));
            }
            return empty;
        },
        Some(s) => s,
    };
    let sorted = sort_by_distance(&sites, start);
    let mut out: Vec<BaseLocation> = Vec::new();
    let mut i: usize = 0;
    while i < sorted.len()
        invariant
            i <= sorted@.len(),
            out@.len() == i,
            forall|j: int| 0 <= j < i ==> (#[trigger] out@[j]).position == sorted@[j],
            forall|j: int| 0 <= j < i ==> #[trigger] checked_around(*world, *depot, out@[j].position, out@[j].checked_positions@),
        decreases sorted.len() - i,
    {
        let p = sorted[i];
        let checked = check_positions(world, depot, p);
        out.push(BaseLocation { position: p, checked_positions: checked });
        proof {
            assert(out@[i as int].position == p);
        }
        i = i + 1;
    }
    proof {
        assert(positions(out@) =~= sorted@);
        assert(base_plan(*world, *depot, st, cv, sites@));
        assert(base_result(*world, *depot, st, sites@, out@));
    }
    out
}

} // verus!
