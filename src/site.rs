use vstd::prelude::*;
use crate::model::{
    first_index, lemma_first_index, lemma_first_index_stays, KindInfo, TilePosition, Unit, World,
};

verus! {

/// Distance from `p` to the interval `[lo, hi]`.
pub open spec fn gap(p: int, lo: int, hi: int) -> int {
    if p < lo {
        lo - p
    } else if p > hi {
        p - hi
    } else {
        0
    }
}

/// The host's placement predicate for `info` at tile `t`.
pub open spec fn can_place(world: World, info: KindInfo, t: TilePosition) -> bool {
    let idx = t.y * world.map_width + t.x;
    &&& 0 <= t.x < world.map_width
    &&& 0 <= t.y < world.map_height
    &&& idx < info.placement@.len()
    &&& info.placement@[idx]
}

/// Some tile of the `w` by `h` footprint at `t` lies closer than three tiles
/// to tile `d`.
pub open spec fn near_depot(t: TilePosition, w: int, h: int, d: TilePosition) -> bool {
    let dx = gap(d.x as int, t.x as int, t.x + w - 1);
    let dy = gap(d.y as int, t.y as int, t.y + h - 1);
    dx * dx + dy * dy < 9
}

/// The footprint at `t` would stand within clearance of a resource depot.
pub open spec fn blocks_worker_path_spec(world: World, t: TilePosition, w: int, h: int) -> bool {
    exists|i: int|
        0 <= i < world.units@.len() && (#[trigger] world.units@[i]).is_depot
            && near_depot(t, w, h, world.units@[i].tile)
}

/// The footprint at `t`, grown by one tile on each side, touches the
/// footprint of `o`, grown likewise.
pub open spec fn touches(t: TilePosition, w: int, h: int, o: Unit) -> bool {
    &&& t.x - 1 < o.tile.x + o.width
    &&& t.x + w > o.tile.x - 1
    &&& t.y - 1 < o.tile.y + o.height
    &&& t.y + h > o.tile.y - 1
}

pub open spec fn next_to_building(world: World, t: TilePosition, w: int, h: int) -> bool {
    exists|i: int|
        0 <= i < world.units@.len() && (#[trigger] world.units@[i]).is_building && touches(t, w, h, world.units@[i])
}

/// The footprint at `t` overlaps the reserved depot footprint (`dw` by `dh`)
/// of a base location.
pub open spec fn covers_base(t: TilePosition, w: int, h: int, bases: Seq<TilePosition>, dw: int, dh: int) -> bool {
    exists|i: int|
        0 <= i < bases.len() && t.x < (#[trigger] bases[i]).x + dw && bases[i].x < t.x + w && t.y < bases[i].y + dh
            && bases[i].y < t.y + h
}

/// A tile passes every predicate of the location search.
pub open spec fn viable(world: World, info: KindInfo, t: TilePosition, bases: Seq<TilePosition>, dw: int, dh: int) -> bool {
    &&& can_place(world, info, t)
    &&& !blocks_worker_path_spec(world, t, info.width as int, info.height as int)
    &&& !next_to_building(world, t, info.width as int, info.height as int)
    &&& !covers_base(t, info.width as int, info.height as int, bases, dw, dh)
}

pub open spec fn abs(v: int) -> int {
    if v < 0 {
        -v
    } else {
        v
    }
}

/// Ring distance between two tiles.
pub open spec fn ring(t: TilePosition, c: TilePosition) -> int {
    let ax = abs(t.x - c.x);
    let ay = abs(t.y - c.y);
    if ax >= ay {
        ax
    } else {
        ay
    }
}

pub(crate) fn placeable(world: &World, info: &KindInfo, t: TilePosition) -> (r: bool)
    ensures
        r == can_place(*world, *info, t),
{
    if t.x < 0 || t.x >= world.map_width || t.y < 0 || t.y >= world.map_height {
        return false;
    }
    let y = t.y as u64;
    let w = world.map_width as u64;
    assert(y * w <= 0x7fff_ffffu64 * 0x7fff_ffffu64) by (nonlinear_arith)
        requires
            y <= 0x7fff_ffffu64,
            w <= 0x7fff_ffffu64,
    ;
    let idx: u64 = y * w + t.x as u64;
    if idx < info.placement.len() as u64 {
        info.placement[idx as usize]
    } else {
        false
    }
}

fn gap_exec(p: i64, lo: i64, hi: i64) -> (r: i64)
    requires
        -0x2_0000_0000 <= p <= 0x2_0000_0000,
        -0x2_0000_0000 <= lo <= 0x2_0000_0000,
        -0x2_0000_0000 <= hi <= 0x2_0000_0000,
    ensures
        r == gap(p as int, lo as int, hi as int),
{
    if p < lo {
        lo - p
    } else if p > hi {
        p - hi
    } else {
        0
    }
}

fn near(t: TilePosition, w: i32, h: i32, d: TilePosition) -> (r: bool)
    ensures
        r == near_depot(t, w as int, h as int, d),
{
    let dx = gap_exec(d.x as i64, t.x as i64, t.x as i64 + w as i64 - 1);
    let dy = gap_exec(d.y as i64, t.y as i64, t.y as i64 + h as i64 - 1);
    if dx >= 3 || dy >= 3 {
        assert(dx * dx >= 9 || dy * dy >= 9) by (nonlinear_arith)
            requires
                dx >= 3 || dy >= 3,
        ;
        assert(dx * dx >= 0 && dy * dy >= 0) by (nonlinear_arith);
        return false;
    }
    assert(dx * dx <= 4 && dy * dy <= 4) by (nonlinear_arith)
        requires
            0 <= dx < 3,
            0 <= dy < 3,
    ;
    dx * dx + dy * dy < 9
}

/// Whether the footprint at `tile_position` would stand within clearance of
/// a resource depot.
pub fn blocks_worker_path(world: &World, tile_position: TilePosition, width: i32, height: i32) -> (r: bool)
    ensures
        r == blocks_worker_path_spec(*world, tile_position, width as int, height as int),
{
    let mut i: usize = 0;
    while i < world.units.len()
        invariant
            i <= world.units.len(),
            forall|j: int| 0 <= j < i ==> !((#[trigger] world.units@[j]).is_depot
                && near_depot(tile_position, width as int, height as int, world.units@[j].tile)),
        decreases world.units.len() - i,
    {
        let u = &world.units[i];
        if u.is_depot && near(tile_position, width, height, u.tile) {
            return true;
        }
        i = i + 1;
    }
    false
}

/// Whether the footprint at `tile_position`, with a one-tile buffer, touches
/// another building's.
pub fn is_next_to_other_building(world: &World, tile_position: TilePosition, width: i32, height: i32) -> (r: bool)
    ensures
        r == next_to_building(*world, tile_position, width as int, height as int),
{
    let mut i: usize = 0;
    while i < world.units.len()
        invariant
            i <= world.units.len(),
            forall|j: int| 0 <= j < i ==> !((#[trigger] world.units@[j]).is_building
                && touches(tile_position, width as int, height as int, world.units@[j])),
        decreases world.units.len() - i,
    {
        let o = &world.units[i];
        let t = tile_position;
        if o.is_building && (t.x as i64) - 1 < o.tile.x as i64 + o.width as i64
            && t.x as i64 + width as i64 > (o.tile.x as i64) - 1
            && (t.y as i64) - 1 < o.tile.y as i64 + o.height as i64
            && t.y as i64 + height as i64 > (o.tile.y as i64) - 1 {
            return true;
        }
        i = i + 1;
    }
    false
}

/// Whether the footprint at `tile_position` overlaps the reserved depot
/// footprint of a base location.
pub fn building_covers_command_center_location(tile_position: TilePosition, width: i32, height: i32, bases: &Vec<TilePosition>, depot_width: i32, depot_height: i32) -> (r: bool)
    ensures
        r == covers_base(tile_position, width as int, height as int, bases@, depot_width as int, depot_height as int),
{
    let mut i: usize = 0;
    while i < bases.len()
        invariant
            i <= bases.len(),
            forall|j: int| 0 <= j < i ==> !(tile_position.x < (#[trigger] bases@[j]).x + depot_width && bases@[j].x < tile_position.x + width
                && tile_position.y < bases@[j].y + depot_height && bases@[j].y < tile_position.y + height),
        decreases bases.len() - i,
    {
        let b = bases[i];
        if (tile_position.x as i64) < b.x as i64 + depot_width as i64 && (b.x as i64) < tile_position.x as i64 + width as i64
            && (tile_position.y as i64) < b.y as i64 + depot_height as i64 && (b.y as i64) < tile_position.y as i64 + height as i64 {
            assert(bases@[i as int] == b);
            assert(tile_position.x < bases@[i as int].x + depot_width && bases@[i as int].x < tile_position.x + width
                && tile_position.y < bases@[i as int].y + depot_height && bases@[i as int].y < tile_position.y + height);
            assert(covers_base(tile_position, width as int, height as int, bases@, depot_width as int, depot_height as int));
            return true;
        }
        i = i + 1;
    }
    false
}

/// Whether `tile_position` passes every predicate of the location search.
pub fn is_viable_location(world: &World, info: &KindInfo, tile_position: TilePosition, bases: &Vec<TilePosition>, depot_width: i32, depot_height: i32) -> (r: bool)
    ensures
        r == viable(*world, *info, tile_position, bases@, depot_width as int, depot_height as int),
{
    placeable(world, info, tile_position)
        && !blocks_worker_path(world, tile_position, info.width, info.height)
        && !is_next_to_other_building(world, tile_position, info.width, info.height)
        && !building_covers_command_center_location(tile_position, info.width, info.height, bases, depot_width, depot_height)
}

/// A candidate of the spread location search may be ruled out.
pub proof fn clearance_rejects_tile(world: World, info: KindInfo, t: TilePosition, bases: Seq<TilePosition>, dw: int, dh: int, depot: int)
    requires
        0 <= depot < world.units@.len(),
        world.units@[depot].is_depot,
        near_depot(t, info.width as int, info.height as int, world.units@[depot].tile),
    ensures
        !viable(world, info, t, bases, dw, dh),
{
    assert(blocks_worker_path_spec(world, t, info.width as int, info.height as int));
}

/// What the spread search may return around `c` within `range`: a viable
/// tile with no viable tile on a nearer ring, or nothing when no tile in
/// range is viable.
pub open spec fn nearest_viable(world: World, info: KindInfo, c: TilePosition, bases: Seq<TilePosition>, dw: int, dh: int, range: int, r: Option<TilePosition>) -> bool {
    match r {
        Some(t) => {
            &&& viable(world, info, t, bases, dw, dh)
            &&& ring(t, c) <= range
            &&& forall|u: TilePosition| ring(u, c) < ring(t, c) ==> !#[trigger] viable(world, info, u, bases, dw, dh)
        },
        None => forall|u: TilePosition| ring(u, c) <= range ==> !#[trigger] viable(world, info, u, bases, dw, dh),
    }
}

/// Spread search: scans the rings around `center`, nearest first, and
/// returns the first viable tile.
pub fn find_spread_location(world: &World, info: &KindInfo, center: TilePosition, bases: &Vec<TilePosition>, depot_width: i32, depot_height: i32, max_range: i32) -> (r: Option<TilePosition>)
    ensures
        nearest_viable(*world, *info, center, bases@, depot_width as int, depot_height as int, max_range as int, r),
{
    if max_range < 0 {
        return None;
    }
    let mut d: i64 = 0;
    while d <= max_range as i64
        invariant
            0 <= d <= max_range + 1,
            forall|u: TilePosition| ring(u, center) < d ==> !#[trigger] viable(*world, *info, u, bases@, depot_width as int, depot_height as int),
        decreases max_range + 1 - d,
    {
        let mut dx: i64 = -d;
        while dx <= d
            invariant
                0 <= d <= max_range,
                -d <= dx <= d + 1,
                forall|u: TilePosition| ring(u, center) < d ==> !#[trigger] viable(*world, *info, u, bases@, depot_width as int, depot_height as int),
                forall|u: TilePosition| ring(u, center) == d && u.x - center.x < dx ==> !#[trigger] viable(*world, *info, u, bases@, depot_width as int, depot_height as int),
            decreases d + 1 - dx,
        {
            let mut dy: i64 = -d;
            while dy <= d
                invariant
                    0 <= d <= max_range,
                    -d <= dx <= d,
                    -d <= dy <= d + 1,
                    forall|u: TilePosition| ring(u, center) < d ==> !#[trigger] viable(*world, *info, u, bases@, depot_width as int, depot_height as int),
                    forall|u: TilePosition| ring(u, center) == d && u.x - center.x < dx ==> !#[trigger] viable(*world, *info, u, bases@, depot_width as int, depot_height as int),
                    forall|u: TilePosition| ring(u, center) == d && u.x - center.x == dx && u.y - center.y < dy ==> !#[trigger] viable(*world, *info, u, bases@, depot_width as int, depot_height as int),
                decreases d + 1 - dy,
            {
                if dx == d || dx == -d || dy == d || dy == -d {
                    let cx: i64 = center.x as i64 + dx;
                    let cy: i64 = center.y as i64 + dy;
                    if -0x8000_0000 <= cx && cx <= 0x7fff_ffff && -0x8000_0000 <= cy && cy <= 0x7fff_ffff {
                        let cand = TilePosition { x: cx as i32, y: cy as i32 };
                        assert(ring(cand, center) == d);
                        let ok = is_viable_location(world, info, cand, bases, depot_width, depot_height);
                        if ok {
                            return Some(cand);
                        }
                        assert forall|u: TilePosition| ring(u, center) == d && u.x - center.x == dx && u.y - center.y < dy + 1
                            implies !#[trigger] viable(*world, *info, u, bases@, depot_width as int, depot_height as int) by {
                            if u.y - center.y == dy {
                                assert(u == cand);
                            }
                        }
                    }
                }
                dy = dy + 1;
            }
            dx = dx + 1;
        }
        d = d + 1;
    }
    None
}

pub open spec fn geyser_open(world: World, info: KindInfo) -> spec_fn(int) -> bool {
    |i: int| can_place(world, info, world.geysers@[i])
}

/// Refinery placement: the first gas resource where the host's placement
/// predicate accepts the refinery.
pub open spec fn refinery_site(world: World, info: KindInfo) -> Option<TilePosition> {
    let i = first_index(geyser_open(world, info), world.geysers@.len() as int);
    if i >= 0 {
        Some(world.geysers@[i])
    } else {
        None
    }
}

/// Some resource depot stands within five tiles of `b`.
pub open spec fn claimed(world: World, b: TilePosition) -> bool {
    exists|i: int|
        0 <= i < world.units@.len() && (#[trigger] world.units@[i]).is_depot
            && (world.units@[i].tile.x - b.x) * (world.units@[i].tile.x - b.x)
            + (world.units@[i].tile.y - b.y) * (world.units@[i].tile.y - b.y) < 25
}

pub open spec fn base_free(world: World, bases: Seq<TilePosition>) -> spec_fn(int) -> bool {
    |i: int| !claimed(world, bases[i])
}

/// Expansion placement: the first base location, in the given order, that
/// no resource depot claims.
pub open spec fn expansion_site(world: World, bases: Seq<TilePosition>) -> Option<TilePosition> {
    let i = first_index(base_free(world, bases), bases.len() as int);
    if i >= 0 {
        Some(bases[i])
    } else {
        None
    }
}

fn find_refinery_location(world: &World, info: &KindInfo) -> (r: Option<TilePosition>)
    ensures
        r == refinery_site(*world, *info),
{
    let ghost p = geyser_open(*world, *info);
    let n = world.geysers.len();
    proof {
        lemma_first_index(p, n as int);
    }
    let mut i: usize = 0;
    while i < n
        invariant
            i <= n,
            n == world.geysers@.len(),
            p == geyser_open(*world, *info),
            first_index(p, i as int) == -1,
        decreases n - i,
    {
        if placeable(world, info, world.geysers[i]) {
            proof {
                assert(p(i as int));
                assert(first_index(p, i + 1) == i);
                lemma_first_index_stays(p, i + 1, n as int);
            }
            return Some(world.geysers[i]);
        }
        proof {
            assert(!p(i as int));
        }
        i = i + 1;
    }
    None
}

fn depot_close(a: TilePosition, b: TilePosition) -> (r: bool)
    ensures
        r == ((a.x - b.x) * (a.x - b.x) + (a.y - b.y) * (a.y - b.y) < 25),
{
    let dx: i64 = a.x as i64 - b.x as i64;
    let dy: i64 = a.y as i64 - b.y as i64;
    if dx >= 5 || dx <= -5 || dy >= 5 || dy <= -5 {
        assert(dx * dx >= 25 || dy * dy >= 25) by (nonlinear_arith)
            requires
                dx >= 5 || dx <= -5 || dy >= 5 || dy <= -5,
        ;
        assert(dx * dx >= 0 && dy * dy >= 0) by (nonlinear_arith);
        return false;
    }
    assert(0 <= dx * dx <= 16 && 0 <= dy * dy <= 16) by (nonlinear_arith)
        requires
            -5 < dx < 5,
            -5 < dy < 5,
    ;
    dx * dx + dy * dy < 25
}

fn is_claimed(world: &World, b: TilePosition) -> (r: bool)
    ensures
        r == claimed(*world, b),
{
    let mut i: usize = 0;
    while i < world.units.len()
        invariant
            i <= world.units.len(),
            forall|j: int| 0 <= j < i ==> !((#[trigger] world.units@[j]).is_depot
                && (world.units@[j].tile.x - b.x) * (world.units@[j].tile.x - b.x)
                + (world.units@[j].tile.y - b.y) * (world.units@[j].tile.y - b.y) < 25),
        decreases world.units.len() - i,
    {
        if world.units[i].is_depot && depot_close(world.units[i].tile, b) {
            return true;
        }
        i = i + 1;
    }
    false
}

/// The nearest base location (bases are ordered nearest first) that no
/// resource depot claims yet.
pub fn get_command_center_location(world: &World, bases: &Vec<TilePosition>) -> (r: Option<TilePosition>)
    ensures
        r == expansion_site(*world, bases@),
{
    let ghost p = base_free(*world, bases@);
    let n = bases.len();
    proof {
        lemma_first_index(p, n as int);
    }
    let mut i: usize = 0;
    while i < n
        invariant
            i <= n,
            n == bases@.len(),
            p == base_free(*world, bases@),
            first_index(p, i as int) == -1,
        decreases n - i,
    {
        if !is_claimed(world, bases[i]) {
            proof {
                assert(p(i as int));
                assert(first_index(p, i + 1) == i);
                lemma_first_index_stays(p, i + 1, n as int);
            }
            return Some(bases[i]);
        }
        proof {
            assert(!p(i as int));
        }
        i = i + 1;
    }
    None
}

/// What the location search owes for `info`: the refinery placement, the
/// expansion placement, or the nearest viable tile around `center`.
pub open spec fn site_result(world: World, info: KindInfo, center: TilePosition, bases: Seq<TilePosition>, dw: int, dh: int, range: int, r: Option<TilePosition>) -> bool {
    if info.is_refinery {
        r == refinery_site(world, info)
    } else if info.is_depot {
        r == expansion_site(world, bases)
    } else {
        nearest_viable(world, info, center, bases, dw, dh, range, r)
    }
}

/// The location search for a building of kind `info`, acted on by a builder
/// standing at `center`.
pub fn find_build_location(world: &World, info: &KindInfo, center: TilePosition, bases: &Vec<TilePosition>, depot_width: i32, depot_height: i32, max_range: i32) -> (r: Option<TilePosition>)
    ensures
        site_result(*world, *info, center, bases@, depot_width as int, depot_height as int, max_range as int, r),
{
    if info.is_refinery {
        find_refinery_location(world, info)
    } else if info.is_depot {
        get_command_center_location(world, bases)
    } else {
        find_spread_location(world, info, center, bases, depot_width, depot_height, max_range)
    }
}

/// The search radius used by the scheduler.
pub const SEARCH_RANGE: i32 = 15;

/// The location search with the scheduler's radius.
pub fn find_build_location_default(world: &World, info: &KindInfo, center: TilePosition, bases: &Vec<TilePosition>, depot_width: i32, depot_height: i32) -> (r: Option<TilePosition>)
    ensures
        site_result(*world, *info, center, bases@, depot_width as int, depot_height as int, SEARCH_RANGE as int, r),
{
    find_build_location(world, info, center, bases, depot_width, depot_height, SEARCH_RANGE)
}

} // verus!
