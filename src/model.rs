use vstd::prelude::*;

verus! {

/// A tile coordinate on the map.
#[derive(Clone, Copy, Debug, PartialEq, Eq, Structural)]
pub struct TilePosition {
    pub x: i32,
    pub y: i32,
}

/// The current order of an entity, as far as the scheduler needs to tell
/// them apart.
#[derive(Clone, Copy, Debug, PartialEq, Eq, Structural)]
pub enum Order {
    Idle,
    Move,
    PlaceBuilding,
    ConstructingBuilding,
    ResetCollision,
    Train,
    Upgrade,
    Gather,
    Other,
}

/// One entity owned by the player, as observed this tick.
#[derive(Clone, Copy, Debug, PartialEq, Eq, Structural)]
pub struct Unit {
    pub id: usize,
    pub kind: u32,
    pub tile: TilePosition,
    /// Footprint in tiles (buildings only; zero otherwise).
    pub width: i32,
    pub height: i32,
    pub is_building: bool,
    /// The entity is a resource depot (where workers return resources).
    pub is_depot: bool,
    pub is_worker: bool,
    pub is_refinery: bool,
    pub completed: bool,
    pub constructing: bool,
    pub training: bool,
    pub upgrading: bool,
    pub idle: bool,
    pub gathering: bool,
    pub order: Order,
    /// What the entity constructs, trains or researches right now, if anything.
    pub activity: Option<u32>,
}

/// A requirement on completed entities of some kind.
#[derive(Clone, Copy, Debug, PartialEq, Eq, Structural)]
pub struct Requirement {
    pub kind: u32,
    pub count: u32,
}

/// What the scheduler reads of a unit kind or an upgrade kind.
#[derive(Clone, Debug)]
pub struct KindInfo {
    pub id: u32,
    pub mineral_price: u32,
    pub gas_price: u32,
    /// The kind of entity that builds, trains or researches this kind.
    pub producer: u32,
    pub is_building: bool,
    pub is_refinery: bool,
    pub is_depot: bool,
    /// Capacity (population headroom) that one completed entity provides.
    pub capacity: u32,
    /// Footprint in tiles.
    pub width: i32,
    pub height: i32,
    /// Completed entities that must exist before this kind can be made.
    pub requires: Vec<Requirement>,
    /// Whether the technology this kind depends on (if any) is researched.
    pub tech_ready: bool,
    /// The host's placement predicate for this kind, one flag per map tile,
    /// row by row (`y * map_width + x`); empty where the kind is not placed.
    pub placement: Vec<bool>,
}

/// The resources of the player.
#[derive(Clone, Copy, Debug, PartialEq, Eq, Structural)]
pub struct Resources {
    pub minerals: u32,
    pub gas: u32,
    pub capacity_used: u32,
    pub capacity_total: u32,
}

/// A resource node on the map.
#[derive(Clone, Copy, Debug, PartialEq, Eq, Structural)]
pub struct Resource {
    pub id: usize,
    pub tile: TilePosition,
}

/// A snapshot of everything the scheduler reads of the game in one tick.
#[derive(Clone, Debug)]
pub struct World {
    pub resources: Resources,
    pub units: Vec<Unit>,
    pub unit_kinds: Vec<KindInfo>,
    pub upgrade_kinds: Vec<KindInfo>,
    pub map_width: i32,
    pub map_height: i32,
    /// Tiles of the gas resources on the map.
    pub geysers: Vec<TilePosition>,
    /// Kinds of the entities created since the previous tick.
    pub created: Vec<u32>,
    /// The mineral fields on the map.
    pub minerals: Vec<Resource>,
    /// The start locations of the map.
    pub start_locations: Vec<TilePosition>,
}

/// A goal item: a unit kind or an upgrade kind.
#[derive(Clone, Copy, Debug, PartialEq, Eq, Structural)]
pub enum UnitOrUpgradeType {
    Unit(u32),
    Upgrade(u32),
}

/// The item that the selector picked for this tick.
#[derive(Clone, Copy, Debug, PartialEq, Eq, Structural)]
pub enum NextBuildItem {
    Unit(u32),
    Upgrade(u32),
}

/// A command for the host to issue.
#[derive(Clone, Copy, Debug, PartialEq, Eq, Structural)]
pub enum Command {
    Build { unit_id: usize, kind: u32, tile: TilePosition },
    Train { unit_id: usize, kind: u32 },
    Research { unit_id: usize, upgrade: u32 },
    Gather { unit_id: usize, target: usize },
}

/// Whether a build/train/research assignment has been seen to begin.
#[derive(Clone, Copy, Debug, PartialEq, Eq, Structural)]
pub enum BuildStatus {
    Assigned,
    Started,
}

/// One entry of the assignment ledger.
#[derive(Clone, Copy, Debug, PartialEq, Eq, Structural)]
pub struct BuildHistoryEntry {
    pub goal: UnitOrUpgradeType,
    pub assigned_unit_id: Option<usize>,
    pub tile_position: Option<TilePosition>,
    pub status: BuildStatus,
}

/// The first index below `n` at which `p` holds, or -1.
pub open spec fn first_index(p: spec_fn(int) -> bool, n: int) -> int
    decreases n,
{
    if n <= 0 {
        -1
    } else {
        let q = first_index(p, n - 1);
        if q >= 0 {
            q
        } else if p(n - 1) {
            n - 1
        } else {
            -1
        }
    }
}

pub proof fn lemma_first_index(p: spec_fn(int) -> bool, n: int)
    requires
        0 <= n,
    ensures
        -1 <= first_index(p, n) < n,
        first_index(p, n) >= 0 ==> p(first_index(p, n)),
        forall|i: int| 0 <= i < n && (first_index(p, n) < 0 || i < first_index(p, n)) ==> !#[trigger] p(i),
    decreases n,
{
    if n > 0 {
        lemma_first_index(p, n - 1);
    }
}

pub proof fn lemma_first_index_stays(p: spec_fn(int) -> bool, n: int, m: int)
    requires
        0 <= n <= m,
        first_index(p, n) >= 0,
    ensures
        first_index(p, m) == first_index(p, n),
    decreases m - n,
{
    if m > n {
        lemma_first_index_stays(p, n, m - 1);
    }
}

/// Index predicate: the kind at `i` has the given id.
pub open spec fn id_at(s: Seq<KindInfo>, id: u32) -> spec_fn(int) -> bool {
    |i: int| s[i].id == id
}

/// The first kind with the given id, if any.
pub open spec fn lookup_kind(s: Seq<KindInfo>, id: u32) -> Option<KindInfo> {
    let p = first_index(id_at(s, id), s.len() as int);
    if p >= 0 {
        Some(s[p])
    } else {
        None
    }
}

/// Looks up the kind with the given id (the first one, if several share it).
pub fn find_kind(kinds: &Vec<KindInfo>, id: u32) -> (r: Option<&KindInfo>)
    ensures
        match lookup_kind(kinds@, id) {
            Some(k) => r == Some(&k),
            None => r.is_none(),
        },
{
    proof {
        lemma_first_index(id_at(kinds@, id), kinds@.len() as int);
    }
    let mut i: usize = 0;
    while i < kinds.len()
        invariant
            i <= kinds.len(),
            first_index(id_at(kinds@, id), i as int) == -1,
        decreases kinds.len() - i,
    {
        if kinds[i].id == id {
            proof {
                assert(first_index(id_at(kinds@, id), i + 1) == i);
                lemma_first_index_stays(id_at(kinds@, id), i + 1, kinds@.len() as int);
            }
            return Some(&kinds[i]);
        }
        i = i + 1;
    }
    None
}

} // verus!
