use vstd::prelude::*;
use crate::model::{BuildStatus, TilePosition};
use crate::scheduler::{BaseLocation, CheckedPosition};

verus! {

/// The reporting layer's view of the game speed.
#[derive(Clone, Copy, Debug, PartialEq, Eq, Structural)]
pub struct GameSpeedResponse {
    pub speed: i32,
}

/// A request of the reporting layer to change the game speed.
#[derive(Clone, Copy, Debug, PartialEq, Eq, Structural)]
pub struct GameSpeedRequest {
    pub speed: i32,
}

/// One line of the status table, as text.
#[derive(Clone, Debug)]
pub struct BuildItemStatusInfo {
    pub unit_name: String,
    pub status: String,
}

/// The status table of the active stage, as text.
#[derive(Clone, Debug)]
pub struct BuildStatusResponse {
    pub stage_name: String,
    pub stage_index: usize,
    pub items: Vec<BuildItemStatusInfo>,
}

/// One ledger entry, as text.
#[derive(Clone, Debug)]
pub struct BuildHistoryInfo {
    pub unit_name: Option<String>,
    pub status: String,
    pub assigned_unit_id: Option<usize>,
}

#[derive(Clone, Copy, Debug, PartialEq, Eq, Structural)]
pub struct SerializableTilePosition {
    pub x: i32,
    pub y: i32,
}

#[derive(Clone, Copy, Debug, PartialEq, Eq, Structural)]
pub struct SerializableCheckedPosition {
    pub tile_position: SerializableTilePosition,
    pub is_valid: bool,
}

#[derive(Clone, Debug)]
pub struct SerializableBaseLocation {
    pub id: usize,
    pub position: SerializableTilePosition,
    pub checked_positions: Vec<SerializableCheckedPosition>,
    pub path_to_location: Vec<SerializableTilePosition>,
}

#[derive(Clone, Copy, Debug, PartialEq, Eq, Structural)]
pub struct TileInfo {
    pub x: i32,
    pub y: i32,
    pub is_walkable: bool,
    pub is_buildable: bool,
}

#[derive(Clone, Debug)]
pub struct MapInfoResponse {
    pub map_width: i32,
    pub map_height: i32,
    pub tiles: Vec<TileInfo>,
}

#[derive(Clone, Debug)]
pub struct UnitInfo {
    pub unit_id: usize,
    pub unit_type_id: i32,
    pub x: i32,
    pub y: i32,
    pub width: i32,
    pub height: i32,
    pub player_id: Option<i32>,
    pub player_name: Option<String>,
}

#[derive(Clone, Debug)]
pub struct UnitInfoResponse {
    pub units: Vec<UnitInfo>,
}

pub open spec fn tile_report(t: TilePosition) -> SerializableTilePosition {
    SerializableTilePosition { x: t.x, y: t.y }
}

pub open spec fn checked_report(c: CheckedPosition) -> SerializableCheckedPosition {
    SerializableCheckedPosition { tile_position: tile_report(c.tile_position), is_valid: c.is_valid }
}

fn to_serializable(t: TilePosition) -> (r: SerializableTilePosition)
    ensures
        r == tile_report(t),
{
    SerializableTilePosition { x: t.x, y: t.y }
}

/// The base locations as the reporting layer lists them: numbered in order,
/// with their checked tiles.
pub fn base_location_report(bases: &Vec<BaseLocation>) -> (r: Vec<SerializableBaseLocation>)
    ensures
        r@.len() == bases@.len(),
        forall|i: int| 0 <= i < r@.len() ==> {
            &&& (#[trigger] r@[i]).id == i
            &&& r@[i].position == tile_report(bases@[i].position)
            &&& r@[i].checked_positions@ == bases@[i].checked_positions@.map_values(|c: CheckedPosition| checked_report(c))
            &&& r@[i].path_to_location@.len() == 0
        },
{
    let mut out: Vec<SerializableBaseLocation> = Vec::new();
    let mut i: usize = 0;
    while i < bases.len()
        invariant
            i <= bases@.len(),
            out@.len() == i,
            forall|k: int| 0 <= k < i ==> {
                &&& (#[trigger] out@[k]).id == k
                &&& out@[k].position == tile_report(bases@[k].position)
                &&& out@[k].checked_positions@ == bases@[k].checked_positions@.map_values(|c: CheckedPosition| checked_report(c))
                &&& out@[k].path_to_location@.len() == 0
            },
        decreases bases.len() - i,
    {
        let b = &bases[i];
        let mut checked: Vec<SerializableCheckedPosition> = Vec::new();
        let mut j: usize = 0;
        while j < b.checked_positions.len()
            invariant
                j <= b.checked_positions@.len(),
                checked@.len() == j,
                forall|k: int| 0 <= k < j ==> #[trigger] checked@[k] == checked_report(b.checked_positions@[k]),
            decreases b.checked_positions.len() - j,
        {
            let c = b.checked_positions[j];
            checked.push(SerializableCheckedPosition { tile_position: to_serializable(c.tile_position), is_valid: c.is_valid });
            j = j + 1;
        }
        proof {
            assert(checked@ =~= b.checked_positions@.map_values(|c: CheckedPosition| checked_report(c)));
        }
        out.push(SerializableBaseLocation {
            id: i,
            position: to_serializable(b.position),
            checked_positions: checked,
            path_to_location: Vec::new(),
        });
        i = i + 1;
    }
    out
}

/// The ledger phase as the reporting layer shows it.
pub fn phase_name(status: BuildStatus) -> (r: String)
    ensures
        status == BuildStatus::Assigned ==> r@ == "Assigned"@,
        status == BuildStatus::Started ==> r@ == "Started"@,
{
    match status {
        BuildStatus::Assigned => "Assigned".to_owned(),
        BuildStatus::Started => "Started".to_owned(),
    }
}

} // verus!
