use std::sync::Arc;
use vstd::prelude::*;
use vstd::rwlock::{RwLock, RwLockPredicate};
use crate::model::UnitOrUpgradeType;
use crate::scheduler::BuildStatusData;
use crate::status::WantToBuildStatus;

verus! {

/// The slowest local speed the host accepts (milliseconds per frame).
pub const MAX_GAME_SPEED: i32 = 1000;

/// The host's own default speed.
pub const DEFAULT_GAME_SPEED: i32 = -1;

/// A speed the host accepts: its default, or a frame delay in milliseconds.
pub open spec fn valid_speed(v: i32) -> bool {
    DEFAULT_GAME_SPEED <= v <= MAX_GAME_SPEED
}

/// The lock invariant of the shared speed.
pub struct SpeedRange;

impl RwLockPredicate<i32> for SpeedRange {
    open spec fn inv(self, v: i32) -> bool {
        valid_speed(v)
    }
}

/// The game speed, shared between the tick handler and the reporting layer.
/// Only valid speeds are ever stored.
#[derive(Clone)]
pub struct SharedGameSpeed {
    speed: Arc<RwLock<i32, SpeedRange>>,
}

impl SharedGameSpeed {
    /// A shared speed starting at `initial_speed`; a speed the host does not
    /// accept starts it at the host's default instead.
    pub fn new(initial_speed: i32) -> (r: Self) {
        let start = if initial_speed < DEFAULT_GAME_SPEED || initial_speed > MAX_GAME_SPEED {
            DEFAULT_GAME_SPEED
        } else {
            initial_speed
        };
        SharedGameSpeed { speed: Arc::new(RwLock::new(start, Ghost(SpeedRange))) }
    }

    /// The current speed; always a valid one.
    pub fn get(&self) -> (r: i32)
        ensures
            valid_speed(r),
    {
        let lock: &RwLock<i32, SpeedRange> = &self.speed;
        let handle = lock.acquire_read();
        let v = *handle.borrow();
        handle.release_read();
        v
    }

    /// Stores `speed` when it is valid; reports whether it was stored.
    pub fn set(&self, speed: i32) -> (r: bool)
        ensures
            r == valid_speed(speed),
    {
        if speed < DEFAULT_GAME_SPEED || speed > MAX_GAME_SPEED {
            return false;
        }
        let lock: &RwLock<i32, SpeedRange> = &self.speed;
        let (_old, handle) = lock.acquire_write();
        handle.release_write(speed);
        true
    }
}

/// The lock invariant of the shared status snapshot: any snapshot.
pub struct AnySnapshot;

impl RwLockPredicate<BuildStatusData> for AnySnapshot {
    open spec fn inv(self, v: BuildStatusData) -> bool {
        true
    }
}

/// The last published status snapshot, shared with the reporting layer.
#[derive(Clone)]
pub struct SharedBuildStatus {
    data: Arc<RwLock<BuildStatusData, AnySnapshot>>,
}

impl SharedBuildStatus {
    pub fn new() -> Self {
        let empty = BuildStatusData { stage_name: String::new(), stage_index: 0, item_status: Vec::new() };
        SharedBuildStatus { data: Arc::new(RwLock::new(empty, Ghost(AnySnapshot))) }
    }

    /// Publishes a new snapshot.
    pub fn update(&self, stage_name: String, stage_index: usize, item_status: Vec<(UnitOrUpgradeType, WantToBuildStatus)>) {
        let status = BuildStatusData { stage_name, stage_index, item_status };
        let lock: &RwLock<BuildStatusData, AnySnapshot> = &self.data;
        let (_old, handle) = lock.acquire_write();
        handle.release_write(status);
    }

    /// A copy of the last published snapshot.
    pub fn get(&self) -> BuildStatusData {
        let lock: &RwLock<BuildStatusData, AnySnapshot> = &self.data;
        let handle = lock.acquire_read();
        let v = handle.borrow().clone();
        handle.release_read();
        v
    }
}

} // verus!
