//! Fixed configuration of the simulation: map geometry, the fixed-point
//! scale, stat bounds, and the default stat baseline of a fresh ship.

use vstd::prelude::*;

verus! {

/// Side length of the square toroidal map, in cells.
pub const MAP_SIZE: usize = 20;

/// Number of cells of the map (`MAP_SIZE` squared).
pub const CELLS: usize = 400;

/// Fixed-point scale: all positions, angles, velocities and hit points
/// are integers denominated in thousandths of a map/stat unit.
pub const SCALE: i64 = 1000;

/// Half of `SCALE`, used when rounding a position to its cell.
pub const HALF_SCALE: i64 = 500;

/// Side length of the map in fixed-point units (`MAP_SIZE * SCALE`).
pub const SIZE_FP: i64 = 20000;

/// A full turn, in fixed-point angle units (tenths of a degree).
pub const ANGLE_FULL: i64 = 3600;

/// Half a turn, in fixed-point angle units.
pub const ANGLE_HALF: i64 = 1800;

/// Every stat and hit-point value is kept within `[-VAL_BOUND, VAL_BOUND]`
/// by clamped arithmetic, so no operation of the simulation can overflow.
pub const VAL_BOUND: i64 = 1_000_000_000_000;

/// Duration of one tick in fixed-point seconds (60 Hz), subtracted from a
/// bullet's remaining time-to-live every tick.
pub const TICK_FP: i64 = 17;

/// Random spawn attempts before falling back to a row-order scan.
pub const SPAWN_TRIES: usize = 64;

/// Hit points a ship pays to fire one bullet (one unit).
pub const FIRE_COST: i64 = 1000;

/// Default stat baseline of a freshly spawned ship.
pub const DEFAULT_TURN_RATE: i64 = 286;

pub const DEFAULT_V: i64 = 80;

pub const DEFAULT_REPAIR_RATE: i64 = 10;

pub const DEFAULT_MAX_HP: i64 = 100_000;

pub const DEFAULT_HP: i64 = 100_000;

pub const DEFAULT_BULLET_TTL: i64 = 1000;

pub const DEFAULT_BULLET_SPEED: i64 = 20;

pub const DEFAULT_BULLET_HP: i64 = 10_000;

/// Damping factors on a kill reward, in thousandths: mobility and
/// fire-rate stats are scaled down to avoid runaway growth.
pub const DAMP_FULL: i64 = 1000;

pub const DAMP_V: i64 = 200;

pub const DAMP_BULLET: i64 = 300;

/// Flat magnitudes of a standalone random pickup, in thousandths.
pub const RAND_TURN_RATE: i64 = 300;

pub const RAND_V: i64 = 200;

pub const RAND_REPAIR_RATE: i64 = 1000;

pub const RAND_MAX_HP: i64 = 20_000;

pub const RAND_BULLET_TTL: i64 = 300;

pub const RAND_BULLET_SPEED: i64 = 300;

pub const RAND_BULLET_HP: i64 = 1000;

} // verus!
