//! The entities of the simulation: ships, bullets, enchantments (stat
//! upgrades), player actions and damage-feed records, together with
//! their well-formedness invariants and exact construction rules.

use vstd::prelude::*;
use crate::config::{
    ANGLE_FULL, DAMP_BULLET, DAMP_FULL, DAMP_V, DEFAULT_BULLET_HP, DEFAULT_BULLET_SPEED,
    DEFAULT_BULLET_TTL, DEFAULT_HP, DEFAULT_MAX_HP, DEFAULT_REPAIR_RATE, DEFAULT_TURN_RATE,
    DEFAULT_V, RAND_BULLET_HP, RAND_BULLET_SPEED, RAND_BULLET_TTL, RAND_MAX_HP,
    RAND_REPAIR_RATE, RAND_TURN_RATE, RAND_V, SCALE, SIZE_FP, VAL_BOUND,
};
use crate::numeric::{cadd_stat, clamp_stat, scaled, spec_scaled, wrap_add, wrap_fp};
use crate::rng::{frac_of, rng_after, rng_step, SimRng};
use crate::trig::{cos_fp, sin_fp, spec_cos, spec_sin};

verus! {

/// What occupies a cell of the spatial grid.
#[derive(Clone, Copy, PartialEq, Eq, Structural, Debug)]
pub enum ObjectType {
    Empty,
    ShipCell,
    BulletCell,
    UpgradeCell,
}

impl Default for ObjectType {
    /// An unclaimed cell.
    fn default() -> (r: Self)
        ensures
            r == ObjectType::Empty,
    {
        ObjectType::Empty
    }
}

/// One combat event of a tick: attacker id, victim id, and the victim's
/// remaining hit points after the event.
#[derive(Clone, Copy, PartialEq, Eq, Structural, Debug)]
pub struct DamageFeedRecord(pub usize, pub usize, pub i64);

/// A player intent, with its angle in fixed-point units.
#[derive(Clone, Copy, PartialEq, Eq, Structural, Debug)]
pub enum Action {
    MoveShip { angle: i64 },
    AddBullet { angle: i64 },
}

/// An angle must already be normalized into `[0, ANGLE_FULL)`.
pub open spec fn angle_wf(a: i64) -> bool {
    0 <= a < ANGLE_FULL
}

/// A well-formed action carries a normalized angle.
pub open spec fn action_wf(a: Action) -> bool {
    match a {
        Action::MoveShip { angle } => angle_wf(angle),
        Action::AddBullet { angle } => angle_wf(angle),
    }
}

/// An action attributed to the ship that sent it.
#[derive(Clone, Copy, PartialEq, Eq, Structural, Debug)]
pub struct ShipAction {
    pub ship_id: usize,
    pub action: Action,
}

impl ShipAction {
    pub fn new(ship_id: usize, action: Action) -> (r: ShipAction)
        ensures
            r == (ShipAction { ship_id, action }),
    {
        ShipAction { ship_id, action }
    }
}

/// A well-formed attributed action: a normalized angle, and an id the
/// slot store can address.
pub open spec fn ship_action_wf(a: ShipAction) -> bool {
    action_wf(a.action) && a.ship_id < usize::MAX
}

/// A ship: position, heading, hit points and its stat block.
#[derive(Clone, Copy, PartialEq, Eq, Structural, Debug)]
pub struct Ship {
    pub x: i64,
    pub y: i64,
    pub current_angle: i64,
    pub hp: i64,
    pub angle: i64,
    pub shape: i64,
    pub v: i64,
    pub max_hp: i64,
    pub turn_rate: i64,
    pub repair_rate: i64,
    pub bullet_ttl: i64,
    pub bullet_speed: i64,
    pub bullet_hp: i64,
}

/// A stat stays in `[0, VAL_BOUND]`.
pub open spec fn stat_wf(v: i64) -> bool {
    0 <= v <= VAL_BOUND
}

/// A hit-point value stays in `[-VAL_BOUND, VAL_BOUND]`.
pub open spec fn hp_wf(v: i64) -> bool {
    -VAL_BOUND <= v <= VAL_BOUND
}

/// Well-formedness of a ship: wrapped position, normalized angles,
/// bounded stats and hit points.
pub open spec fn ship_wf(s: Ship) -> bool {
    &&& 0 <= s.x < SIZE_FP
    &&& 0 <= s.y < SIZE_FP
    &&& angle_wf(s.angle)
    &&& angle_wf(s.current_angle)
    &&& hp_wf(s.hp)
    &&& stat_wf(s.v)
    &&& stat_wf(s.max_hp)
    &&& stat_wf(s.turn_rate)
    &&& stat_wf(s.repair_rate)
    &&& stat_wf(s.bullet_ttl)
    &&& stat_wf(s.bullet_speed)
    &&& stat_wf(s.bullet_hp)
}

/// The default stat baseline at position `(x, y)` heading `angle`.
pub open spec fn default_ship(x: i64, y: i64, angle: i64) -> Ship {
    Ship {
        x,
        y,
        angle,
        current_angle: angle,
        shape: 0,
        turn_rate: DEFAULT_TURN_RATE,
        v: DEFAULT_V,
        repair_rate: DEFAULT_REPAIR_RATE,
        max_hp: DEFAULT_MAX_HP,
        hp: DEFAULT_HP,
        bullet_ttl: DEFAULT_BULLET_TTL,
        bullet_speed: DEFAULT_BULLET_SPEED,
        bullet_hp: DEFAULT_BULLET_HP,
    }
}

/// A bullet in flight.
#[derive(Clone, Copy, PartialEq, Eq, Structural, Debug)]
pub struct Bullet {
    pub ship_id: usize,
    pub x: i64,
    pub y: i64,
    pub angle: i64,
    pub v: i64,
    pub ttl: i64,
    pub hp: i64,
}

/// Well-formedness of a bullet.
pub open spec fn bullet_wf(b: Bullet) -> bool {
    &&& 0 <= b.x < SIZE_FP
    &&& 0 <= b.y < SIZE_FP
    &&& angle_wf(b.angle)
    &&& stat_wf(b.v)
    &&& hp_wf(b.ttl)
    &&& hp_wf(b.hp)
}

/// A bullet fired by `ship`: spawned one unit ahead along the fire
/// angle, its speed the ship's bullet speed plus the ship's own.
pub open spec fn spec_new_bullet(ship_id: usize, s: Ship, angle: i64) -> Bullet {
    Bullet {
        ship_id,
        x: wrap_fp(s.x + spec_cos(angle as int)),
        y: wrap_fp(s.y + spec_sin(angle as int)),
        angle,
        v: clamp_stat(s.bullet_speed + s.v),
        ttl: s.bullet_ttl,
        hp: s.bullet_hp,
    }
}

/// A bundle of permanent stat increases.
#[derive(Clone, Copy, PartialEq, Eq, Structural, Debug)]
pub struct Enchance {
    pub turn_rate: i64,
    pub v: i64,
    pub repair_rate: i64,
    pub max_hp: i64,
    pub bullet_ttl: i64,
    pub bullet_speed: i64,
    pub bullet_hp: i64,
}

/// Well-formedness of an enchantment: every delta is a bounded stat.
pub open spec fn enchance_wf(e: Enchance) -> bool {
    &&& stat_wf(e.turn_rate)
    &&& stat_wf(e.v)
    &&& stat_wf(e.repair_rate)
    &&& stat_wf(e.max_hp)
    &&& stat_wf(e.bullet_ttl)
    &&& stat_wf(e.bullet_speed)
    &&& stat_wf(e.bullet_hp)
}

/// The kill reward drawn from state `s0` for defeating `victim`: each
/// delta is a victim stat scaled by a fresh random fraction, with
/// mobility and fire-rate stats damped.
pub open spec fn spec_enchance_from(s0: u64, victim: Ship) -> Enchance {
    Enchance {
        turn_rate: spec_scaled(
            victim.turn_rate as int,
            frac_of(rng_after(s0, 0)) as int,
            DAMP_FULL as int,
        ) as i64,
        v: spec_scaled(victim.v as int, frac_of(rng_after(s0, 1)) as int, DAMP_V as int) as i64,
        repair_rate: spec_scaled(
            victim.repair_rate as int,
            frac_of(rng_after(s0, 2)) as int,
            DAMP_FULL as int,
        ) as i64,
        max_hp: spec_scaled(
            victim.max_hp as int,
            frac_of(rng_after(s0, 3)) as int,
            DAMP_FULL as int,
        ) as i64,
        bullet_ttl: spec_scaled(
            victim.bullet_ttl as int,
            frac_of(rng_after(s0, 4)) as int,
            DAMP_BULLET as int,
        ) as i64,
        bullet_speed: spec_scaled(
            victim.bullet_speed as int,
            frac_of(rng_after(s0, 5)) as int,
            DAMP_BULLET as int,
        ) as i64,
        bullet_hp: spec_scaled(
            victim.bullet_hp as int,
            frac_of(rng_after(s0, 6)) as int,
            DAMP_FULL as int,
        ) as i64,
    }
}

/// A flat pickup magnitude: a random fraction of `m` thousandths.
pub open spec fn spec_rand_mag(f: i64, m: i64) -> i64 {
    ((f * m) / (SCALE as int)) as i64
}

/// The standalone random pickup drawn from state `s0`, with flat
/// magnitudes not scaled by any ship.
pub open spec fn spec_enchance_random(s0: u64) -> Enchance {
    Enchance {
        turn_rate: spec_rand_mag(frac_of(rng_after(s0, 0)), RAND_TURN_RATE),
        v: spec_rand_mag(frac_of(rng_after(s0, 1)), RAND_V),
        repair_rate: spec_rand_mag(frac_of(rng_after(s0, 2)), RAND_REPAIR_RATE),
        max_hp: spec_rand_mag(frac_of(rng_after(s0, 3)), RAND_MAX_HP),
        bullet_ttl: spec_rand_mag(frac_of(rng_after(s0, 4)), RAND_BULLET_TTL),
        bullet_speed: spec_rand_mag(frac_of(rng_after(s0, 5)), RAND_BULLET_SPEED),
        bullet_hp: spec_rand_mag(frac_of(rng_after(s0, 6)), RAND_BULLET_HP),
    }
}

/// The ship after an enchantment is applied: unconditional stacking,
/// each stat grows by its delta (clamped at the stat bound).
pub open spec fn spec_apply_enchance(s: Ship, e: Enchance) -> Ship {
    Ship {
        turn_rate: clamp_stat(s.turn_rate + e.turn_rate),
        v: clamp_stat(s.v + e.v),
        repair_rate: clamp_stat(s.repair_rate + e.repair_rate),
        max_hp: clamp_stat(s.max_hp + e.max_hp),
        bullet_ttl: clamp_stat(s.bullet_ttl + e.bullet_ttl),
        bullet_speed: clamp_stat(s.bullet_speed + e.bullet_speed),
        bullet_hp: clamp_stat(s.bullet_hp + e.bullet_hp),
        ..s
    }
}

impl Ship {
    /// A fresh default ship at `(x, y)` heading `angle`.
    pub fn new(x: i64, y: i64, angle: i64) -> (r: Ship)
        requires
            0 <= x < SIZE_FP,
            0 <= y < SIZE_FP,
            angle_wf(angle),
        ensures
            r == default_ship(x, y, angle),
            ship_wf(r),
    {
        Ship {
            x,
            y,
            angle,
            current_angle: angle,
            shape: 0,
            turn_rate: DEFAULT_TURN_RATE,
            v: DEFAULT_V,
            repair_rate: DEFAULT_REPAIR_RATE,
            max_hp: DEFAULT_MAX_HP,
            hp: DEFAULT_HP,
            bullet_ttl: DEFAULT_BULLET_TTL,
            bullet_speed: DEFAULT_BULLET_SPEED,
            bullet_hp: DEFAULT_BULLET_HP,
        }
    }

    /// Stack an enchantment onto this ship's stats.
    pub fn apply_enchance(&mut self, enchance: Enchance)
        requires
            ship_wf(*old(self)),
            enchance_wf(enchance),
        ensures
            *final(self) == spec_apply_enchance(*old(self), enchance),
            ship_wf(*final(self)),
    {
        self.turn_rate = cadd_stat(self.turn_rate, enchance.turn_rate);
        self.v = cadd_stat(self.v, enchance.v);
        self.repair_rate = cadd_stat(self.repair_rate, enchance.repair_rate);
        self.max_hp = cadd_stat(self.max_hp, enchance.max_hp);
        self.bullet_ttl = cadd_stat(self.bullet_ttl, enchance.bullet_ttl);
        self.bullet_speed = cadd_stat(self.bullet_speed, enchance.bullet_speed);
        self.bullet_hp = cadd_stat(self.bullet_hp, enchance.bullet_hp);
    }
}

/// Executable check of `ship_wf`, for values handed in from outside
/// the verified core (the pre-tick hook).
pub fn ship_wf_exec(s: &Ship) -> (r: bool)
    ensures
        r == ship_wf(*s),
{
    0 <= s.x && s.x < SIZE_FP && 0 <= s.y && s.y < SIZE_FP && 0 <= s.angle && s.angle
        < ANGLE_FULL && 0 <= s.current_angle && s.current_angle < ANGLE_FULL && -VAL_BOUND
        <= s.hp && s.hp <= VAL_BOUND && 0 <= s.v && s.v <= VAL_BOUND && 0 <= s.max_hp
        && s.max_hp <= VAL_BOUND && 0 <= s.turn_rate && s.turn_rate <= VAL_BOUND
        && 0 <= s.repair_rate && s.repair_rate <= VAL_BOUND && 0 <= s.bullet_ttl
        && s.bullet_ttl <= VAL_BOUND && 0 <= s.bullet_speed && s.bullet_speed <= VAL_BOUND
        && 0 <= s.bullet_hp && s.bullet_hp <= VAL_BOUND
}

/// Executable check of `bullet_wf`, for values handed in from outside
/// the verified core (the pre-tick hook).
pub fn bullet_wf_exec(b: &Bullet) -> (r: bool)
    ensures
        r == bullet_wf(*b),
{
    0 <= b.x && b.x < SIZE_FP && 0 <= b.y && b.y < SIZE_FP && 0 <= b.angle && b.angle
        < ANGLE_FULL && 0 <= b.v && b.v <= VAL_BOUND && -VAL_BOUND <= b.ttl && b.ttl
        <= VAL_BOUND && -VAL_BOUND <= b.hp && b.hp <= VAL_BOUND
}

impl Bullet {
    /// The bullet fired by `ship` (identified by `ship_id`) at `angle`.
    pub fn new(ship_id: usize, ship: &Ship, angle: i64) -> (r: Bullet)
        requires
            ship_wf(*ship),
            angle_wf(angle),
        ensures
            r == spec_new_bullet(ship_id, *ship, angle),
            bullet_wf(r),
    {
        let c = cos_fp(angle);
        let s = sin_fp(angle);
        Bullet {
            ship_id,
            x: wrap_add(ship.x, c),
            y: wrap_add(ship.y, s),
            angle,
            v: cadd_stat(ship.bullet_speed, ship.v),
            ttl: ship.bullet_ttl,
            hp: ship.bullet_hp,
        }
    }
}

/// A flat pickup magnitude, executable form.
fn rand_mag(f: i64, m: i64) -> (r: i64)
    requires
        0 <= f < SCALE,
        0 <= m <= 20_000,
    ensures
        r == spec_rand_mag(f, m),
        0 <= r <= m,
{
    proof {
        assert(0 <= f * m <= 20_000_000 && (f * m) / (SCALE as int) * SCALE <= f * m
            && 0 <= (f * m) / (SCALE as int) <= m) by (nonlinear_arith)
            requires
                0 <= f < 1000,
                0 <= m <= 20_000,
                SCALE == 1000,
        ;
    }
    (f * m) / SCALE
}

impl Enchance {
    /// The kill reward scaled by the defeated ship's stats.
    pub fn new(ship: &Ship, rng: &mut SimRng) -> (r: Enchance)
        requires
            ship_wf(*ship),
        ensures
            r == spec_enchance_from(old(rng).state, *ship),
            final(rng).state == rng_after(old(rng).state, 7),
            enchance_wf(r),
    {
        let ghost s0 = rng.state;
        let f0 = rng.next_frac();
        let f1 = rng.next_frac();
        let f2 = rng.next_frac();
        let f3 = rng.next_frac();
        let f4 = rng.next_frac();
        let f5 = rng.next_frac();
        let f6 = rng.next_frac();
        proof {
            lemma_seven_draws(s0);
        }
        Enchance {
            turn_rate: scaled(ship.turn_rate, f0, DAMP_FULL),
            v: scaled(ship.v, f1, DAMP_V),
            repair_rate: scaled(ship.repair_rate, f2, DAMP_FULL),
            max_hp: scaled(ship.max_hp, f3, DAMP_FULL),
            bullet_ttl: scaled(ship.bullet_ttl, f4, DAMP_BULLET),
            bullet_speed: scaled(ship.bullet_speed, f5, DAMP_BULLET),
            bullet_hp: scaled(ship.bullet_hp, f6, DAMP_FULL),
        }
    }

    /// A standalone random pickup with flat magnitudes.
    pub fn random(rng: &mut SimRng) -> (r: Enchance)
        ensures
            r == spec_enchance_random(old(rng).state),
            final(rng).state == rng_after(old(rng).state, 7),
            enchance_wf(r),
    {
        let ghost s0 = rng.state;
        let f0 = rng.next_frac();
        let f1 = rng.next_frac();
        let f2 = rng.next_frac();
        let f3 = rng.next_frac();
        let f4 = rng.next_frac();
        let f5 = rng.next_frac();
        let f6 = rng.next_frac();
        proof {
            lemma_seven_draws(s0);
        }
        Enchance {
            turn_rate: rand_mag(f0, RAND_TURN_RATE),
            v: rand_mag(f1, RAND_V),
            repair_rate: rand_mag(f2, RAND_REPAIR_RATE),
            max_hp: rand_mag(f3, RAND_MAX_HP),
            bullet_ttl: rand_mag(f4, RAND_BULLET_TTL),
            bullet_speed: rand_mag(f5, RAND_BULLET_SPEED),
            bullet_hp: rand_mag(f6, RAND_BULLET_HP),
        }
    }
}

/// Unfold the first seven generator states from `s0`.
proof fn lemma_seven_draws(s0: u64)
    ensures
        rng_after(s0, 0) == s0,
        rng_after(s0, 1) == rng_step(s0),
        rng_after(s0, 2) == rng_step(rng_after(s0, 1)),
        rng_after(s0, 3) == rng_step(rng_after(s0, 2)),
        rng_after(s0, 4) == rng_step(rng_after(s0, 3)),
        rng_after(s0, 5) == rng_step(rng_after(s0, 4)),
        rng_after(s0, 6) == rng_step(rng_after(s0, 5)),
        rng_after(s0, 7) == rng_step(rng_after(s0, 6)),
{
    assert(rng_after(s0, 0) == s0);
    assert(rng_after(s0, 1) == rng_step(rng_after(s0, 0)));
    assert(rng_after(s0, 2) == rng_step(rng_after(s0, 1)));
    assert(rng_after(s0, 3) == rng_step(rng_after(s0, 2)));
    assert(rng_after(s0, 4) == rng_step(rng_after(s0, 3)));
    assert(rng_after(s0, 5) == rng_step(rng_after(s0, 4)));
    assert(rng_after(s0, 6) == rng_step(rng_after(s0, 5)));
    assert(rng_after(s0, 7) == rng_step(rng_after(s0, 6)));
}

} // verus!
