//! The mathematical model of one tick.
//!
//! `TickState` is the ghost view of the whole simulation state, and the
//! spec functions here define, phase by phase and entity by entity,
//! exactly what a tick computes. The executable simulation proves that
//! it implements `spec_tick`, so two runs from equal states and equal
//! inputs produce equal states: the simulation is deterministic.

use vstd::prelude::*;
use crate::config::{CELLS, FIRE_COST, MAP_SIZE, SCALE, SPAWN_TRIES, TICK_FP};
use crate::entities::{
    spec_apply_enchance, spec_enchance_from, spec_new_bullet, default_ship, Action, Bullet,
    DamageFeedRecord, Enchance, ObjectType, Ship, ShipAction,
};
use crate::numeric::{cell_of, clamp_val, div_scale, wrap_fp};
use crate::rng::{angle_of, axis_of, rng_after, rng_step};
use crate::slotmap::{slot_get, slot_has, spec_put};
use crate::trig::{spec_cos, spec_sin};

verus! {

/// The ghost view of the simulation state, mid-tick or between ticks.
#[verifier::ext_equal]
pub ghost struct TickState {
    pub ships: Seq<Option<Ship>>,
    pub bullets: Seq<Option<Bullet>>,
    pub upgrades: Seq<Option<Enchance>>,
    pub grid_ids: Seq<usize>,
    pub grid_kinds: Seq<ObjectType>,
    pub feed: Seq<DamageFeedRecord>,
    pub rng: u64,
}

/// Every present ship is well-formed.
pub open spec fn ships_wf(s: Seq<Option<Ship>>) -> bool {
    forall|i: int| #[trigger] slot_has(s, i) ==> crate::entities::ship_wf(slot_get(s, i))
}

/// Every present bullet is well-formed.
pub open spec fn bullets_wf(s: Seq<Option<Bullet>>) -> bool {
    forall|i: int| #[trigger] slot_has(s, i) ==> crate::entities::bullet_wf(slot_get(s, i))
}

/// Every pending upgrade is well-formed.
pub open spec fn upgrades_wf(s: Seq<Option<Enchance>>) -> bool {
    forall|i: int| #[trigger] slot_has(s, i) ==> crate::entities::enchance_wf(slot_get(s, i))
}

/// Well-formedness of the whole state. This is in particular the
/// toroidal invariant: every ship and bullet position lies in
/// `[0, SIZE_FP)` (see `ship_wf` and `bullet_wf`).
pub open spec fn state_wf(st: TickState) -> bool {
    &&& ships_wf(st.ships)
    &&& bullets_wf(st.bullets)
    &&& upgrades_wf(st.upgrades)
    &&& st.grid_ids.len() == CELLS
    &&& st.grid_kinds.len() == CELLS
}

/// Every cell the grid marks as holding a bullet names a bullet that is
/// present in the bullet map and whose position rounds to that cell.
pub open spec fn bullet_cells_backed(st: TickState) -> bool {
    forall|c: int|
        0 <= c < st.grid_kinds.len() && #[trigger] st.grid_kinds[c] == ObjectType::BulletCell
            ==> slot_has(st.bullets, st.grid_ids[c] as int) && cell_of(
            slot_get(st.bullets, st.grid_ids[c] as int).x as int,
            slot_get(st.bullets, st.grid_ids[c] as int).y as int,
        ) == c
}

/// Every cell the grid marks as holding a ship names a ship that is
/// present in the ship map and whose position rounds to that cell.
pub open spec fn ship_cells_backed(st: TickState) -> bool {
    forall|c: int|
        0 <= c < st.grid_kinds.len() && #[trigger] st.grid_kinds[c] == ObjectType::ShipCell
            ==> slot_has(st.ships, st.grid_ids[c] as int) && cell_of(
            slot_get(st.ships, st.grid_ids[c] as int).x as int,
            slot_get(st.ships, st.grid_ids[c] as int).y as int,
        ) == c
}

/// The start of a tick: the spatial grid is reset to empty and the
/// damage feed of the previous tick is discarded.
pub open spec fn spec_reset(st: TickState) -> TickState {
    TickState {
        grid_ids: Seq::new(CELLS as nat, |c: int| 0usize),
        grid_kinds: Seq::new(CELLS as nat, |c: int| ObjectType::Empty),
        feed: Seq::empty(),
        ..st
    }
}

/// A surviving bullet advanced by one tick: position moved by its
/// velocity along its angle with toroidal wraparound, time-to-live
/// decremented by the tick duration.
pub open spec fn spec_bullet_moved(b: Bullet) -> Bullet {
    Bullet {
        x: wrap_fp(b.x + div_scale(b.v * spec_cos(b.angle as int))),
        y: wrap_fp(b.y + div_scale(b.v * spec_sin(b.angle as int))),
        ttl: (b.ttl - TICK_FP) as i64,
        ..b
    }
}

/// The bullet phase at slot `i`: an expired bullet (time-to-live or hit
/// points at or below zero on entry) is removed; a surviving bullet
/// moves and claims its cell in the grid.
pub open spec fn spec_bullet_step(st: TickState, i: int) -> TickState {
    if !slot_has(st.bullets, i) {
        st
    } else {
        let b = slot_get(st.bullets, i);
        if b.ttl <= 0 || b.hp <= 0 {
            TickState { bullets: st.bullets.update(i, None), ..st }
        } else {
            let b2 = spec_bullet_moved(b);
            let c = cell_of(b2.x as int, b2.y as int);
            TickState {
                bullets: st.bullets.update(i, Some(b2)),
                grid_ids: st.grid_ids.update(c, i as usize),
                grid_kinds: st.grid_kinds.update(c, ObjectType::BulletCell),
                ..st
            }
        }
    }
}

/// The bullet phase over the first `i` slots.
pub open spec fn spec_bullet_phase_to(st: TickState, i: int) -> TickState
    decreases i,
{
    if i <= 0 {
        st
    } else {
        spec_bullet_step(spec_bullet_phase_to(st, i - 1), i - 1)
    }
}

/// The whole bullet phase.
pub open spec fn spec_bullet_phase(st: TickState) -> TickState {
    spec_bullet_phase_to(st, st.bullets.len() as int)
}

/// Repair before movement: a ship below its maximum heals by its repair
/// rate (the check is on the old value; healing is not capped).
pub open spec fn spec_ship_repaired(s: Ship) -> Ship {
    if s.hp < s.max_hp {
        Ship { hp: clamp_val(s.hp + s.repair_rate), ..s }
    } else {
        s
    }
}

/// A mid-turn ship rotates its current angle toward the target by at
/// most its turn rate, snapping when within one step.
pub open spec fn spec_ship_turned(s: Ship) -> Ship {
    let remain = s.angle - s.current_angle;
    let mag = if remain < 0 {
        -remain
    } else {
        remain
    };
    if mag < s.turn_rate {
        Ship { current_angle: s.angle, ..s }
    } else if remain > 0 {
        Ship { current_angle: (s.current_angle + s.turn_rate) as i64, ..s }
    } else {
        Ship { current_angle: (s.current_angle - s.turn_rate) as i64, ..s }
    }
}

/// Whether the ship translates this tick (only when fully aligned).
pub open spec fn spec_ship_aligned(s: Ship) -> bool {
    s.current_angle == s.angle
}

/// The candidate x coordinate of a ship's move.
pub open spec fn spec_ship_nx(s: Ship) -> i64 {
    if spec_ship_aligned(s) {
        wrap_fp(s.x + div_scale(s.v * spec_cos(s.angle as int)))
    } else {
        s.x
    }
}

/// The candidate y coordinate of a ship's move.
pub open spec fn spec_ship_ny(s: Ship) -> i64 {
    if spec_ship_aligned(s) {
        wrap_fp(s.y + div_scale(s.v * spec_sin(s.angle as int)))
    } else {
        s.y
    }
}

/// The ship phase at slot `i`: a dead ship is removed; a survivor
/// repairs, turns or moves, and resolves its candidate cell against the
/// grid (blocked by a ship; claims an empty cell; consumes its pending
/// upgrade on an upgrade cell; trades damage with a bullet).
pub open spec fn spec_ship_step(st: TickState, i: int) -> TickState {
    if !slot_has(st.ships, i) {
        st
    } else {
        let s0 = slot_get(st.ships, i);
        if s0.hp <= 0 {
            TickState { ships: st.ships.update(i, None), ..st }
        } else {
            let s1 = spec_ship_repaired(s0);
            let s2 = if spec_ship_aligned(s1) {
                s1
            } else {
                spec_ship_turned(s1)
            };
            let nx = spec_ship_nx(s1);
            let ny = spec_ship_ny(s1);
            let c = cell_of(nx as int, ny as int);
            match st.grid_kinds[c] {
                ObjectType::ShipCell => TickState { ships: st.ships.update(i, Some(s2)), ..st },
                ObjectType::Empty => {
                    let s3 = Ship { x: nx, y: ny, ..s2 };
                    TickState {
                        ships: st.ships.update(i, Some(s3)),
                        grid_ids: st.grid_ids.update(c, i as usize),
                        grid_kinds: st.grid_kinds.update(c, ObjectType::ShipCell),
                        ..st
                    }
                },
                ObjectType::UpgradeCell => {
                    let s3 = Ship { x: nx, y: ny, ..s2 };
                    let s4 = if slot_has(st.upgrades, i) {
                        spec_apply_enchance(s3, slot_get(st.upgrades, i))
                    } else {
                        s3
                    };
                    TickState {
                        ships: st.ships.update(i, Some(s4)),
                        upgrades: if slot_has(st.upgrades, i) {
                            st.upgrades.update(i, None)
                        } else {
                            st.upgrades
                        },
                        grid_ids: st.grid_ids.update(c, i as usize),
                        grid_kinds: st.grid_kinds.update(c, ObjectType::ShipCell),
                        ..st
                    }
                },
                ObjectType::BulletCell => {
                    let bid = st.grid_ids[c] as int;
                    let s3 = Ship { x: nx, y: ny, ..s2 };
                    if slot_has(st.bullets, bid) {
                        let b = slot_get(st.bullets, bid);
                        let b2 = Bullet { hp: clamp_val(b.hp - s3.hp), ..b };
                        let s4 = Ship { hp: clamp_val(s3.hp - b.hp), ..s3 };
                        TickState {
                            ships: st.ships.update(i, Some(s4)),
                            bullets: st.bullets.update(bid, Some(b2)),
                            grid_ids: st.grid_ids.update(c, i as usize),
                            grid_kinds: st.grid_kinds.update(c, ObjectType::ShipCell),
                            feed: st.feed.push(DamageFeedRecord(b.ship_id, i as usize, s4.hp)),
                            ..st
                        }
                    } else {
                        // never reached: bullet cells are always backed
                        TickState { ships: st.ships.update(i, Some(s3)), ..st }
                    }
                },
            }
        }
    }
}

/// The ship phase over the first `i` slots.
pub open spec fn spec_ship_phase_to(st: TickState, i: int) -> TickState
    decreases i,
{
    if i <= 0 {
        st
    } else {
        spec_ship_step(spec_ship_phase_to(st, i - 1), i - 1)
    }
}

/// The whole ship phase.
pub open spec fn spec_ship_phase(st: TickState) -> TickState {
    spec_ship_phase_to(st, st.ships.len() as int)
}

/// The row-major cell index of spawn coordinates.
pub open spec fn cell_index_of(sx: usize, sy: usize) -> int {
    (sy as int) * (MAP_SIZE as int) + (sx as int)
}

/// Rejection sampling for a spawn cell: up to `SPAWN_TRIES` pairs of
/// draws; the first pair naming an unoccupied cell wins. Returns the
/// coordinates found (if any) and the generator state after the search.
pub open spec fn spawn_search(s: u64, kinds: Seq<ObjectType>, k: int) -> (Option<(usize, usize)>, u64)
    decreases SPAWN_TRIES as int - k,
{
    if k >= SPAWN_TRIES as int {
        (None, s)
    } else {
        let sx = axis_of(s);
        let s2 = rng_step(s);
        let sy = axis_of(s2);
        let s3 = rng_step(s2);
        if kinds[cell_index_of(sx, sy)] == ObjectType::Empty {
            (Some((sx, sy)), s3)
        } else {
            spawn_search(s3, kinds, k + 1)
        }
    }
}

/// The first unoccupied cell at or after index `c`, or `CELLS` if none.
pub open spec fn first_empty_from(kinds: Seq<ObjectType>, c: int) -> int
    decreases CELLS as int - c,
{
    if c < 0 || c >= CELLS as int {
        CELLS as int
    } else if kinds[c] == ObjectType::Empty {
        c
    } else {
        first_empty_from(kinds, c + 1)
    }
}

/// Where a new ship spawns: rejection sampling against the grid, and if
/// every sampled cell was occupied, the first unoccupied cell in row
/// order; `None` when the whole map is occupied (the spawn is dropped).
pub open spec fn spec_spawn_place(s: u64, kinds: Seq<ObjectType>) -> (Option<(usize, usize)>, u64) {
    let sr = spawn_search(s, kinds, 0);
    if sr.0 is Some {
        sr
    } else {
        let c = first_empty_from(kinds, 0);
        if c < CELLS as int {
            (Some(((c % (MAP_SIZE as int)) as usize, (c / (MAP_SIZE as int)) as usize)), sr.1)
        } else {
            (None, sr.1)
        }
    }
}

/// One action applied to the state. `MoveShip` for a known id only
/// retargets its angle; for an unseen id it spawns a default ship at a
/// random heading and an unoccupied cell. `AddBullet` for a known id
/// costs the ship one unit of hit points (recorded in the damage feed as
/// self-inflicted) and spawns a bullet with a fresh id; for an unknown
/// id it is ignored.
pub open spec fn spec_action_step(st: TickState, a: ShipAction) -> TickState {
    let id = a.ship_id as int;
    match a.action {
        Action::MoveShip { angle } => {
            if slot_has(st.ships, id) {
                let s = slot_get(st.ships, id);
                TickState { ships: st.ships.update(id, Some(Ship { angle, ..s })), ..st }
            } else {
                let ang = angle_of(st.rng);
                let s1 = rng_step(st.rng);
                let place = spec_spawn_place(s1, st.grid_kinds);
                match place.0 {
                    Some((sx, sy)) => TickState {
                        ships: spec_put(
                            st.ships,
                            id,
                            default_ship(
                                ((sx as int) * (SCALE as int)) as i64,
                                ((sy as int) * (SCALE as int)) as i64,
                                ang,
                            ),
                        ),
                        rng: place.1,
                        ..st
                    },
                    None => TickState { rng: place.1, ..st },
                }
            }
        },
        Action::AddBullet { angle } => {
            if slot_has(st.ships, id) {
                let s = slot_get(st.ships, id);
                let s2 = Ship { hp: clamp_val(s.hp - FIRE_COST), ..s };
                let b = spec_new_bullet(a.ship_id, s2, angle);
                TickState {
                    ships: st.ships.update(id, Some(s2)),
                    bullets: st.bullets.push(Some(b)),
                    feed: st.feed.push(DamageFeedRecord(a.ship_id, a.ship_id, s2.hp)),
                    ..st
                }
            } else {
                st
            }
        },
    }
}

/// The action phase over the first `n` actions.
pub open spec fn spec_action_phase_to(st: TickState, acts: Seq<ShipAction>, n: int) -> TickState
    decreases n,
{
    if n <= 0 {
        st
    } else {
        spec_action_step(spec_action_phase_to(st, acts, n - 1), acts[n - 1])
    }
}

/// The whole action phase.
pub open spec fn spec_action_phase(st: TickState, acts: Seq<ShipAction>) -> TickState {
    spec_action_phase_to(st, acts, acts.len() as int)
}

/// One damage-feed record driving progression: if the victim's remaining
/// hit points are at or below zero and the victim is still present, a
/// reward is drawn from its stats, and the attacker (if still present)
/// absorbs it.
pub open spec fn spec_prog_step(st: TickState, rec: DamageFeedRecord) -> TickState {
    if rec.2 <= 0 && slot_has(st.ships, rec.1 as int) {
        let victim = slot_get(st.ships, rec.1 as int);
        let e = spec_enchance_from(st.rng, victim);
        let rng2 = rng_after(st.rng, 7);
        if slot_has(st.ships, rec.0 as int) {
            let att = slot_get(st.ships, rec.0 as int);
            TickState {
                ships: st.ships.update(rec.0 as int, Some(spec_apply_enchance(att, e))),
                rng: rng2,
                ..st
            }
        } else {
            TickState { rng: rng2, ..st }
        }
    } else {
        st
    }
}

/// The progression phase over the first `n` records of `feed0`.
pub open spec fn spec_prog_phase_to(st: TickState, feed0: Seq<DamageFeedRecord>, n: int) -> TickState
    decreases n,
{
    if n <= 0 {
        st
    } else {
        spec_prog_step(spec_prog_phase_to(st, feed0, n - 1), feed0[n - 1])
    }
}

/// The whole progression phase (over the feed built this tick).
pub open spec fn spec_prog_phase(st: TickState) -> TickState {
    spec_prog_phase_to(st, st.feed, st.feed.len() as int)
}

/// One whole tick: reset the grid and the feed, run the bullet, ship,
/// action and progression phases in that fixed order.
pub open spec fn spec_tick(st: TickState, acts: Seq<ShipAction>) -> TickState {
    spec_prog_phase(spec_action_phase(spec_ship_phase(spec_bullet_phase(spec_reset(st))), acts))
}

/// Updating one ship slot with a well-formed value keeps the map
/// well-formed.
pub proof fn lemma_ships_wf_set(s: Seq<Option<Ship>>, i: int, v: Option<Ship>)
    requires
        ships_wf(s),
        0 <= i < s.len(),
        v is Some ==> crate::entities::ship_wf(v->Some_0),
    ensures
        ships_wf(s.update(i, v)),
{
    let s2 = s.update(i, v);
    assert forall|j: int| #[trigger] slot_has(s2, j) implies crate::entities::ship_wf(
        slot_get(s2, j),
    ) by {
        if j != i {
            assert(slot_has(s, j));
        }
    }
}

/// Updating one bullet slot with a well-formed value keeps the map
/// well-formed.
pub proof fn lemma_bullets_wf_set(s: Seq<Option<Bullet>>, i: int, v: Option<Bullet>)
    requires
        bullets_wf(s),
        0 <= i < s.len(),
        v is Some ==> crate::entities::bullet_wf(v->Some_0),
    ensures
        bullets_wf(s.update(i, v)),
{
    let s2 = s.update(i, v);
    assert forall|j: int| #[trigger] slot_has(s2, j) implies crate::entities::bullet_wf(
        slot_get(s2, j),
    ) by {
        if j != i {
            assert(slot_has(s, j));
        }
    }
}

/// Updating one upgrade slot with a well-formed value keeps the map
/// well-formed.
pub proof fn lemma_upgrades_wf_set(s: Seq<Option<Enchance>>, i: int, v: Option<Enchance>)
    requires
        upgrades_wf(s),
        0 <= i < s.len(),
        v is Some ==> crate::entities::enchance_wf(v->Some_0),
    ensures
        upgrades_wf(s.update(i, v)),
{
    let s2 = s.update(i, v);
    assert forall|j: int| #[trigger] slot_has(s2, j) implies crate::entities::enchance_wf(
        slot_get(s2, j),
    ) by {
        if j != i {
            assert(slot_has(s, j));
        }
    }
}

/// Appending a well-formed bullet keeps the map well-formed.
pub proof fn lemma_bullets_wf_push(s: Seq<Option<Bullet>>, v: Bullet)
    requires
        bullets_wf(s),
        crate::entities::bullet_wf(v),
    ensures
        bullets_wf(s.push(Some(v))),
{
    let s2 = s.push(Some(v));
    assert forall|j: int| #[trigger] slot_has(s2, j) implies crate::entities::bullet_wf(
        slot_get(s2, j),
    ) by {
        if j != s.len() as int {
            assert(slot_has(s, j));
        }
    }
}

/// Binding a fresh or existing ship id to a well-formed ship keeps the
/// map well-formed.
pub proof fn lemma_ships_wf_put(s: Seq<Option<Ship>>, i: int, v: Ship)
    requires
        ships_wf(s),
        0 <= i,
        crate::entities::ship_wf(v),
    ensures
        ships_wf(spec_put(s, i, v)),
{
    let s2 = spec_put(s, i, v);
    assert forall|j: int| #[trigger] slot_has(s2, j) implies crate::entities::ship_wf(
        slot_get(s2, j),
    ) by {
        if j != i {
            if 0 <= j < s.len() {
                assert(slot_has(s, j) ==> crate::entities::ship_wf(slot_get(s, j)));
            }
        }
    }
}

} // verus!
