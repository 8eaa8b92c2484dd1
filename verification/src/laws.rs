//! The laws of the simulation, stated over the tick model and proved.
//!
//! `World::tick` ensures its result equals `spec_tick`, so each law here
//! holds of every run of the executable simulation.

use vstd::prelude::*;
use crate::config::{CELLS, FIRE_COST, MAP_SIZE, SCALE, VAL_BOUND};
use crate::entities::{default_ship, spec_new_bullet, ObjectType, ShipAction};
use crate::model::{
    cell_index_of, first_empty_from, spawn_search, spec_action_step, spec_bullet_phase,
    spec_bullet_phase_to, spec_bullet_step, spec_reset, spec_ship_phase, spec_ship_phase_to,
    spec_ship_step, spec_spawn_place, spec_tick, state_wf, TickState,
};
use crate::numeric::{cell_of, clamp_val};
use crate::rng::{angle_of, rng_step};
use crate::slotmap::{slot_get, slot_has, spec_put};

verus! {

/// A bullet-phase step leaves every other bullet slot, and everything
/// about ships, upgrades, the feed and the random source, unchanged.
proof fn lemma_bullet_step_frame(st: TickState, i: int, id: int)
    requires
        id != i,
    ensures
        spec_bullet_step(st, i).bullets.len() == st.bullets.len(),
        0 <= id < st.bullets.len() ==> spec_bullet_step(st, i).bullets[id] == st.bullets[id],
        spec_bullet_step(st, i).ships == st.ships,
{
}

/// The bullet phase over the first `i` slots: later slots are untouched,
/// ships are untouched, and among the first `i` slots exactly the
/// bullets that entered the phase alive (time-to-live and hit points
/// above zero) are still present.
pub proof fn lemma_bullet_phase_to_facts(st: TickState, i: int)
    requires
        0 <= i <= st.bullets.len(),
    ensures
        spec_bullet_phase_to(st, i).bullets.len() == st.bullets.len(),
        spec_bullet_phase_to(st, i).ships == st.ships,
        forall|id: int|
            i <= id < st.bullets.len() ==> spec_bullet_phase_to(st, i).bullets[id]
                == st.bullets[id],
        forall|id: int|
            0 <= id < i ==> (slot_has(#[trigger] spec_bullet_phase_to(st, i).bullets, id) <==> (
            slot_has(st.bullets, id) && slot_get(st.bullets, id).ttl > 0 && slot_get(
                st.bullets,
                id,
            ).hp > 0)),
    decreases i,
{
    if i > 0 {
        lemma_bullet_phase_to_facts(st, i - 1);
        let prev = spec_bullet_phase_to(st, i - 1);
        assert(prev.bullets[i - 1] == st.bullets[i - 1]);
        assert forall|id: int| 0 <= id < i implies (slot_has(
            #[trigger] spec_bullet_phase_to(st, i).bullets,
            id,
        ) <==> (slot_has(st.bullets, id) && slot_get(st.bullets, id).ttl > 0 && slot_get(
            st.bullets,
            id,
        ).hp > 0)) by {
            if id < i - 1 {
                lemma_bullet_step_frame(prev, i - 1, id);
            }
        }
    }
}

/// A ship-phase step leaves every other ship slot unchanged.
proof fn lemma_ship_step_frame(st: TickState, i: int, id: int)
    requires
        id != i,
    ensures
        spec_ship_step(st, i).ships.len() == st.ships.len(),
        0 <= id < st.ships.len() ==> spec_ship_step(st, i).ships[id] == st.ships[id],
{
}

/// The ship phase over the first `i` slots: later slots are untouched,
/// and among the first `i` slots exactly the ships that entered the
/// phase with hit points above zero are still present.
pub proof fn lemma_ship_phase_to_facts(st: TickState, i: int)
    requires
        0 <= i <= st.ships.len(),
    ensures
        spec_ship_phase_to(st, i).ships.len() == st.ships.len(),
        forall|id: int|
            i <= id < st.ships.len() ==> spec_ship_phase_to(st, i).ships[id] == st.ships[id],
        forall|id: int|
            0 <= id < i ==> (slot_has(#[trigger] spec_ship_phase_to(st, i).ships, id) <==> (
            slot_has(st.ships, id) && slot_get(st.ships, id).hp > 0)),
    decreases i,
{
    if i > 0 {
        lemma_ship_phase_to_facts(st, i - 1);
        let prev = spec_ship_phase_to(st, i - 1);
        assert(prev.ships[i - 1] == st.ships[i - 1]);
        assert forall|id: int| 0 <= id < i implies (slot_has(
            #[trigger] spec_ship_phase_to(st, i).ships,
            id,
        ) <==> (slot_has(st.ships, id) && slot_get(st.ships, id).hp > 0)) by {
            if id < i - 1 {
                lemma_ship_step_frame(prev, i - 1, id);
            }
        }
    }
}

/// A ship that ends a tick with hit points at or below zero is absent
/// from the ship map after the next tick's ship phase (it can return
/// only if a later action spawns a ship under the same id anew).
pub proof fn lemma_dead_ship_removed(st: TickState, id: int)
    requires
        slot_has(st.ships, id),
        slot_get(st.ships, id).hp <= 0,
    ensures
        !slot_has(spec_ship_phase(spec_bullet_phase(spec_reset(st))).ships, id),
{
    let st1 = spec_bullet_phase(spec_reset(st));
    lemma_bullet_phase_to_facts(spec_reset(st), spec_reset(st).bullets.len() as int);
    assert(st1.ships == st.ships);
    lemma_ship_phase_to_facts(st1, st1.ships.len() as int);
}

/// A bullet that ends a tick with time-to-live or hit points at or
/// below zero is absent from the bullet map after the next tick's
/// bullet phase, and its id is never reused.
pub proof fn lemma_dead_bullet_removed(st: TickState, id: int)
    requires
        slot_has(st.bullets, id),
        slot_get(st.bullets, id).ttl <= 0 || slot_get(st.bullets, id).hp <= 0,
    ensures
        !slot_has(spec_bullet_phase(spec_reset(st)).bullets, id),
{
    let st0 = spec_reset(st);
    lemma_bullet_phase_to_facts(st0, st0.bullets.len() as int);
}

/// A successful spawn search names an unoccupied cell within the map.
proof fn lemma_spawn_search_ok(s: u64, kinds: Seq<ObjectType>, k: int)
    ensures
        ({
            let r = spawn_search(s, kinds, k);
            r.0 is Some ==> {
                let (sx, sy) = r.0->Some_0;
                sx < MAP_SIZE && sy < MAP_SIZE && kinds[cell_index_of(sx, sy)]
                    == ObjectType::Empty
            }
        }),
    decreases crate::config::SPAWN_TRIES as int - k,
{
    if k < crate::config::SPAWN_TRIES as int {
        let sx = crate::rng::axis_of(s);
        let s2 = rng_step(s);
        let sy = crate::rng::axis_of(s2);
        vstd::arithmetic::div_mod::lemma_mod_bound(
            crate::rng::rng_val(s) as int,
            MAP_SIZE as int,
        );
        vstd::arithmetic::div_mod::lemma_mod_bound(
            crate::rng::rng_val(s2) as int,
            MAP_SIZE as int,
        );
        if kinds[cell_index_of(sx, sy)] != ObjectType::Empty {
            lemma_spawn_search_ok(rng_step(s2), kinds, k + 1);
        }
    }
}

/// The row-order fallback finds an unoccupied cell exactly when one
/// exists.
proof fn lemma_first_empty_facts(kinds: Seq<ObjectType>, c: int)
    requires
        0 <= c <= CELLS,
        kinds.len() == CELLS,
    ensures
        c <= first_empty_from(kinds, c) <= CELLS,
        first_empty_from(kinds, c) < CELLS ==> kinds[first_empty_from(kinds, c)]
            == ObjectType::Empty,
        (exists|e: int| c <= e < CELLS && kinds[e] == ObjectType::Empty) ==> first_empty_from(
            kinds,
            c,
        ) < CELLS,
    decreases CELLS as int - c,
{
    if c < CELLS as int && kinds[c] != ObjectType::Empty {
        lemma_first_empty_facts(kinds, c + 1);
        if exists|e: int| c <= e < CELLS && kinds[e] == ObjectType::Empty {
            let e = choose|e: int| c <= e < CELLS && kinds[e] == ObjectType::Empty;
            assert(c + 1 <= e < CELLS && kinds[e] == ObjectType::Empty);
        }
    }
}

/// A cell coordinate scaled to a fixed-point position rounds back to
/// the same cell.
proof fn lemma_scaled_cell(sx: usize, sy: usize)
    requires
        sx < MAP_SIZE,
        sy < MAP_SIZE,
    ensures
        cell_of((sx as int) * (SCALE as int), (sy as int) * (SCALE as int)) == cell_index_of(
            sx,
            sy,
        ),
        0 <= (sx as int) * (SCALE as int) < crate::config::SIZE_FP,
        0 <= (sy as int) * (SCALE as int) < crate::config::SIZE_FP,
{
    let sc = SCALE as int;
    let m = MAP_SIZE as int;
    assert((sx as int) * sc + 500 == sc * (sx as int) + 500);
    assert(((sx as int) * sc + 500) / sc == sx as int) by (nonlinear_arith)
        requires
            0 <= sx < 20,
            sc == 1000,
    ;
    assert(((sy as int) * sc + 500) / sc == sy as int) by (nonlinear_arith)
        requires
            0 <= sy < 20,
            sc == 1000,
    ;
    vstd::arithmetic::div_mod::lemma_small_mod(sx as nat, m as nat);
    vstd::arithmetic::div_mod::lemma_small_mod(sy as nat, m as nat);
    assert((sx as int) * sc < 20000) by (nonlinear_arith)
        requires
            0 <= sx < 20,
            sc == 1000,
    ;
    assert((sy as int) * sc < 20000) by (nonlinear_arith)
        requires
            0 <= sy < 20,
            sc == 1000,
    ;
}

/// Where a spawn lands when the map has an unoccupied cell: on an
/// unoccupied cell within the map.
#[verifier::rlimit(100)]
proof fn lemma_spawn_place_ok(s: u64, kinds: Seq<ObjectType>)
    requires
        kinds.len() == CELLS,
        exists|e: int| 0 <= e < CELLS && kinds[e] == ObjectType::Empty,
    ensures
        ({
            let place = spec_spawn_place(s, kinds);
            place.0 is Some && {
                let (sx, sy) = place.0->Some_0;
                sx < MAP_SIZE && sy < MAP_SIZE && kinds[cell_index_of(sx, sy)]
                    == ObjectType::Empty
            }
        }),
{
    lemma_spawn_search_ok(s, kinds, 0);
    lemma_first_empty_facts(kinds, 0);
    let sr = spawn_search(s, kinds, 0);
    if sr.0 is None {
        let fc = first_empty_from(kinds, 0);
        assert(fc < CELLS);
        let sx = (fc % (MAP_SIZE as int)) as usize;
        let sy = (fc / (MAP_SIZE as int)) as usize;
        vstd::arithmetic::div_mod::lemma_mod_bound(fc, MAP_SIZE as int);
        assert(0 <= fc / (MAP_SIZE as int) < MAP_SIZE as int) by (nonlinear_arith)
            requires
                0 <= fc < 400,
        ;
        vstd::arithmetic::div_mod::lemma_fundamental_div_mod(fc, MAP_SIZE as int);
        assert(cell_index_of(sx, sy) == fc);
    }
}

/// A `MoveShip` action for a never-seen id spawns exactly one new ship:
/// the id becomes present as a fresh default ship standing on a cell the
/// grid held unoccupied at spawn time; every other ship, and the bullet
/// map, are unchanged. (Requires that the map is not completely full:
/// with no unoccupied cell the spawn is dropped.)
pub proof fn lemma_spawn_new_ship(st: TickState, a: ShipAction)
    requires
        state_wf(st),
        a.action is MoveShip,
        !slot_has(st.ships, a.ship_id as int),
        exists|e: int| 0 <= e < CELLS && st.grid_kinds[e] == ObjectType::Empty,
    ensures
        ({
            let st2 = spec_action_step(st, a);
            let id = a.ship_id as int;
            &&& slot_has(st2.ships, id)
            &&& slot_get(st2.ships, id) == default_ship(
                slot_get(st2.ships, id).x,
                slot_get(st2.ships, id).y,
                angle_of(st.rng),
            )
            &&& st.grid_kinds[cell_of(
                slot_get(st2.ships, id).x as int,
                slot_get(st2.ships, id).y as int,
            )] == ObjectType::Empty
            &&& forall|j: int|
                j != id ==> (slot_has(st2.ships, j) <==> slot_has(st.ships, j))
            &&& forall|j: int|
                j != id && slot_has(st.ships, j) ==> slot_get(st2.ships, j) == slot_get(
                    st.ships,
                    j,
                )
            &&& st2.bullets == st.bullets
        }),
{
    let id = a.ship_id as int;
    let s1 = rng_step(st.rng);
    lemma_spawn_place_ok(s1, st.grid_kinds);
    let place = spec_spawn_place(s1, st.grid_kinds);
    let (sx, sy) = place.0->Some_0;
    lemma_scaled_cell(sx, sy);
    let ship = default_ship(
        ((sx as int) * (SCALE as int)) as i64,
        ((sy as int) * (SCALE as int)) as i64,
        angle_of(st.rng),
    );
    let st2 = spec_action_step(st, a);
    assert(st2.ships == spec_put(st.ships, id, ship));
    assert(slot_has(st2.ships, id) && slot_get(st2.ships, id) == ship);
    assert(cell_of(ship.x as int, ship.y as int) == cell_index_of(sx, sy));
}

/// An `AddBullet` action for an existing ship costs the ship exactly
/// `FIRE_COST` hit points (clamped at the representable bound), records
/// the cost as self-inflicted damage, and creates exactly one new bullet
/// under a fresh id no existing bullet holds and that is never reused
/// (ids are handed out in strictly increasing order).
pub proof fn lemma_fire_bullet(st: TickState, a: ShipAction)
    requires
        a.action is AddBullet,
        slot_has(st.ships, a.ship_id as int),
    ensures
        ({
            let st2 = spec_action_step(st, a);
            let id = a.ship_id as int;
            let s = slot_get(st.ships, id);
            let s2 = slot_get(st2.ships, id);
            let bid = st.bullets.len() as int;
            &&& s2.hp == clamp_val(s.hp - FIRE_COST)
            &&& (s.hp - FIRE_COST >= -VAL_BOUND && s.hp <= VAL_BOUND ==> s2.hp == s.hp
                - FIRE_COST)
            &&& st2.bullets.len() == st.bullets.len() + 1
            &&& !slot_has(st.bullets, bid)
            &&& slot_has(st2.bullets, bid)
            &&& slot_get(st2.bullets, bid) == spec_new_bullet(a.ship_id, s2, a.action->AddBullet_angle)
            &&& forall|j: int| 0 <= j < bid ==> st2.bullets[j] == st.bullets[j]
            &&& st2.feed == st.feed.push(
                crate::entities::DamageFeedRecord(a.ship_id, a.ship_id, s2.hp),
            )
        }),
{
}

/// Determinism: the tick transition is a pure function of the previous
/// state and the drained action batch. Together with `World::tick`'s
/// contract (its result equals `spec_tick`), two runs from equal worlds
/// fed equal action sequences produce equal worlds and snapshots,
/// tick after tick.
pub proof fn lemma_tick_deterministic(
    st1: TickState,
    st2: TickState,
    a1: Seq<ShipAction>,
    a2: Seq<ShipAction>,
)
    requires
        st1 == st2,
        a1 == a2,
    ensures
        spec_tick(st1, a1) == spec_tick(st2, a2),
{
}

} // verus!
