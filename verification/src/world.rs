//! The world-state store and the tick algorithm.
//!
//! A `World` owns the authoritative collections of ships, bullets and
//! pending upgrades, the per-tick spatial grid and damage feed, and the
//! injected random source. Exactly one owner drives it; everyone else
//! observes it only through the published `State` snapshot. `tick`
//! implements `spec_tick` exactly, which makes the simulation
//! deterministic: equal states and equal inputs give equal snapshots.

use vstd::prelude::*;
use crate::config::{CELLS, FIRE_COST, MAP_SIZE, SCALE, SPAWN_TRIES, TICK_FP};
use crate::entities::{
    bullet_wf, enchance_wf, ship_action_wf, ship_wf, Action, Bullet, DamageFeedRecord, Enchance,
    ObjectType, Ship, ShipAction,
};
use crate::grid::Grid;
use crate::model::{
    bullet_cells_backed, bullets_wf, first_empty_from, lemma_bullets_wf_push,
    lemma_bullets_wf_set, lemma_ships_wf_put, lemma_ships_wf_set, lemma_upgrades_wf_set,
    ship_cells_backed, ships_wf, spawn_search, spec_action_phase, spec_action_phase_to,
    spec_action_step, spec_bullet_moved, spec_bullet_phase, spec_bullet_phase_to,
    spec_bullet_step, spec_prog_phase, spec_prog_phase_to, spec_prog_step, spec_reset,
    spec_ship_phase, spec_ship_phase_to, spec_ship_step, spec_ship_repaired, spec_ship_turned,
    spec_tick, state_wf, TickState,
};
use crate::numeric::cell_of;
use crate::numeric::{cadd_val, cell_index, csub_val, div_scale_exec, wrap_add};
use crate::rng::SimRng;
use crate::slotmap::{dup_vec, lemma_put_in_range, lemma_slotmap_len_bound, slot_get, slot_has, SlotMap};
use crate::trig::{cos_fp, sin_fp};

verus! {

/// The authoritative simulation state.
pub struct World {
    pub ships: SlotMap<Ship>,
    pub bullets: SlotMap<Bullet>,
    pub upgrades: SlotMap<Enchance>,
    pub grid: Grid,
    pub feed: Vec<DamageFeedRecord>,
    pub rng: SimRng,
}

impl View for World {
    type V = TickState;

    open spec fn view(&self) -> TickState {
        TickState {
            ships: self.ships@,
            bullets: self.bullets@,
            upgrades: self.upgrades@,
            grid_ids: self.grid.ids@,
            grid_kinds: self.grid.kinds@,
            feed: self.feed@,
            rng: self.rng.state,
        }
    }
}

/// The state of a freshly created world seeded with `seed`.
pub open spec fn spec_initial(seed: u64) -> TickState {
    TickState {
        ships: Seq::empty(),
        bullets: Seq::empty(),
        upgrades: Seq::empty(),
        grid_ids: Seq::new(CELLS as nat, |c: int| 0usize),
        grid_kinds: Seq::new(CELLS as nat, |c: int| ObjectType::Empty),
        feed: Seq::empty(),
        rng: seed,
    }
}

impl World {
    /// An empty world with the random source at `seed`.
    pub fn new(seed: u64) -> (w: World)
        ensures
            w@ == spec_initial(seed),
            state_wf(w@),
    {
        let w = World {
            ships: SlotMap::new(),
            bullets: SlotMap::new(),
            upgrades: SlotMap::new(),
            grid: Grid::new(),
            feed: Vec::new(),
            rng: SimRng::new(seed),
        };
        proof {
            assert(w@.grid_ids =~= spec_initial(seed).grid_ids);
            assert(w@.grid_kinds =~= spec_initial(seed).grid_kinds);
            assert(w@ =~= spec_initial(seed));
        }
        w
    }

    /// The bullet phase: expire, advance and re-grid every bullet.
    pub fn bullet_phase(&mut self)
        requires
            state_wf(old(self)@),
            forall|c: int|
                0 <= c < CELLS ==> old(self)@.grid_kinds[c] == ObjectType::Empty,
        ensures
            final(self)@ == spec_bullet_phase(old(self)@),
            state_wf(final(self)@),
            bullet_cells_backed(final(self)@),
            forall|c: int|
                0 <= c < CELLS ==> final(self)@.grid_kinds[c] == ObjectType::Empty
                    || final(self)@.grid_kinds[c] == ObjectType::BulletCell,
            forall|c: int|
                0 <= c < CELLS && final(self)@.grid_kinds[c] == ObjectType::BulletCell
                    ==> (final(self)@.grid_ids[c] as int) < final(self)@.bullets.len(),
            final(self)@.ships == old(self)@.ships,
            final(self)@.upgrades == old(self)@.upgrades,
            final(self)@.feed == old(self)@.feed,
            final(self)@.rng == old(self)@.rng,
            final(self)@.bullets.len() == old(self)@.bullets.len(),
    {
        let ghost st0 = self@;
        let n = self.bullets.slot_len();
        let mut i: usize = 0;
        while i < n
            invariant
                state_wf(st0),
                n == st0.bullets.len(),
                i <= n,
                self@ == spec_bullet_phase_to(st0, i as int),
                state_wf(self@),
                bullet_cells_backed(self@),
                forall|c: int|
                    0 <= c < CELLS ==> self@.grid_kinds[c] == ObjectType::Empty
                        || self@.grid_kinds[c] == ObjectType::BulletCell,
                forall|c: int|
                    0 <= c < CELLS && self@.grid_kinds[c] == ObjectType::BulletCell
                        ==> (self@.grid_ids[c] as int) < i as int,
                self@.ships == st0.ships,
                self@.upgrades == st0.upgrades,
                self@.feed == st0.feed,
                self@.rng == st0.rng,
                self@.bullets.len() == n,
            decreases n - i,
        {
            let ghost pre = self@;
            match self.bullets.get(i) {
                None => {
                    proof {
                        assert(spec_bullet_step(pre, i as int) == pre);
                    }
                },
                Some(b) => {
                    proof {
                        assert(slot_has(pre.bullets, i as int));
                        assert(bullet_wf(b));
                    }
                    if b.ttl <= 0 || b.hp <= 0 {
                        self.bullets.take_out(i);
                        proof {
                            assert(self@ =~= spec_bullet_step(pre, i as int));
                            lemma_bullets_wf_set(pre.bullets, i as int, None);
                            assert forall|c2: int|
                                0 <= c2 < CELLS && self@.grid_kinds[c2]
                                    == ObjectType::BulletCell implies slot_has(
                                self@.bullets,
                                self@.grid_ids[c2] as int,
                            ) && cell_of(
                                slot_get(self@.bullets, self@.grid_ids[c2] as int).x as int,
                                slot_get(self@.bullets, self@.grid_ids[c2] as int).y as int,
                            ) == c2 by {
                                assert(pre.grid_kinds[c2] == ObjectType::BulletCell);
                                assert((pre.grid_ids[c2] as int) < i as int);
                            }
                        }
                    } else {
                        let ca = cos_fp(b.angle);
                        let sa = sin_fp(b.angle);
                        proof {
                            assert(-1_000_000_000_000_000 <= b.v * ca
                                <= 1_000_000_000_000_000 && -1_000_000_000_000_000 <= b.v * sa
                                <= 1_000_000_000_000_000) by (nonlinear_arith)
                                requires
                                    0 <= b.v <= 1_000_000_000_000,
                                    -1000 <= ca <= 1000,
                                    -1000 <= sa <= 1000,
                            ;
                        }
                        let dx = div_scale_exec(b.v * ca);
                        let dy = div_scale_exec(b.v * sa);
                        let nx = wrap_add(b.x, dx);
                        let ny = wrap_add(b.y, dy);
                        let b2 = Bullet { x: nx, y: ny, ttl: b.ttl - TICK_FP, ..b };
                        let c = cell_index(nx, ny);
                        self.bullets.put(i, b2);
                        self.grid.set_cell(c, i, ObjectType::BulletCell);
                        proof {
                            lemma_put_in_range::<Bullet>(pre.bullets, i as int, b2);
                            assert(b2 == spec_bullet_moved(b));
                            assert(self@ =~= spec_bullet_step(pre, i as int));
                            assert(bullet_wf(b2));
                            lemma_bullets_wf_set(pre.bullets, i as int, Some(b2));
                            assert forall|c2: int|
                                0 <= c2 < CELLS && self@.grid_kinds[c2]
                                    == ObjectType::BulletCell implies slot_has(
                                self@.bullets,
                                self@.grid_ids[c2] as int,
                            ) && cell_of(
                                slot_get(self@.bullets, self@.grid_ids[c2] as int).x as int,
                                slot_get(self@.bullets, self@.grid_ids[c2] as int).y as int,
                            ) == c2 && (self@.grid_ids[c2] as int) < i as int + 1 by {
                                if c2 == c as int {
                                    assert(self@.grid_ids[c2] == i);
                                    assert(slot_has(self@.bullets, i as int));
                                } else {
                                    assert(pre.grid_kinds[c2] == ObjectType::BulletCell);
                                    assert((pre.grid_ids[c2] as int) < i as int);
                                }
                            }
                        }
                    }
                },
            }
            i = i + 1;
            proof {
                assert(spec_bullet_phase_to(st0, i as int) == spec_bullet_step(
                    spec_bullet_phase_to(st0, i as int - 1),
                    i as int - 1,
                ));
            }
        }
    }

    /// The ship phase at one slot: repair, turn or move, and resolve the
    /// candidate cell against the grid.
    #[verifier::rlimit(100)]
    fn ship_step(&mut self, i: usize)
        requires
            state_wf(old(self)@),
            bullet_cells_backed(old(self)@),
            ship_cells_backed(old(self)@),
            i < old(self)@.ships.len(),
            forall|c: int|
                0 <= c < CELLS && old(self)@.grid_kinds[c] == ObjectType::ShipCell
                    ==> (old(self)@.grid_ids[c] as int) < i as int,
        ensures
            final(self)@ == spec_ship_step(old(self)@, i as int),
            state_wf(final(self)@),
            bullet_cells_backed(final(self)@),
            ship_cells_backed(final(self)@),
            forall|c: int|
                0 <= c < CELLS && final(self)@.grid_kinds[c] == ObjectType::ShipCell
                    ==> (final(self)@.grid_ids[c] as int) < i as int + 1,
            final(self)@.ships.len() == old(self)@.ships.len(),
            final(self)@.bullets.len() == old(self)@.bullets.len(),
            final(self)@.rng == old(self)@.rng,
    {
        let ghost pre = self@;
        let got = self.ships.get(i);
        match got {
            None => {
                proof {
                    assert(spec_ship_step(pre, i as int) == pre);
                }
            },
            Some(s0) => {
                proof {
                    assert(slot_has(pre.ships, i as int));
                    assert(ship_wf(s0));
                    lemma_slotmap_len_bound(&self.ships);
                }
                if s0.hp <= 0 {
                    self.ships.take_out(i);
                    proof {
                        assert(self@ =~= spec_ship_step(pre, i as int));
                        lemma_ships_wf_set(pre.ships, i as int, None);
                        assert forall|c2: int|
                            0 <= c2 < CELLS && self@.grid_kinds[c2]
                                == ObjectType::ShipCell implies slot_has(
                            self@.ships,
                            self@.grid_ids[c2] as int,
                        ) && cell_of(
                            slot_get(self@.ships, self@.grid_ids[c2] as int).x as int,
                            slot_get(self@.ships, self@.grid_ids[c2] as int).y as int,
                        ) == c2 by {
                            assert(pre.grid_kinds[c2] == ObjectType::ShipCell);
                            assert((pre.grid_ids[c2] as int) < i as int);
                        }
                    }
                } else {
                    // repair (uncapped, checked against the old value)
                    let s1 = if s0.hp < s0.max_hp {
                        Ship { hp: cadd_val(s0.hp, s0.repair_rate), ..s0 }
                    } else {
                        s0
                    };
                    proof {
                        assert(s1 == spec_ship_repaired(s0));
                        assert(ship_wf(s1));
                    }
                    // turn toward the target angle, or move along it
                    let aligned = s1.current_angle == s1.angle;
                    let s2 = if aligned {
                        s1
                    } else {
                        let remain: i64 = s1.angle - s1.current_angle;
                        let mag: i64 = if remain < 0 {
                            -remain
                        } else {
                            remain
                        };
                        if mag < s1.turn_rate {
                            Ship { current_angle: s1.angle, ..s1 }
                        } else if remain > 0 {
                            Ship { current_angle: s1.current_angle + s1.turn_rate, ..s1 }
                        } else {
                            Ship { current_angle: s1.current_angle - s1.turn_rate, ..s1 }
                        }
                    };
                    proof {
                        if !aligned {
                            assert(s2 == spec_ship_turned(s1));
                        }
                        assert(ship_wf(s2));
                    }
                    let nx: i64;
                    let ny: i64;
                    if aligned {
                        let ca = cos_fp(s1.angle);
                        let sa = sin_fp(s1.angle);
                        proof {
                            assert(-1_000_000_000_000_000 <= s1.v * ca
                                <= 1_000_000_000_000_000 && -1_000_000_000_000_000 <= s1.v * sa
                                <= 1_000_000_000_000_000) by (nonlinear_arith)
                                requires
                                    0 <= s1.v <= 1_000_000_000_000,
                                    -1000 <= ca <= 1000,
                                    -1000 <= sa <= 1000,
                            ;
                        }
                        nx = wrap_add(s1.x, div_scale_exec(s1.v * ca));
                        ny = wrap_add(s1.y, div_scale_exec(s1.v * sa));
                    } else {
                        nx = s1.x;
                        ny = s1.y;
                    }
                    let c = cell_index(nx, ny);
                    match self.grid.kind_at(c) {
                        ObjectType::ShipCell => {
                            // move blocked entirely: rotation and repair stand
                            self.ships.put(i, s2);
                            proof {
                                lemma_put_in_range::<Ship>(pre.ships, i as int, s2);
                                assert(self@ =~= spec_ship_step(pre, i as int));
                                lemma_ships_wf_set(pre.ships, i as int, Some(s2));
                                assert forall|c2: int|
                                    0 <= c2 < CELLS && self@.grid_kinds[c2]
                                        == ObjectType::ShipCell implies slot_has(
                                    self@.ships,
                                    self@.grid_ids[c2] as int,
                                ) && cell_of(
                                    slot_get(self@.ships, self@.grid_ids[c2] as int).x as int,
                                    slot_get(self@.ships, self@.grid_ids[c2] as int).y as int,
                                ) == c2 && (self@.grid_ids[c2] as int) < i as int + 1 by {
                                    assert(pre.grid_kinds[c2] == ObjectType::ShipCell);
                                    assert((pre.grid_ids[c2] as int) < i as int);
                                }
                            }
                        },
                        ObjectType::Empty => {
                            let s3 = Ship { x: nx, y: ny, ..s2 };
                            self.ships.put(i, s3);
                            self.grid.set_cell(c, i, ObjectType::ShipCell);
                            proof {
                                lemma_put_in_range::<Ship>(pre.ships, i as int, s3);
                                assert(self@ =~= spec_ship_step(pre, i as int));
                                lemma_ships_wf_set(pre.ships, i as int, Some(s3));
                                assert forall|c2: int|
                                    0 <= c2 < CELLS && self@.grid_kinds[c2]
                                        == ObjectType::ShipCell implies slot_has(
                                    self@.ships,
                                    self@.grid_ids[c2] as int,
                                ) && cell_of(
                                    slot_get(self@.ships, self@.grid_ids[c2] as int).x as int,
                                    slot_get(self@.ships, self@.grid_ids[c2] as int).y as int,
                                ) == c2 && (self@.grid_ids[c2] as int) < i as int + 1 by {
                                    if c2 != c as int {
                                        assert(pre.grid_kinds[c2] == ObjectType::ShipCell);
                                        assert((pre.grid_ids[c2] as int) < i as int);
                                    }
                                }
                                assert forall|c2: int|
                                    0 <= c2 < CELLS && self@.grid_kinds[c2]
                                        == ObjectType::BulletCell implies slot_has(
                                    self@.bullets,
                                    self@.grid_ids[c2] as int,
                                ) && cell_of(
                                    slot_get(self@.bullets, self@.grid_ids[c2] as int).x as int,
                                    slot_get(self@.bullets, self@.grid_ids[c2] as int).y as int,
                                ) == c2 by {
                                    assert(c2 != c as int);
                                    assert(pre.grid_kinds[c2] == ObjectType::BulletCell);
                                }
                            }
                        },
                        ObjectType::UpgradeCell => {
                            let s3 = Ship { x: nx, y: ny, ..s2 };
                            let s4 = match self.upgrades.get(i) {
                                Some(u) => {
                                    proof {
                                        assert(enchance_wf(u));
                                    }
                                    let mut su = s3;
                                    su.apply_enchance(u);
                                    self.upgrades.take_out(i);
                                    su
                                },
                                None => s3,
                            };
                            self.ships.put(i, s4);
                            self.grid.set_cell(c, i, ObjectType::ShipCell);
                            proof {
                                lemma_put_in_range::<Ship>(pre.ships, i as int, s4);
                                assert(self@ =~= spec_ship_step(pre, i as int));
                                lemma_ships_wf_set(pre.ships, i as int, Some(s4));
                                if slot_has(pre.upgrades, i as int) {
                                    lemma_upgrades_wf_set(pre.upgrades, i as int, None);
                                }
                                assert forall|c2: int|
                                    0 <= c2 < CELLS && self@.grid_kinds[c2]
                                        == ObjectType::ShipCell implies slot_has(
                                    self@.ships,
                                    self@.grid_ids[c2] as int,
                                ) && cell_of(
                                    slot_get(self@.ships, self@.grid_ids[c2] as int).x as int,
                                    slot_get(self@.ships, self@.grid_ids[c2] as int).y as int,
                                ) == c2 && (self@.grid_ids[c2] as int) < i as int + 1 by {
                                    if c2 != c as int {
                                        assert(pre.grid_kinds[c2] == ObjectType::ShipCell);
                                        assert((pre.grid_ids[c2] as int) < i as int);
                                    }
                                }
                                assert forall|c2: int|
                                    0 <= c2 < CELLS && self@.grid_kinds[c2]
                                        == ObjectType::BulletCell implies slot_has(
                                    self@.bullets,
                                    self@.grid_ids[c2] as int,
                                ) && cell_of(
                                    slot_get(self@.bullets, self@.grid_ids[c2] as int).x as int,
                                    slot_get(self@.bullets, self@.grid_ids[c2] as int).y as int,
                                ) == c2 by {
                                    assert(c2 != c as int);
                                    assert(pre.grid_kinds[c2] == ObjectType::BulletCell);
                                }
                            }
                        },
                        ObjectType::BulletCell => {
                            let bid = self.grid.id_at(c);
                            proof {
                                assert(slot_has(pre.bullets, bid as int));
                                lemma_slotmap_len_bound(&self.bullets);
                            }
                            let s3 = Ship { x: nx, y: ny, ..s2 };
                            match self.bullets.get(bid) {
                                Some(b) => {
                                    let b2 = Bullet { hp: csub_val(b.hp, s3.hp), ..b };
                                    let s4 = Ship { hp: csub_val(s3.hp, b.hp), ..s3 };
                                    self.bullets.put(bid, b2);
                                    self.ships.put(i, s4);
                                    self.grid.set_cell(c, i, ObjectType::ShipCell);
                                    self.feed.push(DamageFeedRecord(b.ship_id, i, s4.hp));
                                    proof {
                                        lemma_put_in_range::<Bullet>(pre.bullets, bid as int, b2);
                                        lemma_put_in_range::<Ship>(pre.ships, i as int, s4);
                                        assert(self@ =~= spec_ship_step(pre, i as int));
                                        lemma_ships_wf_set(pre.ships, i as int, Some(s4));
                                        lemma_bullets_wf_set(pre.bullets, bid as int, Some(b2));
                                        assert forall|c2: int|
                                            0 <= c2 < CELLS && self@.grid_kinds[c2]
                                                == ObjectType::ShipCell implies slot_has(
                                            self@.ships,
                                            self@.grid_ids[c2] as int,
                                        ) && cell_of(
                                            slot_get(self@.ships, self@.grid_ids[c2] as int).x
                                                as int,
                                            slot_get(self@.ships, self@.grid_ids[c2] as int).y
                                                as int,
                                        ) == c2 && (self@.grid_ids[c2] as int) < i as int
                                            + 1 by {
                                            if c2 != c as int {
                                                assert(pre.grid_kinds[c2]
                                                    == ObjectType::ShipCell);
                                                assert((pre.grid_ids[c2] as int) < i as int);
                                            }
                                        }
                                        // bullets elsewhere on the grid are other ids:
                                        // their cells still match their positions
                                        assert forall|c2: int|
                                            0 <= c2 < CELLS && self@.grid_kinds[c2]
                                                == ObjectType::BulletCell implies slot_has(
                                            self@.bullets,
                                            self@.grid_ids[c2] as int,
                                        ) && crate::numeric::cell_of(
                                            slot_get(self@.bullets, self@.grid_ids[c2] as int).x
                                                as int,
                                            slot_get(self@.bullets, self@.grid_ids[c2] as int).y
                                                as int,
                                        ) == c2 by {
                                            assert(pre.grid_kinds[c2] == ObjectType::BulletCell);
                                            assert(c2 != c as int);
                                            if pre.grid_ids[c2] as int == bid as int {
                                                assert(crate::numeric::cell_of(
                                                    b.x as int,
                                                    b.y as int,
                                                ) == c2);
                                                assert(crate::numeric::cell_of(
                                                    b.x as int,
                                                    b.y as int,
                                                ) == c as int);
                                                assert(false);
                                            }
                                        }
                                    }
                                },
                                None => {
                                    proof {
                                        assert(false);
                                    }
                                },
                            }
                        },
                    }
                }
            },
        }
    }

    /// The ship phase: remove the dead, repair, turn, move and resolve
    /// every surviving ship against this tick's grid.
    pub fn ship_phase(&mut self)
        requires
            state_wf(old(self)@),
            bullet_cells_backed(old(self)@),
            forall|c: int|
                0 <= c < CELLS ==> old(self)@.grid_kinds[c] != ObjectType::ShipCell,
        ensures
            final(self)@ == spec_ship_phase(old(self)@),
            state_wf(final(self)@),
            bullet_cells_backed(final(self)@),
            ship_cells_backed(final(self)@),
            final(self)@.ships.len() == old(self)@.ships.len(),
            final(self)@.bullets.len() == old(self)@.bullets.len(),
            final(self)@.rng == old(self)@.rng,
    {
        let ghost st0 = self@;
        let n = self.ships.slot_len();
        let mut i: usize = 0;
        while i < n
            invariant
                n == st0.ships.len(),
                i <= n,
                self@ == spec_ship_phase_to(st0, i as int),
                state_wf(self@),
                bullet_cells_backed(self@),
                ship_cells_backed(self@),
                forall|c: int|
                    0 <= c < CELLS && self@.grid_kinds[c] == ObjectType::ShipCell
                        ==> (self@.grid_ids[c] as int) < i as int,
                self@.ships.len() == n,
                self@.bullets.len() == st0.bullets.len(),
                self@.rng == st0.rng,
            decreases n - i,
        {
            self.ship_step(i);
            i = i + 1;
            proof {
                assert(spec_ship_phase_to(st0, i as int) == spec_ship_step(
                    spec_ship_phase_to(st0, i as int - 1),
                    i as int - 1,
                ));
            }
        }
    }

    /// The first unoccupied cell of the grid in row order, or `CELLS`
    /// when the whole map is occupied.
    fn find_first_empty(grid: &Grid) -> (r: usize)
        requires
            grid.kinds@.len() == CELLS,
        ensures
            r == first_empty_from(grid.kinds@, 0),
            r <= CELLS,
    {
        let mut c: usize = 0;
        while c < CELLS
            invariant
                grid.kinds@.len() == CELLS,
                c <= CELLS,
                first_empty_from(grid.kinds@, 0) == first_empty_from(grid.kinds@, c as int),
                forall|j: int| 0 <= j < c ==> grid.kinds@[j] != ObjectType::Empty,
            decreases CELLS - c,
        {
            if matches!(grid.kind_at(c), ObjectType::Empty) {
                return c;
            }
            c = c + 1;
        }
        CELLS
    }

    /// Rejection sampling for a spawn cell, executable form: at most
    /// `SPAWN_TRIES - k` further draws.
    fn spawn_search_exec(rng: &mut SimRng, grid: &Grid, k: usize) -> (r: Option<(usize, usize)>)
        requires
            grid.kinds@.len() == CELLS,
            k <= SPAWN_TRIES,
        ensures
            r == spawn_search(old(rng).state, grid.kinds@, k as int).0,
            final(rng).state == spawn_search(old(rng).state, grid.kinds@, k as int).1,
            r is Some ==> (r->Some_0).0 < MAP_SIZE && (r->Some_0).1 < MAP_SIZE,
        decreases SPAWN_TRIES - k,
    {
        if k >= SPAWN_TRIES {
            return None;
        }
        let sx = rng.next_axis();
        let sy = rng.next_axis();
        let cell = sy * MAP_SIZE + sx;
        if matches!(grid.kind_at(cell), ObjectType::Empty) {
            Some((sx, sy))
        } else {
            Self::spawn_search_exec(rng, grid, k + 1)
        }
    }

    /// The action phase: drain this tick's batch of player intents in
    /// arrival order and apply each to the world.
    #[verifier::rlimit(100)]
    pub fn apply_actions(&mut self, actions: &Vec<ShipAction>)
        requires
            state_wf(old(self)@),
            bullet_cells_backed(old(self)@),
            ship_cells_backed(old(self)@),
            forall|j: int|
                0 <= j < actions@.len() ==> ship_action_wf(#[trigger] actions@[j]),
            old(self)@.bullets.len() + actions@.len() <= usize::MAX,
        ensures
            final(self)@ == spec_action_phase(old(self)@, actions@),
            state_wf(final(self)@),
            bullet_cells_backed(final(self)@),
            ship_cells_backed(final(self)@),
    {
        let ghost st0 = self@;
        let m = actions.len();
        let mut j: usize = 0;
        while j < m
            invariant
                state_wf(st0),
                m == actions@.len(),
                j <= m,
                forall|q: int|
                    0 <= q < actions@.len() ==> ship_action_wf(#[trigger] actions@[q]),
                st0.bullets.len() + m <= usize::MAX,
                self@ == spec_action_phase_to(st0, actions@, j as int),
                state_wf(self@),
                bullet_cells_backed(self@),
                ship_cells_backed(self@),
                self@.bullets.len() <= st0.bullets.len() + j,
                self@.grid_ids == st0.grid_ids,
                self@.grid_kinds == st0.grid_kinds,
            decreases m - j,
        {
            let ghost pre = self@;
            let a = actions[j];
            let id = a.ship_id;
            match a.action {
                Action::MoveShip { angle } => {
                    match self.ships.get(id) {
                        Some(s) => {
                            proof {
                                assert(slot_has(pre.ships, id as int));
                                lemma_slotmap_len_bound(&self.ships);
                            }
                            let s2 = Ship { angle, ..s };
                            self.ships.put(id, s2);
                            proof {
                                lemma_put_in_range::<Ship>(pre.ships, id as int, s2);
                                lemma_ships_wf_set(pre.ships, id as int, Some(s2));
                                assert(self@ =~= spec_action_step(pre, a));
                                assert forall|c2: int|
                                    0 <= c2 < CELLS && self@.grid_kinds[c2]
                                        == ObjectType::ShipCell implies slot_has(
                                    self@.ships,
                                    self@.grid_ids[c2] as int,
                                ) && cell_of(
                                    slot_get(self@.ships, self@.grid_ids[c2] as int).x as int,
                                    slot_get(self@.ships, self@.grid_ids[c2] as int).y as int,
                                ) == c2 by {
                                    assert(pre.grid_kinds[c2] == ObjectType::ShipCell);
                                    assert(slot_has(pre.ships, pre.grid_ids[c2] as int));
                                }
                            }
                        },
                        None => {
                            let ang = self.rng.next_angle();
                            let ghost s1 = self.rng.state;
                            let found = Self::spawn_search_exec(&mut self.rng, &self.grid, 0);
                            let pos: Option<(usize, usize)> = match found {
                                Some(p) => Some(p),
                                None => {
                                    let cell = Self::find_first_empty(&self.grid);
                                    if cell < CELLS {
                                        Some((cell % MAP_SIZE, cell / MAP_SIZE))
                                    } else {
                                        None
                                    }
                                },
                            };
                            match pos {
                                Some((sx, sy)) => {
                                    let ship = Ship::new(
                                        (sx as i64) * SCALE,
                                        (sy as i64) * SCALE,
                                        ang,
                                    );
                                    self.ships.put(id, ship);
                                    proof {
                                        lemma_ships_wf_put(pre.ships, id as int, ship);
                                        assert(self@ =~= spec_action_step(pre, a));
                                        assert forall|c2: int|
                                            0 <= c2 < CELLS && self@.grid_kinds[c2]
                                                == ObjectType::ShipCell implies slot_has(
                                            self@.ships,
                                            self@.grid_ids[c2] as int,
                                        ) && cell_of(
                                            slot_get(self@.ships, self@.grid_ids[c2] as int).x
                                                as int,
                                            slot_get(self@.ships, self@.grid_ids[c2] as int).y
                                                as int,
                                        ) == c2 by {
                                            assert(pre.grid_kinds[c2] == ObjectType::ShipCell);
                                            assert(slot_has(pre.ships, pre.grid_ids[c2] as int));
                                            assert(pre.grid_ids[c2] as int != id as int);
                                        }
                                    }
                                },
                                None => {
                                    proof {
                                        assert(self@ =~= spec_action_step(pre, a));
                                    }
                                },
                            }
                        },
                    }
                },
                Action::AddBullet { angle } => {
                    match self.ships.get(id) {
                        Some(s) => {
                            proof {
                                assert(slot_has(pre.ships, id as int));
                                assert(ship_wf(s));
                                lemma_slotmap_len_bound(&self.ships);
                            }
                            let s2 = Ship { hp: csub_val(s.hp, FIRE_COST), ..s };
                            self.ships.put(id, s2);
                            self.feed.push(DamageFeedRecord(id, id, s2.hp));
                            let b = Bullet::new(id, &s2, angle);
                            let bid = self.bullets.push_fresh(b);
                            proof {
                                lemma_put_in_range::<Ship>(pre.ships, id as int, s2);
                                lemma_ships_wf_set(pre.ships, id as int, Some(s2));
                                lemma_bullets_wf_push(pre.bullets, b);
                                assert(self@ =~= spec_action_step(pre, a));
                                assert forall|c2: int|
                                    0 <= c2 < CELLS && self@.grid_kinds[c2]
                                        == ObjectType::ShipCell implies slot_has(
                                    self@.ships,
                                    self@.grid_ids[c2] as int,
                                ) && cell_of(
                                    slot_get(self@.ships, self@.grid_ids[c2] as int).x as int,
                                    slot_get(self@.ships, self@.grid_ids[c2] as int).y as int,
                                ) == c2 by {
                                    assert(pre.grid_kinds[c2] == ObjectType::ShipCell);
                                    assert(slot_has(pre.ships, pre.grid_ids[c2] as int));
                                }
                                assert forall|c2: int|
                                    0 <= c2 < CELLS && self@.grid_kinds[c2]
                                        == ObjectType::BulletCell implies slot_has(
                                    self@.bullets,
                                    self@.grid_ids[c2] as int,
                                ) && cell_of(
                                    slot_get(self@.bullets, self@.grid_ids[c2] as int).x as int,
                                    slot_get(self@.bullets, self@.grid_ids[c2] as int).y as int,
                                ) == c2 by {
                                    assert(pre.grid_kinds[c2] == ObjectType::BulletCell);
                                    assert(slot_has(pre.bullets, pre.grid_ids[c2] as int));
                                }
                            }
                        },
                        None => {
                            proof {
                                assert(self@ =~= spec_action_step(pre, a));
                            }
                        },
                    }
                },
            }
            j = j + 1;
            proof {
                assert(spec_action_phase_to(st0, actions@, j as int) == spec_action_step(
                    spec_action_phase_to(st0, actions@, j as int - 1),
                    actions@[j as int - 1],
                ));
            }
        }
    }

    /// The progression phase: for every damage-feed record whose victim
    /// ended at or below zero hit points, grant the attacker a reward
    /// scaled by the victim's stats.
    pub fn progress(&mut self)
        requires
            state_wf(old(self)@),
            bullet_cells_backed(old(self)@),
            ship_cells_backed(old(self)@),
        ensures
            final(self)@ == spec_prog_phase(old(self)@),
            state_wf(final(self)@),
            bullet_cells_backed(final(self)@),
            ship_cells_backed(final(self)@),
    {
        let ghost st0 = self@;
        let m = self.feed.len();
        let mut j: usize = 0;
        while j < m
            invariant
                state_wf(st0),
                m == st0.feed.len(),
                j <= m,
                self@ == spec_prog_phase_to(st0, st0.feed, j as int),
                self@.feed == st0.feed,
                self@.grid_ids == st0.grid_ids,
                self@.grid_kinds == st0.grid_kinds,
                self@.bullets == st0.bullets,
                state_wf(self@),
                bullet_cells_backed(self@),
                ship_cells_backed(self@),
            decreases m - j,
        {
            let ghost pre = self@;
            let rec = self.feed[j];
            if rec.2 <= 0 {
                match self.ships.get(rec.1) {
                    Some(victim) => {
                        proof {
                            assert(slot_has(pre.ships, rec.1 as int));
                            assert(ship_wf(victim));
                        }
                        let e = Enchance::new(&victim, &mut self.rng);
                        match self.ships.get(rec.0) {
                            Some(att) => {
                                proof {
                                    assert(slot_has(pre.ships, rec.0 as int));
                                    assert(ship_wf(att));
                                    lemma_slotmap_len_bound(&self.ships);
                                }
                                let mut a2 = att;
                                a2.apply_enchance(e);
                                self.ships.put(rec.0, a2);
                                proof {
                                    lemma_put_in_range::<Ship>(pre.ships, rec.0 as int, a2);
                                    lemma_ships_wf_set(pre.ships, rec.0 as int, Some(a2));
                                    assert(self@ =~= spec_prog_step(pre, rec));
                                    assert forall|c2: int|
                                        0 <= c2 < CELLS && self@.grid_kinds[c2]
                                            == ObjectType::ShipCell implies slot_has(
                                        self@.ships,
                                        self@.grid_ids[c2] as int,
                                    ) && cell_of(
                                        slot_get(self@.ships, self@.grid_ids[c2] as int).x
                                            as int,
                                        slot_get(self@.ships, self@.grid_ids[c2] as int).y
                                            as int,
                                    ) == c2 by {
                                        assert(pre.grid_kinds[c2] == ObjectType::ShipCell);
                                        assert(slot_has(pre.ships, pre.grid_ids[c2] as int));
                                    }
                                }
                            },
                            None => {
                                proof {
                                    assert(self@ =~= spec_prog_step(pre, rec));
                                }
                            },
                        }
                    },
                    None => {
                        proof {
                            assert(spec_prog_step(pre, rec) == pre);
                        }
                    },
                }
            } else {
                proof {
                    assert(spec_prog_step(pre, rec) == pre);
                }
            }
            j = j + 1;
            proof {
                assert(spec_prog_phase_to(st0, st0.feed, j as int) == spec_prog_step(
                    spec_prog_phase_to(st0, st0.feed, j as int - 1),
                    st0.feed[j as int - 1],
                ));
            }
        }
    }

    /// One whole tick: reset the grid and the feed, run the bullet,
    /// ship, action and progression phases in order, and produce the
    /// snapshot to publish. Implements `spec_tick` exactly.
    pub fn tick(&mut self, actions: &Vec<ShipAction>) -> (snap: State)
        requires
            state_wf(old(self)@),
            forall|j: int|
                0 <= j < actions@.len() ==> ship_action_wf(#[trigger] actions@[j]),
            old(self)@.bullets.len() + actions@.len() <= usize::MAX,
        ensures
            final(self)@ == spec_tick(old(self)@, actions@),
            state_wf(final(self)@),
            bullet_cells_backed(final(self)@),
            ship_cells_backed(final(self)@),
            snap.0 == 0,
            snap.1@ == final(self)@.ships,
            snap.2@ == final(self)@.bullets,
            snap.3@ == final(self)@.grid_ids,
            snap.4@ == final(self)@.grid_kinds,
            snap.5@ == final(self)@.feed,
    {
        let ghost st0 = self@;
        self.grid = Grid::new();
        self.feed = Vec::new();
        proof {
            assert(self@.grid_ids =~= spec_reset(st0).grid_ids);
            assert(self@.grid_kinds =~= spec_reset(st0).grid_kinds);
            assert(self@.feed =~= spec_reset(st0).feed);
            assert(self@ =~= spec_reset(st0));
        }
        self.bullet_phase();
        self.ship_phase();
        self.apply_actions(actions);
        self.progress();
        State(
            0,
            self.ships.dup(),
            self.bullets.dup(),
            dup_vec(&self.grid.ids),
            dup_vec(&self.grid.kinds),
            dup_vec(&self.feed),
        )
    }
}

impl World {
    /// Every ship the hook handed back is well-formed.
    fn check_ships(m: &SlotMap<Ship>) -> (r: bool)
        ensures
            r == ships_wf(m@),
    {
        let n = m.slot_len();
        let mut i: usize = 0;
        while i < n
            invariant
                n == m@.len(),
                i <= n,
                forall|j: int|
                    0 <= j < i && #[trigger] slot_has(m@, j) ==> crate::entities::ship_wf(
                        slot_get(m@, j),
                    ),
            decreases n - i,
        {
            match m.get(i) {
                Some(s) => {
                    if !crate::entities::ship_wf_exec(&s) {
                        proof {
                            assert(slot_has(m@, i as int) && !crate::entities::ship_wf(
                                slot_get(m@, i as int),
                            ));
                        }
                        return false;
                    }
                },
                None => {},
            }
            i = i + 1;
        }
        true
    }

    /// Every bullet the hook handed back is well-formed.
    fn check_bullets(m: &SlotMap<Bullet>) -> (r: bool)
        ensures
            r == bullets_wf(m@),
    {
        let n = m.slot_len();
        let mut i: usize = 0;
        while i < n
            invariant
                n == m@.len(),
                i <= n,
                forall|j: int|
                    0 <= j < i && #[trigger] slot_has(m@, j) ==> crate::entities::bullet_wf(
                        slot_get(m@, j),
                    ),
            decreases n - i,
        {
            match m.get(i) {
                Some(b) => {
                    if !crate::entities::bullet_wf_exec(&b) {
                        proof {
                            assert(slot_has(m@, i as int) && !crate::entities::bullet_wf(
                                slot_get(m@, i as int),
                            ));
                        }
                        return false;
                    }
                },
                None => {},
            }
            i = i + 1;
        }
        true
    }

    /// Install the ship and bullet maps a pre-tick hook handed back,
    /// provided every entity in them is well-formed; otherwise refuse
    /// and leave the world unchanged. The hook is outside the core's
    /// invariant-checking boundary, so this is the one gate it passes.
    pub fn set_entities(&mut self, ships: SlotMap<Ship>, bullets: SlotMap<Bullet>) -> (ok: bool)
        requires
            state_wf(old(self)@),
        ensures
            ok == (ships_wf(ships@) && bullets_wf(bullets@)),
            ok ==> final(self)@ == (TickState { ships: ships@, bullets: bullets@, ..old(self)@ }),
            !ok ==> final(self)@ == old(self)@,
            state_wf(final(self)@),
    {
        if Self::check_ships(&ships) && Self::check_bullets(&bullets) {
            self.ships = ships;
            self.bullets = bullets;
            proof {
                assert(final(self)@ =~= (TickState {
                    ships: ships@,
                    bullets: bullets@,
                    ..old(self)@
                }));
            }
            true
        } else {
            false
        }
    }
}

/// The published snapshot of one tick: the recipient tag, the ship and
/// bullet maps, the identity and category grids, and the damage feed.
/// Immutable once produced; each subscriber overwrites only the tag.
#[derive(Clone)]
pub struct State(
    pub usize,
    pub SlotMap<Ship>,
    pub SlotMap<Bullet>,
    pub Vec<usize>,
    pub Vec<ObjectType>,
    pub Vec<DamageFeedRecord>,
);

} // verus!
