use arena_core::config::{
    ANGLE_FULL, CELLS, DEFAULT_BULLET_HP, DEFAULT_BULLET_SPEED, DEFAULT_BULLET_TTL,
    DEFAULT_HP, DEFAULT_MAX_HP, DEFAULT_REPAIR_RATE, DEFAULT_TURN_RATE, DEFAULT_V, FIRE_COST,
    MAP_SIZE, SCALE, SIZE_FP, TICK_FP,
};
use arena_core::entities::{Action, Bullet, ObjectType, Ship, ShipAction};
use arena_core::rng::SimRng;
use arena_core::slotmap::SlotMap;
use arena_core::world::World;

fn no_actions() -> Vec<ShipAction> {
    Vec::new()
}

/// A stationary bullet parked at the cell around `(x, y)`.
fn parked_bullet(owner: usize, x: i64, y: i64, hp: i64) -> Bullet {
    Bullet { ship_id: owner, x, y, angle: 0, v: 0, ttl: 100_000, hp }
}

#[test]
fn spawn_on_unseen_move_ship() {
    let mut w = World::new(42);
    let actions = vec![ShipAction::new(5, Action::MoveShip { angle: 1234 })];
    let snap = w.tick(&actions);
    // exactly one ship appeared, under the requested id
    let ship = w.ships.get(5).expect("spawned ship");
    let mut live = 0;
    for i in 0..w.ships.slot_len() {
        if w.ships.get(i).is_some() {
            live += 1;
        }
    }
    assert_eq!(live, 1);
    // a fresh default ship on a cell of the (empty) grid
    assert_eq!(ship.hp, DEFAULT_HP);
    assert_eq!(ship.max_hp, DEFAULT_MAX_HP);
    assert_eq!(ship.v, DEFAULT_V);
    assert_eq!(ship.turn_rate, DEFAULT_TURN_RATE);
    assert_eq!(ship.x % SCALE, 0);
    assert_eq!(ship.y % SCALE, 0);
    assert!(0 <= ship.x && ship.x < SIZE_FP);
    assert!(0 <= ship.y && ship.y < SIZE_FP);
    assert!(0 <= ship.angle && ship.angle < ANGLE_FULL);
    assert_eq!(ship.angle, ship.current_angle);
    // the snapshot carries the same ship map
    assert_eq!(snap.1.slots, w.ships.slots);
}

#[test]
fn move_ship_on_known_id_only_retargets() {
    let mut w = World::new(42);
    w.tick(&vec![ShipAction::new(5, Action::MoveShip { angle: 1234 })]);
    let before = w.ships.get(5).unwrap();
    w.tick(&vec![ShipAction::new(5, Action::MoveShip { angle: 700 })]);
    let after = w.ships.get(5).unwrap();
    assert_eq!(after.angle, 700);
    // no second ship appeared
    let mut live = 0;
    for i in 0..w.ships.slot_len() {
        if w.ships.get(i).is_some() {
            live += 1;
        }
    }
    assert_eq!(live, 1);
    assert_eq!(after.max_hp, before.max_hp);
}

#[test]
fn add_bullet_costs_one_hp_and_spawns_fresh_id() {
    let mut w = World::new(7);
    w.tick(&vec![ShipAction::new(3, Action::MoveShip { angle: 0 })]);
    let hp_before = w.ships.get(3).unwrap().hp;
    let snap = w.tick(&vec![ShipAction::new(3, Action::AddBullet { angle: 900 })]);
    let ship = w.ships.get(3).unwrap();
    assert_eq!(ship.hp, hp_before - FIRE_COST);
    // exactly one bullet, with the first fresh id
    let b = w.bullets.get(0).expect("bullet spawned");
    assert_eq!(b.ship_id, 3);
    assert_eq!(b.hp, DEFAULT_BULLET_HP);
    assert_eq!(b.v, DEFAULT_BULLET_SPEED + DEFAULT_V);
    assert_eq!(w.bullets.slot_len(), 1);
    // the fire cost is in the damage feed, self-attributed
    let feed = &snap.5;
    assert!(feed
        .iter()
        .any(|r| r.0 == 3 && r.1 == 3 && r.2 == hp_before - FIRE_COST));
    // a second shot gets the next id, never reusing the first
    w.tick(&vec![ShipAction::new(3, Action::AddBullet { angle: 900 })]);
    assert!(w.bullets.get(1).is_some());
    assert_eq!(w.bullets.slot_len(), 2);
}

#[test]
fn add_bullet_for_unknown_id_is_ignored() {
    let mut w = World::new(7);
    w.tick(&vec![ShipAction::new(9, Action::AddBullet { angle: 0 })]);
    assert_eq!(w.bullets.slot_len(), 0);
    assert_eq!(w.ships.slot_len(), 0);
}

#[test]
fn bullet_expires_on_ttl() {
    let mut w = World::new(1);
    let mut b = parked_bullet(0, 10_000, 5_000, 10_000);
    b.ttl = TICK_FP; // alive this tick, expired after its decrement
    let mut bullets: SlotMap<Bullet> = SlotMap::new();
    bullets.push_fresh(b);
    assert!(w.set_entities(SlotMap::new(), bullets));
    w.tick(&no_actions());
    let after_first = w.bullets.get(0).expect("still present this tick");
    assert!(after_first.ttl <= 0);
    w.tick(&no_actions());
    assert!(w.bullets.get(0).is_none(), "expired bullet removed next tick");
}

#[test]
fn dead_ship_absent_next_tick() {
    let mut w = World::new(1);
    let mut ships: SlotMap<Ship> = SlotMap::new();
    let mut s = Ship::new(5_000, 5_000, 0);
    s.hp = -1;
    ships.push_fresh(s);
    assert!(w.set_entities(ships, SlotMap::new()));
    w.tick(&no_actions());
    assert!(w.ships.get(0).is_none(), "dead ship removed");
}

#[test]
fn collision_trades_damage_and_feeds_progression_record() {
    // Ship B (full hp) walks onto a bullet owned by ship id 7.
    let mut w = World::new(1);
    let mut ships: SlotMap<Ship> = SlotMap::new();
    let mut b_ship = Ship::new(11_000, 5_000, 1_800); // heading 180 degrees
    b_ship.v = 1_000; // one cell per tick
    ships.push_fresh(b_ship);
    let mut bullets: SlotMap<Bullet> = SlotMap::new();
    bullets.push_fresh(parked_bullet(7, 10_000, 5_000, 10_000));
    assert!(w.set_entities(ships, bullets));

    let snap = w.tick(&no_actions());
    let ship = w.ships.get(0).unwrap();
    let bullet = w.bullets.get(0).unwrap();
    // B moved in: 11000 + 1000 * cos(180deg) = 10000
    assert_eq!(ship.x, 10_000);
    // trade: bullet hp = 10 - 100 units, ship hp = 100 - 10 units
    assert_eq!(bullet.hp, 10_000 - 100_000);
    assert_eq!(ship.hp, 100_000 - 10_000);
    // one damage-feed record [attacker 7, victim 0, remaining 90 units]
    assert_eq!(snap.5.len(), 1);
    assert_eq!(snap.5[0].0, 7);
    assert_eq!(snap.5[0].1, 0);
    assert_eq!(snap.5[0].2, 90_000);
    // the grid cell now belongs to the ship
    let cell = 5 * MAP_SIZE + 10;
    assert!(matches!(snap.4[cell], ObjectType::ShipCell));
    assert_eq!(snap.3[cell], 0);
    // the spent bullet disappears on the following tick
    w.tick(&no_actions());
    assert!(w.bullets.get(0).is_none());
}

#[test]
fn blocked_move_keeps_position() {
    // Two ships: the mover aims at the blocker's cell and is refused.
    let mut w = World::new(1);
    let mut ships: SlotMap<Ship> = SlotMap::new();
    let mut blocker = Ship::new(9_000, 5_000, 0);
    blocker.v = 0;
    ships.push_fresh(blocker);
    let mut mover = Ship::new(10_000, 5_000, 1_800);
    mover.v = 1_000;
    ships.push_fresh(mover);
    assert!(w.set_entities(ships, SlotMap::new()));
    w.tick(&no_actions());
    let m = w.ships.get(1).unwrap();
    assert_eq!(m.x, 10_000, "move onto an occupied cell is blocked");
    assert_eq!(m.y, 5_000);
}

#[test]
fn turning_ship_holds_position_and_rotates_by_turn_rate() {
    let mut w = World::new(1);
    let mut ships: SlotMap<Ship> = SlotMap::new();
    let mut s = Ship::new(5_000, 5_000, 0);
    s.angle = 900; // target a quarter turn away
    s.current_angle = 0;
    s.turn_rate = 250;
    ships.push_fresh(s);
    assert!(w.set_entities(ships, SlotMap::new()));
    w.tick(&no_actions());
    let t = w.ships.get(0).unwrap();
    assert_eq!(t.current_angle, 250, "rotated by exactly the turn rate");
    assert_eq!(t.x, 5_000, "no translation while turning");
    w.tick(&no_actions());
    assert_eq!(w.ships.get(0).unwrap().current_angle, 500);
    w.tick(&no_actions());
    assert_eq!(w.ships.get(0).unwrap().current_angle, 750);
    w.tick(&no_actions());
    assert_eq!(w.ships.get(0).unwrap().current_angle, 900, "snapped onto the target");
}

#[test]
fn repair_heals_below_max() {
    let mut w = World::new(1);
    let mut ships: SlotMap<Ship> = SlotMap::new();
    let mut s = Ship::new(5_000, 5_000, 0);
    s.hp = 50_000;
    s.v = 0;
    ships.push_fresh(s);
    assert!(w.set_entities(ships, SlotMap::new()));
    w.tick(&no_actions());
    assert_eq!(w.ships.get(0).unwrap().hp, 50_000 + DEFAULT_REPAIR_RATE);
}

#[test]
fn deterministic_runs_produce_identical_snapshots() {
    let script: Vec<Vec<ShipAction>> = vec![
        vec![ShipAction::new(1, Action::MoveShip { angle: 100 })],
        vec![
            ShipAction::new(2, Action::MoveShip { angle: 3_000 }),
            ShipAction::new(1, Action::AddBullet { angle: 0 }),
        ],
        vec![],
        vec![ShipAction::new(1, Action::AddBullet { angle: 2_700 })],
        vec![],
        vec![],
    ];
    let mut w1 = World::new(123_456_789);
    let mut w2 = World::new(123_456_789);
    for batch in script.iter() {
        let s1 = w1.tick(batch);
        let s2 = w2.tick(batch);
        assert_eq!(s1.0, s2.0);
        assert_eq!(s1.1.slots, s2.1.slots);
        assert_eq!(s1.2.slots, s2.2.slots);
        assert_eq!(s1.3, s2.3);
        assert_eq!(s1.4, s2.4);
        assert_eq!(s1.5, s2.5);
    }
}

#[test]
fn positions_stay_on_the_torus() {
    let mut w = World::new(99);
    let mut batches: Vec<Vec<ShipAction>> = Vec::new();
    batches.push(vec![
        ShipAction::new(1, Action::MoveShip { angle: 0 }),
        ShipAction::new(2, Action::MoveShip { angle: 1_700 }),
    ]);
    for k in 0..120usize {
        let mut batch = Vec::new();
        if k % 10 == 0 {
            batch.push(ShipAction::new(1, Action::AddBullet { angle: (k as i64 * 31) % 3_600 }));
            batch.push(ShipAction::new(2, Action::AddBullet { angle: (k as i64 * 57) % 3_600 }));
        }
        batches.push(batch);
    }
    for batch in batches.iter() {
        let snap = w.tick(batch);
        for slot in snap.1.slots.iter() {
            if let Some(s) = slot {
                assert!(0 <= s.x && s.x < SIZE_FP);
                assert!(0 <= s.y && s.y < SIZE_FP);
            }
        }
        for slot in snap.2.slots.iter() {
            if let Some(b) = slot {
                assert!(0 <= b.x && b.x < SIZE_FP);
                assert!(0 <= b.y && b.y < SIZE_FP);
            }
        }
    }
}

#[test]
fn grid_cells_consistent_with_entity_maps() {
    let mut w = World::new(4);
    let mut last = w.tick(&vec![
        ShipAction::new(1, Action::MoveShip { angle: 0 }),
        ShipAction::new(2, Action::MoveShip { angle: 900 }),
    ]);
    for k in 0..60usize {
        let batch = if k % 7 == 0 {
            vec![ShipAction::new(1, Action::AddBullet { angle: 450 })]
        } else {
            vec![]
        };
        last = w.tick(&batch);
    }
    assert_eq!(last.3.len(), CELLS);
    assert_eq!(last.4.len(), CELLS);
    for c in 0..CELLS {
        let id = last.3[c];
        match last.4[c] {
            ObjectType::ShipCell => {
                let s = last.1.slots[id].expect("ship cell backed by the ship map");
                let col = ((s.x + 500) / 1000) as usize % MAP_SIZE;
                let row = ((s.y + 500) / 1000) as usize % MAP_SIZE;
                assert_eq!(row * MAP_SIZE + col, c);
            }
            ObjectType::BulletCell => {
                let b = last.2.slots[id].expect("bullet cell backed by the bullet map");
                let col = ((b.x + 500) / 1000) as usize % MAP_SIZE;
                let row = ((b.y + 500) / 1000) as usize % MAP_SIZE;
                assert_eq!(row * MAP_SIZE + col, c);
            }
            _ => {}
        }
    }
}

fn expected_kill_reward(victim: &Ship, shadow: &mut SimRng) -> [i64; 7] {
    let scale = |stat: i64, f: i64, damp: i64| ((stat * f) / 1000 * damp) / 1000;
    let f0 = shadow.next_frac();
    let f1 = shadow.next_frac();
    let f2 = shadow.next_frac();
    let f3 = shadow.next_frac();
    let f4 = shadow.next_frac();
    let f5 = shadow.next_frac();
    let f6 = shadow.next_frac();
    [
        scale(victim.turn_rate, f0, 1000),
        scale(victim.v, f1, 200),
        scale(victim.repair_rate, f2, 1000),
        scale(victim.max_hp, f3, 1000),
        scale(victim.bullet_ttl, f4, 300),
        scale(victim.bullet_speed, f5, 300),
        scale(victim.bullet_hp, f6, 1000),
    ]
}

#[test]
fn three_kills_stack_three_sampled_rewards() {
    let seed = 2024;
    let mut w = World::new(seed);
    let mut shadow = SimRng::new(seed);

    // expected stats of the killer, starting from the default baseline
    let mut exp_turn = DEFAULT_TURN_RATE;
    let mut exp_v = DEFAULT_V;
    let mut exp_repair = DEFAULT_REPAIR_RATE;
    let mut exp_max_hp = DEFAULT_MAX_HP;
    let mut exp_bttl = DEFAULT_BULLET_TTL;
    let mut exp_bspeed = DEFAULT_BULLET_SPEED;
    let mut exp_bhp = DEFAULT_BULLET_HP;

    let killer = Ship::new(2_000, 2_000, 0);

    for round in 0..3usize {
        // a fresh victim under a new id, standing on a lethal bullet's cell
        let victim = Ship::new(10_000, 5_000, 0);
        let mut ships: SlotMap<Ship> = SlotMap::new();
        ships.put(0, w.ships.get(0).unwrap_or(killer));
        ships.put(1 + round, victim);
        let mut bullets: SlotMap<Bullet> = SlotMap::new();
        bullets.push_fresh(parked_bullet(0, 10_000, 5_000, 1_000_000));
        assert!(w.set_entities(ships, bullets));

        w.tick(&no_actions());

        // the victim died this tick and the reward landed on the killer
        assert!(w.ships.get(1 + round).unwrap().hp <= 0);
        let reward = expected_kill_reward(&victim, &mut shadow);
        exp_turn += reward[0];
        exp_v += reward[1];
        exp_repair += reward[2];
        exp_max_hp += reward[3];
        exp_bttl += reward[4];
        exp_bspeed += reward[5];
        exp_bhp += reward[6];
        let a = w.ships.get(0).unwrap();
        assert_eq!(a.turn_rate, exp_turn, "round {round}");
        assert_eq!(a.v, exp_v);
        assert_eq!(a.repair_rate, exp_repair);
        assert_eq!(a.max_hp, exp_max_hp);
        assert_eq!(a.bullet_ttl, exp_bttl);
        assert_eq!(a.bullet_speed, exp_bspeed);
        assert_eq!(a.bullet_hp, exp_bhp);

        // the corpse is gone by the end of the next tick
        w.tick(&no_actions());
        assert!(w.ships.get(1 + round).is_none());
    }
}

#[test]
fn set_entities_rejects_malformed_state() {
    let mut w = World::new(5);
    w.tick(&vec![ShipAction::new(1, Action::MoveShip { angle: 0 })]);
    let good = w.ships.get(1).unwrap();
    let mut bad = good;
    bad.x = SIZE_FP; // out of the toroidal range
    let mut ships: SlotMap<Ship> = SlotMap::new();
    ships.put(1, bad);
    assert!(!w.set_entities(ships, SlotMap::new()));
    assert_eq!(w.ships.get(1), Some(good), "refused install leaves the world unchanged");
}
