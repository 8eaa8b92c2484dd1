use arena_core::config::{ANGLE_FULL, SCALE, SIZE_FP, VAL_BOUND};
use arena_core::entities::{Action, Enchance, ObjectType, Ship, ShipAction};
use arena_core::numeric::{cadd_stat, cadd_val, csub_val, scaled, wrap_add};
use arena_core::queue::ActionQueue;
use arena_core::rng::SimRng;
use arena_core::slotmap::SlotMap;
use arena_core::trig::{cos_fp, sin_fp};

#[test]
fn trig_cardinal_points() {
    assert_eq!(sin_fp(0), 0);
    assert_eq!(sin_fp(900), SCALE);
    assert_eq!(sin_fp(1800), 0);
    assert_eq!(sin_fp(2700), -SCALE);
    assert_eq!(cos_fp(0), SCALE);
    assert_eq!(cos_fp(900), 0);
    assert_eq!(cos_fp(1800), -SCALE);
    assert_eq!(cos_fp(2700), 0);
}

#[test]
fn trig_stays_within_one_unit() {
    let mut d = 0;
    while d < ANGLE_FULL {
        assert!(-SCALE <= sin_fp(d) && sin_fp(d) <= SCALE);
        assert!(-SCALE <= cos_fp(d) && cos_fp(d) <= SCALE);
        d += 1;
    }
}

#[test]
fn wrap_add_wraps_both_ways() {
    assert_eq!(wrap_add(19_999, 5), 4);
    assert_eq!(wrap_add(10, -20), 19_990);
    assert_eq!(wrap_add(0, 0), 0);
    assert_eq!(wrap_add(5_000, 123), 5_123);
    assert_eq!(wrap_add(0, -40_001), 19_999);
}

#[test]
fn clamped_arithmetic_saturates_at_the_bound() {
    assert_eq!(cadd_val(VAL_BOUND, 1), VAL_BOUND);
    assert_eq!(csub_val(-VAL_BOUND, 1), -VAL_BOUND);
    assert_eq!(cadd_val(5, 7), 12);
    assert_eq!(csub_val(5, 7), -2);
    assert_eq!(cadd_stat(VAL_BOUND, VAL_BOUND), VAL_BOUND);
    assert_eq!(cadd_stat(3, 4), 7);
}

#[test]
fn reward_scaling_exact_values() {
    // 100 units scaled by 0.5 undamped, and damped to a fifth
    assert_eq!(scaled(100_000, 500, 1000), 50_000);
    assert_eq!(scaled(100_000, 500, 200), 10_000);
    // zero fraction gives nothing
    assert_eq!(scaled(100_000, 0, 1000), 0);
}

#[test]
fn rng_is_deterministic_per_seed() {
    let mut a = SimRng::new(17);
    let mut b = SimRng::new(17);
    for _ in 0..100 {
        assert_eq!(a.next_u64(), b.next_u64());
    }
    let mut c = SimRng::new(18);
    let mut d = SimRng::new(17);
    let mut diverged = false;
    for _ in 0..10 {
        if c.next_u64() != d.next_u64() {
            diverged = true;
        }
    }
    assert!(diverged);
}

#[test]
fn rng_helpers_stay_in_range() {
    let mut r = SimRng::new(3);
    for _ in 0..200 {
        let f = r.next_frac();
        assert!(0 <= f && f < SCALE);
        let a = r.next_angle();
        assert!(0 <= a && a < ANGLE_FULL);
        let x = r.next_axis();
        assert!(x < 20);
    }
}

#[test]
fn random_pickup_magnitudes_are_flat_and_seeded() {
    let mut r1 = SimRng::new(9);
    let mut r2 = SimRng::new(9);
    let e1 = Enchance::random(&mut r1);
    let e2 = Enchance::random(&mut r2);
    assert_eq!(e1, e2);
    assert!(0 <= e1.turn_rate && e1.turn_rate < 300);
    assert!(0 <= e1.v && e1.v < 200);
    assert!(0 <= e1.repair_rate && e1.repair_rate < 1000);
    assert!(0 <= e1.max_hp && e1.max_hp < 20_000);
    assert!(0 <= e1.bullet_ttl && e1.bullet_ttl < 300);
    assert!(0 <= e1.bullet_speed && e1.bullet_speed < 300);
    assert!(0 <= e1.bullet_hp && e1.bullet_hp < 1000);
}

#[test]
fn apply_enchance_stacks_every_stat() {
    let mut s = Ship::new(0, 0, 0);
    let before = s;
    let e = Enchance {
        turn_rate: 1,
        v: 2,
        repair_rate: 3,
        max_hp: 4,
        bullet_ttl: 5,
        bullet_speed: 6,
        bullet_hp: 7,
    };
    s.apply_enchance(e);
    assert_eq!(s.turn_rate, before.turn_rate + 1);
    assert_eq!(s.v, before.v + 2);
    assert_eq!(s.repair_rate, before.repair_rate + 3);
    assert_eq!(s.max_hp, before.max_hp + 4);
    assert_eq!(s.bullet_ttl, before.bullet_ttl + 5);
    assert_eq!(s.bullet_speed, before.bullet_speed + 6);
    assert_eq!(s.bullet_hp, before.bullet_hp + 7);
    assert_eq!(s.hp, before.hp, "an upgrade never touches current hit points");
}

#[test]
fn slot_map_put_get_remove() {
    let mut m: SlotMap<u32> = SlotMap::new();
    assert_eq!(m.get(0), None);
    m.put(3, 30);
    assert_eq!(m.get(3), Some(30));
    assert_eq!(m.get(2), None);
    assert_eq!(m.slot_len(), 4);
    m.put(3, 31);
    assert_eq!(m.get(3), Some(31));
    m.take_out(3);
    assert_eq!(m.get(3), None);
    assert_eq!(m.slot_len(), 4, "freeing a slot never shifts ids");
    let id = m.push_fresh(9);
    assert_eq!(id, 4);
    assert_eq!(m.get(4), Some(9));
}

#[test]
fn queue_backpressure_at_capacity() {
    let mut q = ActionQueue::new(32);
    for k in 0..32usize {
        assert!(q.try_send(ShipAction::new(k, Action::MoveShip { angle: 0 })));
    }
    // the queue is full: one more send is refused until a drain
    assert!(!q.try_send(ShipAction::new(99, Action::MoveShip { angle: 0 })));
    assert_eq!(q.len(), 32);
    let batch = q.drain();
    assert_eq!(batch.len(), 32);
    for (k, a) in batch.iter().enumerate() {
        assert_eq!(a.ship_id, k);
    }
    assert_eq!(q.len(), 0);
    assert!(q.try_send(ShipAction::new(99, Action::MoveShip { angle: 0 })));
}

#[test]
fn object_type_defaults_to_empty() {
    assert!(matches!(ObjectType::default(), ObjectType::Empty));
}

#[test]
fn ship_action_new_carries_its_parts() {
    let a = ShipAction::new(12, Action::AddBullet { angle: 450 });
    assert_eq!(a.ship_id, 12);
    assert!(matches!(a.action, Action::AddBullet { angle: 450 }));
}

#[test]
fn ship_new_is_the_default_baseline() {
    let s = Ship::new(3_000, 4_000, 777);
    assert_eq!(s.x, 3_000);
    assert_eq!(s.y, 4_000);
    assert_eq!(s.angle, 777);
    assert_eq!(s.current_angle, 777);
    assert_eq!(s.shape, 0);
    assert_eq!(s.hp, 100_000);
    assert_eq!(s.max_hp, 100_000);
    assert_eq!(s.v, 80);
    assert_eq!(s.turn_rate, 286);
    assert_eq!(s.repair_rate, 10);
    assert_eq!(s.bullet_ttl, 1_000);
    assert_eq!(s.bullet_speed, 20);
    assert_eq!(s.bullet_hp, 10_000);
    assert!(s.x < SIZE_FP);
}
