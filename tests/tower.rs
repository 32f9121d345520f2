use personality::geometry::Vec2;
use personality::tower::{Shield, Tower, TowerState};

fn tower() -> Tower {
    Tower::new(Vec2::new(115_000, 48_000), Vec2::new(20_000, 40_000), Vec2::new(8_000, 16_000))
}

#[test]
fn hit_in_normal_mode_takes_a_hundredth() {
    let mut t = tower();
    t.hit();
    assert_eq!(t.health(), 990);
    assert!(!t.reversed());
    assert!(t.flashing());
    assert_eq!(t.damaged, 100);
}

#[test]
fn hit_in_reversed_mode_takes_a_tenth_of_reversed_health() {
    let mut t = tower();
    t.reverse_roles(false);
    t.hit();
    assert_eq!(t.reversed_health(), Some(900));
    assert_eq!(t.health(), 1000);
}

#[test]
fn health_stops_at_zero() {
    let mut t = tower();
    for _ in 0..150 {
        t.hit();
    }
    assert_eq!(t.health(), 0);
    t.reverse_roles(true);
    for _ in 0..15 {
        t.hit();
    }
    assert_eq!(t.reversed_health(), Some(0));
}

#[test]
fn hundred_hits_end_the_game_on_next_update() {
    let mut t = tower();
    let mut over = false;
    t.update(16, None, &mut over);
    assert!(!over);
    for _ in 0..100 {
        t.hit();
    }
    assert!(t.health() <= 0);
    t.update(16, None, &mut over);
    assert!(over);
}

#[test]
fn countdown_ends_the_game_after_ten_seconds() {
    let mut t = tower();
    t.reverse_roles(false);
    assert_eq!(t.countdown(), Some(10_000));
    let mut over = false;
    for _ in 0..9 {
        t.update(1000, None, &mut over);
    }
    assert!(!over);
    t.update(1000, None, &mut over);
    assert!(over);
    assert_eq!(t.reversed_health(), Some(1000));
}

#[test]
fn reversed_mode_ends_when_reversed_health_is_gone() {
    let mut t = tower();
    t.reverse_roles(false);
    for _ in 0..10 {
        t.hit();
    }
    let mut over = false;
    t.update(16, None, &mut over);
    assert!(!over);
    assert!(!t.reversed());
    assert_eq!(t.shield_rect(), None);
    assert_eq!(t.health(), 1000);
}

#[test]
fn shield_sits_flush_against_the_chosen_side() {
    let mut t = tower();
    t.reverse_roles(false);
    let r = t.shield_rect().unwrap();
    assert_eq!((r.x, r.y, r.width, r.height), (138_000, 60_000, 8_000, 16_000));
    assert!(!t.flipped());
    t.reverse_roles(true);
    let r = t.shield_rect().unwrap();
    assert_eq!((r.x, r.y), (105_000, 60_000));
    assert!(t.flipped());
}

#[test]
fn shield_hit_flashes_only_the_shield() {
    let mut t = tower();
    t.hit_shield();
    assert!(!t.flashing());
    t.reverse_roles(false);
    t.hit_shield();
    assert!(t.shield().unwrap().flashing());
    assert_eq!(t.reversed_health(), Some(1000));
    assert!(!t.flashing());
}

#[test]
fn damage_flash_decays_to_zero() {
    let mut t = tower();
    t.hit();
    let mut over = false;
    t.update(60, None, &mut over);
    assert_eq!(t.damaged, 40);
    t.update(60, None, &mut over);
    assert_eq!(t.damaged, 0);
}

#[test]
fn shield_eases_halfway_in_half_the_time_constant() {
    let size = Vec2::new(8_000, 16_000);
    let mut s = Shield::new(Vec2::new(138_000, 48_000), false);
    // Threat level with the shield's center, so the time constant is 0.7 s,
    // and placed so that the target is 5 pixels below the start.
    let threat = Vec2::new(138_000 + 4_000, 48_000 + 5_000 + 8_000);
    s.update(350, Some(threat), size);
    assert_eq!(s.target, 53_000);
    let halfway = 48_000 + 2_500;
    assert!((s.position().y - halfway).abs() <= 125);
    assert_eq!(s.position().y, 50_500);
}

#[test]
fn shield_time_constant_shrinks_with_distance_and_has_a_floor() {
    let size = Vec2::new(8_000, 16_000);
    let mut near = Shield::new(Vec2::new(0, 0), false);
    // 100 pixels away: 0.7 - 0.5 = 0.2 s.
    near.update(100, Some(Vec2::new(4_000 + 100_000, 8_000 + 10_000)), size);
    assert_eq!(near.position().y, 5_000);
    let mut far = Shield::new(Vec2::new(0, 0), false);
    // 200 pixels away would give zero; the floor of 50 ms applies and the
    // shield stops at its target.
    far.update(100, Some(Vec2::new(4_000 + 200_000, 8_000 + 10_000)), size);
    assert_eq!(far.position().y, 10_000);
}

#[test]
fn shield_holds_its_target_without_threat() {
    let size = Vec2::new(8_000, 16_000);
    let mut s = Shield::new(Vec2::new(0, 0), true);
    s.update(16, None, size);
    assert_eq!(s.position(), Vec2::new(0, 0));
    assert!(s.flipped());
}

#[test]
fn tower_state_is_a_tagged_variant() {
    let t = tower();
    assert!(matches!(t.state, TowerState::Normal));
    assert_eq!(t.countdown(), None);
    assert_eq!(t.reversed_health(), None);
    assert_eq!(t.rect().width, 20_000);
    assert_eq!(t.position(), Vec2::new(115_000, 48_000));
    assert_eq!(t.size(), Vec2::new(20_000, 40_000));
}
