use personality::geometry::Vec2;
use personality::mask::Color;
use personality::scene::{Bullet, Scene};

const WHITE: Color = Color { r: 255, g: 255, b: 255, a: 255 };

fn open_level() -> Scene {
    let pixels = vec![WHITE; 400 * 200];
    Scene::new(400, 200, &pixels, Vec2::new(20_000, 40_000), Vec2::new(8_000, 16_000))
}

fn size() -> Vec2 {
    Vec2::new(4_000, 4_000)
}

#[test]
fn bullet_moves_by_its_velocity() {
    let mut b = Bullet::new(Vec2::new(1_000, 2_000), Vec2::new(10_000, -5_000));
    b.update(100);
    assert_eq!(b.position(), Vec2::new(2_000, 1_500));
    assert_eq!(b.velocity(), Vec2::new(10_000, -5_000));
}

#[test]
fn bullet_leaving_the_level_is_culled_the_same_frame() {
    let mut s = open_level();
    assert!(s.spawn(Bullet::new(Vec2::new(399_000, 10_000), Vec2::new(10_000, 0))));
    assert!(s.spawn(Bullet::new(Vec2::new(300_000, 150_000), Vec2::new(0, 0))));
    let mut over = false;
    s.update(1000, size(), &mut over);
    assert_eq!(s.bullets.len(), 1);
    assert_eq!(s.bullets[0].position(), Vec2::new(300_000, 150_000));
    assert!(!over);
}

#[test]
fn bullet_touching_the_edge_from_outside_is_culled() {
    let mut s = open_level();
    s.spawn(Bullet::new(Vec2::new(-4_000, 10_000), Vec2::new(0, 0)));
    let mut over = false;
    s.update(16, size(), &mut over);
    assert!(s.bullets.is_empty());
}

#[test]
fn overlapping_bullets_destroy_each_other() {
    let mut s = open_level();
    s.spawn(Bullet::new(Vec2::new(300_000, 10_000), Vec2::new(0, 0)));
    s.spawn(Bullet::new(Vec2::new(302_000, 10_000), Vec2::new(0, 0)));
    s.spawn(Bullet::new(Vec2::new(350_000, 150_000), Vec2::new(0, 0)));
    let mut over = false;
    s.update(16, size(), &mut over);
    assert_eq!(s.bullets.len(), 1);
    assert_eq!(s.bullets[0].position(), Vec2::new(350_000, 150_000));
    assert_eq!(s.tower().health(), 1000);
}

#[test]
fn bullet_hitting_the_tower_damages_it() {
    let mut s = open_level();
    s.spawn(Bullet::new(Vec2::new(120_000, 60_000), Vec2::new(0, 0)));
    let mut over = false;
    s.update(16, size(), &mut over);
    assert!(s.bullets.is_empty());
    assert_eq!(s.tower().health(), 990);
    assert!(s.tower().flashing());
}

#[test]
fn bullet_hitting_the_shield_only_flashes_it() {
    let mut s = open_level();
    s.reverse_roles(Vec2::new(300_000, 60_000));
    assert!(!s.tower().flipped());
    s.spawn(Bullet::new(Vec2::new(139_000, 62_000), Vec2::new(0, 0)));
    let mut over = false;
    s.update(16, size(), &mut over);
    assert!(s.bullets.is_empty());
    assert_eq!(s.tower().reversed_health(), Some(1000));
    assert!(s.tower().shield().unwrap().flashing());
    assert_eq!(s.tower().shield().unwrap().position().y, 59_908);
}

#[test]
fn tower_hit_takes_priority_over_mutual_destruction() {
    let mut s = open_level();
    s.spawn(Bullet::new(Vec2::new(120_000, 60_000), Vec2::new(0, 0)));
    s.spawn(Bullet::new(Vec2::new(121_000, 60_000), Vec2::new(0, 0)));
    let mut over = false;
    s.update(16, size(), &mut over);
    assert!(s.bullets.is_empty());
    assert_eq!(s.tower().health(), 980);
}

#[test]
fn nearest_threat_is_the_closest_on_the_guarded_side() {
    let mut s = open_level();
    s.reverse_roles(Vec2::new(300_000, 60_000));
    s.spawn(Bullet::new(Vec2::new(200_000, 50_000), Vec2::new(0, 0)));
    s.spawn(Bullet::new(Vec2::new(160_000, 70_000), Vec2::new(0, 0)));
    s.spawn(Bullet::new(Vec2::new(150_000, 10_000), Vec2::new(0, 0)));
    s.spawn(Bullet::new(Vec2::new(50_000, 60_000), Vec2::new(0, 0)));
    assert_eq!(s.nearest_threat(size()), Some(Vec2::new(162_000, 72_000)));
}

#[test]
fn no_threat_in_normal_mode_beyond_the_left_side() {
    let mut s = open_level();
    s.spawn(Bullet::new(Vec2::new(50_000, 60_000), Vec2::new(0, 0)));
    assert_eq!(s.nearest_threat(size()), None);
}

#[test]
fn enemy_bullets_enter_from_either_edge() {
    let s = open_level();
    let b = s.enemy_bullet(true, 40, 50, -3);
    assert_eq!(b.position(), Vec2::new(0, 40_000));
    assert_eq!(b.velocity(), Vec2::new(50_000, -3_000));
    let b = s.enemy_bullet(false, 40, 50, 3);
    assert_eq!(b.position(), Vec2::new(400_000, 40_000));
    assert_eq!(b.velocity(), Vec2::new(-50_000, 3_000));
}

#[test]
fn reversal_is_held_off_near_the_tower() {
    let s = open_level();
    let zone = s.tower_zone();
    assert_eq!((zone.x, zone.y, zone.width, zone.height), (105_000, 0, 40_000, 200_000));
    let near = personality::geometry::Rect::new(100_000, 150_000, 10_000, 16_000);
    let far = personality::geometry::Rect::new(10_000, 150_000, 10_000, 16_000);
    assert!(!s.can_reverse(&near));
    assert!(s.can_reverse(&far));
}

#[test]
fn out_of_range_bullet_is_refused() {
    let mut s = open_level();
    assert!(!s.spawn(Bullet::new(Vec2::new(i64::MAX, 0), Vec2::new(0, 0))));
    assert!(s.bullets.is_empty());
}

#[test]
fn scene_reports_its_size() {
    let s = open_level();
    assert_eq!(s.width(), 400);
    assert_eq!(s.height(), 200);
    assert_eq!(s.size(), Vec2::new(400_000, 200_000));
    assert!(!s.metadata(10, 10));
    assert_eq!(s.tower().position(), Vec2::new(115_000, 48_000));
}

#[test]
fn overlapping_bullets_destroy_each_other_while_shielded() {
    let mut s = open_level();
    s.reverse_roles(Vec2::new(300_000, 60_000));
    s.spawn(Bullet::new(Vec2::new(300_000, 10_000), Vec2::new(0, 0)));
    s.spawn(Bullet::new(Vec2::new(302_000, 10_000), Vec2::new(0, 0)));
    let mut over = false;
    s.update(16, size(), &mut over);
    assert!(s.bullets.is_empty());
    assert!(!s.tower().shield().unwrap().flashing());
    assert_eq!(s.tower().reversed_health(), Some(1000));
}
