use personality::geometry::Vec2;
use personality::mask::Color;
use personality::player::{Player, PlayerInput};
use personality::scene::Scene;

const WHITE: Color = Color { r: 255, g: 255, b: 255, a: 255 };
const BLACK: Color = Color { r: 0, g: 0, b: 0, a: 255 };

/// 400 by 200 pixels: solid from row 150 down; a one-pixel step on row 149 and,
/// optionally, a wall, from column 50 on.
fn level(step: bool, wall: bool) -> Scene {
    let mut pixels = vec![WHITE; 400 * 200];
    for y in 0..200 {
        for x in 0..400 {
            if y >= 150 || (step && y == 149 && x >= 50) || (wall && x >= 50) {
                pixels[y * 400 + x] = BLACK;
            }
        }
    }
    Scene::new(400, 200, &pixels, Vec2::new(20_000, 40_000), Vec2::new(8_000, 16_000))
}

fn idle() -> PlayerInput {
    PlayerInput {
        dt: 16,
        axis: 0,
        jump_pressed: false,
        jump_released: false,
        fire: false,
        aim: Vec2::new(0, 0),
        nudge: 500,
    }
}

#[test]
fn landing_restores_both_jumps() {
    let scene = level(false, false);
    let mut p = Player::new(Vec2::new(20_000, 134_000), Vec2::new(10_000, 16_000));
    assert_eq!(p.jumps, 0);
    p.update(&idle(), &scene);
    assert_eq!(p.jumps, 2);
    assert_eq!(p.velocity.y, 0);
    assert_eq!(p.position(), Vec2::new(20_000, 133_602));
}

#[test]
fn falling_in_the_air_keeps_jumps() {
    let scene = level(false, false);
    let mut p = Player::new(Vec2::new(20_000, 100_000), Vec2::new(10_000, 16_000));
    p.update(&idle(), &scene);
    assert_eq!(p.jumps, 0);
    assert_eq!(p.velocity.y, 6_400);
    assert_eq!(p.position(), Vec2::new(20_000, 100_102));
}

#[test]
fn jump_uses_one_jump_and_rises() {
    let scene = level(false, false);
    let mut p = Player::new(Vec2::new(20_000, 134_000), Vec2::new(10_000, 16_000));
    p.update(&idle(), &scene);
    let ev = p.update(&PlayerInput { jump_pressed: true, ..idle() }, &scene);
    assert!(ev.jumped);
    assert_eq!(p.jumps, 1);
    assert_eq!(p.velocity.y, -200_000);
    assert_eq!(p.position().y, 133_602 - 3_200);
    let ev = p.update(&PlayerInput { jump_pressed: true, jump_released: true, ..idle() }, &scene);
    assert!(ev.jumped);
    assert_eq!(p.jumps, 0);
    assert_eq!(p.velocity.y, -100_000);
    let ev = p.update(&PlayerInput { jump_pressed: true, ..idle() }, &scene);
    assert!(!ev.jumped);
    assert_eq!(p.velocity.y, -100_000 + 6_400);
}

#[test]
fn horizontal_speed_eases_toward_the_input() {
    let scene = level(false, false);
    let mut p = Player::new(Vec2::new(20_000, 100_000), Vec2::new(10_000, 16_000));
    p.update(&PlayerInput { axis: 1, ..idle() }, &scene);
    assert_eq!(p.velocity.x, 16_000);
    assert_eq!(p.position().x, 20_256);
    p.update(&PlayerInput { axis: -1, dt: 500, ..idle() }, &scene);
    assert_eq!(p.velocity.x, -100_000);
}

#[test]
fn wall_stops_the_player() {
    let scene = level(false, true);
    let mut p = Player::new(Vec2::new(39_900, 100_000), Vec2::new(10_000, 16_000));
    p.update(&PlayerInput { axis: 1, ..idle() }, &scene);
    assert_eq!(p.velocity.x, 0);
    assert_eq!(p.position(), Vec2::new(39_656, 100_102));
}

#[test]
fn low_step_is_climbed() {
    let scene = level(true, false);
    let mut p = Player::new(Vec2::new(39_900, 134_000), Vec2::new(10_000, 16_000));
    p.update(&PlayerInput { axis: 1, ..idle() }, &scene);
    assert_eq!(p.velocity.x, 16_000);
    assert_eq!(p.position(), Vec2::new(40_156, 132_602));
    assert_eq!(p.jumps, 2);
}

#[test]
fn shot_flies_along_the_aim() {
    let scene = level(false, false);
    let mut p = Player::new(Vec2::new(20_000, 100_000), Vec2::new(10_000, 16_000));
    let aim = Vec2::new(26_000 + 30_000, 111_000 + 40_000);
    let ev = p.update(&PlayerInput { fire: true, aim, ..idle() }, &scene);
    let b = ev.shot.unwrap();
    assert_eq!(b.position(), Vec2::new(26_000, 111_000));
    assert_eq!(b.velocity(), Vec2::new(63_000, 84_000));
    assert_eq!(p.flip, 1);
}

#[test]
fn shot_at_the_gun_itself_stands_still() {
    let scene = level(false, false);
    let mut p = Player::new(Vec2::new(20_000, 100_000), Vec2::new(10_000, 16_000));
    let ev = p.update(&PlayerInput { fire: true, aim: Vec2::new(26_000, 111_000), ..idle() }, &scene);
    assert_eq!(ev.shot.unwrap().velocity(), Vec2::new(0, 0));
}

#[test]
fn player_faces_the_aim() {
    let scene = level(false, false);
    let mut p = Player::new(Vec2::new(20_000, 100_000), Vec2::new(10_000, 16_000));
    p.update(&PlayerInput { aim: Vec2::new(0, 0), ..idle() }, &scene);
    assert_eq!(p.flip, -1);
    assert!(p.ready());
}

#[test]
fn walking_advances_the_animation() {
    let scene = level(false, false);
    let mut p = Player::new(Vec2::new(20_000, 100_000), Vec2::new(10_000, 16_000));
    p.update(&PlayerInput { axis: 1, ..idle() }, &scene);
    assert_eq!(p.frame, 80);
    p.update(&idle(), &scene);
    assert_eq!(p.frame, 160);
}

#[test]
fn center_and_size() {
    let p = Player::new(Vec2::new(20_000, 100_000), Vec2::new(10_000, 16_000));
    assert_eq!(p.center(), Vec2::new(25_000, 108_000));
    assert_eq!(p.size(), Vec2::new(10_000, 16_000));
    assert_eq!(p.rect().y, 100_000);
}

#[test]
fn gravity_is_never_cut_off() {
    let scene = level(false, false);
    let mut p = Player::new(Vec2::new(20_000, -1_000_000_000), Vec2::new(10_000, 16_000));
    p.velocity.y = 99_000_000;
    assert!(p.ready());
    p.update(&PlayerInput { jump_pressed: true, ..idle() }, &scene);
    assert_eq!(p.jumps, 0);
    assert_eq!(p.velocity.y, 99_006_400);
    assert_eq!(p.position().y, -1_000_000_000 + 1_584_102);
    p.velocity.y = 99_600_001;
    assert!(!p.ready());
}
