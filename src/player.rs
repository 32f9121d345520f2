//! The player character: steering, jumping, shooting, and moving through the
//! level one axis at a time.
use vstd::prelude::*;
use crate::collision::{Direction, blocked, separation, shifted, end_pixel, collides, resolve};
use crate::geometry::{Rect, Vec2, SUB, MS, COORD_MAX, abs, tdiv, is_isqrt, div_trunc, div_ceil, isqrt};
use crate::scene::{Bullet, Scene, LEVEL_MAX};
use crate::tower::{FRAME_MAX_MS, shield_box_of};

verus! {

/// Top horizontal speed, in milli-pixels per second.
pub const SPEED: i64 = 100_000;

/// Time constant of the horizontal smoothing, in milliseconds.
pub const RATE_MS: i64 = 100;

/// Gained vertical speed per millisecond of fall, in milli-pixels per second.
pub const GRAVITY: i64 = 400;

/// Vertical velocity of a jump.
pub const JUMP_SPEED: i64 = -200_000;

/// Bound on the vertical speed that the integer arithmetic is sized for.
/// Gravity is never cut off: a player is stepped only while one more frame of
/// gravity keeps it under this bound (see `Player::roomy`), which takes
/// minutes of free fall to reach.
pub const FALL_MAX: i64 = 100_000_000;

/// Jumps available after landing.
pub const MAX_JUMPS: u8 = 2;

/// Projectile speed beyond half the aiming distance, in milli-pixels per second.
pub const SHOT_BOOST: i64 = 80_000;

/// Horizontal speed under which the walking animation stands still.
pub const WALK_MIN: i64 = 500;

/// Length of the walking animation, in thousandths of a frame.
pub const WALK_CYCLE: i64 = 2000;

/// What the player is told to do during one frame.
#[derive(Clone, Copy, Debug)]
pub struct PlayerInput {
    /// Length of the frame, in milliseconds.
    pub dt: i64,
    /// -1 to walk left, 1 to walk right, 0 to stand.
    pub axis: i64,
    pub jump_pressed: bool,
    pub jump_released: bool,
    pub fire: bool,
    /// The point aimed at, in level milli-pixels.
    pub aim: Vec2,
    /// Length of one nudge of the collision search, in milli-pixels.
    pub nudge: i64,
}

impl PlayerInput {
    pub open spec fn wf(&self) -> bool {
        &&& 0 <= self.dt <= FRAME_MAX_MS
        &&& -1 <= self.axis <= 1
        &&& self.aim.bounded()
        &&& 0 < self.nudge <= COORD_MAX
    }
}

/// What came of one frame of the player.
#[derive(Clone, Copy, Debug)]
pub struct PlayerEvents {
    /// The projectile fired this frame.
    pub shot: Option<Bullet>,
    pub jumped: bool,
}

#[derive(Clone, Copy, Debug)]
pub struct Player {
    pub rect: Rect,
    pub velocity: Vec2,
    pub jumps: u8,
    /// Animation phase, in thousandths of a frame.
    pub frame: i64,
    /// 1 when facing right, -1 when facing left.
    pub flip: i64,
}

/// The shield seen as a wall that spans the level's whole height.
pub open spec fn wall_of(s: &Scene) -> Option<Rect> {
    match shield_box_of(s.tower) {
        Some(r) => Some(Rect { y: 0, height: (s.height * SUB) as i64, ..r }),
        None => None,
    }
}

pub open spec fn hits(s: &Scene, r: Rect) -> bool {
    blocked(&s.mask, wall_of(s), r)
}

pub open spec fn push(s: &Scene, r: Rect, d: Direction, nudge: int) -> Option<int> {
    separation(&s.mask, wall_of(s), s.bounds(), r, d, nudge)
}

/// Where the box ends after a push that keeps its result.
pub open spec fn pushed(r: Rect, d: Direction, k: Option<int>) -> Rect {
    match k {
        Some(k) => shifted(r, d, k),
        None => r,
    }
}

/// Where a shot leaves the gun.
pub open spec fn gun_of(p: Player) -> Vec2 {
    Vec2 {
        x: (p.rect.x + if p.flip < 0 { 4 * SUB } else { 6 * SUB }) as i64,
        y: (p.rect.y + 11 * SUB) as i64,
    }
}

/// One component of a shot's velocity: half the aiming distance plus
/// `SHOT_BOOST`, along the aim, for an aim of length `len`.
pub open spec fn shot_component(d: int, len: int) -> int {
    if len == 0 {
        0
    } else {
        tdiv(d, 2) + tdiv(d * SHOT_BOOST, len)
    }
}

pub open spec fn shot(p: Player, aim: Vec2, len: int) -> Bullet {
    let g = gun_of(p);
    Bullet {
        position: g,
        velocity: Vec2 {
            x: shot_component(aim.x - g.x, len) as i64,
            y: shot_component(aim.y - g.y, len) as i64,
        },
    }
}

pub open spec fn aim_length_sq(p: Player, aim: Vec2) -> int {
    let g = gun_of(p);
    (aim.x - g.x) * (aim.x - g.x) + (aim.y - g.y) * (aim.y - g.y)
}

/// Velocities and jumps after steering, gravity, the jump and the jump cut.
pub open spec fn steered(p: Player, i: PlayerInput) -> Player {
    let k = if i.dt < RATE_MS { i.dt as int } else { RATE_MS as int };
    let vx = p.velocity.x + tdiv((i.axis * SPEED - p.velocity.x) * k, RATE_MS as int);
    let vy0 = p.velocity.y + GRAVITY * i.dt;
    let jump = i.jump_pressed && p.jumps > 0;
    let vy1 = if jump { JUMP_SPEED as int } else { vy0 };
    let vy2 = if i.jump_released && vy1 < 0 { tdiv(vy1, 2) } else { vy1 };
    Player {
        velocity: Vec2 { x: vx as i64, y: vy2 as i64 },
        jumps: if jump { (p.jumps - 1) as u8 } else { p.jumps },
        ..p
    }
}

/// The horizontal move by `mx`: free, or a climb onto a step no higher than
/// the move's length in whole pixels, or a stop against a wall.
pub open spec fn after_horizontal(p: Player, s: &Scene, mx: int, nudge: int) -> Player {
    let r = Rect { x: (p.rect.x + mx) as i64, ..p.rect };
    if !hits(s, r) {
        Player { rect: r, ..p }
    } else {
        let probe = push(s, r, Direction::Up, nudge);
        if probe.is_some() && end_pixel(abs(mx)) * SUB >= probe.unwrap() {
            Player { rect: shifted(r, Direction::Up, probe.unwrap()), ..p }
        } else {
            let d = if mx >= 0 { Direction::Left } else { Direction::Right };
            Player {
                rect: pushed(r, d, push(s, r, d, nudge)),
                velocity: Vec2 { x: 0, ..p.velocity },
                ..p
            }
        }
    }
}

/// The vertical move by `my`: free, or stopped by what it hits, which is a
/// landing that restores every jump when the player was falling.
pub open spec fn after_vertical(p: Player, s: &Scene, my: int, nudge: int) -> Player {
    let r = Rect { y: (p.rect.y + my) as i64, ..p.rect };
    if !hits(s, r) {
        Player { rect: r, ..p }
    } else {
        let d = if my >= 0 { Direction::Up } else { Direction::Down };
        Player {
            rect: pushed(r, d, push(s, r, d, nudge)),
            velocity: Vec2 { y: 0, ..p.velocity },
            jumps: if p.velocity.y > 0 { MAX_JUMPS } else { p.jumps },
            ..p
        }
    }
}

/// Walking animation and facing.
pub open spec fn animated(p: Player, i: PlayerInput) -> Player {
    Player {
        frame: if abs(p.velocity.x as int) > WALK_MIN {
            ((p.frame + i.dt * 5) % (WALK_CYCLE as int)) as i64
        } else {
            p.frame
        },
        flip: if i.aim.x > p.rect.x { 1i64 } else { -1i64 },
        ..p
    }
}

/// The player after one frame.
pub open spec fn player_after(p: Player, s: &Scene, i: PlayerInput) -> Player {
    let q = steered(p, i);
    let mx = tdiv(q.velocity.x * i.dt, MS as int);
    let my = tdiv(q.velocity.y * i.dt, MS as int);
    animated(after_vertical(after_horizontal(q, s, mx, i.nudge as int), s, my, i.nudge as int), i)
}

impl Player {
    pub open spec fn wf(&self) -> bool {
        &&& self.rect.wf()
        &&& self.rect.width <= LEVEL_MAX * SUB
        &&& self.rect.height <= LEVEL_MAX * SUB
        &&& -SPEED <= self.velocity.x <= SPEED
        &&& -FALL_MAX <= self.velocity.y <= FALL_MAX
        &&& self.jumps <= MAX_JUMPS
        &&& 0 <= self.frame < WALK_CYCLE
        &&& (self.flip == 1 || self.flip == -1)
    }

    /// Far enough inside the coordinate and speed bounds for one more frame
    /// of motion and gravity.
    pub open spec fn roomy(&self) -> bool {
        &&& -COORD_MAX / 2 <= self.rect.x <= COORD_MAX / 2
        &&& -COORD_MAX / 2 <= self.rect.y <= COORD_MAX / 2
        &&& self.velocity.y <= FALL_MAX - GRAVITY * FRAME_MAX_MS
    }

    /// A player standing still at `pos`, `size` large, with no jump left
    /// until it first lands.
    pub fn new(pos: Vec2, size: Vec2) -> (r: Player)
        requires
            pos.bounded(),
            0 <= size.x <= LEVEL_MAX * SUB,
            0 <= size.y <= LEVEL_MAX * SUB,
        ensures
            r.wf(),
            r == (Player {
                rect: Rect { x: pos.x, y: pos.y, width: size.x, height: size.y },
                velocity: Vec2 { x: 0, y: 0 },
                jumps: 0,
                frame: 0,
                flip: 1,
            }),
    {
        Player {
            rect: Rect { x: pos.x, y: pos.y, width: size.x, height: size.y },
            velocity: Vec2 { x: 0, y: 0 },
            jumps: 0,
            frame: 0,
            flip: 1,
        }
    }

    /// Whether one more frame can be stepped: the state is valid and far
    /// enough inside the coordinate bound.
    pub fn ready(&self) -> (r: bool)
        ensures
            r == (self.wf() && self.roomy()),
    {
        let rc = self.rect;
        rc.width >= 0 && rc.width <= LEVEL_MAX * SUB && rc.height >= 0 && rc.height <= LEVEL_MAX * SUB
            && rc.x >= -COORD_MAX && rc.x <= COORD_MAX && rc.y >= -COORD_MAX && rc.y <= COORD_MAX
            && self.velocity.x >= -SPEED && self.velocity.x <= SPEED && self.velocity.y >= -FALL_MAX
            && self.velocity.y <= FALL_MAX && self.jumps <= MAX_JUMPS && self.frame >= 0
            && self.frame < WALK_CYCLE && (self.flip == 1 || self.flip == -1)
            && self.velocity.y <= FALL_MAX - GRAVITY * FRAME_MAX_MS && rc.x >= -COORD_MAX / 2
            && rc.x <= COORD_MAX / 2 && rc.y >= -COORD_MAX / 2 && rc.y <= COORD_MAX / 2
    }

    pub fn position(&self) -> (r: Vec2)
        ensures
            r == (Vec2 { x: self.rect.x, y: self.rect.y }),
    {
        Vec2 { x: self.rect.x, y: self.rect.y }
    }

    pub fn size(&self) -> (r: Vec2)
        ensures
            r == (Vec2 { x: self.rect.width, y: self.rect.height }),
    {
        Vec2 { x: self.rect.width, y: self.rect.height }
    }

    /// The middle of the player's box.
    pub fn center(&self) -> (r: Vec2)
        requires
            self.wf(),
        ensures
            r == (Vec2 {
                x: (self.rect.x + self.rect.width / 2) as i64,
                y: (self.rect.y + self.rect.height / 2) as i64,
            }),
    {
        Vec2 { x: self.rect.x + self.rect.width / 2, y: self.rect.y + self.rect.height / 2 }
    }

    pub fn rect(&self) -> (r: Rect)
        ensures
            r == self.rect,
    {
        self.rect
    }

    fn steer(&mut self, i: &PlayerInput) -> (jumped: bool)
        requires
            old(self).wf(),
            old(self).velocity.y <= FALL_MAX - GRAVITY * FRAME_MAX_MS,
            i.wf(),
        ensures
            *final(self) == steered(*old(self), *i),
            jumped == (i.jump_pressed && old(self).jumps > 0),
            final(self).wf(),
    {
        let k = if i.dt < RATE_MS { i.dt } else { RATE_MS };
        let gap = i.axis * SPEED - self.velocity.x;
        proof {
            lemma_smooth_between(gap as int, k as int);
        }
        self.velocity.x = self.velocity.x + div_trunc(gap * k, RATE_MS);
        self.velocity.y = self.velocity.y + GRAVITY * i.dt;
        let jumped = i.jump_pressed && self.jumps > 0;
        if jumped {
            self.velocity.y = JUMP_SPEED;
            self.jumps = self.jumps - 1;
        }
        if i.jump_released && self.velocity.y < 0 {
            self.velocity.y = div_trunc(self.velocity.y, 2);
        }
        jumped
    }

    fn animate(&mut self, i: &PlayerInput)
        requires
            0 <= old(self).frame < WALK_CYCLE,
            -SPEED <= old(self).velocity.x <= SPEED,
            i.wf(),
        ensures
            *final(self) == animated(*old(self), *i),
    {
        let vx = self.velocity.x;
        if (if vx >= 0 { vx } else { -vx }) > WALK_MIN {
            self.frame = (self.frame + i.dt * 5) % WALK_CYCLE;
        }
        self.flip = if i.aim.x > self.rect.x { 1 } else { -1 };
    }

    /// The projectile that a shot at `aim` fires.
    fn shoot(&self, aim: Vec2) -> (b: Bullet)
        requires
            self.wf(),
            aim.bounded(),
        ensures
            exists|len: int| is_isqrt(aim_length_sq(*self, aim), len) && b == shot(*self, aim, len),
    {
        let gx = self.rect.x + if self.flip < 0 { 4 * SUB } else { 6 * SUB };
        let gy = self.rect.y + 11 * SUB;
        let dx = aim.x - gx;
        let dy = aim.y - gy;
        let ux = (if dx >= 0 { dx } else { -dx }) as u128;
        let uy = (if dy >= 0 { dy } else { -dy }) as u128;
        proof {
            assert(ux * ux <= 0x4_0000_0000u128 * 0x4_0000_0000u128) by (nonlinear_arith)
                requires ux <= 0x4_0000_0000u128;
            assert(uy * uy <= 0x4_0000_0000u128 * 0x4_0000_0000u128) by (nonlinear_arith)
                requires uy <= 0x4_0000_0000u128;
            assert(ux * ux == dx * dx) by (nonlinear_arith)
                requires ux == abs(dx as int);
            assert(uy * uy == dy * dy) by (nonlinear_arith)
                requires uy == abs(dy as int);
        }
        let len = isqrt(ux * ux + uy * uy);
        let ghost glen = len as int;
        proof {
            lemma_component_bound(dx as int, dy as int, glen);
            lemma_component_bound(dy as int, dx as int, glen);
        }
        let vx: i64;
        let vy: i64;
        if len == 0 {
            vx = 0;
            vy = 0;
        } else {
            let l = len as i64;
            vx = div_trunc(dx, 2) + div_trunc(dx * SHOT_BOOST, l);
            vy = div_trunc(dy, 2) + div_trunc(dy * SHOT_BOOST, l);
        }
        let b = Bullet::new(Vec2 { x: gx, y: gy }, Vec2 { x: vx, y: vy });
        assert(is_isqrt(aim_length_sq(*self, aim), glen) && b == shot(*self, aim, glen));
        b
    }
}

/// The shield's wall, in reversed mode.
fn wall(s: &Scene) -> (w: Option<Rect>)
    requires
        s.wf(),
    ensures
        w == wall_of(s),
        w.is_some() ==> w.unwrap().fits(),
{
    match s.tower.shield_rect() {
        Some(r) => Some(Rect { y: 0, height: s.height * SUB, ..r }),
        None => None,
    }
}

impl Player {
    fn move_horizontal(&mut self, s: &Scene, mx: i64, nudge: i64)
        requires
            s.wf(),
            old(self).rect.wf(),
            old(self).rect.width <= LEVEL_MAX * SUB,
            old(self).rect.height <= LEVEL_MAX * SUB,
            -COORD_MAX / 2 <= old(self).rect.y <= COORD_MAX / 2,
            -COORD_MAX <= old(self).rect.x + mx <= COORD_MAX,
            0 < nudge <= COORD_MAX,
        ensures
            *final(self) == after_horizontal(*old(self), s, mx as int, nudge as int),
            final(self).rect.wf(),
            -COORD_MAX / 2 <= final(self).rect.y <= COORD_MAX / 2,
            -COORD_MAX / 2 - SPEED <= final(self).rect.x <= COORD_MAX / 2 + SPEED || final(self).rect.x
                == old(self).rect.x + mx,
    {
        let w = wall(s);
        let bounds = s.bounds_rect();
        self.rect.x = self.rect.x + mx;
        if collides(&s.mask, w, &self.rect) {
            let probe = resolve(&s.mask, w, &bounds, &mut self.rect, Direction::Up, nudge, true);
            let reach = div_ceil(if mx >= 0 { mx } else { -mx }, SUB);
            if probe.is_some() && reach * SUB >= probe.unwrap() {
                self.rect.y = self.rect.y - probe.unwrap();
            } else {
                self.velocity.x = 0;
                let d = if mx >= 0 { Direction::Left } else { Direction::Right };
                resolve(&s.mask, w, &bounds, &mut self.rect, d, nudge, false);
            }
        }
    }

    fn move_vertical(&mut self, s: &Scene, my: i64, nudge: i64)
        requires
            s.wf(),
            old(self).rect.wf(),
            old(self).rect.width <= LEVEL_MAX * SUB,
            old(self).rect.height <= LEVEL_MAX * SUB,
            -COORD_MAX <= old(self).rect.y + my <= COORD_MAX,
            0 < nudge <= COORD_MAX,
            old(self).jumps <= MAX_JUMPS,
        ensures
            *final(self) == after_vertical(*old(self), s, my as int, nudge as int),
            final(self).rect.wf(),
            final(self).jumps <= MAX_JUMPS,
    {
        let w = wall(s);
        let bounds = s.bounds_rect();
        self.rect.y = self.rect.y + my;
        if collides(&s.mask, w, &self.rect) {
            if self.velocity.y > 0 {
                self.jumps = MAX_JUMPS;
            }
            self.velocity.y = 0;
            let d = if my >= 0 { Direction::Up } else { Direction::Down };
            resolve(&s.mask, w, &bounds, &mut self.rect, d, nudge, false);
        }
    }

    /// Steps the player through one frame of `input` in `scene`, in order:
    /// fires a shot from the gun toward `input.aim` (before moving), steers
    /// (the horizontal velocity moves a fraction `dt / RATE_MS` of the way to
    /// the target speed, and reaches it on frames longer than `RATE_MS`
    /// instead of overshooting), applies gravity, the jump and the jump cut,
    /// then moves horizontally
    /// (climbing low steps, stopping at walls) and vertically (landing
    /// restores every jump), and finally animates and turns toward the aim.
    pub fn update(&mut self, input: &PlayerInput, scene: &Scene) -> (ev: PlayerEvents)
        requires
            old(self).wf(),
            old(self).roomy(),
            input.wf(),
            scene.wf(),
        ensures
            final(self).wf(),
            *final(self) == player_after(*old(self), scene, *input),
            ev.jumped == (input.jump_pressed && old(self).jumps > 0),
            ev.shot.is_some() == input.fire,
            input.fire ==> exists|len: int|
                is_isqrt(aim_length_sq(*old(self), input.aim), len) && ev.shot.unwrap() == shot(
                    *old(self),
                    input.aim,
                    len,
                ),
    {
        let shot = if input.fire {
            Some(self.shoot(input.aim))
        } else {
            None
        };
        let jumped = self.steer(input);
        proof {
            crate::scene::lemma_travel_bounded(self.velocity.x as int, input.dt as int);
            crate::scene::lemma_travel_bounded(self.velocity.y as int, input.dt as int);
        }
        let mx = div_trunc(self.velocity.x * input.dt, MS);
        let my = div_trunc(self.velocity.y * input.dt, MS);
        proof {
            lemma_motion_bounds(self.velocity.x as int, SPEED as int, input.dt as int);
            lemma_motion_bounds(self.velocity.y as int, FALL_MAX as int, input.dt as int);
        }
        self.move_horizontal(scene, mx, input.nudge);
        self.move_vertical(scene, my, input.nudge);
        self.animate(input);
        PlayerEvents { shot, jumped }
    }
}

/// A landing restores every jump: when the vertical move of a falling player
/// runs into something, the frame ends with `MAX_JUMPS` jumps, whatever the
/// count was before.
pub proof fn lemma_landing_restores_jumps(p: Player, s: &Scene, i: PlayerInput)
    requires
        ({
            let q = steered(p, i);
            let h = after_horizontal(q, s, tdiv(q.velocity.x * i.dt, MS as int), i.nudge as int);
            &&& q.velocity.y > 0
            &&& hits(s, Rect { y: (h.rect.y + tdiv(q.velocity.y * i.dt, MS as int)) as i64, ..h.rect })
        }),
    ensures
        player_after(p, s, i).jumps == MAX_JUMPS,
{
}

/// A frame's travel at speed `v`, no faster than `top`, is at most `top`.
proof fn lemma_motion_bounds(v: int, top: int, dt: int)
    requires
        -top <= v <= top,
        0 < top,
        0 <= dt <= FRAME_MAX_MS,
    ensures
        -top <= tdiv(v * dt, MS as int) <= top,
{
    let g = abs(v);
    assert(0 <= g * dt <= top * MS) by (nonlinear_arith)
        requires
            0 <= g <= top,
            0 <= dt <= MS,
    ;
    assert(v * dt == if v >= 0 { g * dt } else { -(g * dt) }) by (nonlinear_arith)
        requires
            g == abs(v),
    ;
    vstd::arithmetic::div_mod::lemma_div_is_ordered(g * dt, top * MS, MS as int);
    vstd::arithmetic::div_mod::lemma_div_by_multiple(top, MS as int);
    vstd::arithmetic::div_mod::lemma_div_pos_is_pos(g * dt, MS as int);
}

/// A fraction `k / RATE_MS` of a gap moves at most the whole gap, toward it.
proof fn lemma_smooth_between(gap: int, k: int)
    requires
        0 <= k <= RATE_MS,
        -2 * SPEED <= gap <= 2 * SPEED,
    ensures
        -2 * SPEED * RATE_MS <= gap * k <= 2 * SPEED * RATE_MS,
        gap >= 0 ==> 0 <= tdiv(gap * k, RATE_MS as int) <= gap,
        gap < 0 ==> gap <= tdiv(gap * k, RATE_MS as int) <= 0,
{
    assert(-2 * SPEED * RATE_MS <= gap * k <= 2 * SPEED * RATE_MS) by (nonlinear_arith)
        requires
            0 <= k <= RATE_MS,
            -2 * SPEED <= gap <= 2 * SPEED,
    ;
    let m = RATE_MS as int;
    let g = abs(gap);
    assert(0 <= g * k <= g * m) by (nonlinear_arith)
        requires
            0 <= k <= m,
            g >= 0,
    ;
    assert(gap * k == if gap >= 0 { g * k } else { -(g * k) }) by (nonlinear_arith)
        requires
            g == abs(gap),
    ;
    vstd::arithmetic::div_mod::lemma_div_is_ordered(g * k, g * m, m);
    vstd::arithmetic::div_mod::lemma_div_by_multiple(g, m);
    vstd::arithmetic::div_mod::lemma_div_pos_is_pos(g * k, m);
}

/// Along an aim of length `len`, each component of the shot stays within
/// half the component plus the boost, and its product with the boost fits.
proof fn lemma_component_bound(d: int, e: int, len: int)
    requires
        -0x4_0000_0000 <= d <= 0x4_0000_0000,
        -0x4_0000_0000 <= e <= 0x4_0000_0000,
        is_isqrt(d * d + e * e, len),
    ensures
        -0x4_0000_0000 * SHOT_BOOST <= d * SHOT_BOOST <= 0x4_0000_0000 * SHOT_BOOST,
        len > 0 ==> -SHOT_BOOST <= tdiv(d * SHOT_BOOST, len) <= SHOT_BOOST,
        len <= 0x8_0000_0000,
{
    assert(-0x4_0000_0000 * SHOT_BOOST <= d * SHOT_BOOST <= 0x4_0000_0000 * SHOT_BOOST)
        by (nonlinear_arith)
        requires
            -0x4_0000_0000 <= d <= 0x4_0000_0000,
    ;
    assert(len <= 0x8_0000_0000) by (nonlinear_arith)
        requires
            len * len <= d * d + e * e,
            -0x4_0000_0000 <= d <= 0x4_0000_0000,
            -0x4_0000_0000 <= e <= 0x4_0000_0000,
            len >= 0,
    ;
    if len > 0 {
        let g = abs(d);
        assert(e * e >= 0) by (nonlinear_arith);
        assert(g <= len) by (nonlinear_arith)
            requires
                d * d + e * e < (len + 1) * (len + 1),
                g == abs(d),
                len >= 0,
                e * e >= 0,
        ;
        assert(0 <= g * SHOT_BOOST <= len * SHOT_BOOST) by (nonlinear_arith)
            requires
                0 <= g <= len,
        ;
        assert(d * SHOT_BOOST == if d >= 0 { g * SHOT_BOOST } else { -(g * SHOT_BOOST) })
            by (nonlinear_arith)
            requires
                g == abs(d),
        ;
        vstd::arithmetic::div_mod::lemma_div_is_ordered(g * SHOT_BOOST, len * SHOT_BOOST, len);
        vstd::arithmetic::div_mod::lemma_div_by_multiple(SHOT_BOOST as int, len);
        vstd::arithmetic::div_mod::lemma_div_pos_is_pos(g * SHOT_BOOST, len);
    }
}

} // verus!