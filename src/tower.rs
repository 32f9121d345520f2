//! The defended tower, its reversed mode, and the shield that guards it there.
use vstd::prelude::*;
use crate::geometry::{Rect, Vec2, SUB, COORD_MAX, abs, tdiv, div_trunc};

verus! {

/// Health of an undamaged tower, in thousandths.
pub const FULL_HEALTH: i64 = 1000;

/// Health lost per hit in normal mode.
pub const NORMAL_HIT: i64 = 10;

/// Reversed-mode health lost per hit.
pub const REVERSED_HIT: i64 = 100;

/// How long a hit keeps the damage flash on, in milliseconds.
pub const FLASH_MS: i64 = 100;

/// How long the tower survives in reversed mode, in milliseconds.
pub const COUNTDOWN_MS: i64 = 10_000;

/// The shield's easing time constant when its threat is level with it.
pub const EASE_MS: i64 = 700;

/// Floor of the shield's easing time constant.
pub const MIN_EASE_MS: i64 = 50;

/// Longest frame the simulation steps through at once, in milliseconds: the
/// bound that keeps the fixed-point products of speed and time inside `i64`.
/// Callers clamp longer frames to it.
pub const FRAME_MAX_MS: i64 = 1000;

pub open spec fn sub_floor0(a: int, b: int) -> int {
    if a - b > 0 {
        a - b
    } else {
        0
    }
}

/// Tracks the height of the nearest threat on one side of the reversed tower.
#[derive(Clone, Copy, Debug)]
pub struct Shield {
    pub position: Vec2,
    pub target: i64,
    pub flip: bool,
    pub damaged: i64,
}

/// Positions of threats that the shield can follow.
pub open spec fn threat_ok(c: Vec2) -> bool {
    -2 * COORD_MAX <= c.x <= 2 * COORD_MAX && -2 * COORD_MAX <= c.y <= 2 * COORD_MAX
}

/// The easing time constant for a threat `dx` milli-pixels away horizontally.
pub open spec fn ease_time(dx: int) -> int {
    if EASE_MS - abs(dx) / 200 > MIN_EASE_MS {
        EASE_MS - abs(dx) / 200
    } else {
        MIN_EASE_MS as int
    }
}

/// The shield after `dt` milliseconds, given the threat's center if there is one.
pub open spec fn shield_after(s: Shield, dt: int, threat: Option<Vec2>, size: Vec2) -> Shield {
    let target = match threat {
        Some(b) => b.y - size.y / 2,
        None => s.target as int,
    };
    let ease = match threat {
        Some(b) => ease_time(s.position.x + size.x / 2 - b.x),
        None => EASE_MS as int,
    };
    let k = if dt < ease { dt } else { ease };
    Shield {
        position: Vec2 { y: (s.position.y + tdiv((target - s.position.y) * k, ease)) as i64, ..s.position },
        target: target as i64,
        damaged: sub_floor0(s.damaged as int, dt) as i64,
        ..s
    }
}

impl Shield {
    pub open spec fn wf(&self) -> bool {
        &&& -COORD_MAX <= self.position.x <= COORD_MAX
        &&& -4 * COORD_MAX <= self.position.y <= 4 * COORD_MAX
        &&& -4 * COORD_MAX <= self.target <= 4 * COORD_MAX
        &&& 0 <= self.damaged <= FLASH_MS
    }

    /// A shield at `position` that holds its height until it sees a threat.
    pub fn new(position: Vec2, flip: bool) -> (r: Shield)
        ensures
            r.position == position,
            r.target == position.y,
            r.flip == flip,
            r.damaged == 0,
    {
        Shield { position, target: position.y, flip, damaged: 0 }
    }

    /// Eases toward the height of `threat` (the center of the nearest threat),
    /// or toward the last target when there is none. The time constant shrinks
    /// as the threat comes closer, down to `MIN_EASE_MS`, and the shield never
    /// overshoots its target.
    pub fn update(&mut self, dt: i64, threat: Option<Vec2>, size: Vec2)
        requires
            old(self).wf(),
            0 <= dt <= FRAME_MAX_MS,
            size.bounded(),
            0 <= size.x,
            0 <= size.y,
            threat.is_some() ==> threat_ok(threat.unwrap()),
        ensures
            *final(self) == shield_after(*old(self), dt as int, threat, size),
            final(self).wf(),
    {
        self.damaged = if self.damaged > dt { self.damaged - dt } else { 0 };
        let mut ease: i64 = EASE_MS;
        if let Some(b) = threat {
            self.target = b.y - size.y / 2;
            let dx = self.position.x + size.x / 2 - b.x;
            let adx = if dx >= 0 { dx } else { -dx };
            let t = EASE_MS - adx / 200;
            ease = if t > MIN_EASE_MS { t } else { MIN_EASE_MS };
        }
        let k = if dt < ease { dt } else { ease };
        let gap = self.target - self.position.y;
        proof {
            assert(MIN_EASE_MS <= ease <= EASE_MS);
            assert(-8 * COORD_MAX * EASE_MS <= gap * k <= 8 * COORD_MAX * EASE_MS) by (nonlinear_arith)
                requires
                    -8 * COORD_MAX <= gap <= 8 * COORD_MAX,
                    0 <= k <= EASE_MS,
            ;
            lemma_eased_between(gap as int, k as int, ease as int);
        }
        self.position.y = self.position.y + div_trunc(gap * k, ease);
    }

    pub fn position(&self) -> (r: Vec2)
        ensures
            r == self.position,
    {
        self.position
    }

    /// The shield's hit box, for a shield image of `size`.
    pub fn rect(&self, size: Vec2) -> (r: Rect)
        ensures
            r == shield_box(*self, size),
    {
        Rect { x: self.position.x, y: self.position.y, width: size.x, height: size.y }
    }

    /// Whether the shield guards the tower's left side.
    pub fn flipped(&self) -> (r: bool)
        ensures
            r == self.flip,
    {
        self.flip
    }

    pub fn flashing(&self) -> (r: bool)
        ensures
            r == (self.damaged > 0),
    {
        self.damaged > 0
    }
}

/// The tower's mode. The shield, the reversed-mode health and the countdown
/// exist only while the tower is reversed.
#[derive(Clone, Copy, Debug)]
pub enum TowerState {
    Normal,
    Reversed { shield: Shield, bad_health: i64, timer: i64 },
}

/// The defended structure. Positions and sizes are in milli-pixels.
#[derive(Clone, Copy, Debug)]
pub struct Tower {
    pub position: Vec2,
    pub size: Vec2,
    pub shield_size: Vec2,
    pub health: i64,
    pub damaged: i64,
    pub state: TowerState,
}

/// The tower after one hit.
pub open spec fn tower_hit(t: Tower) -> Tower {
    match t.state {
        TowerState::Reversed { shield, bad_health, timer } => Tower {
            state: TowerState::Reversed {
                shield,
                bad_health: sub_floor0(bad_health as int, REVERSED_HIT as int) as i64,
                timer,
            },
            damaged: FLASH_MS,
            ..t
        },
        TowerState::Normal => Tower {
            health: sub_floor0(t.health as int, NORMAL_HIT as int) as i64,
            damaged: FLASH_MS,
            ..t
        },
    }
}

/// The tower after a hit on its shield.
pub open spec fn tower_shield_hit(t: Tower) -> Tower {
    match t.state {
        TowerState::Reversed { shield, bad_health, timer } => Tower {
            state: TowerState::Reversed { shield: Shield { damaged: FLASH_MS, ..shield }, bad_health, timer },
            ..t
        },
        TowerState::Normal => t,
    }
}

/// The tower after `dt` milliseconds, given the nearest threat.
pub open spec fn tower_after(t: Tower, dt: int, threat: Option<Vec2>) -> Tower {
    let damaged = sub_floor0(t.damaged as int, dt) as i64;
    match t.state {
        TowerState::Reversed { shield, bad_health, timer } => if bad_health <= 0 {
            Tower { damaged, state: TowerState::Normal, ..t }
        } else {
            Tower {
                damaged,
                state: TowerState::Reversed {
                    shield: shield_after(shield, dt, threat, t.shield_size),
                    bad_health,
                    timer: sub_floor0(timer as int, dt) as i64,
                },
                ..t
            }
        },
        TowerState::Normal => Tower { damaged, ..t },
    }
}

/// Whether the frame of `dt` milliseconds that starts at `t` ends the game: the
/// countdown runs out in reversed mode, or health is gone in normal mode.
pub open spec fn ends_game(t: Tower, dt: int) -> bool {
    match t.state {
        TowerState::Reversed { timer, .. } => timer - dt <= 0,
        TowerState::Normal => t.health <= 0,
    }
}

/// The shield that reversed mode starts with, on the side given by `flip`.
pub open spec fn fresh_shield(t: Tower, flip: bool) -> Shield {
    let x = if flip {
        t.position.x - 10 * SUB
    } else {
        t.position.x + t.size.x + 3 * SUB
    };
    let y = t.position.y + tdiv(t.size.y - t.shield_size.y, 2);
    Shield { position: Vec2 { x: x as i64, y: y as i64 }, target: y as i64, flip, damaged: 0 }
}

impl Tower {
    pub open spec fn wf(&self) -> bool {
        &&& self.position.bounded()
        &&& 0 <= self.size.x <= COORD_MAX
        &&& 0 <= self.size.y <= COORD_MAX
        &&& 0 <= self.shield_size.x <= COORD_MAX
        &&& 0 <= self.shield_size.y <= COORD_MAX
        &&& -COORD_MAX <= self.position.x - 10 * SUB
        &&& self.position.x + self.size.x + 3 * SUB <= COORD_MAX
        &&& 0 <= self.health <= FULL_HEALTH
        &&& 0 <= self.damaged <= FLASH_MS
        &&& match self.state {
            TowerState::Reversed { shield, bad_health, timer } => {
                &&& shield.wf()
                &&& 0 <= bad_health <= FULL_HEALTH
                &&& 0 <= timer <= COUNTDOWN_MS
            },
            TowerState::Normal => true,
        }
    }

    /// An undamaged tower in normal mode at `position`, drawn `size` large, whose
    /// shield would be `shield_size` large.
    pub fn new(position: Vec2, size: Vec2, shield_size: Vec2) -> (r: Tower)
        requires
            position.bounded(),
            0 <= size.x <= COORD_MAX,
            0 <= size.y <= COORD_MAX,
            0 <= shield_size.x <= COORD_MAX,
            0 <= shield_size.y <= COORD_MAX,
            -COORD_MAX <= position.x - 10 * SUB,
            position.x + size.x + 3 * SUB <= COORD_MAX,
        ensures
            r.wf(),
            r == (Tower { position, size, shield_size, health: FULL_HEALTH, damaged: 0, state: TowerState::Normal }),
    {
        Tower { position, size, shield_size, health: FULL_HEALTH, damaged: 0, state: TowerState::Normal }
    }

    /// Steps the tower through `dt` milliseconds. `threat` is the center of the
    /// nearest projectile that the shield should intercept. Sets `game_over`
    /// when the frame ends the game, and leaves it alone otherwise.
    pub fn update(&mut self, dt: i64, threat: Option<Vec2>, game_over: &mut bool)
        requires
            old(self).wf(),
            0 <= dt <= FRAME_MAX_MS,
            threat.is_some() ==> threat_ok(threat.unwrap()),
        ensures
            final(self).wf(),
            *final(self) == tower_after(*old(self), dt as int, threat),
            *final(game_over) == (*old(game_over) || ends_game(*old(self), dt as int)),
    {
        self.damaged = if self.damaged > dt { self.damaged - dt } else { 0 };
        let shield_size = self.shield_size;
        let mut back_to_normal = false;
        match &mut self.state {
            TowerState::Reversed { shield, bad_health, timer } => {
                if *timer - dt <= 0 {
                    *game_over = true;
                }
                *timer = if *timer > dt { *timer - dt } else { 0 };
                shield.update(dt, threat, shield_size);
                if *bad_health <= 0 {
                    back_to_normal = true;
                }
            },
            TowerState::Normal => {
                if self.health <= 0 {
                    *game_over = true;
                }
            },
        }
        if back_to_normal {
            self.state = TowerState::Normal;
        }
    }

    /// Enters reversed mode: a fresh shield flush against the tower's left side
    /// (`flip`) or right side, full reversed-mode health and a full countdown.
    pub fn reverse_roles(&mut self, flip: bool)
        requires
            old(self).wf(),
        ensures
            final(self).wf(),
            *final(self) == (Tower {
                state: TowerState::Reversed {
                    shield: fresh_shield(*old(self), flip),
                    bad_health: FULL_HEALTH,
                    timer: COUNTDOWN_MS,
                },
                ..*old(self)
            }),
    {
        let x = if flip {
            self.position.x - 10 * SUB
        } else {
            self.position.x + self.size.x + 3 * SUB
        };
        let y = self.position.y + div_trunc(self.size.y - self.shield_size.y, 2);
        self.state = TowerState::Reversed {
            shield: Shield::new(Vec2 { x, y }, flip),
            bad_health: FULL_HEALTH,
            timer: COUNTDOWN_MS,
        };
    }

    /// A hit on the tower: takes health from whichever value is damageable in
    /// the current mode (never below zero) and starts the damage flash.
    pub fn hit(&mut self)
        requires
            old(self).wf(),
        ensures
            final(self).wf(),
            *final(self) == tower_hit(*old(self)),
    {
        match &mut self.state {
            TowerState::Reversed { bad_health, .. } => {
                *bad_health = if *bad_health > REVERSED_HIT { *bad_health - REVERSED_HIT } else { 0 };
            },
            TowerState::Normal => {
                self.health = if self.health > NORMAL_HIT { self.health - NORMAL_HIT } else { 0 };
            },
        }
        self.damaged = FLASH_MS;
    }

    /// A hit on the shield: starts its damage flash; nothing happens in normal mode.
    pub fn hit_shield(&mut self)
        requires
            old(self).wf(),
        ensures
            final(self).wf(),
            *final(self) == tower_shield_hit(*old(self)),
    {
        match &mut self.state {
            TowerState::Reversed { shield, .. } => {
                shield.damaged = FLASH_MS;
            },
            TowerState::Normal => {},
        }
    }

    pub fn position(&self) -> (r: Vec2)
        ensures
            r == self.position,
    {
        self.position
    }

    pub fn size(&self) -> (r: Vec2)
        ensures
            r == self.size,
    {
        self.size
    }

    /// The tower's hit box.
    pub fn rect(&self) -> (r: Rect)
        ensures
            r == tower_box(*self),
    {
        Rect { x: self.position.x, y: self.position.y, width: self.size.x, height: self.size.y }
    }

    /// The shield's hit box, in reversed mode.
    pub fn shield_rect(&self) -> (r: Option<Rect>)
        ensures
            r == shield_box_of(*self),
    {
        match &self.state {
            TowerState::Reversed { shield, .. } => Some(shield.rect(self.shield_size)),
            TowerState::Normal => None,
        }
    }

    /// Whether the shield guards the left side; false in normal mode.
    pub fn flipped(&self) -> (r: bool)
        ensures
            r == tower_flipped(*self),
    {
        match &self.state {
            TowerState::Reversed { shield, .. } => shield.flipped(),
            TowerState::Normal => false,
        }
    }

    pub fn reversed(&self) -> (r: bool)
        ensures
            r == (self.state is Reversed),
    {
        match &self.state {
            TowerState::Reversed { .. } => true,
            TowerState::Normal => false,
        }
    }

    /// Normal-mode health, in thousandths.
    pub fn health(&self) -> (r: i64)
        ensures
            r == self.health,
    {
        self.health
    }

    /// Reversed-mode health, in thousandths; `None` in normal mode.
    pub fn reversed_health(&self) -> (r: Option<i64>)
        ensures
            r == (match self.state {
                TowerState::Reversed { bad_health, .. } => Some(bad_health),
                TowerState::Normal => None,
            }),
    {
        match &self.state {
            TowerState::Reversed { bad_health, .. } => Some(*bad_health),
            TowerState::Normal => None,
        }
    }

    /// Milliseconds left before reversed mode ends the game; `None` in normal mode.
    pub fn countdown(&self) -> (r: Option<i64>)
        ensures
            r == (match self.state {
                TowerState::Reversed { timer, .. } => Some(timer),
                TowerState::Normal => None,
            }),
    {
        match &self.state {
            TowerState::Reversed { timer, .. } => Some(*timer),
            TowerState::Normal => None,
        }
    }

    /// The shield, in reversed mode.
    pub fn shield(&self) -> (r: Option<Shield>)
        ensures
            r == (match self.state {
                TowerState::Reversed { shield, .. } => Some(shield),
                TowerState::Normal => None,
            }),
    {
        match &self.state {
            TowerState::Reversed { shield, .. } => Some(*shield),
            TowerState::Normal => None,
        }
    }

    /// Whether the damage flash is on.
    pub fn flashing(&self) -> (r: bool)
        ensures
            r == (self.damaged > 0),
    {
        self.damaged > 0
    }
}

/// Reversed-mode health, while the tower is reversed.
pub open spec fn reversed_health_of(t: Tower) -> Option<i64> {
    match t.state {
        TowerState::Reversed { bad_health, .. } => Some(bad_health),
        TowerState::Normal => None,
    }
}

/// A hit in normal mode takes exactly `NORMAL_HIT` from health and leaves
/// the tower in normal mode; a hit in reversed mode takes exactly
/// `REVERSED_HIT` from reversed-mode health and leaves normal health alone.
/// Exact when the damageable value has that much left; below that, it stops at
/// zero.
pub proof fn lemma_hit_takes_exact_damage(t: Tower)
    requires
        t.wf(),
        t.state is Normal ==> t.health >= NORMAL_HIT,
        t.state is Reversed ==> reversed_health_of(t).unwrap() >= REVERSED_HIT,
    ensures
        t.state is Normal ==> tower_hit(t).health == t.health - NORMAL_HIT && tower_hit(t).state is Normal,
        t.state is Reversed ==> tower_hit(t).health == t.health && reversed_health_of(tower_hit(t)).unwrap()
            == reversed_health_of(t).unwrap() - REVERSED_HIT,
{
}

/// The tower after `n` hits in a row.
pub open spec fn hit_times(t: Tower, n: nat) -> Tower
    decreases n,
{
    if n == 0 {
        t
    } else {
        tower_hit(hit_times(t, (n - 1) as nat))
    }
}

/// No run of hits drives either health below zero.
pub proof fn lemma_hits_keep_health_nonnegative(t: Tower, n: nat)
    requires
        t.wf(),
    ensures
        hit_times(t, n).wf(),
        hit_times(t, n).health >= 0,
        reversed_health_of(hit_times(t, n)).is_some() ==> reversed_health_of(hit_times(t, n)).unwrap()
            >= 0,
    decreases n,
{
    if n > 0 {
        lemma_hits_keep_health_nonnegative(t, (n - 1) as nat);
    }
}

/// In normal mode, once health is gone, the next frame ends the game,
/// whatever its length.
pub proof fn lemma_spent_health_ends_game(t: Tower, dt: int)
    requires
        t.state is Normal,
        t.health <= 0,
    ensures
        ends_game(t, dt),
{
}

proof fn lemma_normal_hits(t: Tower, n: nat)
    requires
        t.wf(),
        t.state is Normal,
        t.health == FULL_HEALTH,
        n <= 100,
    ensures
        hit_times(t, n).state is Normal,
        hit_times(t, n).health == FULL_HEALTH - NORMAL_HIT * n,
    decreases n,
{
    if n > 0 {
        lemma_normal_hits(t, (n - 1) as nat);
    }
}

/// A full-health tower in normal mode is spent by a hundred hits, and the
/// next frame, of any length, ends the game.
pub proof fn lemma_hundred_hits_end_game(t: Tower, dt: int)
    requires
        t.wf(),
        t.state is Normal,
        t.health == FULL_HEALTH,
    ensures
        hit_times(t, 100).health == 0,
        ends_game(hit_times(t, 100), dt),
{
    lemma_normal_hits(t, 100);
}

/// Sum of frame lengths.
pub open spec fn total(dts: Seq<int>) -> int
    decreases dts.len(),
{
    if dts.len() == 0 {
        0
    } else {
        total(dts.drop_last()) + dts.last()
    }
}

/// The tower after frames of the given lengths, with no threat in sight.
pub open spec fn run(t: Tower, dts: Seq<int>) -> Tower
    decreases dts.len(),
{
    if dts.len() == 0 {
        t
    } else {
        tower_after(run(t, dts.drop_last()), dts.last(), None)
    }
}

proof fn lemma_run_counts_down(t: Tower, dts: Seq<int>)
    requires
        t.state is Reversed,
        t.state->bad_health > 0,
        forall|k: int| 0 <= k < dts.len() ==> dts[k] >= 0,
        total(dts) <= t.state->timer,
    ensures
        run(t, dts).state is Reversed,
        run(t, dts).state->bad_health == t.state->bad_health,
        run(t, dts).state->timer == t.state->timer - total(dts),
        total(dts) >= 0,
    decreases dts.len(),
{
    if dts.len() > 0 {
        let init = dts.drop_last();
        assert forall|k: int| 0 <= k < init.len() implies init[k] >= 0 by {
            assert(init[k] == dts[k]);
        }
        assert(dts.last() == dts[dts.len() - 1]);
        lemma_run_counts_down(t, init);
    }
}

/// Reversed mode with nothing hitting the tower ends the game exactly on the
/// frame that spends the countdown: after frames adding up to the countdown,
/// the last one ends the game, and reversed-mode health is still whole.
pub proof fn lemma_countdown_ends_game(t: Tower, dts: Seq<int>)
    requires
        t.state is Reversed,
        t.state->bad_health > 0,
        dts.len() > 0,
        forall|k: int| 0 <= k < dts.len() ==> dts[k] >= 0,
        total(dts) == t.state->timer,
    ensures
        ends_game(run(t, dts.drop_last()), dts.last()),
        run(t, dts).state is Reversed,
        run(t, dts).state->bad_health == t.state->bad_health,
{
    let init = dts.drop_last();
    assert forall|k: int| 0 <= k < init.len() implies init[k] >= 0 by {
        assert(init[k] == dts[k]);
    }
    assert(dts.last() == dts[dts.len() - 1]);
    lemma_run_counts_down(t, init);
    lemma_run_counts_down(t, dts);
}

pub open spec fn tower_box(t: Tower) -> Rect {
    Rect { x: t.position.x, y: t.position.y, width: t.size.x, height: t.size.y }
}

pub open spec fn shield_box_of(t: Tower) -> Option<Rect> {
    match t.state {
        TowerState::Reversed { shield, .. } => Some(shield_box(shield, t.shield_size)),
        TowerState::Normal => None,
    }
}

pub open spec fn tower_flipped(t: Tower) -> bool {
    match t.state {
        TowerState::Reversed { shield, .. } => shield.flip,
        TowerState::Normal => false,
    }
}

pub open spec fn shield_box(s: Shield, size: Vec2) -> Rect {
    Rect { x: s.position.x, y: s.position.y, width: size.x, height: size.y }
}

/// A fraction `k / ease` of a gap moves at most the whole gap, toward it.
proof fn lemma_eased_between(gap: int, k: int, ease: int)
    requires
        0 <= k <= ease,
        ease > 0,
    ensures
        gap >= 0 ==> 0 <= tdiv(gap * k, ease) <= gap,
        gap < 0 ==> gap <= tdiv(gap * k, ease) <= 0,
{
    if gap >= 0 {
        assert(0 <= gap * k <= gap * ease) by (nonlinear_arith)
            requires
                0 <= k <= ease,
                gap >= 0,
        ;
        vstd::arithmetic::div_mod::lemma_div_is_ordered(gap * k, gap * ease, ease);
        vstd::arithmetic::div_mod::lemma_div_by_multiple(gap, ease);
        vstd::arithmetic::div_mod::lemma_div_pos_is_pos(gap * k, ease);
    } else {
        let g = -gap;
        assert(0 <= g * k <= g * ease) by (nonlinear_arith)
            requires
                0 <= k <= ease,
                g >= 0,
        ;
        assert(gap * k == -(g * k)) by (nonlinear_arith)
            requires
                g == -gap,
        ;
        vstd::arithmetic::div_mod::lemma_div_is_ordered(g * k, g * ease, ease);
        vstd::arithmetic::div_mod::lemma_div_by_multiple(g, ease);
        vstd::arithmetic::div_mod::lemma_div_pos_is_pos(g * k, ease);
    }
}

} // verus!
