//! The level: its solid mask, the tower, and the projectiles in flight.
use vstd::prelude::*;
use crate::geometry::{Rect, Vec2, overlap, SUB, MS, COORD_MAX, tdiv, div_trunc};
use crate::mask::{Color, SolidMask};
use crate::tower::{
    Tower, FRAME_MAX_MS, tower_box, shield_box_of, tower_hit, tower_shield_hit, tower_after,
    tower_flipped, ends_game,
};

verus! {

/// Widest or tallest level, in pixels.
pub const LEVEL_MAX: i64 = 1_000_000;

/// Where the tower stands in every level, in pixels.
pub const TOWER_X: i64 = 115;

pub const TOWER_Y: i64 = 48;

/// A projectile. Position in milli-pixels, velocity in milli-pixels per second.
#[derive(Clone, Copy, Debug, PartialEq, Eq, Structural)]
pub struct Bullet {
    pub position: Vec2,
    pub velocity: Vec2,
}

/// The projectile after `dt` milliseconds of flight.
pub open spec fn bullet_moved(b: Bullet, dt: int) -> Bullet {
    Bullet {
        position: Vec2 {
            x: (b.position.x + tdiv(b.velocity.x * dt, MS as int)) as i64,
            y: (b.position.y + tdiv(b.velocity.y * dt, MS as int)) as i64,
        },
        ..b
    }
}

/// The projectile's hit box, for a projectile image of `size`.
pub open spec fn bullet_box(b: Bullet, size: Vec2) -> Rect {
    Rect { x: b.position.x, y: b.position.y, width: size.x, height: size.y }
}

/// The middle of the projectile's image.
pub open spec fn bullet_center(b: Bullet, size: Vec2) -> Vec2 {
    Vec2 { x: (b.position.x + size.x / 2) as i64, y: (b.position.y + size.y / 2) as i64 }
}

pub open spec fn tower_zone(s: Scene) -> Rect {
    Rect {
        x: (s.tower.position.x - 10 * SUB) as i64,
        y: 0,
        width: (s.tower.size.x + 20 * SUB) as i64,
        height: (s.height * SUB) as i64,
    }
}

/// Sizes of a projectile image that the scene accepts.
pub open spec fn size_ok(size: Vec2) -> bool {
    0 <= size.x <= COORD_MAX && 0 <= size.y <= COORD_MAX
}

impl Bullet {
    pub open spec fn wf(&self) -> bool {
        self.position.bounded() && self.velocity.bounded()
    }

    pub fn new(position: Vec2, velocity: Vec2) -> (r: Bullet)
        ensures
            r == (Bullet { position, velocity }),
    {
        Bullet { position, velocity }
    }

    /// Advances the projectile by `dt` milliseconds of its velocity.
    pub fn update(&mut self, dt: i64)
        requires
            old(self).wf(),
            0 <= dt <= FRAME_MAX_MS,
        ensures
            *final(self) == bullet_moved(*old(self), dt as int),
            -2 * COORD_MAX <= final(self).position.x <= 2 * COORD_MAX,
            -2 * COORD_MAX <= final(self).position.y <= 2 * COORD_MAX,
    {
        proof {
            lemma_travel_bounded(self.velocity.x as int, dt as int);
            lemma_travel_bounded(self.velocity.y as int, dt as int);
        }
        self.position.x = self.position.x + div_trunc(self.velocity.x * dt, MS);
        self.position.y = self.position.y + div_trunc(self.velocity.y * dt, MS);
    }

    pub fn position(&self) -> (r: Vec2)
        ensures
            r == self.position,
    {
        self.position
    }

    /// Whether the projectile's position and velocity are within the
    /// coordinate bound.
    pub fn in_range(&self) -> (r: bool)
        ensures
            r == self.wf(),
    {
        -COORD_MAX <= self.position.x && self.position.x <= COORD_MAX && -COORD_MAX <= self.position.y
            && self.position.y <= COORD_MAX && -COORD_MAX <= self.velocity.x && self.velocity.x
            <= COORD_MAX && -COORD_MAX <= self.velocity.y && self.velocity.y <= COORD_MAX
    }

    pub fn velocity(&self) -> (r: Vec2)
        ensures
            r == self.velocity,
    {
        self.velocity
    }
}

pub proof fn lemma_travel_bounded(v: int, dt: int)
    requires
        -COORD_MAX <= v <= COORD_MAX,
        0 <= dt <= FRAME_MAX_MS,
    ensures
        -COORD_MAX * FRAME_MAX_MS <= v * dt <= COORD_MAX * FRAME_MAX_MS,
        -COORD_MAX <= tdiv(v * dt, MS as int) <= COORD_MAX,
{
    assert(-COORD_MAX * FRAME_MAX_MS <= v * dt <= COORD_MAX * FRAME_MAX_MS) by (nonlinear_arith)
        requires
            -COORD_MAX <= v <= COORD_MAX,
            0 <= dt <= FRAME_MAX_MS,
    ;
    let p = v * dt;
    if p >= 0 {
        vstd::arithmetic::div_mod::lemma_div_is_ordered(p, COORD_MAX * FRAME_MAX_MS, MS as int);
        vstd::arithmetic::div_mod::lemma_div_pos_is_pos(p, MS as int);
    } else {
        vstd::arithmetic::div_mod::lemma_div_is_ordered(-p, COORD_MAX * FRAME_MAX_MS, MS as int);
        vstd::arithmetic::div_mod::lemma_div_pos_is_pos(-p, MS as int);
    }
}

/// A projectile centered at `c` comes at the reversed tower from the side its
/// shield guards, within the tower's height.
pub open spec fn threatens(t: Tower, c: Vec2) -> bool {
    &&& if tower_flipped(t) {
        c.x < t.position.x
    } else {
        c.x > t.position.x + t.size.x
    }
    &&& t.position.y < c.y < t.position.y + t.size.y
}

/// Horizontal distance from the tower to a projectile centered at `c` on the
/// guarded side.
pub open spec fn threat_distance(t: Tower, c: Vec2) -> int {
    if tower_flipped(t) {
        t.position.x - c.x
    } else {
        c.x - (t.position.x + t.size.x)
    }
}

/// Index of the nearest threatening projectile among the first `n`; the
/// earliest one among equally near ones.
pub open spec fn nearest_in(t: Tower, bs: Seq<Bullet>, size: Vec2, n: int) -> Option<int>
    decreases n,
{
    if n <= 0 {
        None
    } else {
        let rest = nearest_in(t, bs, size, n - 1);
        let c = bullet_center(bs[n - 1], size);
        if !threatens(t, c) {
            rest
        } else {
            match rest {
                Some(j) => if threat_distance(t, c) < threat_distance(t, bullet_center(bs[j], size)) {
                    Some(n - 1)
                } else {
                    Some(j)
                },
                None => Some(n - 1),
            }
        }
    }
}

/// The center of the nearest threatening projectile, if there is one.
pub open spec fn nearest_threat(t: Tower, bs: Seq<Bullet>, size: Vec2) -> Option<Vec2> {
    match nearest_in(t, bs, size, bs.len() as int) {
        Some(j) => Some(bullet_center(bs[j], size)),
        None => None,
    }
}

/// The first index from `j` on whose projectile overlaps projectile `i`.
pub open spec fn partner_from(bs: Seq<Bullet>, i: int, j: int, size: Vec2) -> Option<int>
    decreases bs.len() - j,
{
    if j >= bs.len() || j < 0 {
        None
    } else if overlap(bullet_box(bs[i], size), bullet_box(bs[j], size)) {
        Some(j)
    } else {
        partner_from(bs, i, j + 1, size)
    }
}

proof fn lemma_partner_in_range(bs: Seq<Bullet>, i: int, j: int, size: Vec2)
    requires
        0 <= j,
    ensures
        partner_from(bs, i, j, size).is_some() ==> j <= partner_from(bs, i, j, size).unwrap()
            < bs.len(),
    decreases bs.len() - j,
{
    if j < bs.len() && !overlap(bullet_box(bs[i], size), bullet_box(bs[j], size)) {
        lemma_partner_in_range(bs, i, j + 1, size);
    }
}

/// The projectiles and the tower after projectile `i` moves by `dt` and meets
/// what it meets: it leaves `bounds`, hits the tower, hits the shield, or
/// destroys itself with the first later projectile it overlaps.
pub open spec fn visit(
    bs: Seq<Bullet>,
    t: Tower,
    i: int,
    dt: int,
    size: Vec2,
    bounds: Rect,
) -> (Seq<Bullet>, Tower) {
    let b = bullet_moved(bs[i], dt);
    let moved = bs.update(i, b);
    let r = bullet_box(b, size);
    if !overlap(bounds, r) {
        (moved.remove(i), t)
    } else if overlap(tower_box(t), r) {
        (moved.remove(i), tower_hit(t))
    } else if shield_box_of(t).is_some() && overlap(shield_box_of(t).unwrap(), r) {
        (moved.remove(i), tower_shield_hit(t))
    } else {
        match partner_from(moved, i, i + 1, size) {
            Some(j) => (moved.remove(j).remove(i), t),
            None => (moved, t),
        }
    }
}

proof fn lemma_nearest_in_range(t: Tower, bs: Seq<Bullet>, size: Vec2, n: int)
    ensures
        nearest_in(t, bs, size, n).is_some() ==> 0 <= nearest_in(t, bs, size, n).unwrap() < n,
    decreases n,
{
    if n > 0 {
        lemma_nearest_in_range(t, bs, size, n - 1);
    }
}

/// A box that overlaps the level has its corner well inside the coordinate bound.
proof fn lemma_inside_is_bounded(b: Bullet, size: Vec2, bounds: Rect)
    requires
        b.velocity.bounded(),
        size_ok(size),
        bounds.x == 0,
        bounds.y == 0,
        0 <= bounds.width <= COORD_MAX,
        0 <= bounds.height <= COORD_MAX,
        overlap(bounds, bullet_box(b, size)),
    ensures
        b.wf(),
{
}

/// Visiting projectile `i` keeps the unvisited ones as they were and leaves
/// every visited survivor inside the level.
proof fn lemma_visit_settles(bs: Seq<Bullet>, t: Tower, i: int, dt: int, size: Vec2, bounds: Rect)
    requires
        0 <= i < bs.len(),
        all_wf(bs, i + 1),
        settled_from(bs, i + 1, size, bounds),
        size_ok(size),
        0 <= dt <= FRAME_MAX_MS,
        bounds.x == 0,
        bounds.y == 0,
        0 <= bounds.width <= COORD_MAX,
        0 <= bounds.height <= COORD_MAX,
    ensures
        visit(bs, t, i, dt, size, bounds).0.len() >= i,
        all_wf(visit(bs, t, i, dt, size, bounds).0, i),
        settled_from(visit(bs, t, i, dt, size, bounds).0, i, size, bounds),
{
    let b = bullet_moved(bs[i], dt);
    let moved = bs.update(i, b);
    let r = bullet_box(b, size);
    let out = visit(bs, t, i, dt, size, bounds).0;
    assert(bs[i].wf());
    if out =~= moved.remove(i) {
        moved.remove_ensures(i);
        assert(all_wf(out, i));
        assert(settled_from(out, i, size, bounds)) by {
            assert forall|k: int| i <= k < out.len() implies #[trigger] out[k].wf() && overlap(
                bounds,
                bullet_box(out[k], size),
            ) by {
                assert(out[k] == moved[k + 1]);
                assert(moved[k + 1] == bs[k + 1]);
                assert(bs[k + 1].wf());
            }
        }
    } else {
        assert(overlap(bounds, r));
        match partner_from(moved, i, i + 1, size) {
            Some(j) => {
                lemma_partner_in_range(moved, i, i + 1, size);
                let m1 = moved.remove(j);
                moved.remove_ensures(j);
                m1.remove_ensures(i);
                assert(out == m1.remove(i));
                assert(all_wf(out, i));
                assert forall|k: int| i <= k < out.len() implies #[trigger] out[k].wf() && overlap(
                    bounds,
                    bullet_box(out[k], size),
                ) by {
                    assert(out[k] == m1[k + 1]);
                    if k + 1 < j {
                        assert(m1[k + 1] == bs[k + 1]);
                        assert(bs[k + 1].wf());
                    } else {
                        assert(m1[k + 1] == bs[k + 2]);
                        assert(bs[k + 2].wf());
                    }
                }
            },
            None => {
                assert(out == moved);
                lemma_inside_is_bounded(b, size, bounds);
                assert forall|k: int| i <= k < out.len() implies #[trigger] out[k].wf() && overlap(
                    bounds,
                    bullet_box(out[k], size),
                ) by {
                    if k == i {
                        assert(out[k] == b);
                    } else {
                        assert(out[k] == bs[k]);
                        assert(bs[k].wf());
                    }
                }
            },
        }
    }
}

/// Two projectiles that overlap after their move, inside the level and clear
/// of the tower and of its shield, destroy each other: both are gone after
/// the frame, and the tower is untouched.
pub proof fn lemma_overlapping_pair_destroyed(
    bs: Seq<Bullet>,
    t: Tower,
    dt: int,
    size: Vec2,
    bounds: Rect,
)
    requires
        bs.len() == 2,
        ({
            let b0 = bullet_box(bullet_moved(bs[0], dt), size);
            let b1 = bullet_box(bullet_moved(bs[1], dt), size);
            &&& overlap(b0, b1)
            &&& overlap(bounds, b0)
            &&& overlap(bounds, b1)
            &&& !overlap(tower_box(t), b0)
            &&& !overlap(tower_box(t), b1)
            &&& (shield_box_of(t).is_some() ==> !overlap(shield_box_of(t).unwrap(), b0) && !overlap(
                shield_box_of(t).unwrap(),
                b1,
            ))
        }),
    ensures
        sweep(bs, t, 2, dt, size, bounds).0.len() == 0,
        sweep(bs, t, 2, dt, size, bounds).1 == t,
{
    let m1 = bs.update(1, bullet_moved(bs[1], dt));
    assert(partner_from(m1, 1, 2, size) is None);
    let v1 = visit(bs, t, 1, dt, size, bounds);
    assert(v1.0 == m1);
    let m0 = m1.update(0, bullet_moved(m1[0], dt));
    assert(m0[0] == bullet_moved(bs[0], dt));
    assert(m0[1] == bullet_moved(bs[1], dt));
    assert(partner_from(m0, 0, 1, size) == Some(1int));
    let v0 = visit(m1, t, 0, dt, size, bounds);
    assert(v0.0 == m0.remove(1).remove(0));
    assert(v0.0.len() == 0);
    assert(sweep(v0.0, v0.1, 0, dt, size, bounds) == v0);
    assert(sweep(v1.0, v1.1, 1, dt, size, bounds) == v0);
}

/// Every projectile after its move.
pub open spec fn all_moved(bs: Seq<Bullet>, dt: int) -> Seq<Bullet> {
    Seq::new(bs.len(), |k: int| bullet_moved(bs[k], dt))
}

/// The moved projectile's box is inside the level and clear of the tower and
/// of its shield.
pub open spec fn flies_clear(b: Bullet, t: Tower, size: Vec2, bounds: Rect) -> bool {
    let r = bullet_box(b, size);
    &&& overlap(bounds, r)
    &&& !overlap(tower_box(t), r)
    &&& (shield_box_of(t).is_some() ==> !overlap(shield_box_of(t).unwrap(), r))
}

proof fn lemma_no_partner(q: Seq<Bullet>, i: int, j: int, size: Vec2)
    requires
        0 <= i < q.len(),
        0 <= j,
        forall|k: int| j <= k < q.len() ==> !overlap(bullet_box(q[i], size), #[trigger] bullet_box(q[k], size)),
    ensures
        partner_from(q, i, j, size) is None,
    decreases q.len() - j,
{
    if j < q.len() {
        lemma_no_partner(q, i, j + 1, size);
    }
}

proof fn lemma_first_partner(q: Seq<Bullet>, i: int, j: int, p: int, size: Vec2)
    requires
        0 <= i < q.len(),
        0 <= j <= p < q.len(),
        overlap(bullet_box(q[i], size), bullet_box(q[p], size)),
        forall|k: int| j <= k < p ==> !overlap(bullet_box(q[i], size), #[trigger] bullet_box(q[k], size)),
    ensures
        partner_from(q, i, j, size) == Some(p),
    decreases p - j,
{
    if j < p {
        lemma_first_partner(q, i, j + 1, p, size);
    }
}

/// Visiting, from `n - 1` down to `m`, projectiles that fly clear and overlap
/// nothing visited after them only moves them.
proof fn lemma_clear_run(
    bs: Seq<Bullet>,
    tail: Seq<Bullet>,
    t: Tower,
    n: int,
    m: int,
    dt: int,
    size: Vec2,
    bounds: Rect,
)
    requires
        0 <= m <= n <= bs.len(),
        forall|k: int| m <= k < n ==> flies_clear(#[trigger] all_moved(bs, dt)[k], t, size, bounds),
        forall|k: int, j: int|
            m <= k < n && 0 <= j < tail.len() ==> !overlap(
                bullet_box(#[trigger] all_moved(bs, dt)[k], size),
                bullet_box(#[trigger] tail[j], size),
            ),
        forall|k: int, j: int|
            m <= k < j < n ==> !overlap(
                bullet_box(#[trigger] all_moved(bs, dt)[k], size),
                bullet_box(#[trigger] all_moved(bs, dt)[j], size),
            ),
    ensures
        sweep(bs.subrange(0, n) + tail, t, n, dt, size, bounds) == sweep(
            bs.subrange(0, m) + (all_moved(bs, dt).subrange(m, n) + tail),
            t,
            m,
            dt,
            size,
            bounds,
        ),
    decreases n - m,
{
    let mv = all_moved(bs, dt);
    if n == m {
        assert(mv.subrange(m, n) + tail =~= tail);
    } else {
        let st = bs.subrange(0, n) + tail;
        let i = n - 1;
        let c = mv[i];
        assert(st[i] == bs[i]);
        let moved = st.update(i, c);
        assert forall|k: int| i + 1 <= k < moved.len() implies !overlap(
            bullet_box(moved[i], size),
            #[trigger] bullet_box(moved[k], size),
        ) by {
            assert(moved[k] == tail[k - n]);
        }
        lemma_no_partner(moved, i, i + 1, size);
        assert(visit(st, t, i, dt, size, bounds) == (moved, t));
        let tail2 = seq![c] + tail;
        assert(moved =~= bs.subrange(0, i) + tail2);
        assert forall|k: int, j: int| m <= k < i && 0 <= j < tail2.len() implies !overlap(
            bullet_box(#[trigger] mv[k], size),
            bullet_box(#[trigger] tail2[j], size),
        ) by {
            if j == 0 {
                assert(tail2[j] == mv[i]);
            } else {
                assert(tail2[j] == tail[j - 1]);
            }
        }
        lemma_clear_run(bs, tail2, t, i, m, dt, size, bounds);
        assert(mv.subrange(m, i) + tail2 =~= mv.subrange(m, n) + tail);
    }
}

/// Mutual destruction among any number of projectiles: when, after their
/// move, every projectile is inside the level and clear of the tower and its
/// shield, and the projectiles `a` and `b` are the only ones that overlap, the
/// frame removes exactly those two, keeps the others moved and in order, and
/// leaves the tower untouched.
pub proof fn lemma_pair_destroyed_among_others(
    bs: Seq<Bullet>,
    t: Tower,
    a: int,
    b: int,
    dt: int,
    size: Vec2,
    bounds: Rect,
)
    requires
        0 <= a < b < bs.len(),
        forall|k: int| 0 <= k < bs.len() ==> flies_clear(#[trigger] all_moved(bs, dt)[k], t, size, bounds),
        overlap(bullet_box(all_moved(bs, dt)[a], size), bullet_box(all_moved(bs, dt)[b], size)),
        forall|k: int, j: int|
            0 <= k < j < bs.len() && !(k == a && j == b) ==> !overlap(
                bullet_box(#[trigger] all_moved(bs, dt)[k], size),
                bullet_box(#[trigger] all_moved(bs, dt)[j], size),
            ),
    ensures
        sweep(bs, t, bs.len() as int, dt, size, bounds) == (all_moved(bs, dt).remove(b).remove(a), t),
{
    let n = bs.len() as int;
    let mv = all_moved(bs, dt);
    let empty = Seq::<Bullet>::empty();
    assert(bs.subrange(0, n) + empty =~= bs);
    lemma_clear_run(bs, empty, t, n, a + 1, dt, size, bounds);
    let tail = mv.subrange(a + 1, n) + empty;
    let st = bs.subrange(0, a + 1) + tail;
    assert(st[a] == bs[a]);
    let moved = st.update(a, mv[a]);
    assert(moved[b] == mv[b]);
    assert forall|k: int| a + 1 <= k < b implies !overlap(
        bullet_box(moved[a], size),
        #[trigger] bullet_box(moved[k], size),
    ) by {
        assert(moved[k] == mv[k]);
    }
    lemma_first_partner(moved, a, a + 1, b, size);
    let after = moved.remove(b).remove(a);
    assert(visit(st, t, a, dt, size, bounds) == (after, t));
    let tail2 = mv.subrange(a + 1, n).remove(b - a - 1);
    assert(after =~= bs.subrange(0, a) + tail2) by {
        moved.remove_ensures(b);
        moved.remove(b).remove_ensures(a);
        mv.subrange(a + 1, n).remove_ensures(b - a - 1);
    }
    assert forall|k: int, j: int| 0 <= k < a && 0 <= j < tail2.len() implies !overlap(
        bullet_box(#[trigger] mv[k], size),
        bullet_box(#[trigger] tail2[j], size),
    ) by {
        mv.subrange(a + 1, n).remove_ensures(b - a - 1);
        if j < b - a - 1 {
            assert(tail2[j] == mv[a + 1 + j]);
        } else {
            assert(tail2[j] == mv[a + 2 + j]);
        }
    }
    lemma_clear_run(bs, tail2, t, a, 0, dt, size, bounds);
    assert(bs.subrange(0, 0) + (mv.subrange(0, a) + tail2) =~= mv.remove(b).remove(a)) by {
        mv.remove_ensures(b);
        mv.remove(b).remove_ensures(a);
        mv.subrange(a + 1, n).remove_ensures(b - a - 1);
    }
}

/// Visits the first `n` projectiles, the last of them first.
pub open spec fn sweep(
    bs: Seq<Bullet>,
    t: Tower,
    n: int,
    dt: int,
    size: Vec2,
    bounds: Rect,
) -> (Seq<Bullet>, Tower)
    decreases n,
{
    if n <= 0 {
        (bs, t)
    } else {
        let next = visit(bs, t, n - 1, dt, size, bounds);
        sweep(next.0, next.1, n - 1, dt, size, bounds)
    }
}

/// The level: its size in pixels, its solid mask, the tower and the projectiles.
pub struct Scene {
    pub width: i64,
    pub height: i64,
    pub mask: SolidMask,
    pub tower: Tower,
    pub bullets: Vec<Bullet>,
}

/// The level's extent in milli-pixels.
pub open spec fn level_bounds(width: int, height: int) -> Rect {
    Rect { x: 0, y: 0, width: (width * SUB) as i64, height: (height * SUB) as i64 }
}

/// Every projectile from index `lo` on flew well inside the level.
pub open spec fn settled_from(bs: Seq<Bullet>, lo: int, size: Vec2, bounds: Rect) -> bool {
    forall|k: int| lo <= k < bs.len() ==> #[trigger] bs[k].wf() && overlap(bounds, bullet_box(bs[k], size))
}

pub open spec fn all_wf(bs: Seq<Bullet>, hi: int) -> bool {
    forall|k: int| 0 <= k < hi ==> #[trigger] bs[k].wf()
}

/// The first projectile after index `i` whose box overlaps that of projectile `i`.
fn first_partner(bullets: &Vec<Bullet>, i: usize, size: Vec2) -> (r: Option<usize>)
    requires
        i < bullets@.len(),
        size_ok(size),
        bullet_box(bullets@[i as int], size).fits(),
        forall|k: int| i < k < bullets@.len() ==> #[trigger] bullets@[k].wf(),
    ensures
        r.is_some() == partner_from(bullets@, i as int, i + 1, size).is_some(),
        r.is_some() ==> r.unwrap() == partner_from(bullets@, i as int, i + 1, size).unwrap(),
{
    let r = Rect { x: bullets[i].position.x, y: bullets[i].position.y, width: size.x, height: size.y };
    let n = bullets.len();
    let mut j = i + 1;
    while j < n
        invariant
            i < j <= bullets@.len(),
            n == bullets@.len(),
            size_ok(size),
            r == bullet_box(bullets@[i as int], size),
            r.fits(),
            forall|k: int| i < k < bullets@.len() ==> #[trigger] bullets@[k].wf(),
            partner_from(bullets@, i as int, i + 1, size) == partner_from(bullets@, i as int, j as int, size),
        decreases bullets@.len() - j,
    {
        assert(bullets@[j as int].wf());
        let other = Rect { x: bullets[j].position.x, y: bullets[j].position.y, width: size.x, height: size.y };
        if r.check_collision(&other) {
            return Some(j);
        }
        j = j + 1;
    }
    None
}

impl Scene {
    pub open spec fn wf(&self) -> bool {
        &&& self.mask.wf()
        &&& self.mask.spec_width() == self.width
        &&& self.mask.spec_height() == self.height
        &&& 0 < self.width <= LEVEL_MAX
        &&& 0 < self.height <= LEVEL_MAX
        &&& self.tower.wf()
        &&& all_wf(self.bullets@, self.bullets@.len() as int)
    }

    pub open spec fn bounds(&self) -> Rect {
        level_bounds(self.width as int, self.height as int)
    }

    /// A level of `width` by `height` pixels whose reference image is
    /// `pixels`, row by row, with no projectiles and a fresh tower at its
    /// fixed place. Tower and shield images are `tower_size` and
    /// `shield_size` large, in milli-pixels.
    pub fn new(width: usize, height: usize, pixels: &Vec<Color>, tower_size: Vec2, shield_size: Vec2) -> (r: Scene)
        requires
            pixels@.len() == width * height,
            0 < width <= LEVEL_MAX,
            0 < height <= LEVEL_MAX,
            0 <= tower_size.x <= LEVEL_MAX * SUB,
            0 <= tower_size.y <= LEVEL_MAX * SUB,
            0 <= shield_size.x <= LEVEL_MAX * SUB,
            0 <= shield_size.y <= LEVEL_MAX * SUB,
        ensures
            r.wf(),
            r.width == width,
            r.height == height,
            forall|px: int, py: int|
                0 <= px < width && 0 <= py < height ==> (#[trigger] r.mask.solid(px, py) == (
                pixels@[py * width + px] == crate::mask::black())),
            r.tower == (Tower {
                position: Vec2 { x: (TOWER_X * SUB) as i64, y: (TOWER_Y * SUB) as i64 },
                size: tower_size,
                shield_size,
                health: crate::tower::FULL_HEALTH,
                damaged: 0,
                state: crate::tower::TowerState::Normal,
            }),
            r.bullets@.len() == 0,
    {
        let mask = SolidMask::from_colors(width, height, pixels);
        let tower = Tower::new(Vec2 { x: TOWER_X * SUB, y: TOWER_Y * SUB }, tower_size, shield_size);
        Scene { width: width as i64, height: height as i64, mask, tower, bullets: Vec::new() }
    }

    /// Puts the tower in reversed mode, with the shield on the side of the
    /// player: the left one when the player's center is left of the tower's.
    pub fn reverse_roles(&mut self, player_center: Vec2)
        requires
            old(self).wf(),
        ensures
            final(self).wf(),
            final(self).tower == (Tower {
                state: crate::tower::TowerState::Reversed {
                    shield: crate::tower::fresh_shield(
                        old(self).tower,
                        player_center.x < old(self).tower.position.x + old(self).tower.size.x / 2,
                    ),
                    bad_health: crate::tower::FULL_HEALTH,
                    timer: crate::tower::COUNTDOWN_MS,
                },
                ..old(self).tower
            }),
            final(self).bullets@ == old(self).bullets@,
            final(self).width == old(self).width,
            final(self).height == old(self).height,
            final(self).mask == old(self).mask,
    {
        let flip = player_center.x < self.tower.position.x + self.tower.size.x / 2;
        self.tower.reverse_roles(flip);
    }

    /// Width in pixels.
    pub fn width(&self) -> (r: i64)
        ensures
            r == self.width,
    {
        self.width
    }

    /// Height in pixels.
    pub fn height(&self) -> (r: i64)
        ensures
            r == self.height,
    {
        self.height
    }

    /// Width and height in milli-pixels.
    pub fn size(&self) -> (r: Vec2)
        requires
            self.wf(),
        ensures
            r == (Vec2 { x: (self.width * SUB) as i64, y: (self.height * SUB) as i64 }),
    {
        Vec2 { x: self.width * SUB, y: self.height * SUB }
    }

    /// The level's extent in milli-pixels.
    pub fn bounds_rect(&self) -> (r: Rect)
        requires
            self.wf(),
        ensures
            r == self.bounds(),
    {
        Rect { x: 0, y: 0, width: self.width * SUB, height: self.height * SUB }
    }

    /// Whether the level pixel at column `px`, row `py` is solid.
    pub fn metadata(&self, px: i64, py: i64) -> (r: bool)
        requires
            self.wf(),
        ensures
            r == self.mask.solid(px as int, py as int),
    {
        self.mask.is_solid(px, py)
    }

    pub fn tower(&self) -> (r: &Tower)
        ensures
            *r == self.tower,
    {
        &self.tower
    }

    /// Adds a projectile to the level, unless it is out of the coordinate
    /// bound; says whether it was added.
    pub fn spawn(&mut self, b: Bullet) -> (added: bool)
        requires
            old(self).wf(),
        ensures
            final(self).wf(),
            added == b.wf(),
            final(self).bullets@ == (if added { old(self).bullets@.push(b) } else { old(self).bullets@ }),
            final(self).tower == old(self).tower,
            final(self).width == old(self).width,
            final(self).height == old(self).height,
            final(self).mask == old(self).mask,
    {
        if b.in_range() {
            self.bullets.push(b);
            assert forall|k: int| 0 <= k < self.bullets@.len() implies #[trigger] self.bullets@[k].wf() by {
                if k < old(self).bullets@.len() {
                    assert(self.bullets@[k] == old(self).bullets@[k]);
                }
            }
            true
        } else {
            false
        }
    }

    /// An enemy projectile entering at row `y` (pixels) from the left edge
    /// (`from_left`) or the right one, flying inward at `speed` pixels per
    /// second and drifting `drift` pixels per second downward.
    pub fn enemy_bullet(&self, from_left: bool, y: i64, speed: i64, drift: i64) -> (b: Bullet)
        requires
            self.wf(),
            0 <= y <= LEVEL_MAX,
            0 <= speed <= LEVEL_MAX,
            -LEVEL_MAX <= drift <= LEVEL_MAX,
        ensures
            b.wf(),
            b == (Bullet {
                position: Vec2 { x: if from_left { 0 } else { (self.width * SUB) as i64 }, y: (y * SUB) as i64 },
                velocity: Vec2 {
                    x: (if from_left { speed * SUB } else { -speed * SUB }) as i64,
                    y: (drift * SUB) as i64,
                },
            }),
    {
        let x = if from_left { 0 } else { self.width * SUB };
        let vx = if from_left { speed * SUB } else { -speed * SUB };
        Bullet { position: Vec2 { x, y: y * SUB }, velocity: Vec2 { x: vx, y: drift * SUB } }
    }

    /// The strip around the tower, 10 pixels wider on each side and as tall as
    /// the level, where the player's presence holds off reversed mode.
    pub fn tower_zone(&self) -> (r: Rect)
        requires
            self.wf(),
        ensures
            r == tower_zone(*self),
    {
        Rect {
            x: self.tower.position.x - 10 * SUB,
            y: 0,
            width: self.tower.size.x + 20 * SUB,
            height: self.height * SUB,
        }
    }

    /// Whether reversed mode may start now: the player's box stays out of the
    /// tower's zone.
    pub fn can_reverse(&self, player: &Rect) -> (r: bool)
        requires
            self.wf(),
            player.wf(),
        ensures
            r == !overlap(*player, tower_zone(*self)),
    {
        let zone = self.tower_zone();
        !player.check_collision(&zone)
    }

    /// The center of the nearest projectile that threatens the reversed tower
    /// from the side its shield guards.
    pub fn nearest_threat(&self, size: Vec2) -> (r: Option<Vec2>)
        requires
            self.wf(),
            size_ok(size),
        ensures
            r == nearest_threat(self.tower, self.bullets@, size),
    {
        let t = &self.tower;
        let flipped = t.flipped();
        let mut found = false;
        let mut best: usize = 0;
        let mut best_d: i64 = 0;
        let mut i: usize = 0;
        while i < self.bullets.len()
            invariant
                self.wf(),
                size_ok(size),
                t == &self.tower,
                flipped == tower_flipped(*t),
                i <= self.bullets@.len(),
                nearest_in(*t, self.bullets@, size, i as int) == (if found {
                    Some(best as int)
                } else {
                    None::<int>
                }),
                found ==> best < i,
                found ==> best_d == threat_distance(*t, bullet_center(self.bullets@[best as int], size)),
            decreases self.bullets@.len() - i,
        {
            let b = self.bullets[i];
            assert(self.bullets@[i as int].wf());
            let c = Vec2 { x: b.position.x + size.x / 2, y: b.position.y + size.y / 2 };
            let side = if flipped {
                c.x < t.position.x
            } else {
                c.x > t.position.x + t.size.x
            };
            if side && t.position.y < c.y && c.y < t.position.y + t.size.y {
                let d = if flipped {
                    t.position.x - c.x
                } else {
                    c.x - (t.position.x + t.size.x)
                };
                if !found || d < best_d {
                    found = true;
                    best = i;
                    best_d = d;
                }
            }
            i = i + 1;
        }
        if found {
            let b = self.bullets[best];
            assert(self.bullets@[best as int].wf());
            Some(Vec2 { x: b.position.x + size.x / 2, y: b.position.y + size.y / 2 })
        } else {
            None
        }
    }

    /// Moves projectile `i` and settles what it meets, as `visit` says.
    fn visit_bullet(&mut self, i: usize, dt: i64, size: Vec2)
        requires
            old(self).wf(),
            i < old(self).bullets@.len(),
            0 <= dt <= FRAME_MAX_MS,
            size_ok(size),
            settled_from(old(self).bullets@, i + 1, size, old(self).bounds()),
        ensures
            (final(self).bullets@, final(self).tower) == visit(
                old(self).bullets@,
                old(self).tower,
                i as int,
                dt as int,
                size,
                old(self).bounds(),
            ),
            final(self).tower.wf(),
            final(self).width == old(self).width,
            final(self).height == old(self).height,
            final(self).mask == old(self).mask,
    {
        let bounds = Rect { x: 0, y: 0, width: self.width * SUB, height: self.height * SUB };
        assert(self.bullets@[i as int].wf());
        self.bullets[i].update(dt);
        let b = self.bullets[i];
        let r = Rect { x: b.position.x, y: b.position.y, width: size.x, height: size.y };
        if !bounds.check_collision(&r) {
            self.bullets.remove(i);
        } else if self.tower.rect().check_collision(&r) {
            self.bullets.remove(i);
            self.tower.hit();
        } else {
            let shield = self.tower.shield_rect();
            if shield.is_some() && shield.unwrap().check_collision(&r) {
                self.bullets.remove(i);
                self.tower.hit_shield();
            } else {
                let partner = first_partner(&self.bullets, i, size);
                proof {
                    lemma_partner_in_range(self.bullets@, i as int, i + 1, size);
                }
                match partner {
                    Some(j) => {
                        self.bullets.remove(j);
                        self.bullets.remove(i);
                    },
                    None => {},
                }
            }
        }
    }

    /// Steps the level through `dt` milliseconds. First the tower is updated
    /// with the nearest threat (which sets `game_over` when the frame ends the
    /// game); then every projectile, from the last to the first, moves and is
    /// settled as `visit` says: it leaves the level, hits the tower, hits the
    /// shield, or destroys itself with the first later projectile it overlaps.
    /// Projectile boxes are `bullet_size` large.
    pub fn update(&mut self, dt: i64, bullet_size: Vec2, game_over: &mut bool)
        requires
            old(self).wf(),
            0 <= dt <= FRAME_MAX_MS,
            size_ok(bullet_size),
        ensures
            final(self).wf(),
            final(self).width == old(self).width,
            final(self).height == old(self).height,
            final(self).mask == old(self).mask,
            (final(self).bullets@, final(self).tower) == sweep(
                old(self).bullets@,
                tower_after(
                    old(self).tower,
                    dt as int,
                    nearest_threat(old(self).tower, old(self).bullets@, bullet_size),
                ),
                old(self).bullets@.len() as int,
                dt as int,
                bullet_size,
                old(self).bounds(),
            ),
            *final(game_over) == (*old(game_over) || ends_game(old(self).tower, dt as int)),
            forall|k: int|
                0 <= k < final(self).bullets@.len() ==> overlap(
                    old(self).bounds(),
                    #[trigger] bullet_box(final(self).bullets@[k], bullet_size),
                ),
    {
        let threat = self.nearest_threat(bullet_size);
        proof {
            lemma_nearest_in_range(self.tower, self.bullets@, bullet_size, self.bullets@.len() as int);
            if threat.is_some() {
                let j = nearest_in(self.tower, self.bullets@, bullet_size, self.bullets@.len() as int).unwrap();
                assert(self.bullets@[j].wf());
            }
        }
        self.tower.update(dt, threat, game_over);
        let ghost bs0 = self.bullets@;
        let ghost t1 = self.tower;
        let n = self.bullets.len();
        let mut i = n;
        while i > 0
            invariant
                self.wf(),
                0 <= dt <= FRAME_MAX_MS,
                size_ok(bullet_size),
                i <= self.bullets@.len(),
                self.width == old(self).width,
                self.height == old(self).height,
                self.mask == old(self).mask,
                settled_from(self.bullets@, i as int, bullet_size, self.bounds()),
                sweep(self.bullets@, self.tower, i as int, dt as int, bullet_size, self.bounds())
                    == sweep(bs0, t1, n as int, dt as int, bullet_size, self.bounds()),
            decreases i,
        {
            i = i - 1;
            proof {
                lemma_visit_settles(self.bullets@, self.tower, i as int, dt as int, bullet_size, self.bounds());
            }
            self.visit_bullet(i, dt, bullet_size);
        }
        assert forall|k: int| 0 <= k < self.bullets@.len() implies overlap(
            old(self).bounds(),
            #[trigger] bullet_box(self.bullets@[k], bullet_size),
        ) by {
            assert(self.bullets@[k].wf());
        }
    }
}

} // verus!