//! Pixel-accurate overlap of a moving box with the solid mask, and the
//! incremental search that pushes a box out of what it overlaps.
use vstd::prelude::*;
use crate::geometry::{Rect, overlap, SUB, COORD_MAX, FIT_MAX, div_floor, div_ceil, abs};
use crate::mask::SolidMask;

verus! {

/// The way a box is pushed while it is being separated from what it overlaps.
#[derive(Clone, Copy, Debug, PartialEq, Eq, Structural)]
pub enum Direction {
    Up,
    Down,
    Left,
    Right,
}

/// First pixel column or row that a coordinate touches.
pub open spec fn first_pixel(a: int) -> int {
    a / (SUB as int)
}

/// One past the last pixel column or row that an edge at `a` touches.
pub open spec fn end_pixel(a: int) -> int {
    -((-a) / (SUB as int))
}

/// Some solid pixel lies in the box's pixel footprint.
pub open spec fn footprint_solid(mask: &SolidMask, r: Rect) -> bool {
    exists|px: int, py: int|
        first_pixel(r.x as int) <= px < end_pixel(r.x + r.width) && first_pixel(r.y as int) <= py
            < end_pixel(r.y + r.height) && #[trigger] mask.solid(px, py)
}

/// The box hits the mask, or the optional wall.
pub open spec fn blocked(mask: &SolidMask, wall: Option<Rect>, r: Rect) -> bool {
    ||| (wall.is_some() && overlap(r, wall.unwrap()))
    ||| footprint_solid(mask, r)
}

/// The box moved `k` milli-pixels in direction `d`.
pub open spec fn shifted(r: Rect, d: Direction, k: int) -> Rect {
    match d {
        Direction::Up => Rect { y: (r.y - k) as i64, ..r },
        Direction::Down => Rect { y: (r.y + k) as i64, ..r },
        Direction::Left => Rect { x: (r.x - k) as i64, ..r },
        Direction::Right => Rect { x: (r.x + k) as i64, ..r },
    }
}

/// How far the box can still move in direction `d` before it leaves `bounds`.
pub open spec fn room(bounds: Rect, r: Rect, d: Direction) -> int {
    match d {
        Direction::Up => r.y + r.height - bounds.y,
        Direction::Down => bounds.y + bounds.height - r.y,
        Direction::Left => r.x + r.width - bounds.x,
        Direction::Right => bounds.x + bounds.width - r.x,
    }
}

/// The distance that the box must move in steps of `step` along `d` until it
/// is no longer blocked, or `None` if it leaves `bounds` entirely first.
pub open spec fn separation(
    mask: &SolidMask,
    wall: Option<Rect>,
    bounds: Rect,
    r: Rect,
    d: Direction,
    step: int,
) -> Option<int>
    decreases (if room(bounds, r, d) > 0 { room(bounds, r, d) } else { 0 }),
{
    if step <= 0 || step > COORD_MAX || !r.fits() || !overlap(r, bounds) {
        None
    } else if !blocked(mask, wall, r) {
        Some(0)
    } else {
        match separation(mask, wall, bounds, shifted(r, d, step), d, step) {
            Some(k) => Some(k + step),
            None => None,
        }
    }
}

/// A box entirely outside the bounds never resolves: the search reports an
/// unbounded distance, and `resolve` then puts the box back where it was,
/// with or without `undo`.
pub proof fn lemma_outside_never_resolves(
    mask: &SolidMask,
    wall: Option<Rect>,
    bounds: Rect,
    r: Rect,
    d: Direction,
    step: int,
)
    requires
        !overlap(r, bounds),
    ensures
        separation(mask, wall, bounds, r, d, step) is None,
{
}

/// Whether the box hits a solid pixel of `mask` or overlaps `wall`.
pub fn collides(mask: &SolidMask, wall: Option<Rect>, r: &Rect) -> (b: bool)
    requires
        mask.wf(),
        r.fits(),
        wall.is_some() ==> wall.unwrap().fits(),
    ensures
        b == blocked(mask, wall, *r),
{
    if let Some(w) = wall {
        if r.check_collision(&w) {
            return true;
        }
    }
    let x0 = div_floor(r.x, SUB);
    let x1 = div_ceil(r.x + r.width, SUB);
    let y0 = div_floor(r.y, SUB);
    let y1 = div_ceil(r.y + r.height, SUB);
    let mw = mask.width();
    let mh = mask.height();
    let px_lo = if x0 < 0 { 0 } else { x0 };
    let px_hi = if x1 > mw { mw } else { x1 };
    let py_lo = if y0 < 0 { 0 } else { y0 };
    let py_hi = if y1 > mh { mh } else { y1 };
    let mut px = px_lo;
    proof {
        assert forall|qx: int, qy: int| x0 <= qx < px && y0 <= qy < y1 implies !#[trigger] mask.solid(
            qx,
            qy,
        ) by {
            mask.lemma_off_grid(qx, qy);
        }
    }
    while px < px_hi
        invariant
            mask.wf(),
            mw == mask.spec_width(),
            mh == mask.spec_height(),
            x0 == first_pixel(r.x as int),
            x1 == end_pixel(r.x + r.width),
            y0 == first_pixel(r.y as int),
            y1 == end_pixel(r.y + r.height),
            px_lo == (if x0 < 0 { 0 } else { x0 }),
            py_lo == (if y0 < 0 { 0 } else { y0 }),
            py_hi == (if y1 > mh { mh } else { y1 }),
            px_hi == (if x1 > mw { mw } else { x1 }),
            px_lo <= px,
            px <= px_hi || px == px_lo,
            forall|qx: int, qy: int|
                x0 <= qx < px && y0 <= qy < y1 ==> !#[trigger] mask.solid(qx, qy),
        decreases px_hi - px,
    {
        let mut py = py_lo;
        proof {
            assert forall|qy: int| y0 <= qy < py implies !#[trigger] mask.solid(px as int, qy) by {
                mask.lemma_off_grid(px as int, qy);
            }
        }
        while py < py_hi
            invariant
                mask.wf(),
                mw == mask.spec_width(),
                mh == mask.spec_height(),
                0 <= px < px_hi,
                x0 <= px < x1,
                x0 == first_pixel(r.x as int),
                x1 == end_pixel(r.x + r.width),
                y0 == first_pixel(r.y as int),
                y1 == end_pixel(r.y + r.height),
                py_lo == (if y0 < 0 { 0 } else { y0 }),
                py_hi == (if y1 > mh { mh } else { y1 }),
                py_lo <= py,
                py <= py_hi || py == py_lo,
                forall|qy: int| y0 <= qy < py ==> !#[trigger] mask.solid(px as int, qy),
            decreases py_hi - py,
        {
            if mask.is_solid(px, py) {
                assert(mask.solid(px as int, py as int));
                return true;
            }
            py = py + 1;
        }
        proof {
            assert forall|qy: int| y0 <= qy < y1 implies !#[trigger] mask.solid(px as int, qy) by {
                mask.lemma_off_grid(px as int, qy);
            }
        }
        px = px + 1;
    }
    proof {
        assert forall|qx: int, qy: int|
            x0 <= qx < x1 && y0 <= qy < y1 implies !#[trigger] mask.solid(qx, qy) by {
            mask.lemma_off_grid(qx, qy);
        }
    }
    false
}

/// Moves a box `k` milli-pixels along `d`.
pub fn shift(r: &Rect, d: Direction, k: i64) -> (s: Rect)
    requires
        r.fits(),
        0 <= k <= FIT_MAX,
    ensures
        s == shifted(*r, d, k as int),
{
    match d {
        Direction::Up => Rect { y: r.y - k, ..*r },
        Direction::Down => Rect { y: r.y + k, ..*r },
        Direction::Left => Rect { x: r.x - k, ..*r },
        Direction::Right => Rect { x: r.x + k, ..*r },
    }
}

/// Pushes `r` along `d` in steps of `step` until it no longer hits `mask` or
/// `wall`, and returns the distance travelled. If the box leaves `bounds`
/// entirely first, it is put back where it started and `None` (an unbounded
/// distance) is returned. With `undo`, the box is put back in any case and only
/// the distance is measured.
pub fn resolve(
    mask: &SolidMask,
    wall: Option<Rect>,
    bounds: &Rect,
    r: &mut Rect,
    d: Direction,
    step: i64,
    undo: bool,
) -> (dist: Option<i64>)
    requires
        mask.wf(),
        bounds.wf(),
        old(r).wf(),
        0 < step <= COORD_MAX,
        wall.is_some() ==> wall.unwrap().fits(),
    ensures
        dist.is_some() == separation(mask, wall, *bounds, *old(r), d, step as int).is_some(),
        dist.is_some() ==> dist.unwrap() == separation(
            mask,
            wall,
            *bounds,
            *old(r),
            d,
            step as int,
        ).unwrap(),
        dist.is_some() ==> overlap(shifted(*old(r), d, dist.unwrap() as int), *bounds),
        dist.is_some() ==> dist.unwrap() >= 0,
        *final(r) == (if dist.is_some() && !undo {
            shifted(*old(r), d, dist.unwrap() as int)
        } else {
            *old(r)
        }),
{
    let start = *r;
    let mut offset: i64 = 0;
    loop
        invariant
            mask.wf(),
            bounds.wf(),
            start.wf(),
            start == *old(r),
            0 < step <= COORD_MAX,
            wall.is_some() ==> wall.unwrap().fits(),
            0 <= offset <= abs(room(*bounds, start, d)) + step,
            *r == shifted(start, d, offset as int),
            r.fits(),
            room(*bounds, *r, d) == room(*bounds, start, d) - offset,
            separation(mask, wall, *bounds, start, d, step as int) == (match separation(
                mask,
                wall,
                *bounds,
                *r,
                d,
                step as int,
            ) {
                Some(k) => Some(k + offset),
                None => None,
            }),
        ensures
            overlap(*r, *bounds),
            !blocked(mask, wall, *r),
            *r == shifted(start, d, offset as int),
            separation(mask, wall, *bounds, start, d, step as int) == Some(offset as int),
        decreases (if room(*bounds, *r, d) > 0 { room(*bounds, *r, d) } else { 0 }),
    {
        if !r.check_collision(bounds) {
            *r = start;
            return None;
        }
        if !collides(mask, wall, r) {
            break;
        }
        let next = shift(r, d, step);
        offset = offset + step;
        *r = next;
    }
    if undo {
        *r = start;
    }
    Some(offset)
}

} // verus!
