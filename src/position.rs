use vstd::prelude::*;
use crate::geometry::{abs_spec, clamp_spec, sign_spec, Vec2, LIMIT};

verus! {

/// Largest magnitude of a height (2^39), so that the difference of two heights fits a vector.
pub const HEIGHT_LIMIT: i64 = 549_755_813_888;

/// Largest magnitude of a raw coordinate handed to `from_world` (2^42).
pub const RAW_LIMIT: i64 = 4_398_046_511_104;

/// A point on a horizontal cylinder: `x` wraps around at `world_width`, `y` does not.
#[derive(Clone, Copy, Debug, PartialEq, Eq, Structural)]
pub struct PositionCylinder {
    pub pos: Vec2,
    pub world_width: i64,
}

pub type Position = PositionCylinder;

/// A world width that positions can be normalised against.
pub open spec fn valid_width(w: int) -> bool {
    0 < w <= LIMIT
}

/// A raw point that `from_world` accepts: any `x` up to the raw limit, and a
/// height within the world's height limit.
pub open spec fn raw_ok(v: Vec2) -> bool {
    -RAW_LIMIT <= v.x <= RAW_LIMIT && -HEIGHT_LIMIT <= v.y <= HEIGHT_LIMIT
}

/// The position of the raw point `pos` on the cylinder of width `w`.
pub open spec fn from_world_spec(pos: Vec2, w: int) -> PositionCylinder {
    PositionCylinder {
        pos: Vec2 {
            x: ((pos.x as int) % w) as i64,
            y: pos.y,
        },
        world_width: w as i64,
    }
}

/// The origin of a cylinder of width `w`.
pub open spec fn origin(w: i64) -> PositionCylinder {
    PositionCylinder { pos: Vec2 { x: 0, y: 0 }, world_width: w }
}

/// The shortest horizontal displacement from `a` to `b` around a cylinder of width `w`.
pub open spec fn wrap_dx(a: int, b: int, w: int) -> int {
    let dx = b - a;
    if abs_spec(dx) * 2 > w {
        dx - w * sign_spec(dx)
    } else {
        dx
    }
}

impl PositionCylinder {
    /// `0 <= x < world_width`, and the height within its limit.
    pub open spec fn wf(self) -> bool {
        &&& valid_width(self.world_width as int)
        &&& 0 <= self.pos.x < self.world_width
        &&& -HEIGHT_LIMIT <= self.pos.y <= HEIGHT_LIMIT
    }

    pub open spec fn delta_spec(self, towards: PositionCylinder) -> Vec2 {
        Vec2 {
            x: wrap_dx(self.pos.x as int, towards.pos.x as int, self.world_width as int) as i64,
            y: (towards.pos.y - self.pos.y) as i64,
        }
    }

    pub open spec fn shifted_spec(self, delta: Vec2) -> PositionCylinder {
        from_world_spec(
            Vec2 { x: (self.pos.x + delta.x) as i64, y: (self.pos.y + delta.y) as i64 },
            self.world_width as int,
        )
    }

    /// Normalize a raw point onto the cylinder: `x` is taken modulo the width,
    /// `y` is kept.
    pub fn from_world(pos: Vec2, world_width: i64) -> (r: PositionCylinder)
        requires
            valid_width(world_width as int),
            raw_ok(pos),
        ensures
            r == from_world_spec(pos, world_width as int),
            0 <= r.pos.x < world_width,
            r.wf(),
    {
        let x = if pos.x >= 0 {
            pos.x % world_width
        } else {
            let m = (-pos.x) % world_width;
            proof {
                let a = pos.x as int;
                let w = world_width as int;
                let q = (-a) / w;
                assert(-a == q * w + m) by {
                    vstd::arithmetic::div_mod::lemma_fundamental_div_mod(-a, w);
                }
                if m == 0 {
                    assert(a == (-q) * w + 0) by (nonlinear_arith)
                        requires
                            -a == q * w + 0,
                    ;
                    vstd::arithmetic::div_mod::lemma_fundamental_div_mod_converse(a, w, -q, 0);
                } else {
                    assert(a == (-q - 1) * w + (w - m)) by (nonlinear_arith)
                        requires
                            -a == q * w + m,
                    ;
                    vstd::arithmetic::div_mod::lemma_fundamental_div_mod_converse(
                        a,
                        w,
                        -q - 1,
                        w - m,
                    );
                }
            }
            if m == 0 {
                0
            } else {
                world_width - m
            }
        };
        PositionCylinder { pos: Vec2 { x, y: pos.y }, world_width }
    }

    /// The origin of a cylinder of the given width.
    pub fn zero(world_width: i64) -> (r: PositionCylinder)
        requires
            valid_width(world_width as int),
        ensures
            r == origin(world_width),
            r.wf(),
    {
        proof {
            vstd::arithmetic::div_mod::lemma_fundamental_div_mod_converse(0, world_width as int, 0, 0);
        }
        Self::from_world(Vec2 { x: 0, y: 0 }, world_width)
    }

    pub fn to_world(self) -> (r: Vec2)
        ensures
            r == self.pos,
    {
        self.pos
    }

    pub fn world_width(self) -> (r: i64)
        ensures
            r == self.world_width,
    {
        self.world_width
    }

    /// `self` moved by `delta`, with the vertical part of the move held so that
    /// the height stays within the world's height limit.
    pub open spec fn moved_spec(self, delta: Vec2) -> PositionCylinder {
        self.shifted_spec(
            Vec2 {
                x: delta.x,
                y: (clamp_spec(
                    self.pos.y + delta.y,
                    -HEIGHT_LIMIT as int,
                    HEIGHT_LIMIT as int,
                ) - self.pos.y) as i64,
            },
        )
    }

    /// Moves in place by `delta`, held at the world's top and bottom.
    pub fn move_by(&mut self, delta: Vec2)
        requires
            old(self).wf(),
            delta.wf(),
        ensures
            *final(self) == old(self).moved_spec(delta),
            final(self).wf(),
    {
        *self = self.moved(delta);
    }

    /// This position moved by `delta`, held at the world's top and bottom.
    pub fn moved(self, delta: Vec2) -> (r: PositionCylinder)
        requires
            self.wf(),
            delta.wf(),
        ensures
            r == self.moved_spec(delta),
            r.wf(),
            r.world_width == self.world_width,
    {
        let target = self.pos.y + delta.y;
        let y = if target < -HEIGHT_LIMIT {
            -HEIGHT_LIMIT
        } else if target > HEIGHT_LIMIT {
            HEIGHT_LIMIT
        } else {
            target
        };
        self.shifted(Vec2 { x: delta.x, y: y - self.pos.y })
    }

    /// The displacement from the origin to `self`.
    pub fn as_dir(self) -> (r: Vec2)
        requires
            self.wf(),
        ensures
            r == origin(self.world_width).delta_spec(self),
            r.wf(),
    {
        Self::zero(self.world_width).delta_to(self)
    }

    /// Shift in place by the given delta.
    pub fn shift(&mut self, delta: Vec2)
        requires
            old(self).wf(),
            delta.wf(),
            -HEIGHT_LIMIT <= old(self).pos.y + delta.y <= HEIGHT_LIMIT,
        ensures
            *final(self) == old(self).shifted_spec(delta),
            final(self).wf(),
    {
        *self = self.shifted(delta);
    }

    /// This position shifted by the given delta.
    pub fn shifted(self, delta: Vec2) -> (r: PositionCylinder)
        requires
            self.wf(),
            delta.wf(),
            -HEIGHT_LIMIT <= self.pos.y + delta.y <= HEIGHT_LIMIT,
        ensures
            r == self.shifted_spec(delta),
            r.wf(),
            r.world_width == self.world_width,
    {
        Self::from_world(
            Vec2 { x: self.pos.x + delta.x, y: self.pos.y + delta.y },
            self.world_width,
        )
    }

    /// The shortest displacement from `self` to `towards`: horizontally it goes
    /// around the cylinder when that way is shorter.
    pub fn delta_to(self, towards: PositionCylinder) -> (r: Vec2)
        requires
            self.wf(),
            towards.wf(),
            self.world_width == towards.world_width,
        ensures
            r == self.delta_spec(towards),
            r.wf(),
            abs_spec(r.x as int) * 2 <= self.world_width,
    {
        let mut dx = towards.pos.x - self.pos.x;
        let adx = if dx < 0 {
            -dx
        } else {
            dx
        };
        if adx * 2 > self.world_width {
            if dx < 0 {
                dx = dx + self.world_width;
            } else {
                dx = dx - self.world_width;
            }
        }
        Vec2 { x: dx, y: towards.pos.y - self.pos.y }
    }

    /// The length of the shortest displacement between the two positions.
    pub fn distance(self, other: PositionCylinder) -> (r: i64)
        requires
            self.wf(),
            other.wf(),
            self.world_width == other.world_width,
        ensures
            r == self.delta_spec(other).length(),
    {
        self.delta_to(other).len()
    }
}

/// Shifting a position by its displacement to another one of the same width
/// lands exactly on that other position, and the displacement never goes more
/// than half the way around the cylinder.
pub proof fn delta_round_trip(a: PositionCylinder, b: PositionCylinder)
    requires
        a.wf(),
        b.wf(),
        a.world_width == b.world_width,
    ensures
        abs_spec(a.delta_spec(b).x as int) * 2 <= a.world_width,
        a.shifted_spec(a.delta_spec(b)) == b,
{
    let w = a.world_width as int;
    let d = a.delta_spec(b);
    let sx = a.pos.x + d.x;
    if abs_spec(b.pos.x - a.pos.x) * 2 > w {
        if b.pos.x - a.pos.x < 0 {
            vstd::arithmetic::div_mod::lemma_fundamental_div_mod_converse(sx, w, 1, b.pos.x as int);
        } else {
            vstd::arithmetic::div_mod::lemma_fundamental_div_mod_converse(sx, w, -1, b.pos.x as int);
        }
    } else {
        vstd::arithmetic::div_mod::lemma_fundamental_div_mod_converse(sx, w, 0, b.pos.x as int);
    }
    assert(a.shifted_spec(d).pos == b.pos);
}

/// Whatever raw point it is given, a normalised position lies in `[0, width)`.
pub proof fn from_world_in_range(pos: Vec2, w: int)
    requires
        valid_width(w),
    ensures
        0 <= from_world_spec(pos, w).pos.x < w,
{
    vstd::arithmetic::div_mod::lemma_mod_bound(pos.x as int, w);
}

} // verus!
