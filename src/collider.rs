use vstd::prelude::*;
use crate::geometry::{abs_spec, clamp_spec, div_trunc, sign_spec, Vec2, UNIT};
use crate::position::Position;

verus! {

/// Largest size of a shape (2^30 micro-units).
pub const SHAPE_LIMIT: i64 = 1_073_741_824;

/// A collision shape, centred on its collider's position.
#[derive(Clone, Copy, Debug, PartialEq, Eq, Structural)]
pub enum Shape {
    Circle { radius: i64 },
    Rectangle { width: i64, height: i64 },
}

impl Shape {
    pub open spec fn wf(self) -> bool {
        match self {
            Shape::Circle { radius } => 0 < radius <= SHAPE_LIMIT,
            Shape::Rectangle { width, height } => 0 < width <= SHAPE_LIMIT && 0 < height
                <= SHAPE_LIMIT,
        }
    }

    pub fn circle(radius: i64) -> (r: Shape)
        requires
            0 < radius <= SHAPE_LIMIT,
        ensures
            r == (Shape::Circle { radius }),
            r.wf(),
    {
        Shape::Circle { radius }
    }

    pub fn rectangle(width: i64, height: i64) -> (r: Shape)
        requires
            0 < width <= SHAPE_LIMIT,
            0 < height <= SHAPE_LIMIT,
        ensures
            r == (Shape::Rectangle { width, height }),
            r.wf(),
    {
        Shape::Rectangle { width, height }
    }
}

/// A shape placed in the world. The rotation is carried along but no test reads it.
#[derive(Clone, Copy, Debug, PartialEq, Eq, Structural)]
pub struct Collider {
    pub position: Position,
    pub rotation: i64,
    pub shape: Shape,
}

/// The result of a narrow-phase test: `normal` is one unit long and points from
/// the second collider toward the first, `penetration` is the overlap along it.
#[derive(Clone, Copy, Debug, PartialEq, Eq, Structural)]
pub struct Collision {
    pub point: Position,
    pub normal: Vec2,
    pub penetration: i64,
}

pub open spec fn up() -> Vec2 {
    Vec2 { x: 0, y: UNIT }
}

/// Normal and depth of two overlapping circles whose centres are `d` apart.
pub open spec fn circles_contact(d: Vec2, ra: int, rb: int) -> Option<(Vec2, int)> {
    let r = ra + rb;
    if d.len_sq() >= r * r {
        None
    } else if d.len_sq() == 0 {
        Some((up(), r))
    } else {
        Some((d.unit_dir(), r - d.length()))
    }
}

/// Normal and depth of two overlapping axis-aligned rectangles whose centres are `d` apart.
pub open spec fn rects_contact(d: Vec2, wa: int, ha: int, wb: int, hb: int) -> Option<(Vec2, int)> {
    let ox = wa + wb - 2 * abs_spec(d.x as int);
    let oy = ha + hb - 2 * abs_spec(d.y as int);
    if ox <= 0 || oy <= 0 {
        None
    } else if ox < oy {
        Some((Vec2 { x: (sign_spec(d.x as int) * UNIT) as i64, y: 0 }, ox / 2))
    } else {
        Some((Vec2 { x: 0, y: (sign_spec(d.y as int) * UNIT) as i64 }, oy / 2))
    }
}

/// Normal (from the rectangle toward the circle) and depth of a circle of radius `r`
/// whose centre is `d` from the centre of a `w` by `h` rectangle.
pub open spec fn circle_rect_contact(d: Vec2, r: int, w: int, h: int) -> Option<(Vec2, int)> {
    let cx = 2 * d.x;
    let cy = 2 * d.y;
    let e = Vec2 { x: (cx - clamp_spec(cx, -w, w)) as i64, y: (cy - clamp_spec(cy, -h, h)) as i64 };
    let r2 = 2 * r;
    if e.len_sq() >= r2 * r2 {
        None
    } else if e.len_sq() == 0 {
        let depth_x = w - abs_spec(cx);
        let depth_y = h - abs_spec(cy);
        if depth_x < depth_y {
            Some((Vec2 { x: (sign_spec(d.x as int) * UNIT) as i64, y: 0 }, (depth_x + r2) / 2))
        } else {
            Some((Vec2 { x: 0, y: (sign_spec(d.y as int) * UNIT) as i64 }, (depth_y + r2) / 2))
        }
    } else {
        Some((e.unit_dir(), (r2 - e.length()) / 2))
    }
}

pub open spec fn neg(v: Vec2) -> Vec2 {
    Vec2 { x: -v.x as i64, y: -v.y as i64 }
}

/// Normal and depth of shape `a` placed `d` from shape `b`.
pub open spec fn shapes_contact(a: Shape, b: Shape, d: Vec2) -> Option<(Vec2, int)> {
    match (a, b) {
        (Shape::Circle { radius: ra }, Shape::Circle { radius: rb }) => circles_contact(
            d,
            ra as int,
            rb as int,
        ),
        (Shape::Rectangle { width: wa, height: ha }, Shape::Rectangle { width: wb, height: hb }) =>
            rects_contact(d, wa as int, ha as int, wb as int, hb as int),
        (Shape::Circle { radius }, Shape::Rectangle { width, height }) => circle_rect_contact(
            d,
            radius as int,
            width as int,
            height as int,
        ),
        (Shape::Rectangle { width, height }, Shape::Circle { radius }) => match circle_rect_contact(
            neg(d),
            radius as int,
            width as int,
            height as int,
        ) {
            Some((n, p)) => Some((neg(n), p)),
            None => None,
        },
    }
}

/// The halfway point between `b` and the point `d` from it.
pub open spec fn midpoint(b: Position, d: Vec2) -> Position {
    b.moved_spec(Vec2 { x: div_trunc(d.x as int, 2) as i64, y: div_trunc(d.y as int, 2) as i64 })
}

impl Collider {
    pub open spec fn wf(self) -> bool {
        self.position.wf() && self.shape.wf()
    }

    /// What `a.collide(b)` returns.
    pub open spec fn collide_spec(self, other: Collider) -> Option<Collision> {
        let d = other.position.delta_spec(self.position);
        match shapes_contact(self.shape, other.shape, d) {
            Some((n, p)) => Some(
                Collision { point: midpoint(other.position, d), normal: n, penetration: p as i64 },
            ),
            None => None,
        }
    }

    pub fn new(position: Position, shape: Shape) -> (r: Collider)
        ensures
            r == (Collider { position, rotation: 0, shape }),
    {
        Collider { position, rotation: 0, shape }
    }

    /// Narrow-phase test of `self` against `other`, in the displacement between
    /// their centres (shapes are small next to the world's width).
    pub fn collide(&self, other: &Collider) -> (r: Option<Collision>)
        requires
            self.wf(),
            other.wf(),
            self.position.world_width == other.position.world_width,
        ensures
            r == self.collide_spec(*other),
    {
        let d = other.position.delta_to(self.position);
        let contact = match (self.shape, other.shape) {
            (Shape::Circle { radius: ra }, Shape::Circle { radius: rb }) => circles(d, ra, rb),
            (
                Shape::Rectangle { width: wa, height: ha },
                Shape::Rectangle { width: wb, height: hb },
            ) => rects(d, wa, ha, wb, hb),
            (Shape::Circle { radius }, Shape::Rectangle { width, height }) => circle_rect(
                d,
                radius,
                width,
                height,
            ),
            (Shape::Rectangle { width, height }, Shape::Circle { radius }) => {
                match circle_rect(Vec2 { x: -d.x, y: -d.y }, radius, width, height) {
                    Some((n, p)) => Some((Vec2 { x: -n.x, y: -n.y }, p)),
                    None => None,
                }
            },
        };
        match contact {
            Some((n, p)) => {
                let point = other.position.moved(Vec2 { x: d.x / 2, y: d.y / 2 });
                Some(Collision { point, normal: n, penetration: p })
            },
            None => None,
        }
    }
}

fn abs_i64(v: i64) -> (r: i64)
    requires
        v > i64::MIN,
    ensures
        r == abs_spec(v as int),
{
    if v < 0 {
        -v
    } else {
        v
    }
}

fn sign_unit(v: i64) -> (r: i64)
    ensures
        r == sign_spec(v as int) * UNIT,
{
    if v < 0 {
        -UNIT
    } else {
        UNIT
    }
}

fn circles(d: Vec2, ra: i64, rb: i64) -> (r: Option<(Vec2, i64)>)
    requires
        d.wf(),
        0 < ra <= SHAPE_LIMIT,
        0 < rb <= SHAPE_LIMIT,
    ensures
        r matches Some((n, p)) ==> n.wf() && circles_contact(d, ra as int, rb as int) == Some(
            (n, p as int),
        ),
        r is None ==> circles_contact(d, ra as int, rb as int) is None,
{
    let r = ra + rb;
    if d.x >= r || d.x <= -r || d.y >= r || d.y <= -r {
        assert(d.len_sq() >= r * r) by (nonlinear_arith)
            requires
                d.x >= r || d.x <= -r || d.y >= r || d.y <= -r,
                r > 0,
        ;
        return None;
    }
    let n = d.len_squared();
    assert(r * r <= 4 * SHAPE_LIMIT * SHAPE_LIMIT) by (nonlinear_arith)
        requires
            0 < r <= 2 * SHAPE_LIMIT,
    ;
    if n >= (r as u128) * (r as u128) {
        None
    } else if n == 0 {
        Some((Vec2 { x: 0, y: UNIT }, r))
    } else {
        let l = d.len();
        assert(l <= r) by (nonlinear_arith)
            requires
                l * l <= n,
                n < r * r,
                0 <= l,
                0 < r,
        ;
        Some((d.normalize_or_zero(), r - l))
    }
}

fn rects(d: Vec2, wa: i64, ha: i64, wb: i64, hb: i64) -> (r: Option<(Vec2, i64)>)
    requires
        d.wf(),
        0 < wa <= SHAPE_LIMIT,
        0 < ha <= SHAPE_LIMIT,
        0 < wb <= SHAPE_LIMIT,
        0 < hb <= SHAPE_LIMIT,
    ensures
        r matches Some((n, p)) ==> n.wf() && rects_contact(
            d,
            wa as int,
            ha as int,
            wb as int,
            hb as int,
        ) == Some((n, p as int)),
        r is None ==> rects_contact(d, wa as int, ha as int, wb as int, hb as int) is None,
{
    let ox = wa + wb - 2 * abs_i64(d.x);
    let oy = ha + hb - 2 * abs_i64(d.y);
    if ox <= 0 || oy <= 0 {
        None
    } else if ox < oy {
        Some((Vec2 { x: sign_unit(d.x), y: 0 }, ox / 2))
    } else {
        Some((Vec2 { x: 0, y: sign_unit(d.y) }, oy / 2))
    }
}

fn circle_rect(d: Vec2, r: i64, w: i64, h: i64) -> (res: Option<(Vec2, i64)>)
    requires
        d.wf(),
        0 < r <= SHAPE_LIMIT,
        0 < w <= SHAPE_LIMIT,
        0 < h <= SHAPE_LIMIT,
    ensures
        res matches Some((n, p)) ==> n.wf() && circle_rect_contact(
            d,
            r as int,
            w as int,
            h as int,
        ) == Some((n, p as int)),
        res is None ==> circle_rect_contact(d, r as int, w as int, h as int) is None,
{
    let cx = 2 * d.x;
    let cy = 2 * d.y;
    let qx = if cx < -w {
        -w
    } else if cx > w {
        w
    } else {
        cx
    };
    let qy = if cy < -h {
        -h
    } else if cy > h {
        h
    } else {
        cy
    };
    let e = Vec2 { x: cx - qx, y: cy - qy };
    let r2 = 2 * r;
    if e.x >= r2 || e.x <= -r2 || e.y >= r2 || e.y <= -r2 {
        assert(e.len_sq() >= r2 * r2) by (nonlinear_arith)
            requires
                e.x >= r2 || e.x <= -r2 || e.y >= r2 || e.y <= -r2,
                r2 > 0,
        ;
        return None;
    }
    let n = e.len_squared();
    assert(r2 * r2 <= 4 * SHAPE_LIMIT * SHAPE_LIMIT) by (nonlinear_arith)
        requires
            0 < r2 <= 2 * SHAPE_LIMIT,
    ;
    if n >= (r2 as u128) * (r2 as u128) {
        None
    } else if n == 0 {
        let depth_x = w - abs_i64(cx);
        let depth_y = h - abs_i64(cy);
        if depth_x < depth_y {
            Some((Vec2 { x: sign_unit(d.x), y: 0 }, (depth_x + r2) / 2))
        } else {
            Some((Vec2 { x: 0, y: sign_unit(d.y) }, (depth_y + r2) / 2))
        }
    } else {
        let l = e.len();
        assert(l <= r2) by (nonlinear_arith)
            requires
                l * l <= n,
                n < r2 * r2,
                0 <= l,
                0 < r2,
        ;
        Some((e.normalize_or_zero(), (r2 - l) / 2))
    }
}

} // verus!
