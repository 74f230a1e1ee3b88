//! The triangle rasterizer: edge-function coverage of pixel centers, with
//! attributes interpolated linearly in screen space.
//!
//! A triangle is drawn only in one winding: the one in which
//! `(0, 0), (1, 0), (0, 1)` is given, on a screen whose `y` grows downward.
//! The other winding, and a triangle without area, give no fragment.

use vstd::prelude::*;
use crate::color::Color;
use crate::fixed::{div_floor, lemma_product_bound, Vector3, UNIT};
use crate::fragment::Fragment;
use crate::vertex::TransformedVertex;

verus! {

/// The largest pixel index whose center a screen coordinate can reach.
pub const MAX_PIXEL: usize = 214_747;

/// The screen coordinate of the center of pixel column or row `i`.
pub open spec fn center(i: int) -> int {
    i * UNIT + UNIT / 2
}

/// The edge function of the directed edge from `a` to `b` at the point `p`:
/// twice the signed area of the triangle `a`, `b`, `p`.
pub open spec fn edge(ax: int, ay: int, bx: int, by: int, px: int, py: int) -> int {
    (bx - ax) * (py - ay) - (by - ay) * (px - ax)
}

/// The smallest of three numbers.
pub open spec fn min3(a: int, b: int, c: int) -> int {
    if a <= b && a <= c {
        a
    } else if b <= c {
        b
    } else {
        c
    }
}

/// The largest of three numbers.
pub open spec fn max3(a: int, b: int, c: int) -> int {
    if a >= b && a >= c {
        a
    } else if b >= c {
        b
    } else {
        c
    }
}

/// Barycentric weights before normalization: the three edge functions of a
/// triangle at one point. Their sum is the triangle's edge function of its own
/// third vertex, whatever the point.
pub struct Weights {
    pub w0: int,
    pub w1: int,
    pub w2: int,
}

impl Weights {
    /// The sum of the weights.
    pub open spec fn total(self) -> int {
        self.w0 + self.w1 + self.w2
    }

    /// No weight is negative: the point is inside, or on an edge of, a
    /// triangle of the winding that is drawn.
    pub open spec fn inside(self) -> bool {
        self.w0 >= 0 && self.w1 >= 0 && self.w2 >= 0
    }

    /// The weighted mean of one attribute of the three vertices, rounded
    /// down.
    pub open spec fn blend(self, a0: int, a1: int, a2: int) -> int {
        (self.w0 * a0 + self.w1 * a1 + self.w2 * a2) / self.total()
    }

    /// The weighted mean of three vectors, component by component.
    pub open spec fn blend_vector(self, a: Vector3, b: Vector3, c: Vector3) -> Vector3 {
        Vector3 {
            x: self.blend(a.x as int, b.x as int, c.x as int) as i32,
            y: self.blend(a.y as int, b.y as int, c.y as int) as i32,
            z: self.blend(a.z as int, b.z as int, c.z as int) as i32,
        }
    }

    /// The weighted mean of three colors, channel by channel.
    pub open spec fn blend_color(self, a: Color, b: Color, c: Color) -> Color {
        Color {
            r: self.blend(a.r as int, b.r as int, c.r as int) as u8,
            g: self.blend(a.g as int, b.g as int, c.g as int) as u8,
            b: self.blend(a.b as int, b.b as int, c.b as int) as u8,
        }
    }
}

/// Twice the signed area of a triangle on the screen.
pub open spec fn signed_area(
    v0: TransformedVertex,
    v1: TransformedVertex,
    v2: TransformedVertex,
) -> int {
    edge(
        v0.screen_position.x as int,
        v0.screen_position.y as int,
        v1.screen_position.x as int,
        v1.screen_position.y as int,
        v2.screen_position.x as int,
        v2.screen_position.y as int,
    )
}

/// The weights of the screen point `(px, py)` in a triangle: `w0` belongs to
/// `v0` and is the edge function of the opposite edge, and so on.
pub open spec fn weights_at(
    v0: TransformedVertex,
    v1: TransformedVertex,
    v2: TransformedVertex,
    px: int,
    py: int,
) -> Weights {
    Weights {
        w0: edge(
            v1.screen_position.x as int,
            v1.screen_position.y as int,
            v2.screen_position.x as int,
            v2.screen_position.y as int,
            px,
            py,
        ),
        w1: edge(
            v2.screen_position.x as int,
            v2.screen_position.y as int,
            v0.screen_position.x as int,
            v0.screen_position.y as int,
            px,
            py,
        ),
        w2: edge(
            v0.screen_position.x as int,
            v0.screen_position.y as int,
            v1.screen_position.x as int,
            v1.screen_position.y as int,
            px,
            py,
        ),
    }
}

/// A triangle can give fragments: its three vertices are defined and it has
/// positive area in the winding that is drawn.
pub open spec fn drawable(
    v0: TransformedVertex,
    v1: TransformedVertex,
    v2: TransformedVertex,
) -> bool {
    v0.defined && v1.defined && v2.defined && signed_area(v0, v1, v2) > 0
}

/// The center of pixel `(x, y)` is covered by the triangle.
pub open spec fn covers(
    v0: TransformedVertex,
    v1: TransformedVertex,
    v2: TransformedVertex,
    x: int,
    y: int,
) -> bool {
    drawable(v0, v1, v2) && weights_at(v0, v1, v2, center(x), center(y)).inside()
}

/// The fragment of pixel `(x, y)` whose attributes are the vertices'
/// attributes blended by the weights `w`.
pub open spec fn interpolated(
    v0: TransformedVertex,
    v1: TransformedVertex,
    v2: TransformedVertex,
    w: Weights,
    x: int,
    y: int,
) -> Fragment {
    Fragment {
        x: x as usize,
        y: y as usize,
        depth: w.blend(
            v0.screen_position.z as int,
            v1.screen_position.z as int,
            v2.screen_position.z as int,
        ) as i32,
        world_position: w.blend_vector(v0.vertex.position, v1.vertex.position, v2.vertex.position),
        normal: w.blend_vector(v0.world_normal, v1.world_normal, v2.world_normal),
        intensity: w.blend(v0.intensity as int, v1.intensity as int, v2.intensity as int) as i32,
        base_color: w.blend_color(v0.vertex.color, v1.vertex.color, v2.vertex.color),
    }
}

/// The fragment that a triangle gives at the center of pixel `(x, y)`.
pub open spec fn fragment_at(
    v0: TransformedVertex,
    v1: TransformedVertex,
    v2: TransformedVertex,
    x: int,
    y: int,
) -> Fragment {
    interpolated(v0, v1, v2, weights_at(v0, v1, v2, center(x), center(y)), x, y)
}

/// The fragments of row `y` in the columns before `upto`, left to right.
pub open spec fn raster_row(
    v0: TransformedVertex,
    v1: TransformedVertex,
    v2: TransformedVertex,
    y: int,
    upto: int,
) -> Seq<Fragment>
    decreases upto,
{
    if upto <= 0 {
        Seq::empty()
    } else {
        let rest = raster_row(v0, v1, v2, y, upto - 1);
        if covers(v0, v1, v2, upto - 1, y) {
            rest.push(fragment_at(v0, v1, v2, upto - 1, y))
        } else {
            rest
        }
    }
}

/// The fragments of the rows before `upto` of a canvas `width` pixels wide,
/// top to bottom.
pub open spec fn raster_rows(
    v0: TransformedVertex,
    v1: TransformedVertex,
    v2: TransformedVertex,
    width: int,
    upto: int,
) -> Seq<Fragment>
    decreases upto,
{
    if upto <= 0 {
        Seq::empty()
    } else {
        raster_rows(v0, v1, v2, width, upto - 1) + raster_row(v0, v1, v2, upto - 1, width)
    }
}

/// The fragments of a triangle on a canvas: one for each pixel of the canvas
/// whose center the triangle covers, row by row from the top, each row from
/// the left.
pub open spec fn raster(
    v0: TransformedVertex,
    v1: TransformedVertex,
    v2: TransformedVertex,
    width: int,
    height: int,
) -> Seq<Fragment> {
    raster_rows(v0, v1, v2, width, height)
}

proof fn lemma_edge_sum(
    x0: int,
    y0: int,
    x1: int,
    y1: int,
    x2: int,
    y2: int,
    px: int,
    py: int,
)
    ensures
        edge(x1, y1, x2, y2, px, py) + edge(x2, y2, x0, y0, px, py) + edge(x0, y0, x1, y1, px, py)
            == edge(x0, y0, x1, y1, x2, y2),
        edge(x1, y1, x2, y2, px, py) * x0 + edge(x2, y2, x0, y0, px, py) * x1 + edge(
            x0,
            y0,
            x1,
            y1,
            px,
            py,
        ) * x2 == edge(x0, y0, x1, y1, x2, y2) * px,
        edge(x1, y1, x2, y2, px, py) * y0 + edge(x2, y2, x0, y0, px, py) * y1 + edge(
            x0,
            y0,
            x1,
            y1,
            px,
            py,
        ) * y2 == edge(x0, y0, x1, y1, x2, y2) * py,
{
    let e0 = edge(x1, y1, x2, y2, px, py);
    let e1 = edge(x2, y2, x0, y0, px, py);
    let e2 = edge(x0, y0, x1, y1, px, py);
    let t = edge(x0, y0, x1, y1, x2, y2);
    let a = x1 - x0;
    let b = y1 - y0;
    let c = x2 - x0;
    let d = y2 - y0;
    let u = px - x0;
    let v = py - y0;
    assert(e2 == a * v - b * u);
    assert(t == a * d - b * c);
    assert(e1 == d * u - c * v) by (nonlinear_arith)
        requires
            e1 == (x0 - x2) * (py - y2) - (y0 - y2) * (px - x2),
            c == x2 - x0,
            d == y2 - y0,
            u == px - x0,
            v == py - y0,
    ;
    assert(e0 == (c - a) * (v - b) - (d - b) * (u - a)) by (nonlinear_arith)
        requires
            e0 == (x2 - x1) * (py - y1) - (y2 - y1) * (px - x1),
            a == x1 - x0,
            b == y1 - y0,
            c == x2 - x0,
            d == y2 - y0,
            u == px - x0,
            v == py - y0,
    ;
    assert(e0 + e1 + e2 == t) by (nonlinear_arith)
        requires
            e0 == (c - a) * (v - b) - (d - b) * (u - a),
            e1 == d * u - c * v,
            e2 == a * v - b * u,
            t == a * d - b * c,
    ;
    assert(e1 * a + e2 * c == t * u) by (nonlinear_arith)
        requires
            e1 == d * u - c * v,
            e2 == a * v - b * u,
            t == a * d - b * c,
    ;
    assert(e1 * b + e2 * d == t * v) by (nonlinear_arith)
        requires
            e1 == d * u - c * v,
            e2 == a * v - b * u,
            t == a * d - b * c,
    ;
    assert(e0 * x0 + e1 * x1 + e2 * x2 == t * px) by (nonlinear_arith)
        requires
            e0 + e1 + e2 == t,
            e1 * a + e2 * c == t * u,
            x1 == x0 + a,
            x2 == x0 + c,
            px == x0 + u,
    ;
    assert(e0 * y0 + e1 * y1 + e2 * y2 == t * py) by (nonlinear_arith)
        requires
            e0 + e1 + e2 == t,
            e1 * b + e2 * d == t * v,
            y1 == y0 + b,
            y2 == y0 + d,
            py == y0 + v,
    ;
}

/// The three weights of any point add up to the triangle's doubled area.
pub proof fn lemma_weights_total(
    v0: TransformedVertex,
    v1: TransformedVertex,
    v2: TransformedVertex,
    px: int,
    py: int,
)
    ensures
        weights_at(v0, v1, v2, px, py).total() == signed_area(v0, v1, v2),
{
    lemma_edge_sum(
        v0.screen_position.x as int,
        v0.screen_position.y as int,
        v1.screen_position.x as int,
        v1.screen_position.y as int,
        v2.screen_position.x as int,
        v2.screen_position.y as int,
        px,
        py,
    );
}

/// The weights of a point locate it: the vertices' coordinates weighted by
/// them give the point's coordinates times the total.
pub proof fn lemma_weights_locate(
    v0: TransformedVertex,
    v1: TransformedVertex,
    v2: TransformedVertex,
    px: int,
    py: int,
)
    ensures
        ({
            let w = weights_at(v0, v1, v2, px, py);
            &&& w.w0 * v0.screen_position.x + w.w1 * v1.screen_position.x + w.w2
                * v2.screen_position.x == w.total() * px
            &&& w.w0 * v0.screen_position.y + w.w1 * v1.screen_position.y + w.w2
                * v2.screen_position.y == w.total() * py
        }),
{
    lemma_edge_sum(
        v0.screen_position.x as int,
        v0.screen_position.y as int,
        v1.screen_position.x as int,
        v1.screen_position.y as int,
        v2.screen_position.x as int,
        v2.screen_position.y as int,
        px,
        py,
    );
}

/// A mean with non-negative weights lies between the least and the greatest
/// of the values.
pub proof fn lemma_blend_between(w: Weights, a0: int, a1: int, a2: int)
    requires
        w.inside(),
        w.total() > 0,
    ensures
        min3(a0, a1, a2) <= w.blend(a0, a1, a2) <= max3(a0, a1, a2),
{
    let lo = min3(a0, a1, a2);
    let hi = max3(a0, a1, a2);
    let s = w.w0 * a0 + w.w1 * a1 + w.w2 * a2;
    let t = w.total();
    assert(lo * t <= s <= hi * t) by (nonlinear_arith)
        requires
            w.w0 >= 0,
            w.w1 >= 0,
            w.w2 >= 0,
            t == w.w0 + w.w1 + w.w2,
            s == w.w0 * a0 + w.w1 * a1 + w.w2 * a2,
            lo <= a0 <= hi,
            lo <= a1 <= hi,
            lo <= a2 <= hi,
    ;
    assert(lo <= s / t <= hi) by (nonlinear_arith)
        requires
            lo * t <= s <= hi * t,
            t > 0,
    ;
}

/// A pixel that a triangle covers has its center inside the bounding box of
/// the triangle's vertices.
pub proof fn lemma_covered_in_bounds(
    v0: TransformedVertex,
    v1: TransformedVertex,
    v2: TransformedVertex,
    x: int,
    y: int,
)
    requires
        covers(v0, v1, v2, x, y),
    ensures
        min3(
            v0.screen_position.x as int,
            v1.screen_position.x as int,
            v2.screen_position.x as int,
        ) <= center(x) <= max3(
            v0.screen_position.x as int,
            v1.screen_position.x as int,
            v2.screen_position.x as int,
        ),
        min3(
            v0.screen_position.y as int,
            v1.screen_position.y as int,
            v2.screen_position.y as int,
        ) <= center(y) <= max3(
            v0.screen_position.y as int,
            v1.screen_position.y as int,
            v2.screen_position.y as int,
        ),
{
    let w = weights_at(v0, v1, v2, center(x), center(y));
    lemma_weights_total(v0, v1, v2, center(x), center(y));
    lemma_weights_locate(v0, v1, v2, center(x), center(y));
    lemma_blend_between(
        w,
        v0.screen_position.x as int,
        v1.screen_position.x as int,
        v2.screen_position.x as int,
    );
    lemma_blend_between(
        w,
        v0.screen_position.y as int,
        v1.screen_position.y as int,
        v2.screen_position.y as int,
    );
    let t = w.total();
    let cx = center(x);
    let cy = center(y);
    assert((t * cx) / t == cx) by (nonlinear_arith)
        requires
            t > 0,
    ;
    assert((t * cy) / t == cy) by (nonlinear_arith)
        requires
            t > 0,
    ;
}

/// Columns that a triangle does not cover add nothing to a row.
pub proof fn lemma_row_skip(
    v0: TransformedVertex,
    v1: TransformedVertex,
    v2: TransformedVertex,
    y: int,
    from: int,
    upto: int,
)
    requires
        0 <= from <= upto,
        forall|x: int| from <= x < upto ==> !covers(v0, v1, v2, x, y),
    ensures
        raster_row(v0, v1, v2, y, upto) == raster_row(v0, v1, v2, y, from),
    decreases upto - from,
{
    if from < upto {
        lemma_row_skip(v0, v1, v2, y, from, upto - 1);
        assert(!covers(v0, v1, v2, upto - 1, y));
    }
}

/// Rows that a triangle does not cover add nothing to the fragments.
pub proof fn lemma_rows_skip(
    v0: TransformedVertex,
    v1: TransformedVertex,
    v2: TransformedVertex,
    width: int,
    from: int,
    upto: int,
)
    requires
        0 <= width,
        0 <= from <= upto,
        forall|x: int, y: int| from <= y < upto && 0 <= x < width ==> !covers(v0, v1, v2, x, y),
    ensures
        raster_rows(v0, v1, v2, width, upto) == raster_rows(v0, v1, v2, width, from),
    decreases upto - from,
{
    if from < upto {
        lemma_rows_skip(v0, v1, v2, width, from, upto - 1);
        lemma_row_skip(v0, v1, v2, upto - 1, 0, width);
        assert(raster_row(v0, v1, v2, upto - 1, 0) =~= Seq::<Fragment>::empty());
        assert(raster_rows(v0, v1, v2, width, upto - 1) + Seq::<Fragment>::empty()
            =~= raster_rows(v0, v1, v2, width, upto - 1));
    }
}

fn smallest(a: i32, b: i32, c: i32) -> (m: i32)
    ensures
        m == min3(a as int, b as int, c as int),
{
    if a <= b && a <= c {
        a
    } else if b <= c {
        b
    } else {
        c
    }
}

fn largest(a: i32, b: i32, c: i32) -> (m: i32)
    ensures
        m == max3(a as int, b as int, c as int),
{
    if a >= b && a >= c {
        a
    } else if b >= c {
        b
    } else {
        c
    }
}

/// The range of pixel indices below `limit` whose centers can lie between the
/// least and the greatest of three screen coordinates: every such index is in
/// `start..end`.
fn pixel_span(a: i32, b: i32, c: i32, limit: usize) -> (span: (usize, usize))
    ensures
        span.0 <= span.1 <= limit,
        span.1 <= MAX_PIXEL + 1,
        forall|i: int|
            0 <= i < limit && min3(a as int, b as int, c as int) <= #[trigger] center(i) <= max3(
                a as int,
                b as int,
                c as int,
            ) ==> span.0 <= i < span.1,
{
    let lo: i32 = smallest(a, b, c);
    let hi: i32 = largest(a, b, c);
    let half: i128 = (UNIT / 2) as i128;
    let first: i128 = div_floor(lo as i128 - half, UNIT as i128);
    let last: i128 = div_floor(hi as i128 - half, UNIT as i128);
    if last < 0 || first > last {
        return (0, 0);
    }
    let start: usize = if first < 0 {
        0
    } else {
        first as usize
    };
    let end: usize = if (last as u64) < (limit as u64) {
        (last + 1) as usize
    } else {
        limit
    };
    if start >= end {
        (0, 0)
    } else {
        (start, end)
    }
}

fn edge_value(ax: i64, ay: i64, bx: i64, by: i64, px: i64, py: i64) -> (e: i128)
    requires
        -0x8000_0000 <= ax <= 0x8000_0000,
        -0x8000_0000 <= ay <= 0x8000_0000,
        -0x8000_0000 <= bx <= 0x8000_0000,
        -0x8000_0000 <= by <= 0x8000_0000,
        -0x8000_0000 <= px <= 0x8000_0000,
        -0x8000_0000 <= py <= 0x8000_0000,
    ensures
        e == edge(ax as int, ay as int, bx as int, by as int, px as int, py as int),
        -0x2_0000_0000_0000_0000 <= e <= 0x2_0000_0000_0000_0000,
{
    let dx: i128 = bx as i128 - ax as i128;
    let dy: i128 = by as i128 - ay as i128;
    let qx: i128 = px as i128 - ax as i128;
    let qy: i128 = py as i128 - ay as i128;
    proof {
        lemma_product_bound(dx as int, qy as int, 0x1_0000_0000, 0x1_0000_0000);
        lemma_product_bound(dy as int, qx as int, 0x1_0000_0000, 0x1_0000_0000);
        assert(0x1_0000_0000 * 0x1_0000_0000 == 0x1_0000_0000_0000_0000);
    }
    dx * qy - dy * qx
}

fn blend_value(w0: i128, w1: i128, w2: i128, a0: i32, a1: i32, a2: i32) -> (r: i32)
    requires
        0 <= w0 <= 0x2_0000_0000_0000_0000,
        0 <= w1 <= 0x2_0000_0000_0000_0000,
        0 <= w2 <= 0x2_0000_0000_0000_0000,
        w0 + w1 + w2 > 0,
    ensures
        r == (Weights { w0: w0 as int, w1: w1 as int, w2: w2 as int }).blend(
            a0 as int,
            a1 as int,
            a2 as int,
        ),
        min3(a0 as int, a1 as int, a2 as int) <= r <= max3(a0 as int, a1 as int, a2 as int),
{
    proof {
        lemma_product_bound(w0 as int, a0 as int, 0x2_0000_0000_0000_0000, 0x8000_0000);
        lemma_product_bound(w1 as int, a1 as int, 0x2_0000_0000_0000_0000, 0x8000_0000);
        lemma_product_bound(w2 as int, a2 as int, 0x2_0000_0000_0000_0000, 0x8000_0000);
        assert(0x2_0000_0000_0000_0000 * 0x8000_0000 == 0x1_0000_0000_0000_0000_0000_0000);
        lemma_blend_between(
            Weights { w0: w0 as int, w1: w1 as int, w2: w2 as int },
            a0 as int,
            a1 as int,
            a2 as int,
        );
    }
    let s: i128 = w0 * a0 as i128 + w1 * a1 as i128 + w2 * a2 as i128;
    let q: i128 = div_floor(s, w0 + w1 + w2);
    q as i32
}

fn blend_channel(w0: i128, w1: i128, w2: i128, a0: u8, a1: u8, a2: u8) -> (r: u8)
    requires
        0 <= w0 <= 0x2_0000_0000_0000_0000,
        0 <= w1 <= 0x2_0000_0000_0000_0000,
        0 <= w2 <= 0x2_0000_0000_0000_0000,
        w0 + w1 + w2 > 0,
    ensures
        r == (Weights { w0: w0 as int, w1: w1 as int, w2: w2 as int }).blend(
            a0 as int,
            a1 as int,
            a2 as int,
        ),
{
    blend_value(w0, w1, w2, a0 as i32, a1 as i32, a2 as i32) as u8
}

fn blend_vector(w0: i128, w1: i128, w2: i128, a: &Vector3, b: &Vector3, c: &Vector3) -> (r:
    Vector3)
    requires
        0 <= w0 <= 0x2_0000_0000_0000_0000,
        0 <= w1 <= 0x2_0000_0000_0000_0000,
        0 <= w2 <= 0x2_0000_0000_0000_0000,
        w0 + w1 + w2 > 0,
    ensures
        r == (Weights { w0: w0 as int, w1: w1 as int, w2: w2 as int }).blend_vector(*a, *b, *c),
{
    Vector3 {
        x: blend_value(w0, w1, w2, a.x, b.x, c.x),
        y: blend_value(w0, w1, w2, a.y, b.y, c.y),
        z: blend_value(w0, w1, w2, a.z, b.z, c.z),
    }
}

fn blend_color(w0: i128, w1: i128, w2: i128, a: &Color, b: &Color, c: &Color) -> (r: Color)
    requires
        0 <= w0 <= 0x2_0000_0000_0000_0000,
        0 <= w1 <= 0x2_0000_0000_0000_0000,
        0 <= w2 <= 0x2_0000_0000_0000_0000,
        w0 + w1 + w2 > 0,
    ensures
        r == (Weights { w0: w0 as int, w1: w1 as int, w2: w2 as int }).blend_color(*a, *b, *c),
{
    Color {
        r: blend_channel(w0, w1, w2, a.r, b.r, c.r),
        g: blend_channel(w0, w1, w2, a.g, b.g, c.g),
        b: blend_channel(w0, w1, w2, a.b, b.b, c.b),
    }
}

/// The fragment of one pixel of a drawable triangle, if the triangle covers
/// the pixel's center.
pub fn shade_pixel(
    v0: &TransformedVertex,
    v1: &TransformedVertex,
    v2: &TransformedVertex,
    x: usize,
    y: usize,
) -> (f: Option<Fragment>)
    requires
        x <= MAX_PIXEL,
        y <= MAX_PIXEL,
    ensures
        f == if covers(*v0, *v1, *v2, x as int, y as int) {
            Some(fragment_at(*v0, *v1, *v2, x as int, y as int))
        } else {
            None
        },
{
    if !(v0.defined && v1.defined && v2.defined) {
        return None;
    }
    let x0: i64 = v0.screen_position.x as i64;
    let y0: i64 = v0.screen_position.y as i64;
    let x1: i64 = v1.screen_position.x as i64;
    let y1: i64 = v1.screen_position.y as i64;
    let x2: i64 = v2.screen_position.x as i64;
    let y2: i64 = v2.screen_position.y as i64;
    let area: i128 = edge_value(x0, y0, x1, y1, x2, y2);
    if area <= 0 {
        return None;
    }
    let unit: i64 = UNIT as i64;
    assert(unit == 10_000);
    let px: i64 = x as i64 * unit + unit / 2;
    let py: i64 = y as i64 * unit + unit / 2;
    assert(px == center(x as int) && py == center(y as int));
    let w0: i128 = edge_value(x1, y1, x2, y2, px, py);
    let w1: i128 = edge_value(x2, y2, x0, y0, px, py);
    let w2: i128 = edge_value(x0, y0, x1, y1, px, py);
    if w0 < 0 || w1 < 0 || w2 < 0 {
        return None;
    }
    proof {
        lemma_weights_total(*v0, *v1, *v2, px as int, py as int);
    }
    Some(
        Fragment {
            x,
            y,
            depth: blend_value(
                w0,
                w1,
                w2,
                v0.screen_position.z,
                v1.screen_position.z,
                v2.screen_position.z,
            ),
            world_position: blend_vector(
                w0,
                w1,
                w2,
                &v0.vertex.position,
                &v1.vertex.position,
                &v2.vertex.position,
            ),
            normal: blend_vector(w0, w1, w2, &v0.world_normal, &v1.world_normal, &v2.world_normal),
            intensity: blend_value(w0, w1, w2, v0.intensity, v1.intensity, v2.intensity),
            base_color: blend_color(w0, w1, w2, &v0.vertex.color, &v1.vertex.color, &v2.vertex.color),
        },
    )
}

/// Rasterizes one triangle on a canvas of `width` by `height` pixels.
///
/// The result holds one fragment for each pixel of the canvas whose center
/// the triangle covers, rows from the top and each row from the left, with
/// depth and attributes interpolated at the center. A triangle with an
/// undefined vertex, without area, of the winding that is not drawn, or
/// wholly off the canvas gives no fragment.
pub fn triangle(
    v0: &TransformedVertex,
    v1: &TransformedVertex,
    v2: &TransformedVertex,
    width: usize,
    height: usize,
) -> (fragments: Vec<Fragment>)
    ensures
        fragments@ == raster(*v0, *v1, *v2, width as int, height as int),
{
    let mut fragments: Vec<Fragment> = Vec::new();
    let (x_start, x_end) = pixel_span(
        v0.screen_position.x,
        v1.screen_position.x,
        v2.screen_position.x,
        width,
    );
    let (y_start, y_end) = pixel_span(
        v0.screen_position.y,
        v1.screen_position.y,
        v2.screen_position.y,
        height,
    );
    proof {
        assert forall|x: int, y: int| 0 <= x < width && 0 <= y < height && covers(
            *v0,
            *v1,
            *v2,
            x,
            y,
        ) implies x_start <= x < x_end && y_start <= y < y_end by {
            lemma_covered_in_bounds(*v0, *v1, *v2, x, y);
        }
        lemma_rows_skip(*v0, *v1, *v2, width as int, 0, y_start as int);
    }
    let mut y: usize = y_start;
    while y < y_end
        invariant
            y_start <= y <= y_end <= height,
            x_start <= x_end <= width,
            x_end <= MAX_PIXEL + 1,
            y_end <= MAX_PIXEL + 1,
            forall|x: int, y: int|
                0 <= x < width && 0 <= y < height && covers(*v0, *v1, *v2, x, y) ==> x_start <= x
                    < x_end && y_start <= y < y_end,
            fragments@ == raster_rows(*v0, *v1, *v2, width as int, y as int),
        decreases y_end - y,
    {
        proof {
            lemma_row_skip(*v0, *v1, *v2, y as int, 0, x_start as int);
            assert(raster_row(*v0, *v1, *v2, y as int, 0) =~= Seq::<Fragment>::empty());
            assert(fragments@ + Seq::<Fragment>::empty() =~= fragments@);
        }
        let ghost above = fragments@;
        let mut x: usize = x_start;
        while x < x_end
            invariant
                y < y_end <= height,
                x_start <= x <= x_end <= width,
                x_end <= MAX_PIXEL + 1,
                y_end <= MAX_PIXEL + 1,
                above == raster_rows(*v0, *v1, *v2, width as int, y as int),
                fragments@ == above + raster_row(*v0, *v1, *v2, y as int, x as int),
            decreases x_end - x,
        {
            let ghost before = raster_row(*v0, *v1, *v2, y as int, x as int);
            match shade_pixel(v0, v1, v2, x, y) {
                Some(fragment) => {
                    fragments.push(fragment);
                    assert(fragments@ =~= above + before.push(fragment));
                },
                None => {},
            }
            x += 1;
        }
        proof {
            lemma_row_skip(*v0, *v1, *v2, y as int, x_end as int, width as int);
        }
        y += 1;
    }
    proof {
        lemma_rows_skip(*v0, *v1, *v2, width as int, y_end as int, height as int);
    }
    fragments
}

/// `f` is the fragment that the triangle gives at the pixel that `f` names,
/// and the triangle covers that pixel's center.
pub open spec fn is_fragment_of(
    v0: TransformedVertex,
    v1: TransformedVertex,
    v2: TransformedVertex,
    f: Fragment,
) -> bool {
    covers(v0, v1, v2, f.x as int, f.y as int) && f == fragment_at(
        v0,
        v1,
        v2,
        f.x as int,
        f.y as int,
    )
}

/// `a` comes before `b` in the order of the scan: in a row above, or in the
/// same row and to the left.
pub open spec fn scans_before(a: Fragment, b: Fragment) -> bool {
    a.y < b.y || (a.y == b.y && a.x < b.x)
}

proof fn lemma_row_sound(
    v0: TransformedVertex,
    v1: TransformedVertex,
    v2: TransformedVertex,
    y: int,
    upto: int,
)
    requires
        0 <= y <= usize::MAX,
        upto <= usize::MAX + 1,
    ensures
        forall|i: int|
            0 <= i < raster_row(v0, v1, v2, y, upto).len() ==> {
                let f = #[trigger] raster_row(v0, v1, v2, y, upto)[i];
                is_fragment_of(v0, v1, v2, f) && f.y == y && f.x < upto
            },
        forall|i: int, j: int|
            0 <= i < j < raster_row(v0, v1, v2, y, upto).len() ==> (#[trigger] raster_row(
                v0,
                v1,
                v2,
                y,
                upto,
            )[i]).x < (#[trigger] raster_row(v0, v1, v2, y, upto)[j]).x,
    decreases upto,
{
    let row = raster_row(v0, v1, v2, y, upto);
    if upto > 0 {
        lemma_row_sound(v0, v1, v2, y, upto - 1);
        let rest = raster_row(v0, v1, v2, y, upto - 1);
        let last = fragment_at(v0, v1, v2, upto - 1, y);
        assert(last.x == upto - 1 && last.y == y);
        assert forall|i: int| 0 <= i < row.len() implies {
            let f = #[trigger] row[i];
            is_fragment_of(v0, v1, v2, f) && f.y == y && f.x < upto
        } by {
            if i < rest.len() {
                assert(row[i] == rest[i]);
            } else {
                assert(row[i] == last);
            }
        }
        assert forall|i: int, j: int| 0 <= i < j < row.len() implies (#[trigger] row[i]).x < (
        #[trigger] row[j]).x by {
            assert(row[i] == rest[i]);
            if j < rest.len() {
                assert(row[j] == rest[j]);
            } else {
                assert(row[j] == last);
            }
        }
    }
}

proof fn lemma_row_complete(
    v0: TransformedVertex,
    v1: TransformedVertex,
    v2: TransformedVertex,
    y: int,
    upto: int,
    x: int,
)
    requires
        0 <= x < upto,
        covers(v0, v1, v2, x, y),
    ensures
        raster_row(v0, v1, v2, y, upto).contains(fragment_at(v0, v1, v2, x, y)),
    decreases upto,
{
    let row = raster_row(v0, v1, v2, y, upto);
    let rest = raster_row(v0, v1, v2, y, upto - 1);
    let f = fragment_at(v0, v1, v2, x, y);
    if x == upto - 1 {
        assert(row[rest.len() as int] == f);
    } else {
        lemma_row_complete(v0, v1, v2, y, upto - 1, x);
        let i = choose|i: int| 0 <= i < rest.len() && rest[i] == f;
        assert(row[i] == f);
    }
}

/// Every fragment of a raster names a pixel of the canvas whose center the
/// triangle covers and carries what the triangle gives there; and the
/// fragments stand in the order of the scan, so no pixel occurs twice.
pub proof fn lemma_raster_sound(
    v0: TransformedVertex,
    v1: TransformedVertex,
    v2: TransformedVertex,
    width: int,
    height: int,
)
    requires
        0 <= width <= usize::MAX,
        height <= usize::MAX,
    ensures
        forall|i: int|
            0 <= i < raster(v0, v1, v2, width, height).len() ==> {
                let f = #[trigger] raster(v0, v1, v2, width, height)[i];
                is_fragment_of(v0, v1, v2, f) && f.x < width && f.y < height
            },
        forall|i: int, j: int|
            0 <= i < j < raster(v0, v1, v2, width, height).len() ==> scans_before(
                #[trigger] raster(v0, v1, v2, width, height)[i],
                #[trigger] raster(v0, v1, v2, width, height)[j],
            ),
    decreases height,
{
    if height > 0 {
        lemma_raster_sound(v0, v1, v2, width, height - 1);
        lemma_row_sound(v0, v1, v2, height - 1, width);
        let above = raster(v0, v1, v2, width, height - 1);
        let row = raster_row(v0, v1, v2, height - 1, width);
        let all = raster(v0, v1, v2, width, height);
        assert(all == above + row);
        assert forall|i: int| 0 <= i < all.len() implies {
            let f = #[trigger] all[i];
            is_fragment_of(v0, v1, v2, f) && f.x < width && f.y < height
        } by {
            if i < above.len() {
                assert(all[i] == above[i]);
            } else {
                assert(all[i] == row[i - above.len()]);
            }
        }
        assert forall|i: int, j: int| 0 <= i < j < all.len() implies scans_before(
            #[trigger] all[i],
            #[trigger] all[j],
        ) by {
            if j < above.len() {
                assert(all[i] == above[i]);
                assert(all[j] == above[j]);
            } else if i < above.len() {
                assert(all[i] == above[i]);
                assert(all[j] == row[j - above.len()]);
            } else {
                assert(all[i] == row[i - above.len()]);
                assert(all[j] == row[j - above.len()]);
            }
        }
    }
}

/// Every pixel of the canvas whose center the triangle covers has its
/// fragment in the raster.
pub proof fn lemma_raster_complete(
    v0: TransformedVertex,
    v1: TransformedVertex,
    v2: TransformedVertex,
    width: int,
    height: int,
    x: int,
    y: int,
)
    requires
        0 <= x < width,
        0 <= y < height,
        covers(v0, v1, v2, x, y),
    ensures
        raster(v0, v1, v2, width, height).contains(fragment_at(v0, v1, v2, x, y)),
    decreases height,
{
    let above = raster(v0, v1, v2, width, height - 1);
    let row = raster_row(v0, v1, v2, height - 1, width);
    let all = raster(v0, v1, v2, width, height);
    let f = fragment_at(v0, v1, v2, x, y);
    assert(all == above + row);
    if y == height - 1 {
        lemma_row_complete(v0, v1, v2, y, width, x);
        let i = choose|i: int| 0 <= i < row.len() && row[i] == f;
        assert(all[above.len() + i] == f);
    } else {
        lemma_raster_complete(v0, v1, v2, width, height - 1, x, y);
        let i = choose|i: int| 0 <= i < above.len() && above[i] == f;
        assert(all[i] == f);
    }
}

/// Coverage does not depend on which vertex of a triangle is given first:
/// the same three vertices in the same winding cover the same pixels.
pub proof fn lemma_coverage_rotation(
    v0: TransformedVertex,
    v1: TransformedVertex,
    v2: TransformedVertex,
    x: int,
    y: int,
)
    ensures
        signed_area(v1, v2, v0) == signed_area(v0, v1, v2),
        covers(v1, v2, v0, x, y) == covers(v0, v1, v2, x, y),
{
    lemma_weights_total(v0, v1, v2, center(x), center(y));
    lemma_weights_total(v1, v2, v0, center(x), center(y));
}

/// A triangle that cannot be drawn has no fragment on any canvas.
pub proof fn lemma_raster_of_undrawable(
    v0: TransformedVertex,
    v1: TransformedVertex,
    v2: TransformedVertex,
    width: int,
    height: int,
)
    requires
        !drawable(v0, v1, v2),
        0 <= width,
        0 <= height,
    ensures
        raster(v0, v1, v2, width, height) == Seq::<Fragment>::empty(),
{
    lemma_rows_skip(v0, v1, v2, width, 0, height);
}

proof fn lemma_blend_single(t: int, a0: int, a1: int, a2: int)
    requires
        t != 0,
    ensures
        (Weights { w0: t, w1: 0, w2: 0 }).blend(a0, a1, a2) == a0,
        (Weights { w0: 0, w1: t, w2: 0 }).blend(a0, a1, a2) == a1,
        (Weights { w0: 0, w1: 0, w2: t }).blend(a0, a1, a2) == a2,
{
    assert((t * a0) / t == a0 && (t * a1) / t == a1 && (t * a2) / t == a2) by (nonlinear_arith)
        requires
            t != 0,
    ;
    assert(0 * a0 == 0 && 0 * a1 == 0 && 0 * a2 == 0);
}

/// The weights of a triangle at its own vertices: the whole area on the
/// vertex, nothing on the two others.
pub proof fn lemma_weights_at_vertices(
    v0: TransformedVertex,
    v1: TransformedVertex,
    v2: TransformedVertex,
)
    ensures
        weights_at(v0, v1, v2, v0.screen_position.x as int, v0.screen_position.y as int) == (
        Weights { w0: signed_area(v0, v1, v2), w1: 0, w2: 0 }),
        weights_at(v0, v1, v2, v1.screen_position.x as int, v1.screen_position.y as int) == (
        Weights { w0: 0, w1: signed_area(v0, v1, v2), w2: 0 }),
        weights_at(v0, v1, v2, v2.screen_position.x as int, v2.screen_position.y as int) == (
        Weights { w0: 0, w1: 0, w2: signed_area(v0, v1, v2) }),
{
    let x0 = v0.screen_position.x as int;
    let y0 = v0.screen_position.y as int;
    let x1 = v1.screen_position.x as int;
    let y1 = v1.screen_position.y as int;
    let x2 = v2.screen_position.x as int;
    let y2 = v2.screen_position.y as int;
    lemma_edge_sum(x0, y0, x1, y1, x2, y2, x0, y0);
    lemma_edge_sum(x0, y0, x1, y1, x2, y2, x1, y1);
    lemma_edge_sum(x0, y0, x1, y1, x2, y2, x2, y2);
    assert(edge(x0, y0, x1, y1, x0, y0) == 0) by (nonlinear_arith);
    assert(edge(x2, y2, x0, y0, x0, y0) == 0) by (nonlinear_arith);
    assert(edge(x1, y1, x2, y2, x1, y1) == 0) by (nonlinear_arith);
    assert(edge(x0, y0, x1, y1, x1, y1) == 0) by (nonlinear_arith);
    assert(edge(x1, y1, x2, y2, x2, y2) == 0) by (nonlinear_arith);
    assert(edge(x2, y2, x0, y0, x2, y2) == 0) by (nonlinear_arith);
}

/// Interpolation is exact at the vertices: with the weights of a vertex's own
/// screen position, every interpolated attribute of a triangle with area is
/// that vertex's attribute.
pub proof fn lemma_interpolation_exact_at_vertices(
    v0: TransformedVertex,
    v1: TransformedVertex,
    v2: TransformedVertex,
    x: int,
    y: int,
)
    requires
        signed_area(v0, v1, v2) != 0,
    ensures
        ({
            let f = interpolated(
                v0,
                v1,
                v2,
                weights_at(v0, v1, v2, v0.screen_position.x as int, v0.screen_position.y as int),
                x,
                y,
            );
            &&& f.depth == v0.screen_position.z
            &&& f.world_position == v0.vertex.position
            &&& f.normal == v0.world_normal
            &&& f.intensity == v0.intensity
            &&& f.base_color == v0.vertex.color
        }),
        ({
            let f = interpolated(
                v0,
                v1,
                v2,
                weights_at(v0, v1, v2, v1.screen_position.x as int, v1.screen_position.y as int),
                x,
                y,
            );
            &&& f.depth == v1.screen_position.z
            &&& f.world_position == v1.vertex.position
            &&& f.normal == v1.world_normal
            &&& f.intensity == v1.intensity
            &&& f.base_color == v1.vertex.color
        }),
        ({
            let f = interpolated(
                v0,
                v1,
                v2,
                weights_at(v0, v1, v2, v2.screen_position.x as int, v2.screen_position.y as int),
                x,
                y,
            );
            &&& f.depth == v2.screen_position.z
            &&& f.world_position == v2.vertex.position
            &&& f.normal == v2.world_normal
            &&& f.intensity == v2.intensity
            &&& f.base_color == v2.vertex.color
        }),
{
    let t = signed_area(v0, v1, v2);
    lemma_weights_at_vertices(v0, v1, v2);
    lemma_blend_single(
        t,
        v0.screen_position.z as int,
        v1.screen_position.z as int,
        v2.screen_position.z as int,
    );
    lemma_blend_single(t, v0.intensity as int, v1.intensity as int, v2.intensity as int);
    lemma_blend_single(
        t,
        v0.vertex.position.x as int,
        v1.vertex.position.x as int,
        v2.vertex.position.x as int,
    );
    lemma_blend_single(
        t,
        v0.vertex.position.y as int,
        v1.vertex.position.y as int,
        v2.vertex.position.y as int,
    );
    lemma_blend_single(
        t,
        v0.vertex.position.z as int,
        v1.vertex.position.z as int,
        v2.vertex.position.z as int,
    );
    lemma_blend_single(t, v0.world_normal.x as int, v1.world_normal.x as int, v2.world_normal.x as int);
    lemma_blend_single(t, v0.world_normal.y as int, v1.world_normal.y as int, v2.world_normal.y as int);
    lemma_blend_single(t, v0.world_normal.z as int, v1.world_normal.z as int, v2.world_normal.z as int);
    lemma_blend_single(t, v0.vertex.color.r as int, v1.vertex.color.r as int, v2.vertex.color.r as int);
    lemma_blend_single(t, v0.vertex.color.g as int, v1.vertex.color.g as int, v2.vertex.color.g as int);
    lemma_blend_single(t, v0.vertex.color.b as int, v1.vertex.color.b as int, v2.vertex.color.b as int);
}

} // verus!
