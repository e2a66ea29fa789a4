//! The output graph: the reference function and the network's output over
//! the same inputs, on one shared vertical scale, clipped to the plot.
use vstd::prelude::*;
use vstd::arithmetic::div_mod::lemma_multiply_divide_le;
use vstd::arithmetic::mul::lemma_mul_inequality;

use crate::draw::{Point, Segment, Stroke};
use crate::layout::{ratio, Rect};
use crate::plot::{axes, floor, right, top, wall, WIDGET_PAD};
use crate::UNIT;

verus! {

pub open spec fn abs(v: int) -> int {
    if v < 0 {
        -v
    } else {
        v
    }
}

/// The largest magnitude in `s`, zero for none.
pub open spec fn max_abs(s: Seq<i64>) -> int
    decreases s.len(),
{
    if s.len() == 0 {
        0
    } else if abs(s.last() as int) >= max_abs(s.drop_last()) {
        abs(s.last() as int)
    } else {
        max_abs(s.drop_last())
    }
}

/// The vertical scale shared by both curves: the reference's largest
/// magnitude plus one, so that it is never zero.
pub open spec fn graph_scale(reference: Seq<i64>) -> int {
    max_abs(reference) + UNIT
}

/// Half the plot height: a value of `scale` is drawn this far above the
/// middle line.
pub open spec fn half_height(r: Rect) -> int {
    (floor(r) - top(r)) / 2
}

/// How far above the middle line value `v` is drawn, held within one pixel
/// past the plot height either way.
pub open spec fn offset_of(r: Rect, v: int, scale: int) -> int {
    let m = abs(v) * half_height(r) / scale;
    let limit = floor(r) - top(r) + 1;
    let held = if m > limit { limit } else { m };
    if v < 0 {
        -held
    } else {
        held
    }
}

/// Sample `t` of `n` values `v` as a point of the graph in box `r`.
pub open spec fn graph_point(r: Rect, v: Seq<i64>, n: int, scale: int, t: int) -> Point {
    Point {
        x: (wall(r) + t * (right(r) - wall(r)) / (n - 1)) as i64,
        y: (floor(r) - half_height(r) - offset_of(r, v[t] as int, scale)) as i64,
    }
}

/// The line through the first `n` samples of `v`.
pub open spec fn polyline(r: Rect, v: Seq<i64>, n: int, scale: int, stroke: Stroke) -> Seq<Segment> {
    Seq::new(
        if n >= 2 { (n - 1) as nat } else { 0 },
        |t: int| Segment { from: graph_point(r, v, n, scale, t), to: graph_point(r, v, n, scale, t + 1), stroke: stroke },
    )
}

/// `p` lies in the plot area of box `r`, its border included.
pub open spec fn inside(r: Rect, p: Point) -> bool {
    wall(r) <= p.x <= right(r) && top(r) <= p.y <= floor(r)
}

/// The segments of `s` that lie wholly in the plot area, in order.
pub open spec fn visible(r: Rect, s: Seq<Segment>) -> Seq<Segment>
    decreases s.len(),
{
    if s.len() == 0 {
        s
    } else if inside(r, s.last().from) && inside(r, s.last().to) {
        visible(r, s.drop_last()).push(s.last())
    } else {
        visible(r, s.drop_last())
    }
}

/// The draw list of an output graph: nothing while either series is empty;
/// else the axes, the visible part of the reference curve, and the visible
/// part of the network's curve, over as many samples as both series have.
pub open spec fn graph_of(r: Rect, reference: Seq<i64>, outputs: Seq<i64>) -> Seq<Segment> {
    let n = if reference.len() <= outputs.len() { reference.len() as int } else { outputs.len() as int };
    let scale = graph_scale(reference);
    if n == 0 {
        Seq::empty()
    } else {
        axes(r) + visible(r, polyline(r, reference, n, scale, Stroke::Reference)) + visible(
            r,
            polyline(r, outputs, n, scale, Stroke::Network),
        )
    }
}

/// The largest magnitude in `s`.
pub fn largest_magnitude(s: &Vec<i64>) -> (m: u64)
    ensures
        m == max_abs(s@),
{
    let mut best: u64 = 0;
    let mut i: usize = 0;
    while i < s.len()
        invariant
            0 <= i <= s@.len(),
            best == max_abs(s@.take(i as int)),
        decreases s@.len() - i,
    {
        assert(s@.take(i as int + 1).drop_last() =~= s@.take(i as int));
        let v = s[i];
        let a: u64 = if v < 0 {
            ((0 - (v as i128)) as u64)
        } else {
            v as u64
        };
        if a >= best {
            best = a;
        }
        i = i + 1;
    }
    assert(s@.take(s@.len() as int) =~= s@);
    best
}

/// The geometry that every point of one graph shares.
struct Frame {
    wall: i64,
    width: u32,
    middle: i64,
    half: u32,
    limit: u32,
    scale: u128,
}

spec fn frame_fits(f: Frame, r: Rect, scale: int) -> bool {
    &&& f.wall == wall(r)
    &&& f.width == right(r) - wall(r)
    &&& f.middle == floor(r) - half_height(r)
    &&& f.half == half_height(r)
    &&& f.limit == floor(r) - top(r) + 1
    &&& f.scale == scale
    &&& scale > 0
    &&& r.x + r.w <= u32::MAX
    &&& r.y + r.h <= u32::MAX
}

fn point(f: &Frame, v: i64, n: usize, t: usize, Ghost(r): Ghost<Rect>, Ghost(s): Ghost<Seq<i64>>) -> (p: Point)
    requires
        frame_fits(*f, r, f.scale as int),
        2 <= n,
        t < n,
        t < s.len(),
        s[t as int] == v,
    ensures
        p == graph_point(r, s, n as int, f.scale as int, t as int),
{
    proof {
        lemma_mul_inequality(t as int, (n - 1) as int, f.width as int);
        assert((n - 1) * f.width == f.width * (n - 1)) by (nonlinear_arith);
        lemma_multiply_divide_le((t * f.width) as int, (n - 1) as int, f.width as int);
        assert(t * f.width <= usize::MAX * u32::MAX) by (nonlinear_arith)
            requires
                t <= usize::MAX,
                f.width <= u32::MAX,
        ;
    }
    let x = f.wall + ((t as u128) * (f.width as u128) / ((n - 1) as u128)) as i64;
    let a: u128 = if v < 0 {
        (0 - (v as i128)) as u128
    } else {
        v as u128
    };
    assert(a * f.half <= 0x8000_0000_0000_0000 * u32::MAX) by (nonlinear_arith)
        requires
            a <= 0x8000_0000_0000_0000,
            f.half <= u32::MAX,
    ;
    let m: u128 = a * (f.half as u128) / f.scale;
    let held: u32 = if m > f.limit as u128 {
        f.limit
    } else {
        m as u32
    };
    let off: i64 = if v < 0 {
        -(held as i64)
    } else {
        held as i64
    };
    Point { x, y: f.middle - off }
}

/// Appends the visible part of the line through the first `n` samples of
/// `v` to `out`.
fn trace(f: &Frame, v: &Vec<i64>, n: usize, stroke: Stroke, out: &mut Vec<Segment>, Ghost(r): Ghost<Rect>)
    requires
        frame_fits(*f, r, f.scale as int),
        n <= v@.len(),
    ensures
        final(out)@ == old(out)@ + visible(r, polyline(r, v@, n as int, f.scale as int, stroke)),
{
    let ghost line = polyline(r, v@, n as int, f.scale as int, stroke);
    let ghost start = old(out)@;
    if n < 2 {
        assert(line.len() == 0);
        assert(old(out)@ + visible(r, line) =~= old(out)@);
        return;
    }
    let left: i64 = f.wall;
    let right_x: i64 = f.wall + f.width as i64;
    let floor_y: i64 = f.middle + f.half as i64;
    let top_y: i64 = floor_y - (f.limit as i64 - 1);
    let mut prev = point(f, v[0], n, 0, Ghost(r), Ghost(v@));
    let mut t: usize = 1;
    while t < n
        invariant
            1 <= t <= n,
            2 <= n <= v@.len(),
            frame_fits(*f, r, f.scale as int),
            line == polyline(r, v@, n as int, f.scale as int, stroke),
            prev == graph_point(r, v@, n as int, f.scale as int, t - 1),
            left == wall(r),
            right_x == right(r),
            top_y == top(r),
            floor_y == floor(r),
            out@ == start + visible(r, line.take(t - 1)),
        decreases n - t,
    {
        let next = point(f, v[t], n, t, Ghost(r), Ghost(v@));
        let seg = Segment { from: prev, to: next, stroke };
        assert(line.take(t as int).drop_last() =~= line.take(t - 1));
        assert(seg == line[t - 1]);
        if left <= prev.x && prev.x <= right_x && top_y <= prev.y && prev.y <= floor_y && left <= next.x
            && next.x <= right_x && top_y <= next.y && next.y <= floor_y {
            out.push(seg);
        }
        assert(out@ =~= start + visible(r, line.take(t as int)));
        prev = next;
        t = t + 1;
    }
    assert(line.take(n - 1) =~= line);
}

/// The draw list of an output graph in box `r`.
pub fn output_graph(r: Rect, reference: &Vec<i64>, outputs: &Vec<i64>) -> (out: Vec<Segment>)
    requires
        r.x + r.w <= u32::MAX,
        r.y + r.h <= u32::MAX,
    ensures
        out@ == graph_of(r, reference@, outputs@),
{
    let n: usize = if reference.len() <= outputs.len() {
        reference.len()
    } else {
        outputs.len()
    };
    if n == 0 {
        return Vec::new();
    }
    let px = ratio(r.w, WIDGET_PAD);
    let py = ratio(r.h, WIDGET_PAD);
    assert(3 * py <= r.h) by (nonlinear_arith)
        requires
            py == r.h * 50 / 1000,
    ;
    assert(2 * px <= r.w) by (nonlinear_arith)
        requires
            px == r.w * 50 / 1000,
    ;
    let wall_x: i64 = r.x as i64 + px as i64;
    let right_x: i64 = r.x as i64 + r.w as i64 - px as i64;
    let floor_y: i64 = r.y as i64 + r.h as i64 - py as i64;
    let top_y: i64 = r.y as i64 + 2 * py as i64;
    let plot_h: u32 = r.h - 3 * py;
    let half: u32 = plot_h / 2;
    let scale: u128 = largest_magnitude(reference) as u128 + UNIT as u128;
    let f = Frame {
        wall: wall_x,
        width: r.w - 2 * px,
        middle: floor_y - half as i64,
        half,
        limit: plot_h + 1,
        scale,
    };
    let origin = Point { x: wall_x, y: floor_y };
    let mut out: Vec<Segment> = Vec::new();
    out.push(Segment { from: Point { x: wall_x, y: top_y }, to: origin, stroke: Stroke::Axis });
    out.push(Segment { from: Point { x: right_x, y: floor_y }, to: origin, stroke: Stroke::Axis });
    assert(out@ =~= axes(r));
    trace(&f, reference, n, Stroke::Reference, &mut out, Ghost(r));
    trace(&f, outputs, n, Stroke::Network, &mut out, Ghost(r));
    out
}

} // verus!
