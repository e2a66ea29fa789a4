//! The cost plot: two axes and the cost curve, coloured by relative cost.
use vstd::prelude::*;
use vstd::arithmetic::div_mod::lemma_multiply_divide_le;
use vstd::arithmetic::mul::lemma_mul_inequality;

use crate::draw::{Point, Segment, Stroke};
use crate::layout::{ratio, ratio_of, Rect};

verus! {

/// Padding inside a widget, in thousandths of its size.
pub const WIDGET_PAD: u32 = 50;

/// Horizontal padding inside widget box `r`.
pub open spec fn pad_x(r: Rect) -> int {
    ratio_of(r.w as nat, WIDGET_PAD as nat) as int
}

/// Vertical padding inside widget box `r`.
pub open spec fn pad_y(r: Rect) -> int {
    ratio_of(r.h as nat, WIDGET_PAD as nat) as int
}

/// The x of the vertical axis.
pub open spec fn wall(r: Rect) -> int {
    r.x + pad_x(r)
}

/// The x where the horizontal axis ends: the right padding inset.
pub open spec fn right(r: Rect) -> int {
    r.x + r.w - pad_x(r)
}

/// The y of the horizontal axis.
pub open spec fn floor(r: Rect) -> int {
    r.y + r.h - pad_y(r)
}

/// The y where the vertical axis ends.
pub open spec fn top(r: Rect) -> int {
    r.y + 2 * pad_y(r)
}

/// The two axes, vertical first, both drawn towards the origin corner.
pub open spec fn axes(r: Rect) -> Seq<Segment> {
    let origin = Point { x: wall(r) as i64, y: floor(r) as i64 };
    seq![
        Segment { from: Point { x: wall(r) as i64, y: top(r) as i64 }, to: origin, stroke: Stroke::Axis },
        Segment { from: Point { x: right(r) as i64, y: floor(r) as i64 }, to: origin, stroke: Stroke::Axis },
    ]
}

/// The largest entry of `s`, zero for an empty one.
pub open spec fn seq_max(s: Seq<u64>) -> u64
    decreases s.len(),
{
    if s.len() == 0 {
        0
    } else if s.last() >= seq_max(s.drop_last()) {
        s.last()
    } else {
        seq_max(s.drop_last())
    }
}

/// `cost` as a share of `max`, scaled to `span`; zero when `max` is zero.
pub open spec fn share(cost: u64, max: u64, span: int) -> int {
    if max == 0 {
        0
    } else {
        (cost * span) / (max as int)
    }
}

/// Where cost `i` of `costs` stands in the plot of box `r`.
pub open spec fn cost_point(r: Rect, costs: Seq<u64>, i: int) -> Point {
    Point {
        x: (wall(r) + (i + 1) * (right(r) - wall(r)) / (costs.len() as int)) as i64,
        y: (floor(r) - share(costs[i], seq_max(costs), floor(r) - top(r))) as i64,
    }
}

/// The colour of the stretch that ends at cost `i`: the redder, the nearer
/// that cost is to the largest one.
pub open spec fn cost_stroke(costs: Seq<u64>, i: int) -> Stroke {
    let red = share(costs[i], seq_max(costs), 255);
    Stroke::Cost { red: red as u8, green: (255 - red) as u8 }
}

/// The axes of box `r`, then one stretch per pair of consecutive costs.
pub open spec fn cost_plot_of(r: Rect, costs: Seq<u64>) -> Seq<Segment> {
    axes(r) + Seq::new(
        if costs.len() == 0 { 0 } else { (costs.len() - 1) as nat },
        |i: int| Segment { from: cost_point(r, costs, i), to: cost_point(r, costs, i + 1), stroke: cost_stroke(costs, i + 1) },
    )
}

/// The largest cost, zero for none.
pub fn max_cost(costs: &Vec<u64>) -> (r: u64)
    ensures
        r == seq_max(costs@),
        forall|i: int| 0 <= i < costs@.len() ==> costs@[i] <= r,
{
    let mut best: u64 = 0;
    let mut i: usize = 0;
    while i < costs.len()
        invariant
            0 <= i <= costs@.len(),
            best == seq_max(costs@.take(i as int)),
            forall|j: int| 0 <= j < i ==> costs@[j] <= best,
        decreases costs@.len() - i,
    {
        assert(costs@.take(i as int + 1).drop_last() =~= costs@.take(i as int));
        if costs[i] >= best {
            best = costs[i];
        }
        i = i + 1;
    }
    assert(costs@.take(costs@.len() as int) =~= costs@);
    best
}

fn share_exec(cost: u64, max: u64, span: u32) -> (r: u32)
    requires
        cost <= max,
    ensures
        r == share(cost, max, span as int),
        r <= span,
{
    if max == 0 {
        0
    } else {
        proof {
            lemma_mul_inequality(cost as int, max as int, span as int);
            assert(max * span == span * max) by (nonlinear_arith);
            lemma_multiply_divide_le((cost * span) as int, max as int, span as int);
            assert(cost * span <= u64::MAX * u32::MAX) by (nonlinear_arith)
                requires
                    cost <= u64::MAX,
                    span <= u32::MAX,
            ;
        }
        ((cost as u128) * (span as u128) / (max as u128)) as u32
    }
}

/// The draw list of a cost plot in box `r`: the axes alone for no cost.
pub fn cost_plot(r: Rect, costs: &Vec<u64>) -> (out: Vec<Segment>)
    requires
        r.x + r.w <= u32::MAX,
        r.y + r.h <= u32::MAX,
    ensures
        out@ == cost_plot_of(r, costs@),
{
    let px = ratio(r.w, WIDGET_PAD);
    let py = ratio(r.h, WIDGET_PAD);
    assert(3 * py <= r.h) by (nonlinear_arith)
        requires
            py == r.h * 50 / 1000,
    ;
    assert(2 * px <= r.w) by (nonlinear_arith)
        requires
            px == r.w * 50 / 1000,
    ;
    let wall_x: i64 = r.x as i64 + px as i64;
    let right_x: i64 = r.x as i64 + r.w as i64 - px as i64;
    let floor_y: i64 = r.y as i64 + r.h as i64 - py as i64;
    let top_y: i64 = r.y as i64 + 2 * py as i64;
    let plot_w: u32 = r.w - 2 * px;
    let plot_h: u32 = r.h - 3 * py;
    let origin = Point { x: wall_x, y: floor_y };
    let mut out: Vec<Segment> = Vec::new();
    out.push(Segment { from: Point { x: wall_x, y: top_y }, to: origin, stroke: Stroke::Axis });
    out.push(Segment { from: Point { x: right_x, y: floor_y }, to: origin, stroke: Stroke::Axis });
    let n = costs.len();
    if n == 0 {
        assert(out@ =~= cost_plot_of(r, costs@));
        return out;
    }
    let max = max_cost(costs);
    let ghost want = cost_plot_of(r, costs@);
    let first: u128 = (plot_w as u128) / (n as u128);
    assert(first <= plot_w) by {
        assert(plot_w <= n * plot_w) by (nonlinear_arith)
            requires
                n >= 1,
        ;
        lemma_multiply_divide_le(plot_w as int, n as int, plot_w as int);
    }
    let mut prev = Point { x: wall_x + first as i64, y: floor_y - share_exec(costs[0], max, plot_h) as i64 };
    assert(prev == cost_point(r, costs@, 0)) by {
        assert((0 + 1) * (plot_w as int) == plot_w) by (nonlinear_arith);
    }
    let mut i: usize = 1;
    while i < n
        invariant
            1 <= i <= n,
            n == costs@.len(),
            max == seq_max(costs@),
            forall|j: int| 0 <= j < n ==> costs@[j] <= max,
            wall_x == wall(r),
            floor_y == floor(r),
            plot_w == right(r) - wall(r),
            plot_h == floor(r) - top(r),
            plot_w <= u32::MAX,
            r.x + r.w <= u32::MAX,
            r.y + r.h <= u32::MAX,
            prev == cost_point(r, costs@, i - 1),
            want == cost_plot_of(r, costs@),
            out@ =~= want.take(i as int + 1),
        decreases n - i,
    {
        proof {
            lemma_mul_inequality((i + 1) as int, n as int, plot_w as int);
            assert(n * plot_w == plot_w * n) by (nonlinear_arith);
            lemma_multiply_divide_le(((i + 1) * plot_w) as int, n as int, plot_w as int);
            assert((i + 1) * plot_w <= usize::MAX * u32::MAX) by (nonlinear_arith)
                requires
                    i + 1 <= usize::MAX,
                    plot_w <= u32::MAX,
            ;
        }
        let step: u128 = ((i as u128) + 1) * (plot_w as u128) / (n as u128);
        let next = Point { x: wall_x + step as i64, y: floor_y - share_exec(costs[i], max, plot_h) as i64 };
        let red = share_exec(costs[i], max, 255);
        let seg = Segment { from: prev, to: next, stroke: Stroke::Cost { red: red as u8, green: (255 - red) as u8 } };
        assert(seg == want[i as int + 1]);
        out.push(seg);
        prev = next;
        i = i + 1;
    }
    assert(out@ =~= want);
    out
}

} // verus!
