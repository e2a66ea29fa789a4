//! Space partitioning: the canvas into a row of sections, a section into a
//! column of widgets.
use vstd::prelude::*;
use vstd::arithmetic::div_mod::{
    lemma_div_is_ordered, lemma_div_multiples_vanish, lemma_fundamental_div_mod,
    lemma_multiply_divide_le,
};
use vstd::arithmetic::mul::lemma_mul_inequality;

verus! {

/// A run of pixels along one axis.
#[derive(Clone, Copy, Debug, PartialEq, Eq, Structural)]
pub struct Span {
    pub start: u32,
    pub len: u32,
}

/// An axis-aligned box, given by its top-left corner and its size.
#[derive(Clone, Copy, Debug, PartialEq, Eq, Structural)]
pub struct Rect {
    pub x: u32,
    pub y: u32,
    pub w: u32,
    pub h: u32,
}

/// A layout request that cannot be met.
#[derive(Clone, Copy, Debug, PartialEq, Eq, Structural)]
pub enum LayoutError {
    /// Zero regions were asked for.
    Empty,
    /// The regions asked for are narrower than their padding.
    Crowded,
}

/// Ratios are given in thousandths of a length.
pub const PER_MILLE: u32 = 1000;

/// Padding around each section, as a fraction of the canvas width.
pub const CANVAS_PAD_X: u32 = 10;

/// Padding around each section, as a fraction of the canvas height.
pub const CANVAS_PAD_Y: u32 = 20;

/// Height of the title strip at the top of the canvas.
pub const HEADER: u32 = 120;

/// Width of the statistics strip at the left of the canvas.
pub const SIDEBAR: u32 = 200;

/// Padding around each widget, as a fraction of its section's size.
pub const SECTION_PAD: u32 = 50;

/// `permille` thousandths of `len`, rounded down.
pub open spec fn ratio_of(len: nat, permille: nat) -> nat {
    len * permille / 1000
}

/// Where slot `i` of `count` equal slots over `total` pixels begins.
pub open spec fn cut(total: nat, count: nat, i: nat) -> nat
    recommends
        count > 0,
{
    i * total / count
}

/// The length of slot `i` of `count` over `total` pixels: the floor or the
/// ceiling of `total / count`.
pub open spec fn slot_len(total: nat, count: nat, i: nat) -> int {
    cut(total, count, i + 1) - cut(total, count, i)
}

/// `s` splits `total` pixels from `start` into `count` slots, each one
/// starting with `pad` pixels of padding.
pub open spec fn spans_match(s: Seq<Span>, start: nat, total: nat, count: nat, pad: nat) -> bool {
    &&& s.len() == count
    &&& forall|i: int|
        0 <= i < count ==> {
            &&& (#[trigger] s[i]).start == start + cut(total, count, i as nat) + pad
            &&& s[i].len + pad == slot_len(total, count, i as nat)
        }
}

pub open spec fn seq_sum(s: Seq<nat>) -> nat
    decreases s.len(),
{
    if s.len() == 0 {
        0
    } else {
        seq_sum(s.drop_last()) + s.last()
    }
}

/// `permille` thousandths of `len`, rounded down.
pub fn ratio(len: u32, permille: u32) -> (r: u32)
    requires
        permille <= PER_MILLE,
    ensures
        r == ratio_of(len as nat, permille as nat),
        r <= len,
{
    proof {
        lemma_mul_inequality(permille as int, 1000, len as int);
        lemma_multiply_divide_le((len * permille) as int, 1000, len as int);
    }
    ((len as u64) * (permille as u64) / 1000) as u32
}

proof fn lemma_cut_bounds(total: nat, count: nat, i: nat)
    requires
        count > 0,
        i <= count,
    ensures
        cut(total, count, i) <= total,
        i < count ==> cut(total, count, i) <= cut(total, count, i + 1),
        cut(total, count, 0) == 0,
        cut(total, count, count) == total,
{
    lemma_mul_inequality(i as int, count as int, total as int);
    assert(count * total == total * count) by (nonlinear_arith);
    lemma_multiply_divide_le((i * total) as int, count as int, total as int);
    if i < count {
        assert((i + 1) * total == i * total + total) by (nonlinear_arith);
        lemma_div_is_ordered((i * total) as int, ((i + 1) * total) as int, count as int);
    }
    lemma_div_multiples_vanish(total as int, count as int);
    assert(0 * total == 0) by (nonlinear_arith);
}

/// Each slot is at least `total / count` long.
proof fn lemma_slot_at_least_quotient(total: nat, count: nat, i: nat)
    requires
        count > 0,
    ensures
        slot_len(total, count, i) >= total / count,
{
    let a = i * total;
    assert((i + 1) * total == a + total) by (nonlinear_arith)
        requires
            a == i * total,
    ;
    lemma_fundamental_div_mod(a as int, count as int);
    lemma_fundamental_div_mod(total as int, count as int);
    let q = a / count + total / count;
    assert(count * q == count * (a / count) + count * (total / count)) by (nonlinear_arith)
        requires
            q == a / count + total / count,
    ;
    lemma_div_is_ordered((count * q) as int, (a + total) as int, count as int);
    assert(count * q == q * count) by (nonlinear_arith);
    lemma_div_multiples_vanish(q as int, count as int);
}

/// With `pad * count <= total`, every slot holds its padding.
proof fn lemma_slot_holds_pad(total: nat, count: nat, pad: nat, i: nat)
    requires
        count > 0,
        pad * count <= total,
    ensures
        slot_len(total, count, i) >= pad,
{
    lemma_slot_at_least_quotient(total, count, i);
    lemma_div_is_ordered((pad * count) as int, total as int, count as int);
    assert(pad * count == count * pad) by (nonlinear_arith);
    lemma_div_multiples_vanish(pad as int, count as int);
}

/// Splits `total` pixels from `start` into `count` slots whose lengths
/// differ by at most one, each one starting with `pad` pixels of padding.
pub fn split_span(start: u32, total: u32, count: usize, pad: u32) -> (r: Result<
    Vec<Span>,
    LayoutError,
>)
    requires
        start + total <= u32::MAX,
    ensures
        r == Err::<Vec<Span>, LayoutError>(LayoutError::Empty) <==> count == 0,
        r == Err::<Vec<Span>, LayoutError>(LayoutError::Crowded) <==> (count > 0 && pad * count
            > total),
        r is Ok <==> (count > 0 && pad * count <= total),
        r is Ok ==> spans_match(r->Ok_0@, start as nat, total as nat, count as nat, pad as nat),
{
    if count == 0 {
        return Err(LayoutError::Empty);
    }
    assert(pad * count <= u32::MAX * usize::MAX) by (nonlinear_arith)
        requires
            pad <= u32::MAX,
            count <= usize::MAX,
    ;
    if (pad as u128) * (count as u128) > total as u128 {
        return Err(LayoutError::Crowded);
    }
    let ghost (t, n, p) = (total as nat, count as nat, pad as nat);
    let mut spans: Vec<Span> = Vec::new();
    let mut prev: u32 = 0;
    let mut i: usize = 0;
    while i < count
        invariant
            0 <= i <= count,
            n == count,
            t == total,
            p == pad,
            pad * count <= total,
            start + total <= u32::MAX,
            prev == cut(t, n, i as nat),
            spans@.len() == i,
            forall|j: int|
                0 <= j < i ==> {
                    &&& (#[trigger] spans@[j]).start == start + cut(t, n, j as nat) + p
                    &&& spans@[j].len + p == slot_len(t, n, j as nat)
                },
        decreases count - i,
    {
        proof {
            lemma_cut_bounds(t, n, i as nat);
            lemma_cut_bounds(t, n, (i + 1) as nat);
            lemma_slot_holds_pad(t, n, p, i as nat);
        }
        assert((i + 1) * total <= usize::MAX * u32::MAX) by (nonlinear_arith)
            requires
                i < count <= usize::MAX,
                total <= u32::MAX,
        ;
        let next_wide: u128 = ((i as u128) + 1) * (total as u128) / (count as u128);
        assert(next_wide == cut(t, n, (i + 1) as nat));
        let next = next_wide as u32;
        spans.push(Span { start: start + prev + pad, len: next - prev - pad });
        prev = next;
        i = i + 1;
    }
    proof {
        lemma_cut_bounds(t, n, 0);
    }
    Ok(spans)
}

proof fn lemma_prefix_sum(lens: Seq<nat>, total: nat, count: nat, pad: nat, k: nat)
    requires
        count > 0,
        k <= count,
        lens.len() == count,
        forall|i: int| 0 <= i < count ==> #[trigger] lens[i] + pad == slot_len(total, count, i as nat),
    ensures
        seq_sum(lens.take(k as int)) + k * pad == cut(total, count, k),
    decreases k,
{
    if k == 0 {
        lemma_cut_bounds(total, count, 0);
        assert(lens.take(0) =~= Seq::<nat>::empty());
        assert(0 * pad == 0) by (nonlinear_arith);
    } else {
        let j = (k - 1) as nat;
        lemma_prefix_sum(lens, total, count, pad, j);
        assert(lens.take(k as int).drop_last() =~= lens.take(j as int));
        assert(k * pad == j * pad + pad) by (nonlinear_arith)
            requires
                j + 1 == k,
        ;
        assert(lens[j as int] + pad == slot_len(total, count, j));
    }
}

/// Padded slots and their padding add up to the whole length they split.
pub proof fn lemma_padded_slots_sum(lens: Seq<nat>, total: nat, count: nat, pad: nat)
    requires
        count > 0,
        lens.len() == count,
        forall|i: int| 0 <= i < count ==> #[trigger] lens[i] + pad == slot_len(total, count, i as nat),
    ensures
        seq_sum(lens) + count * pad == total,
{
    lemma_prefix_sum(lens, total, count, pad, count);
    assert(lens.take(count as int) =~= lens);
    lemma_cut_bounds(total, count, count);
}

/// Width of the statistics strip of a canvas `width` pixels wide.
pub open spec fn sidebar_of(width: nat) -> nat {
    ratio_of(width, SIDEBAR as nat)
}

/// Height of the title strip of a canvas `height` pixels high.
pub open spec fn header_of(height: nat) -> nat {
    ratio_of(height, HEADER as nat)
}

/// Horizontal padding of each section on a canvas `width` pixels wide.
pub open spec fn canvas_pad_x(width: nat) -> nat {
    ratio_of(width, CANVAS_PAD_X as nat)
}

/// Vertical padding of each section on a canvas `height` pixels high.
pub open spec fn canvas_pad_y(height: nat) -> nat {
    ratio_of(height, CANVAS_PAD_Y as nat)
}

/// The width that the sections share: all but the statistics strip.
pub open spec fn sections_span(width: nat) -> nat {
    (width - sidebar_of(width)) as nat
}

/// `rects` are the `count` sections of a `width` x `height` canvas: side by
/// side right of the statistics strip, each as high as the canvas below the
/// title strip, each preceded by the canvas padding.
pub open spec fn sections_fit(rects: Seq<Rect>, width: nat, height: nat, count: nat) -> bool {
    let side = sidebar_of(width);
    let pad_x = canvas_pad_x(width);
    let top = header_of(height) + canvas_pad_y(height);
    &&& rects.len() == count
    &&& forall|i: int|
        0 <= i < count ==> {
            &&& (#[trigger] rects[i]).x == side + cut(sections_span(width), count, i as nat)
                + pad_x
            &&& rects[i].w + pad_x == slot_len(sections_span(width), count, i as nat)
            &&& rects[i].y == top
            &&& rects[i].h + top == height
        }
}

/// The sections of a `width` x `height` canvas, one per entry asked for.
pub fn canvas_sections(width: u32, height: u32, count: usize) -> (r: Result<
    Vec<Rect>,
    LayoutError,
>)
    ensures
        r == Err::<Vec<Rect>, LayoutError>(LayoutError::Empty) <==> count == 0,
        r == Err::<Vec<Rect>, LayoutError>(LayoutError::Crowded) <==> (count > 0
            && canvas_pad_x(width as nat) * count > sections_span(width as nat)),
        r is Ok <==> (count > 0 && canvas_pad_x(width as nat) * count <= sections_span(width as nat)),
        r is Ok ==> sections_fit(r->Ok_0@, width as nat, height as nat, count as nat),
        r is Ok ==> forall|i: int| 0 <= i < count ==> rect_in_range(#[trigger] r->Ok_0@[i]),
{
    let side = ratio(width, SIDEBAR);
    let pad_x = ratio(width, CANVAS_PAD_X);
    let header = ratio(height, HEADER);
    let pad_y = ratio(height, CANVAS_PAD_Y);
    assert(header + pad_y <= height) by (nonlinear_arith)
        requires
            header == height * 120 / 1000,
            pad_y == height * 20 / 1000,
    ;
    let spans = match split_span(side, width - side, count, pad_x) {
        Ok(s) => s,
        Err(e) => {
            return Err(e);
        },
    };
    let top = header + pad_y;
    let h = height - top;
    let mut rects: Vec<Rect> = Vec::new();
    let mut i: usize = 0;
    while i < spans.len()
        invariant
            0 <= i <= spans@.len(),
            spans_match(spans@, side as nat, (width - side) as nat, count as nat, pad_x as nat),
            h + top == height,
            rects@.len() == i,
            forall|j: int|
                0 <= j < i ==> (#[trigger] rects@[j]) == (Rect {
                    x: spans@[j].start,
                    w: spans@[j].len,
                    y: top,
                    h: h,
                }),
        decreases spans@.len() - i,
    {
        let s = spans[i];
        rects.push(Rect { x: s.start, w: s.len, y: top, h });
        i = i + 1;
    }
    proof {
        assert forall|j: int| 0 <= j < count implies rect_in_range(#[trigger] rects@[j]) by {
            lemma_cut_bounds((width - side) as nat, count as nat, (j + 1) as nat);
        }
    }
    Ok(rects)
}

/// Horizontal padding of each widget of `section`.
pub open spec fn section_pad_x(section: Rect) -> nat {
    ratio_of(section.w as nat, SECTION_PAD as nat)
}

/// Vertical padding of each widget of `section`.
pub open spec fn section_pad_y(section: Rect) -> nat {
    ratio_of(section.h as nat, SECTION_PAD as nat)
}

/// The box lies within the pixel range that `u32` can address.
pub open spec fn rect_in_range(r: Rect) -> bool {
    r.x + r.w <= u32::MAX && r.y + r.h <= u32::MAX
}

/// `rects` are the `count` widgets of `section`: stacked top to bottom, each
/// inset by the section padding left and right and preceded by it above.
pub open spec fn widgets_fit(rects: Seq<Rect>, section: Rect, count: nat) -> bool {
    let pad_x = section_pad_x(section);
    let pad_y = section_pad_y(section);
    &&& rects.len() == count
    &&& forall|i: int|
        0 <= i < count ==> {
            &&& (#[trigger] rects[i]).x == section.x + pad_x
            &&& rects[i].w + 2 * pad_x == section.w
            &&& rects[i].y == section.y + cut(section.h as nat, count, i as nat) + pad_y
            &&& rects[i].h + pad_y == slot_len(section.h as nat, count, i as nat)
        }
}

/// The widgets of `section`, one per entry asked for.
pub fn section_widgets(section: Rect, count: usize) -> (r: Result<Vec<Rect>, LayoutError>)
    requires
        rect_in_range(section),
    ensures
        r == Err::<Vec<Rect>, LayoutError>(LayoutError::Empty) <==> count == 0,
        r == Err::<Vec<Rect>, LayoutError>(LayoutError::Crowded) <==> (count > 0
            && section_pad_y(section) * count > section.h),
        r is Ok <==> (count > 0 && section_pad_y(section) * count <= section.h),
        r is Ok ==> widgets_fit(r->Ok_0@, section, count as nat),
        r is Ok ==> forall|i: int| 0 <= i < count ==> rect_in_range(#[trigger] r->Ok_0@[i]),
{
    let pad_x = ratio(section.w, SECTION_PAD);
    let pad_y = ratio(section.h, SECTION_PAD);
    assert(2 * pad_x <= section.w) by (nonlinear_arith)
        requires
            pad_x == section.w * 50 / 1000,
    ;
    let spans = match split_span(section.y, section.h, count, pad_y) {
        Ok(s) => s,
        Err(e) => {
            return Err(e);
        },
    };
    let x = section.x + pad_x;
    let w = section.w - 2 * pad_x;
    let mut rects: Vec<Rect> = Vec::new();
    let mut i: usize = 0;
    while i < spans.len()
        invariant
            0 <= i <= spans@.len(),
            spans_match(spans@, section.y as nat, section.h as nat, count as nat, pad_y as nat),
            rects@.len() == i,
            forall|j: int|
                0 <= j < i ==> (#[trigger] rects@[j]) == (Rect {
                    x: x,
                    w: w,
                    y: spans@[j].start,
                    h: spans@[j].len,
                }),
        decreases spans@.len() - i,
    {
        let s = spans[i];
        rects.push(Rect { x, w, y: s.start, h: s.len });
        i = i + 1;
    }
    proof {
        assert forall|j: int| 0 <= j < count implies rect_in_range(#[trigger] rects@[j]) by {
            lemma_cut_bounds(section.h as nat, count as nat, (j + 1) as nat);
        }
    }
    Ok(rects)
}

/// The widths of `rects`, in order.
pub open spec fn widths(rects: Seq<Rect>) -> Seq<nat> {
    rects.map_values(|r: Rect| r.w as nat)
}

/// The heights of `rects`, in order.
pub open spec fn heights(rects: Seq<Rect>) -> Seq<nat> {
    rects.map_values(|r: Rect| r.h as nat)
}

/// The sections of a canvas and the padding before each of them take up
/// exactly the width right of the statistics strip.
pub proof fn lemma_sections_fill_width(rects: Seq<Rect>, width: nat, height: nat)
    requires
        rects.len() > 0,
        sections_fit(rects, width, height, rects.len()),
    ensures
        seq_sum(widths(rects)) + rects.len() * canvas_pad_x(width) == sections_span(width),
{
    let n = rects.len();
    assert(forall|i: int| 0 <= i < n ==> #[trigger] widths(rects)[i] + canvas_pad_x(width)
        == slot_len(sections_span(width), n, i as nat));
    lemma_padded_slots_sum(widths(rects), sections_span(width), n, canvas_pad_x(width));
}

/// The widgets of a section and the padding above each of them take up
/// exactly the section's height.
pub proof fn lemma_widgets_fill_height(rects: Seq<Rect>, section: Rect)
    requires
        rects.len() > 0,
        widgets_fit(rects, section, rects.len()),
    ensures
        seq_sum(heights(rects)) + rects.len() * section_pad_y(section) == section.h,
{
    let n = rects.len();
    assert(forall|i: int| 0 <= i < n ==> #[trigger] heights(rects)[i] + section_pad_y(section)
        == slot_len(section.h as nat, n, i as nat));
    lemma_padded_slots_sum(heights(rects), section.h as nat, n, section_pad_y(section));
}

} // verus!
