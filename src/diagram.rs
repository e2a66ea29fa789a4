//! The architecture diagram: one column of neurons per layer, one line per
//! connection, coloured by the network's biases and weights.
use vstd::prelude::*;
use vstd::arithmetic::div_mod::{lemma_fundamental_div_mod_converse, lemma_multiply_divide_le};
use vstd::arithmetic::mul::lemma_mul_inequality;

use crate::draw::{Disc, Fill, Point, Segment, Stroke};
use crate::layout::{ratio, ratio_of, Rect};
use crate::plot::WIDGET_PAD;

verus! {

/// A neuron's radius is the widget's width plus height over this, over the
/// size of the widest layer.
pub const RADIUS_DIVISOR: u32 = 28;

/// What the trainer exposes of a network after a tick: the weights from
/// each layer to the next (`weights[i][j][k]` joins neuron `j` of layer `i`
/// to neuron `k` of layer `i + 1`), the biases of every layer but the
/// input one, and the size of each layer. Values are fixed point.
#[derive(Debug)]
pub struct Snapshot {
    pub weights: Vec<Vec<Vec<i64>>>,
    pub biases: Vec<Vec<i64>>,
    pub node_counts: Vec<usize>,
}

/// Why a snapshot was refused.
#[derive(Clone, Copy, Debug, PartialEq, Eq, Structural)]
pub enum SnapshotError {
    /// No layer was given.
    NoLayers,
    /// A layer has no neuron.
    EmptyLayer,
    /// The weights or biases do not have the shape the layer sizes ask for.
    Mismatch,
}

/// Every layer size is positive.
pub open spec fn all_positive(c: Seq<usize>) -> bool {
    forall|i: int| 0 <= i < c.len() ==> #[trigger] c[i] > 0
}

/// The weights and biases have the shape that the layer sizes `c` ask for.
pub open spec fn shape_fits(w: Seq<Seq<Seq<i64>>>, b: Seq<Seq<i64>>, c: Seq<usize>) -> bool {
    &&& c.len() >= 1
    &&& w.len() + 1 == c.len()
    &&& b.len() + 1 == c.len()
    &&& forall|i: int| 0 <= i < w.len() ==> {
        &&& (#[trigger] w[i]).len() == c[i]
        &&& b[i].len() == c[i + 1]
        &&& forall|j: int| 0 <= j < c[i] ==> (#[trigger] w[i][j]).len() == c[i + 1]
    }
}

/// A copy of `v`.
pub fn copy_row<T: Copy>(v: &Vec<T>) -> (r: Vec<T>)
    ensures
        r@ == v@,
{
    let mut r: Vec<T> = Vec::new();
    let mut i: usize = 0;
    while i < v.len()
        invariant
            0 <= i <= v@.len(),
            r@ == v@.take(i as int),
        decreases v@.len() - i,
    {
        r.push(v[i]);
        i = i + 1;
        assert(r@ =~= v@.take(i as int));
    }
    assert(v@.take(v@.len() as int) =~= v@);
    r
}

fn copy_matrix(v: &Vec<Vec<i64>>) -> (r: Vec<Vec<i64>>)
    ensures
        r.deep_view() == v.deep_view(),
{
    let mut r: Vec<Vec<i64>> = Vec::new();
    let mut i: usize = 0;
    while i < v.len()
        invariant
            0 <= i <= v@.len(),
            r@.len() == i,
            forall|j: int| 0 <= j < i ==> (#[trigger] r@[j])@ == v@[j]@,
        decreases v@.len() - i,
    {
        r.push(copy_row(&v[i]));
        i = i + 1;
    }
    assert forall|j: int| 0 <= j < v@.len() implies #[trigger] r.deep_view()[j] == v.deep_view()[j] by {
        assert(r@[j].deep_view() =~= v@[j].deep_view());
    }
    assert(r.deep_view() =~= v.deep_view());
    r
}

fn copy_tensor(v: &Vec<Vec<Vec<i64>>>) -> (r: Vec<Vec<Vec<i64>>>)
    ensures
        r.deep_view() == v.deep_view(),
{
    let mut r: Vec<Vec<Vec<i64>>> = Vec::new();
    let mut i: usize = 0;
    while i < v.len()
        invariant
            0 <= i <= v@.len(),
            r@.len() == i,
            forall|j: int| 0 <= j < i ==> (#[trigger] r@[j]).deep_view() == v@[j].deep_view(),
        decreases v@.len() - i,
    {
        r.push(copy_matrix(&v[i]));
        i = i + 1;
    }
    assert forall|j: int| 0 <= j < v@.len() implies #[trigger] r.deep_view()[j] == v.deep_view()[j] by {
        assert(r@[j].deep_view() == v@[j].deep_view());
    }
    assert(r.deep_view() =~= v.deep_view());
    r
}

impl Snapshot {
    /// The same snapshot, held apart from this one.
    pub fn copy(&self) -> (r: Snapshot)
        ensures
            r.weights.deep_view() == self.weights.deep_view(),
            r.biases.deep_view() == self.biases.deep_view(),
            r.node_counts@ == self.node_counts@,
    {
        Snapshot {
            weights: copy_tensor(&self.weights),
            biases: copy_matrix(&self.biases),
            node_counts: copy_row(&self.node_counts),
        }
    }

    pub open spec fn wf(&self) -> bool {
        &&& all_positive(self.node_counts@)
        &&& shape_fits(self.weights.deep_view(), self.biases.deep_view(), self.node_counts@)
    }

    /// Takes the parts of a snapshot, refusing any whose shapes disagree.
    pub fn new(weights: Vec<Vec<Vec<i64>>>, biases: Vec<Vec<i64>>, node_counts: Vec<usize>) -> (r:
        Result<Snapshot, SnapshotError>)
        ensures
            r == Err::<Snapshot, SnapshotError>(SnapshotError::NoLayers) <==> node_counts@.len()
                == 0,
            r == Err::<Snapshot, SnapshotError>(SnapshotError::EmptyLayer) <==> (
            node_counts@.len() > 0 && !all_positive(node_counts@)),
            r is Ok <==> (all_positive(node_counts@) && shape_fits(
                weights.deep_view(),
                biases.deep_view(),
                node_counts@,
            )),
            r matches Ok(s) ==> s.weights.deep_view() == weights.deep_view() && s.biases.deep_view()
                == biases.deep_view() && s.node_counts@ == node_counts@,
    {
        let n = node_counts.len();
        if n == 0 {
            return Err(SnapshotError::NoLayers);
        }
        let mut i: usize = 0;
        while i < n
            invariant
                0 <= i <= n,
                n == node_counts@.len(),
                forall|j: int| 0 <= j < i ==> #[trigger] node_counts@[j] > 0,
            decreases n - i,
        {
            if node_counts[i] == 0 {
                return Err(SnapshotError::EmptyLayer);
            }
            i = i + 1;
        }
        if weights.len() != n - 1 || biases.len() != n - 1 {
            return Err(SnapshotError::Mismatch);
        }
        let ghost w = weights.deep_view();
        let ghost b = biases.deep_view();
        let ghost c = node_counts@;
        let mut i: usize = 0;
        while i < weights.len()
            invariant
                0 <= i <= weights@.len(),
                w == weights.deep_view(),
                b == biases.deep_view(),
                c == node_counts@,
                n == c.len(),
                all_positive(c),
                w.len() + 1 == c.len(),
                b.len() + 1 == c.len(),
                forall|l: int| 0 <= l < i ==> {
                    &&& (#[trigger] w[l]).len() == c[l]
                    &&& b[l].len() == c[l + 1]
                    &&& forall|j: int| 0 <= j < c[l] ==> (#[trigger] w[l][j]).len() == c[l + 1]
                },
            decreases weights@.len() - i,
        {
            let layer = &weights[i];
            assert(w[i as int].len() == layer@.len());
            assert(b[i as int].len() == biases@[i as int]@.len());
            if layer.len() != node_counts[i] || biases[i].len() != node_counts[i + 1] {
                return Err(SnapshotError::Mismatch);
            }
            let mut j: usize = 0;
            while j < layer.len()
                invariant
                    0 <= j <= layer@.len(),
                    0 <= i < weights@.len(),
                    *layer == weights@[i as int],
                    w == weights.deep_view(),
                    c == node_counts@,
                    w.len() + 1 == c.len(),
                    n == c.len(),
                    all_positive(c),
                    b == biases.deep_view(),
                    b.len() + 1 == c.len(),
                    j <= c[i as int],
                    w[i as int].len() == c[i as int],
                    b[i as int].len() == c[i + 1],
                    forall|l: int| 0 <= l < i ==> {
                        &&& (#[trigger] w[l]).len() == c[l]
                        &&& b[l].len() == c[l + 1]
                        &&& forall|j: int| 0 <= j < c[l] ==> (#[trigger] w[l][j]).len() == c[l + 1]
                    },
                    forall|m: int| 0 <= m < j ==> (#[trigger] w[i as int][m]).len() == c[i + 1],
                decreases layer@.len() - j,
            {
                assert(w[i as int][j as int].len() == layer@[j as int]@.len());
                if layer[j].len() != node_counts[i + 1] {
                    return Err(SnapshotError::Mismatch);
                }
                j = j + 1;
            }
            assert forall|l: int| 0 <= l < i + 1 implies {
                &&& (#[trigger] w[l]).len() == c[l]
                &&& b[l].len() == c[l + 1]
                &&& forall|m: int| 0 <= m < c[l] ==> (#[trigger] w[l][m]).len() == c[l + 1]
            } by {
                if l == i {
                    assert(forall|m: int| 0 <= m < c[l] ==> (#[trigger] w[l][m]).len() == c[l + 1]);
                }
            }
            i = i + 1;
        }
        Ok(Snapshot { weights, biases, node_counts })
    }
}

/// The size of the widest layer, zero for none.
pub open spec fn count_max(c: Seq<usize>) -> nat
    decreases c.len(),
{
    if c.len() == 0 {
        0
    } else if c.last() >= count_max(c.drop_last()) {
        c.last() as nat
    } else {
        count_max(c.drop_last())
    }
}

/// Point `i` of `n` spread evenly over `span`: the middle of the `i`-th of
/// `n` equal parts.
pub open spec fn spread_of(span: int, i: int, n: int) -> int {
    (2 * i + 1) * span / (2 * n)
}

/// The radius of every neuron of the diagram in box `r`.
pub open spec fn radius(r: Rect, c: Seq<usize>) -> int {
    (r.w + r.h) / (RADIUS_DIVISOR * count_max(c))
}

/// The width over which the layer columns spread.
pub open spec fn columns_span(r: Rect, c: Seq<usize>) -> int {
    let inner = r.w - 2 * crate::plot::pad_x(r);
    if inner >= 2 * radius(r, c) {
        inner - 2 * radius(r, c)
    } else {
        0
    }
}

/// The height inside the vertical padding.
pub open spec fn inner_height(r: Rect) -> int {
    r.h - 2 * crate::plot::pad_y(r)
}

/// The height over which the neurons of layer `i` spread: its share of the
/// widest layer.
pub open spec fn layer_height(r: Rect, c: Seq<usize>, i: int) -> int {
    inner_height(r) * c[i] / (count_max(c) as int)
}

/// The centre of neuron `j` of layer `i`.
pub open spec fn neuron_center(r: Rect, c: Seq<usize>, i: int, j: int) -> Point {
    Point {
        x: (r.x + crate::plot::pad_x(r) + radius(r, c) + spread_of(columns_span(r, c), i, c.len() as int)) as i64,
        y: (r.y + crate::plot::pad_y(r) + (inner_height(r) - layer_height(r, c, i)) / 2 + spread_of(
            layer_height(r, c, i),
            j,
            c[i] as int,
        )) as i64,
    }
}

/// Neuron `j` of layer `i`: neutral on the input layer, else coloured by its
/// bias.
pub open spec fn neuron_disc(r: Rect, b: Seq<Seq<i64>>, c: Seq<usize>, i: int, j: int) -> Disc {
    Disc {
        center: neuron_center(r, c, i, j),
        radius: radius(r, c) as i64,
        fill: if i == 0 { Fill::Input } else { Fill::Bias(b[i - 1][j]) },
    }
}

/// The connection from neuron `j` of layer `i` to neuron `k` of the next
/// layer, coloured by its weight.
pub open spec fn edge_segment(r: Rect, w: Seq<Seq<Seq<i64>>>, c: Seq<usize>, i: int, j: int, k: int) -> Segment {
    Segment {
        from: neuron_center(r, c, i, j),
        to: neuron_center(r, c, i + 1, k),
        stroke: Stroke::Weight(w[i][j][k]),
    }
}

/// The draw list of an architecture diagram.
#[derive(Debug)]
pub struct Diagram {
    /// The neurons of each layer, top to bottom.
    pub neurons: Vec<Vec<Disc>>,
    /// The connections from each layer to the next: neuron `j` to neuron
    /// `k` stands at `j * (size of the next layer) + k`.
    pub edges: Vec<Vec<Segment>>,
}

/// `d` is the diagram of a network with weights `w`, biases `b` and layer
/// sizes `c` in box `r`.
pub open spec fn diagram_of(d: Diagram, r: Rect, w: Seq<Seq<Seq<i64>>>, b: Seq<Seq<i64>>, c: Seq<usize>) -> bool {
    &&& d.neurons@.len() == c.len()
    &&& forall|i: int| 0 <= i < c.len() ==> (#[trigger] d.neurons@[i])@.len() == c[i]
    &&& forall|i: int, j: int|
        0 <= i < c.len() && 0 <= j < c[i] ==> #[trigger] d.neurons@[i]@[j] == neuron_disc(r, b, c, i, j)
    &&& d.edges@.len() + 1 == c.len()
    &&& forall|i: int| 0 <= i < d.edges@.len() ==> (#[trigger] d.edges@[i])@.len() == c[i] * c[i + 1]
    &&& forall|i: int, e: int|
        0 <= i < d.edges@.len() && 0 <= e < c[i] * c[i + 1] ==> #[trigger] d.edges@[i]@[e]
            == edge_segment(r, w, c, i, e / (c[i + 1] as int), e % (c[i + 1] as int))
}

/// The size of the widest layer.
pub fn max_nodes(counts: &Vec<usize>) -> (r: usize)
    ensures
        r == count_max(counts@),
        forall|i: int| 0 <= i < counts@.len() ==> counts@[i] <= r,
        counts@.len() > 0 ==> r >= counts@[0],
{
    let mut best: usize = 0;
    let mut i: usize = 0;
    while i < counts.len()
        invariant
            0 <= i <= counts@.len(),
            best == count_max(counts@.take(i as int)),
            forall|j: int| 0 <= j < i ==> counts@[j] <= best,
        decreases counts@.len() - i,
    {
        assert(counts@.take(i as int + 1).drop_last() =~= counts@.take(i as int));
        if counts[i] >= best {
            best = counts[i];
        }
        i = i + 1;
    }
    assert(counts@.take(counts@.len() as int) =~= counts@);
    best
}

/// Point `i` of `n` spread evenly over `span`.
fn spread(span: u32, i: usize, n: usize) -> (r: u32)
    requires
        i < n,
    ensures
        r == spread_of(span as int, i as int, n as int),
        r <= span,
{
    proof {
        assert((2 * i + 1) * span <= (2 * n) * span) by (nonlinear_arith)
            requires
                i < n,
        ;
        assert((2 * n) * span == span * (2 * n)) by (nonlinear_arith);
        lemma_multiply_divide_le(((2 * i + 1) * span) as int, (2 * n) as int, span as int);
        assert((2 * i + 1) * span <= (2 * usize::MAX + 1) * u32::MAX) by (nonlinear_arith)
            requires
                i <= usize::MAX,
                span <= u32::MAX,
        ;
    }
    ((2 * (i as u128) + 1) * (span as u128) / (2 * (n as u128))) as u32
}

/// `part` parts of `whole` of `len`, rounded down.
fn portion(len: u32, part: usize, whole: usize) -> (r: u32)
    requires
        0 < whole,
        part <= whole,
    ensures
        r == (len * part) / (whole as int),
        r <= len,
{
    proof {
        lemma_mul_inequality(part as int, whole as int, len as int);
        assert(len * part == part * len) by (nonlinear_arith);
        assert(whole * len == len * whole) by (nonlinear_arith);
        lemma_multiply_divide_le((len * part) as int, whole as int, len as int);
        assert(len * part <= u32::MAX * usize::MAX) by (nonlinear_arith)
            requires
                part <= usize::MAX,
                len <= u32::MAX,
        ;
    }
    ((len as u128) * (part as u128) / (whole as u128)) as u32
}

/// The connections of network `s`, given its neurons as placed in box `r`.
fn architecture_edges(r: Rect, s: &Snapshot, neurons: &Vec<Vec<Disc>>) -> (edges: Vec<Vec<Segment>>)
    requires
        s.wf(),
        neurons@.len() == s.node_counts@.len(),
        forall|i: int| 0 <= i < neurons@.len() ==> (#[trigger] neurons@[i])@.len() == s.node_counts@[i],
        forall|i: int, j: int|
            0 <= i < neurons@.len() && 0 <= j < s.node_counts@[i] ==> #[trigger] neurons@[i]@[j]
                == neuron_disc(r, s.biases.deep_view(), s.node_counts@, i, j),
    ensures
        edges@.len() + 1 == s.node_counts@.len(),
        forall|i: int| 0 <= i < edges@.len() ==> (#[trigger] edges@[i])@.len() == s.node_counts@[i] * s.node_counts@[i + 1],
        forall|i: int, e: int|
            0 <= i < edges@.len() && 0 <= e < s.node_counts@[i] * s.node_counts@[i + 1] ==> #[trigger] edges@[i]@[e]
                == edge_segment(r, s.weights.deep_view(), s.node_counts@, i, e / (s.node_counts@[i + 1] as int), e % (s.node_counts@[i + 1] as int)),
{
    let ghost w = s.weights.deep_view();
    let ghost b = s.biases.deep_view();
    let ghost c = s.node_counts@;
    let mut edges: Vec<Vec<Segment>> = Vec::new();
    let mut i: usize = 0;
    while i < s.node_counts.len() - 1
        invariant
            0 <= i < c.len(),
            s.wf(),
            c == s.node_counts@,
            w == s.weights.deep_view(),
            b == s.biases.deep_view(),
            neurons@.len() == c.len(),
            forall|l: int| 0 <= l < neurons@.len() ==> (#[trigger] neurons@[l])@.len() == c[l],
            forall|l: int, j: int|
                0 <= l < neurons@.len() && 0 <= j < c[l] ==> #[trigger] neurons@[l]@[j] == neuron_disc(r, b, c, l, j),
            edges@.len() == i,
            forall|l: int| 0 <= l < i ==> (#[trigger] edges@[l])@.len() == c[l] * c[l + 1],
            forall|l: int, e: int|
                0 <= l < i && 0 <= e < c[l] * c[l + 1] ==> #[trigger] edges@[l]@[e]
                    == edge_segment(r, w, c, l, e / (c[l + 1] as int), e % (c[l + 1] as int)),
        decreases c.len() - i,
    {
        let n = s.node_counts[i];
        let after = i + 1;
        let next = s.node_counts[after];
        let ghost nx = next as int;
        let mut row: Vec<Segment> = Vec::new();
        let mut j: usize = 0;
        while j < n
            invariant
                0 <= j <= n,
                0 <= i < c.len() - 1,
                n == c[i as int],
                next == c[i + 1],
                nx == next,
                next > 0,
                after == i + 1,
                s.wf(),
                c == s.node_counts@,
                w == s.weights.deep_view(),
                b == s.biases.deep_view(),
                neurons@.len() == c.len(),
                forall|l: int| 0 <= l < neurons@.len() ==> (#[trigger] neurons@[l])@.len() == c[l],
                forall|l: int, m: int|
                    0 <= l < neurons@.len() && 0 <= m < c[l] ==> #[trigger] neurons@[l]@[m] == neuron_disc(r, b, c, l, m),
                row@.len() == j * nx,
                forall|e: int| 0 <= e < j * nx ==> #[trigger] row@[e] == edge_segment(r, w, c, i as int, e / nx, e % nx),
            decreases n - j,
        {
            let from = neurons[i][j].center;
            let mut k: usize = 0;
            while k < next
                invariant
                    0 <= j < n,
                    0 <= k <= next,
                    0 <= i < c.len() - 1,
                    n == c[i as int],
                    next == c[i + 1],
                    nx == next,
                    s.wf(),
                    c == s.node_counts@,
                    w == s.weights.deep_view(),
                    b == s.biases.deep_view(),
                    from == neuron_center(r, c, i as int, j as int),
                    after == i + 1,
                    neurons@.len() == c.len(),
                    forall|l: int| 0 <= l < neurons@.len() ==> (#[trigger] neurons@[l])@.len() == c[l],
                    forall|l: int, m: int|
                        0 <= l < neurons@.len() && 0 <= m < c[l] ==> #[trigger] neurons@[l]@[m] == neuron_disc(r, b, c, l, m),
                    row@.len() == j * nx + k,
                    forall|e: int| 0 <= e < j * nx + k ==> #[trigger] row@[e] == edge_segment(r, w, c, i as int, e / nx, e % nx),
                decreases next - k,
            {
                assert(w[i as int][j as int][k as int] == s.weights@[i as int]@[j as int]@[k as int]);
                let seg = Segment {
                    from,
                    to: neurons[after][k].center,
                    stroke: Stroke::Weight(s.weights[i][j][k]),
                };
                proof {
                    lemma_fundamental_div_mod_converse(j * nx + k, nx, j as int, k as int);
                }
                assert(seg == edge_segment(r, w, c, i as int, (j * nx + k) / nx, (j * nx + k) % nx));
                row.push(seg);
                k = k + 1;
            }
            assert(j * nx + nx == (j + 1) * nx) by (nonlinear_arith);
            j = j + 1;
        }
        edges.push(row);
        i = i + 1;
    }
    edges
}

/// The diagram of network `s` in box `r`.
pub fn architecture_diagram(r: Rect, s: &Snapshot) -> (d: Diagram)
    requires
        s.wf(),
        r.x + r.w <= u32::MAX,
        r.y + r.h <= u32::MAX,
    ensures
        diagram_of(d, r, s.weights.deep_view(), s.biases.deep_view(), s.node_counts@),
{
    let ghost w = s.weights.deep_view();
    let ghost b = s.biases.deep_view();
    let ghost c = s.node_counts@;
    let counts = &s.node_counts;
    let layers = counts.len();
    let max = max_nodes(counts);
    let px = ratio(r.w, WIDGET_PAD);
    let py = ratio(r.h, WIDGET_PAD);
    assert(2 * px <= r.w) by (nonlinear_arith)
        requires
            px == r.w * 50 / 1000,
    ;
    assert(2 * py <= r.h) by (nonlinear_arith)
        requires
            py == r.h * 50 / 1000,
    ;
    proof {
        assert(max * 28 >= 1) by (nonlinear_arith)
            requires
                max >= 1,
        ;
        assert(max * 28 <= usize::MAX * 28) by (nonlinear_arith)
            requires
                max <= usize::MAX,
        ;
        assert(r.w + r.h <= (28 * max) * (r.w + r.h)) by (nonlinear_arith)
            requires
                max >= 1,
        ;
        lemma_multiply_divide_le((r.w + r.h) as int, (28 * max) as int, (r.w + r.h) as int);
    }
    let rad: u64 = (((r.w as u128) + (r.h as u128)) / (28 * (max as u128))) as u64;
    let inner_w: u32 = r.w - 2 * px;
    let span: u32 = if (inner_w as u64) >= 2 * rad {
        (inner_w as u64 - 2 * rad) as u32
    } else {
        0
    };
    let inner_h: u32 = r.h - 2 * py;
    let x0: i64 = r.x as i64 + px as i64 + rad as i64;
    let y0: i64 = r.y as i64 + py as i64;
    assert(rad == radius(r, c));
    assert(span == columns_span(r, c));
    let mut neurons: Vec<Vec<Disc>> = Vec::new();
    let mut i: usize = 0;
    while i < layers
        invariant
            0 <= i <= layers,
            s.wf(),
            c == s.node_counts@,
            b == s.biases.deep_view(),
            *counts == s.node_counts,
            layers == c.len(),
            max == count_max(c),
            forall|l: int| 0 <= l < layers ==> c[l] <= max,
            max >= 1,
            px == crate::plot::pad_x(r),
            py == crate::plot::pad_y(r),
            rad == radius(r, c),
            rad <= r.w + r.h,
            span == columns_span(r, c),
            span <= r.w,
            inner_h == inner_height(r),
            x0 == r.x + px + rad,
            y0 == r.y + py,
            r.x + r.w <= u32::MAX,
            r.y + r.h <= u32::MAX,
            neurons@.len() == i,
            forall|l: int| 0 <= l < i ==> (#[trigger] neurons@[l])@.len() == c[l],
            forall|l: int, j: int|
                0 <= l < i && 0 <= j < c[l] ==> #[trigger] neurons@[l]@[j] == neuron_disc(r, b, c, l, j),
        decreases layers - i,
    {
        let n = counts[i];
        let col_x: i64 = x0 + spread(span, i, layers) as i64;
        let lh = portion(inner_h, n, max);
        assert(lh == layer_height(r, c, i as int));
        let col_top: i64 = y0 + ((inner_h - lh) / 2) as i64;
        let mut column: Vec<Disc> = Vec::new();
        let mut j: usize = 0;
        while j < n
            invariant
                0 <= j <= n,
                n == c[i as int],
                n > 0,
                0 <= i < layers,
                s.wf(),
                c == s.node_counts@,
                b == s.biases.deep_view(),
                layers == c.len(),
                max == count_max(c),
                rad == radius(r, c),
                rad <= r.w + r.h,
                span == columns_span(r, c),
                px == crate::plot::pad_x(r),
                py == crate::plot::pad_y(r),
                lh == layer_height(r, c, i as int),
                lh <= inner_h,
                inner_h == inner_height(r),
                col_x == r.x + px + rad + spread_of(span as int, i as int, layers as int),
                col_top == r.y + py + (inner_h - lh) / 2,
                r.x + r.w <= u32::MAX,
                r.y + r.h <= u32::MAX,
                column@.len() == j,
                forall|m: int| 0 <= m < j ==> #[trigger] column@[m] == neuron_disc(r, b, c, i as int, m),
            decreases n - j,
        {
            let y = col_top + spread(lh, j, n) as i64;
            let fill = if i == 0 {
                Fill::Input
            } else {
                assert(s.weights.deep_view()[i - 1].len() == c[i - 1]);
                assert(b[i - 1].len() == c[i as int]);
                assert(b[i - 1][j as int] == s.biases@[i - 1]@[j as int]);
                Fill::Bias(s.biases[i - 1][j])
            };
            let disc = Disc { center: Point { x: col_x, y }, radius: rad as i64, fill };
            assert(disc == neuron_disc(r, b, c, i as int, j as int));
            column.push(disc);
            j = j + 1;
        }
        neurons.push(column);
        i = i + 1;
    }
    let edges = architecture_edges(r, s, &neurons);
    Diagram { neurons, edges }
}

} // verus!
