//! A widget: one visualisation of one kind, with the state that its kind
//! needs, fed by training ticks and turned into a draw list on request.
use vstd::prelude::*;

use crate::bitmap::{image_pair, intensity_of, pair_of, Bitmap, ImagePair};
use crate::diagram::{architecture_diagram, copy_row, diagram_of, Diagram, Snapshot};
use crate::draw::Segment;
use crate::graph::{graph_of, output_graph};
use crate::history::{compacted, epochs_after, pushed, trims_at, CostHistory};
use crate::layout::{rect_in_range, Rect};
use crate::plot::{cost_plot, cost_plot_of};

verus! {

/// The kinds of visualisation.
#[derive(Clone, Copy, Debug, PartialEq, Eq, Structural)]
pub enum WidgetType {
    CostPlot,
    Architecture,
    OutputImg,
    OutputGraph,
}

/// The state of an image comparison.
#[derive(Debug)]
pub struct ImageState {
    /// The ground truth, set once.
    pub expected: Option<Bitmap>,
    /// The network's latest image, laid out like the expected one.
    pub output: Option<Bitmap>,
}

/// The state of an output graph.
#[derive(Debug)]
pub struct GraphState {
    /// The reference function sampled over the input domain, set once.
    pub reference: Vec<i64>,
    /// The network's latest outputs over the same samples.
    pub outputs: Vec<i64>,
}

/// Each kind of widget with the state it needs and no other.
#[derive(Debug)]
pub enum WidgetState {
    CostPlot(CostHistory),
    Architecture(Option<Snapshot>),
    OutputImg(ImageState),
    OutputGraph(GraphState),
}

/// A visualisation in a fixed box of the canvas.
#[derive(Debug)]
pub struct Widget {
    pub rect: Rect,
    pub state: WidgetState,
}

/// What a widget asks to have drawn.
#[derive(Debug)]
pub enum Drawing {
    /// Nothing: the widget has no data to show yet.
    Nothing,
    Lines(Vec<Segment>),
    Diagram(Diagram),
    Images(ImagePair),
}

/// The kind of a widget state.
pub open spec fn kind_of(s: WidgetState) -> WidgetType {
    match s {
        WidgetState::CostPlot(_) => WidgetType::CostPlot,
        WidgetState::Architecture(_) => WidgetType::Architecture,
        WidgetState::OutputImg(_) => WidgetType::OutputImg,
        WidgetState::OutputGraph(_) => WidgetType::OutputGraph,
    }
}

/// `b` is the bitmap of `values` laid out like `like`.
pub open spec fn image_of_values(b: Bitmap, like: Bitmap, values: Seq<i64>) -> bool {
    &&& b.width == like.width
    &&& b.height == like.height
    &&& b.pixels@.len() == values.len()
    &&& forall|i: int| 0 <= i < values.len() ==> #[trigger] b.pixels@[i] == intensity_of(values[i] as int)
}

/// `w2` is widget `w` after a tick of cost `cost`, network `s`, `epochs`
/// epochs and network outputs `outputs`.
pub open spec fn ticked(w: Widget, w2: Widget, cost: u64, s: Snapshot, epochs: usize, outputs: Seq<i64>) -> bool {
    &&& w2.rect == w.rect
    &&& kind_of(w2.state) == kind_of(w.state)
    &&& w.state matches WidgetState::CostPlot(h) ==> w2.state matches WidgetState::CostPlot(h2)
        && h2.epochs == epochs_after(h.epochs as nat, epochs as nat) && h2.costs@ == pushed(
        h.costs@,
        cost,
        trims_at(h.expire, h.expire_every as nat, h2.epochs as nat),
    ) && h2.expire == h.expire && h2.expire_every == h.expire_every
    &&& w2.state matches WidgetState::Architecture(a) ==> a matches Some(n) && n.weights.deep_view()
        == s.weights.deep_view() && n.biases.deep_view() == s.biases.deep_view() && n.node_counts@
        == s.node_counts@
    &&& w.state matches WidgetState::OutputImg(i) ==> w2.state matches WidgetState::OutputImg(i2)
        && i2.expected == i.expected && (i.expected matches Some(e) ==> (i2.output is Some
        <==> outputs.len() == e.width * e.height) && (i2.output matches Some(o) ==> image_of_values(
        o,
        e,
        outputs,
    ))) && (i.expected is None ==> i2.output is None)
    &&& w.state matches WidgetState::OutputGraph(g) ==> w2.state matches WidgetState::OutputGraph(g2)
        && g2.reference@ == g.reference@ && g2.outputs@ == outputs
}

/// `w2` is widget `w` with its cost expiration set to `expire` every
/// `epochs`.
pub open spec fn expiration_set(w: Widget, w2: Widget, expire: bool, epochs: usize) -> bool {
    &&& w2.rect == w.rect
    &&& w.state matches WidgetState::CostPlot(h) ==> w2.state matches WidgetState::CostPlot(h2)
        && h2.costs@ == h.costs@ && h2.epochs == h.epochs && h2.expire == expire && h2.expire_every
        == epochs
    &&& !(w.state is CostPlot) ==> w2.state == w.state
}

/// `w2` is widget `w` with its cost series compacted.
pub open spec fn cost_compacted(w: Widget, w2: Widget) -> bool {
    &&& w2.rect == w.rect
    &&& w.state matches WidgetState::CostPlot(h) ==> w2.state matches WidgetState::CostPlot(h2)
        && h2.costs@ == compacted(h.costs@) && h2.epochs == h.epochs && h2.expire == h.expire
        && h2.expire_every == h.expire_every
    &&& !(w.state is CostPlot) ==> w2.state == w.state
}

/// `w2` is widget `w` with its cost series emptied and its epochs at zero.
pub open spec fn cost_cleared(w: Widget, w2: Widget) -> bool {
    &&& w2.rect == w.rect
    &&& w.state matches WidgetState::CostPlot(h) ==> w2.state matches WidgetState::CostPlot(h2)
        && h2.costs@.len() == 0 && h2.epochs == 0 && h2.expire == h.expire && h2.expire_every
        == h.expire_every
    &&& !(w.state is CostPlot) ==> w2.state == w.state
}

/// `w2` is widget `w` given reference series `reference`.
pub open spec fn reference_set(w: Widget, w2: Widget, reference: Seq<i64>) -> bool {
    &&& w2.rect == w.rect
    &&& w.state matches WidgetState::OutputGraph(g) ==> w2.state matches WidgetState::OutputGraph(g2)
        && g2.reference@ == reference && g2.outputs@ == g.outputs@
    &&& !(w.state is OutputGraph) ==> w2.state == w.state
}

/// `w2` is widget `w` given expected image `image`.
pub open spec fn expected_set(w: Widget, w2: Widget, image: Bitmap) -> bool {
    &&& w2.rect == w.rect
    &&& w.state matches WidgetState::OutputImg(i) ==> w2.state matches WidgetState::OutputImg(i2)
        && i2.expected matches Some(e) && e.width == image.width && e.height == image.height
        && e.pixels@ == image.pixels@ && i2.output == i.output
    &&& !(w.state is OutputImg) ==> w2.state == w.state
}

/// `d` is what widget `w` asks to have drawn.
pub open spec fn drawn(w: Widget, d: Drawing) -> bool {
    &&& w.state matches WidgetState::CostPlot(h) ==> d matches Drawing::Lines(v) && v@
        == cost_plot_of(w.rect, h.costs@)
    &&& w.state matches WidgetState::Architecture(s) ==> (s matches Some(n) ==> d matches Drawing::Diagram(
        g,
    ) && diagram_of(g, w.rect, n.weights.deep_view(), n.biases.deep_view(), n.node_counts@)) && (s is None
        ==> d is Nothing)
    &&& w.state matches WidgetState::OutputImg(i) ==> (d is Nothing || d is Images) && (
    d matches Drawing::Images(p) ==> pair_of(p, w.rect, i.expected->Some_0, i.output->Some_0)) && (
    d is Images <==> (i.expected is Some && i.output is Some && i.expected->Some_0.width
        == i.output->Some_0.width && i.expected->Some_0.height == i.output->Some_0.height))
    &&& w.state matches WidgetState::OutputGraph(g) ==> d matches Drawing::Lines(v) && v@ == graph_of(
        w.rect,
        g.reference@,
        g.outputs@,
    )
}

impl Widget {
    pub open spec fn kind(&self) -> WidgetType {
        kind_of(self.state)
    }

    pub open spec fn wf(&self) -> bool {
        &&& rect_in_range(self.rect)
        &&& self.state matches WidgetState::Architecture(Some(s)) ==> s.wf()
    }

    /// An empty widget of kind `widget_type` in box `rect`.
    pub fn new(rect: Rect, widget_type: WidgetType) -> (w: Widget)
        ensures
            w.rect == rect,
            w.kind() == widget_type,
            w.state matches WidgetState::CostPlot(h) ==> h.costs@.len() == 0 && h.epochs == 0
                && !h.expire,
            w.state matches WidgetState::Architecture(s) ==> s is None,
            w.state matches WidgetState::OutputImg(i) ==> i.expected is None && i.output is None,
            w.state matches WidgetState::OutputGraph(g) ==> g.reference@.len() == 0
                && g.outputs@.len() == 0,
    {
        let state = match widget_type {
            WidgetType::CostPlot => WidgetState::CostPlot(CostHistory::new()),
            WidgetType::Architecture => WidgetState::Architecture(None),
            WidgetType::OutputImg => WidgetState::OutputImg(ImageState { expected: None, output: None }),
            WidgetType::OutputGraph => WidgetState::OutputGraph(
                GraphState { reference: Vec::new(), outputs: Vec::new() },
            ),
        };
        Widget { rect, state }
    }

    /// The kind of this widget.
    pub fn widget_type(&self) -> (t: WidgetType)
        ensures
            t == self.kind(),
    {
        match &self.state {
            WidgetState::CostPlot(_) => WidgetType::CostPlot,
            WidgetState::Architecture(_) => WidgetType::Architecture,
            WidgetState::OutputImg(_) => WidgetType::OutputImg,
            WidgetState::OutputGraph(_) => WidgetType::OutputGraph,
        }
    }

    /// Gives an output graph its reference series; other kinds ignore it.
    pub fn set_dense_data(&mut self, reference: &Vec<i64>)
        ensures
            reference_set(*old(self), *final(self), reference@),
            old(self).wf() ==> final(self).wf(),
    {
        match &mut self.state {
            WidgetState::OutputGraph(g) => {
                g.reference = copy_row(reference);
            },
            _ => {},
        }
    }

    /// Gives an image comparison its expected image; other kinds ignore it.
    pub fn set_expected_image(&mut self, image: &Bitmap)
        ensures
            expected_set(*old(self), *final(self), *image),
            old(self).wf() ==> final(self).wf(),
    {
        match &mut self.state {
            WidgetState::OutputImg(i) => {
                i.expected = Some(
                    Bitmap { width: image.width, height: image.height, pixels: copy_row(&image.pixels) },
                );
            },
            _ => {},
        }
    }

    /// Sets the per-tick trim of a cost plot; other kinds ignore it.
    pub fn set_cost_expiration(&mut self, expire: bool, epochs: usize)
        ensures
            expiration_set(*old(self), *final(self), expire, epochs),
            old(self).wf() ==> final(self).wf(),
    {
        match &mut self.state {
            WidgetState::CostPlot(h) => h.set_expiration(expire, epochs),
            _ => {},
        }
    }

    /// Compacts a cost plot's series; other kinds ignore it.
    pub fn pop_cost(&mut self)
        ensures
            cost_compacted(*old(self), *final(self)),
            old(self).wf() ==> final(self).wf(),
    {
        match &mut self.state {
            WidgetState::CostPlot(h) => h.compact(),
            _ => {},
        }
    }

    /// Empties a cost plot's series and sets its epoch count back to zero;
    /// other kinds ignore it.
    pub fn clear_cost(&mut self)
        ensures
            cost_cleared(*old(self), *final(self)),
            old(self).wf() ==> final(self).wf(),
    {
        match &mut self.state {
            WidgetState::CostPlot(h) => h.clear(),
            _ => {},
        }
    }

    /// Takes one training tick: the cost, the network, the epochs it ran
    /// and the network's outputs over the samples. Each kind keeps what it
    /// shows: a cost plot appends the cost, an architecture diagram keeps
    /// the latest network, an image comparison lays the outputs out as its
    /// expected image, an output graph keeps the latest outputs.
    pub fn update(&mut self, cost: u64, snapshot: &Snapshot, epochs: usize, outputs: &Vec<i64>)
        requires
            old(self).wf(),
            snapshot.wf(),
        ensures
            final(self).wf(),
            ticked(*old(self), *final(self), cost, *snapshot, epochs, outputs@),
    {
        match &mut self.state {
            WidgetState::CostPlot(h) => h.push(cost, epochs),
            WidgetState::Architecture(s) => {
                *s = Some(snapshot.copy());
            },
            WidgetState::OutputImg(i) => {
                i.output = match &i.expected {
                    Some(e) => Bitmap::from_values(e.width, e.height, outputs),
                    None => None,
                };
            },
            WidgetState::OutputGraph(g) => {
                g.outputs = copy_row(outputs);
            },
        }
    }

    /// The cost plot of this widget, or `None` for another kind.
    pub fn draw_costplot(&self) -> (d: Option<Vec<Segment>>)
        requires
            self.wf(),
        ensures
            self.state matches WidgetState::CostPlot(h) ==> d matches Some(v) && v@ == cost_plot_of(
                self.rect,
                h.costs@,
            ),
            !(self.state is CostPlot) ==> d is None,
    {
        match &self.state {
            WidgetState::CostPlot(h) => Some(cost_plot(self.rect, &h.costs)),
            _ => None,
        }
    }

    /// The architecture diagram of this widget; `None` for another kind or
    /// before the first tick.
    pub fn draw_architecture(&self) -> (d: Option<Diagram>)
        requires
            self.wf(),
        ensures
            self.state matches WidgetState::Architecture(Some(s)) ==> d matches Some(g) && diagram_of(
                g,
                self.rect,
                s.weights.deep_view(),
                s.biases.deep_view(),
                s.node_counts@,
            ),
            !(self.state matches WidgetState::Architecture(Some(_))) ==> d is None,
    {
        match &self.state {
            WidgetState::Architecture(Some(s)) => Some(architecture_diagram(self.rect, s)),
            _ => None,
        }
    }

    /// The image comparison of this widget; `None` for another kind, while
    /// either image is missing, or when their sizes differ.
    pub fn draw_image(&self) -> (d: Option<ImagePair>)
        requires
            self.wf(),
        ensures
            self.state matches WidgetState::OutputImg(i) ==> ((d is Some <==> (i.expected is Some
                && i.output is Some && i.expected->Some_0.width == i.output->Some_0.width
                && i.expected->Some_0.height == i.output->Some_0.height)) && (d matches Some(p)
                ==> pair_of(p, self.rect, i.expected->Some_0, i.output->Some_0))),
            !(self.state is OutputImg) ==> d is None,
    {
        match &self.state {
            WidgetState::OutputImg(i) => image_pair(self.rect, &i.expected, &i.output),
            _ => None,
        }
    }

    /// The output graph of this widget, or `None` for another kind.
    pub fn draw_output_graph(&self) -> (d: Option<Vec<Segment>>)
        requires
            self.wf(),
        ensures
            self.state matches WidgetState::OutputGraph(g) ==> d matches Some(v) && v@ == graph_of(
                self.rect,
                g.reference@,
                g.outputs@,
            ),
            !(self.state is OutputGraph) ==> d is None,
    {
        match &self.state {
            WidgetState::OutputGraph(g) => Some(output_graph(self.rect, &g.reference, &g.outputs)),
            _ => None,
        }
    }

    /// What this widget asks to have drawn now: its kind's draw list, or
    /// nothing where that kind has no data yet.
    pub fn render(&self) -> (d: Drawing)
        requires
            self.wf(),
        ensures
            drawn(*self, d),
    {
        match &self.state {
            WidgetState::CostPlot(h) => Drawing::Lines(cost_plot(self.rect, &h.costs)),
            WidgetState::Architecture(Some(s)) => Drawing::Diagram(architecture_diagram(self.rect, s)),
            WidgetState::Architecture(None) => Drawing::Nothing,
            WidgetState::OutputImg(i) => match image_pair(self.rect, &i.expected, &i.output) {
                Some(p) => Drawing::Images(p),
                None => Drawing::Nothing,
            },
            WidgetState::OutputGraph(g) => Drawing::Lines(output_graph(self.rect, &g.reference, &g.outputs)),
        }
    }
}

} // verus!
