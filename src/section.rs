//! A section: a box of the canvas holding a column of widgets.
use vstd::prelude::*;

use crate::diagram::Snapshot;
use crate::layout::{rect_in_range, section_pad_y, section_widgets, widgets_fit, LayoutError, Rect};
use crate::bitmap::Bitmap;
use crate::widget::{
    cost_cleared, cost_compacted, drawn, expected_set, expiration_set, kind_of, reference_set,
    ticked, Drawing, Widget, WidgetState, WidgetType,
};

verus! {

/// A box of the canvas and the widgets stacked in it, top to bottom.
#[derive(Debug)]
pub struct Section {
    pub rect: Rect,
    pub widgets: Vec<Widget>,
}

/// The boxes of `ws`, in order.
pub open spec fn rects_of(ws: Seq<Widget>) -> Seq<Rect> {
    ws.map_values(|w: Widget| w.rect)
}

/// `w` is a fresh widget of kind `t`: no data yet.
pub open spec fn fresh(w: Widget, t: WidgetType) -> bool {
    &&& kind_of(w.state) == t
    &&& w.state matches WidgetState::CostPlot(h) ==> h.costs@.len() == 0 && h.epochs == 0 && !h.expire
    &&& w.state matches WidgetState::Architecture(s) ==> s is None
    &&& w.state matches WidgetState::OutputImg(i) ==> i.expected is None && i.output is None
    &&& w.state matches WidgetState::OutputGraph(g) ==> g.reference@.len() == 0 && g.outputs@.len() == 0
}

/// `b` is `a`, widget by widget, under relation `rel`.
pub open spec fn each(a: Seq<Widget>, b: Seq<Widget>, rel: spec_fn(Widget, Widget) -> bool) -> bool {
    &&& b.len() == a.len()
    &&& forall|i: int| 0 <= i < a.len() ==> #[trigger] rel(a[i], b[i])
}

impl Section {
    pub open spec fn wf(&self) -> bool {
        &&& rect_in_range(self.rect)
        &&& forall|i: int| 0 <= i < self.widgets@.len() ==> (#[trigger] self.widgets@[i]).wf()
    }

    /// An empty section in box `rect`.
    pub fn new(rect: Rect) -> (s: Section)
        ensures
            s.rect == rect,
            s.widgets@.len() == 0,
    {
        Section { rect, widgets: Vec::new() }
    }

    /// Fills the section with fresh widgets of the kinds in `widgets`, in
    /// order, stacked top to bottom; refuses an empty list, or one too long
    /// for the padding to fit, and then leaves the section as it was.
    pub fn set_widgets(&mut self, widgets: &Vec<WidgetType>) -> (r: Result<(), LayoutError>)
        requires
            old(self).wf(),
        ensures
            final(self).wf(),
            final(self).rect == old(self).rect,
            r == Err::<(), LayoutError>(LayoutError::Empty) <==> widgets@.len() == 0,
            r == Err::<(), LayoutError>(LayoutError::Crowded) <==> (widgets@.len() > 0 && section_pad_y(
                old(self).rect,
            ) * widgets@.len() > old(self).rect.h),
            r is Ok <==> (widgets@.len() > 0 && section_pad_y(old(self).rect) * widgets@.len()
                <= old(self).rect.h),
            r is Err ==> final(self).widgets@ == old(self).widgets@,
            r is Ok ==> {
                &&& widgets_fit(rects_of(final(self).widgets@), final(self).rect, widgets@.len())
                &&& forall|i: int| 0 <= i < widgets@.len() ==> fresh(#[trigger] final(self).widgets@[i], widgets@[i])
            },
    {
        let rects = match section_widgets(self.rect, widgets.len()) {
            Ok(v) => v,
            Err(e) => {
                return Err(e);
            },
        };
        let mut made: Vec<Widget> = Vec::new();
        let mut i: usize = 0;
        while i < widgets.len()
            invariant
                0 <= i <= widgets@.len(),
                rects@.len() == widgets@.len(),
                widgets_fit(rects@, self.rect, widgets@.len()),
                forall|j: int| 0 <= j < widgets@.len() ==> rect_in_range(#[trigger] rects@[j]),
                rect_in_range(self.rect),
                made@.len() == i,
                forall|j: int| 0 <= j < i ==> (#[trigger] made@[j]).rect == rects@[j],
                forall|j: int| 0 <= j < i ==> fresh(#[trigger] made@[j], widgets@[j]),
                forall|j: int| 0 <= j < i ==> (#[trigger] made@[j]).wf(),
            decreases widgets@.len() - i,
        {
            let w = Widget::new(rects[i], widgets[i]);
            made.push(w);
            i = i + 1;
        }
        assert(rects_of(made@) =~= rects@);
        self.widgets = made;
        Ok(())
    }

    /// Sets the cost expiration of every cost plot.
    pub fn set_cost_expiration(&mut self, expire: bool, epochs: usize)
        requires
            old(self).wf(),
        ensures
            final(self).wf(),
            final(self).rect == old(self).rect,
            each(old(self).widgets@, final(self).widgets@, |w: Widget, w2: Widget| expiration_set(w, w2, expire, epochs)),
    {
        let ghost before = self.widgets@;
        let ghost r0 = self.rect;
        let mut i: usize = 0;
        while i < self.widgets.len()
            invariant
                0 <= i <= self.widgets@.len(),
                self.rect == r0,
                self.widgets@.len() == before.len(),
                rect_in_range(self.rect),
                forall|j: int| 0 <= j < before.len() ==> (#[trigger] before[j]).wf(),
                forall|j: int| 0 <= j < i ==> (#[trigger] self.widgets@[j]).wf(),
                forall|j: int| 0 <= j < i ==> (|w: Widget, w2: Widget| expiration_set(w, w2, expire, epochs))(#[trigger] before[j], self.widgets@[j]),
                forall|j: int| i <= j < before.len() ==> #[trigger] self.widgets@[j] == before[j],
            decreases self.widgets@.len() - i,
        {
            self.widgets[i].set_cost_expiration(expire, epochs);
            i = i + 1;
        }
        assert forall|j: int| 0 <= j < before.len() implies (#[trigger] self.widgets@[j]).wf() by {
            if j >= i {
                assert(self.widgets@[j] == before[j]);
            }
        }
    }

    /// Compacts the cost series of every cost plot.
    pub fn pop_cost(&mut self)
        requires
            old(self).wf(),
        ensures
            final(self).wf(),
            final(self).rect == old(self).rect,
            each(old(self).widgets@, final(self).widgets@, |w: Widget, w2: Widget| cost_compacted(w, w2)),
    {
        let ghost before = self.widgets@;
        let ghost r0 = self.rect;
        let mut i: usize = 0;
        while i < self.widgets.len()
            invariant
                0 <= i <= self.widgets@.len(),
                self.rect == r0,
                self.widgets@.len() == before.len(),
                rect_in_range(self.rect),
                forall|j: int| 0 <= j < before.len() ==> (#[trigger] before[j]).wf(),
                forall|j: int| 0 <= j < i ==> (#[trigger] self.widgets@[j]).wf(),
                forall|j: int| 0 <= j < i ==> (|w: Widget, w2: Widget| cost_compacted(w, w2))(#[trigger] before[j], self.widgets@[j]),
                forall|j: int| i <= j < before.len() ==> #[trigger] self.widgets@[j] == before[j],
            decreases self.widgets@.len() - i,
        {
            self.widgets[i].pop_cost();
            i = i + 1;
        }
        assert forall|j: int| 0 <= j < before.len() implies (#[trigger] self.widgets@[j]).wf() by {
            if j >= i {
                assert(self.widgets@[j] == before[j]);
            }
        }
    }

    /// Empties every cost plot and sets its epoch count back to zero.
    pub fn clear_costs(&mut self)
        requires
            old(self).wf(),
        ensures
            final(self).wf(),
            final(self).rect == old(self).rect,
            each(old(self).widgets@, final(self).widgets@, |w: Widget, w2: Widget| cost_cleared(w, w2)),
    {
        let ghost before = self.widgets@;
        let ghost r0 = self.rect;
        let mut i: usize = 0;
        while i < self.widgets.len()
            invariant
                0 <= i <= self.widgets@.len(),
                self.rect == r0,
                self.widgets@.len() == before.len(),
                rect_in_range(self.rect),
                forall|j: int| 0 <= j < before.len() ==> (#[trigger] before[j]).wf(),
                forall|j: int| 0 <= j < i ==> (#[trigger] self.widgets@[j]).wf(),
                forall|j: int| 0 <= j < i ==> (|w: Widget, w2: Widget| cost_cleared(w, w2))(#[trigger] before[j], self.widgets@[j]),
                forall|j: int| i <= j < before.len() ==> #[trigger] self.widgets@[j] == before[j],
            decreases self.widgets@.len() - i,
        {
            self.widgets[i].clear_cost();
            i = i + 1;
        }
        assert forall|j: int| 0 <= j < before.len() implies (#[trigger] self.widgets@[j]).wf() by {
            if j >= i {
                assert(self.widgets@[j] == before[j]);
            }
        }
    }

    /// Gives every output graph its reference series.
    pub fn set_dense_data(&mut self, reference: &Vec<i64>)
        requires
            old(self).wf(),
        ensures
            final(self).wf(),
            final(self).rect == old(self).rect,
            each(old(self).widgets@, final(self).widgets@, |w: Widget, w2: Widget| reference_set(w, w2, reference@)),
    {
        let ghost before = self.widgets@;
        let ghost r0 = self.rect;
        let mut i: usize = 0;
        while i < self.widgets.len()
            invariant
                0 <= i <= self.widgets@.len(),
                self.rect == r0,
                self.widgets@.len() == before.len(),
                rect_in_range(self.rect),
                forall|j: int| 0 <= j < before.len() ==> (#[trigger] before[j]).wf(),
                forall|j: int| 0 <= j < i ==> (#[trigger] self.widgets@[j]).wf(),
                forall|j: int| 0 <= j < i ==> (|w: Widget, w2: Widget| reference_set(w, w2, reference@))(#[trigger] before[j], self.widgets@[j]),
                forall|j: int| i <= j < before.len() ==> #[trigger] self.widgets@[j] == before[j],
            decreases self.widgets@.len() - i,
        {
            self.widgets[i].set_dense_data(reference);
            i = i + 1;
        }
        assert forall|j: int| 0 <= j < before.len() implies (#[trigger] self.widgets@[j]).wf() by {
            if j >= i {
                assert(self.widgets@[j] == before[j]);
            }
        }
    }

    /// Gives every image comparison its expected image.
    pub fn set_expected_image(&mut self, image: &Bitmap)
        requires
            old(self).wf(),
        ensures
            final(self).wf(),
            final(self).rect == old(self).rect,
            each(old(self).widgets@, final(self).widgets@, |w: Widget, w2: Widget| expected_set(w, w2, *image)),
    {
        let ghost before = self.widgets@;
        let ghost r0 = self.rect;
        let mut i: usize = 0;
        while i < self.widgets.len()
            invariant
                0 <= i <= self.widgets@.len(),
                self.rect == r0,
                self.widgets@.len() == before.len(),
                rect_in_range(self.rect),
                forall|j: int| 0 <= j < before.len() ==> (#[trigger] before[j]).wf(),
                forall|j: int| 0 <= j < i ==> (#[trigger] self.widgets@[j]).wf(),
                forall|j: int| 0 <= j < i ==> (|w: Widget, w2: Widget| expected_set(w, w2, *image))(#[trigger] before[j], self.widgets@[j]),
                forall|j: int| i <= j < before.len() ==> #[trigger] self.widgets@[j] == before[j],
            decreases self.widgets@.len() - i,
        {
            self.widgets[i].set_expected_image(image);
            i = i + 1;
        }
        assert forall|j: int| 0 <= j < before.len() implies (#[trigger] self.widgets@[j]).wf() by {
            if j >= i {
                assert(self.widgets@[j] == before[j]);
            }
        }
    }

    /// Passes one training tick to every widget.
    pub fn update(&mut self, cost: u64, epochs: usize, outputs: &Vec<i64>, snapshot: &Snapshot)
        requires
            old(self).wf(),
            snapshot.wf(),
        ensures
            final(self).wf(),
            final(self).rect == old(self).rect,
            final(self).widgets@.len() == old(self).widgets@.len(),
            forall|i: int| 0 <= i < old(self).widgets@.len() ==> ticked(
                #[trigger] old(self).widgets@[i],
                final(self).widgets@[i],
                cost,
                *snapshot,
                epochs,
                outputs@,
            ),
    {
        let ghost before = self.widgets@;
        let ghost r0 = self.rect;
        let mut i: usize = 0;
        while i < self.widgets.len()
            invariant
                0 <= i <= self.widgets@.len(),
                self.rect == r0,
                self.widgets@.len() == before.len(),
                rect_in_range(self.rect),
                snapshot.wf(),
                forall|j: int| 0 <= j < before.len() ==> (#[trigger] self.widgets@[j]).wf(),
                forall|j: int| 0 <= j < i ==> ticked(#[trigger] before[j], self.widgets@[j], cost, *snapshot, epochs, outputs@),
                forall|j: int| i <= j < before.len() ==> #[trigger] self.widgets@[j] == before[j],
            decreases self.widgets@.len() - i,
        {
            self.widgets[i].update(cost, snapshot, epochs, outputs);
            i = i + 1;
        }
    }

    /// What each widget asks to have drawn, in order.
    pub fn render(&self) -> (d: Vec<Drawing>)
        requires
            self.wf(),
        ensures
            d@.len() == self.widgets@.len(),
            forall|i: int| 0 <= i < d@.len() ==> drawn(#[trigger] self.widgets@[i], d@[i]),
    {
        let mut out: Vec<Drawing> = Vec::new();
        let mut i: usize = 0;
        while i < self.widgets.len()
            invariant
                0 <= i <= self.widgets@.len(),
                self.wf(),
                out@.len() == i,
                forall|j: int| 0 <= j < i ==> drawn(#[trigger] self.widgets@[j], out@[j]),
            decreases self.widgets@.len() - i,
        {
            out.push(self.widgets[i].render());
            i = i + 1;
        }
        out
    }
}

} // verus!
