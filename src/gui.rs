//! The dashboard: a canvas split into sections, fed one training tick at a
//! time, and the decisions behind its key bindings.
use vstd::prelude::*;

use crate::bitmap::Bitmap;
use crate::diagram::Snapshot;
use crate::history::epochs_after;
use crate::layout::{
    canvas_pad_x, canvas_pad_y, canvas_sections, header_of, ratio_of, rect_in_range, sections_fit,
    sections_span, widgets_fit, LayoutError, Rect, SECTION_PAD,
};
use crate::section::{each, fresh, rects_of, Section};
use crate::widget::{
    cost_cleared, cost_compacted, drawn, expected_set, expiration_set, reference_set, ticked,
    Drawing, Widget, WidgetType,
};

verus! {

/// The keys the dashboard answers to.
#[derive(Clone, Copy, Debug, PartialEq, Eq, Structural)]
pub enum Key {
    F,
    I,
    R,
    S,
    L,
    Space,
    Backspace,
    Other,
}

/// What the host program is to do after a key press.
#[derive(Clone, Copy, Debug, PartialEq, Eq, Structural)]
pub enum Command {
    /// Nothing more: the dashboard has already done what the key asks.
    Nothing,
    /// Print each sample's input, network output and target.
    PrintOutputs,
    /// Save the network's current image.
    SaveImage,
    /// Reinitialise the network.
    ResetNetwork,
    /// Save the model under its name.
    SaveModel,
    /// Reinitialise the network, then load the model under its name.
    LoadModel,
    /// Tell the user that the key does nothing.
    Unbound,
}

/// The dashboard's state, apart from the window and the network.
#[derive(Debug)]
pub struct GUI {
    pub width: u32,
    pub height: u32,
    pub sections: Vec<Section>,
    /// Epochs trained per tick.
    pub epochs_per_second: usize,
    /// Epochs trained since the start or the last restart.
    pub epochs: usize,
    /// Whether ticks train the network; the space bar flips it.
    pub will_train: bool,
}

/// The boxes of `ss`, in order.
pub open spec fn section_rects(ss: Seq<Section>) -> Seq<Rect> {
    ss.map_values(|s: Section| s.rect)
}

/// `b` is `a`, section by section and widget by widget, under `rel`.
pub open spec fn every(a: Seq<Section>, b: Seq<Section>, rel: spec_fn(Widget, Widget) -> bool) -> bool {
    &&& b.len() == a.len()
    &&& forall|i: int| 0 <= i < a.len() ==> (#[trigger] b[i]).rect == a[i].rect && each(a[i].widgets@, b[i].widgets@, rel)
}

/// The height of every section of a canvas `height` pixels high.
pub open spec fn section_height(height: nat) -> int {
    height - header_of(height) - canvas_pad_y(height)
}

/// Some widget list is empty.
pub open spec fn any_empty(ss: Seq<Vec<WidgetType>>) -> bool {
    exists|i: int| 0 <= i < ss.len() && (#[trigger] ss[i])@.len() == 0
}

/// Some widget list is too long for its section's padding.
pub open spec fn any_crowded(ss: Seq<Vec<WidgetType>>, height: nat) -> bool {
    exists|i: int|
        0 <= i < ss.len() && ratio_of(section_height(height) as nat, SECTION_PAD as nat) * (#[trigger] ss[i])@.len()
            > section_height(height)
}

/// The class a network's outputs predict: the index of the largest output,
/// the last one where several are largest; `None` for no output.
pub fn predicted_class(outputs: &Vec<i64>) -> (r: Option<usize>)
    ensures
        r is None <==> outputs@.len() == 0,
        r matches Some(i) ==> {
            &&& i < outputs@.len()
            &&& forall|j: int| 0 <= j < outputs@.len() ==> outputs@[j] <= outputs@[i as int]
            &&& forall|j: int| i < j < outputs@.len() ==> outputs@[j] < outputs@[i as int]
        },
{
    if outputs.len() == 0 {
        return None;
    }
    let mut best: usize = 0;
    let mut i: usize = 1;
    while i < outputs.len()
        invariant
            1 <= i <= outputs@.len(),
            best < i,
            forall|j: int| 0 <= j < i ==> outputs@[j] <= outputs@[best as int],
            forall|j: int| best < j < i ==> outputs@[j] < outputs@[best as int],
        decreases outputs@.len() - i,
    {
        if outputs[i] >= outputs[best] {
            best = i;
        }
        i = i + 1;
    }
    Some(best)
}

impl GUI {
    pub open spec fn wf(&self) -> bool {
        forall|i: int| 0 <= i < self.sections@.len() ==> (#[trigger] self.sections@[i]).wf()
    }

    /// A dashboard for a `width` x `height` canvas, with no section yet,
    /// training one epoch per tick.
    pub fn new(width: u32, height: u32) -> (g: GUI)
        ensures
            g.wf(),
            g.width == width,
            g.height == height,
            g.sections@.len() == 0,
            g.epochs_per_second == 1,
            g.epochs == 0,
            g.will_train,
    {
        GUI { width, height, sections: Vec::new(), epochs_per_second: 1, epochs: 0, will_train: true }
    }

    /// Sets how many epochs each tick trains.
    pub fn set_epochs_per_second(&mut self, epochs: usize)
        ensures
            final(self).epochs_per_second == epochs,
            final(self).sections == old(self).sections,
            final(self).epochs == old(self).epochs,
            final(self).will_train == old(self).will_train,
            final(self).width == old(self).width,
            final(self).height == old(self).height,
    {
        self.epochs_per_second = epochs;
    }

    /// Splits the canvas into one section per list, side by side, and
    /// fills each with fresh widgets of the kinds listed, top to bottom.
    /// Refuses no list or an empty one, and lists that the padding leaves
    /// no room for; the dashboard is then left as it was.
    pub fn set_sections(&mut self, sections: &Vec<Vec<WidgetType>>) -> (r: Result<(), LayoutError>)
        requires
            old(self).wf(),
        ensures
            final(self).wf(),
            final(self).width == old(self).width,
            final(self).height == old(self).height,
            final(self).epochs == old(self).epochs,
            r == Err::<(), LayoutError>(LayoutError::Empty) <==> (sections@.len() == 0 || any_empty(
                sections@,
            )),
            r == Err::<(), LayoutError>(LayoutError::Crowded) <==> (sections@.len() > 0 && !any_empty(
                sections@,
            ) && (canvas_pad_x(old(self).width as nat) * sections@.len() > sections_span(
                old(self).width as nat,
            ) || any_crowded(sections@, old(self).height as nat))),
            r is Ok <==> (sections@.len() > 0 && !any_empty(sections@) && canvas_pad_x(
                old(self).width as nat,
            ) * sections@.len() <= sections_span(old(self).width as nat) && !any_crowded(
                sections@,
                old(self).height as nat,
            )),
            r is Err ==> final(self).sections == old(self).sections,
            r is Ok ==> {
                &&& sections_fit(
                    section_rects(final(self).sections@),
                    final(self).width as nat,
                    final(self).height as nat,
                    sections@.len(),
                )
                &&& forall|i: int| 0 <= i < sections@.len() ==> widgets_fit(
                    rects_of((#[trigger] final(self).sections@[i]).widgets@),
                    final(self).sections@[i].rect,
                    sections@[i]@.len(),
                )
                &&& forall|i: int, j: int| 0 <= i < sections@.len() && 0 <= j < sections@[i]@.len() ==> fresh(
                    #[trigger] final(self).sections@[i].widgets@[j],
                    sections@[i]@[j],
                )
            },
    {
        let n = sections.len();
        if n == 0 {
            return Err(LayoutError::Empty);
        }
        let mut i: usize = 0;
        while i < n
            invariant
                0 <= i <= n,
                n == sections@.len(),
                self.wf(),
                forall|j: int| 0 <= j < i ==> (#[trigger] sections@[j])@.len() > 0,
            decreases n - i,
        {
            if sections[i].len() == 0 {
                assert(sections@[i as int]@.len() == 0);
                return Err(LayoutError::Empty);
            }
            i = i + 1;
        }
        let rects = match canvas_sections(self.width, self.height, n) {
            Ok(v) => v,
            Err(e) => {
                return Err(e);
            },
        };
        let mut made: Vec<Section> = Vec::new();
        let mut i: usize = 0;
        while i < n
            invariant
                0 <= i <= n,
                n == sections@.len(),
                n > 0,
                self.wf(),
                !any_empty(sections@),
                rects@.len() == n,
                sections_fit(rects@, self.width as nat, self.height as nat, n as nat),
                forall|j: int| 0 <= j < n ==> rect_in_range(#[trigger] rects@[j]),
                made@.len() == i,
                forall|j: int| 0 <= j < i ==> (#[trigger] made@[j]).wf(),
                forall|j: int| 0 <= j < i ==> (#[trigger] made@[j]).rect == rects@[j],
                forall|j: int| 0 <= j < i ==> widgets_fit(
                    rects_of((#[trigger] made@[j]).widgets@),
                    made@[j].rect,
                    sections@[j]@.len(),
                ),
                forall|j: int, k: int| 0 <= j < i && 0 <= k < sections@[j]@.len() ==> fresh(
                    #[trigger] made@[j].widgets@[k],
                    sections@[j]@[k],
                ),
                forall|j: int| 0 <= j < i ==> !(ratio_of(section_height(self.height as nat) as nat, SECTION_PAD as nat)
                    * (#[trigger] sections@[j])@.len() > section_height(self.height as nat)),
            decreases n - i,
        {
            let mut s = Section::new(rects[i]);
            match s.set_widgets(&sections[i]) {
                Ok(()) => {},
                Err(e) => {
                    assert(sections@[i as int]@.len() > 0);
                    return Err(e);
                },
            }
            made.push(s);
            i = i + 1;
        }
        assert(section_rects(made@) =~= rects@);
        self.sections = made;
        Ok(())
    }

    /// Sets the cost expiration of every cost plot: with `expire`, a tick
    /// drops the oldest cost when the epoch count is a multiple of
    /// `epochs + 1`.
    pub fn set_cost_expiration(&mut self, expire: bool, epochs: usize)
        requires
            old(self).wf(),
        ensures
            final(self).wf(),
            final(self).width == old(self).width,
            final(self).height == old(self).height,
            final(self).epochs_per_second == old(self).epochs_per_second,
            final(self).will_train == old(self).will_train,
            final(self).epochs == old(self).epochs,
            every(old(self).sections@, final(self).sections@, |w: Widget, w2: Widget| expiration_set(w, w2, expire, epochs)),
    {
        let ghost before = self.sections@;
        let ghost e0 = self.epochs;
        let mut i: usize = 0;
        while i < self.sections.len()
            invariant
                0 <= i <= self.sections@.len(),
                self.sections@.len() == before.len(),
                self.width == old(self).width,
                self.height == old(self).height,
                self.epochs_per_second == old(self).epochs_per_second,
                self.will_train == old(self).will_train,
                self.epochs == e0,
                forall|j: int| 0 <= j < before.len() ==> (#[trigger] before[j]).wf(),
                forall|j: int| 0 <= j < i ==> (#[trigger] self.sections@[j]).wf(),
                forall|j: int| 0 <= j < i ==> (#[trigger] self.sections@[j]).rect == before[j].rect && each(before[j].widgets@, self.sections@[j].widgets@, |w: Widget, w2: Widget| expiration_set(w, w2, expire, epochs)),
                forall|j: int| i <= j < before.len() ==> #[trigger] self.sections@[j] == before[j],
            decreases self.sections@.len() - i,
        {
            self.sections[i].set_cost_expiration(expire, epochs);
            i = i + 1;
        }
        assert forall|j: int| 0 <= j < before.len() implies (#[trigger] self.sections@[j]).wf() by {
            if j >= i {
                assert(self.sections@[j] == before[j]);
            }
        }
    }

    /// Compacts the cost series of every cost plot.
    pub fn pop_cost(&mut self)
        requires
            old(self).wf(),
        ensures
            final(self).wf(),
            final(self).width == old(self).width,
            final(self).height == old(self).height,
            final(self).epochs_per_second == old(self).epochs_per_second,
            final(self).will_train == old(self).will_train,
            final(self).epochs == old(self).epochs,
            every(old(self).sections@, final(self).sections@, |w: Widget, w2: Widget| cost_compacted(w, w2)),
    {
        let ghost before = self.sections@;
        let ghost e0 = self.epochs;
        let mut i: usize = 0;
        while i < self.sections.len()
            invariant
                0 <= i <= self.sections@.len(),
                self.sections@.len() == before.len(),
                self.width == old(self).width,
                self.height == old(self).height,
                self.epochs_per_second == old(self).epochs_per_second,
                self.will_train == old(self).will_train,
                self.epochs == e0,
                forall|j: int| 0 <= j < before.len() ==> (#[trigger] before[j]).wf(),
                forall|j: int| 0 <= j < i ==> (#[trigger] self.sections@[j]).wf(),
                forall|j: int| 0 <= j < i ==> (#[trigger] self.sections@[j]).rect == before[j].rect && each(before[j].widgets@, self.sections@[j].widgets@, |w: Widget, w2: Widget| cost_compacted(w, w2)),
                forall|j: int| i <= j < before.len() ==> #[trigger] self.sections@[j] == before[j],
            decreases self.sections@.len() - i,
        {
            self.sections[i].pop_cost();
            i = i + 1;
        }
        assert forall|j: int| 0 <= j < before.len() implies (#[trigger] self.sections@[j]).wf() by {
            if j >= i {
                assert(self.sections@[j] == before[j]);
            }
        }
    }

    /// Gives every output graph its reference series.
    pub fn set_dense_data(&mut self, reference: &Vec<i64>)
        requires
            old(self).wf(),
        ensures
            final(self).wf(),
            final(self).width == old(self).width,
            final(self).height == old(self).height,
            final(self).epochs_per_second == old(self).epochs_per_second,
            final(self).will_train == old(self).will_train,
            final(self).epochs == old(self).epochs,
            every(old(self).sections@, final(self).sections@, |w: Widget, w2: Widget| reference_set(w, w2, reference@)),
    {
        let ghost before = self.sections@;
        let ghost e0 = self.epochs;
        let mut i: usize = 0;
        while i < self.sections.len()
            invariant
                0 <= i <= self.sections@.len(),
                self.sections@.len() == before.len(),
                self.width == old(self).width,
                self.height == old(self).height,
                self.epochs_per_second == old(self).epochs_per_second,
                self.will_train == old(self).will_train,
                self.epochs == e0,
                forall|j: int| 0 <= j < before.len() ==> (#[trigger] before[j]).wf(),
                forall|j: int| 0 <= j < i ==> (#[trigger] self.sections@[j]).wf(),
                forall|j: int| 0 <= j < i ==> (#[trigger] self.sections@[j]).rect == before[j].rect && each(before[j].widgets@, self.sections@[j].widgets@, |w: Widget, w2: Widget| reference_set(w, w2, reference@)),
                forall|j: int| i <= j < before.len() ==> #[trigger] self.sections@[j] == before[j],
            decreases self.sections@.len() - i,
        {
            self.sections[i].set_dense_data(reference);
            i = i + 1;
        }
        assert forall|j: int| 0 <= j < before.len() implies (#[trigger] self.sections@[j]).wf() by {
            if j >= i {
                assert(self.sections@[j] == before[j]);
            }
        }
    }

    /// Gives every image comparison its expected image.
    pub fn set_expected_image(&mut self, image: &Bitmap)
        requires
            old(self).wf(),
        ensures
            final(self).wf(),
            final(self).width == old(self).width,
            final(self).height == old(self).height,
            final(self).epochs_per_second == old(self).epochs_per_second,
            final(self).will_train == old(self).will_train,
            final(self).epochs == old(self).epochs,
            every(old(self).sections@, final(self).sections@, |w: Widget, w2: Widget| expected_set(w, w2, *image)),
    {
        let ghost before = self.sections@;
        let ghost e0 = self.epochs;
        let mut i: usize = 0;
        while i < self.sections.len()
            invariant
                0 <= i <= self.sections@.len(),
                self.sections@.len() == before.len(),
                self.width == old(self).width,
                self.height == old(self).height,
                self.epochs_per_second == old(self).epochs_per_second,
                self.will_train == old(self).will_train,
                self.epochs == e0,
                forall|j: int| 0 <= j < before.len() ==> (#[trigger] before[j]).wf(),
                forall|j: int| 0 <= j < i ==> (#[trigger] self.sections@[j]).wf(),
                forall|j: int| 0 <= j < i ==> (#[trigger] self.sections@[j]).rect == before[j].rect && each(before[j].widgets@, self.sections@[j].widgets@, |w: Widget, w2: Widget| expected_set(w, w2, *image)),
                forall|j: int| i <= j < before.len() ==> #[trigger] self.sections@[j] == before[j],
            decreases self.sections@.len() - i,
        {
            self.sections[i].set_expected_image(image);
            i = i + 1;
        }
        assert forall|j: int| 0 <= j < before.len() implies (#[trigger] self.sections@[j]).wf() by {
            if j >= i {
                assert(self.sections@[j] == before[j]);
            }
        }
    }

    /// Starts over: empties every cost plot and sets every epoch count back
    /// to zero.
    pub fn restart(&mut self)
        requires
            old(self).wf(),
        ensures
            final(self).wf(),
            final(self).width == old(self).width,
            final(self).height == old(self).height,
            final(self).epochs_per_second == old(self).epochs_per_second,
            final(self).will_train == old(self).will_train,
            final(self).epochs == 0,
            every(old(self).sections@, final(self).sections@, |w: Widget, w2: Widget| cost_cleared(w, w2)),
    {
        self.epochs = 0;
        let ghost before = self.sections@;
        let ghost e0 = self.epochs;
        let mut i: usize = 0;
        while i < self.sections.len()
            invariant
                0 <= i <= self.sections@.len(),
                self.sections@.len() == before.len(),
                self.width == old(self).width,
                self.height == old(self).height,
                self.epochs_per_second == old(self).epochs_per_second,
                self.will_train == old(self).will_train,
                self.epochs == e0,
                forall|j: int| 0 <= j < before.len() ==> (#[trigger] before[j]).wf(),
                forall|j: int| 0 <= j < i ==> (#[trigger] self.sections@[j]).wf(),
                forall|j: int| 0 <= j < i ==> (#[trigger] self.sections@[j]).rect == before[j].rect && each(before[j].widgets@, self.sections@[j].widgets@, |w: Widget, w2: Widget| cost_cleared(w, w2)),
                forall|j: int| i <= j < before.len() ==> #[trigger] self.sections@[j] == before[j],
            decreases self.sections@.len() - i,
        {
            self.sections[i].clear_costs();
            i = i + 1;
        }
        assert forall|j: int| 0 <= j < before.len() implies (#[trigger] self.sections@[j]).wf() by {
            if j >= i {
                assert(self.sections@[j] == before[j]);
            }
        }
    }

    /// Takes one training tick of `epochs_per_second` epochs, with its cost,
    /// the network after it and the network's outputs over the samples.
    pub fn update(&mut self, cost: u64, snapshot: &Snapshot, outputs: &Vec<i64>)
        requires
            old(self).wf(),
            snapshot.wf(),
        ensures
            final(self).wf(),
            final(self).width == old(self).width,
            final(self).height == old(self).height,
            final(self).epochs_per_second == old(self).epochs_per_second,
            final(self).will_train == old(self).will_train,
            final(self).epochs == epochs_after(old(self).epochs as nat, old(self).epochs_per_second as nat),
            every(old(self).sections@, final(self).sections@, |w: Widget, w2: Widget| ticked(w, w2, cost, *snapshot, old(self).epochs_per_second, outputs@)),
    {
        let eps = self.epochs_per_second;
        self.epochs = if self.epochs <= usize::MAX - eps {
            self.epochs + eps
        } else {
            usize::MAX
        };
        let ghost before = self.sections@;
        let ghost e0 = self.epochs;
        let mut i: usize = 0;
        while i < self.sections.len()
            invariant
                0 <= i <= self.sections@.len(),
                self.sections@.len() == before.len(),
                self.width == old(self).width,
                self.height == old(self).height,
                self.epochs_per_second == old(self).epochs_per_second,
                self.will_train == old(self).will_train,
                self.epochs == e0,
                snapshot.wf(),
                eps == old(self).epochs_per_second,
                forall|j: int| 0 <= j < before.len() ==> (#[trigger] before[j]).wf(),
                forall|j: int| 0 <= j < i ==> (#[trigger] self.sections@[j]).wf(),
                forall|j: int| 0 <= j < i ==> (#[trigger] self.sections@[j]).rect == before[j].rect && each(before[j].widgets@, self.sections@[j].widgets@, |w: Widget, w2: Widget| ticked(w, w2, cost, *snapshot, old(self).epochs_per_second, outputs@)),
                forall|j: int| i <= j < before.len() ==> #[trigger] self.sections@[j] == before[j],
            decreases self.sections@.len() - i,
        {
            self.sections[i].update(cost, eps, outputs, snapshot);
            i = i + 1;
        }
        assert forall|j: int| 0 <= j < before.len() implies (#[trigger] self.sections@[j]).wf() by {
            if j >= i {
                assert(self.sections@[j] == before[j]);
            }
        }
    }

    /// What every widget asks to have drawn, section by section.
    pub fn render(&self) -> (d: Vec<Vec<Drawing>>)
        requires
            self.wf(),
        ensures
            d@.len() == self.sections@.len(),
            forall|i: int| 0 <= i < d@.len() ==> (#[trigger] d@[i])@.len() == self.sections@[i].widgets@.len(),
            forall|i: int, j: int| 0 <= i < d@.len() && 0 <= j < d@[i]@.len() ==> drawn(
                self.sections@[i].widgets@[j],
                #[trigger] d@[i]@[j],
            ),
    {
        let mut out: Vec<Vec<Drawing>> = Vec::new();
        let mut i: usize = 0;
        while i < self.sections.len()
            invariant
                0 <= i <= self.sections@.len(),
                self.wf(),
                out@.len() == i,
                forall|l: int| 0 <= l < i ==> (#[trigger] out@[l])@.len() == self.sections@[l].widgets@.len(),
                forall|l: int, j: int| 0 <= l < i && 0 <= j < out@[l]@.len() ==> drawn(
                    self.sections@[l].widgets@[j],
                    #[trigger] out@[l]@[j],
                ),
            decreases self.sections@.len() - i,
        {
            out.push(self.sections[i].render());
            i = i + 1;
        }
        out
    }

    /// Answers a key press: Backspace compacts the cost plots, Space pauses
    /// or resumes training, R and L start over; the command says what is
    /// left for the host program to do.
    pub fn press(&mut self, key: Key) -> (c: Command)
        requires
            old(self).wf(),
        ensures
            final(self).wf(),
            final(self).width == old(self).width,
            final(self).height == old(self).height,
            final(self).epochs_per_second == old(self).epochs_per_second,
            key == Key::Space ==> final(self).will_train == !old(self).will_train,
            key != Key::Space ==> final(self).will_train == old(self).will_train,
            key == Key::Backspace ==> final(self).epochs == old(self).epochs && every(
                old(self).sections@,
                final(self).sections@,
                |w: Widget, w2: Widget| cost_compacted(w, w2),
            ),
            (key == Key::R || key == Key::L) ==> final(self).epochs == 0 && every(
                old(self).sections@,
                final(self).sections@,
                |w: Widget, w2: Widget| cost_cleared(w, w2),
            ),
            (key != Key::Backspace && key != Key::R && key != Key::L) ==> final(self).sections
                == old(self).sections && final(self).epochs == old(self).epochs,
            c == match key {
                Key::F => Command::PrintOutputs,
                Key::I => Command::SaveImage,
                Key::R => Command::ResetNetwork,
                Key::S => Command::SaveModel,
                Key::L => Command::LoadModel,
                Key::Space => Command::Nothing,
                Key::Backspace => Command::Nothing,
                Key::Other => Command::Unbound,
            },
    {
        match key {
            Key::F => Command::PrintOutputs,
            Key::I => Command::SaveImage,
            Key::R => {
                self.restart();
                Command::ResetNetwork
            },
            Key::S => Command::SaveModel,
            Key::L => {
                self.restart();
                Command::LoadModel
            },
            Key::Space => {
                self.will_train = !self.will_train;
                Command::Nothing
            },
            Key::Backspace => {
                self.pop_cost();
                Command::Nothing
            },
            Key::Other => Command::Unbound,
        }
    }
}

} // verus!
