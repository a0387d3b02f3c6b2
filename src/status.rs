//! The status line: labelled segments, each fed by one signal, joined in the
//! order they were registered.

use vstd::prelude::*;
use crate::signal::{combine_all, opt_cloned, CombineAllLatest};

verus! {

/// What stands between two segments of the line.
pub const SEPARATOR: &'static str = "   ";

/// The view of one slot of the combined state: `None` until the source has
/// produced, then the source's latest value, itself possibly absent.
pub open spec fn slot_view(s: Option<Option<String>>) -> Option<Option<Seq<char>>> {
    match s {
        Some(Some(v)) => Some(Some(v@)),
        Some(None) => Some(None),
        None => None,
    }
}

/// The views of all slots.
pub open spec fn slot_views(s: Seq<Option<Option<String>>>) -> Seq<Option<Option<Seq<char>>>> {
    s.map_values(|x: Option<Option<String>>| slot_view(x))
}

/// The views of a sequence of texts.
pub open spec fn label_views(v: Seq<String>) -> Seq<Seq<char>> {
    v.map_values(|s: String| s@)
}

/// The text of a segment: its label, a space, its value.
pub open spec fn segment_text(label: Seq<char>, value: Seq<char>) -> Seq<char> {
    label + " "@ + value
}

/// The texts of the segments whose value is known and present, in slot order.
pub open spec fn present_segments(
    labels: Seq<Seq<char>>,
    slots: Seq<Option<Option<Seq<char>>>>,
) -> Seq<Seq<char>>
    decreases slots.len(),
{
    if slots.len() == 0 {
        seq![]
    } else {
        let prev = present_segments(labels, slots.drop_last());
        match slots.last() {
            Some(Some(v)) => prev.push(segment_text(labels[slots.len() - 1], v)),
            _ => prev,
        }
    }
}

/// `parts` joined with `sep` between each two.
pub open spec fn join(parts: Seq<Seq<char>>, sep: Seq<char>) -> Seq<char>
    decreases parts.len(),
{
    if parts.len() == 0 {
        seq![]
    } else if parts.len() == 1 {
        parts[0]
    } else {
        join(parts.drop_last(), sep) + sep + parts.last()
    }
}

/// The line for the given labels and slots: the present segments joined by
/// the separator; absent segments leave no trace.
pub open spec fn render(labels: Seq<Seq<char>>, slots: Seq<Option<Option<Seq<char>>>>) -> Seq<
    char,
> {
    join(present_segments(labels, slots), SEPARATOR@)
}

/// Renders a line from the labels and a snapshot of the slots.
fn render_line(labels: &Vec<String>, slots: &Vec<Option<Option<String>>>) -> (r: String)
    requires
        labels@.len() == slots@.len(),
    ensures
        r@ == render(label_views(labels@), slot_views(slots@)),
{
    let ghost ls = label_views(labels@);
    let ghost ss = slot_views(slots@);
    let mut out = String::new();
    let mut first = true;
    let mut k: usize = 0;
    while k < slots.len()
        invariant
            labels@.len() == slots@.len(),
            ls == label_views(labels@),
            ss == slot_views(slots@),
            k <= slots@.len(),
            out@ == join(present_segments(ls, ss.take(k as int)), SEPARATOR@),
            first == (present_segments(ls, ss.take(k as int)).len() == 0),
        decreases slots@.len() - k,
    {
        let ghost prev = present_segments(ls, ss.take(k as int));
        assert(ss.take(k + 1).drop_last() =~= ss.take(k as int));
        match &slots[k] {
            Some(Some(v)) => {
                if !first {
                    out.append(SEPARATOR);
                }
                out.append(labels[k].as_str());
                out.append(" ");
                out.append(v.as_str());
                first = false;
                proof {
                    let seg = segment_text(ls[k as int], v@);
                    assert(present_segments(ls, ss.take(k + 1)) == prev.push(seg));
                    assert(prev.push(seg).drop_last() =~= prev);
                    if prev.len() == 0 {
                        assert(out@ =~= seg);
                    } else {
                        assert(out@ =~= join(prev, SEPARATOR@) + SEPARATOR@ + seg);
                    }
                }
            },
            _ => {
                assert(present_segments(ls, ss.take(k + 1)) == prev);
            },
        }
        k = k + 1;
    }
    assert(ss.take(slots@.len() as int) =~= ss);
    out
}

/// Collects the labels of the segments, in the order of the line.
pub struct LineBuilder {
    labels: Vec<String>,
}

impl View for LineBuilder {
    type V = Seq<Seq<char>>;

    /// The labels registered so far.
    closed spec fn view(&self) -> Seq<Seq<char>> {
        label_views(self.labels@)
    }
}

impl LineBuilder {
    /// A builder with no segment.
    pub fn new() -> (r: LineBuilder)
        ensures
            r@ == Seq::<Seq<char>>::empty(),
    {
        let r = LineBuilder { labels: Vec::new() };
        assert(label_views(r.labels@) =~= Seq::<Seq<char>>::empty());
        r
    }

    /// Adds a segment with this label after the ones registered so far.
    pub fn segment(self, label: &str) -> (r: LineBuilder)
        ensures
            r@ == self@.push(label@),
    {
        let mut labels = self.labels;
        let ghost before = labels@;
        labels.push(String::from_str(label));
        assert(label_views(labels@) =~= label_views(before).push(label@));
        LineBuilder { labels }
    }

    /// The line, with no segment known yet.
    pub fn build(self) -> (r: StatusLine)
        ensures
            r.wf(),
            r@.labels == self@,
            r@.slots.len() == self@.len(),
            forall|i: int| 0 <= i < r@.slots.len() ==> #[trigger] r@.slots[i] is None,
    {
        let n = self.labels.len();
        let state = combine_all(n);
        let r = StatusLine { labels: self.labels, state };
        assert forall|i: int| 0 <= i < r@.slots.len() implies #[trigger] r@.slots[i] is None by {
            assert(r.state@[i] is None);
        }
        r
    }
}

/// The state of a status line.
pub struct LineView {
    pub labels: Seq<Seq<char>>,
    pub slots: Seq<Option<Option<Seq<char>>>>,
}

/// A status line: the latest value of each segment's signal, and the labels.
pub struct StatusLine {
    labels: Vec<String>,
    state: CombineAllLatest<Option<String>>,
}

impl View for StatusLine {
    type V = LineView;

    closed spec fn view(&self) -> LineView {
        LineView { labels: label_views(self.labels@), slots: slot_views(self.state@) }
    }
}

impl StatusLine {
    /// Well-formed: one slot for each label.
    pub closed spec fn wf(&self) -> bool {
        self.labels@.len() == self.state@.len()
    }

    /// The number of segments.
    pub fn len(&self) -> (r: usize)
        requires
            self.wf(),
        ensures
            r == self@.slots.len(),
            r == self@.labels.len(),
    {
        self.labels.len()
    }

    /// Records the new value of segment `index` and returns the line.
    pub fn update(&mut self, index: usize, value: Option<String>) -> (r: String)
        requires
            old(self).wf(),
            index < old(self)@.slots.len(),
        ensures
            final(self).wf(),
            final(self)@.labels == old(self)@.labels,
            final(self)@.slots == old(self)@.slots.update(index as int, Some(slot_view_inner(value))),
            r@ == render(final(self)@.labels, final(self)@.slots),
    {
        let ghost before = self.state@;
        let snap = self.state.step(index, value);
        proof {
            assert(slot_views(self.state@) =~= slot_views(before).update(
                index as int,
                Some(slot_view_inner(value)),
            ));
            assert forall|i: int| 0 <= i < snap@.len() implies #[trigger] snap@[i] == self.state@[i] by {
                assert(opt_cloned(self.state@[i], snap@[i]));
            }
            assert(snap@ =~= self.state@);
        }
        render_line(&self.labels, &snap)
    }
}

/// The view of a segment's value.
pub open spec fn slot_view_inner(v: Option<String>) -> Option<Seq<char>> {
    match v {
        Some(s) => Some(s@),
        None => None,
    }
}

/// What the display shows: the override while one is present, else the
/// status line, else nothing.
pub fn merge_flash(flash: Option<Option<String>>, line: Option<String>) -> (r: String)
    ensures
        r@ == match flash {
            Some(Some(f)) => f@,
            _ => match line {
                Some(l) => l@,
                None => Seq::<char>::empty(),
            },
        },
{
    match flash {
        Some(Some(f)) => f,
        _ => match line {
            Some(l) => l,
            None => String::new(),
        },
    }
}

/// A segment whose source reports an absent value leaves no trace in the
/// line, no separator either: the line is the one in which that source has
/// not produced at all.
pub proof fn lemma_absent_segment_leaves_no_trace(
    labels: Seq<Seq<char>>,
    slots: Seq<Option<Option<Seq<char>>>>,
    i: int,
)
    requires
        0 <= i < slots.len(),
    ensures
        render(labels, slots.update(i, Some(None))) == render(labels, slots.update(i, None)),
{
    lemma_absent_segment_skipped(labels, slots, i);
}

proof fn lemma_absent_segment_skipped(
    labels: Seq<Seq<char>>,
    slots: Seq<Option<Option<Seq<char>>>>,
    i: int,
)
    requires
        0 <= i < slots.len(),
    ensures
        present_segments(labels, slots.update(i, Some(None))) == present_segments(
            labels,
            slots.update(i, None),
        ),
    decreases slots.len(),
{
    let a = slots.update(i, Some(None));
    let b = slots.update(i, None);
    if i == slots.len() - 1 {
        assert(a.drop_last() =~= slots.drop_last());
        assert(b.drop_last() =~= slots.drop_last());
    } else {
        lemma_absent_segment_skipped(labels, slots.drop_last(), i);
        assert(a.drop_last() =~= slots.drop_last().update(i, Some(None)));
        assert(b.drop_last() =~= slots.drop_last().update(i, None));
    }
}

} // verus!
