//! An ordered collection of disjoint time intervals, each binding a child
//! element with its own clock origin. Per-frame calls are dispatched to
//! whichever interval contains the current timeline offset, after rebasing
//! the offset onto the child's local clock; the child's scheduling hint is
//! folded against the time remaining in the active interval, so even a
//! child reporting `Forever` is revisited at the interval boundary.

use vstd::prelude::*;

use crate::Context;
use crate::element::DrawCmd;
use crate::element::DynElement;
use crate::element::Element;
use crate::element::spec_draw;
use crate::element::spec_get_size;
use crate::element::wf_element;
use crate::frame::FrameLength;
use crate::frame::spec_fold;
use crate::geometry::Vec2;
use crate::time::Dur;
use crate::time::Interval;

verus! {

#[derive(Debug)]
pub struct Timeline {
    elements: Vec<(Interval, TimelineElement)>,
}

/// A child element bound into a timeline: `start` is the offset the child
/// perceives as its own elapsed time when its interval becomes active,
/// independent of where the interval sits on the parent's timeline.
#[derive(Debug)]
pub struct TimelineElement {
    pub start: Dur,
    pub inner: DynElement,
}

impl TimelineElement {
    pub fn new(element: Element) -> (r: TimelineElement)
        ensures
            r.start == (Dur { nanos: 0u64 }),
            *r.inner == element,
    {
        TimelineElement { start: Dur { nanos: 0 }, inner: Box::new(element) }
    }
}

/// What a seek over the interval list found for a given context: the active
/// interval with the rebased child context, the next pending interval, or
/// nothing at or after the offset.
#[derive(Clone, Copy, Debug)]
pub enum SeekOutcome {
    Active { index: usize, child_context: Context },
    Pending { index: usize },
    Idle,
}

/// An edit was refused because it would have left the interval collection
/// malformed.
#[derive(Clone, Copy, Debug, PartialEq, Eq, Structural)]
pub enum StructuralError {
    /// The new interval's end lies before its start.
    InvalidRange,
    /// The new interval overlaps content that the operation must not touch.
    OverlapsExisting,
    /// A rebased child clock or a shifted interval would exceed the
    /// representable range.
    DurationOverflow,
}

impl View for Timeline {
    type V = Seq<(Interval, TimelineElement)>;

    closed spec fn view(&self) -> Seq<(Interval, TimelineElement)> {
        self.elements@
    }
}

/// A single (interval, element) pair is well-formed: the interval's bounds
/// are ordered, and any offset inside it can be rebased onto the child's
/// clock without leaving `u64`.
pub open spec fn pair_wf(p: (Interval, TimelineElement)) -> bool {
    &&& p.0.start.nanos <= p.0.end.nanos
    &&& p.1.start.nanos + (p.0.end.nanos - p.0.start.nanos) <= u64::MAX
}

/// The interval-collection invariant: every pair well-formed, intervals
/// mutually disjoint and sorted ascending by start.
pub open spec fn intervals_wf(s: Seq<(Interval, TimelineElement)>) -> bool {
    &&& forall|i: int| 0 <= i < s.len() ==> pair_wf(#[trigger] s[i])
    &&& forall|i: int|
        0 <= i && i + 1 < s.len() ==> (#[trigger] s[i]).0.end.nanos <= s[i + 1].0.start.nanos
}

impl Timeline {
    /// The interval-collection invariant alone, without looking into the
    /// children.
    pub open spec fn wf_intervals(self) -> bool {
        intervals_wf(self@)
    }

    /// Deep well-formedness: the interval invariant here and in every
    /// timeline below.
    pub open spec fn wf(self) -> bool
        decreases self, 0int,
    {
        &&& self.wf_intervals()
        &&& forall|i: int|
            0 <= i < self@.len() ==> wf_element(*(#[trigger] self@[i]).1.inner)
    }
}

/// `y` is an independent deep copy of the timeline `x` with every child
/// freshly cloned: same intervals and clock origins, caches reset.
pub open spec fn timeline_fresh_clone(x: Timeline, y: Timeline) -> bool
    decreases x, 0int,
    via timeline_fresh_clone_dec
{
    &&& y@.len() == x@.len()
    &&& forall|i: int|
        0 <= i < x@.len() ==> (#[trigger] y@[i]).0 == x@[i].0 && y@[i].1.start == x@[i].1.start
            && crate::element::is_fresh_clone(*x@[i].1.inner, *y@[i].1.inner)
}

#[via_fn]
proof fn timeline_fresh_clone_dec(x: Timeline, y: Timeline) {
    lemma_timeline_children_smaller(x);
}

impl Timeline {
    /// A deep copy of the whole timeline with every child freshly cloned.
    pub fn clone_timeline(&self) -> (r: Timeline)
        ensures
            timeline_fresh_clone(*self, r),
        decreases *self, 0int,
    {
        proof {
            assert(self@.len() == self.elements.len());
        }
        let n = self.elements.len();
        let mut elements: Vec<(Interval, TimelineElement)> = Vec::new();
        let mut k: usize = 0;
        while k < n
            invariant
                k <= n,
                n == self.elements.len(),
                self@.len() == n,
                elements@.len() == k,
                forall|i: int|
                    0 <= i < k ==> (#[trigger] elements@[i]).0 == self@[i].0
                        && elements@[i].1.start == self@[i].1.start
                        && crate::element::is_fresh_clone(
                        *self@[i].1.inner,
                        *elements@[i].1.inner,
                    ),
            decreases n - k,
        {
            proof {
                lemma_timeline_children_smaller(*self);
            }
            let range = self.elements[k].0;
            let start = self.elements[k].1.start;
            let child = self.elements[k].1.inner.clone_element();
            elements.push((range, TimelineElement { start, inner: Box::new(child) }));
            k = k + 1;
        }
        Timeline { elements }
    }
}

impl Clone for Timeline {
    /// Deep clone with every texture cache in the subtree reset.
    fn clone(&self) -> (r: Self)
        ensures
            timeline_fresh_clone(*self, r),
    {
        self.clone_timeline()
    }
}

impl Clone for TimelineElement {
    /// Deep clone: the clock origin is kept, the child freshly cloned.
    fn clone(&self) -> (r: Self)
        ensures
            r.start == self.start,
            crate::element::is_fresh_clone(*self.inner, *r.inner),
    {
        TimelineElement { start: self.start, inner: Box::new(self.inner.clone_element()) }
    }
}

/// Whether a seek stops at this pair: its interval contains the offset, or
/// begins strictly after it.
pub open spec fn seek_hit(p: (Interval, TimelineElement), off: Dur) -> bool {
    p.0.spec_contains(off) || p.0.start.nanos > off.nanos
}

/// The first index whose pair the seek stops at, or the length when the
/// scan runs past every interval.
pub open spec fn seek_index(s: Seq<(Interval, TimelineElement)>, off: Dur) -> int
    decreases s.len(),
{
    if s.len() == 0 {
        0
    } else if seek_hit(s[0], off) {
        0
    } else {
        1 + seek_index(s.subrange(1, s.len() as int), off)
    }
}

/// The context handed to the child of an active interval: the offset is
/// rebased onto the child's local clock, `offset - (interval.start -
/// child.start)`; everything else is copied.
pub open spec fn rebase_spec(ctx: Context, iv: Interval, child_start: Dur) -> Context {
    Context {
        duration_from_start: ctx.duration_from_start,
        duration_offset: Dur {
            nanos: ((ctx.duration_offset.nanos - iv.start.nanos) + child_start.nanos) as u64,
        },
        transform: ctx.transform,
    }
}

/// The seek algorithm over the whole list: the first interval containing
/// the offset is active; else the first interval starting after it is
/// pending; else the timeline is idle.
pub open spec fn seek_spec(s: Seq<(Interval, TimelineElement)>, ctx: Context) -> SeekOutcome {
    let i = seek_index(s, ctx.duration_offset);
    if i < s.len() {
        if s[i].0.spec_contains(ctx.duration_offset) {
            SeekOutcome::Active {
                index: i as usize,
                child_context: rebase_spec(ctx, s[i].0, s[i].1.start),
            }
        } else {
            SeekOutcome::Pending { index: i as usize }
        }
    } else {
        SeekOutcome::Idle
    }
}

/// The time left in an interval at a given offset inside it.
pub open spec fn remaining_in(iv: Interval, off: Dur) -> Dur {
    Dur { nanos: (iv.end.nanos - off.nanos) as u64 }
}

/// The time until an interval that still lies ahead begins.
pub open spec fn until_start(iv: Interval, off: Dur) -> Dur {
    Dur { nanos: (iv.start.nanos - off.nanos) as u64 }
}

/// The seek index lies within bounds, stops at a hit, and nothing before
/// it is one.
proof fn lemma_seek_index_props(s: Seq<(Interval, TimelineElement)>, off: Dur)
    ensures
        0 <= seek_index(s, off) <= s.len(),
        seek_index(s, off) < s.len() ==> seek_hit(s[seek_index(s, off)], off),
        forall|j: int| 0 <= j < seek_index(s, off) ==> !seek_hit(#[trigger] s[j], off),
    decreases s.len(),
{
    if s.len() == 0 {
    } else if seek_hit(s[0], off) {
    } else {
        let tail = s.subrange(1, s.len() as int);
        lemma_seek_index_props(tail, off);
        assert forall|j: int| 0 <= j < seek_index(s, off) implies !seek_hit(
            #[trigger] s[j],
            off,
        ) by {
            if j > 0 {
                assert(tail[j - 1] == s[j]);
            }
        }
        if seek_index(s, off) < s.len() {
            assert(tail[seek_index(tail, off)] == s[seek_index(s, off)]);
        }
    }
}

/// Every child bound into a timeline is structurally smaller than the
/// timeline itself.
pub(crate) proof fn lemma_timeline_children_smaller(t: Timeline)
    ensures
        forall|i: int|
            0 <= i < t@.len() ==> #[trigger] (decreases_to!(t => *t@[i].1.inner)),
{
    assert forall|i: int|
        0 <= i < t@.len() implies #[trigger] (decreases_to!(t => *t@[i].1.inner)) by {
        assert(decreases_to!(t => t.elements));
        assert(decreases_to!(t.elements => t.elements@));
        assert(decreases_to!(t.elements@ => t.elements@[i]));
        assert(decreases_to!(t.elements@[i] => *t.elements@[i].1.inner));
    }
}

#[via_fn]
proof fn timeline_size_spec_dec(t: Timeline, ctx: Context) {
    lemma_seek_index_props(t@, ctx.duration_offset);
    lemma_timeline_children_smaller(t);
}

#[via_fn]
proof fn timeline_draw_spec_dec(t: Timeline, ctx: Context) {
    lemma_seek_index_props(t@, ctx.duration_offset);
    lemma_timeline_children_smaller(t);
}

pub open spec fn timeline_size_spec(t: Timeline, ctx: Context) -> (Vec2, FrameLength)
    decreases t, 0int,
    via timeline_size_spec_dec
{
    match seek_spec(t@, ctx) {
        SeekOutcome::Active { index, child_context } => {
            let child = spec_get_size(*t@[index as int].1.inner, child_context);
            (child.0, spec_fold(child.1, remaining_in(t@[index as int].0, ctx.duration_offset)))
        },
        SeekOutcome::Pending { index } => (
            Vec2 { x: 0u32, y: 0u32 },
            FrameLength::Limited(until_start(t@[index as int].0, ctx.duration_offset)),
        ),
        SeekOutcome::Idle => (Vec2 { x: 0u32, y: 0u32 }, FrameLength::Forever),
    }
}

pub open spec fn timeline_draw_spec(t: Timeline, ctx: Context) -> (Seq<DrawCmd>, FrameLength)
    decreases t, 0int,
    via timeline_draw_spec_dec
{
    match seek_spec(t@, ctx) {
        SeekOutcome::Active { index, child_context } => {
            let child = spec_draw(*t@[index as int].1.inner, child_context);
            (child.0, spec_fold(child.1, remaining_in(t@[index as int].0, ctx.duration_offset)))
        },
        SeekOutcome::Pending { index } => (
            Seq::empty(),
            FrameLength::Limited(until_start(t@[index as int].0, ctx.duration_offset)),
        ),
        SeekOutcome::Idle => (Seq::empty(), FrameLength::Forever),
    }
}

/// `seek_index` is the first hit: if everything before `k` misses and `k`
/// hits (or the scan runs out), the index is exactly `k`.
proof fn lemma_seek_index_at(s: Seq<(Interval, TimelineElement)>, off: Dur, k: int)
    requires
        0 <= k <= s.len(),
        forall|j: int| 0 <= j < k ==> !seek_hit(#[trigger] s[j], off),
        k < s.len() ==> seek_hit(s[k], off),
    ensures
        seek_index(s, off) == k,
    decreases k,
{
    if s.len() == 0 {
    } else if k == 0 {
    } else {
        let tail = s.subrange(1, s.len() as int);
        assert(!seek_hit(s[0], off));
        assert forall|j: int| 0 <= j < k - 1 implies !seek_hit(#[trigger] tail[j], off) by {
            assert(tail[j] == s[j + 1]);
        }
        if k - 1 < tail.len() {
            assert(tail[k - 1] == s[k]);
        }
        lemma_seek_index_at(tail, off, k - 1);
    }
}

impl Timeline {
    /// Scans the intervals in ascending start order and reports the active
    /// interval with the rebased child context, the next pending interval,
    /// or that the timeline is idle.
    pub fn get_context_and_element(&self, context: &Context) -> (r: SeekOutcome)
        requires
            self.wf_intervals(),
        ensures
            r == seek_spec(self@, *context),
    {
        let off = context.duration_offset;
        let n = self.elements.len();
        let mut k: usize = 0;
        while k < n
            invariant
                0 <= k <= n,
                n == self.elements.len(),
                self.wf_intervals(),
                off == context.duration_offset,
                forall|j: int| 0 <= j < k ==> !seek_hit(#[trigger] self@[j], off),
            decreases n - k,
        {
            let range = self.elements[k].0;
            if range.contains(off) {
                proof {
                    lemma_seek_index_at(self@, off, k as int);
                }
                let diff = off.nanos - range.start.nanos;
                let child_start = self.elements[k].1.start;
                assert(diff + child_start.nanos <= u64::MAX) by {
                    assert(pair_wf(self@[k as int]));
                }
                let child_context = Context {
                    duration_from_start: context.duration_from_start,
                    duration_offset: Dur { nanos: diff + child_start.nanos },
                    transform: context.transform,
                };
                return SeekOutcome::Active { index: k, child_context };
            }
            if range.start.nanos > off.nanos {
                proof {
                    lemma_seek_index_at(self@, off, k as int);
                }
                return SeekOutcome::Pending { index: k };
            }
            k = k + 1;
        }
        proof {
            lemma_seek_index_at(self@, off, n as int);
        }
        SeekOutcome::Idle
    }

    /// The active child's size with its hint folded against the remainder
    /// of the active interval; a zero size with the wait until the next
    /// interval, or with `Forever` when none remains.
    pub fn get_size(&self, context: &Context) -> (r: (Vec2, FrameLength))
        requires
            self.wf(),
        ensures
            r == timeline_size_spec(*self, *context),
        decreases *self, 0int,
    {
        proof {
            lemma_seek_index_props(self@, context.duration_offset);
            lemma_timeline_children_smaller(*self);
            assert(self@.len() == self.elements.len());
        }
        match self.get_context_and_element(context) {
            SeekOutcome::Active { index, child_context } => {
                proof {
                    assert(wf_element(*self@[index as int].1.inner));
                }
                let (size, frame_length) = self.elements[index].1.inner.get_size(&child_context);
                let range_end = self.elements[index].0.end;
                proof {
                    assert(self@[index as int].0.spec_contains(context.duration_offset));
                }
                (
                    size,
                    frame_length.fold_with_remaining(
                        Dur { nanos: range_end.nanos - context.duration_offset.nanos },
                    ),
                )
            },
            SeekOutcome::Pending { index } => {
                let range_start = self.elements[index].0.start;
                proof {
                    assert(seek_hit(self@[index as int], context.duration_offset));
                    assert(!self@[index as int].0.spec_contains(context.duration_offset));
                }
                (
                    Vec2::zero(),
                    FrameLength::Limited(
                        Dur { nanos: range_start.nanos - context.duration_offset.nanos },
                    ),
                )
            },
            SeekOutcome::Idle => (Vec2::zero(), FrameLength::Forever),
        }
    }

    /// Draws the active child under the rebased context, folding its hint
    /// against the remainder of the active interval; draws nothing when
    /// pending or idle.
    pub fn draw(&self, context: &Context, out: &mut Vec<DrawCmd>) -> (r: FrameLength)
        requires
            self.wf(),
        ensures
            final(out)@ == old(out)@ + timeline_draw_spec(*self, *context).0,
            r == timeline_draw_spec(*self, *context).1,
        decreases *self, 0int,
    {
        proof {
            lemma_seek_index_props(self@, context.duration_offset);
            lemma_timeline_children_smaller(*self);
            assert(self@.len() == self.elements.len());
        }
        match self.get_context_and_element(context) {
            SeekOutcome::Active { index, child_context } => {
                proof {
                    assert(wf_element(*self@[index as int].1.inner));
                }
                let frame_length = self.elements[index].1.inner.draw(&child_context, out);
                let range_end = self.elements[index].0.end;
                proof {
                    assert(self@[index as int].0.spec_contains(context.duration_offset));
                }
                frame_length.fold_with_remaining(
                    Dur { nanos: range_end.nanos - context.duration_offset.nanos },
                )
            },
            SeekOutcome::Pending { index } => {
                let range_start = self.elements[index].0.start;
                proof {
                    assert(seek_hit(self@[index as int], context.duration_offset));
                    assert(!self@[index as int].0.spec_contains(context.duration_offset));
                    assert(old(out)@ + Seq::<DrawCmd>::empty() =~= old(out)@);
                }
                FrameLength::Limited(
                    Dur { nanos: range_start.nanos - context.duration_offset.nanos },
                )
            },
            SeekOutcome::Idle => {
                proof {
                    assert(old(out)@ + Seq::<DrawCmd>::empty() =~= old(out)@);
                }
                FrameLength::Forever
            },
        }
    }

    /// Runtime check of the interval invariant here and in every timeline
    /// below.
    pub fn is_well_formed(&self) -> (b: bool)
        ensures
            b == self.wf(),
        decreases *self, 0int,
    {
        let n = self.elements.len();
        let mut k: usize = 0;
        while k < n
            invariant
                0 <= k <= n,
                n == self.elements.len(),
                forall|j: int| 0 <= j < k ==> pair_wf(#[trigger] self@[j]),
                forall|j: int|
                    0 <= j && j + 1 < n && j + 1 <= k ==> (#[trigger] self@[j]).0.end.nanos
                        <= self@[j + 1].0.start.nanos,
                forall|j: int| 0 <= j < k ==> wf_element(*(#[trigger] self@[j]).1.inner),
            decreases n - k,
        {
            proof {
                lemma_timeline_children_smaller(*self);
            }
            let iv = self.elements[k].0;
            let child_start = self.elements[k].1.start;
            if iv.end.nanos < iv.start.nanos {
                proof {
                    assert(!pair_wf(self@[k as int]));
                }
                return false;
            }
            if child_start.nanos > u64::MAX - (iv.end.nanos - iv.start.nanos) {
                proof {
                    assert(!pair_wf(self@[k as int]));
                }
                return false;
            }
            if k + 1 < n {
                if iv.end.nanos > self.elements[k + 1].0.start.nanos {
                    return false;
                }
            }
            if !self.elements[k].1.inner.is_well_formed() {
                return false;
            }
            k = k + 1;
        }
        true
    }

    /// The full interval list: each interval's bounds with its child and
    /// the child's local clock origin.
    pub fn get_elements(&self) -> (r: &Vec<(Interval, TimelineElement)>)
        ensures
            r@ == self@,
    {
        &self.elements
    }
}

/// A timeline element whose local clock is advanced by `delta`: its child's
/// clock is paused while it is obscured and resumes correctly afterwards.
pub open spec fn advance_start(e: TimelineElement, delta: int) -> TimelineElement {
    TimelineElement { start: Dur { nanos: (e.start.nanos + delta) as u64 }, inner: e.inner }
}

/// How many fragments of an existing pair survive splicing `to` over it.
pub open spec fn frag_count(p: (Interval, TimelineElement), to: Interval) -> int {
    let s_in = to.spec_contains(p.0.start);
    let e_in = to.spec_contains(p.0.end);
    if s_in && e_in {
        0
    } else if s_in || e_in {
        1
    } else if p.0.spec_contains(to.start) {
        2
    } else {
        1
    }
}

/// The surviving fragments of one existing pair after `to` is spliced over
/// it: dropped when fully covered; cut to a prefix or a suffix when one end
/// is covered, the suffix's clock advanced by the covered time; split into
/// both when `to` falls strictly inside, the prefix keeping a fresh clone
/// of the child; kept as-is when disjoint from `to`.
pub open spec fn fragments_match(
    p: (Interval, TimelineElement),
    to: Interval,
    fr: Seq<(Interval, TimelineElement)>,
) -> bool {
    let r = p.0;
    let e = p.1;
    let s_in = to.spec_contains(r.start);
    let e_in = to.spec_contains(r.end);
    if s_in && e_in {
        fr.len() == 0
    } else if s_in {
        &&& fr.len() == 1
    &&& fr[0].0 == (Interval { start: to.end, end: r.end })
        &&& fr[0].1 == advance_start(e, to.end.nanos - r.start.nanos)
    } else if e_in {
        &&& fr.len() == 1
        &&& fr[0].0 == (Interval { start: r.start, end: to.start })
        &&& fr[0].1 == e
    } else if r.spec_contains(to.start) {
        &&& fr.len() == 2
        &&& fr[0].0 == (Interval { start: r.start, end: to.start })
        &&& fr[0].1.start == e.start
        &&& crate::element::is_fresh_clone(*e.inner, *fr[0].1.inner)
        &&& fr[1].0 == (Interval { start: to.end, end: r.end })
        &&& fr[1].1 == advance_start(e, to.end.nanos - r.start.nanos)
    } else {
        &&& fr.len() == 1
        &&& fr[0] == p
    }
}

/// `r` is exactly the splice of `to` over `s`: the concatenation, in
/// order, of each pair's surviving fragments.
pub open spec fn splice_rel(
    s: Seq<(Interval, TimelineElement)>,
    to: Interval,
    r: Seq<(Interval, TimelineElement)>,
) -> bool
    decreases s.len(),
{
    if s.len() == 0 {
        r.len() == 0
    } else {
        let k = frag_count(s.last(), to);
        &&& r.len() >= k
        &&& fragments_match(s.last(), to, r.subrange(r.len() - k, r.len() as int))
        &&& splice_rel(s.drop_last(), to, r.subrange(0, r.len() - k))
    }
}

/// The first index whose interval starts at or after `d`, or the length.
pub open spec fn first_at_or_after(s: Seq<(Interval, TimelineElement)>, d: Dur) -> int
    decreases s.len(),
{
    if s.len() == 0 {
        0
    } else if s[0].0.start.nanos >= d.nanos {
        0
    } else {
        1 + first_at_or_after(s.subrange(1, s.len() as int), d)
    }
}

proof fn lemma_first_at_or_after_at(s: Seq<(Interval, TimelineElement)>, d: Dur, k: int)
    requires
        0 <= k <= s.len(),
        forall|j: int| 0 <= j < k ==> (#[trigger] s[j]).0.start.nanos < d.nanos,
        k < s.len() ==> s[k].0.start.nanos >= d.nanos,
    ensures
        first_at_or_after(s, d) == k,
    decreases k,
{
    if s.len() == 0 {
    } else if k == 0 {
    } else {
        let tail = s.subrange(1, s.len() as int);
        assert forall|j: int| 0 <= j < k - 1 implies (#[trigger] tail[j]).0.start.nanos
            < d.nanos by {
            assert(tail[j] == s[j + 1]);
        }
        if k - 1 < tail.len() {
            assert(tail[k - 1] == s[k]);
        }
        lemma_first_at_or_after_at(tail, d, k - 1);
    }
}

impl Timeline {
    /// Splices `to` into the interval collection, replacing whatever it
    /// overlaps — covered pairs are dropped, straddling pairs are cut or
    /// split with their clocks paused for the covered time — and inserts
    /// the new pair at its sorted position. Refused when `to` ends before
    /// it starts, or when the new pair's rebased clock could not stay
    /// representable. When `to.end` coincides with an existing interval's
    /// end, the surviving suffix is the zero-width `[to.end, to.end)`:
    /// harmless to seeking, since an empty interval contains no offset.
    pub fn append(&mut self, element: TimelineElement, to: Interval) -> (r: Result<
        (),
        StructuralError,
    >)
        requires
            old(self).wf_intervals(),
        ensures
            to.end.nanos < to.start.nanos ==> r == Err::<(), StructuralError>(
                StructuralError::InvalidRange,
            ),
            to.start.nanos <= to.end.nanos && element.start.nanos + (to.end.nanos
                - to.start.nanos) > u64::MAX ==> r == Err::<(), StructuralError>(
                StructuralError::DurationOverflow,
            ),
            r is Err ==> final(self)@ == old(self)@,
            r is Ok <==> (to.start.nanos <= to.end.nanos && element.start.nanos + (to.end.nanos
                - to.start.nanos) <= u64::MAX),
            r is Ok ==> {
                let k = first_at_or_after(final(self)@, to.start);
                &&& 0 <= k < final(self)@.len()
                &&& final(self)@[k].0 == to
                &&& final(self)@[k].1 == element
                &&& splice_rel(old(self)@, to, final(self)@.remove(k))
            },
            final(self).wf_intervals(),
            old(self).wf() && wf_element(*element.inner) ==> final(self).wf(),
    {
        if to.end.nanos < to.start.nanos {
            return Err(StructuralError::InvalidRange);
        }
        let width = to.end.nanos - to.start.nanos;
        if element.start.nanos > u64::MAX - width {
            return Err(StructuralError::DurationOverflow);
        }
        let ghost s0 = self@;
        let ghost deep = old(self).wf() && wf_element(*element.inner);
        let mut result: Vec<(Interval, TimelineElement)> = Vec::new();
        proof {
            assert(s0.subrange(0, 0) =~= Seq::<(Interval, TimelineElement)>::empty());
            assert(self@ =~= s0.subrange(0, s0.len() as int));
        }
        while self.elements.len() > 0
            invariant
                to.start.nanos <= to.end.nanos,
                intervals_wf(s0),
                s0 == old(self)@,
                deep == (old(self).wf() && wf_element(*element.inner)),
                self@.len() <= s0.len(),
                self@ == s0.subrange(s0.len() - self@.len(), s0.len() as int),
                splice_rel(s0.subrange(0, s0.len() - self@.len()), to, result@),
                intervals_wf(result@),
                forall|q: int|
                    0 <= q < result@.len() ==> !to.spec_contains(
                        (#[trigger] result@[q]).0.start,
                    ) && (result@[q].0.end.nanos <= to.start.nanos || result@[q].0.start.nanos
                        >= to.end.nanos),
                deep ==> forall|q: int|
                    0 <= q < result@.len() ==> wf_element(*(#[trigger] result@[q]).1.inner),
                result@.len() > 0 && self@.len() > 0 ==> result@.last().0.end.nanos
                    <= self@[0].0.start.nanos,
            decreases self@.len(),
        {
            let ghost jj = s0.len() - self@.len();
            let ghost prev_self = self@;
            let ghost prev_result = result@;
            proof {
                assert(prev_self[0] == s0[jj]);
                assert(pair_wf(s0[jj]));
                if deep {
                    assert(old(self).wf());
                    assert(wf_element(*(old(self)@[jj]).1.inner));
                }
                if jj + 1 < s0.len() {
                    assert(s0[jj].0.end.nanos <= s0[jj + 1].0.start.nanos);
                }
            }
            let pair = self.elements.remove(0);
            let range = pair.0;
            let timeline_element = pair.1;
            let s_in = to.contains(range.start);
            let e_in = to.contains(range.end);
            if !s_in && !e_in {
                if range.contains(to.start) {
                    // split in the middle: the prefix keeps a fresh clone,
                    // the suffix resumes after `to` with its clock paused
                    // for the covered time
                    let cloned = TimelineElement {
                        start: timeline_element.start,
                        inner: Box::new(timeline_element.inner.clone_element()),
                    };
                    proof {
                        if deep {
                            crate::element::lemma_fresh_clone_wf(
                                *s0[jj].1.inner,
                                *cloned.inner,
                            );
                        }
                    }
                    result.push((Interval { start: range.start, end: to.start }, cloned));
                    let new_start = timeline_element.start.nanos + (to.end.nanos
                        - range.start.nanos);
                    result.push(
                        (
                            Interval { start: to.end, end: range.end },
                            TimelineElement {
                                start: Dur { nanos: new_start },
                                inner: timeline_element.inner,
                            },
                        ),
                    );
                    proof {
                        assert(result@.subrange(0, prev_result.len() as int) =~= prev_result);
                        assert(result@.len() - 2 == prev_result.len());
                    }
                } else {
                    result.push((range, timeline_element));
                    proof {
                        assert(result@.subrange(0, prev_result.len() as int) =~= prev_result);
                    }
                }
            } else if !e_in {
                // only the head of the existing interval is covered: keep
                // the suffix, clock advanced by the covered time
                let new_start = timeline_element.start.nanos + (to.end.nanos
                    - range.start.nanos);
                result.push(
                    (
                        Interval { start: to.end, end: range.end },
                        TimelineElement {
                            start: Dur { nanos: new_start },
                            inner: timeline_element.inner,
                        },
                    ),
                );
                proof {
                    assert(result@.subrange(0, prev_result.len() as int) =~= prev_result);
                }
            } else if !s_in {
                // only the tail is covered: keep the prefix unchanged
                result.push((Interval { start: range.start, end: to.start }, timeline_element));
                proof {
                    assert(result@.subrange(0, prev_result.len() as int) =~= prev_result);
                }
            } else {
                // fully covered: dropped entirely
                proof {
                    assert(result@.subrange(0, prev_result.len() as int) =~= prev_result);
                }
            }
            proof {
                assert(self@ =~= s0.subrange(s0.len() - self@.len(), s0.len() as int));
                let done = s0.subrange(0, jj + 1);
                assert(done.last() == s0[jj]);
                assert(done.drop_last() =~= s0.subrange(0, jj));
                let k = frag_count(s0[jj], to);
                assert(result@.subrange(result@.len() - k, result@.len() as int)
                    =~= result@.subrange(prev_result.len() as int, result@.len() as int));
                assert(fragments_match(s0[jj], to, result@.subrange(
                    result@.len() - k,
                    result@.len() as int,
                )));
                assert(splice_rel(done, to, result@));
            }
        }
        proof {
            assert(s0.subrange(0, s0.len() as int) =~= s0);
            assert(splice_rel(s0, to, result@));
        }
        // insert the new pair at its sorted position
        let m = result.len();
        let mut pos: usize = 0;
        while pos < m && result[pos].0.start.nanos < to.start.nanos
            invariant
                0 <= pos <= m,
                m == result@.len(),
                forall|j: int| 0 <= j < pos ==> (#[trigger] result@[j]).0.start.nanos
                    < to.start.nanos,
            decreases m - pos,
        {
            pos = pos + 1;
        }
        let ghost spliced = result@;
        result.insert(pos, (to, element));
        proof {
            assert forall|j: int| 0 <= j < pos implies (#[trigger] result@[j]).0.start.nanos
                < to.start.nanos by {
                assert(result@[j] == spliced[j]);
            }
            lemma_first_at_or_after_at(result@, to.start, pos as int);
            assert(result@.remove(pos as int) =~= spliced);
            let p = pos as int;
            assert forall|j: int| 0 <= j < result@.len() implies pair_wf(
                #[trigger] result@[j],
            ) by {
                if j < p {
                    assert(result@[j] == spliced[j]);
                } else if j > p {
                    assert(result@[j] == spliced[j - 1]);
                }
            }
            assert forall|j: int|
                0 <= j && j + 1 < result@.len() implies (#[trigger] result@[j]).0.end.nanos
                <= result@[j + 1].0.start.nanos by {
                if j + 1 < p {
                    assert(result@[j] == spliced[j]);
                    assert(result@[j + 1] == spliced[j + 1]);
                } else if j + 1 == p {
                    assert(result@[j] == spliced[j]);
                    assert(spliced[j].0.start.nanos < to.start.nanos);
                    assert(!to.spec_contains(spliced[j].0.start));
                } else if j == p {
                    assert(result@[j + 1] == spliced[j]);
                    assert(spliced[j].0.start.nanos >= to.start.nanos);
                    assert(!to.spec_contains(spliced[j].0.start));
                } else {
                    assert(result@[j] == spliced[j - 1]);
                    assert(result@[j + 1] == spliced[j]);
                }
            }
            if deep {
                assert forall|j: int| 0 <= j < result@.len() implies wf_element(
                    *(#[trigger] result@[j]).1.inner,
                ) by {
                    if j < p {
                        assert(result@[j] == spliced[j]);
                        assert(wf_element(*spliced[j].1.inner));
                    } else if j > p {
                        assert(result@[j] == spliced[j - 1]);
                        assert(wf_element(*spliced[j - 1].1.inner));
                    }
                }
            }
        }
        self.elements = result;
        Ok(())
    }
}

/// An interval pair moved forward in time by `delta`, its child and clock
/// origin untouched.
pub open spec fn shift_pair(p: (Interval, TimelineElement), delta: int) -> (
    Interval,
    TimelineElement,
) {
    (
        Interval {
            start: Dur { nanos: (p.0.start.nanos + delta) as u64 },
            end: Dur { nanos: (p.0.end.nanos + delta) as u64 },
        },
        p.1,
    )
}

/// Some interval begins strictly before `d` and ends strictly after it.
pub open spec fn straddles(s: Seq<(Interval, TimelineElement)>, d: Dur) -> bool {
    exists|i: int|
        0 <= i < s.len() && (#[trigger] s[i]).0.start.nanos < d.nanos && d.nanos
            < s[i].0.end.nanos
}

/// Some interval starting at or after `d` would leave `u64` when moved
/// forward by `delta`.
pub open spec fn shift_overflows(s: Seq<(Interval, TimelineElement)>, d: Dur, delta: int) -> bool {
    exists|i: int|
        0 <= i < s.len() && (#[trigger] s[i]).0.start.nanos >= d.nanos && s[i].0.end.nanos + delta
            > u64::MAX
}

/// Interval starts never decrease along a well-formed collection.
proof fn lemma_starts_sorted(s: Seq<(Interval, TimelineElement)>, i: int, j: int)
    requires
        intervals_wf(s),
        0 <= i <= j < s.len(),
    ensures
        s[i].0.start.nanos <= s[j].0.start.nanos,
    decreases j - i,
{
    if i < j {
        lemma_starts_sorted(s, i, j - 1);
        assert(pair_wf(s[j - 1]));
    }
}

impl Timeline {
    /// Appends a new interval strictly after the current last interval's
    /// end, with no overlap handling: one that would begin before that end
    /// is refused.
    pub fn push(&mut self, element: TimelineElement, to: Interval) -> (r: Result<
        (),
        StructuralError,
    >)
        requires
            old(self).wf_intervals(),
        ensures
            to.end.nanos < to.start.nanos ==> r == Err::<(), StructuralError>(
                StructuralError::InvalidRange,
            ),
            to.start.nanos <= to.end.nanos && old(self)@.len() > 0 && old(
                self,
            )@.last().0.end.nanos > to.start.nanos ==> r == Err::<(), StructuralError>(
                StructuralError::OverlapsExisting,
            ),
            to.start.nanos <= to.end.nanos && (old(self)@.len() == 0 || old(
                self,
            )@.last().0.end.nanos <= to.start.nanos) && element.start.nanos + (to.end.nanos
                - to.start.nanos) > u64::MAX ==> r == Err::<(), StructuralError>(
                StructuralError::DurationOverflow,
            ),
            r is Err ==> final(self)@ == old(self)@,
            r is Ok <==> (to.start.nanos <= to.end.nanos && (old(self)@.len() == 0 || old(
                self,
            )@.last().0.end.nanos <= to.start.nanos) && element.start.nanos + (to.end.nanos
                - to.start.nanos) <= u64::MAX),
            r is Ok ==> final(self)@ == old(self)@.push((to, element)),
            final(self).wf_intervals(),
            old(self).wf() && wf_element(*element.inner) ==> final(self).wf(),
    {
        if to.end.nanos < to.start.nanos {
            return Err(StructuralError::InvalidRange);
        }
        let n = self.elements.len();
        if n > 0 {
            let last_end = self.elements[n - 1].0.end;
            if last_end.nanos > to.start.nanos {
                return Err(StructuralError::OverlapsExisting);
            }
        }
        let width = to.end.nanos - to.start.nanos;
        if element.start.nanos > u64::MAX - width {
            return Err(StructuralError::DurationOverflow);
        }
        let ghost s0 = self@;
        self.elements.push((to, element));
        proof {
            assert forall|j: int| 0 <= j < self@.len() implies pair_wf(#[trigger] self@[j]) by {
                if j < s0.len() {
                    assert(self@[j] == s0[j]);
                }
            }
            assert forall|j: int|
                0 <= j && j + 1 < self@.len() implies (#[trigger] self@[j]).0.end.nanos
                <= self@[j + 1].0.start.nanos by {
                if j + 1 < s0.len() {
                    assert(self@[j] == s0[j]);
                    assert(self@[j + 1] == s0[j + 1]);
                } else {
                    assert(self@[j] == s0[s0.len() - 1]);
                }
            }
            if old(self).wf() && wf_element(*element.inner) {
                assert forall|j: int| 0 <= j < self@.len() implies wf_element(
                    *(#[trigger] self@[j]).1.inner,
                ) by {
                    if j < s0.len() {
                        assert(self@[j] == s0[j]);
                        assert(wf_element(*(old(self)@[j]).1.inner));
                    }
                }
            }
        }
        Ok(())
    }

    /// Inserts a new interval without deleting any overlapped content:
    /// every interval whose start lies at or after the insertion point is
    /// shifted forward by the new interval's length. An interval straddling
    /// the insertion point is refused, as is a shift that would leave the
    /// representable range.
    #[verifier::rlimit(100)]
    pub fn shift_and_insert(&mut self, element: TimelineElement, to: Interval) -> (r: Result<
        (),
        StructuralError,
    >)
        requires
            old(self).wf_intervals(),
        ensures
            to.end.nanos < to.start.nanos ==> r == Err::<(), StructuralError>(
                StructuralError::InvalidRange,
            ),
            to.start.nanos <= to.end.nanos && straddles(old(self)@, to.start) ==> r == Err::<
                (),
                StructuralError,
            >(StructuralError::OverlapsExisting),
            to.start.nanos <= to.end.nanos && !straddles(old(self)@, to.start)
                && (element.start.nanos + (to.end.nanos - to.start.nanos) > u64::MAX
                || shift_overflows(old(self)@, to.start, to.end.nanos - to.start.nanos)) ==> r
                == Err::<(), StructuralError>(StructuralError::DurationOverflow),
            r is Err ==> final(self)@ == old(self)@,
            r is Ok <==> (to.start.nanos <= to.end.nanos && !straddles(old(self)@, to.start)
                && element.start.nanos + (to.end.nanos - to.start.nanos) <= u64::MAX
                && !shift_overflows(old(self)@, to.start, to.end.nanos - to.start.nanos)),
            r is Ok ==> final(self)@ == old(self)@.subrange(
                0,
                first_at_or_after(old(self)@, to.start),
            ) + seq![(to, element)] + old(self)@.subrange(
                first_at_or_after(old(self)@, to.start),
                old(self)@.len() as int,
            ).map_values(|p: (Interval, TimelineElement)| shift_pair(
                p,
                to.end.nanos - to.start.nanos,
            )),
            final(self).wf_intervals(),
            old(self).wf() && wf_element(*element.inner) ==> final(self).wf(),
    {
        if to.end.nanos < to.start.nanos {
            return Err(StructuralError::InvalidRange);
        }
        let width = to.end.nanos - to.start.nanos;
        let n = self.elements.len();
        let mut k: usize = 0;
        while k < n
            invariant
                0 <= k <= n,
                n == self.elements.len(),
                to.start.nanos <= to.end.nanos,
                old(self).wf_intervals(),
                self@ == old(self)@,
                forall|j: int|
                    0 <= j < k ==> !((#[trigger] self@[j]).0.start.nanos < to.start.nanos
                        && to.start.nanos < self@[j].0.end.nanos),
            decreases n - k,
        {
            let iv = self.elements[k].0;
            if iv.start.nanos < to.start.nanos && to.start.nanos < iv.end.nanos {
                proof {
                    assert(straddles(self@, to.start));
                }
                return Err(StructuralError::OverlapsExisting);
            }
            k = k + 1;
        }
        proof {
            assert(!straddles(self@, to.start));
        }
        if element.start.nanos > u64::MAX - width {
            return Err(StructuralError::DurationOverflow);
        }
        let mut k: usize = 0;
        while k < n
            invariant
                0 <= k <= n,
                n == self.elements.len(),
                to.start.nanos <= to.end.nanos,
                width == to.end.nanos - to.start.nanos,
                element.start.nanos + width <= u64::MAX,
                old(self).wf_intervals(),
                self@ == old(self)@,
                !straddles(self@, to.start),
                forall|j: int|
                    0 <= j < k ==> !((#[trigger] self@[j]).0.start.nanos >= to.start.nanos
                        && self@[j].0.end.nanos + width > u64::MAX),
            decreases n - k,
        {
            let iv = self.elements[k].0;
            if iv.start.nanos >= to.start.nanos && iv.end.nanos > u64::MAX - width {
                proof {
                    assert(shift_overflows(self@, to.start, width as int));
                }
                return Err(StructuralError::DurationOverflow);
            }
            k = k + 1;
        }
        proof {
            assert(!shift_overflows(self@, to.start, width as int));
        }
        let ghost s0 = self@;
        let ghost deep = old(self).wf() && wf_element(*element.inner);
        let mut result: Vec<(Interval, TimelineElement)> = Vec::new();
        proof {
            assert(result@ =~= s0.subrange(0, 0));
            assert(self@ =~= s0.subrange(0, s0.len() as int));
        }
        // keep the pairs that begin before the insertion point
        while self.elements.len() > 0 && self.elements[0].0.start.nanos < to.start.nanos
            invariant
                s0 == old(self)@,
                intervals_wf(s0),
                deep == (old(self).wf() && wf_element(*element.inner)),
                self@.len() <= s0.len(),
                self@ == s0.subrange(s0.len() - self@.len(), s0.len() as int),
                result@ == s0.subrange(0, s0.len() - self@.len()),
                forall|j: int|
                    0 <= j < s0.len() - self@.len() ==> (#[trigger] s0[j]).0.start.nanos
                        < to.start.nanos,
            decreases self@.len(),
        {
            let ghost prev_self = self@;
            proof {
                assert(prev_self[0] == s0[s0.len() - prev_self.len()]);
            }
            let pair = self.elements.remove(0);
            result.push(pair);
            proof {
                assert(self@ =~= s0.subrange(s0.len() - self@.len(), s0.len() as int));
                assert(result@ =~= s0.subrange(0, s0.len() - self@.len()));
            }
        }
        let ghost pos = result@.len() as int;
        proof {
            if self@.len() > 0 {
                assert(self@[0] == s0[pos]);
            }
            lemma_first_at_or_after_at(s0, to.start, pos);
        }
        result.push((to, element));
        // shift everything from the insertion point on by the new length
        while self.elements.len() > 0
            invariant
                s0 == old(self)@,
                intervals_wf(s0),
                deep == (old(self).wf() && wf_element(*element.inner)),
                to.start.nanos <= to.end.nanos,
                width == to.end.nanos - to.start.nanos,
                element.start.nanos + width <= u64::MAX,
                !shift_overflows(s0, to.start, width as int),
                0 <= pos <= s0.len(),
                forall|j: int| 0 <= j < pos ==> (#[trigger] s0[j]).0.start.nanos < to.start.nanos,
                pos < s0.len() ==> s0[pos].0.start.nanos >= to.start.nanos,
                self@.len() <= s0.len() - pos,
                self@ == s0.subrange(s0.len() - self@.len(), s0.len() as int),
                result@ == s0.subrange(0, pos) + seq![(to, element)] + s0.subrange(
                    pos,
                    s0.len() - self@.len(),
                ).map_values(|p: (Interval, TimelineElement)| shift_pair(p, width as int)),
            decreases self@.len(),
        {
            let ghost jj = s0.len() - self@.len();
            let ghost prev_result = result@;
            proof {
                assert(self@[0] == s0[jj]);
                assert(pair_wf(s0[jj]));
                lemma_starts_sorted(s0, pos, jj);
                assert(s0[jj].0.start.nanos >= to.start.nanos);
                if s0[jj].0.end.nanos + width > u64::MAX {
                    assert(shift_overflows(s0, to.start, width as int));
                }
            }
            let pair = self.elements.remove(0);
            let iv = pair.0;
            result.push(
                (
                    Interval {
                        start: Dur { nanos: iv.start.nanos + width },
                        end: Dur { nanos: iv.end.nanos + width },
                    },
                    pair.1,
                ),
            );
            proof {
                assert(self@ =~= s0.subrange(s0.len() - self@.len(), s0.len() as int));
                assert(result@ =~= s0.subrange(0, pos) + seq![(to, element)] + s0.subrange(
                    pos,
                    s0.len() - self@.len(),
                ).map_values(|p: (Interval, TimelineElement)| shift_pair(p, width as int)));
            }
        }
        proof {
            let f = result@;
            let shifted = s0.subrange(pos, s0.len() as int).map_values(
                |p: (Interval, TimelineElement)| shift_pair(p, width as int),
            );
            assert(f =~= s0.subrange(0, pos) + seq![(to, element)] + shifted);
            assert forall|j: int| 0 <= j < f.len() implies pair_wf(#[trigger] f[j]) by {
                if j < pos {
                    assert(f[j] == s0[j]);
                    assert(pair_wf(s0[j]));
                } else if j > pos {
                    assert(f[j] == shift_pair(s0[j - 1], width as int));
                    assert(pair_wf(s0[j - 1]));
                    assert(s0[j - 1].0.start.nanos >= to.start.nanos) by {
                        if pos < j - 1 {
                            lemma_starts_sorted(s0, pos, j - 1);
                        }
                    }
                    assert(s0[j - 1].0.end.nanos + width <= u64::MAX) by {
                        if s0[j - 1].0.end.nanos + width > u64::MAX {
                            assert(shift_overflows(s0, to.start, width as int));
                        }
                    }
                }
            }
            assert forall|j: int|
                0 <= j && j + 1 < f.len() implies (#[trigger] f[j]).0.end.nanos <= f[j
                + 1].0.start.nanos by {
                if j + 1 < pos {
                    assert(f[j] == s0[j]);
                    assert(f[j + 1] == s0[j + 1]);
                } else if j + 1 == pos {
                    assert(f[j] == s0[j]);
                    assert(s0[j].0.start.nanos < to.start.nanos);
                    assert(!(s0[j].0.start.nanos < to.start.nanos && to.start.nanos
                        < s0[j].0.end.nanos)) by {
                        if s0[j].0.start.nanos < to.start.nanos && to.start.nanos
                            < s0[j].0.end.nanos {
                            assert(straddles(s0, to.start));
                        }
                    }
                } else if j == pos {
                    if j + 1 < f.len() {
                        assert(f[j + 1] == shift_pair(s0[j], width as int));
                        assert(s0[j].0.start.nanos >= to.start.nanos);
                        assert(s0[j].0.end.nanos + width <= u64::MAX) by {
                            if s0[j].0.end.nanos + width > u64::MAX {
                                assert(shift_overflows(s0, to.start, width as int));
                            }
                        }
                    }
                } else {
                    assert(f[j] == shift_pair(s0[j - 1], width as int));
                    assert(f[j + 1] == shift_pair(s0[j], width as int));
                    assert(s0[j - 1].0.end.nanos <= s0[j].0.start.nanos);
                    assert(s0[j - 1].0.start.nanos >= to.start.nanos) by {
                        if pos < j - 1 {
                            lemma_starts_sorted(s0, pos, j - 1);
                        }
                    }
                    assert(s0[j - 1].0.end.nanos + width <= u64::MAX) by {
                        if s0[j - 1].0.end.nanos + width > u64::MAX {
                            assert(shift_overflows(s0, to.start, width as int));
                        }
                    }
                    assert(s0[j].0.end.nanos + width <= u64::MAX) by {
                        if s0[j].0.end.nanos + width > u64::MAX {
                            assert(shift_overflows(s0, to.start, width as int));
                        }
                    }
                }
            }
            if deep {
                assert forall|j: int| 0 <= j < f.len() implies wf_element(
                    *(#[trigger] f[j]).1.inner,
                ) by {
                    if j < pos {
                        assert(f[j] == s0[j]);
                        assert(wf_element(*(old(self)@[j]).1.inner));
                    } else if j > pos {
                        assert(f[j] == shift_pair(s0[j - 1], width as int));
                        assert(wf_element(*(old(self)@[j - 1]).1.inner));
                    }
                }
            }
        }
        self.elements = result;
        Ok(())
    }
}

impl Default for Timeline {
    /// The empty timeline.
    fn default() -> (r: Timeline)
        ensures
            r@ == Seq::<(Interval, TimelineElement)>::empty(),
            r.wf(),
    {
        Timeline { elements: Vec::new() }
    }
}

} // verus!
