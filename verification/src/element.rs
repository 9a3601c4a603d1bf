//! The closed set of drawable element kinds, and the recursive contract
//! they all honor: report a size, or emit draw commands, for a given
//! context, together with a scheduling hint for the driving loop.

use vstd::prelude::*;

use crate::Context;
use crate::frame::FrameLength;
use crate::geometry::Transform;
use crate::geometry::Vec2;
use crate::image::Image;
use crate::image::image_draw_spec;
use crate::image::image_size_spec;
use crate::position::Position;
use crate::position::position_draw_spec;
use crate::position::position_size_spec;
use crate::timeline::Timeline;
use crate::timeline::timeline_draw_spec;
use crate::timeline::timeline_size_spec;

verus! {

/// A drawable node of the composition tree.
#[derive(Debug)]
pub enum Element {
    Image(Image),
    Position(Position),
    Timeline(Timeline),
}

/// The uniform owning reference to a heterogeneous child element: exactly
/// one owner at a time.
pub type DynElement = Box<Element>;

/// One paint operation handed to whatever renderer the driving loop uses;
/// the library never inspects pixel contents.
#[derive(Clone, Debug)]
pub enum DrawCmd {
    /// Paint the texture found at `path`, translated by `transform`.
    Texture { path: String, transform: Transform },
    /// Paint a placeholder where a texture is not loaded yet.
    Placeholder { transform: Transform },
}

/// Well-formedness of a whole element tree: every timeline below keeps
/// well-formed, mutually disjoint, sorted intervals.
pub open spec fn wf_element(e: Element) -> bool
    decreases e, 1int,
{
    match e {
        Element::Image(_) => true,
        Element::Position(p) => wf_element(*p.inner),
        Element::Timeline(t) => t.wf(),
    }
}

/// What `get_size` returns, for every element kind.
pub open spec fn spec_get_size(e: Element, ctx: Context) -> (Vec2, FrameLength)
    decreases e, 1int,
{
    match e {
        Element::Image(img) => image_size_spec(img),
        Element::Position(p) => position_size_spec(p, ctx),
        Element::Timeline(t) => timeline_size_spec(t, ctx),
    }
}

/// What `draw` emits and returns, for every element kind.
pub open spec fn spec_draw(e: Element, ctx: Context) -> (Seq<DrawCmd>, FrameLength)
    decreases e, 1int,
{
    match e {
        Element::Image(img) => image_draw_spec(img, ctx),
        Element::Position(p) => position_draw_spec(p, ctx),
        Element::Timeline(t) => timeline_draw_spec(t, ctx),
    }
}

/// `b` is an independent deep copy of `a`: structurally identical,
/// sharing nothing, with every texture cache unpopulated.
pub open spec fn is_fresh_clone(a: Element, b: Element) -> bool
    decreases a, 1int,
{
    match a {
        Element::Image(x) => match b {
            Element::Image(y) => y.spec_path() == x.spec_path() && !y.loaded(),
            _ => false,
        },
        Element::Position(x) => match b {
            Element::Position(y) => y.position == x.position && is_fresh_clone(
                *x.inner,
                *y.inner,
            ),
            _ => false,
        },
        Element::Timeline(x) => match b {
            Element::Timeline(y) => crate::timeline::timeline_fresh_clone(x, y),
            _ => false,
        },
    }
}

impl Element {
    /// A deep copy that shares nothing with the original and has every
    /// texture cache unpopulated.
    pub fn clone_element(&self) -> (r: Element)
        ensures
            is_fresh_clone(*self, r),
        decreases *self, 1int,
    {
        match self {
            Element::Image(img) => Element::Image(img.clone()),
            Element::Position(p) => Element::Position(
                Position { inner: Box::new(p.inner.clone_element()), position: p.position },
            ),
            Element::Timeline(t) => Element::Timeline(t.clone_timeline()),
        }
    }
}

/// A fresh clone of a well-formed element is well-formed: cloning keeps
/// every interval and clock origin.
pub proof fn lemma_fresh_clone_wf(a: Element, b: Element)
    requires
        wf_element(a),
        is_fresh_clone(a, b),
    ensures
        wf_element(b),
    decreases a,
{
    match a {
        Element::Image(_) => {
        },
        Element::Position(x) => {
            match b {
                Element::Position(y) => {
                    lemma_fresh_clone_wf(*x.inner, *y.inner);
                },
                _ => {
                },
            }
        },
        Element::Timeline(x) => {
            match b {
                Element::Timeline(y) => {
                    crate::timeline::lemma_timeline_children_smaller(x);
                    assert(crate::timeline::timeline_fresh_clone(x, y));
                    assert(y@.len() == x@.len());
                    assert(x.wf());
                    assert(crate::timeline::intervals_wf(x@));
                    assert forall|i: int| 0 <= i < y@.len() implies crate::timeline::pair_wf(
                        #[trigger] y@[i],
                    ) by {
                        assert(crate::timeline::pair_wf(x@[i]));
                    }
                    assert forall|i: int|
                        0 <= i && i + 1 < y@.len() implies (#[trigger] y@[i]).0.end.nanos
                        <= y@[i + 1].0.start.nanos by {
                        assert(x@[i].0.end.nanos <= x@[i + 1].0.start.nanos);
                    }
                    assert forall|i: int| 0 <= i < y@.len() implies wf_element(
                        *(#[trigger] y@[i]).1.inner,
                    ) by {
                        assert(wf_element(*x@[i].1.inner));
                        lemma_fresh_clone_wf(*x@[i].1.inner, *y@[i].1.inner);
                    }
                    assert(crate::timeline::intervals_wf(y@));
                    assert(y.wf_intervals());
                    assert(y.wf());
                },
                _ => {
                },
            }
        },
    }
}

impl Clone for Element {
    /// Deep clone: cloning yields a fully independent subtree with all
    /// caches reset.
    fn clone(&self) -> (r: Self)
        ensures
            is_fresh_clone(*self, r),
    {
        self.clone_element()
    }
}

impl Element {
    /// The element's size for this context, with a scheduling hint.
    pub fn get_size(&self, context: &Context) -> (r: (Vec2, FrameLength))
        requires
            wf_element(*self),
        ensures
            r == spec_get_size(*self, *context),
        decreases *self, 1int,
    {
        match self {
            Element::Image(img) => img.get_size(context),
            Element::Position(p) => p.get_size(context),
            Element::Timeline(t) => t.get_size(context),
        }
    }

    /// Runtime check of the whole tree's well-formedness, so that a caller
    /// outside the library can establish what `get_size` and `draw`
    /// require before using them.
    pub fn is_well_formed(&self) -> (b: bool)
        ensures
            b == wf_element(*self),
        decreases *self, 1int,
    {
        match self {
            Element::Image(_) => true,
            Element::Position(p) => p.inner.is_well_formed(),
            Element::Timeline(t) => t.is_well_formed(),
        }
    }

    /// Appends this element's paint operations for the context to `out`,
    /// returning a scheduling hint.
    pub fn draw(&self, context: &Context, out: &mut Vec<DrawCmd>) -> (r: FrameLength)
        requires
            wf_element(*self),
        ensures
            final(out)@ == old(out)@ + spec_draw(*self, *context).0,
            r == spec_draw(*self, *context).1,
        decreases *self, 1int,
    {
        match self {
            Element::Image(img) => img.draw(context, out),
            Element::Position(p) => p.draw(context, out),
            Element::Timeline(t) => t.draw(context, out),
        }
    }
}

} // verus!
