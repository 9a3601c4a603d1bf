//! A decorator that offsets its child: the drawn location is translated and
//! the reported size enlarged by a time-varying vector, and the more urgent
//! of the provider's and the child's scheduling hints is reported.

use vstd::prelude::*;

use crate::Context;
use crate::ValueProvider;
use crate::element::DrawCmd;
use crate::element::DynElement;
use crate::element::spec_draw;
use crate::element::spec_get_size;
use crate::element::wf_element;
use crate::frame::FrameLength;
use crate::frame::spec_min;
use crate::geometry::Vec2;

verus! {

#[derive(Debug)]
pub struct Position {
    pub inner: DynElement,
    pub position: ValueProvider<Vec2>,
}

pub open spec fn position_size_spec(p: Position, ctx: Context) -> (Vec2, FrameLength)
    decreases p, 0int,
{
    let offset = p.position.spec_get(ctx);
    let inner = spec_get_size(*p.inner, ctx);
    (offset.0.spec_add(inner.0), spec_min(offset.1, inner.1))
}

pub open spec fn position_draw_spec(p: Position, ctx: Context) -> (Seq<DrawCmd>, FrameLength)
    decreases p, 0int,
{
    let offset = p.position.spec_get(ctx);
    let child_ctx = Context {
        duration_from_start: ctx.duration_from_start,
        duration_offset: ctx.duration_offset,
        transform: ctx.transform.spec_translate(offset.0),
    };
    let child = spec_draw(*p.inner, child_ctx);
    (child.0, spec_min(child.1, offset.1))
}

impl Clone for Position {
    /// Deep clone: the child subtree is freshly cloned, caches reset.
    fn clone(&self) -> (r: Self)
        ensures
            r.position == self.position,
            crate::element::is_fresh_clone(*self.inner, *r.inner),
    {
        Position { inner: Box::new(self.inner.clone_element()), position: self.position }
    }
}

impl Position {
    /// The offset added to the child's size, with the more urgent of the
    /// two hints.
    pub fn get_size(&self, context: &Context) -> (r: (Vec2, FrameLength))
        requires
            wf_element(*self.inner),
        ensures
            r == position_size_spec(*self, *context),
        decreases *self, 0int,
    {
        let (position, frame_length) = self.position.get(context);
        let (inner_size, inner_frame_length) = self.inner.get_size(context);
        (position.saturating_add(inner_size), frame_length.min(inner_frame_length))
    }

    /// Draws the child under a transform translated by the provided offset,
    /// reporting the more urgent of the child's and the provider's hints.
    pub fn draw(&self, context: &Context, out: &mut Vec<DrawCmd>) -> (r: FrameLength)
        requires
            wf_element(*self.inner),
        ensures
            final(out)@ == old(out)@ + position_draw_spec(*self, *context).0,
            r == position_draw_spec(*self, *context).1,
        decreases *self, 0int,
    {
        let (position, frame_length) = self.position.get(context);
        let child_context = Context {
            duration_from_start: context.duration_from_start,
            duration_offset: context.duration_offset,
            transform: context.transform.translate(position),
        };
        let child_frame_length = self.inner.draw(&child_context, out);
        child_frame_length.min(frame_length)
    }
}

} // verus!
