//! Composition of time-varying, drawable elements into frames, together with
//! the scheduling algebra (`FrameLength`) that tells a pull-based render loop
//! how soon the next redraw is needed.

mod element;
mod frame;
mod geometry;
mod image;
mod position;
mod time;
mod timeline;

pub use element::DrawCmd;
pub use element::DynElement;
pub use element::Element;
pub use element::spec_draw;
pub use element::spec_get_size;
pub use element::wf_element;
pub use frame::FrameLength;
pub use frame::lemma_fold_clamps;
pub use frame::lemma_frame_length_order;
pub use frame::spec_fold;
pub use frame::spec_min;
pub use frame::spec_partial_cmp;
pub use frame::spec_total_cmp;
pub use geometry::Transform;
pub use geometry::Vec2;
pub use image::Image;
pub use image::RETRY_DELAY_NANOS;
pub use position::Position;
pub use time::Dur;
pub use time::Interval;
pub use timeline::SeekOutcome;
pub use timeline::StructuralError;
pub use timeline::Timeline;
pub use timeline::TimelineElement;

use vstd::prelude::*;

verus! {

pub type BaseSigned = i32;

pub type BaseUnsigned = u32;

/// Per-call state threaded down the element tree: global elapsed time, the
/// local timeline offset, and the accumulated draw transform. It is copied
/// down the recursion; a level derives a modified copy and never mutates an
/// ancestor's.
#[derive(Clone, Copy, Debug, PartialEq, Eq, Structural)]
pub struct Context {
    pub duration_from_start: Dur,
    pub duration_offset: Dur,
    pub transform: Transform,
}

/// A time-varying value source, reporting each value together with a
/// scheduling hint.
#[derive(Clone, Copy, Debug)]
pub enum ValueProvider<T> {
    Constant(T),
}

impl<T: Copy> ValueProvider<T> {
    pub open spec fn spec_get(self, context: Context) -> (T, FrameLength) {
        match self {
            ValueProvider::Constant(v) => (v, FrameLength::Forever),
        }
    }

    /// A constant value is the trivial provider: it always reports the
    /// least-urgent hint, `Forever`.
    pub fn get(&self, context: &Context) -> (r: (T, FrameLength))
        ensures
            r == self.spec_get(*context),
    {
        match self {
            ValueProvider::Constant(v) => (*v, FrameLength::Forever),
        }
    }
}

/// A scripted value source, kept as an inert stub: only the script text is
/// carried.
#[derive(Clone, Debug)]
pub struct LuaScript {
    script: String,
}

impl LuaScript {
    pub closed spec fn spec_source(self) -> Seq<char> {
        self.script@
    }

    pub fn new(script: String) -> (r: LuaScript)
        ensures
            r.spec_source() == script@,
    {
        LuaScript { script }
    }

    pub fn source(&self) -> (r: &String)
        ensures
            r@ == self.spec_source(),
    {
        &self.script
    }
}

} // verus!
