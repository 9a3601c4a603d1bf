//! The leaf element: a texture loaded from a path. The decoded texture's
//! pixel size is cached at most once per instance. An instance whose cache
//! is still unpopulated reports a placeholder size, draws a placeholder, and
//! asks to be retried after a short delay — a load failure is recoverable,
//! never fatal.

use vstd::prelude::*;

use crate::Context;
use crate::element::DrawCmd;
use crate::frame::FrameLength;
use crate::geometry::Vec2;
use crate::time::Dur;

verus! {

/// How long to wait before retrying an operation on an image whose texture
/// is not loaded yet.
pub const RETRY_DELAY_NANOS: u64 = 100_000_000;

#[derive(Debug)]
pub struct Image {
    path: String,
    texture_size: Option<Vec2>,
}

impl Image {
    pub closed spec fn spec_path(self) -> String {
        self.path
    }

    pub closed spec fn texture(self) -> Option<Vec2> {
        self.texture_size
    }

    /// Whether the texture-size cache is populated.
    pub open spec fn loaded(self) -> bool {
        self.texture() is Some
    }

    pub fn new(path: String) -> (r: Image)
        ensures
            r.spec_path() == path,
            !r.loaded(),
    {
        Image { path, texture_size: None }
    }

    pub fn is_loaded(&self) -> (b: bool)
        ensures
            b == self.loaded(),
    {
        self.texture_size.is_some()
    }

    pub fn path(&self) -> (r: &String)
        ensures
            *r == self.spec_path(),
    {
        &self.path
    }

    /// Populates the texture-size cache, at most once: a call on an instance
    /// that is already loaded leaves the first value in place.
    pub fn attach_texture(&mut self, size: Vec2)
        ensures
            final(self).spec_path() == old(self).spec_path(),
            final(self).texture() == if old(self).loaded() {
                old(self).texture()
            } else {
                Some(size)
            },
    {
        if self.texture_size.is_none() {
            self.texture_size = Some(size);
        }
    }

    /// The texture's pixel size and `Forever` when loaded — a static image
    /// never needs a scheduled redraw of its own; a placeholder size and a
    /// short retry hint otherwise.
    pub fn get_size(&self, context: &Context) -> (r: (Vec2, FrameLength))
        ensures
            r == image_size_spec(*self),
    {
        match self.texture_size {
            Some(size) => (size, FrameLength::Forever),
            None => (Vec2::zero(), FrameLength::Limited(Dur { nanos: RETRY_DELAY_NANOS })),
        }
    }

    /// Emits one paint operation at the context's transform: the texture
    /// when loaded, a placeholder with a retry hint otherwise.
    pub fn draw(&self, context: &Context, out: &mut Vec<DrawCmd>) -> (r: FrameLength)
        ensures
            final(out)@ == old(out)@ + image_draw_spec(*self, *context).0,
            r == image_draw_spec(*self, *context).1,
    {
        match self.texture_size {
            Some(_) => {
                let cmd = DrawCmd::Texture {
                    path: self.path.clone(),
                    transform: context.transform,
                };
                let ghost gc = cmd;
                out.push(cmd);
                proof {
                    assert(old(out)@.push(gc) =~= old(out)@ + seq![gc]);
                }
                FrameLength::Forever
            },
            None => {
                let cmd = DrawCmd::Placeholder { transform: context.transform };
                let ghost gc = cmd;
                out.push(cmd);
                proof {
                    assert(old(out)@.push(gc) =~= old(out)@ + seq![gc]);
                }
                FrameLength::Limited(Dur { nanos: RETRY_DELAY_NANOS })
            },
        }
    }
}

impl Clone for Image {
    /// A clone is an independent copy with the texture cache unpopulated:
    /// no resource handle is ever shared between two clones.
    fn clone(&self) -> (r: Self)
        ensures
            r.spec_path() == self.spec_path(),
            !r.loaded(),
    {
        Image { path: self.path.clone(), texture_size: None }
    }
}

pub open spec fn image_size_spec(img: Image) -> (Vec2, FrameLength) {
    if img.loaded() {
        (img.texture()->Some_0, FrameLength::Forever)
    } else {
        (Vec2 { x: 0u32, y: 0u32 }, FrameLength::Limited(Dur { nanos: RETRY_DELAY_NANOS }))
    }
}

pub open spec fn image_draw_spec(img: Image, ctx: Context) -> (Seq<DrawCmd>, FrameLength) {
    if img.loaded() {
        (
            seq![DrawCmd::Texture { path: img.spec_path(), transform: ctx.transform }],
            FrameLength::Forever,
        )
    } else {
        (
            seq![DrawCmd::Placeholder { transform: ctx.transform }],
            FrameLength::Limited(Dur { nanos: RETRY_DELAY_NANOS }),
        )
    }
}

} // verus!
