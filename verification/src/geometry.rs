//! Plain integer vectors and the accumulated draw transform. Sizes and
//! offsets are component-wise non-negative pixel counts; additions saturate
//! so that per-frame computation is total.

use vstd::prelude::*;

verus! {

/// A two-dimensional size or offset in whole pixels.
#[derive(Clone, Copy, Debug, PartialEq, Eq, Structural)]
pub struct Vec2 {
    pub x: u32,
    pub y: u32,
}

pub open spec fn sat_add_u32(a: u32, b: u32) -> u32 {
    if a + b > u32::MAX {
        u32::MAX
    } else {
        (a + b) as u32
    }
}

pub open spec fn sat_add_u64(a: u64, b: u64) -> u64 {
    if a + b > u64::MAX {
        u64::MAX
    } else {
        (a + b) as u64
    }
}

impl Vec2 {
    pub fn new(x: u32, y: u32) -> (r: Vec2)
        ensures
            r == (Vec2 { x, y }),
    {
        Vec2 { x, y }
    }

    pub fn zero() -> (r: Vec2)
        ensures
            r == (Vec2 { x: 0u32, y: 0u32 }),
    {
        Vec2 { x: 0, y: 0 }
    }

    pub open spec fn spec_add(self, other: Vec2) -> Vec2 {
        Vec2 { x: sat_add_u32(self.x, other.x), y: sat_add_u32(self.y, other.y) }
    }

    /// Component-wise addition, saturating at the largest representable pixel
    /// count.
    pub fn saturating_add(self, other: Vec2) -> (r: Vec2)
        ensures
            r == self.spec_add(other),
    {
        let x: u32 = if self.x <= u32::MAX - other.x {
            self.x + other.x
        } else {
            u32::MAX
        };
        let y: u32 = if self.y <= u32::MAX - other.y {
            self.y + other.y
        } else {
            u32::MAX
        };
        Vec2 { x, y }
    }
}

/// The draw state threaded down the element tree: an accumulated translation
/// from the root's origin.
#[derive(Clone, Copy, Debug, PartialEq, Eq, Structural)]
pub struct Transform {
    pub x: u64,
    pub y: u64,
}

impl Transform {
    pub fn identity() -> (r: Transform)
        ensures
            r == (Transform { x: 0u64, y: 0u64 }),
    {
        Transform { x: 0, y: 0 }
    }

    pub open spec fn spec_translate(self, offset: Vec2) -> Transform {
        Transform {
            x: sat_add_u64(self.x, offset.x as u64),
            y: sat_add_u64(self.y, offset.y as u64),
        }
    }

    /// The transform moved by `offset`, saturating at the representable
    /// bound.
    pub fn translate(self, offset: Vec2) -> (r: Transform)
        ensures
            r == self.spec_translate(offset),
    {
        let ox: u64 = offset.x as u64;
        let oy: u64 = offset.y as u64;
        let x: u64 = if self.x <= u64::MAX - ox {
            self.x + ox
        } else {
            u64::MAX
        };
        let y: u64 = if self.y <= u64::MAX - oy {
            self.y + oy
        } else {
            u64::MAX
        };
        Transform { x, y }
    }
}

} // verus!
