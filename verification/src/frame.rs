//! The scheduling algebra. Every size or draw call reports a `FrameLength`:
//! how soon the caller must schedule the next redraw. The order runs from
//! most urgent to least: `Consistent` (redraw every frame), then `Limited`
//! durations ordered by their value, then `Forever` (no scheduled redraw).
//! `End` marks terminated playback: it orders below everything else but is
//! deliberately incomparable with itself, so a driving loop has to treat it
//! as a distinct terminal event instead of folding it through a minimum.

use vstd::prelude::*;

use core::cmp::Ordering;

use crate::time::Dur;

verus! {

#[derive(Clone, Copy, Debug, PartialEq, Eq, Structural)]
pub enum FrameLength {
    Consistent,
    Forever,
    Limited(Dur),
    End,
}

/// The scheduling order: `End < Consistent < Limited(_) < Forever`,
/// `Limited` by duration, `End` vs `End` undefined.
pub open spec fn spec_partial_cmp(a: FrameLength, b: FrameLength) -> Option<Ordering> {
    if a == b {
        if a == FrameLength::End {
            None
        } else {
            Some(Ordering::Equal)
        }
    } else {
        match a {
            FrameLength::Consistent => match b {
                FrameLength::End => Some(Ordering::Greater),
                _ => Some(Ordering::Less),
            },
            FrameLength::Forever => Some(Ordering::Greater),
            FrameLength::Limited(d) => match b {
                FrameLength::Consistent => Some(Ordering::Greater),
                FrameLength::Forever => Some(Ordering::Less),
                FrameLength::Limited(other_d) => if d.nanos < other_d.nanos {
                    Some(Ordering::Less)
                } else {
                    Some(Ordering::Greater)
                },
                FrameLength::End => Some(Ordering::Greater),
            },
            FrameLength::End => Some(Ordering::Less),
        }
    }
}

/// The total order used for taking minima. It agrees with
/// `spec_partial_cmp` everywhere except that `End` counts as equal to
/// itself.
pub open spec fn spec_total_cmp(a: FrameLength, b: FrameLength) -> Ordering {
    if a == b {
        Ordering::Equal
    } else {
        match a {
            FrameLength::Consistent => match b {
                FrameLength::End => Ordering::Greater,
                _ => Ordering::Less,
            },
            FrameLength::Forever => Ordering::Greater,
            FrameLength::Limited(d) => match b {
                FrameLength::Consistent => Ordering::Greater,
                FrameLength::Forever => Ordering::Less,
                FrameLength::Limited(other_d) => if d.nanos < other_d.nanos {
                    Ordering::Less
                } else {
                    Ordering::Greater
                },
                FrameLength::End => Ordering::Greater,
            },
            FrameLength::End => Ordering::Less,
        }
    }
}

/// The more urgent of two hints: the left one when the order calls them
/// equal.
pub open spec fn spec_min(a: FrameLength, b: FrameLength) -> FrameLength {
    if spec_total_cmp(a, b) == Ordering::Greater {
        b
    } else {
        a
    }
}

/// The combination rule for a child's hint against the time remaining until
/// a boundary: `Forever` is clamped to the boundary, `Limited` to the
/// earlier of the two, `Consistent` passes through, and `End` short-circuits
/// any clamping.
pub open spec fn spec_fold(child: FrameLength, remaining: Dur) -> FrameLength {
    match child {
        FrameLength::Forever => FrameLength::Limited(remaining),
        FrameLength::Limited(d) => if d.nanos <= remaining.nanos {
            FrameLength::Limited(d)
        } else {
            FrameLength::Limited(remaining)
        },
        FrameLength::Consistent => FrameLength::Consistent,
        FrameLength::End => FrameLength::End,
    }
}

impl PartialOrd for FrameLength {
    fn partial_cmp(&self, other: &Self) -> (r: Option<Ordering>) {
        if self == other {
            return if *self == FrameLength::End {
                None
            } else {
                Some(Ordering::Equal)
            };
        }
        Some(
            match self {
                FrameLength::Consistent => match other {
                    FrameLength::End => Ordering::Greater,
                    _ => Ordering::Less,
                },
                FrameLength::Forever => Ordering::Greater,
                FrameLength::Limited(duration) => match other {
                    FrameLength::Consistent => Ordering::Greater,
                    FrameLength::Forever => Ordering::Less,
                    FrameLength::Limited(other_duration) => if duration.nanos < other_duration.nanos {
                        Ordering::Less
                    } else {
                        Ordering::Greater
                    },
                    FrameLength::End => Ordering::Greater,
                },
                FrameLength::End => Ordering::Less,
            },
        )
    }
}

impl vstd::std_specs::cmp::PartialOrdSpecImpl for FrameLength {
    open spec fn obeys_partial_cmp_spec() -> bool {
        true
    }

    open spec fn partial_cmp_spec(&self, other: &Self) -> Option<Ordering> {
        spec_partial_cmp(*self, *other)
    }
}

impl FrameLength {
    /// The total comparison: like `partial_cmp` but treating `End` as equal
    /// to itself, so that a minimum is always defined.
    pub fn cmp(&self, other: &Self) -> (r: Ordering)
        ensures
            r == spec_total_cmp(*self, *other),
    {
        if self == other {
            return Ordering::Equal;
        }
        match self {
            FrameLength::Consistent => match other {
                FrameLength::End => Ordering::Greater,
                _ => Ordering::Less,
            },
            FrameLength::Forever => Ordering::Greater,
            FrameLength::Limited(duration) => match other {
                FrameLength::Consistent => Ordering::Greater,
                FrameLength::Forever => Ordering::Less,
                FrameLength::Limited(other_duration) => if duration.nanos < other_duration.nanos {
                    Ordering::Less
                } else {
                    Ordering::Greater
                },
                FrameLength::End => Ordering::Greater,
            },
            FrameLength::End => Ordering::Less,
        }
    }

    /// The more urgent of two hints under the total comparison.
    pub fn min(self, other: Self) -> (r: Self)
        ensures
            r == spec_min(self, other),
    {
        match self.cmp(&other) {
            Ordering::Greater => other,
            _ => self,
        }
    }

    /// Folds this hint against the time `remaining` until a boundary, per
    /// the combination rule: even a child reporting `Forever` is revisited
    /// no later than the boundary.
    pub fn fold_with_remaining(self, remaining: Dur) -> (r: Self)
        ensures
            r == spec_fold(self, remaining),
    {
        match self {
            FrameLength::Forever => FrameLength::Limited(remaining),
            FrameLength::Limited(d) => if d.nanos <= remaining.nanos {
                FrameLength::Limited(d)
            } else {
                FrameLength::Limited(remaining)
            },
            FrameLength::Consistent => FrameLength::Consistent,
            FrameLength::End => FrameLength::End,
        }
    }
}

/// The ordering law: durations order their `Limited` hints, `Consistent`
/// sits below every `Limited`, every `Limited` below `Forever`, and `End`
/// compared with itself has no defined order.
pub proof fn lemma_frame_length_order(d1: Dur, d2: Dur)
    ensures
        d1.nanos < d2.nanos ==> spec_partial_cmp(
            FrameLength::Limited(d1),
            FrameLength::Limited(d2),
        ) == Some(Ordering::Less),
        spec_partial_cmp(FrameLength::Consistent, FrameLength::Limited(d1)) == Some(
            Ordering::Less,
        ),
        spec_partial_cmp(FrameLength::Limited(d1), FrameLength::Forever) == Some(Ordering::Less),
        spec_partial_cmp(FrameLength::Consistent, FrameLength::Forever) == Some(Ordering::Less),
        spec_partial_cmp(FrameLength::End, FrameLength::Consistent) == Some(Ordering::Less),
        spec_partial_cmp(FrameLength::Consistent, FrameLength::End) == Some(Ordering::Greater),
        spec_partial_cmp(FrameLength::End, FrameLength::Limited(d1)) == Some(Ordering::Less),
        spec_partial_cmp(FrameLength::End, FrameLength::Forever) == Some(Ordering::Less),
        spec_partial_cmp(FrameLength::End, FrameLength::End) == None::<Ordering>,
        FrameLength::End == FrameLength::End,
{
}

/// The folding law: a child's `Forever` is clamped to the remaining bound,
/// and a child's `Limited(d)` to the smaller of `d` and the bound.
pub proof fn lemma_fold_clamps(d: Dur, bound: Dur)
    ensures
        spec_fold(FrameLength::Forever, bound) == FrameLength::Limited(bound),
        spec_fold(FrameLength::Limited(d), bound) == FrameLength::Limited(
            if d.nanos <= bound.nanos {
                d
            } else {
                bound
            },
        ),
{
}

} // verus!
