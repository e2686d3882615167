//! Animation playback: tags and the per-entity cursor.
//!
//! A tag is a named, contiguous range of frames with a declared direction
//! and a repeat kind. A cursor walks a tag's range, spending each frame's
//! declared duration on it, bouncing at the ends of a ping-pong tag,
//! wrapping on a looping tag and clamping on a one-shot tag.

use vstd::prelude::*;

verus! {

/// The playback direction a tag declares for itself.
#[derive(Clone, Copy, Debug, PartialEq, Eq, Structural)]
pub enum AnimDirection {
    Forward,
    Reverse,
    PingPong,
}

/// Whether a tag repeats when it reaches the end of its range.
#[derive(Clone, Copy, Debug, PartialEq, Eq, Structural)]
pub enum RepeatKind {
    Looping,
    OneShot,
}

/// The direction a cursor is currently travelling in.
#[derive(Clone, Copy, Debug, PartialEq, Eq, Structural)]
pub enum PlayDirection {
    Forward,
    Backward,
}

/// A named, contiguous frame range with its playback configuration.
/// `first` and `last` are absolute frame indices, both inclusive.
#[derive(Clone, Debug)]
pub struct AnimationTag {
    pub name: String,
    pub first: usize,
    pub last: usize,
    pub direction: AnimDirection,
    pub repeat: RepeatKind,
}

impl AnimationTag {
    /// A tag is well formed when its range is non-empty.
    pub open spec fn wf(self) -> bool {
        self.first <= self.last
    }

    /// The direction a cursor starts in when this tag becomes active.
    pub open spec fn spec_default_play_direction(self) -> PlayDirection {
        if self.direction == AnimDirection::Reverse {
            PlayDirection::Backward
        } else {
            PlayDirection::Forward
        }
    }

    /// Returns the direction a cursor starts in when this tag becomes active:
    /// backward for a reverse tag, forward otherwise.
    pub fn default_play_direction(&self) -> (d: PlayDirection)
        ensures
            d == self.spec_default_play_direction(),
    {
        if self.direction == AnimDirection::Reverse {
            PlayDirection::Backward
        } else {
            PlayDirection::Forward
        }
    }
}

/// Per-entity playback state: the active tag, the current absolute frame
/// index inside the tag's range, the time spent on that frame so far, and
/// the current travel direction.
#[derive(Clone, Debug)]
pub struct AnimationCursor {
    pub tag: AnimationTag,
    pub frame: usize,
    pub elapsed_ms: u64,
    pub direction: PlayDirection,
}

/// Every frame duration in the sheet is at least one millisecond, so that
/// advancing a cursor always consumes time and terminates.
pub open spec fn positive_durations(durs: Seq<u32>) -> bool {
    forall|i: int| 0 <= i < durs.len() ==> durs[i] >= 1
}

/// The opposite travel direction.
pub open spec fn spec_flip(d: PlayDirection) -> PlayDirection {
    if d == PlayDirection::Forward {
        PlayDirection::Backward
    } else {
        PlayDirection::Forward
    }
}

impl AnimationCursor {
    /// A cursor is well formed when its tag is, its frame lies inside the
    /// tag's range, and the elapsed time has been normalized below the
    /// largest possible frame duration.
    pub open spec fn wf(self) -> bool {
        &&& self.tag.wf()
        &&& self.tag.first <= self.frame <= self.tag.last
        &&& self.elapsed_ms <= u32::MAX as u64
    }

    /// The cursor sits on the frame at which its travel direction would
    /// leave the tag's range.
    pub open spec fn at_edge(self) -> bool {
        ||| self.direction == PlayDirection::Forward && self.frame == self.tag.last
        ||| self.direction == PlayDirection::Backward && self.frame == self.tag.first
    }
}

/// Consumes whole frame durations out of `c.elapsed_ms` until the cursor
/// rests inside its current frame, handling the tag's boundary rule on the
/// way: a ping-pong tag bounces, a looping tag wraps, a one-shot tag clamps
/// at the boundary frame with the elapsed time capped at that frame's
/// duration.
pub open spec fn norm_spec(c: AnimationCursor, durs: Seq<u32>) -> AnimationCursor
    decreases c.elapsed_ms,
{
    if !(c.tag.wf() && c.tag.first <= c.frame <= c.tag.last && c.tag.last < durs.len()
        && positive_durations(durs)) {
        c
    } else {
        let d = durs[c.frame as int] as u64;
        if c.elapsed_ms < d {
            c
        } else if !c.at_edge() {
            let next = if c.direction == PlayDirection::Forward {
                (c.frame + 1) as usize
            } else {
                (c.frame - 1) as usize
            };
            norm_spec(
                AnimationCursor {
                    tag: c.tag,
                    frame: next,
                    elapsed_ms: (c.elapsed_ms - d) as u64,
                    direction: c.direction,
                },
                durs,
            )
        } else if c.tag.direction == AnimDirection::PingPong {
            let next = if c.tag.first == c.tag.last {
                c.frame
            } else if c.direction == PlayDirection::Forward {
                (c.tag.last - 1) as usize
            } else {
                (c.tag.first + 1) as usize
            };
            norm_spec(
                AnimationCursor {
                    tag: c.tag,
                    frame: next,
                    elapsed_ms: (c.elapsed_ms - d) as u64,
                    direction: spec_flip(c.direction),
                },
                durs,
            )
        } else if c.tag.repeat == RepeatKind::Looping {
            let next = if c.direction == PlayDirection::Forward {
                c.tag.first
            } else {
                c.tag.last
            };
            norm_spec(
                AnimationCursor {
                    tag: c.tag,
                    frame: next,
                    elapsed_ms: (c.elapsed_ms - d) as u64,
                    direction: c.direction,
                },
                durs,
            )
        } else {
            AnimationCursor { tag: c.tag, frame: c.frame, elapsed_ms: d, direction: c.direction }
        }
    }
}

/// The cursor after one scheduler tick of `dt` milliseconds: the elapsed
/// time grows by `dt` and is then normalized by `norm_spec`.
pub open spec fn advance_spec(c: AnimationCursor, durs: Seq<u32>, dt: u64) -> AnimationCursor {
    norm_spec(
        AnimationCursor {
            tag: c.tag,
            frame: c.frame,
            elapsed_ms: (c.elapsed_ms + dt) as u64,
            direction: c.direction,
        },
        durs,
    )
}

impl AnimationCursor {
    /// Creates a cursor at the start of `tag`: its first frame, no elapsed
    /// time, and the tag's default play direction.
    pub fn new(tag: AnimationTag) -> (c: AnimationCursor)
        requires
            tag.wf(),
        ensures
            c.tag == tag,
            c.frame == tag.first,
            c.elapsed_ms == 0,
            c.direction == tag.spec_default_play_direction(),
            c.wf(),
    {
        let direction = tag.default_play_direction();
        let frame = tag.first;
        AnimationCursor { tag, frame, elapsed_ms: 0, direction }
    }

    /// Switches the active tag: the frame always resets to the new tag's
    /// first frame, the elapsed time to zero and the direction to the tag's
    /// default, whatever the cursor's prior state was.
    pub fn set_tag(&mut self, tag: AnimationTag)
        requires
            tag.wf(),
        ensures
            final(self).tag == tag,
            final(self).frame == tag.first,
            final(self).elapsed_ms == 0,
            final(self).direction == tag.spec_default_play_direction(),
            final(self).wf(),
    {
        let direction = tag.default_play_direction();
        self.frame = tag.first;
        self.tag = tag;
        self.elapsed_ms = 0;
        self.direction = direction;
    }

    /// Flips the travel direction immediately. The frame and the elapsed
    /// time within it are untouched, so playback reverses in place.
    pub fn toggle(&mut self)
        ensures
            final(self).direction == spec_flip(old(self).direction),
            final(self).frame == old(self).frame,
            final(self).elapsed_ms == old(self).elapsed_ms,
            final(self).tag == old(self).tag,
    {
        if self.direction == PlayDirection::Forward {
            self.direction = PlayDirection::Backward;
        } else {
            self.direction = PlayDirection::Forward;
        }
    }

    /// Advances the cursor by `dt_ms` milliseconds of real time against the
    /// sheet's per-frame durations (indexed by absolute frame number).
    /// The result is exactly `advance_spec` of the old state.
    pub fn advance(&mut self, durations: &Vec<u32>, dt_ms: u32)
        requires
            old(self).wf(),
            old(self).tag.last < durations@.len(),
            positive_durations(durations@),
        ensures
            *final(self) == advance_spec(*old(self), durations@, dt_ms as u64),
            final(self).wf(),
            final(self).tag == old(self).tag,
    {
        self.elapsed_ms = self.elapsed_ms + dt_ms as u64;
        let ghost orig = *self;
        loop
            invariant
                self.tag == orig.tag,
                self.tag.wf(),
                self.tag.first <= self.frame <= self.tag.last,
                self.elapsed_ms <= u32::MAX as u64 + u32::MAX as u64,
                self.tag.last < durations@.len(),
                positive_durations(durations@),
                norm_spec(*self, durations@) == norm_spec(orig, durations@),
            ensures
                *self == norm_spec(orig, durations@),
                self.elapsed_ms <= u32::MAX as u64,
                self.tag == orig.tag,
                self.tag.first <= self.frame <= self.tag.last,
            decreases self.elapsed_ms,
        {
            let ghost pre = *self;
            let d = durations[self.frame] as u64;
            if self.elapsed_ms < d {
                proof {
                    assert(norm_spec(pre, durations@) == pre);
                }
                break;
            }
            let forward = self.direction == PlayDirection::Forward;
            let at_edge = if forward {
                self.frame == self.tag.last
            } else {
                self.frame == self.tag.first
            };
            if !at_edge {
                self.elapsed_ms = self.elapsed_ms - d;
                self.frame = if forward {
                    self.frame + 1
                } else {
                    self.frame - 1
                };
                proof {
                    assert(norm_spec(pre, durations@) == norm_spec(*self, durations@));
                }
            } else if matches!(self.tag.direction, AnimDirection::PingPong) {
                self.elapsed_ms = self.elapsed_ms - d;
                self.frame = if self.tag.first == self.tag.last {
                    self.frame
                } else if forward {
                    self.tag.last - 1
                } else {
                    self.tag.first + 1
                };
                self.direction = if forward {
                    PlayDirection::Backward
                } else {
                    PlayDirection::Forward
                };
                proof {
                    assert(norm_spec(pre, durations@) == norm_spec(*self, durations@));
                }
            } else if matches!(self.tag.repeat, RepeatKind::Looping) {
                self.elapsed_ms = self.elapsed_ms - d;
                self.frame = if forward {
                    self.tag.first
                } else {
                    self.tag.last
                };
                proof {
                    assert(norm_spec(pre, durations@) == norm_spec(*self, durations@));
                }
            } else {
                self.elapsed_ms = d;
                proof {
                    assert(norm_spec(pre, durations@) == *self);
                }
                break;
            }
        }
        proof {
            assert(*self == advance_spec(*old(self), durations@, dt_ms as u64));
        }
    }
}

/// The sum of the durations of the frames with indices in `[lo, hi)`.
pub open spec fn sum_durs(durs: Seq<u32>, lo: int, hi: int) -> int
    decreases hi - lo,
{
    if lo >= hi {
        0
    } else {
        durs[lo] + sum_durs(durs, lo + 1, hi)
    }
}

proof fn lemma_sum_durs_nonneg(durs: Seq<u32>, lo: int, hi: int)
    ensures
        sum_durs(durs, lo, hi) >= 0,
    decreases hi - lo,
{
    if lo < hi {
        lemma_sum_durs_nonneg(durs, lo + 1, hi);
    }
}

/// From frame `k` of a forward looping tag with exactly the time left to
/// play frames `k..=last`, normalization lands back on the first frame with
/// no elapsed time.
proof fn lemma_cycle_from(c: AnimationCursor, durs: Seq<u32>, k: usize)
    requires
        c.tag.wf(),
        c.tag.last < durs.len(),
        positive_durations(durs),
        c.tag.direction == AnimDirection::Forward,
        c.tag.repeat == RepeatKind::Looping,
        c.direction == PlayDirection::Forward,
        c.tag.first <= k <= c.tag.last,
        c.frame == k,
        c.elapsed_ms == sum_durs(durs, k as int, c.tag.last as int + 1),
    ensures
        norm_spec(c, durs) == (AnimationCursor {
            tag: c.tag,
            frame: c.tag.first,
            elapsed_ms: 0,
            direction: c.direction,
        }),
    decreases c.tag.last - k,
{
    lemma_sum_durs_nonneg(durs, k as int + 1, c.tag.last as int + 1);
    let d = durs[k as int] as u64;
    assert(c.elapsed_ms >= d);
    if k == c.tag.last {
        let wrapped = AnimationCursor {
            tag: c.tag,
            frame: c.tag.first,
            elapsed_ms: (c.elapsed_ms - d) as u64,
            direction: c.direction,
        };
        assert(wrapped.elapsed_ms == 0);
        assert(norm_spec(wrapped, durs) == wrapped);
        assert(norm_spec(c, durs) == norm_spec(wrapped, durs));
    } else {
        let stepped = AnimationCursor {
            tag: c.tag,
            frame: (k + 1) as usize,
            elapsed_ms: (c.elapsed_ms - d) as u64,
            direction: c.direction,
        };
        assert(norm_spec(c, durs) == norm_spec(stepped, durs));
        lemma_cycle_from(stepped, durs, (k + 1) as usize);
    }
}

/// Law: advancing a cursor that rests at the start of a forward looping tag
/// by the sum of the tag's frame durations — one full cycle — returns it to
/// the tag's first frame with the elapsed time reset to zero; the cursor
/// comes back exactly to its starting state.
pub proof fn lemma_loop_full_cycle(c: AnimationCursor, durs: Seq<u32>)
    requires
        c.wf(),
        c.tag.last < durs.len(),
        positive_durations(durs),
        c.tag.direction == AnimDirection::Forward,
        c.tag.repeat == RepeatKind::Looping,
        c.direction == PlayDirection::Forward,
        c.frame == c.tag.first,
        c.elapsed_ms == 0,
        sum_durs(durs, c.tag.first as int, c.tag.last as int + 1) <= u64::MAX,
    ensures
        advance_spec(c, durs, sum_durs(durs, c.tag.first as int, c.tag.last as int + 1) as u64)
            == c,
{
    lemma_sum_durs_nonneg(durs, c.tag.first as int, c.tag.last as int + 1);
    let total = sum_durs(durs, c.tag.first as int, c.tag.last as int + 1) as u64;
    let filled = AnimationCursor {
        tag: c.tag,
        frame: c.frame,
        elapsed_ms: (c.elapsed_ms + total) as u64,
        direction: c.direction,
    };
    lemma_cycle_from(filled, durs, c.tag.first);
}

/// Law: on a ping-pong tag spanning more than one frame, finishing the last
/// frame while moving forward bounces: the cursor lands on the frame before
/// the last one, travelling backward; and symmetrically, finishing the first
/// frame while moving backward lands on the frame after the first one,
/// travelling forward. The elapsed time is fully consumed either way.
pub proof fn lemma_pingpong_bounce(c: AnimationCursor, durs: Seq<u32>)
    requires
        c.wf(),
        c.tag.last < durs.len(),
        positive_durations(durs),
        c.tag.direction == AnimDirection::PingPong,
        c.tag.first < c.tag.last,
        c.elapsed_ms == 0,
        (c.direction == PlayDirection::Forward && c.frame == c.tag.last)
            || (c.direction == PlayDirection::Backward && c.frame == c.tag.first),
    ensures
        c.direction == PlayDirection::Forward ==> advance_spec(c, durs, durs[c.frame as int] as u64)
            == (AnimationCursor {
            tag: c.tag,
            frame: (c.tag.last - 1) as usize,
            elapsed_ms: 0,
            direction: PlayDirection::Backward,
        }),
        c.direction == PlayDirection::Backward ==> advance_spec(
            c,
            durs,
            durs[c.frame as int] as u64,
        ) == (AnimationCursor {
            tag: c.tag,
            frame: (c.tag.first + 1) as usize,
            elapsed_ms: 0,
            direction: PlayDirection::Forward,
        }),
{
    let d = durs[c.frame as int] as u64;
    let filled = AnimationCursor {
        tag: c.tag,
        frame: c.frame,
        elapsed_ms: (c.elapsed_ms + d) as u64,
        direction: c.direction,
    };
    if c.direction == PlayDirection::Forward {
        let bounced = AnimationCursor {
            tag: c.tag,
            frame: (c.tag.last - 1) as usize,
            elapsed_ms: 0,
            direction: PlayDirection::Backward,
        };
        assert(norm_spec(filled, durs) == norm_spec(bounced, durs));
        assert(norm_spec(bounced, durs) == bounced);
    } else {
        let bounced = AnimationCursor {
            tag: c.tag,
            frame: (c.tag.first + 1) as usize,
            elapsed_ms: 0,
            direction: PlayDirection::Forward,
        };
        assert(norm_spec(filled, durs) == norm_spec(bounced, durs));
        assert(norm_spec(bounced, durs) == bounced);
    }
}

} // verus!
