//! The stereo delay: two delay lines with heads of their own.
//!
//! Per sample the host reads the lines, filters what it read, and feeds
//! each line its input plus the part of the output that goes round again.

use vstd::prelude::*;
use crate::stereo_delay::delay_line::{DelayLine, DelayLineView, Taps};

pub mod delay_line;
pub mod delay_line_heads;

verus! {

/// Length of a delay buffer until another one is set, in samples.
pub const DEFAULT_BUFFER_SIZE: usize = 8000;

/// A stereo delay as its two lines.
pub struct StereoDelayView<S> {
    pub left: DelayLineView<S>,
    pub right: DelayLineView<S>,
}

impl<S> StereoDelayView<S> {
    /// Both lines are valid.
    pub open spec fn wf(self) -> bool {
        self.left.wf() && self.right.wf()
    }
}

/// Two delay lines, left and right.
pub struct StereoDelay<S: Copy> {
    left: DelayLine<S>,
    right: DelayLine<S>,
}

impl<S: Copy> View for StereoDelay<S> {
    type V = StereoDelayView<S>;

    closed spec fn view(&self) -> StereoDelayView<S> {
        StereoDelayView { left: self.left@, right: self.right@ }
    }
}

impl<S: Copy> StereoDelay<S> {
    /// Two silent lines of the default length, `zero` being the sample that
    /// stands for silence.
    pub fn new(zero: S) -> (delay: Self)
        ensures
            delay@.left == DelayLineView::initial(zero),
            delay@.right == DelayLineView::initial(zero),
            delay@.wf(),
    {
        Self { left: DelayLine::new(zero), right: DelayLine::new(zero) }
    }

    /// Reads the left line.
    pub fn read_mono(&self) -> (taps: Taps<S>)
        ensures
            taps == self@.left.taps(),
            self@.left.wf(),
    {
        self.left.read()
    }

    /// Feeds the left line and moves its heads on; the right line stays as
    /// it is.
    pub fn feed_mono(&mut self, value: S)
        ensures
            final(self)@.left == old(self)@.left.fed(value),
            final(self)@.right == old(self)@.right,
            final(self)@.left.wf(),
    {
        self.left.feed(value);
    }

    /// Reads both lines, left first.
    pub fn read_stereo(&self) -> (taps: (Taps<S>, Taps<S>))
        ensures
            taps.0 == self@.left.taps(),
            taps.1 == self@.right.taps(),
            self@.wf(),
    {
        (self.left.read(), self.right.read())
    }

    /// Feeds each line its value and moves all heads on.
    pub fn feed_stereo(&mut self, value_left: S, value_right: S)
        ensures
            final(self)@.left == old(self)@.left.fed(value_left),
            final(self)@.right == old(self)@.right.fed(value_right),
            final(self)@.wf(),
    {
        self.left.feed(value_left);
        self.right.feed(value_right);
    }

    /// Asks for the delay `diff` on the left line, in units of
    /// `1 / FIXED_ONE` of the buffer length.
    pub fn set_normalized_delay_left(&mut self, diff: u32)
        ensures
            final(self)@.left == (DelayLineView {
                heads: old(self)@.left.heads.with_heads_diff(diff as nat),
                ..old(self)@.left
            }),
            final(self)@.right == old(self)@.right,
            final(self)@.left.wf(),
    {
        self.left.set_normalized_delay(diff);
    }

    /// Asks for the delay `diff` on the right line.
    pub fn set_normalized_delay_right(&mut self, diff: u32)
        ensures
            final(self)@.right == (DelayLineView {
                heads: old(self)@.right.heads.with_heads_diff(diff as nat),
                ..old(self)@.right
            }),
            final(self)@.left == old(self)@.left,
            final(self)@.right.wf(),
    {
        self.right.set_normalized_delay(diff);
    }

    /// Makes both lines silent. The heads stay where they are.
    pub fn clear_buffer(&mut self)
        ensures
            final(self)@.left == old(self)@.left.cleared(),
            final(self)@.right == old(self)@.right.cleared(),
            final(self)@.wf(),
    {
        self.left.clear_buffer();
        self.right.clear_buffer();
    }

    /// Gives both lines `size` slots.
    pub fn set_buffer_size(&mut self, size: usize)
        requires
            size >= 1,
        ensures
            final(self)@.left == old(self)@.left.resized(size as nat),
            final(self)@.right == old(self)@.right.resized(size as nat),
            final(self)@.wf(),
    {
        self.left.set_buffer_size(size);
        self.right.set_buffer_size(size);
    }

    /// Puts each read head at the delay asked for behind its write head at
    /// once.
    pub fn reset_heads(&mut self)
        ensures
            final(self)@.left == (DelayLineView {
                heads: old(self)@.left.heads.reset(),
                ..old(self)@.left
            }),
            final(self)@.right == (DelayLineView {
                heads: old(self)@.right.heads.reset(),
                ..old(self)@.right
            }),
            final(self)@.wf(),
    {
        self.left.reset_heads();
        self.right.reset_heads();
    }
}

impl<S: Copy> Clone for StereoDelay<S> {
    /// A stereo delay with the same two lines.
    fn clone(&self) -> (delay: Self)
        ensures
            delay@ == self@,
    {
        Self { left: self.left.clone(), right: self.right.clone() }
    }
}

} // verus!
