//! The step cursor of a pattern.

use vstd::prelude::*;
use vstd::arithmetic::div_mod::{
    lemma_mod_add_multiples_vanish, lemma_mod_self_0, lemma_small_mod,
};
use crate::ring::{lemma_next_slot, next_slot};
use crate::single::Single;
use crate::trance_gate::shuffle_note::{is_shuffle_note, shuffle_note};
use crate::trance_gate::{MAX_NUM_STEPS, MIN_NUM_STEPS};

verus! {

/// What a step cursor stands for: a position in a pattern of `count` steps,
/// and whether the step it stands on is swung.
pub struct StepView {
    pub pos: nat,
    pub count: nat,
    pub is_shuffle: bool,
}

/// `count` brought into the range of step counts a pattern can have.
pub open spec fn clamp_count(count: nat) -> nat {
    if count < MIN_NUM_STEPS {
        MIN_NUM_STEPS as nat
    } else if count > MAX_NUM_STEPS {
        MAX_NUM_STEPS as nat
    } else {
        count
    }
}

impl StepView {
    /// The step count is one a pattern can have.
    pub open spec fn wf(self) -> bool {
        MIN_NUM_STEPS <= self.count <= MAX_NUM_STEPS
    }

    /// The cursor stands inside its pattern.
    pub open spec fn in_pattern(self) -> bool {
        self.pos < self.count
    }

    /// The cursor one step on: back at 0 once the end of the pattern is
    /// reached or passed.
    pub open spec fn advanced(self) -> StepView {
        StepView { pos: next_slot(self.pos as int, self.count as int) as nat, ..self }
    }

    /// The cursor `n` steps on.
    pub open spec fn advanced_by(self, n: nat) -> StepView
        decreases n,
    {
        if n == 0 {
            self
        } else {
            self.advanced_by((n - 1) as nat).advanced()
        }
    }
}

/// A cursor over the steps of a pattern.
#[derive(Debug, Clone, Copy)]
pub struct Step {
    pos: usize,
    count: usize,
    is_shuffle: bool,
}

impl View for Step {
    type V = StepView;

    closed spec fn view(&self) -> StepView {
        StepView { pos: self.pos as nat, count: self.count as nat, is_shuffle: self.is_shuffle }
    }
}

impl Step {
    #[verifier::type_invariant]
    spec fn inv(self) -> bool {
        MIN_NUM_STEPS <= self.count <= MAX_NUM_STEPS
    }

    /// A cursor at `pos` in a pattern of `count` steps, `count` clamped to
    /// what a pattern can have.
    pub fn new(pos: usize, count: usize, is_shuffle: bool) -> (step: Self)
        ensures
            step@ == (StepView { pos: pos as nat, count: clamp_count(count as nat), is_shuffle }),
            step@.wf(),
    {
        let count: usize = if count < MIN_NUM_STEPS {
            MIN_NUM_STEPS
        } else if count > MAX_NUM_STEPS {
            MAX_NUM_STEPS
        } else {
            count
        };
        Self { pos, count, is_shuffle }
    }

    /// Moves one step on and wraps to 0 at the end of the pattern. A cursor
    /// that a shorter step count left behind the end wraps as well. Whether
    /// the new step is swung is found out by `set_note_len`.
    pub fn advance(&mut self)
        ensures
            final(self)@ == old(self)@.advanced(),
            final(self)@.wf(),
            final(self)@.in_pattern(),
    {
        proof {
            use_type_invariant(&*self);
        }
        if self.pos >= self.count - 1 {
            self.pos = 0;
        } else {
            self.pos = self.pos + 1;
        }
    }

    /// The step the cursor stands on.
    pub fn pos(&self) -> (pos: usize)
        ensures
            pos == self@.pos,
    {
        self.pos
    }

    /// The number of steps in the pattern, always 1 to 32.
    pub fn count(&self) -> (count: usize)
        ensures
            count == self@.count,
            self@.wf(),
    {
        proof {
            use_type_invariant(self);
        }
        self.count
    }

    /// Whether the step was found swung when the note length was last set.
    pub fn is_shuffle(&self) -> (is_shuffle: bool)
        ensures
            is_shuffle == self@.is_shuffle,
    {
        self.is_shuffle
    }

    /// Puts the cursor on `pos`, whatever the step count.
    pub fn set_pos(&mut self, pos: usize)
        ensures
            final(self)@ == (StepView { pos: pos as nat, ..old(self)@ }),
    {
        proof {
            use_type_invariant(&*self);
        }
        self.pos = pos;
    }

    /// Sets the step count, clamped to what a pattern can have. The cursor
    /// stays where it is, also where that is behind the new end.
    pub fn set_count(&mut self, count: usize)
        ensures
            final(self)@ == (StepView { count: clamp_count(count as nat), ..old(self)@ }),
            final(self)@.wf(),
    {
        let count: usize = if count < MIN_NUM_STEPS {
            MIN_NUM_STEPS
        } else if count > MAX_NUM_STEPS {
            MAX_NUM_STEPS
        } else {
            count
        };
        self.count = count;
    }

    /// Finds out anew whether the step the cursor stands on is swung, for
    /// steps of length `note_len`.
    pub fn set_note_len(&mut self, note_len: Single)
        ensures
            final(self)@ == (StepView {
                is_shuffle: shuffle_note(old(self)@.pos, note_len),
                ..old(self)@
            }),
    {
        proof {
            use_type_invariant(&*self);
        }
        self.is_shuffle = is_shuffle_note(self.pos, note_len);
    }
}

/// A clamped step count is one a pattern can have, and a count that is one
/// already stays as it is.
pub proof fn lemma_clamp_count(count: nat)
    ensures
        MIN_NUM_STEPS <= clamp_count(count) <= MAX_NUM_STEPS,
        MIN_NUM_STEPS <= count <= MAX_NUM_STEPS ==> clamp_count(count) == count,
{
}

/// A cursor inside its pattern that moves on `n` times stands `n` steps
/// further round the pattern; nothing else about it changes.
pub proof fn lemma_advance_cycles(step: StepView, n: nat)
    requires
        step.wf(),
        step.in_pattern(),
    ensures
        step.advanced_by(n).pos == (step.pos + n) % step.count,
        step.advanced_by(n).count == step.count,
        step.advanced_by(n).is_shuffle == step.is_shuffle,
    decreases n,
{
    if n == 0 {
        lemma_small_mod(step.pos, step.count);
    } else {
        lemma_advance_cycles(step, (n - 1) as nat);
        lemma_next_slot(step.pos + n - 1, step.count as int);
    }
}

/// Starting at step 0, a cursor visits the steps 0, 1, ... up to the last
/// one of the pattern in turn, and is back at step 0 after `count` moves.
pub proof fn lemma_walks_whole_pattern(step: StepView, n: nat)
    requires
        step.wf(),
        step.pos == 0,
    ensures
        n < step.count ==> step.advanced_by(n).pos == n,
        step.advanced_by(step.count).pos == 0,
        step.advanced_by(n + step.count).pos == step.advanced_by(n).pos,
{
    let count = step.count as int;
    lemma_advance_cycles(step, n);
    lemma_advance_cycles(step, step.count);
    lemma_advance_cycles(step, n + step.count);
    if n < step.count {
        lemma_small_mod(n, step.count);
    }
    lemma_mod_self_0(count);
    lemma_mod_add_multiples_vanish(n as int, count);
}

/// A cursor that a shorter step count left at or behind the end of the
/// pattern is back at step 0 with its next move, and inside the pattern
/// from then on.
pub proof fn lemma_stray_cursor_wraps(step: StepView)
    requires
        step.wf(),
        !step.in_pattern(),
    ensures
        step.advanced().pos == 0,
        step.advanced().in_pattern(),
{
}

} // verus!
