//! The step gate: pattern table, step cursor and the per-sample decisions.
//!
//! A step gate walks through a pattern of up to 32 steps. Each step holds
//! one gain per lane. Per sample the host asks what to do with the frame;
//! the answer is the pair of gains of the step that the cursor stands on,
//! or the order to pass the input through while the delay before the first
//! step has not run out. The host owns the clocks: it says when that delay
//! has run out, how far the step clock has come, and when it has wrapped.
//!
//! A gain is whatever the host computes with; it is stored and handed back
//! here, and never looked into. Mix, width, shuffle amount and the values of
//! the clocks are counted in units of `1 / FIXED_ONE`.

use vstd::prelude::*;
use vstd::arithmetic::div_mod::lemma_mod_pos_bound;
use crate::single::Single;
use crate::trance_gate::shuffle_note::shuffle_note;
use crate::trance_gate::step::{lemma_advance_cycles, Step, StepView};
use crate::{filled, FIXED_ONE, NUM_CHANNELS};

pub mod shuffle_note;
pub mod step;

verus! {

/// Largest number of steps a pattern can hold.
pub const MAX_NUM_STEPS: usize = 32;

/// Smallest number of steps a pattern can be cut down to.
pub const MIN_NUM_STEPS: usize = 1;

/// The left lane.
pub const L: usize = 0;

/// The right lane.
pub const R: usize = 1;

/// Bits of 0.01, the time in seconds that the contour of a new step gate
/// takes, as an IEEE 754 single-precision number.
pub const DEFAULT_CONTOUR_BITS: u32 = 0x3C23_D70A;

/// The mix of a new step gate: one half.
pub const DEFAULT_MIX: u32 = 500_000_000;

/// The longest shuffle delay is 3/4 of a step: this is the 3.
pub const MAX_DELAY_NUMERATOR: u32 = 3;

/// The longest shuffle delay is 3/4 of a step: this is the 4.
pub const MAX_DELAY_DENOMINATOR: u32 = 4;

/// What the host is to do with one frame.
#[derive(Debug, PartialEq)]
pub enum GateAction<S> {
    /// The delay before the first step has not run out: hand the input on
    /// as it is, and leave the fade-in and step clocks alone.
    Bypass,
    /// Shape the two gains with the width, the contour filters and the mix,
    /// in this order, and multiply the input by them.
    Gate {
        /// Gain of the left lane, before width, contour and mix.
        left: S,
        /// Gain of the right lane, before width, contour and mix.
        right: S,
        /// The factor that a gain is at least kept at, in units of
        /// `1 / FIXED_ONE`: 1 less the width that was set.
        width: u32,
        /// How much of the shaped gain goes into the output, in units of
        /// `1 / FIXED_ONE`; the rest of the output is the input as it is.
        mix: u32,
    },
}

/// A pattern table laid out lane after lane, as a table of lanes.
pub open spec fn lanes<S>(cells: Seq<S>) -> Seq<Seq<S>> {
    Seq::new(
        NUM_CHANNELS as nat,
        |channel: int|
            Seq::new(MAX_NUM_STEPS as nat, |step: int| cells[channel * MAX_NUM_STEPS + step]),
    )
}

/// A step gate as plain values.
pub struct TranceGateView<S> {
    /// The gains, one sequence of `MAX_NUM_STEPS` per lane.
    pub steps: Seq<Seq<S>>,
    /// The step cursor.
    pub step: StepView,
    /// The lane that the right output takes its gain from: `L` or `R`.
    pub ch: nat,
    /// Whether the delay clock has to run out before the first step.
    pub is_delay_active: bool,
    /// Whether the mix follows the fade-in clock.
    pub is_fade_in_active: bool,
    /// The mix, in units of `1 / FIXED_ONE`: 0 to `FIXED_ONE`.
    pub mix: nat,
    /// 1 less the width that was set, in units of `1 / FIXED_ONE`: 0 to
    /// `FIXED_ONE`.
    pub width: nat,
    /// The shuffle amount, in units of `1 / FIXED_ONE`.
    pub shuffle: nat,
    /// The time that the contour takes, in seconds.
    pub contour: Single,
    /// The gain that silences a lane.
    pub zero: S,
}

impl<S> TranceGateView<S> {
    /// The table has `NUM_CHANNELS` lanes of `MAX_NUM_STEPS` gains, the
    /// cursor points into it, and the right output reads a stereo lane.
    pub open spec fn wf(self) -> bool {
        &&& self.steps.len() == NUM_CHANNELS
        &&& forall|channel: int|
            0 <= channel < NUM_CHANNELS ==> (#[trigger] self.steps[channel]).len() == MAX_NUM_STEPS
        &&& self.step.wf()
        &&& self.step.pos < MAX_NUM_STEPS
        &&& (self.ch == L || self.ch == R)
        &&& self.mix <= FIXED_ONE
        &&& self.width <= FIXED_ONE
    }

    /// A silent pattern of full length, the cursor at the start, both
    /// outputs read from the left lane, no delay and no fade-in.
    pub open spec fn initial(zero: S) -> TranceGateView<S> {
        TranceGateView {
            steps: Seq::new(
                NUM_CHANNELS as nat,
                |channel: int| Seq::new(MAX_NUM_STEPS as nat, |step: int| zero),
            ),
            step: StepView { pos: 0, count: MAX_NUM_STEPS as nat, is_shuffle: false },
            ch: L as nat,
            is_delay_active: false,
            is_fade_in_active: false,
            mix: DEFAULT_MIX as nat,
            width: 0,
            shuffle: 0,
            contour: Single { bits: DEFAULT_CONTOUR_BITS },
            zero,
        }
    }

    /// The state after the contour time `contour` was set: as before where
    /// that is the number it was, so that the filters stay as they are.
    pub open spec fn with_contour(self, contour: Single) -> TranceGateView<S> {
        if self.contour.same_number(contour) {
            self
        } else {
            TranceGateView { contour, ..self }
        }
    }

    /// Whether the delay before the first step is still running, given
    /// whether the delay clock has overflowed.
    pub open spec fn is_delay_running(self, is_overflow: bool) -> bool {
        !is_overflow && self.is_delay_active
    }

    /// Whether the step clock, at `phase_value`, has passed the shuffle
    /// delay: 3/4 of the shuffle amount.
    pub open spec fn is_shuffle_delay_over(self, phase_value: nat) -> bool {
        MAX_DELAY_DENOMINATOR * phase_value > MAX_DELAY_NUMERATOR * self.shuffle
    }

    /// Whether the step the cursor stands on is held silent: it is swung and
    /// the step clock has not passed the shuffle delay.
    pub open spec fn is_step_held(self, phase_value: nat) -> bool {
        self.step.is_shuffle && !self.is_shuffle_delay_over(phase_value)
    }

    /// The mix as it goes into a frame: the mix that was set, and while the
    /// fade-in is on, that part of it which the fade-in clock has reached.
    pub open spec fn effective_mix(self, fade_in_phase_value: nat) -> nat {
        if self.is_fade_in_active {
            self.mix * fade_in_phase_value / (FIXED_ONE as nat)
        } else {
            self.mix
        }
    }

    /// What the host is to do with a frame, the step clock being at
    /// `phase_value` and the fade-in clock at `fade_in_phase_value`.
    pub open spec fn action(
        self,
        is_overflow: bool,
        phase_value: nat,
        fade_in_phase_value: nat,
    ) -> GateAction<S> {
        if self.is_delay_running(is_overflow) {
            GateAction::Bypass
        } else if self.is_step_held(phase_value) {
            GateAction::Gate {
                left: self.zero,
                right: self.zero,
                width: self.width as u32,
                mix: self.effective_mix(fade_in_phase_value) as u32,
            }
        } else {
            GateAction::Gate {
                left: self.steps[L as int][self.step.pos as int],
                right: self.steps[self.ch as int][self.step.pos as int],
                width: self.width as u32,
                mix: self.effective_mix(fade_in_phase_value) as u32,
            }
        }
    }

    /// `value` cut down to `FIXED_ONE`.
    pub open spec fn clamp_unit(value: nat) -> nat {
        if value > FIXED_ONE {
            FIXED_ONE as nat
        } else {
            value
        }
    }

    /// The state after the step clock was moved on: if it wrapped, the
    /// cursor stands on the next step, and on a swung one or not according
    /// to `note_len`.
    pub open spec fn clocked(self, is_overflow: bool, note_len: Single) -> TranceGateView<S> {
        if is_overflow {
            TranceGateView {
                step: StepView {
                    pos: self.step.advanced().pos,
                    is_shuffle: shuffle_note(self.step.advanced().pos, note_len),
                    ..self.step
                },
                ..self
            }
        } else {
            self
        }
    }

    /// The state after the step clock wrapped `n` times.
    pub open spec fn clocked_by(self, n: nat, note_len: Single) -> TranceGateView<S>
        decreases n,
    {
        if n == 0 {
            self
        } else {
            self.clocked_by((n - 1) as nat, note_len).clocked(true, note_len)
        }
    }

    /// The state after a trigger: the delay before the first step and the
    /// fade-in each switched on by a length greater than 0 and off by any
    /// other, the cursor back at the start.
    pub open spec fn triggered(
        self,
        delay_len: Single,
        fade_in_len: Single,
    ) -> TranceGateView<S> {
        TranceGateView {
            step: StepView { pos: 0, ..self.step },
            is_delay_active: delay_len.is_positive(),
            is_fade_in_active: fade_in_len.is_positive(),
            ..self
        }
    }

    /// The level that the contour filters are reset to: 1, closed, where
    /// the delay before the first step is switched on, and 0, open, where
    /// it is not.
    pub open spec fn reset_level(self) -> u8 {
        if self.is_delay_active {
            1
        } else {
            0
        }
    }
}

/// A step gate whose cursor stands inside its pattern walks round the
/// pattern with the step clock: after `n` wraps it stands `n` steps further
/// round, on a swung step or not as the note length says, and once the delay
/// and the shuffle delay are over it hands out the gains of just that step.
/// Everything else stays as it is.
pub proof fn lemma_gate_walks_pattern<S>(
    gate: TranceGateView<S>,
    n: nat,
    note_len: Single,
    phase_value: nat,
    fade_in_phase_value: nat,
)
    requires
        gate.wf(),
        gate.step.in_pattern(),
        gate.is_shuffle_delay_over(phase_value),
    ensures
        gate.clocked_by(n, note_len).wf(),
        gate.clocked_by(n, note_len).step.in_pattern(),
        gate.clocked_by(n, note_len).step.pos == (gate.step.pos + n) % gate.step.count,
        gate.clocked_by(n, note_len).step.count == gate.step.count,
        n > 0 ==> gate.clocked_by(n, note_len).step.is_shuffle == shuffle_note(
            (gate.step.pos + n) % gate.step.count,
            note_len,
        ),
        gate.clocked_by(n, note_len).steps == gate.steps,
        gate.clocked_by(n, note_len).ch == gate.ch,
        gate.clocked_by(n, note_len).is_delay_active == gate.is_delay_active,
        gate.clocked_by(n, note_len).is_fade_in_active == gate.is_fade_in_active,
        gate.clocked_by(n, note_len).mix == gate.mix,
        gate.clocked_by(n, note_len).width == gate.width,
        gate.clocked_by(n, note_len).shuffle == gate.shuffle,
        gate.clocked_by(n, note_len).contour == gate.contour,
        gate.clocked_by(n, note_len).action(true, phase_value, fade_in_phase_value)
            == (GateAction::Gate {
            left: gate.steps[L as int][((gate.step.pos + n) % gate.step.count) as int],
            right: gate.steps[gate.ch as int][((gate.step.pos + n) % gate.step.count) as int],
            width: gate.width as u32,
            mix: gate.effective_mix(fade_in_phase_value) as u32,
        }),
    decreases n,
{
    lemma_advance_cycles(gate.step, n);
    lemma_mod_pos_bound((gate.step.pos + n) as int, gate.step.count as int);
    if n > 0 {
        lemma_gate_walks_pattern(gate, (n - 1) as nat, note_len, phase_value, fade_in_phase_value);
        lemma_advance_cycles(gate.step, (n - 1) as nat);
    }
}

/// With the mix set to 0 nothing of the shaped gain goes into the output,
/// whatever the pattern holds and wherever the fade-in clock stands. With
/// the mix set to 1 and the fade-in off all of it does, and with the width
/// set to 0 a gain is kept at no less than itself, that is, as it is.
pub proof fn lemma_mix_and_width_at_their_ends<S>(
    gate: TranceGateView<S>,
    fade_in_phase_value: nat,
)
    requires
        gate.wf(),
    ensures
        gate.mix == 0 ==> gate.effective_mix(fade_in_phase_value) == 0,
        gate.mix == FIXED_ONE && !gate.is_fade_in_active ==> gate.effective_mix(
            fade_in_phase_value,
        ) == FIXED_ONE,
        gate.mix == FIXED_ONE && fade_in_phase_value == FIXED_ONE ==> gate.effective_mix(
            fade_in_phase_value,
        ) == FIXED_ONE,
        fade_in_phase_value <= FIXED_ONE ==> gate.effective_mix(fade_in_phase_value) <= gate.mix,
        TranceGateView::<S>::clamp_unit(0) == 0,
        FIXED_ONE - TranceGateView::<S>::clamp_unit(0) == FIXED_ONE,
{
    if gate.mix == 0 {
        assert(gate.mix * fade_in_phase_value == 0) by (nonlinear_arith)
            requires
                gate.mix == 0,
        ;
    }
    if gate.mix == FIXED_ONE && fade_in_phase_value == FIXED_ONE {
        assert(gate.mix * fade_in_phase_value == 1_000_000_000 * 1_000_000_000) by (nonlinear_arith)
            requires
                gate.mix == 1_000_000_000,
                fade_in_phase_value == 1_000_000_000,
        ;
    }
    if fade_in_phase_value <= FIXED_ONE {
        assert(gate.mix * fade_in_phase_value <= gate.mix * 1_000_000_000) by (nonlinear_arith)
            requires
                fade_in_phase_value <= 1_000_000_000,
                gate.mix >= 0,
        ;
        assert(gate.mix * 1_000_000_000 / 1_000_000_000 == gate.mix);
        assert(gate.mix * fade_in_phase_value / 1_000_000_000 <= gate.mix * 1_000_000_000
            / 1_000_000_000);
    }
}

/// The control core of a step gate.
#[derive(Debug)]
pub struct TranceGate<S: Copy> {
    channel_steps_list: Vec<S>,
    step_val: Step,
    ch: usize,
    is_delay_active: bool,
    is_fade_in_active: bool,
    mix: u32,
    width: u32,
    shuffle: u32,
    contour: Single,
    zero: S,
}

impl<S: Copy> View for TranceGate<S> {
    type V = TranceGateView<S>;

    closed spec fn view(&self) -> TranceGateView<S> {
        TranceGateView {
            steps: lanes(self.channel_steps_list@),
            step: self.step_val@,
            ch: self.ch as nat,
            is_delay_active: self.is_delay_active,
            is_fade_in_active: self.is_fade_in_active,
            mix: self.mix as nat,
            width: self.width as nat,
            shuffle: self.shuffle as nat,
            contour: self.contour,
            zero: self.zero,
        }
    }
}

impl<S: Copy> TranceGate<S> {
    #[verifier::type_invariant]
    spec fn inv(self) -> bool {
        &&& self.channel_steps_list@.len() == NUM_CHANNELS * MAX_NUM_STEPS
        &&& self.step_val@.wf()
        &&& self.step_val@.pos < MAX_NUM_STEPS
        &&& (self.ch == L || self.ch == R)
        &&& self.mix <= FIXED_ONE
        &&& self.width <= FIXED_ONE
    }

    /// A step gate with a silent pattern of 32 steps, `zero` being the gain
    /// that silences a lane.
    pub fn new(zero: S) -> (gate: Self)
        ensures
            gate@ == TranceGateView::initial(zero),
            gate@.wf(),
    {
        let empty: Vec<S> = Vec::new();
        let channel_steps_list: Vec<S> = filled(&empty, NUM_CHANNELS * MAX_NUM_STEPS, zero);
        let step_val: Step = Step::new(0, MAX_NUM_STEPS, false);
        let gate: Self = Self {
            channel_steps_list,
            step_val,
            ch: L,
            is_delay_active: false,
            is_fade_in_active: false,
            mix: DEFAULT_MIX,
            width: 0,
            shuffle: 0,
            contour: Single::from_bits(DEFAULT_CONTOUR_BITS),
            zero,
        };
        assert(gate@.steps =~~= TranceGateView::initial(zero).steps);
        gate
    }

    /// Starts the pattern anew: switches the delay before the first step
    /// and the fade-in on or off, as `set_delay` and `set_fade_in` do, and
    /// puts the cursor back at the start. With the delay switched on, the
    /// contour filters are to be reset to the level handed back. The host
    /// sets its three clocks to 0, and the lengths of its delay and fade-in
    /// clocks as after `set_delay` and `set_fade_in`.
    pub fn trigger(&mut self, delay_len: Single, fade_in_len: Single) -> (reset_val: Option<u8>)
        ensures
            final(self)@ == old(self)@.triggered(delay_len, fade_in_len),
            final(self)@.wf(),
            reset_val == (if delay_len.is_positive() {
                Some(1u8)
            } else {
                None
            }),
    {
        self.set_delay(delay_len);
        self.set_fade_in(fade_in_len);
        proof {
            use_type_invariant(&*self);
        }
        let mut step_val: Step = self.step_val;
        step_val.set_pos(0);
        self.step_val = step_val;
        if self.is_delay_active {
            Some(self.reset())
        } else {
            None
        }
    }

    /// The level to reset the contour filters to: 1 where the delay before
    /// the first step is switched on, 0 where it is not.
    pub fn reset(&self) -> (reset_val: u8)
        ensures
            reset_val == self@.reset_level(),
    {
        if self.is_delay_active {
            1
        } else {
            0
        }
    }

    /// Puts the cursor on step `step_pos`.
    pub fn reset_step_pos(&mut self, step_pos: usize)
        requires
            step_pos < MAX_NUM_STEPS,
        ensures
            final(self)@ == (TranceGateView {
                step: StepView { pos: step_pos as nat, ..old(self)@.step },
                ..old(self)@
            }),
            final(self)@.wf(),
    {
        proof {
            use_type_invariant(&*self);
        }
        let mut step_val: Step = self.step_val;
        step_val.set_pos(step_pos);
        self.step_val = step_val;
    }

    /// The step the cursor stands on.
    pub fn step_pos(&self) -> (step_pos: usize)
        ensures
            step_pos == self@.step.pos,
            step_pos < MAX_NUM_STEPS,
            self@.wf(),
    {
        proof {
            use_type_invariant(self);
        }
        self.step_val.pos()
    }

    /// Decides what to do with one frame. `is_overflow` tells whether the
    /// delay clock, moved on by this sample, has run out; `phase_value` and
    /// `fade_in_phase_value` are the values of the step clock and of the
    /// fade-in clock, in units of `1 / FIXED_ONE`.
    pub fn process(
        &self,
        is_overflow: bool,
        phase_value: u32,
        fade_in_phase_value: u32,
    ) -> (action: GateAction<S>)
        ensures
            action == self@.action(is_overflow, phase_value as nat, fade_in_phase_value as nat),
            self@.wf(),
    {
        proof {
            use_type_invariant(self);
        }
        if self.is_delay_running(is_overflow) {
            return GateAction::Bypass;
        }
        let pos: usize = self.step_val.pos();
        let left: S = self.channel_steps_list[L * MAX_NUM_STEPS + pos];
        let right: S = self.channel_steps_list[self.ch * MAX_NUM_STEPS + pos];
        let (left, right) = self.apply_shuffle(left, right, phase_value);
        let mix: u32 = self.compute_mix(fade_in_phase_value);
        GateAction::Gate { left, right, width: self.width, mix }
    }

    /// Takes in what the step clock did in this sample: if it wrapped, the
    /// cursor moves one step on and finds out whether it now stands on a
    /// swung step, for steps of length `note_len`.
    pub fn update_phases(&mut self, is_overflow: bool, note_len: Single)
        ensures
            final(self)@ == old(self)@.clocked(is_overflow, note_len),
            final(self)@.wf(),
    {
        proof {
            use_type_invariant(&*self);
        }
        if !is_overflow {
            return ;
        }
        let mut step_val: Step = self.step_val;
        step_val.advance();
        Self::set_shuffle(&mut step_val, note_len);
        self.step_val = step_val;
    }

    /// Writes one gain of the pattern.
    pub fn set_step(&mut self, channel: usize, step: usize, value_normalized: S)
        requires
            channel < NUM_CHANNELS,
            step < MAX_NUM_STEPS,
        ensures
            final(self)@ == (TranceGateView {
                steps: old(self)@.steps.update(
                    channel as int,
                    old(self)@.steps[channel as int].update(step as int, value_normalized),
                ),
                ..old(self)@
            }),
            final(self)@.wf(),
    {
        proof {
            use_type_invariant(&*self);
        }
        self.channel_steps_list[channel * MAX_NUM_STEPS + step] = value_normalized;
        assert(self@.steps =~~= old(self)@.steps.update(
            channel as int,
            old(self)@.steps[channel as int].update(step as int, value_normalized),
        ));
    }

    /// Sets the width, in units of `1 / FIXED_ONE`; more than `FIXED_ONE`
    /// counts as `FIXED_ONE`. Kept is 1 less the width.
    pub fn set_width(&mut self, width: u32)
        ensures
            final(self)@ == (TranceGateView {
                width: (FIXED_ONE - TranceGateView::<S>::clamp_unit(width as nat)) as nat,
                ..old(self)@
            }),
            final(self)@.wf(),
    {
        proof {
            use_type_invariant(&*self);
        }
        let width: u32 = if width > FIXED_ONE {
            FIXED_ONE
        } else {
            width
        };
        self.width = FIXED_ONE - width;
    }

    /// Sets the mix, in units of `1 / FIXED_ONE`; more than `FIXED_ONE`
    /// counts as `FIXED_ONE`.
    pub fn set_mix(&mut self, mix: u32)
        ensures
            final(self)@ == (TranceGateView {
                mix: TranceGateView::<S>::clamp_unit(mix as nat),
                ..old(self)@
            }),
            final(self)@.wf(),
    {
        proof {
            use_type_invariant(&*self);
        }
        self.mix = if mix > FIXED_ONE {
            FIXED_ONE
        } else {
            mix
        };
    }

    /// Sets the shuffle amount, in units of `1 / FIXED_ONE`: a swung step
    /// stays silent until the step clock has passed 3/4 of it.
    pub fn set_shuffle_amount(&mut self, shuffle: u32)
        ensures
            final(self)@ == (TranceGateView { shuffle: shuffle as nat, ..old(self)@ }),
            final(self)@.wf(),
    {
        proof {
            use_type_invariant(&*self);
        }
        self.shuffle = shuffle;
    }

    /// Chooses the lane that the right output takes its gain from: the
    /// right lane if `mode` is set, the left lane if not.
    pub fn set_stereo_mode(&mut self, mode: bool)
        ensures
            final(self)@ == (TranceGateView {
                ch: if mode {
                    R as nat
                } else {
                    L as nat
                },
                ..old(self)@
            }),
            final(self)@.wf(),
    {
        proof {
            use_type_invariant(&*self);
        }
        self.ch = if mode {
            R
        } else {
            L
        };
    }

    /// Sets the number of steps in the pattern, clamped to 1 to 32. The
    /// cursor stays where it is until it next wraps.
    pub fn set_step_count(&mut self, step_count: usize)
        ensures
            final(self)@ == (TranceGateView {
                step: StepView {
                    count: crate::trance_gate::step::clamp_count(step_count as nat),
                    ..old(self)@.step
                },
                ..old(self)@
            }),
            final(self)@.wf(),
    {
        proof {
            use_type_invariant(&*self);
        }
        let mut step_val: Step = self.step_val;
        step_val.set_count(step_count);
        self.step_val = step_val;
    }

    /// Sets the time that the contour takes, in seconds. Tells whether that
    /// is another number than before: only then are the poles of the contour
    /// filters to be worked out anew.
    pub fn set_contour(&mut self, contour: Single) -> (changed: bool)
        ensures
            final(self)@ == old(self)@.with_contour(contour),
            final(self)@.wf(),
            changed == !old(self)@.contour.same_number(contour),
    {
        proof {
            use_type_invariant(&*self);
        }
        if self.contour.equals(&contour) {
            return false;
        }
        self.contour = contour;
        true
    }

    /// The time that the contour takes, in seconds.
    pub fn contour(&self) -> (contour: Single)
        ensures
            contour == self@.contour,
    {
        self.contour
    }

    /// Switches the fade-in on if `fade_in` is greater than 0, and off if it
    /// is not. Tells whether it is on: only then is the host to give its
    /// fade-in clock the length `fade_in`.
    pub fn set_fade_in(&mut self, fade_in: Single) -> (is_fade_in_active: bool)
        ensures
            final(self)@ == (TranceGateView {
                is_fade_in_active: fade_in.is_positive(),
                ..old(self)@
            }),
            final(self)@.wf(),
            is_fade_in_active == fade_in.is_positive(),
    {
        proof {
            use_type_invariant(&*self);
        }
        self.is_fade_in_active = fade_in.is_greater_than_zero();
        self.is_fade_in_active
    }

    /// Switches the delay before the first step on if `delay` is greater
    /// than 0, and off if it is not. Tells whether it is on: only then is
    /// the host to give its delay clock the length `delay`.
    pub fn set_delay(&mut self, delay: Single) -> (is_delay_active: bool)
        ensures
            final(self)@ == (TranceGateView { is_delay_active: delay.is_positive(), ..old(self)@ }),
            final(self)@.wf(),
            is_delay_active == delay.is_positive(),
    {
        proof {
            use_type_invariant(&*self);
        }
        self.is_delay_active = delay.is_greater_than_zero();
        self.is_delay_active
    }

    /// Whether the delay before the first step is still running.
    pub fn is_delay_running(&self, is_overflow: bool) -> (running: bool)
        ensures
            running == self@.is_delay_running(is_overflow),
    {
        !is_overflow && self.is_delay_active
    }

    /// Whether the mix follows the fade-in clock.
    pub fn is_fade_in_active(&self) -> (active: bool)
        ensures
            active == self@.is_fade_in_active,
    {
        self.is_fade_in_active
    }

    /// The mix as it goes into a frame, the fade-in clock being at
    /// `fade_in_phase_value`.
    fn compute_mix(&self, fade_in_phase_value: u32) -> (mix: u32)
        ensures
            mix == self@.effective_mix(fade_in_phase_value as nat),
    {
        proof {
            use_type_invariant(self);
        }
        if self.is_fade_in_active {
            assert(self.mix * fade_in_phase_value <= 1_000_000_000 * fade_in_phase_value)
                by (nonlinear_arith)
                requires
                    self.mix <= 1_000_000_000,
            ;
            let product: u64 = self.mix as u64 * fade_in_phase_value as u64;
            assert(product / 1_000_000_000 <= fade_in_phase_value);
            (product / FIXED_ONE as u64) as u32
        } else {
            self.mix
        }
    }

    /// Silences both gains of a swung step until the step clock has passed
    /// the shuffle delay.
    fn apply_shuffle(&self, left: S, right: S, phase_value: u32) -> (gains: (S, S))
        ensures
            gains == (if self@.is_step_held(phase_value as nat) {
                (self@.zero, self@.zero)
            } else {
                (left, right)
            }),
    {
        if self.step_val.is_shuffle() {
            Self::apply_gate_delay(left, right, phase_value, self.shuffle, self.zero)
        } else {
            (left, right)
        }
    }

    /// The two gains as they are once the step clock has passed 3/4 of the
    /// shuffle amount, and silenced before.
    fn apply_gate_delay(
        left: S,
        right: S,
        phase_value: u32,
        shuffle: u32,
        zero: S,
    ) -> (gains: (S, S))
        ensures
            gains == (if MAX_DELAY_DENOMINATOR * phase_value > MAX_DELAY_NUMERATOR * shuffle {
                (left, right)
            } else {
                (zero, zero)
            }),
    {
        assert(MAX_DELAY_DENOMINATOR * phase_value == 4 * phase_value);
        assert(MAX_DELAY_NUMERATOR * shuffle == 3 * shuffle);
        let phase_scaled: u64 = MAX_DELAY_DENOMINATOR as u64 * (phase_value as u64);
        let delay_scaled: u64 = MAX_DELAY_NUMERATOR as u64 * (shuffle as u64);
        if phase_scaled > delay_scaled {
            (left, right)
        } else {
            (zero, zero)
        }
    }

    /// Finds out whether `step` stands on a swung step.
    fn set_shuffle(step: &mut Step, note_len: Single)
        ensures
            final(step)@ == (StepView {
                is_shuffle: shuffle_note(old(step)@.pos, note_len),
                ..old(step)@
            }),
    {
        step.set_note_len(note_len);
    }
}

impl<S: Copy> Clone for TranceGate<S> {
    /// A step gate with the same pattern and state.
    fn clone(&self) -> (gate: Self)
        ensures
            gate@ == self@,
    {
        proof {
            use_type_invariant(self);
        }
        let channel_steps_list: Vec<S> = filled(
            &self.channel_steps_list,
            self.channel_steps_list.len(),
            self.zero,
        );
        assert(channel_steps_list@ =~= self.channel_steps_list@);
        Self {
            channel_steps_list,
            step_val: self.step_val,
            ch: self.ch,
            is_delay_active: self.is_delay_active,
            is_fade_in_active: self.is_fade_in_active,
            mix: self.mix,
            width: self.width,
            shuffle: self.shuffle,
            contour: self.contour,
            zero: self.zero,
        }
    }
}

} // verus!
