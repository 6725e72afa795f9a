//! The read head and the write head of a circular delay buffer.
//!
//! The write head moves one slot per sample. The read head follows it at an
//! offset, the delay. When another delay is asked for, the read head does
//! not jump: it runs slower or faster than the write head until the offset
//! is within one sample of the target, and is locked to the target then.
//!
//! The read head, the offset and the target are counted in units of
//! `1 / FIXED_ONE` of a sample.

use vstd::prelude::*;
use vstd::arithmetic::div_mod::lemma_small_mod;
use crate::ring::{bind_to_buffer, lemma_next_slot, next_slot};
use crate::stereo_delay::DEFAULT_BUFFER_SIZE;
use crate::FIXED_ONE;

verus! {

/// Step of the read head per sample while the offset has to grow: 0.7.
pub const SLOW_INCREMENT: u32 = 700_000_000;

/// Step of the read head per sample while the offset has to shrink: 1.3.
pub const FAST_INCREMENT: u32 = 1_300_000_000;

/// What the offset gains or loses per sample while the read head glides:
/// 0.3.
pub const GLIDE_STEP: u32 = 300_000_000;

/// The heads of a delay buffer as numbers.
pub struct HeadsView {
    /// Position of the read head, in units.
    pub read: nat,
    /// Slot of the write head.
    pub write: nat,
    /// Step of the read head per sample while it glides, in units.
    pub increment: nat,
    /// The delay asked for, as a part of the buffer length: 0 to `FIXED_ONE`.
    pub diff: nat,
    /// The offset asked for, in units: `diff` times the buffer length.
    pub target: nat,
    /// Length of the buffer, in samples.
    pub buffer_size: nat,
}

impl HeadsView {
    /// Length of the buffer, in units.
    pub open spec fn span(self) -> int {
        self.buffer_size * FIXED_ONE
    }

    /// Both heads lie inside the buffer, and the target is the part of the
    /// buffer length that was asked for.
    pub open spec fn wf(self) -> bool {
        &&& self.buffer_size >= 1
        &&& self.write < self.buffer_size
        &&& self.read < self.span()
        &&& self.diff <= FIXED_ONE
        &&& self.target == self.diff * self.buffer_size
        &&& self.target <= self.span()
        &&& (self.increment == 0 || self.increment == SLOW_INCREMENT || self.increment
            == FIXED_ONE || self.increment == FAST_INCREMENT)
    }

    /// The heads of a new delay line: both at the start of a buffer of the
    /// default length, no delay asked for.
    pub open spec fn initial() -> HeadsView {
        HeadsView {
            read: 0,
            write: 0,
            increment: 0,
            diff: 0,
            target: 0,
            buffer_size: DEFAULT_BUFFER_SIZE as nat,
        }
    }

    /// How far the read head lies behind the write head, round the buffer:
    /// at least 0, less than the buffer length.
    pub open spec fn offset(self) -> int {
        bind_to_buffer(self.write * FIXED_ONE + self.span() - self.read, self.span())
    }

    /// Distance between the offset and the target.
    pub open spec fn gap(self) -> int {
        if self.offset() >= self.target {
            self.offset() - self.target
        } else {
            self.target - self.offset()
        }
    }

    /// The slot that the read head lies in.
    pub open spec fn read_index(self) -> int {
        self.read as int / FIXED_ONE as int
    }

    /// How far into its slot the read head lies, in units.
    pub open spec fn read_frac(self) -> int {
        self.read as int % FIXED_ONE as int
    }

    /// The slot after `pos`, which is slot 0 at the end of the buffer.
    pub open spec fn next_slot(self, pos: int) -> int {
        next_slot(pos, self.buffer_size as int)
    }

    /// How many samples ago the slot of the read head was written, with
    /// the offset on the target: the target rounded up to whole samples,
    /// and one whole buffer length where no delay is asked for.
    pub open spec fn tap_age(self) -> int {
        if self.target == 0 {
            self.buffer_size as int
        } else {
            (self.target + FIXED_ONE - 1) / (FIXED_ONE as int)
        }
    }

    /// The heads one sample on. The write head moves to the next slot. The
    /// read head is locked to the target if the offset was within one sample
    /// of it, and moves on by its increment if not.
    pub open spec fn advanced(self) -> HeadsView {
        let moved: int = if self.gap() > FIXED_ONE {
            (self.read + self.increment) as int
        } else {
            (self.write + 1) * FIXED_ONE - self.target
        };
        HeadsView {
            read: bind_to_buffer(moved, self.span()) as nat,
            write: bind_to_buffer(self.write as int + 1, self.buffer_size as int) as nat,
            ..self
        }
    }

    /// The heads `n` samples on.
    pub open spec fn advanced_by(self, n: nat) -> HeadsView
        decreases n,
    {
        if n == 0 {
            self
        } else {
            self.advanced().advanced_by((n - 1) as nat)
        }
    }

    /// While the offset is more than one sample from the target, the read
    /// head runs at the speed that brings it closer.
    pub open spec fn glides_to_target(self) -> bool {
        self.gap() > FIXED_ONE ==> self.increment == (if self.offset() < self.target {
            SLOW_INCREMENT
        } else {
            FAST_INCREMENT
        })
    }

    /// A number of samples after which the offset has reached the target.
    pub open spec fn settle_steps(self) -> nat {
        if self.gap() <= FIXED_ONE {
            1
        } else {
            ((self.gap() - FIXED_ONE + GLIDE_STEP - 1) / (GLIDE_STEP as int) + 1) as nat
        }
    }

    /// The heads with the read head put at the target behind the write head
    /// at once, and the increment back at one sample per sample.
    pub open spec fn reset(self) -> HeadsView {
        HeadsView {
            read: bind_to_buffer(self.write * FIXED_ONE - self.target, self.span()) as nat,
            increment: FIXED_ONE as nat,
            ..self
        }
    }

    /// `diff` cut down to `FIXED_ONE`.
    pub open spec fn clamp_diff(diff: nat) -> nat {
        if diff > FIXED_ONE {
            FIXED_ONE as nat
        } else {
            diff
        }
    }

    /// The heads with another delay asked for: `diff`, clamped, of the
    /// buffer length. The read head will run slower than the write head if
    /// the offset has to grow, and faster if not.
    pub open spec fn with_heads_diff(self, diff: nat) -> HeadsView {
        let diff = Self::clamp_diff(diff);
        let target = diff * self.buffer_size;
        HeadsView {
            diff,
            target,
            increment: if self.offset() < target {
                SLOW_INCREMENT as nat
            } else {
                FAST_INCREMENT as nat
            },
            ..self
        }
    }

    /// The heads in a buffer of `buffer_size` samples: both wrapped into it,
    /// and the target the same part of the new length.
    pub open spec fn with_buffer_size(self, buffer_size: nat) -> HeadsView {
        HeadsView {
            read: (self.read as int % (buffer_size * FIXED_ONE)) as nat,
            write: self.write % buffer_size,
            target: self.diff * buffer_size,
            buffer_size,
            ..self
        }
    }
}

/// The product of a part of at most `FIXED_ONE` and a length is at most the
/// length in units.
pub proof fn lemma_target_in_span(diff: nat, buffer_size: nat)
    requires
        diff <= FIXED_ONE,
    ensures
        diff * buffer_size <= buffer_size * FIXED_ONE,
{
    assert(diff * buffer_size <= buffer_size * FIXED_ONE) by (nonlinear_arith)
        requires
            diff <= FIXED_ONE,
    ;
}

/// Moving on, resetting, and asking for another delay or another buffer
/// length all keep both heads inside the buffer.
pub proof fn lemma_heads_stay_in_buffer(heads: HeadsView, diff: nat, buffer_size: nat)
    requires
        heads.wf(),
        buffer_size >= 1,
    ensures
        heads.advanced().wf(),
        heads.reset().wf(),
        heads.with_heads_diff(diff).wf(),
        heads.with_buffer_size(buffer_size).wf(),
{
    lemma_target_in_span(HeadsView::clamp_diff(diff), heads.buffer_size);
    lemma_target_in_span(heads.diff, buffer_size);
}

/// After a reset the read head lies exactly the target behind the write
/// head; with no delay asked for, it lies on the write head.
pub proof fn lemma_reset_reaches_target(heads: HeadsView)
    requires
        heads.wf(),
    ensures
        heads.target < heads.span() ==> heads.reset().offset() == heads.target,
        heads.diff == 0 ==> heads.reset().read == heads.write * FIXED_ONE,
        heads.diff == 0 ==> heads.reset().offset() == 0,
{
}

/// Right after a delay is asked for, the read head runs at the speed that
/// brings the offset closer to the new target.
pub proof fn lemma_new_delay_glides(heads: HeadsView, diff: nat)
    requires
        heads.wf(),
    ensures
        heads.with_heads_diff(diff).wf(),
        heads.with_heads_diff(diff).glides_to_target(),
        heads.with_heads_diff(diff).target == HeadsView::clamp_diff(diff) * heads.buffer_size,
{
    lemma_target_in_span(HeadsView::clamp_diff(diff), heads.buffer_size);
}

/// An offset within one sample of a target inside the buffer is locked to
/// the target by the next sample.
pub proof fn lemma_lock(heads: HeadsView)
    requires
        heads.wf(),
        heads.target < heads.span(),
        heads.gap() <= FIXED_ONE,
    ensures
        heads.advanced().wf(),
        heads.advanced().offset() == heads.target,
        heads.advanced().gap() == 0,
        heads.advanced().glides_to_target(),
{
}

/// While the offset is more than one sample from the target, a sample
/// brings it `GLIDE_STEP` closer, and never past the target.
pub proof fn lemma_glide(heads: HeadsView)
    requires
        heads.wf(),
        heads.glides_to_target(),
        heads.gap() > FIXED_ONE,
    ensures
        heads.advanced().wf(),
        heads.advanced().glides_to_target(),
        heads.advanced().gap() == heads.gap() - GLIDE_STEP,
        (heads.advanced().offset() < heads.target) == (heads.offset() < heads.target),
{
}

/// Once the offset is on the target it stays there.
pub proof fn lemma_locked_stays(heads: HeadsView, n: nat)
    requires
        heads.wf(),
        heads.target < heads.span(),
        heads.gap() == 0,
    ensures
        heads.advanced_by(n).wf(),
        heads.advanced_by(n).offset() == heads.target,
        heads.advanced_by(n).target == heads.target,
    decreases n,
{
    if n > 0 {
        lemma_lock(heads);
        lemma_locked_stays(heads.advanced(), (n - 1) as nat);
    }
}

/// The offset reaches the target after `settle_steps` samples and stays on
/// it, whenever the target lies inside the buffer and the read head runs at
/// the speed that brings it closer.
pub proof fn lemma_settles(heads: HeadsView, n: nat)
    requires
        heads.wf(),
        heads.glides_to_target(),
        heads.target < heads.span(),
        n >= heads.settle_steps(),
    ensures
        heads.advanced_by(n).wf(),
        heads.advanced_by(n).offset() == heads.target,
        heads.advanced_by(n).target == heads.target,
    decreases heads.gap(),
{
    if heads.gap() <= FIXED_ONE {
        lemma_lock(heads);
        lemma_locked_stays(heads.advanced(), (n - 1) as nat);
    } else {
        lemma_glide(heads);
        lemma_settles(heads.advanced(), (n - 1) as nat);
    }
}

/// On the way to the target the distance between offset and target never
/// grows.
pub proof fn lemma_gap_never_grows(heads: HeadsView)
    requires
        heads.wf(),
        heads.glides_to_target(),
        heads.target < heads.span(),
    ensures
        heads.advanced().gap() <= heads.gap(),
{
    if heads.gap() <= FIXED_ONE {
        lemma_lock(heads);
    } else {
        lemma_glide(heads);
    }
}

/// The number of samples that the offset needs to reach the target is
/// bounded by the buffer length: a glide over the whole buffer takes no
/// more than this.
pub proof fn lemma_settle_steps_bound(heads: HeadsView)
    requires
        heads.wf(),
    ensures
        heads.settle_steps() <= heads.span() / (GLIDE_STEP as int) + 2,
{
}

/// However long the heads move on, they stay inside the buffer, and the
/// delay asked for stays as it is.
pub proof fn lemma_advanced_by_wf(heads: HeadsView, n: nat)
    requires
        heads.wf(),
    ensures
        heads.advanced_by(n).wf(),
        heads.advanced_by(n).diff == heads.diff,
        heads.advanced_by(n).target == heads.target,
        heads.advanced_by(n).buffer_size == heads.buffer_size,
    decreases n,
{
    if n > 0 {
        lemma_advanced_by_wf(heads.advanced(), (n - 1) as nat);
    }
}

/// Moving on `n` samples and then one more is moving on `n + 1` samples.
pub proof fn lemma_advanced_by_one_more(heads: HeadsView, n: nat)
    ensures
        heads.advanced_by(n).advanced() == heads.advanced_by(n + 1),
    decreases n,
{
    if n == 0 {
        assert(heads.advanced_by(1) == heads.advanced().advanced_by(0));
    } else {
        lemma_advanced_by_one_more(heads.advanced(), (n - 1) as nat);
        assert(heads.advanced_by(n + 1) == heads.advanced().advanced_by(n));
    }
}

/// The write head goes round the buffer slot by slot, whatever the read
/// head does.
pub proof fn lemma_write_head_goes_round(heads: HeadsView, n: nat)
    requires
        heads.wf(),
    ensures
        heads.advanced_by(n).write == (heads.write + n) % heads.buffer_size,
    decreases n,
{
    let size = heads.buffer_size as int;
    if n == 0 {
        lemma_small_mod(heads.write, heads.buffer_size);
    } else {
        let before = heads.advanced_by((n - 1) as nat);
        lemma_write_head_goes_round(heads, (n - 1) as nat);
        lemma_advanced_by_one_more(heads, (n - 1) as nat);
        lemma_advanced_by_wf(heads, (n - 1) as nat);
        lemma_next_slot(heads.write + n - 1, size);
    }
}

/// After a delay is asked for, and with no further change, the offset comes
/// to within one sample of that delay in `settle_steps` samples and stays
/// there; it is exactly that delay wherever the delay is less than the
/// whole buffer. A delay of the whole buffer is left out, but for a buffer
/// of one slot: see `lemma_whole_buffer_delay_does_not_hold`.
pub proof fn lemma_delay_change_settles(heads: HeadsView, diff: nat, n: nat)
    requires
        heads.wf(),
        diff <= FIXED_ONE,
        diff < FIXED_ONE || heads.buffer_size == 1,
        n >= heads.with_heads_diff(diff).settle_steps(),
    ensures
        heads.with_heads_diff(diff).advanced_by(n).wf(),
        heads.with_heads_diff(diff).advanced_by(n).target == diff * heads.buffer_size,
        heads.with_heads_diff(diff).advanced_by(n).gap() <= FIXED_ONE,
        diff < FIXED_ONE ==> heads.with_heads_diff(diff).advanced_by(n).offset() == diff
            * heads.buffer_size,
{
    lemma_new_delay_glides(heads, diff);
    let asked = heads.with_heads_diff(diff);
    lemma_advanced_by_wf(asked, n);
    if diff < FIXED_ONE {
        assert(asked.target < asked.span()) by (nonlinear_arith)
            requires
                asked.target == diff * heads.buffer_size,
                asked.span() == heads.buffer_size * FIXED_ONE,
                diff < FIXED_ONE,
                heads.buffer_size >= 1,
        ;
        lemma_settles(asked, n);
    }
}

/// Where the whole buffer is asked for as delay, in a buffer of two slots
/// or more, the offset does not stay within one sample of it: the sample
/// after it got there it is 0, the heads lie on each other, and the glide
/// starts anew.
pub proof fn lemma_whole_buffer_delay_does_not_hold(heads: HeadsView)
    requires
        heads.wf(),
        heads.diff == FIXED_ONE,
        heads.buffer_size >= 2,
        heads.gap() <= FIXED_ONE,
    ensures
        heads.advanced().offset() == 0,
        heads.advanced().gap() > FIXED_ONE,
{
}

/// The heads of one delay line.
#[derive(Clone, Copy)]
pub struct DelayLineHeads {
    read_head: u128,
    write_head: usize,
    read_head_increment: u32,
    heads_diff: u32,
    heads_diff_dst: u128,
    buffer_size: usize,
}

impl View for DelayLineHeads {
    type V = HeadsView;

    closed spec fn view(&self) -> HeadsView {
        HeadsView {
            read: self.read_head as nat,
            write: self.write_head as nat,
            increment: self.read_head_increment as nat,
            diff: self.heads_diff as nat,
            target: self.heads_diff_dst as nat,
            buffer_size: self.buffer_size as nat,
        }
    }
}

impl DelayLineHeads {
    #[verifier::type_invariant]
    spec fn inv(self) -> bool {
        self@.wf()
    }

    /// Heads at the start of a buffer of the default length.
    pub fn new() -> (heads: Self)
        ensures
            heads@ == HeadsView::initial(),
            heads@.wf(),
    {
        Self {
            read_head: 0,
            write_head: 0,
            read_head_increment: 0,
            heads_diff: 0,
            heads_diff_dst: 0,
            buffer_size: DEFAULT_BUFFER_SIZE,
        }
    }

    /// Moves both heads one sample on.
    pub fn advance(&mut self)
        ensures
            final(self)@ == old(self)@.advanced(),
            final(self)@.wf(),
    {
        proof {
            use_type_invariant(&*self);
        }
        let span: i128 = self.buffer_size as i128 * FIXED_ONE as i128;
        let diff: i128 = self.current_diff() as i128 - self.heads_diff_dst as i128;
        let tmp_diff: i128 = if diff < 0 {
            -diff
        } else {
            diff
        };
        let write_head: usize = self.write_head + 1;
        let read_head: i128 = if tmp_diff > FIXED_ONE as i128 {
            self.read_head as i128 + self.read_head_increment as i128
        } else {
            write_head as i128 * FIXED_ONE as i128 - self.heads_diff_dst as i128
        };
        self.read_head = Self::bind_to_buffer_units(read_head, span) as u128;
        self.write_head = Self::bind_to_buffer_usize(write_head, self.buffer_size);
    }

    /// Puts the read head at the target behind the write head at once.
    pub fn reset(&mut self)
        ensures
            final(self)@ == old(self)@.reset(),
            final(self)@.wf(),
    {
        proof {
            use_type_invariant(&*self);
        }
        let span: i128 = self.buffer_size as i128 * FIXED_ONE as i128;
        let read_head: i128 = self.write_head as i128 * FIXED_ONE as i128
            - self.heads_diff_dst as i128;
        self.read_head = Self::bind_to_buffer_units(read_head, span) as u128;
        self.read_head_increment = FIXED_ONE;
    }

    /// Tells the heads that the buffer now has `buffer_size` samples.
    pub fn set_buffer_size(&mut self, buffer_size: usize)
        requires
            buffer_size >= 1,
        ensures
            final(self)@ == old(self)@.with_buffer_size(buffer_size as nat),
            final(self)@.wf(),
    {
        proof {
            use_type_invariant(&*self);
            lemma_target_in_span(self.heads_diff as nat, buffer_size as nat);
        }
        let span: u128 = buffer_size as u128 * FIXED_ONE as u128;
        let heads_diff_dst: u128 = self.calc_read_head_offset(self.heads_diff, buffer_size);
        *self = Self {
            read_head: self.read_head % span,
            write_head: self.write_head % buffer_size,
            read_head_increment: self.read_head_increment,
            heads_diff: self.heads_diff,
            heads_diff_dst,
            buffer_size,
        };
    }

    /// The offset that the part `diff` of a buffer of `buffer_size` samples
    /// comes to, in units.
    fn calc_read_head_offset(&self, diff: u32, buffer_size: usize) -> (offset: u128)
        requires
            diff <= FIXED_ONE,
        ensures
            offset == diff * buffer_size,
    {
        proof {
            lemma_target_in_span(diff as nat, buffer_size as nat);
        }
        diff as u128 * buffer_size as u128
    }

    /// Sets the target to the part `diff` of the buffer length, and the
    /// increment to the speed that brings the offset closer to it.
    fn calc_read_head_increment(&mut self, diff: u32)
        requires
            diff <= FIXED_ONE,
        ensures
            final(self)@ == old(self)@.with_heads_diff(diff as nat),
            final(self)@.wf(),
    {
        proof {
            use_type_invariant(&*self);
            lemma_target_in_span(diff as nat, self.buffer_size as nat);
        }
        let heads_diff_dst: u128 = self.calc_read_head_offset(diff, self.buffer_size);
        let read_head_increment: u32 = if self.current_diff() < heads_diff_dst {
            SLOW_INCREMENT
        } else {
            FAST_INCREMENT
        };
        *self = Self {
            read_head: self.read_head,
            write_head: self.write_head,
            read_head_increment,
            heads_diff: diff,
            heads_diff_dst,
            buffer_size: self.buffer_size,
        };
    }

    /// Asks for the delay `diff`, in units of `1 / FIXED_ONE` of the buffer
    /// length; more than `FIXED_ONE` counts as `FIXED_ONE`.
    pub fn set_heads_diff(&mut self, diff: u32)
        ensures
            final(self)@ == old(self)@.with_heads_diff(diff as nat),
            final(self)@.wf(),
    {
        let diff: u32 = if diff > FIXED_ONE {
            FIXED_ONE
        } else {
            diff
        };
        self.calc_read_head_increment(diff);
    }

    /// How far the read head lies behind the write head, in units.
    pub fn current_diff(&self) -> (offset: u128)
        ensures
            offset == self@.offset(),
            offset < self@.span(),
    {
        proof {
            use_type_invariant(self);
        }
        let span: i128 = self.buffer_size as i128 * FIXED_ONE as i128;
        let diff: i128 = (self.write_head as i128 * FIXED_ONE as i128 + span)
            - self.read_head as i128;
        Self::bind_to_buffer_units(diff, span) as u128
    }

    /// Position of the read head, in units.
    pub fn read_pos(&self) -> (pos: u128)
        ensures
            pos == self@.read,
            self@.wf(),
    {
        proof {
            use_type_invariant(self);
        }
        self.read_head
    }

    /// Slot of the write head.
    pub fn write_pos(&self) -> (pos: usize)
        ensures
            pos == self@.write,
            self@.wf(),
    {
        proof {
            use_type_invariant(self);
        }
        self.write_head
    }

    /// The slot that the read head lies in.
    pub fn read_index(&self) -> (index: usize)
        ensures
            index == self@.read_index(),
            index < self@.buffer_size,
    {
        proof {
            use_type_invariant(self);
            assert(self.read_head / 1_000_000_000 < self.buffer_size);
        }
        (self.read_head / FIXED_ONE as u128) as usize
    }

    /// How far into its slot the read head lies, in units.
    pub fn read_frac(&self) -> (frac: u32)
        ensures
            frac == self@.read_frac(),
            frac < FIXED_ONE,
    {
        (self.read_head % FIXED_ONE as u128) as u32
    }

    /// The slot after `pos`, which is slot 0 at the end of the buffer.
    pub fn increment_pos(&self, pos: usize) -> (next: usize)
        ensures
            next == self@.next_slot(pos as int),
            next < self@.buffer_size,
    {
        proof {
            use_type_invariant(self);
        }
        if pos >= self.buffer_size - 1 {
            0
        } else {
            pos + 1
        }
    }

    /// Step of the read head per sample while it glides, in units.
    pub fn read_head_increment(&self) -> (increment: u32)
        ensures
            increment == self@.increment,
    {
        self.read_head_increment
    }

    /// Length of the buffer that the heads move in, in samples.
    pub fn buffer_size(&self) -> (buffer_size: usize)
        ensures
            buffer_size == self@.buffer_size,
            buffer_size >= 1,
    {
        proof {
            use_type_invariant(self);
        }
        self.buffer_size
    }

    /// The delay asked for, in units of `1 / FIXED_ONE` of the buffer
    /// length.
    pub fn heads_diff(&self) -> (diff: u32)
        ensures
            diff == self@.diff,
            diff <= FIXED_ONE,
    {
        proof {
            use_type_invariant(self);
        }
        self.heads_diff
    }

    /// A position in units wrapped once into `[0, buffer_size)`: one at or
    /// behind the end loses one buffer length, one before the start gains
    /// one. The part of a sample stays as it is.
    pub fn bind_to_buffer_units(index: i128, buffer_size: i128) -> (bound: i128)
        requires
            buffer_size >= 0,
        ensures
            bound == bind_to_buffer(index as int, buffer_size as int),
    {
        if index >= buffer_size {
            index - buffer_size
        } else if index < 0 {
            index + buffer_size
        } else {
            index
        }
    }

    /// `index` wrapped once into `[0, buffer_size)`.
    pub fn bind_to_buffer_usize(index: usize, buffer_size: usize) -> (bound: usize)
        ensures
            bound == bind_to_buffer(index as int, buffer_size as int),
    {
        if index >= buffer_size {
            index - buffer_size
        } else {
            index
        }
    }
}

} // verus!
