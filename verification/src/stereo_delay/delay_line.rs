//! One delay line: a circular buffer of samples and its two heads.
//!
//! A sample is whatever the host computes with; the line stores samples and
//! hands them back, and never looks into one. Per sample the host reads the
//! two slots round the read head, works out its output and what to feed
//! back, and feeds that value to the line.

use vstd::prelude::*;
use vstd::arithmetic::div_mod::{
    lemma_fundamental_div_mod, lemma_fundamental_div_mod_converse, lemma_mod_add_multiples_vanish,
    lemma_mod_pos_bound,
};
use crate::ring::{lemma_distinct_slots, lemma_next_slot};
use crate::{filled, FIXED_ONE};
use crate::stereo_delay::delay_line_heads::{
    lemma_advanced_by_one_more, lemma_advanced_by_wf, lemma_locked_stays,
    lemma_write_head_goes_round,
};
use crate::stereo_delay::delay_line_heads::{DelayLineHeads, HeadsView};
use crate::stereo_delay::DEFAULT_BUFFER_SIZE;

verus! {

/// What a read hands out: the samples in the slot of the read head and in
/// the slot after it, and how far the read head lies into its slot, in
/// units of `1 / FIXED_ONE`. The host interpolates between the two.
#[derive(Debug, PartialEq)]
pub struct Taps<S> {
    pub first: S,
    pub second: S,
    pub frac: u32,
}

/// A delay line as a sequence of samples with its heads.
pub struct DelayLineView<S> {
    /// The samples, slot by slot.
    pub buffer: Seq<S>,
    /// The heads.
    pub heads: HeadsView,
    /// The sample that stands for silence.
    pub zero: S,
}

impl<S> DelayLineView<S> {
    /// The heads are valid for a buffer of just this length.
    pub open spec fn wf(self) -> bool {
        &&& self.heads.wf()
        &&& self.heads.buffer_size == self.buffer.len()
    }

    /// A silent line of the default length with its heads at the start.
    pub open spec fn initial(zero: S) -> DelayLineView<S> {
        DelayLineView {
            buffer: Seq::new(DEFAULT_BUFFER_SIZE as nat, |i: int| zero),
            heads: HeadsView::initial(),
            zero,
        }
    }

    /// What a read hands out.
    pub open spec fn taps(self) -> Taps<S> {
        Taps {
            first: self.buffer[self.heads.read_index()],
            second: self.buffer[self.heads.next_slot(self.heads.read_index())],
            frac: self.heads.read_frac() as u32,
        }
    }

    /// The line after `value` went into the slot of the write head and both
    /// heads moved one sample on.
    pub open spec fn fed(self, value: S) -> DelayLineView<S> {
        DelayLineView {
            buffer: self.buffer.update(self.heads.write as int, value),
            heads: self.heads.advanced(),
            ..self
        }
    }

    /// The line after the samples of `values` were fed to it one by one.
    pub open spec fn fed_all(self, values: Seq<S>) -> DelayLineView<S>
        decreases values.len(),
    {
        if values.len() == 0 {
            self
        } else {
            self.fed_all(values.drop_last()).fed(values.last())
        }
    }

    /// The line with every slot silent; the heads stay where they are.
    pub open spec fn cleared(self) -> DelayLineView<S> {
        DelayLineView { buffer: Seq::new(self.buffer.len(), |i: int| self.zero), ..self }
    }

    /// The line with `size` slots: the slots that stay keep their samples,
    /// new ones are silent, and the heads are wrapped into the new length.
    pub open spec fn resized(self, size: nat) -> DelayLineView<S> {
        DelayLineView {
            buffer: Seq::new(
                size,
                |i: int|
                    if i < self.buffer.len() {
                        self.buffer[i]
                    } else {
                        self.zero
                    },
            ),
            heads: self.heads.with_buffer_size(size),
            ..self
        }
    }
}

/// Feeding a line moves its heads on sample by sample, and changes neither
/// its length nor what stands for silence.
pub proof fn lemma_fed_all_heads<S>(line: DelayLineView<S>, values: Seq<S>)
    requires
        line.wf(),
    ensures
        line.fed_all(values).wf(),
        line.fed_all(values).heads == line.heads.advanced_by(values.len()),
        line.fed_all(values).buffer.len() == line.buffer.len(),
        line.fed_all(values).zero == line.zero,
    decreases values.len(),
{
    if values.len() > 0 {
        let shorter = values.drop_last();
        lemma_fed_all_heads(line, shorter);
        lemma_advanced_by_one_more(line.heads, shorter.len());
        lemma_advanced_by_wf(line.heads, values.len());
    }
}

/// A line holds the samples fed to it last, as many as it has slots, each
/// in the slot that the write head stood on when it came; slots that the
/// write head has not come to keep what they held.
pub proof fn lemma_line_holds_last_fed<S>(line: DelayLineView<S>, values: Seq<S>)
    requires
        line.wf(),
    ensures
        forall|j: int|
            0 <= j < values.len() && values.len() - line.buffer.len() <= j ==> line.fed_all(
                values,
            ).buffer[(line.heads.write + j) % (line.buffer.len() as int)] == #[trigger] values[j],
        forall|j: int|
            values.len() <= j < line.buffer.len() ==> line.fed_all(values).buffer[(line.heads.write
                + j) % (line.buffer.len() as int)] == #[trigger] line.buffer[(line.heads.write + j)
                % (line.buffer.len() as int)],
    decreases values.len(),
{
    let n = line.buffer.len() as int;
    let start = line.heads.write as int;
    if values.len() > 0 {
        let shorter = values.drop_last();
        let before = line.fed_all(shorter);
        let after = line.fed_all(values);
        let m = values.len() as int;
        lemma_line_holds_last_fed(line, shorter);
        lemma_fed_all_heads(line, shorter);
        lemma_write_head_goes_round(line.heads, shorter.len());
        lemma_mod_pos_bound(start + m - 1, n);
        assert forall|j: int| 0 <= j < m && m - n <= j implies after.buffer[(start + j) % n]
            == #[trigger] values[j] by {
            lemma_mod_pos_bound(start + j, n);
            if j < m - 1 {
                lemma_distinct_slots(start + j, start + m - 1, n);
                assert(shorter[j] == values[j]);
            }
        }
        assert forall|j: int| m <= j < n implies after.buffer[(start + j) % n]
            == #[trigger] line.buffer[(start + j) % n] by {
            lemma_mod_pos_bound(start + j, n);
            lemma_distinct_slots(start + m - 1, start + j, n);
        }
    }
}

/// Reading never leaves the buffer, wherever the read head lies in it.
pub proof fn lemma_read_stays_in_buffer<S>(line: DelayLineView<S>)
    requires
        line.wf(),
    ensures
        0 <= line.heads.read_index() < line.buffer.len(),
        0 <= line.heads.next_slot(line.heads.read_index()) < line.buffer.len(),
        0 <= line.heads.read_frac() < FIXED_ONE,
        line.heads.read_index() == line.buffer.len() - 1 ==> line.heads.next_slot(
            line.heads.read_index(),
        ) == 0,
{
}

/// A line whose offset is on its target hands out its input delayed by the
/// target. Once at least one buffer length of samples has been fed, the
/// first sample it reads is the one fed `tap_age` samples before, the second
/// the one fed after that (which, with a delay of one sample or less, is
/// the oldest in the buffer), and the read head lies as far into its slot
/// as the target falls short of whole samples.
pub proof fn lemma_locked_line_reads_delayed<S>(line: DelayLineView<S>, values: Seq<S>)
    requires
        line.wf(),
        line.heads.target < line.heads.span(),
        line.heads.gap() == 0,
        values.len() >= line.buffer.len(),
    ensures
        1 <= line.heads.tap_age() <= line.buffer.len(),
        line.fed_all(values).taps().first == values[values.len() - line.heads.tap_age()],
        line.fed_all(values).taps().second == values[values.len() - (if line.heads.tap_age()
            >= 2 {
            line.heads.tap_age() - 1
        } else {
            line.buffer.len() as int
        })],
        line.fed_all(values).taps().frac == (if line.heads.target == 0 {
            0
        } else {
            line.heads.tap_age() * FIXED_ONE - line.heads.target
        }),
{
    let n = line.buffer.len() as int;
    let m = values.len() as int;
    let start = line.heads.write as int;
    let after = line.fed_all(values);
    let age = line.heads.tap_age();
    let write = after.heads.write as int;
    let index = after.heads.read_index();
    lemma_fed_all_heads(line, values);
    lemma_line_holds_last_fed(line, values);
    lemma_locked_stays(line.heads, values.len());
    lemma_write_head_goes_round(line.heads, values.len());
    lemma_fundamental_div_mod(start + m, n);
    let rounds = (start + m) / n;
    assert(index == write - age || index == write - age + n);
    assert(start + m - age == n * (if index == write - age {
        rounds
    } else {
        rounds - 1
    }) + index) by (nonlinear_arith)
        requires
            start + m == n * rounds + write,
            index == write - age || index == write - age + n,
    ;
    lemma_fundamental_div_mod_converse(
        start + m - age,
        n,
        if index == write - age {
            rounds
        } else {
            rounds - 1
        },
        index,
    );
    assert(after.buffer[(start + (m - age)) % n] == values[m - age]);
    if age >= 2 {
        lemma_next_slot(start + m - age, n);
        assert(after.buffer[(start + (m - age + 1)) % n] == values[m - age + 1]);
    } else {
        lemma_next_slot(start + m - age, n);
        lemma_mod_add_multiples_vanish(start + m - n, n);
        assert(after.buffer[(start + (m - n)) % n] == values[m - n]);
    }
}

/// A line with no delay asked for, its read head on its write head, hands
/// out each sample exactly one buffer length after it was fed: what it
/// reads after `values` went in is the sample fed one buffer length before
/// the end.
pub proof fn lemma_zero_delay_echo<S>(line: DelayLineView<S>, values: Seq<S>)
    requires
        line.wf(),
        line.heads.diff == 0,
        line.heads.offset() == 0,
        values.len() >= line.buffer.len(),
    ensures
        line.fed_all(values).taps().first == values[values.len() - line.buffer.len()],
        line.fed_all(values).taps().frac == 0,
{
    lemma_locked_line_reads_delayed(line, values);
}

/// A circular buffer of samples with a write head and a read head.
pub struct DelayLine<S: Copy> {
    buffer: Vec<S>,
    heads: DelayLineHeads,
    zero: S,
}

impl<S: Copy> View for DelayLine<S> {
    type V = DelayLineView<S>;

    closed spec fn view(&self) -> DelayLineView<S> {
        DelayLineView { buffer: self.buffer@, heads: self.heads@, zero: self.zero }
    }
}

impl<S: Copy> DelayLine<S> {
    #[verifier::type_invariant]
    spec fn inv(self) -> bool {
        self@.wf()
    }

    /// A silent line of the default length, `zero` being the sample that
    /// stands for silence.
    pub fn new(zero: S) -> (line: Self)
        ensures
            line@ == DelayLineView::initial(zero),
            line@.wf(),
    {
        let empty: Vec<S> = Vec::new();
        let buffer: Vec<S> = filled(&empty, DEFAULT_BUFFER_SIZE, zero);
        let mut heads: DelayLineHeads = DelayLineHeads::new();
        heads.set_buffer_size(DEFAULT_BUFFER_SIZE);
        assert(buffer@ =~= DelayLineView::initial(zero).buffer);
        Self { buffer, heads, zero }
    }

    /// Reads the two slots round the read head. Never out of the buffer,
    /// also with the read head in the last slot.
    pub fn read(&self) -> (taps: Taps<S>)
        ensures
            taps == self@.taps(),
            self@.wf(),
    {
        proof {
            use_type_invariant(self);
        }
        let index: usize = self.heads.read_index();
        let next: usize = self.heads.increment_pos(index);
        Taps { first: self.buffer[index], second: self.buffer[next], frac: self.heads.read_frac() }
    }

    /// Writes `value` into the slot of the write head and moves both heads
    /// one sample on.
    pub fn feed(&mut self, value: S)
        ensures
            final(self)@ == old(self)@.fed(value),
            final(self)@.wf(),
    {
        proof {
            use_type_invariant(&*self);
        }
        let pos: usize = self.heads.write_pos();
        let mut heads: DelayLineHeads = self.heads;
        heads.advance();
        self.buffer[pos] = value;
        self.heads = heads;
    }

    /// Asks for the delay `diff`, in units of `1 / FIXED_ONE` of the buffer
    /// length.
    pub fn set_normalized_delay(&mut self, diff: u32)
        ensures
            final(self)@ == (DelayLineView {
                heads: old(self)@.heads.with_heads_diff(diff as nat),
                ..old(self)@
            }),
            final(self)@.wf(),
    {
        proof {
            use_type_invariant(&*self);
        }
        let mut heads: DelayLineHeads = self.heads;
        heads.set_heads_diff(diff);
        self.heads = heads;
    }

    /// Makes every slot silent, in place. The heads stay where they are.
    pub fn clear_buffer(&mut self)
        ensures
            final(self)@ == old(self)@.cleared(),
            final(self)@.wf(),
    {
        proof {
            use_type_invariant(&*self);
        }
        let size: usize = self.buffer.len();
        let zero: S = self.zero;
        let mut i: usize = 0;
        while i < size
            invariant
                i <= size,
                self.buffer@.len() == size,
                self.heads == old(self).heads,
                self.heads@.wf(),
                self.heads@.buffer_size == size,
                self.zero == zero,
                zero == old(self).zero,
                forall|k: int| 0 <= k < i ==> self.buffer@[k] == zero,
            decreases size - i,
        {
            self.buffer[i] = zero;
            i = i + 1;
        }
        assert(self.buffer@ =~= old(self)@.cleared().buffer);
    }

    /// Gives the line `size` slots. Slots that stay keep their samples, new
    /// ones are silent; the heads are wrapped into the new length and the
    /// delay asked for is the same part of it.
    pub fn set_buffer_size(&mut self, size: usize)
        requires
            size >= 1,
        ensures
            final(self)@ == old(self)@.resized(size as nat),
            final(self)@.wf(),
    {
        proof {
            use_type_invariant(&*self);
        }
        let buffer: Vec<S> = filled(&self.buffer, size, self.zero);
        let mut heads: DelayLineHeads = self.heads;
        heads.set_buffer_size(size);
        assert(buffer@ =~= old(self)@.resized(size as nat).buffer);
        *self = Self { buffer, heads, zero: self.zero };
    }

    /// Puts the read head at the delay asked for behind the write head at
    /// once.
    pub fn reset_heads(&mut self)
        ensures
            final(self)@ == (DelayLineView { heads: old(self)@.heads.reset(), ..old(self)@ }),
            final(self)@.wf(),
    {
        proof {
            use_type_invariant(&*self);
        }
        let mut heads: DelayLineHeads = self.heads;
        heads.reset();
        self.heads = heads;
    }

    /// The heads as they stand.
    pub fn heads(&self) -> (heads: DelayLineHeads)
        ensures
            heads@ == self@.heads,
            self@.wf(),
    {
        proof {
            use_type_invariant(self);
        }
        self.heads
    }

    /// Number of slots.
    pub fn buffer_size(&self) -> (size: usize)
        ensures
            size == self@.buffer.len(),
            self@.wf(),
    {
        proof {
            use_type_invariant(self);
        }
        self.buffer.len()
    }
}

impl<S: Copy> Clone for DelayLine<S> {
    /// A line with the same samples and heads.
    fn clone(&self) -> (line: Self)
        ensures
            line@ == self@,
    {
        proof {
            use_type_invariant(self);
        }
        let buffer: Vec<S> = filled(&self.buffer, self.buffer.len(), self.zero);
        assert(buffer@ =~= self.buffer@);
        Self { buffer, heads: self.heads, zero: self.zero }
    }
}

} // verus!
