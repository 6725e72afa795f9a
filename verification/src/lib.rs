//! Sample-accurate control cores of two audio effects: a tempo-synchronised
//! step gate and a stereo delay whose read head glides to a new delay time.
//!
//! The crate holds no floating-point code. Signal values pass through it as
//! an opaque, copyable sample type chosen by the host. Numbers that are only
//! compared come in as the bits of single-precision numbers. Numbers that
//! are computed with, the positions in a delay buffer and the normalised
//! amounts, are counted on an integer grid of [`FIXED_ONE`] units.

use vstd::prelude::*;

pub mod single;
pub mod ring;
pub mod stereo_delay;
pub mod trance_gate;

verus! {

/// Number of lanes in a step pattern.
pub const NUM_CHANNELS: usize = 4;

/// Number of lanes a stereo effect reads and writes.
pub const NUM_STEREO_CHANNELS: usize = 2;

/// The value 1.0 on the integer grid used for fractional positions and for
/// normalised parameters.
pub const FIXED_ONE: u32 = 1_000_000_000;

/// A buffer of `size` slots that holds the first samples of `kept` and
/// `zero` behind them.
pub(crate) fn filled<S: Copy>(kept: &Vec<S>, size: usize, zero: S) -> (buffer: Vec<S>)
    ensures
        buffer@ == Seq::new(
            size as nat,
            |i: int|
                if i < kept@.len() {
                    kept@[i]
                } else {
                    zero
                },
        ),
{
    let mut buffer: Vec<S> = Vec::with_capacity(size);
    let mut i: usize = 0;
    while i < size
        invariant
            i <= size,
            buffer@.len() == i,
            forall|k: int|
                0 <= k < i ==> buffer@[k] == (if k < kept@.len() {
                    kept@[k]
                } else {
                    zero
                }),
        decreases size - i,
    {
        let sample: S = if i < kept.len() {
            kept[i]
        } else {
            zero
        };
        buffer.push(sample);
        i = i + 1;
    }
    buffer
}

} // verus!
