//! Which steps of a pattern are swung.

use vstd::prelude::*;
use crate::single::Single;

verus! {

/// Bits of 1/16 as an IEEE 754 single-precision number.
pub const SIXTEENTH_BITS: u32 = 0x3D80_0000;

/// Bits of 1/32 as an IEEE 754 single-precision number.
pub const THIRTY_SECOND_BITS: u32 = 0x3D00_0000;

/// Bits of 1/64 as an IEEE 754 single-precision number.
pub const SIXTY_FOURTH_BITS: u32 = 0x3C80_0000;

/// Bits of 1/128 as an IEEE 754 single-precision number.
pub const HUNDRED_TWENTY_EIGHTH_BITS: u32 = 0x3C00_0000;

/// Number of steps after which the swing pattern repeats: 2, 4, 8 and 16
/// for steps of 1/16, 1/32, 1/64 and 1/128 of a whole note, and 0 for every
/// other length, which has no swing.
pub open spec fn shuffle_divisor(note_len: Single) -> nat {
    if note_len.bits == SIXTEENTH_BITS {
        2
    } else if note_len.bits == THIRTY_SECOND_BITS {
        4
    } else if note_len.bits == SIXTY_FOURTH_BITS {
        8
    } else if note_len.bits == HUNDRED_TWENTY_EIGHTH_BITS {
        16
    } else {
        0
    }
}

/// Distance from a swung step to the next multiple of the divisor: half the
/// divisor.
pub open spec fn shuffle_offset(note_len: Single) -> nat {
    if note_len.bits == SIXTEENTH_BITS {
        1
    } else if note_len.bits == THIRTY_SECOND_BITS {
        2
    } else if note_len.bits == SIXTY_FOURTH_BITS {
        4
    } else if note_len.bits == HUNDRED_TWENTY_EIGHTH_BITS {
        8
    } else {
        0
    }
}

/// Whether step `note_index` of a pattern with steps of length `note_len`
/// is swung: the length has a swing, and the index, moved on by the offset
/// of the length, is a multiple of its divisor.
pub open spec fn shuffle_note(note_index: nat, note_len: Single) -> bool {
    &&& shuffle_divisor(note_len) != 0
    &&& (note_index + shuffle_offset(note_len)) % shuffle_divisor(note_len) == 0
}

/// Whether `value` is no multiple of `divider`.
pub fn is_odd(value: usize, divider: usize) -> (odd: bool)
    requires
        divider != 0,
    ensures
        odd == (value % divider != 0),
{
    value % divider != 0
}

/// Whether `value` is a multiple of `divider`.
pub fn is_even(value: usize, divider: usize) -> (even: bool)
    requires
        divider != 0,
    ensures
        even == (value % divider == 0),
{
    !is_odd(value, divider)
}

/// Tells whether step `note_index` is swung. Total: no index overflows.
pub fn is_shuffle_note(note_index: usize, note_len: Single) -> (swung: bool)
    ensures
        swung == shuffle_note(note_index as nat, note_len),
{
    if note_len.bits == SIXTEENTH_BITS {
        is_even(note_index % 2 + 1, 2)
    } else if note_len.bits == THIRTY_SECOND_BITS {
        is_even(note_index % 4 + 2, 4)
    } else if note_len.bits == SIXTY_FOURTH_BITS {
        is_even(note_index % 8 + 4, 8)
    } else if note_len.bits == HUNDRED_TWENTY_EIGHTH_BITS {
        is_even(note_index % 16 + 8, 16)
    } else {
        false
    }
}

/// With steps of 1/16 every other step is swung, step 0 not.
pub proof fn lemma_sixteenth_alternates(note_index: nat)
    ensures
        !shuffle_note(0, Single { bits: SIXTEENTH_BITS }),
        shuffle_note(note_index, Single { bits: SIXTEENTH_BITS }) == (note_index % 2 == 1),
        shuffle_note(note_index + 1, Single { bits: SIXTEENTH_BITS }) != shuffle_note(
            note_index,
            Single { bits: SIXTEENTH_BITS },
        ),
{
    let note_len = Single { bits: SIXTEENTH_BITS };
    assert(shuffle_divisor(note_len) == 2 && shuffle_offset(note_len) == 1);
}

/// With steps of 1/32 one step in four is swung: steps 2, 6, 10 and so on.
pub proof fn lemma_thirty_second_every_fourth(note_index: nat)
    ensures
        shuffle_note(note_index, Single { bits: THIRTY_SECOND_BITS }) == (note_index % 4 == 2),
        shuffle_note(note_index + 4, Single { bits: THIRTY_SECOND_BITS }) == shuffle_note(
            note_index,
            Single { bits: THIRTY_SECOND_BITS },
        ),
{
    let note_len = Single { bits: THIRTY_SECOND_BITS };
    assert(shuffle_divisor(note_len) == 4 && shuffle_offset(note_len) == 2);
}

/// For each of the four note lengths with a swing, one step in every
/// `divisor` is swung, the one in the middle of the group, and the pattern
/// repeats after `divisor` steps.
pub proof fn lemma_shuffle_is_periodic(note_index: nat, note_len: Single)
    requires
        shuffle_divisor(note_len) != 0,
    ensures
        shuffle_note(note_index, note_len) == (note_index % shuffle_divisor(note_len)
            == shuffle_offset(note_len)),
        2 * shuffle_offset(note_len) == shuffle_divisor(note_len),
        shuffle_note(note_index + shuffle_divisor(note_len), note_len) == shuffle_note(
            note_index,
            note_len,
        ),
{
    if note_len.bits == SIXTEENTH_BITS {
        assert(shuffle_divisor(note_len) == 2 && shuffle_offset(note_len) == 1);
        assert(((note_index + 1) % 2 == 0) == (note_index % 2 == 1));
        assert((note_index + 2 + 1) % 2 == (note_index + 1) % 2);
    } else if note_len.bits == THIRTY_SECOND_BITS {
        assert(shuffle_divisor(note_len) == 4 && shuffle_offset(note_len) == 2);
        assert(((note_index + 2) % 4 == 0) == (note_index % 4 == 2));
        assert((note_index + 4 + 2) % 4 == (note_index + 2) % 4);
    } else if note_len.bits == SIXTY_FOURTH_BITS {
        assert(shuffle_divisor(note_len) == 8 && shuffle_offset(note_len) == 4);
        assert(((note_index + 4) % 8 == 0) == (note_index % 8 == 4));
        assert((note_index + 8 + 4) % 8 == (note_index + 4) % 8);
    } else {
        assert(shuffle_divisor(note_len) == 16 && shuffle_offset(note_len) == 8);
        assert(((note_index + 8) % 16 == 0) == (note_index % 16 == 8));
        assert((note_index + 16 + 8) % 16 == (note_index + 8) % 16);
    }
}

/// A step of any length other than 1/16, 1/32, 1/64 and 1/128 is never
/// swung, whatever its index.
pub proof fn lemma_other_lengths_never_swing(note_index: nat, note_len: Single)
    requires
        note_len.bits != SIXTEENTH_BITS,
        note_len.bits != THIRTY_SECOND_BITS,
        note_len.bits != SIXTY_FOURTH_BITS,
        note_len.bits != HUNDRED_TWENTY_EIGHTH_BITS,
    ensures
        !shuffle_note(note_index, note_len),
{
}

} // verus!
