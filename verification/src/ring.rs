//! Arithmetic round a ring of slots, as both effects use it: a step cursor
//! goes round its pattern, and the heads of a delay line go round their
//! buffer.

use vstd::prelude::*;
use vstd::arithmetic::div_mod::{
    lemma_fundamental_div_mod, lemma_fundamental_div_mod_converse, lemma_mod_pos_bound,
};

verus! {

/// The slot after `pos` in a ring of `size` slots: slot 0 after the last
/// slot, and after any slot behind it.
pub open spec fn next_slot(pos: int, size: int) -> int {
    if pos + 1 >= size {
        0
    } else {
        pos + 1
    }
}

/// `index` wrapped once into `[0, size)`: an index at or behind the end
/// loses one length of the ring, one before the start gains one. An index
/// less than one length off the ring lands inside it.
pub open spec fn bind_to_buffer(index: int, size: int) -> int {
    if index >= size {
        index - size
    } else if index < 0 {
        index + size
    } else {
        index
    }
}

/// Wrapping an index that is less than one length off the ring is taking
/// its remainder on division by the length.
pub proof fn lemma_bind_to_buffer_is_mod(index: int, size: int)
    requires
        size > 0,
        -size <= index < 2 * size,
    ensures
        bind_to_buffer(index, size) == index % size,
        0 <= bind_to_buffer(index, size) < size,
{
    if index >= size {
        lemma_fundamental_div_mod_converse(index, size, 1, index - size);
    } else if index < 0 {
        lemma_fundamental_div_mod_converse(index, size, -1, index + size);
    } else {
        lemma_fundamental_div_mod_converse(index, size, 0, index);
    }
}

/// Going one slot on from slot `a % size` leads to slot `(a + 1) % size`.
pub proof fn lemma_next_slot(a: int, size: int)
    requires
        size > 0,
        a >= 0,
    ensures
        (a + 1) % size == next_slot(a % size, size),
{
    let pos = a % size;
    lemma_fundamental_div_mod(a, size);
    lemma_mod_pos_bound(a, size);
    if pos + 1 >= size {
        assert(a + 1 == (a / size + 1) * size) by (nonlinear_arith)
            requires
                a == size * (a / size) + pos,
                pos + 1 == size,
        ;
        lemma_fundamental_div_mod_converse(a + 1, size, a / size + 1, 0);
    } else {
        assert(a + 1 == (a / size) * size + (pos + 1)) by (nonlinear_arith)
            requires
                a == size * (a / size) + pos,
        ;
        lemma_fundamental_div_mod_converse(a + 1, size, a / size, pos + 1);
    }
}

/// Two numbers less than `size` apart fall into different slots.
pub proof fn lemma_distinct_slots(a: int, b: int, size: int)
    requires
        size > 0,
        a < b < a + size,
    ensures
        a % size != b % size,
{
    lemma_fundamental_div_mod(a, size);
    lemma_fundamental_div_mod(b, size);
    if a % size == b % size {
        let qa = a / size;
        let qb = b / size;
        assert(false) by (nonlinear_arith)
            requires
                b - a == size * qb - size * qa,
                0 < b - a < size,
                size > 0,
        ;
    }
}

} // verus!
