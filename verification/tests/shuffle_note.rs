use fx_collection::single::{Single, INFINITY_BITS};
use fx_collection::trance_gate::shuffle_note::{
    is_even, is_odd, is_shuffle_note, HUNDRED_TWENTY_EIGHTH_BITS, SIXTEENTH_BITS,
    SIXTY_FOURTH_BITS, THIRTY_SECOND_BITS,
};

#[test]
fn tests_is_shuffle_note_16() {
    let mut step_index = 0;
    const NOTE_LEN: f32 = 1. / 16.;

    assert_eq!(is_shuffle_note(step_index, Single::from_bits(NOTE_LEN.to_bits())), false);
    step_index += 1;
    assert_eq!(is_shuffle_note(step_index, Single::from_bits(NOTE_LEN.to_bits())), true);
    step_index += 1;
    assert_eq!(is_shuffle_note(step_index, Single::from_bits(NOTE_LEN.to_bits())), false);
    step_index += 1;
    assert_eq!(is_shuffle_note(step_index, Single::from_bits(NOTE_LEN.to_bits())), true);
    step_index += 1;
    assert_eq!(is_shuffle_note(step_index, Single::from_bits(NOTE_LEN.to_bits())), false);
    step_index += 1;
    assert_eq!(is_shuffle_note(step_index, Single::from_bits(NOTE_LEN.to_bits())), true);
    step_index += 1;
    assert_eq!(is_shuffle_note(step_index, Single::from_bits(NOTE_LEN.to_bits())), false);
    step_index += 1;
    assert_eq!(is_shuffle_note(step_index, Single::from_bits(NOTE_LEN.to_bits())), true);
}

#[test]
fn tests_is_shuffle_note_32() {
    let mut step_index = 0;
    const NOTE_LEN: f32 = 1. / 32.;

    assert_eq!(is_shuffle_note(step_index, Single::from_bits(NOTE_LEN.to_bits())), false);
    step_index += 1;
    assert_eq!(is_shuffle_note(step_index, Single::from_bits(NOTE_LEN.to_bits())), false);
    step_index += 1;
    assert_eq!(is_shuffle_note(step_index, Single::from_bits(NOTE_LEN.to_bits())), true);
    step_index += 1;
    assert_eq!(is_shuffle_note(step_index, Single::from_bits(NOTE_LEN.to_bits())), false);
    step_index += 1;
    assert_eq!(is_shuffle_note(step_index, Single::from_bits(NOTE_LEN.to_bits())), false);
    step_index += 1;
    assert_eq!(is_shuffle_note(step_index, Single::from_bits(NOTE_LEN.to_bits())), false);
    step_index += 1;
    assert_eq!(is_shuffle_note(step_index, Single::from_bits(NOTE_LEN.to_bits())), true);
    step_index += 1;
    assert_eq!(is_shuffle_note(step_index, Single::from_bits(NOTE_LEN.to_bits())), false);
    step_index += 1;
    assert_eq!(is_shuffle_note(step_index, Single::from_bits(NOTE_LEN.to_bits())), false);
    step_index += 1;
    assert_eq!(is_shuffle_note(step_index, Single::from_bits(NOTE_LEN.to_bits())), false);
    step_index += 1;
    assert_eq!(is_shuffle_note(step_index, Single::from_bits(NOTE_LEN.to_bits())), true);
}

#[test]
fn shuffle_note_tests_is_shuffle_note_16() {
    let mut step_index = 0;
    const NOTE_LEN: f32 = 1. / 16.;
    const TEST_RESULTS: [bool; 8] = [false, true, false, true, false, true, false, true];
    for r in TEST_RESULTS {
        assert_eq!(is_shuffle_note(step_index, Single::from_bits(NOTE_LEN.to_bits())), r);
        step_index += 1;
    }
}

#[test]
fn shuffle_note_tests_is_shuffle_note_32() {
    let mut step_index = 0;
    const NOTE_LEN: f32 = 1. / 32.;
    const TEST_RESULTS: [bool; 11] = [
        false, false, true, false, false, false, true, false, false, false, true,
    ];

    for r in TEST_RESULTS {
        assert_eq!(is_shuffle_note(step_index, Single::from_bits(NOTE_LEN.to_bits())), r);
        step_index += 1;
    }
}

#[test]
fn odd_and_even_are_opposites() {
    assert!(is_odd(3, 2));
    assert!(!is_even(3, 2));
    assert!(is_even(8, 4));
    assert!(!is_odd(8, 4));
}

#[test]
fn sixty_fourth_steps_swing_every_eighth() {
    let note_len = Single::from_bits((1.0f32 / 64.).to_bits());
    assert_eq!(note_len.to_bits(), SIXTY_FOURTH_BITS);
    for note_index in 0..64usize {
        assert_eq!(is_shuffle_note(note_index, note_len), note_index % 8 == 4);
    }
}

#[test]
fn hundred_twenty_eighth_steps_swing_every_sixteenth() {
    let note_len = Single::from_bits((1.0f32 / 128.).to_bits());
    assert_eq!(note_len.to_bits(), HUNDRED_TWENTY_EIGHTH_BITS);
    for note_index in 0..64usize {
        assert_eq!(is_shuffle_note(note_index, note_len), note_index % 16 == 8);
    }
}

#[test]
fn other_note_lengths_never_swing() {
    for note_len in [1.0f32, 0.5, 0.25, 1. / 8., 3. / 16., 1. / 256., 0., -1. / 16., f32::NAN] {
        let note_len = Single::from_bits(note_len.to_bits());
        for note_index in 0..40usize {
            assert_eq!(is_shuffle_note(note_index, note_len), false);
        }
    }
    for bits in [0u32, 1, SIXTEENTH_BITS - 1, SIXTEENTH_BITS + 1, u32::MAX] {
        for note_index in 0..40usize {
            assert_eq!(is_shuffle_note(note_index, Single::from_bits(bits)), false);
        }
    }
}

#[test]
fn note_len_bits_are_those_of_the_four_lengths() {
    assert_eq!(f32::from_bits(SIXTEENTH_BITS), 1. / 16.);
    assert_eq!(f32::from_bits(THIRTY_SECOND_BITS), 1. / 32.);
    assert_eq!(f32::from_bits(SIXTY_FOURTH_BITS), 1. / 64.);
    assert_eq!(f32::from_bits(HUNDRED_TWENTY_EIGHTH_BITS), 1. / 128.);
    assert_eq!(f32::from_bits(INFINITY_BITS), f32::INFINITY);
    assert_eq!(Single::from_bits(0x3D80_0000).bits, SIXTEENTH_BITS);
}

#[test]
fn shuffle_note_is_total_at_the_largest_index() {
    let sixteenth = Single::from_bits(SIXTEENTH_BITS);
    let thirty_second = Single::from_bits(THIRTY_SECOND_BITS);
    assert_eq!(is_shuffle_note(usize::MAX, sixteenth), true);
    assert_eq!(is_shuffle_note(usize::MAX, thirty_second), false);
    assert_eq!(is_shuffle_note(usize::MAX - 1, thirty_second), true);
    assert_eq!(is_shuffle_note(usize::MAX, Single::from_bits(0)), false);
}
