use fx_collection::stereo_delay::delay_line::{DelayLine, Taps};
use fx_collection::FIXED_ONE;

fn interpolate(taps: Taps<f32>) -> f32 {
    taps.first + (taps.second - taps.first) * (taps.frac as f32 / FIXED_ONE as f32)
}

fn process(line: &mut DelayLine<f32>, input: f32, feedback: f32) -> f32 {
    let output = interpolate(line.read());
    line.feed(input + output * feedback);
    output
}

#[test]
fn delay_line_starts_silent() {
    let line: DelayLine<f32> = DelayLine::new(0.);
    assert_eq!(line.buffer_size(), 8000);
    assert_eq!(line.read(), Taps { first: 0., second: 0., frac: 0 });
    assert_eq!(line.heads().write_pos(), 0);
}

#[test]
fn delay_line_echoes_an_impulse_every_buffer_length() {
    let mut line: DelayLine<f32> = DelayLine::new(0.);
    line.set_buffer_size(32);
    line.set_normalized_delay(0);
    line.reset_heads();
    line.clear_buffer();

    let mut output = Vec::new();
    output.push(process(&mut line, 1., 1.));
    for _ in 0..127 {
        output.push(process(&mut line, 0., 1.));
    }
    for (n, value) in output.iter().enumerate() {
        let expected = if n > 0 && n % 32 == 0 { 1. } else { 0. };
        assert_eq!(*value, expected, "sample {}", n);
    }
}

#[test]
fn delay_line_echo_decays_with_feedback() {
    let mut line: DelayLine<f32> = DelayLine::new(0.);
    line.set_buffer_size(32);
    line.reset_heads();

    let mut output = Vec::new();
    output.push(process(&mut line, 1., 0.5));
    for _ in 0..99 {
        output.push(process(&mut line, 0., 0.5));
    }
    assert_eq!(output[32], 1.);
    assert_eq!(output[64], 0.5);
    assert_eq!(output[96], 0.25);
    assert_eq!(output.iter().filter(|v| **v != 0.).count(), 3);
}

#[test]
fn delay_line_hands_out_what_was_fed_one_buffer_length_before() {
    let mut line: DelayLine<u32> = DelayLine::new(0);
    line.set_buffer_size(5);
    line.reset_heads();
    for n in 0..23u32 {
        let taps = line.read();
        let expected = if n >= 5 { 100 + n - 5 } else { 0 };
        assert_eq!(taps.first, expected);
        assert_eq!(taps.frac, 0);
        line.feed(100 + n);
    }
}

#[test]
fn delay_line_reads_between_two_slots() {
    let mut line: DelayLine<f32> = DelayLine::new(0.);
    line.set_buffer_size(32);
    line.set_normalized_delay(10_000_000);
    line.reset_heads();
    assert_eq!(line.read(), Taps { first: 0., second: 0., frac: 680_000_000 });
    line.feed(1.);
    let taps = line.read();
    assert_eq!(taps, Taps { first: 1., second: 0., frac: 680_000_000 });
    assert_eq!(interpolate(taps), 1. + (0. - 1.) * (680_000_000f32 / 1_000_000_000f32));
}

#[test]
fn delay_line_reads_round_the_end_of_the_buffer() {
    let mut line: DelayLine<u8> = DelayLine::new(0);
    line.set_buffer_size(4);
    line.set_normalized_delay(125_000_000);
    line.reset_heads();
    assert_eq!(line.heads().read_pos(), 3_500_000_000);
    line.feed(7);
    assert_eq!(line.heads().write_pos(), 1);
    assert_eq!(line.heads().read_pos(), 500_000_000);
    line.feed(8);
    line.feed(9);
    line.feed(10);
    assert_eq!(line.heads().read_pos(), 3_500_000_000);
    assert_eq!(line.read(), Taps { first: 10, second: 7, frac: 500_000_000 });
}

#[test]
fn delay_line_clear_keeps_the_heads() {
    let mut line: DelayLine<f32> = DelayLine::new(0.);
    line.set_buffer_size(8);
    line.reset_heads();
    for n in 0..11 {
        line.feed(n as f32 + 1.);
    }
    let before = line.heads();
    assert_eq!(line.read().first, 4.);
    line.clear_buffer();
    assert_eq!(line.buffer_size(), 8);
    assert_eq!(line.heads().write_pos(), before.write_pos());
    assert_eq!(line.heads().read_pos(), before.read_pos());
    for _ in 0..8 {
        assert_eq!(line.read(), Taps { first: 0., second: 0., frac: 0 });
        line.feed(0.);
    }
}

#[test]
fn delay_line_resize_keeps_samples_and_fills_with_silence() {
    let mut line: DelayLine<i32> = DelayLine::new(-1);
    line.set_buffer_size(4);
    line.reset_heads();
    for n in 0..4 {
        line.feed(10 + n);
    }
    line.set_buffer_size(6);
    assert_eq!(line.buffer_size(), 6);
    let mut seen = Vec::new();
    for _ in 0..6 {
        seen.push(line.read().first);
        line.feed(0);
    }
    assert_eq!(seen, vec![10, 11, 12, 13, -1, -1]);
    line.set_buffer_size(2);
    assert_eq!(line.buffer_size(), 2);
    assert_eq!(line.heads().write_pos(), 0);
    assert_eq!(line.read().first, 0);
}

#[test]
fn delay_line_clone_is_independent() {
    let mut line: DelayLine<u32> = DelayLine::new(0);
    line.set_buffer_size(3);
    line.reset_heads();
    line.feed(5);
    let copy = line.clone();
    line.feed(6);
    line.feed(7);
    assert_eq!(line.read().first, 5);
    assert_eq!(copy.read().first, 0);
    assert_eq!(copy.heads().write_pos(), 1);
    assert_eq!(copy.buffer_size(), 3);
}

#[test]
fn delay_line_locked_to_whole_samples_reads_that_many_samples_back() {
    let mut line: DelayLine<u32> = DelayLine::new(0);
    line.set_buffer_size(32);
    line.set_normalized_delay(250_000_000);
    line.reset_heads();
    for n in 0..100u32 {
        let taps = line.read();
        if n >= 32 {
            assert_eq!(taps, Taps { first: 1000 + n - 8, second: 1000 + n - 7, frac: 0 });
        }
        line.feed(1000 + n);
    }
}

#[test]
fn delay_line_locked_between_samples_reads_the_two_round_the_delay() {
    let mut line: DelayLine<u32> = DelayLine::new(0);
    line.set_buffer_size(8);
    line.set_normalized_delay(300_000_000);
    line.reset_heads();
    assert_eq!(line.heads().current_diff(), 2_400_000_000);
    for n in 0..50u32 {
        let taps = line.read();
        if n >= 8 {
            assert_eq!(taps, Taps { first: 1000 + n - 3, second: 1000 + n - 2, frac: 600_000_000 });
        }
        line.feed(1000 + n);
    }
}

#[test]
fn delay_line_locked_within_one_sample_reads_newest_and_oldest() {
    let mut line: DelayLine<u32> = DelayLine::new(0);
    line.set_buffer_size(32);
    line.set_normalized_delay(10_000_000);
    line.reset_heads();
    for n in 0..100u32 {
        let taps = line.read();
        if n >= 32 {
            let expected = Taps { first: 1000 + n - 1, second: 1000 + n - 32, frac: 680_000_000 };
            assert_eq!(taps, expected);
        }
        line.feed(1000 + n);
    }
}

#[test]
fn delay_line_after_a_glide_reads_the_new_delay() {
    let mut line: DelayLine<u32> = DelayLine::new(0);
    line.set_buffer_size(32);
    line.reset_heads();
    line.set_normalized_delay(250_000_000);
    for n in 0..25u32 {
        line.feed(n);
    }
    assert_eq!(line.heads().current_diff(), 8_000_000_000);
    for n in 25..100u32 {
        let taps = line.read();
        if n >= 32 {
            assert_eq!(taps, Taps { first: n - 8, second: n - 7, frac: 0 });
        }
        line.feed(n);
    }
}
