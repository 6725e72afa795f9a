use fx_collection::stereo_delay::delay_line_heads::{
    DelayLineHeads, FAST_INCREMENT, GLIDE_STEP, SLOW_INCREMENT,
};
use fx_collection::stereo_delay::DEFAULT_BUFFER_SIZE;
use fx_collection::FIXED_ONE;

const ONE: u128 = FIXED_ONE as u128;

#[test]
fn heads_start_at_zero_in_a_default_buffer() {
    let heads = DelayLineHeads::new();
    assert_eq!(heads.read_pos(), 0);
    assert_eq!(heads.write_pos(), 0);
    assert_eq!(heads.buffer_size(), 8000);
    assert_eq!(DEFAULT_BUFFER_SIZE, 8000);
    assert_eq!(heads.heads_diff(), 0);
    assert_eq!(heads.read_head_increment(), 0);
    assert_eq!(heads.current_diff(), 0);
}

#[test]
fn heads_reset_with_no_delay_puts_read_on_write() {
    let mut heads = DelayLineHeads::new();
    heads.set_buffer_size(32);
    heads.set_heads_diff(500_000_000);
    for _ in 0..45 {
        heads.advance();
    }
    heads.set_heads_diff(0);
    heads.reset();
    assert_eq!(heads.write_pos(), 13);
    assert_eq!(heads.read_pos(), 13 * ONE);
    assert_eq!(heads.read_index(), heads.write_pos());
    assert_eq!(heads.read_frac(), 0);
    assert_eq!(heads.current_diff(), 0);
    assert_eq!(heads.read_head_increment(), FIXED_ONE);
}

#[test]
fn heads_reset_jumps_to_the_delay_asked_for() {
    let mut heads = DelayLineHeads::new();
    heads.set_buffer_size(32);
    heads.set_heads_diff(250_000_000);
    heads.reset();
    assert_eq!(heads.write_pos(), 0);
    assert_eq!(heads.read_pos(), 24 * ONE);
    assert_eq!(heads.current_diff(), 8 * ONE);
    heads.set_heads_diff(10_000_000);
    heads.reset();
    assert_eq!(heads.read_pos(), 31_680_000_000);
    assert_eq!(heads.read_index(), 31);
    assert_eq!(heads.read_frac(), 680_000_000);
    assert_eq!(heads.current_diff(), 320_000_000);
}

#[test]
fn heads_with_no_delay_move_together_and_wrap() {
    let mut heads = DelayLineHeads::new();
    heads.set_buffer_size(32);
    heads.set_heads_diff(0);
    heads.reset();
    for n in 1..=100usize {
        heads.advance();
        assert_eq!(heads.write_pos(), n % 32);
        assert_eq!(heads.read_pos(), (n % 32) as u128 * ONE);
        assert_eq!(heads.current_diff(), 0);
    }
}

#[test]
fn heads_glide_to_a_longer_delay_and_lock() {
    let mut heads = DelayLineHeads::new();
    heads.set_buffer_size(32);
    heads.set_heads_diff(250_000_000);
    assert_eq!(heads.read_head_increment(), SLOW_INCREMENT);
    assert_eq!(SLOW_INCREMENT, 700_000_000);
    assert_eq!(GLIDE_STEP, 300_000_000);
    for n in 1..=24u128 {
        heads.advance();
        assert_eq!(heads.read_pos(), n * 700_000_000);
        assert_eq!(heads.current_diff(), n * 300_000_000);
    }
    heads.advance();
    assert_eq!(heads.write_pos(), 25);
    assert_eq!(heads.read_pos(), 17 * ONE);
    assert_eq!(heads.current_diff(), 8 * ONE);
    for _ in 0..200 {
        heads.advance();
        assert_eq!(heads.current_diff(), 8 * ONE);
    }
}

#[test]
fn heads_glide_to_a_shorter_delay_and_lock() {
    let mut heads = DelayLineHeads::new();
    heads.set_buffer_size(32);
    heads.set_heads_diff(250_000_000);
    heads.reset();
    for _ in 0..29 {
        heads.advance();
    }
    assert_eq!(heads.current_diff(), 8 * ONE);
    heads.set_heads_diff(0);
    assert_eq!(heads.read_head_increment(), FAST_INCREMENT);
    assert_eq!(FAST_INCREMENT, 1_300_000_000);
    let mut last = heads.current_diff();
    for n in 1..=24u128 {
        heads.advance();
        assert_eq!(heads.current_diff(), 8 * ONE - n * 300_000_000);
        assert!(heads.current_diff() < last);
        last = heads.current_diff();
    }
    assert_eq!(last, 800_000_000);
    heads.advance();
    assert_eq!(heads.current_diff(), 0);
    assert_eq!(heads.read_pos(), heads.write_pos() as u128 * ONE);
    for _ in 0..100 {
        heads.advance();
        assert_eq!(heads.current_diff(), 0);
    }
}

#[test]
fn heads_settle_for_every_delay_short_of_the_whole_buffer() {
    for size in [1usize, 2, 3, 32, 100] {
        for diff in [0u32, 1, 10_000_000, 20_000_000, 333_333_333, 500_000_000, 999_999_999] {
            for start in [0u32, 250_000_000, 750_000_000, 1_000_000_000] {
                let mut heads = DelayLineHeads::new();
                heads.set_buffer_size(size);
                heads.set_heads_diff(start);
                heads.reset();
                for _ in 0..7 {
                    heads.advance();
                }
                heads.set_heads_diff(diff);
                let target = diff as u128 * size as u128;
                let bound = size as u128 * ONE / 300_000_000 + 2;
                for _ in 0..bound {
                    heads.advance();
                }
                for _ in 0..(3 * size) {
                    assert_eq!(heads.current_diff(), target, "size {} diff {}", size, diff);
                    assert!(heads.read_index() < size);
                    assert!(heads.write_pos() < size);
                    heads.advance();
                }
            }
        }
    }
}

#[test]
fn heads_asked_for_the_whole_buffer_keep_sweeping() {
    let mut heads = DelayLineHeads::new();
    heads.set_buffer_size(4);
    heads.set_heads_diff(FIXED_ONE);
    heads.reset();
    assert_eq!(heads.current_diff(), 0);
    heads.set_heads_diff(FIXED_ONE);
    assert_eq!(heads.read_head_increment(), SLOW_INCREMENT);
    let mut seen = Vec::new();
    for _ in 0..22 {
        heads.advance();
        seen.push(heads.current_diff());
    }
    assert_eq!(seen[0], 300_000_000);
    assert_eq!(seen[9], 3_000_000_000);
    assert_eq!(seen[10], 0);
    assert_eq!(seen[20], 3_000_000_000);
    assert_eq!(seen[21], 0);
}

#[test]
fn heads_diff_is_clamped_to_one() {
    let mut heads = DelayLineHeads::new();
    heads.set_buffer_size(32);
    heads.set_heads_diff(u32::MAX);
    assert_eq!(heads.heads_diff(), FIXED_ONE);
    heads.set_heads_diff(1_000_000_001);
    assert_eq!(heads.heads_diff(), 1_000_000_000);
    heads.set_heads_diff(999_999_999);
    assert_eq!(heads.heads_diff(), 999_999_999);
}

#[test]
fn heads_are_wrapped_into_a_shorter_buffer() {
    let mut heads = DelayLineHeads::new();
    for _ in 0..100 {
        heads.advance();
    }
    assert_eq!(heads.write_pos(), 100);
    assert_eq!(heads.read_pos(), 100 * ONE);
    heads.set_heads_diff(500_000_000);
    for _ in 0..10 {
        heads.advance();
    }
    assert_eq!(heads.read_pos(), 107 * ONE);
    assert_eq!(heads.write_pos(), 110);
    heads.set_buffer_size(32);
    assert_eq!(heads.buffer_size(), 32);
    assert_eq!(heads.read_pos(), 11 * ONE);
    assert_eq!(heads.write_pos(), 14);
    assert_eq!(heads.current_diff(), 3 * ONE);
    assert_eq!(heads.heads_diff(), 500_000_000);
    assert_eq!(heads.read_head_increment(), SLOW_INCREMENT);
    for _ in 0..200 {
        heads.advance();
    }
    assert_eq!(heads.current_diff(), 16 * ONE);
}

#[test]
fn heads_next_slot_wraps_at_the_last_slot() {
    let mut heads = DelayLineHeads::new();
    heads.set_buffer_size(32);
    assert_eq!(heads.increment_pos(0), 1);
    assert_eq!(heads.increment_pos(30), 31);
    assert_eq!(heads.increment_pos(31), 0);
    heads.set_buffer_size(1);
    assert_eq!(heads.increment_pos(0), 0);
}

#[test]
fn bind_to_buffer_wraps_once() {
    assert_eq!(DelayLineHeads::bind_to_buffer_usize(0, 32), 0);
    assert_eq!(DelayLineHeads::bind_to_buffer_usize(31, 32), 31);
    assert_eq!(DelayLineHeads::bind_to_buffer_usize(32, 32), 0);
    assert_eq!(DelayLineHeads::bind_to_buffer_usize(40, 32), 8);
    assert_eq!(DelayLineHeads::bind_to_buffer_usize(70, 32), 38);
}
