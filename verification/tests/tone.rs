use bringup::dac::{
    advance_phase, pack_frame, phase_step, triangle_sample, StereoTone, BUFFER_SIZE, LEFT_FREQ,
    RIGHT_FREQ, SAMPLE_RATE,
};

#[test]
fn phase_step_of_the_test_tones() {
    assert_eq!(SAMPLE_RATE, 48_000);
    assert_eq!(phase_step(LEFT_FREQ), 300);
    assert_eq!(phase_step(RIGHT_FREQ), 600);
    // the right tone is one octave above the left one
    assert_eq!(phase_step(RIGHT_FREQ), 2 * phase_step(LEFT_FREQ));
}

#[test]
fn phase_step_edges() {
    assert_eq!(phase_step(0), 0);
    assert_eq!(phase_step(1), 1);
    assert_eq!(phase_step(48_000), 65_536);
    // the shift by 16 wraps in 32 bits
    assert_eq!(phase_step(65_536), 0);
    assert_eq!(phase_step(65_537), 1);
    assert_eq!(phase_step(u32::MAX), 89_477);
}

#[test]
fn triangle_sample_values() {
    assert_eq!(triangle_sample(0), -16_384);
    assert_eq!(triangle_sample(16_384), 0);
    assert_eq!(triangle_sample(32_767), 16_383);
    assert_eq!(triangle_sample(32_768), 16_384);
    assert_eq!(triangle_sample(49_152), 0);
    assert_eq!(triangle_sample(65_535), -16_383);
    assert_eq!(triangle_sample(65_536), -16_384);
    assert_eq!(triangle_sample(-1), -16_383);
    assert_eq!(triangle_sample(i32::MIN), -16_384);
    assert_eq!(triangle_sample(i32::MAX), -16_383);
}

#[test]
fn triangle_sample_is_even_and_periodic() {
    for p in [0, 1, 100, 16_384, 32_767, 32_768, 40_000, 65_535] {
        assert_eq!(triangle_sample(-p), triangle_sample(p));
        assert_eq!(triangle_sample(p + 65_536), triangle_sample(p));
    }
}

#[test]
fn triangle_sample_moves_by_one() {
    for p in 0..70_000 {
        let d = triangle_sample(p + 1) - triangle_sample(p);
        assert!(d == 1 || d == -1);
    }
}

#[test]
fn advance_phase_wraps() {
    assert_eq!(advance_phase(0, 300), 300);
    assert_eq!(advance_phase(65_535, 1), 0);
    assert_eq!(advance_phase(65_000, 600), 64);
    assert_eq!(advance_phase(0, -1), 65_535);
    assert_eq!(advance_phase(65_535, i32::MAX - 65_535), 65_535);
}

#[test]
fn pack_frame_puts_left_high() {
    assert_eq!(pack_frame(-16_384, 16_384), 0xC000_4000);
    assert_eq!(pack_frame(16_384, -16_384), 0x4000_C000);
    assert_eq!(pack_frame(0, 0), 0);
    assert_eq!(pack_frame(-1, -1), 0xFFFF_FFFF);
    assert_eq!(pack_frame(1, 2), 0x0001_0002);
}

#[test]
fn tone_starts_at_phase_zero() {
    let tone = StereoTone::new(LEFT_FREQ, RIGHT_FREQ);
    assert_eq!(tone.left_phase(), 0);
    assert_eq!(tone.right_phase(), 0);
    assert_eq!(tone.left_step(), 300);
    assert_eq!(tone.right_step(), 600);
}

#[test]
fn fill_first_frames() {
    let mut tone = StereoTone::new(LEFT_FREQ, RIGHT_FREQ);
    let mut buf = [0u32; 4];
    tone.fill(&mut buf);
    assert_eq!(buf, [0xC12C_C258, 0xC258_C4B0, 0xC384_C708, 0xC4B0_C960]);
    assert_eq!(tone.left_phase(), 1_200);
    assert_eq!(tone.right_phase(), 2_400);
}

#[test]
fn fill_empty_buffer_changes_nothing() {
    let mut tone = StereoTone::new(LEFT_FREQ, RIGHT_FREQ);
    let mut buf: [u32; 0] = [];
    tone.fill(&mut buf);
    assert_eq!(tone.left_phase(), 0);
    assert_eq!(tone.right_phase(), 0);
}

#[test]
fn fill_runs_on_across_buffers() {
    let mut split = StereoTone::new(LEFT_FREQ, RIGHT_FREQ);
    let mut whole = StereoTone::new(LEFT_FREQ, RIGHT_FREQ);
    let mut first = vec![0u32; BUFFER_SIZE];
    let mut second = vec![0u32; BUFFER_SIZE];
    let mut both = vec![0u32; 2 * BUFFER_SIZE];
    split.fill(&mut first);
    split.fill(&mut second);
    whole.fill(&mut both);
    first.extend_from_slice(&second);
    assert_eq!(first, both);
    assert_eq!(split.left_phase(), whole.left_phase());
    assert_eq!(split.right_phase(), whole.right_phase());
    // 1920 frames at a step of 300 and 600, modulo 65536
    assert_eq!(whole.left_phase(), (1_920 * 300) % 65_536);
    assert_eq!(whole.right_phase(), (1_920 * 600) % 65_536);
}

#[test]
fn fill_matches_sample_functions() {
    let mut tone = StereoTone::new(1_000, 5_000);
    let mut buf = vec![0u32; 300];
    tone.fill(&mut buf);
    let (mut l, mut r) = (0i32, 0i32);
    for frame in buf {
        l = advance_phase(l, phase_step(1_000));
        r = advance_phase(r, phase_step(5_000));
        assert_eq!(frame, pack_frame(triangle_sample(l), triangle_sample(r)));
        assert_eq!((frame >> 16) as u16 as i16 as i32, triangle_sample(l));
        assert_eq!((frame & 0xffff) as u16 as i16 as i32, triangle_sample(r));
    }
}
