use rf_rig::processor::{events_due, input_samples, supports_channels, write_frame};

#[test]
fn only_a_mono_or_stereo_input_and_output_are_served() {
    assert!(supports_channels(1, 2));
    assert!(supports_channels(2, 1));
    assert!(!supports_channels(0, 2));
    assert!(!supports_channels(4, 2));
    assert!(!supports_channels(1, 6));
    assert!(!supports_channels(1, 0));
}

#[test]
fn automation_events_are_applied_at_their_frame() {
    // Two events at frame 128 and one at 200, in a 256-frame block.
    let frames = [128_u32, 128, 200];
    let mut next = 0;
    let mut applied_at = Vec::new();
    for frame in 0..256_u32 {
        let end = events_due(&frames, next, frame);
        for _ in next..end {
            applied_at.push(frame);
        }
        next = end;
    }
    assert_eq!(applied_at, vec![128, 128, 200]);
    assert_eq!(next, frames.len());
}

#[test]
fn an_event_out_of_order_waits_behind_the_one_before_it() {
    let frames = [5_u32, 3];
    assert_eq!(events_due(&frames, 0, 3), 0);
    assert_eq!(events_due(&frames, 0, 5), 1);
    assert_eq!(events_due(&frames, 1, 6), 1);
    assert_eq!(events_due(&[], 0, 0), 0);
}

#[test]
fn one_jack_reads_what_the_host_hands_over() {
    let mono = [0.1_f32, 0.2, 0.3];
    assert_eq!(input_samples(&mono, 1, 1, 0.0), (0.2, 0.2));
    assert_eq!(input_samples(&mono, 3, 1, 0.0), (0.0, 0.0));
    assert_eq!(input_samples(&mono, 0, 0, 0.0), (0.0, 0.0));
    let stereo = [1, 2, 3, 4, 5];
    assert_eq!(input_samples(&stereo, 1, 2, 0), (3, 4));
    assert_eq!(input_samples(&stereo, 2, 2, 0), (5, 0));
}

#[test]
fn a_frame_lands_on_its_interleaved_slots() {
    let mut output = [0_i32; 6];
    write_frame(&mut output, 1, 2, 7, 9);
    assert_eq!(output, [0, 0, 7, 9, 0, 0]);
    let mut mono = [0_i32; 3];
    write_frame(&mut mono, 2, 1, 5, 6);
    assert_eq!(mono, [0, 0, 5]);
    let mut short = [0_i32; 3];
    write_frame(&mut short, 1, 2, 1, 2);
    assert_eq!(short, [0, 0, 1]);
}
