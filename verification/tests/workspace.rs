use rf_rig::dsp::{CHORUS_MAXIMUM_DELAY_MS, ECHO_MAXIMUM_DELAY_MS, REVERB_MAXIMUM_LINE_MS};
use rf_rig::workspace::{
    Workspace, CHORUS_SAMPLES, ECHO_SAMPLES, MAXIMUM_SAMPLE_RATE, REVERB_LINE_SAMPLES, REVERB_SAMPLES,
    WORKSPACE_SAMPLES,
};

fn samples_for(milliseconds: u32) -> usize {
    MAXIMUM_SAMPLE_RATE as usize * milliseconds as usize / 1000
}

#[test]
fn a_buffer_of_the_declared_size_divides_completely() {
    let mut buffer = vec![0.0_f32; WORKSPACE_SAMPLES];
    let workspace = Workspace::new(&mut buffer).expect("the exact size is enough");
    assert_eq!(workspace.chorus.len(), CHORUS_SAMPLES);
    assert_eq!(workspace.echo_left.len(), ECHO_SAMPLES);
    assert_eq!(workspace.echo_right.len(), ECHO_SAMPLES);
    assert_eq!(workspace.reverb.len(), REVERB_SAMPLES);
}

#[test]
fn a_short_buffer_is_refused() {
    let mut buffer = vec![0.0_f32; WORKSPACE_SAMPLES - 1];
    assert!(Workspace::new(&mut buffer).is_none());
}

#[test]
fn the_lines_are_long_enough_for_the_declared_maximum_delays() {
    let longest_echo = samples_for(ECHO_MAXIMUM_DELAY_MS);
    assert!(ECHO_SAMPLES > longest_echo);
    let longest_chorus = samples_for(CHORUS_MAXIMUM_DELAY_MS);
    assert!(CHORUS_SAMPLES > longest_chorus);
    let longest_reverb_line = samples_for(REVERB_MAXIMUM_LINE_MS);
    assert!(REVERB_LINE_SAMPLES > longest_reverb_line);
}

#[test]
fn the_parts_follow_one_another_in_the_block() {
    let mut buffer: Vec<u32> = (0..WORKSPACE_SAMPLES as u32 + 10).collect();
    let workspace = Workspace::new(&mut buffer).unwrap();
    assert_eq!(workspace.chorus[0], 0);
    assert_eq!(workspace.echo_left[0], CHORUS_SAMPLES as u32);
    assert_eq!(workspace.echo_right[0], (CHORUS_SAMPLES + ECHO_SAMPLES) as u32);
    assert_eq!(workspace.reverb[0], (CHORUS_SAMPLES + 2 * ECHO_SAMPLES) as u32);
    assert_eq!(*workspace.reverb.last().unwrap(), WORKSPACE_SAMPLES as u32 - 1);
}

#[test]
fn clearing_silences_every_part() {
    let mut buffer = vec![0.5_f32; WORKSPACE_SAMPLES];
    let mut workspace = Workspace::new(&mut buffer).unwrap();
    workspace.clear(0.0);
    assert!(workspace.chorus.iter().all(|sample| *sample == 0.0));
    assert!(workspace.echo_right.iter().all(|sample| *sample == 0.0));
    assert!(workspace.reverb.iter().all(|sample| *sample == 0.0));
}
