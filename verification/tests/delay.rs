use rf_rig::delay::{DelayLine, MINIMUM_LENGTH};

/// A line that stores what it is given.
fn keep<T>(value: T) -> T {
    value
}

#[test]
fn a_delay_line_returns_what_was_written_a_known_time_ago() {
    let mut buffer = [0_u32; 512];
    let mut line = DelayLine::default();
    line.prepare(&mut buffer, 512, 0);
    for index in 0..256 {
        line.write(&mut buffer, index, keep);
    }
    let delayed = line.at(&buffer, 10);
    assert_eq!(delayed, 246, "read back {delayed}");
}

#[test]
fn the_newest_tap_is_the_last_write_even_across_the_wrap() {
    let mut buffer = [0_i32; 16];
    let mut line = DelayLine::default();
    line.prepare(&mut buffer, 10, -1);
    assert_eq!(line.length(), 10);
    for value in 1..=23 {
        line.write(&mut buffer, value, keep);
        assert_eq!(line.at(&buffer, 1), value);
    }
    // Ten writes ago, wrapped around the end of the line.
    assert_eq!(line.at(&buffer, 10), 14);
    // Samples past the line's length are never touched.
    assert!(buffer[10..].iter().all(|sample| *sample == 0));
}

#[test]
fn a_line_never_claims_more_than_the_buffer_nor_less_than_the_minimum() {
    let mut buffer = [1.0_f32; 64];
    let mut line = DelayLine::default();
    line.prepare(&mut buffer, 1_000, 0.0);
    assert_eq!(line.length(), 64);
    line.prepare(&mut buffer, 3, 0.0);
    assert_eq!(line.length(), MINIMUM_LENGTH);
    assert!(buffer.iter().all(|sample| *sample == 0.0));
}

#[test]
fn clearing_silences_the_line_and_rewinds_it() {
    let mut buffer = [0_u8; 8];
    let mut line = DelayLine::default();
    line.prepare(&mut buffer, 8, 0);
    for value in 1..=5 {
        line.write(&mut buffer, value, keep);
    }
    line.clear(&mut buffer, 9);
    assert!(buffer.iter().all(|sample| *sample == 9));
    line.write(&mut buffer, 1, keep);
    assert_eq!(buffer[0], 1);
}

#[test]
fn an_unprepared_line_ignores_writes() {
    let mut buffer = [3_u8; 4];
    let mut line = DelayLine::default();
    assert_eq!(line.length(), 0);
    line.write(&mut buffer, 7, keep);
    assert_eq!(buffer, [3, 3, 3, 3]);
}

#[test]
fn a_new_line_owns_nothing_and_ignores_writes() {
    let mut buffer = [5_u32; 16];
    let mut line = DelayLine::new();
    assert_eq!(line.length(), 0);
    line.write(&mut buffer, 9, keep);
    assert!(buffer.iter().all(|sample| *sample == 5));
    assert_eq!(DelayLine::default().length(), 0);
    let mut prepared = DelayLine::default();
    prepared.prepare(&mut buffer, 4, 0);
    assert_eq!(prepared.length(), MINIMUM_LENGTH);
    prepared.prepare(&mut buffer, 10_000, 0);
    assert_eq!(prepared.length(), 16);
}

#[test]
fn a_write_stores_what_the_line_makes_of_the_value() {
    let mut buffer = [0.0_f32; 16];
    let mut line = DelayLine::default();
    line.prepare(&mut buffer, 16, 0.0);
    let flush = |value: f32| if value.is_finite() && value.abs() > 1e-20 { value } else { 0.0 };
    line.write(&mut buffer, f32::NAN, flush);
    line.write(&mut buffer, 1e-30, flush);
    line.write(&mut buffer, 0.5, flush);
    assert_eq!(line.at(&buffer, 3), 0.0);
    assert_eq!(line.at(&buffer, 2), 0.0);
    assert_eq!(line.at(&buffer, 1), 0.5);
    // Delay 0 and delay `length` both name the slot the next write replaces.
    assert_eq!(line.at(&buffer, 0), line.at(&buffer, 16));
}
