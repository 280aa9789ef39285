use rf_rig::contract::{parameters, PARAMETER_COUNT, PREVIOUS_PARAMETER_COUNTS};
use rf_rig::index::{DELAY_TIME, DRIVE_DRIVE, DRIVE_ENGAGED, FUZZ_ENGAGED, FUZZ_SUSTAIN, RIG_SOURCE};
use rf_rig::state::{load_state, restore_block, save_state, STATE_BYTES};

/// A board at its defaults, as the words the engine stores: each value's
/// `f32` bit pattern.
fn default_board() -> [u32; PARAMETER_COUNT] {
    let mut words = [0_u32; PARAMETER_COUNT];
    for parameter in parameters() {
        words[parameter.index as usize] = (parameter.default_value() as f32 / 1000.0).to_bits();
    }
    words
}

/// The value a restored block gives a parameter, or its default when the
/// block predates it.
fn restored_value(restored: &[u32], index: u32) -> f64 {
    let word = restored.get(index as usize).copied().unwrap_or(default_board()[index as usize]);
    f32::from_bits(word) as f64
}

fn words() -> [u32; PARAMETER_COUNT] {
    let mut words = [0_u32; PARAMETER_COUNT];
    for (index, word) in words.iter_mut().enumerate() {
        *word = 0x3f00_0000 ^ (index as u32 * 0x0101_0101);
    }
    words
}

#[test]
fn a_saved_block_loads_back_unchanged() {
    let words = words();
    let mut bytes = [0_u8; STATE_BYTES];
    assert_eq!(save_state(&words, &mut bytes), Some(STATE_BYTES));
    let restored = load_state(&bytes).expect("a whole block loads");
    assert_eq!(restored, words.to_vec());
}

#[test]
fn words_are_written_little_endian() {
    let mut words = [0_u32; PARAMETER_COUNT];
    words[0] = 0x3f80_0000;
    words[1] = 0x0403_0201;
    let mut bytes = [0xaa_u8; STATE_BYTES + 3];
    assert_eq!(save_state(&words, &mut bytes), Some(STATE_BYTES));
    assert_eq!(&bytes[..8], &[0x00, 0x00, 0x80, 0x3f, 0x01, 0x02, 0x03, 0x04]);
    // Nothing past the block is touched.
    assert_eq!(&bytes[STATE_BYTES..], &[0xaa, 0xaa, 0xaa]);
    assert_eq!(u32::from_le_bytes([bytes[4], bytes[5], bytes[6], bytes[7]]), words[1]);
}

#[test]
fn a_destination_too_small_is_refused_and_left_alone() {
    let mut bytes = [7_u8; STATE_BYTES - 1];
    assert_eq!(save_state(&words(), &mut bytes), None);
    assert!(bytes.iter().all(|byte| *byte == 7));
}

#[test]
fn a_block_from_an_earlier_layout_still_loads() {
    let words = words();
    let mut bytes = [0_u8; STATE_BYTES];
    save_state(&words, &mut bytes);
    let older = &bytes[..PREVIOUS_PARAMETER_COUNTS[0] * 4];
    let restored = load_state(older).expect("an earlier layout is a migration");
    assert_eq!(restored, words[..PREVIOUS_PARAMETER_COUNTS[0]].to_vec());
}

#[test]
fn a_length_belonging_to_no_layout_is_refused() {
    let mut bytes = [0_u8; STATE_BYTES];
    save_state(&words(), &mut bytes);
    assert!(load_state(&bytes[..STATE_BYTES - 8]).is_none());
    assert!(load_state(&bytes[..STATE_BYTES - 1]).is_none());
    assert!(load_state(&[]).is_none());
    let mut longer = bytes.to_vec();
    longer.extend_from_slice(&[0, 0, 0, 0]);
    assert!(load_state(&longer).is_none());
}

#[test]
fn state_round_trips_through_bytes() {
    let mut board = default_board();
    board[DRIVE_ENGAGED as usize] = 1.0_f32.to_bits();
    board[DRIVE_DRIVE as usize] = 0.77_f32.to_bits();
    board[DELAY_TIME as usize] = 512.0_f32.to_bits();
    let mut bytes = [0_u8; STATE_BYTES];
    assert_eq!(save_state(&board, &mut bytes), Some(STATE_BYTES));
    let restored = load_state(&bytes).expect("a whole block loads");
    assert_eq!(restored_value(&restored, DRIVE_DRIVE), 0.77_f32 as f64);
    assert_eq!(restored_value(&restored, DELAY_TIME), 512.0);
}

#[test]
fn a_state_block_from_an_earlier_build_still_loads() {
    let mut board = default_board();
    board[FUZZ_ENGAGED as usize] = 1.0_f32.to_bits();
    board[FUZZ_SUSTAIN as usize] = 0.9_f32.to_bits();
    let mut bytes = [0_u8; STATE_BYTES];
    assert_eq!(save_state(&board, &mut bytes), Some(STATE_BYTES));
    let older = &bytes[..PREVIOUS_PARAMETER_COUNTS[0] * 4];
    let restored = load_state(older).expect("an earlier layout is a migration");
    assert_eq!(restored_value(&restored, FUZZ_SUSTAIN), 0.9_f32 as f64);
    assert_eq!(restored_value(&restored, RIG_SOURCE), 0.0);
}

#[test]
fn state_survives_a_round_trip_through_the_host() {
    let mut board = default_board();
    board[DRIVE_ENGAGED as usize] = 1.0_f32.to_bits();
    board[DRIVE_DRIVE as usize] = 0.8_f32.to_bits();
    let mut bytes = [0_u8; STATE_BYTES];
    assert_eq!(save_state(&board, &mut bytes), Some(STATE_BYTES));
    let restored = load_state(&bytes).expect("a whole block loads");
    assert_eq!(restored_value(&restored, DRIVE_ENGAGED), 1.0);
    assert_eq!(restored_value(&restored, DRIVE_DRIVE), 0.8_f32 as f64);
    let older = load_state(&bytes[..STATE_BYTES - 4]).expect("an earlier layout is a migration");
    assert_eq!(restored_value(&older, RIG_SOURCE), 0.0);
    assert!(load_state(&bytes[..STATE_BYTES - 8]).is_none());
    assert!(load_state(&bytes[..STATE_BYTES - 1]).is_none());
}

#[test]
fn a_restore_keeps_the_defaults_of_what_the_block_predates() {
    let defaults = default_board();
    let verdicts: Vec<Option<u32>> = (0..PREVIOUS_PARAMETER_COUNTS[0] as u32).map(|index| Some(index)).collect();
    let block = restore_block(&verdicts, &defaults).expect("every value was accepted");
    for index in 0..PREVIOUS_PARAMETER_COUNTS[0] {
        assert_eq!(block[index], index as u32);
    }
    assert_eq!(block[RIG_SOURCE as usize], defaults[RIG_SOURCE as usize]);
    assert_eq!(restore_block(&[], &defaults), Some(defaults));
}

#[test]
fn one_refused_value_refuses_the_whole_block() {
    let defaults = default_board();
    let mut verdicts: Vec<Option<u32>> = defaults.iter().map(|word| Some(*word)).collect();
    verdicts[DELAY_TIME as usize] = None;
    assert_eq!(restore_block(&verdicts, &defaults), None);
    let mut longer: Vec<Option<u32>> = defaults.iter().map(|word| Some(*word)).collect();
    longer.push(Some(0));
    assert_eq!(restore_block(&longer, &defaults), None);
}
