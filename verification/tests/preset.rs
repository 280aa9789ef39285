use rf_rig::contract::{parameters, Kind, PARAMETER_COUNT};
use rf_rig::pedal::pedals;
use rf_rig::preset::{apply_assignments, preset, presets, PRESET_COUNT};

/// Whether the contract accepts `value` (in thousandths) for the parameter
/// at `index`.
fn accepted(index: u32, value: i32) -> bool {
    let table = parameters();
    let Some(spec) = table.get(index as usize) else {
        return false;
    };
    match spec.kind {
        Kind::Float { minimum, maximum, .. } => value >= minimum && value <= maximum,
        _ => value % 1000 == 0 && spec.canonicalize_whole(value as i64 / 1000).is_some(),
    }
}

#[test]
fn every_preset_is_inside_the_contract() {
    for preset in presets().iter() {
        for (index, value) in preset.values {
            assert!(
                (*index as usize) < PARAMETER_COUNT && accepted(*index, *value),
                "{} contains a value the contract rejects",
                preset.id
            );
        }
    }
}

#[test]
fn preset_identifiers_are_unique() {
    let table = presets();
    for (position, preset) in table.iter().enumerate() {
        for other in &table[position + 1..] {
            assert_ne!(preset.id, other.id);
        }
    }
}

#[test]
fn every_preset_turns_at_least_one_pedal_on() {
    let pedals = pedals();
    for preset in presets().iter() {
        let engaged = pedals
            .iter()
            .filter(|pedal| preset.values.iter().any(|(index, value)| *index == pedal.engaged && *value == 1000))
            .count();
        assert!(engaged > 0, "{} is a board with nothing on it", preset.id);
    }
}

#[test]
fn every_factory_preset_is_reachable_by_identifier() {
    for board in presets().iter() {
        let found = preset(board.id).expect("every factory board can be found");
        assert_eq!(found.id, board.id);
        assert_eq!(found.name, board.name);
    }
    assert!(preset("not-a-board").is_none());
}

#[test]
fn an_unknown_preset_is_refused() {
    assert!(preset("no-such-board").is_none());
    assert!(preset("").is_none());
    assert!(preset("surf ").is_none());
}

#[test]
fn the_catalog_holds_six_boards_in_order() {
    let table = presets();
    assert_eq!(table.len(), PRESET_COUNT);
    assert_eq!(table[0].id, "clean-board");
    assert_eq!(table[5].id, "ambient-wash");
    let fuzz = preset("fuzz-lead").unwrap();
    assert!(fuzz.values.contains(&(30, 420_000)));
}

#[test]
fn a_board_is_applied_over_the_defaults_or_refused_whole() {
    let defaults = [7_u32; PARAMETER_COUNT];
    let block = apply_assignments(&[(3, Some(1)), (10, Some(42)), (3, Some(0))], &defaults).expect("all accepted");
    assert_eq!(block[3], 0);
    assert_eq!(block[10], 42);
    assert_eq!(block[11], 7);
    assert_eq!(apply_assignments(&[], &defaults), Some(defaults));
    assert_eq!(apply_assignments(&[(3, Some(1)), (10, None)], &defaults), None);
    assert_eq!(apply_assignments(&[(PARAMETER_COUNT as u32, Some(1))], &defaults), None);
}
