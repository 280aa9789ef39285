use rf_rig::contract::{parameters, Kind, PARAMETER_COUNT};
use rf_rig::pedal::{chain_order, pedals, PEDAL_COUNT};

/// The position every pedal starts at, read from the contract.
fn default_positions() -> [i64; PEDAL_COUNT] {
    let table = parameters();
    let mut positions = [0_i64; PEDAL_COUNT];
    for (slot, pedal) in pedals().iter().enumerate() {
        match table[pedal.position as usize].kind {
            Kind::Integer { default, .. } => positions[slot] = default as i64,
            _ => panic!("{} has no position", pedal.id),
        }
    }
    positions
}

#[test]
fn every_parameter_belongs_to_the_rig_page_or_to_exactly_one_pedal() {
    let pedals = pedals();
    for spec in parameters().iter() {
        if spec.page == "rig" {
            continue;
        }
        let owners = pedals
            .iter()
            .filter(|pedal| {
                pedal.engaged == spec.index
                    || pedal.position == spec.index
                    || pedal.controls.contains(&spec.index)
            })
            .count();
        assert_eq!(owners, 1, "{} is owned by {owners} pedals", spec.id);
    }
}

#[test]
fn pedal_parameter_indexes_stay_inside_the_contract() {
    let table = parameters();
    for pedal in pedals().iter() {
        assert!((pedal.engaged as usize) < PARAMETER_COUNT);
        assert!((pedal.position as usize) < PARAMETER_COUNT);
        assert_eq!(table[pedal.engaged as usize].page, pedal.page);
        for control in pedal.controls {
            assert_eq!(table[*control as usize].page, pedal.page);
        }
    }
}

#[test]
fn default_positions_produce_the_declaration_order() {
    assert_eq!(chain_order(&default_positions()), [0, 1, 2, 3, 4, 5, 6]);
}

#[test]
fn moving_the_delay_to_the_front_reorders_the_chain() {
    let mut positions = default_positions();
    // The compressor already sits at position 1, so the delay has to take
    // that slot and push the compressor back for the move to be unambiguous.
    positions[5] = 1;
    positions[0] = 2;
    let order = chain_order(&positions);
    assert_eq!(order, [5, 0, 1, 2, 3, 4, 6]);
}

#[test]
fn a_tie_keeps_the_earlier_pedal_first() {
    let mut positions = default_positions();
    // Delay onto the compressor's slot, without moving the compressor.
    positions[5] = 1;
    let order = chain_order(&positions);
    assert_eq!(order, [0, 5, 1, 2, 3, 4, 6]);
}

#[test]
fn colliding_positions_fall_back_to_declaration_order() {
    let positions = [3_i64; PEDAL_COUNT];
    assert_eq!(chain_order(&positions), [0, 1, 2, 3, 4, 5, 6]);
}

#[test]
fn a_reversed_board_runs_backwards() {
    let positions = [7, 6, 5, 4, 3, 2, 1];
    assert_eq!(chain_order(&positions), [6, 5, 4, 3, 2, 1, 0]);
}

#[test]
fn the_reverb_moved_to_the_front_leads_the_chain() {
    let mut positions = default_positions();
    positions[6] = 1;
    positions[0] = 2;
    assert_eq!(chain_order(&positions)[0], 6);
}

#[test]
fn every_pedal_owns_a_footswitch_and_a_slot() {
    let table = parameters();
    for (slot, pedal) in pedals().iter().enumerate() {
        assert!(matches!(table[pedal.engaged as usize].kind, Kind::Boolean { default: false }));
        match table[pedal.position as usize].kind {
            Kind::Integer { minimum, maximum, default } => {
                assert_eq!((minimum, maximum), (1, PEDAL_COUNT as i32));
                assert_eq!(default as usize, slot + 1);
            }
            _ => panic!("{} has no position", pedal.id),
        }
    }
}
