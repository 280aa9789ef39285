use rf_rig::contract::{pages, parameters, Control, Kind, PARAMETER_COUNT};
use rf_rig::index::{
    CHORUS_DEPTH, CHORUS_ENGAGED, CHORUS_MIX, CHORUS_POSITION, CHORUS_RATE, COMP_ATTACK, COMP_ENGAGED,
    COMP_LEVEL, COMP_POSITION, COMP_SUSTAIN, DELAY_ENGAGED, DELAY_FEEDBACK, DELAY_MIX, DELAY_MODE,
    DELAY_POSITION, DELAY_TIME, DELAY_WIDTH, DIST_DISTORTION, DIST_ENGAGED, DIST_LEVEL, DIST_POSITION,
    DIST_TONE, DRIVE_DRIVE, DRIVE_ENGAGED, DRIVE_LEVEL, DRIVE_POSITION, DRIVE_TONE, FUZZ_ENGAGED,
    FUZZ_POSITION, FUZZ_SUSTAIN, FUZZ_TONE, FUZZ_VOLUME, REVERB_DECAY, REVERB_ENGAGED, REVERB_MIX,
    REVERB_MODE, REVERB_POSITION, REVERB_TONE, RIG_GATE, RIG_INPUT, RIG_OUTPUT, RIG_SOURCE,
};

fn identifier(index: u32) -> &'static str {
    parameters()[index as usize].id
}

#[test]
fn every_name_points_at_the_parameter_it_claims() {
    assert_eq!(identifier(RIG_INPUT), "rig.input");
    assert_eq!(identifier(RIG_OUTPUT), "rig.output");
    assert_eq!(identifier(RIG_GATE), "rig.gate");
    assert_eq!(identifier(RIG_SOURCE), "rig.source");
    assert_eq!(identifier(COMP_ENGAGED), "comp.engaged");
    assert_eq!(identifier(COMP_POSITION), "comp.position");
    assert_eq!(identifier(COMP_SUSTAIN), "comp.sustain");
    assert_eq!(identifier(COMP_ATTACK), "comp.attack");
    assert_eq!(identifier(COMP_LEVEL), "comp.level");
    assert_eq!(identifier(DRIVE_ENGAGED), "drive.engaged");
    assert_eq!(identifier(DRIVE_POSITION), "drive.position");
    assert_eq!(identifier(DRIVE_DRIVE), "drive.drive");
    assert_eq!(identifier(DRIVE_TONE), "drive.tone");
    assert_eq!(identifier(DRIVE_LEVEL), "drive.level");
    assert_eq!(identifier(DIST_ENGAGED), "dist.engaged");
    assert_eq!(identifier(DIST_POSITION), "dist.position");
    assert_eq!(identifier(DIST_DISTORTION), "dist.distortion");
    assert_eq!(identifier(DIST_TONE), "dist.tone");
    assert_eq!(identifier(DIST_LEVEL), "dist.level");
    assert_eq!(identifier(FUZZ_ENGAGED), "fuzz.engaged");
    assert_eq!(identifier(FUZZ_POSITION), "fuzz.position");
    assert_eq!(identifier(FUZZ_SUSTAIN), "fuzz.sustain");
    assert_eq!(identifier(FUZZ_TONE), "fuzz.tone");
    assert_eq!(identifier(FUZZ_VOLUME), "fuzz.volume");
    assert_eq!(identifier(CHORUS_ENGAGED), "chorus.engaged");
    assert_eq!(identifier(CHORUS_POSITION), "chorus.position");
    assert_eq!(identifier(CHORUS_RATE), "chorus.rate");
    assert_eq!(identifier(CHORUS_DEPTH), "chorus.depth");
    assert_eq!(identifier(CHORUS_MIX), "chorus.mix");
    assert_eq!(identifier(DELAY_ENGAGED), "delay.engaged");
    assert_eq!(identifier(DELAY_POSITION), "delay.position");
    assert_eq!(identifier(DELAY_TIME), "delay.time");
    assert_eq!(identifier(DELAY_FEEDBACK), "delay.feedback");
    assert_eq!(identifier(DELAY_MIX), "delay.mix");
    assert_eq!(identifier(DELAY_MODE), "delay.mode");
    assert_eq!(identifier(DELAY_WIDTH), "delay.width");
    assert_eq!(identifier(REVERB_ENGAGED), "reverb.engaged");
    assert_eq!(identifier(REVERB_POSITION), "reverb.position");
    assert_eq!(identifier(REVERB_DECAY), "reverb.decay");
    assert_eq!(identifier(REVERB_TONE), "reverb.tone");
    assert_eq!(identifier(REVERB_MIX), "reverb.mix");
    assert_eq!(identifier(REVERB_MODE), "reverb.mode");
}

#[test]
fn every_parameter_declares_its_own_index_and_a_known_page() {
    let pages = pages();
    for (position, spec) in parameters().iter().enumerate() {
        assert_eq!(spec.index as usize, position, "{}", spec.id);
        assert!(
            pages.iter().any(|page| page.id == spec.page),
            "{} refers to an undeclared page",
            spec.id
        );
    }
}

#[test]
fn parameter_identifiers_are_unique_and_host_legal() {
    let table = parameters();
    for (position, spec) in table.iter().enumerate() {
        assert!(
            spec.id.bytes().all(|byte| byte.is_ascii_lowercase()
                || byte.is_ascii_digit()
                || b".-_".contains(&byte)),
            "{} is not a legal RackForge identifier",
            spec.id
        );
        for other in &table[position + 1..] {
            assert_ne!(spec.id, other.id);
        }
    }
}

#[test]
fn the_table_holds_every_parameter_and_the_pages_are_in_order() {
    assert_eq!(parameters().len(), PARAMETER_COUNT);
    let pages = pages();
    assert_eq!(pages.len(), 8);
    for (order, page) in pages.iter().enumerate() {
        assert_eq!(page.order as usize, order);
    }
    assert_eq!(pages[0].id, "rig");
    assert_eq!(pages[7].name, "Reverb");
}

#[test]
fn control_hints_carry_the_schema_names() {
    assert_eq!(Control::Knob.as_str(), "knob");
    assert_eq!(Control::Toggle.as_str(), "toggle");
    assert_eq!(Control::List.as_str(), "list");
}

#[test]
fn defaults_are_written_in_thousandths() {
    let table = parameters();
    assert_eq!(table[RIG_INPUT as usize].default_value(), 0);
    assert_eq!(table[DELAY_FEEDBACK as usize].default_value(), 350);
    assert_eq!(table[RIG_GATE as usize].default_value(), -90_000);
    assert_eq!(table[DELAY_TIME as usize].default_value(), 380_000);
    // Switches are off, positions count from one, selections from zero.
    assert_eq!(table[DRIVE_ENGAGED as usize].default_value(), 0);
    assert_eq!(table[FUZZ_POSITION as usize].default_value(), 4_000);
    assert_eq!(table[REVERB_MODE as usize].default_value(), 0);
}

#[test]
fn whole_values_are_checked_against_what_the_parameter_declares() {
    let table = parameters();
    let footswitch = &table[COMP_ENGAGED as usize];
    assert_eq!(footswitch.canonicalize_whole(0), Some(0));
    assert_eq!(footswitch.canonicalize_whole(1), Some(1));
    assert_eq!(footswitch.canonicalize_whole(2), None);
    assert_eq!(footswitch.canonicalize_whole(-1), None);

    let position = &table[DELAY_POSITION as usize];
    assert_eq!(position.canonicalize_whole(1), Some(1));
    assert_eq!(position.canonicalize_whole(7), Some(7));
    assert_eq!(position.canonicalize_whole(0), None);
    assert_eq!(position.canonicalize_whole(8), None);

    let mode = &table[DELAY_MODE as usize];
    assert_eq!(mode.canonicalize_whole(1), Some(1));
    assert_eq!(mode.canonicalize_whole(7), None);
    assert_eq!(mode.canonicalize_whole(-1), None);

    let source = &table[RIG_SOURCE as usize];
    assert_eq!(source.canonicalize_whole(2), Some(2));
    assert_eq!(source.canonicalize_whole(3), None);
    assert_eq!(source.page, "rig");
    assert!(matches!(source.kind, Kind::Enum { default: 0, .. }));

    // A continuous parameter has no whole-number verdict.
    assert_eq!(table[DRIVE_DRIVE as usize].canonicalize_whole(0), None);
    assert_eq!(table[DELAY_TIME as usize].canonicalize_whole(380), None);
}

#[test]
fn a_canonical_whole_value_is_accepted_again_unchanged() {
    for spec in parameters() {
        for whole in -2..10 {
            if let Some(canonical) = spec.canonicalize_whole(whole) {
                assert_eq!(spec.canonicalize_whole(canonical), Some(canonical), "{}", spec.id);
            }
        }
    }
}
