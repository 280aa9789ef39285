use rf_rig::dsp::{engaged_chain, EchoMode, ReverbMode, SourceKind};

#[test]
fn the_first_choice_of_each_mode_is_the_analog_circuit() {
    assert_eq!(EchoMode::from_selection(0), EchoMode::Analog);
    assert_eq!(EchoMode::from_selection(1), EchoMode::Digital);
    assert_eq!(ReverbMode::from_selection(0), ReverbMode::Spring);
    assert_eq!(ReverbMode::from_selection(1), ReverbMode::Plate);
    assert_eq!(EchoMode::default(), EchoMode::Analog);
    assert_eq!(ReverbMode::default(), ReverbMode::Spring);
}

#[test]
fn the_source_selector_names_what_is_plugged_in() {
    assert_eq!(SourceKind::from_selection(0), SourceKind::Buffered);
    assert_eq!(SourceKind::from_selection(1), SourceKind::SingleCoil);
    assert_eq!(SourceKind::from_selection(2), SourceKind::Humbucker);
    assert_eq!(SourceKind::from_selection(9), SourceKind::Buffered);
}

#[test]
fn the_signal_path_keeps_only_engaged_pedals_in_chain_order() {
    let order = [5, 0, 1, 2, 3, 4, 6];
    let engaged = [true, false, false, true, false, true, false];
    let (path, count) = engaged_chain(&order, &engaged);
    assert_eq!(&path[..count], &[5, 0, 3]);
    let (_, count) = engaged_chain(&order, &[false; 7]);
    assert_eq!(count, 0);
    let (path, count) = engaged_chain(&order, &[true; 7]);
    assert_eq!(&path[..count], &order);
}
