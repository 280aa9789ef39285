use rf_rig::contract::Kind;
use rf_rig::index::{DELAY_TIME, DRIVE_ENGAGED};
use rf_rig::lab::{next_value, parameter_index, split_assignment};
use rf_rig::metadata::{control, flags, page_header};
use rf_rig::contract::Control;

fn arguments(items: &[&str]) -> Vec<String> {
    items.iter().map(|item| item.to_string()).collect()
}

#[test]
fn an_option_takes_the_argument_after_it() {
    let arguments = arguments(&["--preset", "surf", "--out"]);
    assert_eq!(next_value(&arguments, 0, "--preset"), Ok("surf".to_string()));
    assert_eq!(next_value(&arguments, 2, "--out"), Err("--out needs a value".to_string()));
}

#[test]
fn an_assignment_splits_at_its_first_equals_sign() {
    assert_eq!(split_assignment("drive.drive=0.7"), Some(("drive.drive", "0.7")));
    assert_eq!(split_assignment("a=b=c"), Some(("a", "b=c")));
    assert_eq!(split_assignment("=1"), Some(("", "1")));
    assert_eq!(split_assignment("drive.drive"), None);
}

#[test]
fn a_parameter_is_named_by_identifier_or_by_index() {
    assert_eq!(parameter_index("drive.engaged"), Some(DRIVE_ENGAGED));
    assert_eq!(parameter_index("delay.time"), Some(DELAY_TIME));
    assert_eq!(parameter_index("30"), Some(30));
    assert_eq!(parameter_index("+7"), Some(7));
    // A number is an index as it stands; the engine refuses it later.
    assert_eq!(parameter_index("99"), Some(99));
    assert_eq!(parameter_index("-1"), None);
    assert_eq!(parameter_index("4294967296"), None);
    assert_eq!(parameter_index("no.such"), None);
    assert_eq!(parameter_index(""), None);
}

#[test]
fn the_schema_names_and_flags_each_parameter() {
    assert_eq!(control(Control::Knob), "knob");
    assert_eq!(control(Control::List), "list");
    let knob = flags(&Kind::Float { minimum: 0, maximum: 1000, default: 500, step: 1, unit: None });
    assert!(knob.automatable && knob.modulatable && !knob.read_only && !knob.advanced);
    let slot = flags(&Kind::Integer { minimum: 1, maximum: 7, default: 1 });
    assert!(!slot.modulatable && slot.advanced);
    let switch = flags(&Kind::Boolean { default: false });
    assert!(!switch.modulatable && !switch.advanced);
}

#[test]
fn a_pedal_page_carries_its_circuit_as_its_header() {
    assert_eq!(
        page_header("fuzz"),
        Some("Two cascaded feedback-clipping stages with a lowpass/highpass blend tone stack")
    );
    assert_eq!(page_header("rig"), None);
}
