use rf_rig::manifest::parse;

#[test]
fn the_top_level_table_gives_the_identity() {
    let text = "id = \"com.example.rf-rig\"\nversion = \"0.1.0\"\nstate_version = 2\n\n[package]\nid = \"ignored\"\n";
    let identity = parse(text).expect("a complete manifest");
    assert_eq!(identity.id, "com.example.rf-rig");
    assert_eq!(identity.version, "0.1.0");
    assert_eq!(identity.state_version, 2);
}

#[test]
fn fields_after_the_first_section_are_not_read() {
    let text = "id = \"a\"\n[section]\nversion = \"1\"\nstate_version = 1\n";
    assert_eq!(parse(text).err(), Some("the manifest has no version".to_string()));
}

#[test]
fn each_missing_field_is_named() {
    assert_eq!(parse("").err(), Some("the manifest has no id".to_string()));
    assert_eq!(parse("id = x\n").err(), Some("the manifest has no version".to_string()));
    assert_eq!(
        parse("id = x\nversion = y").err(),
        Some("the manifest has no state_version".to_string())
    );
    // A state version that is not a number counts as missing.
    assert_eq!(
        parse("id = x\nversion = y\nstate_version = two").err(),
        Some("the manifest has no state_version".to_string())
    );
}

#[test]
fn white_space_quotes_and_line_endings_are_trimmed() {
    let text = "  # a comment line\r\n\tid=\"\"quoted\"\"\r\nversion =   1.2.3  \r\nstate_version=+7\r\nname = other\r\n";
    let identity = parse(text).expect("a complete manifest");
    assert_eq!(identity.id, "quoted");
    assert_eq!(identity.version, "1.2.3");
    assert_eq!(identity.state_version, 7);
}

#[test]
fn a_later_line_replaces_an_earlier_one() {
    let text = "id = first\nid = second\nversion = v\nstate_version = 3\nstate_version = 4\n";
    let identity = parse(text).unwrap();
    assert_eq!(identity.id, "second");
    assert_eq!(identity.state_version, 4);
}
