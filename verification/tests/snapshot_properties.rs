use sail_iceberg::error::EngineError;
use sail_iceberg::snapshot_properties::{
    extract_snapshot_properties, insert_snapshot_properties, parse_expected_snapshot_id,
    parse_optional_expected_snapshot_id, strip_snapshot_property_prefix,
    validate_snapshot_properties, validate_snapshot_property_key, DataSourceError, KeyFault,
    Operation, OptionLayer, SnapshotPropertyError, Summary,
};

fn direct(items: &[(&str, &str)]) -> OptionLayer {
    OptionLayer::OptionList { items: pairs(items) }
}

fn pairs(items: &[(&str, &str)]) -> Vec<(String, String)> {
    items.iter().map(|(key, value)| ((*key).to_string(), (*value).to_string())).collect()
}

#[test]
fn extraction_is_case_insensitive_only_for_the_prefix_and_preserves_bytes() {
    let inherited = || OptionLayer::TablePropertyList {
        items: pairs(&[("snapshot-property.inherited", "must-not-propagate")]),
    };
    let options = vec![
        inherited(),
        direct(&[
            ("SnApShOt-PrOpErTy.Hoist.ID", " Value "),
            ("snapshot-property.hoist.id", ""),
        ]),
    ];

    let (clean, properties) = extract_snapshot_properties(options).expect("valid properties");

    assert_eq!(
        properties,
        vec![
            ("Hoist.ID".to_string(), " Value ".to_string()),
            ("hoist.id".to_string(), String::new()),
        ]
    );
    assert_eq!(clean[0], inherited());
    assert_eq!(clean[1], direct(&[]));
}

#[test]
fn extraction_rejects_empty_whitespace_reserved_and_duplicate_suffixes() {
    for key in [
        "snapshot-property.",
        "snapshot-property. ",
        "snapshot-property. leading",
        "snapshot-property.trailing ",
        "snapshot-property.OpErAtIoN",
        "snapshot-property.Partitions.region",
        "snapshot-property.total-position-deletes",
        "snapshot-property.total-equality-deletes",
    ] {
        let error = extract_snapshot_properties(vec![direct(&[(key, "value")])])
            .expect_err("invalid snapshot property key must fail");
        assert!(
            error.message().contains("cannot") || error.message().contains("reserved"),
            "unexpected error for {key}: {}",
            error.message()
        );
    }

    let error = extract_snapshot_properties(vec![
        direct(&[("snapshot-property.hoist.id", "one")]),
        direct(&[("SNAPSHOT-PROPERTY.hoist.id", "two")]),
    ])
    .expect_err("byte-identical suffix duplicates must fail");
    assert!(error.message().contains("duplicate"));
    assert_eq!(
        error.message(),
        "Error during planning: duplicate Iceberg snapshot property key `hoist.id` has conflicting values `one` and `two`"
    );
}

#[test]
fn validation_requires_canonical_byte_order() {
    let error = validate_snapshot_properties(&pairs(&[("z", "first"), ("A", "second")]))
        .expect_err("noncanonical order must fail");
    assert!(error.message().contains("canonical key order"));

    validate_snapshot_properties(&pairs(&[("A", "first"), ("z", "second")]))
        .expect("byte-sorted properties are canonical");
}

#[test]
fn insertion_rejects_engine_collision_without_overwriting_it() {
    let mut summary = Summary::new(Operation::Append);
    summary.additional_properties.insert("hoist.id".to_string(), "engine".to_string());

    let error = insert_snapshot_properties(&mut summary, &pairs(&[("hoist.id", "caller")]))
        .expect_err("engine collision must fail");

    assert!(error.message().contains("collides"));
    assert_eq!(summary.additional_properties.get("hoist.id"), Some(&"engine".to_string()));
}

#[test]
fn expected_snapshot_id_parser_distinguishes_absence_from_explicit_invalid_values() {
    assert_eq!(
        parse_optional_expected_snapshot_id("caller-expected-snapshot-id", "")
            .expect("generated default is absence"),
        None
    );
    assert_eq!(
        parse_expected_snapshot_id("expected-snapshot-id", "42")
            .expect("positive decimal snapshot id"),
        Some(42)
    );
    for value in ["", " ", "0", "-1", "+1", "1 ", "1.0", "１２"] {
        assert!(
            parse_expected_snapshot_id("expected-snapshot-id", value).is_err(),
            "explicit value {value:?} must fail"
        );
    }
}

#[test]
fn snapshot_ids_end_at_the_largest_signed_value() {
    assert_eq!(parse_expected_snapshot_id("k", "9223372036854775807"), Ok(Some(i64::MAX)));
    assert_eq!(parse_expected_snapshot_id("k", "0009"), Ok(Some(9)));
    assert_eq!(
        parse_expected_snapshot_id("k", "9223372036854775808"),
        Err(DataSourceError::InvalidOption {
            key: "k".to_string(),
            value: "9223372036854775808".to_string(),
            cause: None,
        })
    );
    assert!(parse_optional_expected_snapshot_id("k", "99999999999999999999999").is_err());
}

#[test]
fn prefix_is_stripped_and_the_rest_kept() {
    assert_eq!(strip_snapshot_property_prefix("SNAPSHOT-property.Ünïcode"), Some("Ünïcode"));
    assert_eq!(strip_snapshot_property_prefix("snapshot-propert"), None);
    assert_eq!(strip_snapshot_property_prefix("snapshot_property.x"), None);
}

#[test]
fn key_faults_are_told_apart() {
    assert_eq!(
        validate_snapshot_property_key("\u{2003}"),
        Err(SnapshotPropertyError::Key { fault: KeyFault::Empty, key: "\u{2003}".to_string() }
            .plan_error())
    );
    assert_eq!(
        validate_snapshot_property_key("a\u{a0}").expect_err("trailing space").message(),
        "Error during planning: Iceberg snapshot property key `a\u{a0}` cannot have leading or trailing whitespace"
    );
    assert_eq!(
        validate_snapshot_property_key("ADDED-records").expect_err("reserved").message(),
        "Error during planning: Iceberg snapshot property key `ADDED-records` is reserved"
    );
    assert_eq!(
        validate_snapshot_properties(&pairs(&[("a", "1"), ("a", "1")]))
            .expect_err("duplicate")
            .message(),
        "Error during planning: duplicate Iceberg snapshot property key `a`"
    );
    assert_eq!(
        validate_snapshot_property_key("").expect_err("empty").message(),
        "Error during planning: Iceberg snapshot property key cannot be empty"
    );
}

#[test]
fn extracted_properties_are_found_in_the_summary() {
    let (clean, properties) = extract_snapshot_properties(vec![direct(&[
        ("write.x", "kept"),
        ("snapshot-property.b", "2"),
        ("snapshot-property.a", "1"),
    ]), OptionLayer::Other("as of".to_string())])
    .expect("valid");
    assert_eq!(clean, vec![direct(&[("write.x", "kept")]), OptionLayer::Other("as of".to_string())]);
    assert_eq!(properties, pairs(&[("a", "1"), ("b", "2")]));
    let mut summary = Summary::new(Operation::Overwrite);
    summary.additional_properties.insert("added-records".to_string(), "3".to_string());
    insert_snapshot_properties(&mut summary, &properties).expect("no collision");
    for (key, value) in [("added-records", "3"), ("a", "1"), ("b", "2")] {
        assert_eq!(summary.additional_properties.get(key), Some(&value.to_string()));
    }
    assert_eq!(summary.operation, Operation::Overwrite);
}

#[test]
fn faults_of_properties_are_errors_of_planning() {
    let key_fault = validate_snapshot_property_key("operation").expect_err("reserved");
    let order = validate_snapshot_properties(&pairs(&[("b", ""), ("a", "")])).expect_err("order");
    let twice = extract_snapshot_properties(vec![direct(&[
        ("snapshot-property.a", "1"),
        ("snapshot-property.a", "1"),
    ])])
    .expect_err("twice");
    let mut summary = Summary::new(Operation::Append);
    summary.additional_properties.insert("a".to_string(), "1".to_string());
    let taken = insert_snapshot_properties(&mut summary, &pairs(&[("a", "2")])).expect_err("taken");
    let unusable = insert_snapshot_properties(&mut summary, &pairs(&[(" ", "2")])).expect_err("key");
    for (error, text) in [
        (key_fault, "Iceberg snapshot property key `operation` is reserved"),
        (order, "Iceberg snapshot properties are not in canonical key order"),
        (twice, "duplicate Iceberg snapshot property key `a` has conflicting values `1` and `1`"),
        (
            taken,
            "Iceberg snapshot property key `a` collides with engine summary value `1` instead of caller value `2`",
        ),
        (unusable, "Iceberg snapshot property key cannot be empty"),
    ] {
        assert_eq!(error, EngineError::Plan(text.to_string()));
    }
    assert!(validate_snapshot_property_key("partitions").is_ok());
    assert!(validate_snapshot_property_key("PARTITIONS.").is_err());
}
