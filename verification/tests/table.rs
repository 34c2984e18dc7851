use sail_iceberg::error::EngineError;
use sail_iceberg::live_files::dynamic_partition_overwrite_paths;
use sail_iceberg::requirements::{
    add_requirement, caller_expected_snapshot_requirement, expected_snapshot_requirement,
    validate_requirements,
};
use sail_iceberg::table::{
    DataContentType, DataFile, FormatVersion, Literal, PartitionField, PartitionSpec,
    PrimitiveLiteral, Schema, Snapshot, SnapshotReference, SnapshotUpdateKind, TableMetadata,
    TableRequirement, TableUpdate, Transform, UnboundPartitionField, UnboundPartitionSpec,
};
use sail_iceberg::table_changes::{
    apply_partition_spec_update, apply_schema_update, apply_snapshot_updates, evolve,
    validate_scoped_overwrite_format,
};
use sail_iceberg::text_map::TextMap;

fn table_metadata_at_snapshot(snapshot_id: Option<i64>) -> TableMetadata {
    TableMetadata {
        format_version: FormatVersion::V2,
        table_uuid: None,
        last_sequence_number: 2,
        last_updated_ms: 0,
        last_column_id: 0,
        schemas: vec![],
        current_schema_id: 0,
        partition_specs: vec![],
        default_spec_id: 0,
        last_partition_id: 0,
        current_snapshot_id: snapshot_id,
        snapshots: vec![],
        snapshot_log: vec![],
        metadata_log: vec![],
        default_sort_order_id: None,
        properties: TextMap::new(),
        refs: TextMap::new(),
    }
}

fn schema(schema_id: i32, highest_field_id: i32, format_version: FormatVersion) -> Schema {
    Schema { schema_id, highest_field_id, format_version, definition: String::new() }
}

fn partitioned_data_file(path: &str, spec_id: i32, value: i32) -> DataFile {
    DataFile {
        content: DataContentType::Data,
        file_path: path.to_string(),
        partition_spec_id: spec_id,
        partition: vec![Some(Literal::Primitive(PrimitiveLiteral::Int(value)))],
        record_count: 1,
        file_size_in_bytes: 1,
        sort_order_id: None,
        details: String::new(),
    }
}

fn identity_partition_spec() -> PartitionSpec {
    PartitionSpec {
        spec_id: 3,
        fields: vec![PartitionField {
            source_id: 2,
            field_id: 1000,
            name: "part".to_string(),
            transform: Transform::Identity,
        }],
        last_assigned_field_id: 1000,
    }
}

fn unpartitioned() -> PartitionSpec {
    PartitionSpec { spec_id: 0, fields: vec![], last_assigned_field_id: 999 }
}

#[test]
fn scoped_overwrite_rejects_effective_v3_after_schema_evolution() {
    let schema = schema(1, 1, FormatVersion::V3);
    let effective = FormatVersion::V2.max(schema.format_version);
    assert_eq!(effective, FormatVersion::V3);

    for mode in ["predicate", "dynamic"] {
        let error = validate_scoped_overwrite_format(SnapshotUpdateKind::CopyOnWrite, effective)
            .expect_err(mode);
        assert!(error.message().contains("v3 scoped overwrite"), "{mode}");
    }
    assert!(validate_scoped_overwrite_format(SnapshotUpdateKind::FullOverwrite, effective).is_ok());
}

#[test]
fn dynamic_partition_overwrite_removes_only_touched_live_partitions() {
    let spec = identity_partition_spec();
    let added = vec![partitioned_data_file("new-2.parquet", 3, 2)];
    let live = vec![
        partitioned_data_file("old-1.parquet", 3, 1),
        partitioned_data_file("old-2.parquet", 3, 2),
        partitioned_data_file("old-3.parquet", 3, 3),
    ];
    let paths =
        dynamic_partition_overwrite_paths(&added, &live, &spec).expect("dynamic overwrite paths");
    assert_eq!(paths, vec!["old-2.parquet"]);
}

#[test]
fn dynamic_partition_overwrite_rejects_mismatched_partition_spec() {
    let spec = identity_partition_spec();
    let added = vec![partitioned_data_file("new.parquet", 4, 2)];
    let error = dynamic_partition_overwrite_paths(&added, &[], &spec)
        .expect_err("mismatched spec must fail");
    assert!(error.message().contains("default Iceberg partition spec 3"));
    let fitting = vec![partitioned_data_file("new.parquet", 3, 2)];
    let error = dynamic_partition_overwrite_paths(&fitting, &added, &spec)
        .expect_err("live files of another spec must fail");
    assert_eq!(
        error.message(),
        "This feature is not implemented: dynamic partition overwrite is not supported for Iceberg tables with incomparable live partition specs"
    );
}

#[test]
fn empty_dynamic_overwrite_produces_no_removal_paths() {
    let spec = identity_partition_spec();
    let paths = dynamic_partition_overwrite_paths(
        &[],
        &[partitioned_data_file("old.parquet", 3, 1)],
        &spec,
    )
    .expect("empty dynamic overwrite");
    assert!(paths.is_empty());
}

#[test]
fn removal_paths_are_sorted_and_distinct() {
    let spec = identity_partition_spec();
    let added = vec![partitioned_data_file("new.parquet", 3, 2)];
    let live = vec![
        partitioned_data_file("b", 3, 2),
        partitioned_data_file("a", 3, 2),
        partitioned_data_file("b", 3, 2),
        partitioned_data_file("Z", 3, 2),
    ];
    assert_eq!(
        dynamic_partition_overwrite_paths(&added, &live, &spec),
        Ok(vec!["Z".to_string(), "a".to_string(), "b".to_string()])
    );
}

#[test]
fn partitions_are_told_apart_by_type_and_value() {
    let spec = identity_partition_spec();
    let file = |path: &str, value: Option<PrimitiveLiteral>| {
        let mut file = partitioned_data_file(path, 3, 0);
        file.partition = vec![value.map(Literal::Primitive)];
        file
    };
    let live = vec![
        file("int", Some(PrimitiveLiteral::Int(1))),
        file("long", Some(PrimitiveLiteral::Long(1))),
        file("null", None),
        file("text", Some(PrimitiveLiteral::String("1".to_string()))),
        file("bytes", Some(PrimitiveLiteral::Binary(vec![1, 2]))),
        file("true", Some(PrimitiveLiteral::Boolean(true))),
        file("float", Some(PrimitiveLiteral::Float(1))),
        file("double", Some(PrimitiveLiteral::Double(1))),
        file("i128", Some(PrimitiveLiteral::Int128(1))),
        file("u128", Some(PrimitiveLiteral::UInt128(1))),
    ];
    for index in 0..live.len() {
        let path = live[index].file_path.clone();
        let value = match path.as_str() {
            "int" => Some(PrimitiveLiteral::Int(1)),
            "long" => Some(PrimitiveLiteral::Long(1)),
            "null" => None,
            "text" => Some(PrimitiveLiteral::String("1".to_string())),
            "bytes" => Some(PrimitiveLiteral::Binary(vec![1, 2])),
            "true" => Some(PrimitiveLiteral::Boolean(true)),
            "float" => Some(PrimitiveLiteral::Float(1)),
            "double" => Some(PrimitiveLiteral::Double(1)),
            "i128" => Some(PrimitiveLiteral::Int128(1)),
            _ => Some(PrimitiveLiteral::UInt128(1)),
        };
        let added = vec![file("new", value)];
        assert_eq!(dynamic_partition_overwrite_paths(&added, &live, &spec), Ok(vec![path]));
    }
}

#[test]
fn planned_delete_snapshot_requirement_rejects_concurrent_branch_advance() {
    let mut metadata = table_metadata_at_snapshot(Some(1));
    let requirement = expected_snapshot_requirement(Some(metadata.current_snapshot_id))
        .expect("DELETE must capture its read snapshot");
    metadata.current_snapshot_id = Some(2);
    let error = validate_requirements(Some(&metadata), &[requirement])
        .expect_err("planned snapshot 1 must conflict with current snapshot 2");
    assert!(error.message().contains("expected snapshot Some(1)"));
    assert!(error.message().contains("found Some(2)"));
}

#[test]
fn empty_read_snapshot_requirement_preserves_none() {
    let requirement = expected_snapshot_requirement(Some(None))
        .expect("planned empty snapshot must produce a requirement");
    assert!(validate_requirements(
        Some(&table_metadata_at_snapshot(None)),
        std::slice::from_ref(&requirement),
    )
    .is_ok());
    assert!(
        validate_requirements(Some(&table_metadata_at_snapshot(Some(2))), &[requirement]).is_err()
    );
}

fn refusal(meta: Option<&TableMetadata>, requirement: TableRequirement) -> String {
    match validate_requirements(meta, &[requirement]) {
        Ok(()) => "met".to_string(),
        Err(EngineError::Plan(text)) => text,
        Err(other) => other.message(),
    }
}

#[test]
fn every_requirement_has_its_message() {
    let mut meta = table_metadata_at_snapshot(Some(-1));
    meta.last_column_id = 5;
    meta.last_partition_id = 1001;
    meta.default_spec_id = 7;
    meta.table_uuid = Some(0x0123_4567_89ab_cdef_0123_4567_89ab_cdef);
    meta.refs.insert(
        "audit".to_string(),
        SnapshotReference { snapshot_id: 4, retention: String::new() },
    );
    let reference = |name: &str, id: Option<i64>| TableRequirement::RefSnapshotIdMatch {
        reference: name.to_string(),
        snapshot_id: id,
    };
    for (requirement, missing, mismatch) in [
        (
            TableRequirement::UuidMatch { uuid: 1 },
            "Iceberg table metadata missing while validating UUID requirement",
            "Iceberg commit failed: expected table UUID 00000000-0000-0000-0000-000000000001 but found Some(01234567-89ab-cdef-0123-456789abcdef). Reload table metadata and retry.",
        ),
        (
            reference("audit", None),
            "Iceberg table metadata missing while validating snapshot requirement",
            "Iceberg commit failed: reference 'audit' expected snapshot None but found Some(4)",
        ),
        (
            TableRequirement::LastAssignedFieldIdMatch { last_assigned_field_id: -6 },
            "Iceberg table metadata missing while validating field id requirement",
            "Iceberg commit failed: expected last assigned field id -6 but found 5. Reload table metadata and retry.",
        ),
        (
            TableRequirement::CurrentSchemaIdMatch { current_schema_id: 1 },
            "Iceberg table metadata missing while validating schema requirement",
            "Iceberg commit failed: expected current schema id 1 but found 0. Reload table metadata and retry.",
        ),
        (
            TableRequirement::LastAssignedPartitionIdMatch { last_assigned_partition_id: 1000 },
            "Iceberg table metadata missing while validating partition id requirement",
            "Iceberg commit failed: expected last assigned partition id 1000 but found 1001. Reload table metadata and retry.",
        ),
        (
            TableRequirement::DefaultSpecIdMatch { default_spec_id: 0 },
            "Iceberg table metadata missing while validating partition spec requirement",
            "Iceberg commit failed: expected default partition spec id 0 but found 7. Reload table metadata and retry.",
        ),
        (
            TableRequirement::DefaultSortOrderIdMatch { default_sort_order_id: 1 },
            "Iceberg table metadata missing while validating sort order requirement",
            "Iceberg commit failed: expected default sort order id 1 but found 0. Reload table metadata and retry.",
        ),
    ] {
        match validate_requirements(None, std::slice::from_ref(&requirement)) {
            Err(EngineError::Plan(text)) => assert_eq!(text, missing),
            other => panic!("unexpected {other:?}"),
        }
        assert_eq!(refusal(Some(&meta), requirement), mismatch);
    }
    assert_eq!(
        refusal(Some(&meta), TableRequirement::NotExist),
        "Iceberg table already exists but commit asserted non-existence."
    );
    assert_eq!(refusal(None, TableRequirement::NotExist), "met");
    assert_eq!(refusal(Some(&meta), reference("main", None)), "met");
    assert_eq!(refusal(Some(&meta), reference("audit", Some(4))), "met");
    assert_eq!(
        refusal(Some(&meta), TableRequirement::DefaultSortOrderIdMatch { default_sort_order_id: 0 }),
        "met"
    );
    meta.table_uuid = None;
    assert_eq!(
        refusal(Some(&meta), TableRequirement::UuidMatch { uuid: 1 }),
        "Iceberg commit failed: expected table UUID 00000000-0000-0000-0000-000000000001 but found None. Reload table metadata and retry."
    );
}

#[test]
fn requirements_are_added_once() {
    let mut requirements = vec![];
    add_requirement(&mut requirements, expected_snapshot_requirement(Some(Some(4))));
    add_requirement(&mut requirements, caller_expected_snapshot_requirement(Some(4)));
    add_requirement(&mut requirements, caller_expected_snapshot_requirement(None));
    assert_eq!(requirements.len(), 1);
    add_requirement(&mut requirements, caller_expected_snapshot_requirement(Some(5)));
    assert_eq!(requirements.len(), 2);
}

#[test]
fn evolution_tells_the_catalog_what_changed() {
    let mut meta = table_metadata_at_snapshot(None);
    meta.schemas = vec![schema(0, 3, FormatVersion::V1)];
    meta.partition_specs =
        vec![PartitionSpec { spec_id: 2, fields: vec![], last_assigned_field_id: 999 }];
    meta.default_spec_id = 2;
    meta.last_column_id = 9;
    let mut spec = identity_partition_spec();
    spec.spec_id = 0;
    let evolution =
        evolve(meta, &Some(schema(1, 4, FormatVersion::V3)), &Some(spec), &unpartitioned()).expect("evolution");
    assert_eq!(
        evolution.updates,
        vec![
            TableUpdate::UpgradeFormatVersion { format_version: FormatVersion::V3 },
            TableUpdate::AddSchema { schema: Box::new(schema(1, 4, FormatVersion::V3)) },
            TableUpdate::SetCurrentSchema { schema_id: 1 },
        ]
    );
    assert_eq!(evolution.metadata.last_column_id, 9);
    assert_eq!(evolution.metadata.last_partition_id, 1000);
    assert_eq!(evolution.metadata.schemas.len(), 2);
    assert_eq!(evolution.metadata.partition_specs.len(), 1);
    assert_eq!(evolution.metadata.partition_specs[0].fields.len(), 1);
    assert_eq!(evolution.partition_spec.spec_id, 2);

    let mut meta = table_metadata_at_snapshot(None);
    meta.schemas = vec![schema(0, 3, FormatVersion::V1)];
    let evolution = evolve(meta, &None, &Some(identity_partition_spec()), &unpartitioned()).expect("evolution");
    assert_eq!(
        evolution.updates,
        vec![
            TableUpdate::AddSpec {
                spec: UnboundPartitionSpec {
                    fields: vec![UnboundPartitionField {
                        source_id: 2,
                        name: "part".to_string(),
                        transform: Transform::Identity,
                    }],
                },
            },
            TableUpdate::SetDefaultSpec { spec_id: 3 },
        ]
    );
    let error = match evolve(table_metadata_at_snapshot(None), &None, &None, &unpartitioned()) {
        Ok(_) => panic!("a table without a schema must fail"),
        Err(error) => error,
    };
    assert_eq!(error.message(), "Error during planning: No current schema in table metadata");
}

#[test]
fn snapshot_updates_leave_a_trail() {
    let mut meta = table_metadata_at_snapshot(Some(1));
    meta.last_updated_ms = 100;
    let updates = vec![
        TableUpdate::AddSnapshot {
            snapshot: Snapshot {
                snapshot_id: 8,
                sequence_number: 3,
                added_rows: Some(12),
                manifest_list: "list".to_string(),
                details: String::new(),
            },
        },
        TableUpdate::SetSnapshotRef {
            ref_name: "main".to_string(),
            reference: SnapshotReference { snapshot_id: 8, retention: String::new() },
        },
        TableUpdate::Other("ignored".to_string()),
    ];
    let rows = apply_snapshot_updates(&mut meta, &updates, 200, "metadata/v1.json".to_string());
    assert_eq!(rows, Some(12));
    assert_eq!(meta.current_snapshot_id, Some(8));
    assert_eq!(meta.last_sequence_number, 3);
    assert_eq!(meta.last_updated_ms, 200);
    assert_eq!(meta.snapshot_log.len(), 1);
    assert_eq!(meta.snapshot_log[0].timestamp_ms, 200);
    assert_eq!(meta.metadata_log.len(), 1);
    assert_eq!(meta.metadata_log[0].timestamp_ms, 100);
    assert_eq!(meta.metadata_log[0].metadata_file, "metadata/v1.json");
    assert_eq!(meta.refs.get("main").map(|reference| reference.snapshot_id), Some(8));
    assert_eq!(meta.current_snapshot().map(|snapshot| snapshot.sequence_number), Some(3));
}

#[test]
fn files_follow_the_spec_that_is_there() {
    let with_schema = || {
        let mut meta = table_metadata_at_snapshot(None);
        meta.schemas = vec![schema(0, 3, FormatVersion::V1)];
        meta.default_spec_id = 3;
        meta
    };
    let evolution = evolve(with_schema(), &None, &None, &unpartitioned()).expect("evolution");
    assert_eq!(evolution.partition_spec, unpartitioned());
    assert!(evolution.updates.is_empty());
    let mut meta = with_schema();
    meta.partition_specs = vec![identity_partition_spec()];
    let evolution = evolve(meta, &None, &None, &unpartitioned()).expect("evolution");
    assert_eq!(evolution.partition_spec, identity_partition_spec());
}

#[test]
fn updates_made_twice_change_nothing_more() {
    let mut meta = table_metadata_at_snapshot(None);
    for _ in 0..2 {
        apply_schema_update(&mut meta, schema(4, 6, FormatVersion::V3));
        apply_partition_spec_update(&mut meta, identity_partition_spec());
        assert_eq!(meta.schemas, vec![schema(4, 6, FormatVersion::V3)]);
        assert_eq!(meta.partition_specs, vec![identity_partition_spec()]);
        assert_eq!((meta.current_schema_id, meta.last_column_id), (4, 6));
        assert_eq!((meta.default_spec_id, meta.last_partition_id), (3, 1000));
    }
}
