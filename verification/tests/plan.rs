use sail_iceberg::commit_exec::{DisplayFormatType, IcebergCommitExec};
use sail_iceberg::plan_builder::{
    add_sort_node, CatalogPartitionField, IcebergPlanBuilder, IcebergTableConfig, IcebergWriterExecOptions,
    InputPlan, PhysicalSinkMode, SortKey,
};
use sail_iceberg::table::{LakehouseExecutionContext, SnapshotUpdateKind};

fn field(column: &str) -> CatalogPartitionField {
    CatalogPartitionField { column: column.to_string(), expression: format!("bucket(4, {column})") }
}

fn config(columns: &[&str], table_exists: bool) -> IcebergTableConfig<u8> {
    IcebergTableConfig {
        table_url: "file:///t/".to_string(),
        partition_columns: columns.iter().map(|column| field(column)).collect(),
        table_exists,
        options: IcebergWriterExecOptions {
            lakehouse_table: Some(LakehouseExecutionContext {
                catalog_table: vec!["t".to_string()],
                details: String::new(),
            }),
            writing: 9,
        },
    }
}

fn input(partition_count: usize) -> InputPlan<&'static str> {
    InputPlan {
        plan: "scan",
        columns: ["id", "day", "region"].iter().map(|name| name.to_string()).collect(),
        partition_count,
    }
}

#[test]
fn plan_spreads_sorts_writes_and_commits() {
    let builder = IcebergPlanBuilder::new(
        input(2),
        config(&["region", "day", "region"], true),
        PhysicalSinkMode::<u8>::OverwritePartitions,
        Some(vec!["user order"]),
        8,
    )
    .with_expected_snapshot_id(Some(None))
    .with_removed_data_file_paths(vec!["old".to_string()])
    .with_dynamic_partition_overwrite(true);
    let commit = builder.build().expect("plan");
    let rows = &commit.input().input;
    assert_eq!(rows.repartition, Some(8));
    assert_eq!(
        rows.sort_keys,
        vec![
            SortKey::Column { name: "region".to_string(), index: 2 },
            SortKey::Column { name: "day".to_string(), index: 1 },
            SortKey::User("user order"),
        ]
    );
    assert_eq!(rows.input.plan, "scan");
    assert_eq!(commit.input().table_config.options.writing, 9);
    assert_eq!(commit.table_url(), "file:///t/");
    assert_eq!(commit.snapshot_update_kind(), SnapshotUpdateKind::CopyOnWrite);
    assert_eq!(commit.expected_snapshot_id(), Some(None));
    assert_eq!(commit.removed_data_file_paths(), ["old".to_string()]);
    assert!(commit.dynamic_partition_overwrite());
    assert_eq!(commit.caller_expected_snapshot_id(), None);
    assert!(commit.snapshot_properties().is_empty());
    assert_eq!(commit.lakehouse_table().map(|table| table.catalog_table.len()), Some(1));
}

#[test]
fn nothing_is_added_where_nothing_is_needed() {
    let builder: IcebergPlanBuilder<&str, u8, u8, &str> =
        IcebergPlanBuilder::new(input(1), config(&[], true), PhysicalSinkMode::Other("append"), None, 0);
    let commit = builder.build().expect("plan");
    assert_eq!(commit.input().input.repartition, None);
    assert!(commit.input().input.sort_keys.is_empty());
}

#[test]
fn unknown_partition_columns_are_refused() {
    let builder: IcebergPlanBuilder<&str, u8, u8, &str> = IcebergPlanBuilder::new(
        input(1),
        config(&["day", "Day", "x"], true),
        PhysicalSinkMode::Other("append"),
        None,
        1,
    );
    let error = match builder.build() {
        Ok(_) => panic!("must fail"),
        Err(error) => error,
    };
    assert_eq!(
        error.message(),
        "Error during planning: Partition column 'bucket(4, Day)' not found in schema"
    );
}

#[test]
fn sink_mode_decides_how_files_change() {
    for (exists, mode, kind) in [
        (true, PhysicalSinkMode::Overwrite, SnapshotUpdateKind::FullOverwrite),
        (true, PhysicalSinkMode::OverwriteIf("id > 3"), SnapshotUpdateKind::CopyOnWrite),
        (true, PhysicalSinkMode::OverwritePartitions, SnapshotUpdateKind::CopyOnWrite),
        (true, PhysicalSinkMode::Other("append"), SnapshotUpdateKind::FastAppend),
        (false, PhysicalSinkMode::Overwrite, SnapshotUpdateKind::FastAppend),
        (false, PhysicalSinkMode::OverwriteIf("id > 3"), SnapshotUpdateKind::FastAppend),
    ] {
        let builder: IcebergPlanBuilder<&str, u8, u8, &str> =
            IcebergPlanBuilder::new(input(1), config(&[], exists), mode, None, 1);
        assert_eq!(builder.build().expect("plan").snapshot_update_kind(), kind);
    }
}

fn node() -> IcebergCommitExec<u8> {
    IcebergCommitExec::new(1, "file:///t/".to_string(), None, SnapshotUpdateKind::FastAppend)
}

#[test]
fn node_is_shown_with_its_table() {
    assert_eq!(
        node().fmt_as(DisplayFormatType::Default),
        "IcebergCommitExec(table_path=file:///t/)"
    );
    assert_eq!(
        node().fmt_as(DisplayFormatType::Verbose),
        "IcebergCommitExec(table_path=file:///t/)"
    );
    assert_eq!(
        node().fmt_as(DisplayFormatType::TreeRender),
        "format: iceberg\ntable_path=file:///t/"
    );
}

#[test]
fn node_takes_exactly_one_child() {
    let moved = node()
        .with_snapshot_properties(vec![("a".to_string(), "b".to_string())])
        .with_new_children(vec![2])
        .expect("one child");
    assert_eq!(*moved.input(), 2);
    assert_eq!(moved.snapshot_properties().len(), 1);
    for children in [vec![], vec![1, 2]] {
        let error = node().with_new_children(children).expect_err("one child");
        assert!(error.message().starts_with(
            "Internal error: IcebergCommitExec requires exactly one child."
        ));
    }
}

#[test]
fn node_runs_only_as_it_should() {
    let text = |partition: usize, inputs: usize, node: IcebergCommitExec<u8>| {
        match node.execute(partition, inputs) {
            Ok(_) => "runs".to_string(),
            Err(error) => error.message(),
        }
    };
    assert_eq!(text(0, 1, node()), "runs");
    assert!(text(1, 1, node()).contains("can only be executed in a single partition"));
    assert!(text(0, 12, node()).contains("requires exactly one input partition, got 12."));
    assert_eq!(
        text(0, 1, node().with_caller_expected_snapshot_id(Some(0))),
        "Error during planning: Iceberg expected snapshot ID must be a positive integer"
    );
    assert_eq!(
        text(0, 1, node().with_snapshot_properties(vec![("operation".to_string(), String::new())])),
        "Error during planning: Iceberg snapshot property key `operation` is reserved"
    );
}

#[test]
fn sort_names_the_first_missing_column() {
    let fields = ["day", "x", "region", "y"].iter().map(|column| field(column)).collect();
    let error = add_sort_node::<&str, u8>(&input(1), &fields, None).expect_err("x is missing");
    assert_eq!(
        error.message(),
        "Error during planning: Partition column 'x' not found in schema"
    );
}

#[test]
fn writer_gets_the_mode_of_the_caller() {
    for mode in [
        || PhysicalSinkMode::OverwriteIf("id > 3"),
        || PhysicalSinkMode::Other("error if exists"),
        || PhysicalSinkMode::Overwrite,
    ] {
        let builder: IcebergPlanBuilder<&str, u8, u8, &str> =
            IcebergPlanBuilder::new(input(1), config(&[], true), mode(), None, 1);
        assert_eq!(builder.build().expect("plan").input().sink_mode, mode());
    }
}
