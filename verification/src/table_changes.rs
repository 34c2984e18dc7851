//! Changes to the metadata of a table.
use vstd::prelude::*;

use crate::content::{optional_view, views, Content};
use crate::error::{not_implemented, plan_error, EngineError, EngineErrorView};
use crate::table::{
    FormatVersion, MetadataLog, PartitionFieldView, PartitionSpec, PartitionSpecView, Schema,
    SchemaView, Snapshot, SnapshotLog, SnapshotUpdateKind, SnapshotView, TableMetadata,
    TableMetadataView, TableUpdate, TableUpdateView, UnboundPartitionField,
    UnboundPartitionFieldView, UnboundPartitionSpec,
};

verus! {

/// The first schema with an ID stands at this place.
pub open spec fn first_schema(schemas: Seq<SchemaView>, schema_id: i32, i: int) -> bool {
    0 <= i < schemas.len() && schemas[i].schema_id == schema_id && forall|j: int|
        0 <= j < i ==> (#[trigger] schemas[j]).schema_id != schema_id
}

/// There is a schema with an ID.
pub open spec fn has_schema(schemas: Seq<SchemaView>, schema_id: i32) -> bool {
    exists|i: int| #[trigger] first_schema(schemas, schema_id, i)
}

/// The schemas with one put in the place of the first that has its ID, or at the end.
pub open spec fn put_schema(schemas: Seq<SchemaView>, schema: SchemaView) -> Seq<SchemaView> {
    if has_schema(schemas, schema.schema_id) {
        schemas.update(
            choose|i: int| #[trigger] first_schema(schemas, schema.schema_id, i),
            schema,
        )
    } else {
        schemas.push(schema)
    }
}

/// The first partition spec with an ID stands at this place.
pub open spec fn first_spec(specs: Seq<PartitionSpecView>, spec_id: i32, i: int) -> bool {
    0 <= i < specs.len() && specs[i].spec_id == spec_id && forall|j: int|
        0 <= j < i ==> (#[trigger] specs[j]).spec_id != spec_id
}

/// There is a partition spec with an ID.
pub open spec fn has_spec(specs: Seq<PartitionSpecView>, spec_id: i32) -> bool {
    exists|i: int| #[trigger] first_spec(specs, spec_id, i)
}

/// The partition specs with one put in the place of the first that has its ID, or at the end.
pub open spec fn put_spec(specs: Seq<PartitionSpecView>, spec: PartitionSpecView) -> Seq<
    PartitionSpecView,
> {
    if has_spec(specs, spec.spec_id) {
        specs.update(choose|i: int| #[trigger] first_spec(specs, spec.spec_id, i), spec)
    } else {
        specs.push(spec)
    }
}

/// The larger of two IDs.
pub open spec fn larger(a: i32, b: i32) -> i32 {
    if a >= b {
        a
    } else {
        b
    }
}

/// The metadata with a schema made the current one.
pub open spec fn with_schema(meta: TableMetadataView, schema: SchemaView) -> TableMetadataView {
    TableMetadataView {
        schemas: put_schema(meta.schemas, schema),
        current_schema_id: schema.schema_id,
        last_column_id: larger(meta.last_column_id, schema.highest_field_id),
        format_version: meta.format_version.later_of(schema.format_version),
        ..meta
    }
}

/// The metadata with a partition spec made the default one.
pub open spec fn with_spec(meta: TableMetadataView, spec: PartitionSpecView) -> TableMetadataView {
    TableMetadataView {
        partition_specs: put_spec(meta.partition_specs, spec),
        default_spec_id: spec.spec_id,
        last_partition_id: larger(meta.last_partition_id, spec.last_assigned_field_id),
        ..meta
    }
}

/// The schema that is current.
pub open spec fn current_schema(meta: TableMetadataView) -> Option<SchemaView> {
    if has_schema(meta.schemas, meta.current_schema_id) {
        Some(
            meta.schemas[choose|i: int| #[trigger]
                first_schema(meta.schemas, meta.current_schema_id, i)],
        )
    } else {
        None
    }
}

/// The partition spec that new files follow.
pub open spec fn default_spec(meta: TableMetadataView) -> Option<PartitionSpecView> {
    if has_spec(meta.partition_specs, meta.default_spec_id) {
        Some(
            meta.partition_specs[choose|i: int| #[trigger]
                first_spec(meta.partition_specs, meta.default_spec_id, i)],
        )
    } else {
        None
    }
}

/// The first snapshot with an ID stands at this place.
pub open spec fn first_snapshot(snapshots: Seq<SnapshotView>, snapshot_id: i64, i: int) -> bool {
    0 <= i < snapshots.len() && snapshots[i].snapshot_id == snapshot_id && forall|j: int|
        0 <= j < i ==> (#[trigger] snapshots[j]).snapshot_id != snapshot_id
}

/// The snapshot that is current.
pub open spec fn current_snapshot(meta: TableMetadataView) -> Option<SnapshotView> {
    match meta.current_snapshot_id {
        Some(id) => if exists|i: int| #[trigger] first_snapshot(meta.snapshots, id, i) {
            Some(meta.snapshots[choose|i: int| #[trigger] first_snapshot(meta.snapshots, id, i)])
        } else {
            None
        },
        None => None,
    }
}

fn find_schema(schemas: &Vec<Schema>, schema_id: i32) -> (r: Option<usize>)
    ensures
        r is Some <==> has_schema(views(schemas@), schema_id),
        r matches Some(i) ==> first_schema(views(schemas@), schema_id, i as int) && i as int == (
        choose|i: int| #[trigger] first_schema(views(schemas@), schema_id, i)),
{
    let ghost held = views(schemas@);
    let mut i: usize = 0;
    while i < schemas.len()
        invariant
            i <= schemas.len(),
            held == views(schemas@),
            forall|j: int| 0 <= j < i ==> (#[trigger] held[j]).schema_id != schema_id,
        decreases schemas.len() - i,
    {
        assert(held[i as int] == schemas@[i as int]@);
        if schemas[i].schema_id == schema_id {
            assert(first_schema(held, schema_id, i as int));
            assert forall|k: int| #[trigger] first_schema(held, schema_id, k) implies k == i by {
                if k < i {
                    assert(held[k].schema_id != schema_id);
                }
            }
            return Some(i);
        }
        i += 1;
    }
    None
}

fn find_spec(specs: &Vec<PartitionSpec>, spec_id: i32) -> (r: Option<usize>)
    ensures
        r is Some <==> has_spec(views(specs@), spec_id),
        r matches Some(i) ==> first_spec(views(specs@), spec_id, i as int) && i as int == (
        choose|i: int| #[trigger] first_spec(views(specs@), spec_id, i)),
{
    let ghost held = views(specs@);
    let mut i: usize = 0;
    while i < specs.len()
        invariant
            i <= specs.len(),
            held == views(specs@),
            forall|j: int| 0 <= j < i ==> (#[trigger] held[j]).spec_id != spec_id,
        decreases specs.len() - i,
    {
        assert(held[i as int] == specs@[i as int]@);
        if specs[i].spec_id == spec_id {
            assert(first_spec(held, spec_id, i as int));
            assert forall|k: int| #[trigger] first_spec(held, spec_id, k) implies k == i by {
                if k < i {
                    assert(held[k].spec_id != spec_id);
                }
            }
            return Some(i);
        }
        i += 1;
    }
    None
}

impl TableMetadata {
    /// The snapshot that is current.
    pub fn current_snapshot(&self) -> (r: Option<&Snapshot>)
        ensures
            match r {
                Some(snapshot) => current_snapshot(self@) == Some(snapshot@),
                None => current_snapshot(self@) is None,
            },
    {
        let id: i64 = match self.current_snapshot_id {
            Some(id) => id,
            None => return None,
        };
        let ghost held = views(self.snapshots@);
        let mut i: usize = 0;
        while i < self.snapshots.len()
            invariant
                i <= self.snapshots.len(),
                held == views(self.snapshots@),
                self.current_snapshot_id == Some(id),
                forall|j: int| 0 <= j < i ==> (#[trigger] held[j]).snapshot_id != id,
            decreases self.snapshots.len() - i,
        {
            assert(held[i as int] == self.snapshots@[i as int]@);
            if self.snapshots[i].snapshot_id == id {
                assert(first_snapshot(held, id, i as int));
                assert forall|k: int| #[trigger] first_snapshot(held, id, k) implies k == i by {
                    if k < i {
                        assert(held[k].snapshot_id != id);
                    }
                }
                return Some(&self.snapshots[i]);
            }
            i += 1;
        }
        None
    }

    /// The schema that is current.
    pub fn current_schema(&self) -> (r: Option<&Schema>)
        ensures
            match r {
                Some(schema) => current_schema(self@) == Some(schema@),
                None => current_schema(self@) is None,
            },
    {
        match find_schema(&self.schemas, self.current_schema_id) {
            Some(i) => Some(&self.schemas[i]),
            None => None,
        }
    }

    /// The partition spec that new files follow.
    pub fn default_partition_spec(&self) -> (r: Option<&PartitionSpec>)
        ensures
            match r {
                Some(spec) => default_spec(self@) == Some(spec@),
                None => default_spec(self@) is None,
            },
    {
        match find_spec(&self.partition_specs, self.default_spec_id) {
            Some(i) => Some(&self.partition_specs[i]),
            None => None,
        }
    }
}

/// Makes a schema the current one. It replaces the one that has its ID, if there is one.
pub fn apply_schema_update(table_meta: &mut TableMetadata, new_schema: Schema)
    ensures
        final(table_meta)@ == with_schema(old(table_meta)@, new_schema@),
{
    let ghost held = views(table_meta.schemas@);
    let schema_id: i32 = new_schema.schema_id;
    let highest_field_id: i32 = new_schema.highest_field_id;
    let format_version = new_schema.format_version;
    match find_schema(&table_meta.schemas, schema_id) {
        Some(i) => {
            table_meta.schemas.set(i, new_schema);
            assert(views(table_meta.schemas@) =~= held.update(i as int, new_schema@));
        },
        None => {
            table_meta.schemas.push(new_schema);
            assert(views(table_meta.schemas@) =~= held.push(new_schema@));
        },
    }
    table_meta.current_schema_id = schema_id;
    if highest_field_id > table_meta.last_column_id {
        table_meta.last_column_id = highest_field_id;
    }
    table_meta.format_version = table_meta.format_version.max(format_version);
}

/// Makes a partition spec the default one. It replaces the one that has its ID, if there is one.
pub fn apply_partition_spec_update(table_meta: &mut TableMetadata, new_spec: PartitionSpec)
    ensures
        final(table_meta)@ == with_spec(old(table_meta)@, new_spec@),
{
    let ghost held = views(table_meta.partition_specs@);
    let spec_id: i32 = new_spec.spec_id;
    let last_assigned_field_id: i32 = new_spec.last_assigned_field_id;
    match find_spec(&table_meta.partition_specs, spec_id) {
        Some(i) => {
            table_meta.partition_specs.set(i, new_spec);
            assert(views(table_meta.partition_specs@) =~= held.update(i as int, new_spec@));
        },
        None => {
            table_meta.partition_specs.push(new_spec);
            assert(views(table_meta.partition_specs@) =~= held.push(new_spec@));
        },
    }
    table_meta.default_spec_id = spec_id;
    if last_assigned_field_id > table_meta.last_partition_id {
        table_meta.last_partition_id = last_assigned_field_id;
    }
}

/// A partition field without its ID.
pub open spec fn unbound_field(field: PartitionFieldView) -> UnboundPartitionFieldView {
    UnboundPartitionFieldView {
        source_id: field.source_id,
        name: field.name,
        transform: field.transform,
    }
}

/// The fields of a partition spec without their IDs.
pub open spec fn unbound_fields(spec: PartitionSpecView) -> Seq<UnboundPartitionFieldView> {
    Seq::new(spec.fields.len(), |i: int| unbound_field(spec.fields[i]))
}

/// A partition spec without the IDs that the catalog is to give.
pub fn unbound_partition_spec(spec: &PartitionSpec) -> (r: UnboundPartitionSpec)
    ensures
        r@ == unbound_fields(spec@),
{
    let mut fields: Vec<UnboundPartitionField> = Vec::new();
    let mut i: usize = 0;
    while i < spec.fields.len()
        invariant
            i <= spec.fields.len(),
            fields.len() == i,
            forall|j: int|
                0 <= j < i ==> (#[trigger] fields@[j])@ == unbound_field(spec.fields@[j]@),
        decreases spec.fields.len() - i,
    {
        fields.push(
            UnboundPartitionField {
                source_id: spec.fields[i].source_id,
                name: spec.fields[i].name.clone(),
                transform: spec.fields[i].transform,
            },
        );
        i += 1;
    }
    let r = UnboundPartitionSpec { fields };
    assert(r@ =~= unbound_fields(spec@));
    r
}

/// A commit of this kind is refused for tables of this version.
pub open spec fn scoped_overwrite_refused(
    kind: SnapshotUpdateKind,
    format_version: FormatVersion,
) -> bool {
    kind.copy_on_write() && format_version == FormatVersion::V3
}

/// The error of a commit that is refused for the version of its table.
pub open spec fn scoped_overwrite_error() -> EngineErrorView {
    EngineErrorView::NotImplemented(
        "Iceberg v3 scoped overwrite is not supported until row lineage is preserved"@,
    )
}

/// Refuses to replace single files of a table that keeps the lineage of its rows.
pub fn validate_scoped_overwrite_format(
    snapshot_update_kind: SnapshotUpdateKind,
    format_version: FormatVersion,
) -> (r: Result<(), EngineError>)
    ensures
        r is Ok <==> !scoped_overwrite_refused(snapshot_update_kind, format_version),
        r matches Err(e) ==> e@ == scoped_overwrite_error(),
{
    if snapshot_update_kind.is_copy_on_write() && matches!(format_version, FormatVersion::V3) {
        return Err(
            not_implemented(
                "Iceberg v3 scoped overwrite is not supported until row lineage is preserved",
            ),
        );
    }
    Ok(())
}

/// What a new schema adds to the changes that a catalog is told of.
pub open spec fn schema_changes(meta: TableMetadataView, schema: Option<SchemaView>) -> Seq<
    TableUpdateView,
> {
    match schema {
        Some(schema) => {
            let added: Seq<TableUpdateView> = if has_schema(meta.schemas, schema.schema_id) {
                seq![]
            } else {
                seq![TableUpdateView::AddSchema { schema }]
            };
            let set: Seq<TableUpdateView> = if meta.current_schema_id == schema.schema_id {
                seq![]
            } else {
                seq![TableUpdateView::SetCurrentSchema { schema_id: schema.schema_id }]
            };
            added + set
        },
        None => seq![],
    }
}

/// The partition spec that a commit brings takes the ID of the default one where it has ID 0.
pub open spec fn numbered_spec(meta: TableMetadataView, spec: PartitionSpecView) -> PartitionSpecView {
    if spec.spec_id == 0 {
        PartitionSpecView { spec_id: meta.default_spec_id, ..spec }
    } else {
        spec
    }
}

/// What a new partition spec adds to the changes that a catalog is told of.
pub open spec fn spec_changes(meta: TableMetadataView, spec: Option<PartitionSpecView>) -> Seq<
    TableUpdateView,
> {
    match spec {
        Some(spec) => {
            let numbered = numbered_spec(meta, spec);
            let added: Seq<TableUpdateView> = if has_spec(
                meta.partition_specs,
                numbered.spec_id,
            ) {
                seq![]
            } else {
                seq![TableUpdateView::AddSpec { spec: unbound_fields(numbered) }]
            };
            let set: Seq<TableUpdateView> = if meta.default_spec_id == numbered.spec_id {
                seq![]
            } else {
                seq![TableUpdateView::SetDefaultSpec { spec_id: numbered.spec_id }]
            };
            added + set
        },
        None => seq![],
    }
}

/// The metadata after the schema that a commit brings.
pub open spec fn after_schema(
    meta: TableMetadataView,
    schema: Option<SchemaView>,
) -> TableMetadataView {
    match schema {
        Some(schema) => with_schema(meta, schema),
        None => meta,
    }
}

/// The metadata after the partition spec that a commit brings.
pub open spec fn after_spec(
    meta: TableMetadataView,
    spec: Option<PartitionSpecView>,
) -> TableMetadataView {
    match spec {
        Some(spec) => with_spec(meta, numbered_spec(meta, spec)),
        None => meta,
    }
}

/// The partition spec that the files of a commit follow: the one that it brings, or else the default
/// one, or else that of a table without partitions.
pub open spec fn spec_for_commit(
    meta: TableMetadataView,
    spec: Option<PartitionSpecView>,
    unpartitioned: PartitionSpecView,
) -> PartitionSpecView {
    match spec {
        Some(spec) => numbered_spec(meta, spec),
        None => match default_spec(meta) {
            Some(default) => default,
            None => unpartitioned,
        },
    }
}

/// The metadata after the schema and the partition spec that a commit brings, before the version
/// is raised to what the current schema needs.
pub open spec fn after_both(
    meta: TableMetadataView,
    schema: Option<SchemaView>,
    spec: Option<PartitionSpecView>,
) -> TableMetadataView {
    after_spec(after_schema(meta, schema), spec)
}

/// The metadata that a commit with this schema and this partition spec starts from.
pub open spec fn evolved(
    meta: TableMetadataView,
    schema: Option<SchemaView>,
    spec: Option<PartitionSpecView>,
) -> TableMetadataView {
    let both = after_both(meta, schema, spec);
    TableMetadataView {
        format_version: both.format_version.later_of(current_schema(both)->0.format_version),
        ..both
    }
}

/// The changes that lead from the metadata to what a commit starts from.
pub open spec fn evolution_changes(
    meta: TableMetadataView,
    schema: Option<SchemaView>,
    spec: Option<PartitionSpecView>,
) -> Seq<TableUpdateView> {
    let after = evolved(meta, schema, spec);
    let upgrade: Seq<TableUpdateView> = if after.format_version.rank()
        > meta.format_version.rank() {
        seq![TableUpdateView::UpgradeFormatVersion { format_version: after.format_version }]
    } else {
        seq![]
    };
    upgrade + (schema_changes(meta, schema) + spec_changes(after_schema(meta, schema), spec))
}

/// The metadata that a commit starts from, and how it was changed for that.
pub struct Evolution {
    pub metadata: TableMetadata,
    /// The changes, as a catalog is told of them.
    pub updates: Vec<TableUpdate>,
    /// The partition spec that the files of the commit follow.
    pub partition_spec: PartitionSpec,
}

fn evolve_schema(
    table_meta: &mut TableMetadata,
    updates: &mut Vec<TableUpdate>,
    schema: &Option<Schema>,
)
    ensures
        final(table_meta)@ == after_schema(old(table_meta)@, optional_view(*schema)),
        views(final(updates)@) == views(old(updates)@) + schema_changes(
            old(table_meta)@,
            optional_view(*schema),
        ),
{
    let ghost before = views(updates@);
    match schema {
        Some(new_schema) => {
            let schema_id: i32 = new_schema.schema_id;
            let should_add_schema = find_schema(&table_meta.schemas, schema_id).is_none();
            let should_set_current_schema: bool = table_meta.current_schema_id != schema_id;
            apply_schema_update(table_meta, new_schema.copy());
            if should_add_schema {
                updates.push(TableUpdate::AddSchema { schema: Box::new(new_schema.copy()) });
            }
            if should_set_current_schema {
                updates.push(TableUpdate::SetCurrentSchema { schema_id });
            }
        },
        None => {},
    }
    assert(views(updates@) =~= before + schema_changes(
        old(table_meta)@,
        optional_view(*schema),
    ));
}

fn evolve_spec(
    table_meta: &mut TableMetadata,
    updates: &mut Vec<TableUpdate>,
    spec: &Option<PartitionSpec>,
    unpartitioned: &PartitionSpec,
) -> (r: PartitionSpec)
    ensures
        final(table_meta)@ == after_spec(old(table_meta)@, optional_view(*spec)),
        views(final(updates)@) == views(old(updates)@) + spec_changes(
            old(table_meta)@,
            optional_view(*spec),
        ),
        r@ == spec_for_commit(old(table_meta)@, optional_view(*spec), unpartitioned@),
{
    let ghost before = views(updates@);
    let r = match spec {
        Some(new_spec) => {
            let mut spec = new_spec.copy();
            if spec.spec_id == 0 && table_meta.default_spec_id != 0 {
                spec.spec_id = table_meta.default_spec_id;
            }
            let spec_id: i32 = spec.spec_id;
            assert(spec@ == numbered_spec(table_meta@, new_spec@));
            let should_add_spec = find_spec(&table_meta.partition_specs, spec_id).is_none();
            let should_set_default_spec: bool = table_meta.default_spec_id != spec_id;
            apply_partition_spec_update(table_meta, spec.copy());
            if should_add_spec {
                updates.push(TableUpdate::AddSpec { spec: unbound_partition_spec(&spec) });
            }
            if should_set_default_spec {
                updates.push(TableUpdate::SetDefaultSpec { spec_id });
            }
            spec
        },
        None => match table_meta.default_partition_spec() {
            Some(spec) => spec.copy(),
            None => unpartitioned.copy(),
        },
    };
    assert(views(updates@) =~= before + spec_changes(old(table_meta)@, optional_view(*spec)));
    r
}

/// Brings the metadata to the schema, the partition spec and the version that a commit needs. The
/// partition spec of tables without partitions is given, for a table that has no default one.
pub fn evolve(
    metadata: TableMetadata,
    schema: &Option<Schema>,
    partition_spec: &Option<PartitionSpec>,
    unpartitioned: &PartitionSpec,
) -> (r: Result<Evolution, EngineError>)
    ensures
        r is Ok <==> current_schema(
            after_both(metadata@, optional_view(*schema), optional_view(*partition_spec)),
        ) is Some,
        r matches Ok(evolution) ==> {
            &&& evolution.metadata@ == evolved(
                metadata@,
                optional_view(*schema),
                optional_view(*partition_spec),
            )
            &&& views(evolution.updates@) == evolution_changes(
                metadata@,
                optional_view(*schema),
                optional_view(*partition_spec),
            )
            &&& evolution.partition_spec@ == spec_for_commit(
                after_schema(metadata@, optional_view(*schema)),
                optional_view(*partition_spec),
                unpartitioned@,
            )
        },
        r matches Err(e) ==> e@ == EngineErrorView::Plan("No current schema in table metadata"@),
{
    let mut table_meta = metadata;
    let ghost before = table_meta@;
    let original_format_version = table_meta.format_version;
    let mut updates: Vec<TableUpdate> = Vec::new();
    evolve_schema(&mut table_meta, &mut updates, schema);
    let spec_of_commit = evolve_spec(
        &mut table_meta,
        &mut updates,
        partition_spec,
        unpartitioned,
    );
    let schema_version = match table_meta.current_schema() {
        Some(schema) => schema.format_version,
        None => return Err(plan_error("No current schema in table metadata")),
    };
    let ghost changes = schema_changes(before, optional_view(*schema)) + spec_changes(
        after_schema(before, optional_view(*schema)),
        optional_view(*partition_spec),
    );
    assert(views(updates@) =~= changes);
    table_meta.format_version = table_meta.format_version.max(schema_version);
    if table_meta.format_version.number() > original_format_version.number() {
        let upgrade = TableUpdate::UpgradeFormatVersion {
            format_version: table_meta.format_version,
        };
        updates.insert(0, upgrade);
        assert(views(updates@) =~= seq![upgrade@] + changes);
    } else {
        assert(views(updates@) =~= seq![] + changes);
    }
    Ok(Evolution { metadata: table_meta, updates, partition_spec: spec_of_commit })
}

/// The newest of the snapshots that the changes add.
pub open spec fn newest_added(updates: Seq<TableUpdateView>) -> Option<SnapshotView>
    decreases updates.len(),
{
    if updates.len() == 0 {
        None
    } else {
        match updates.last() {
            TableUpdateView::AddSnapshot { snapshot } => Some(snapshot),
            _ => newest_added(updates.drop_last()),
        }
    }
}

/// The metadata with one change to its snapshots made. Other changes leave it as it is.
pub open spec fn with_snapshot_change(
    meta: TableMetadataView,
    update: TableUpdateView,
    timestamp_ms: i64,
) -> TableMetadataView {
    match update {
        TableUpdateView::AddSnapshot { snapshot } => TableMetadataView {
            snapshots: meta.snapshots.push(snapshot),
            current_snapshot_id: Some(snapshot.snapshot_id),
            snapshot_log: meta.snapshot_log.push(
                SnapshotLog { timestamp_ms, snapshot_id: snapshot.snapshot_id },
            ),
            ..meta
        },
        TableUpdateView::SetSnapshotRef { ref_name, reference } => TableMetadataView {
            refs: meta.refs.insert(ref_name, reference),
            ..meta
        },
        _ => meta,
    }
}

/// The metadata with the changes to its snapshots made one after the other.
pub open spec fn with_snapshot_changes(
    meta: TableMetadataView,
    updates: Seq<TableUpdateView>,
    timestamp_ms: i64,
) -> TableMetadataView
    decreases updates.len(),
{
    if updates.len() == 0 {
        meta
    } else {
        with_snapshot_change(
            with_snapshot_changes(meta, updates.drop_last(), timestamp_ms),
            updates.last(),
            timestamp_ms,
        )
    }
}

/// The metadata that a commit publishes: the changes of its snapshot, the sequence number, the
/// time, and the file that it follows.
pub open spec fn next_metadata(
    meta: TableMetadataView,
    updates: Seq<TableUpdateView>,
    timestamp_ms: i64,
    previous_file: Seq<char>,
) -> TableMetadataView {
    let changed = with_snapshot_changes(meta, updates, timestamp_ms);
    TableMetadataView {
        last_sequence_number: match newest_added(updates) {
            Some(snapshot) => if snapshot.sequence_number > meta.last_sequence_number {
                snapshot.sequence_number
            } else {
                meta.last_sequence_number
            },
            None => meta.last_sequence_number,
        },
        last_updated_ms: timestamp_ms,
        metadata_log: meta.metadata_log.push((meta.last_updated_ms, previous_file)),
        ..changed
    }
}

/// How many rows the newest of the added snapshots adds, where that is known.
pub open spec fn rows_added(updates: Seq<TableUpdateView>) -> Option<i64> {
    match newest_added(updates) {
        Some(snapshot) => snapshot.added_rows,
        None => None,
    }
}

proof fn lemma_snapshot_changes_keep(
    meta: TableMetadataView,
    updates: Seq<TableUpdateView>,
    timestamp_ms: i64,
)
    ensures
        with_snapshot_changes(meta, updates, timestamp_ms).last_sequence_number
            == meta.last_sequence_number,
        with_snapshot_changes(meta, updates, timestamp_ms).metadata_log == meta.metadata_log,
    decreases updates.len(),
{
    if updates.len() > 0 {
        lemma_snapshot_changes_keep(meta, updates.drop_last(), timestamp_ms);
    }
}

fn apply_snapshot_change(table_meta: &mut TableMetadata, update: &TableUpdate, timestamp_ms: i64)
    ensures
        final(table_meta)@ == with_snapshot_change(old(table_meta)@, update@, timestamp_ms),
{
    let ghost before = table_meta@;
    match update {
        TableUpdate::AddSnapshot { snapshot } => {
            let added = snapshot.copy();
            let snapshot_id: i64 = added.snapshot_id;
            table_meta.snapshots.push(added);
            table_meta.current_snapshot_id = Some(snapshot_id);
            table_meta.snapshot_log.push(SnapshotLog { timestamp_ms, snapshot_id });
            assert(views(table_meta.snapshots@) =~= before.snapshots.push(snapshot@));
        },
        TableUpdate::SetSnapshotRef { ref_name, reference } => {
            table_meta.refs.insert(ref_name.clone(), reference.copy());
            assert(table_meta@.refs =~= before.refs.insert(ref_name@, reference@));
        },
        _ => {},
    }
}

/// Makes the changes of a new snapshot. What comes back is how many rows the snapshot adds, where
/// that is known.
pub fn apply_snapshot_updates(
    table_meta: &mut TableMetadata,
    updates: &Vec<TableUpdate>,
    timestamp_ms: i64,
    previous_file: String,
) -> (added_rows: Option<i64>)
    ensures
        final(table_meta)@ == next_metadata(
            old(table_meta)@,
            views(updates@),
            timestamp_ms,
            previous_file@,
        ),
        added_rows == rows_added(views(updates@)),
{
    let ghost before = table_meta@;
    let ghost changes = views(updates@);
    let previous_metadata_timestamp_ms: i64 = table_meta.last_updated_ms;
    let mut newest_snapshot_seq: Option<i64> = None;
    let mut newest_snapshot_added_rows: Option<i64> = None;
    let mut i: usize = 0;
    assert(changes.take(0) =~= seq![]);
    while i < updates.len()
        invariant
            i <= updates.len(),
            changes == views(updates@),
            table_meta@ == with_snapshot_changes(before, changes.take(i as int), timestamp_ms),
            newest_snapshot_added_rows == rows_added(changes.take(i as int)),
            newest_snapshot_seq == (match newest_added(changes.take(i as int)) {
                Some(snapshot) => Some(snapshot.sequence_number),
                None => None,
            }),
        decreases updates.len() - i,
    {
        proof {
            assert(changes.take(i + 1).drop_last() =~= changes.take(i as int));
            assert(changes.take(i + 1).last() == updates@[i as int]@);
        }
        match &updates[i] {
            TableUpdate::AddSnapshot { snapshot } => {
                newest_snapshot_seq = Some(snapshot.sequence_number);
                newest_snapshot_added_rows = snapshot.added_rows;
            },
            _ => {},
        }
        apply_snapshot_change(table_meta, &updates[i], timestamp_ms);
        i += 1;
    }
    proof {
        assert(changes.take(changes.len() as int) =~= changes);
        lemma_snapshot_changes_keep(before, changes, timestamp_ms);
    }
    match newest_snapshot_seq {
        Some(seq) => if seq > table_meta.last_sequence_number {
            table_meta.last_sequence_number = seq;
        },
        None => {},
    }
    table_meta.last_updated_ms = timestamp_ms;
    let ghost log = views(table_meta.metadata_log@);
    table_meta.metadata_log.push(
        MetadataLog {
            timestamp_ms: previous_metadata_timestamp_ms,
            metadata_file: previous_file,
        },
    );
    assert(views(table_meta.metadata_log@) =~= log.push(
        (previous_metadata_timestamp_ms, previous_file@),
    ));
    newest_snapshot_added_rows
}

/// Neither the version nor the highest IDs of a table ever go down, and no snapshot is dropped.
pub proof fn evolution_never_goes_back(
    meta: TableMetadataView,
    schema: Option<SchemaView>,
    spec: Option<PartitionSpecView>,
)
    ensures
        evolved(meta, schema, spec).format_version.rank() >= meta.format_version.rank(),
        evolved(meta, schema, spec).last_column_id >= meta.last_column_id,
        evolved(meta, schema, spec).last_partition_id >= meta.last_partition_id,
        evolved(meta, schema, spec).snapshots == meta.snapshots,
        evolved(meta, schema, spec).current_snapshot_id == meta.current_snapshot_id,
{
}

/// A schema that was made current is the current one.
pub proof fn set_schema_is_current(meta: TableMetadataView, schema: SchemaView)
    ensures
        current_schema(with_schema(meta, schema)) == Some(schema),
{
    let after = with_schema(meta, schema);
    let id = schema.schema_id;
    if has_schema(meta.schemas, id) {
        let i = choose|i: int| #[trigger] first_schema(meta.schemas, id, i);
        assert(first_schema(meta.schemas, id, i));
        assert(first_schema(after.schemas, id, i));
    } else {
        let n = meta.schemas.len() as int;
        assert forall|j: int| 0 <= j < n implies (#[trigger] after.schemas[j]).schema_id
            != id by {
            if after.schemas[j].schema_id == id {
                lemma_first_schema_exists(meta.schemas, id, j);
            }
        }
        assert(first_schema(after.schemas, id, n));
    }
    let k = choose|k: int| #[trigger] first_schema(after.schemas, id, k);
    assert(first_schema(after.schemas, id, k));
    assert(after.schemas[k] == schema) by {
        if has_schema(meta.schemas, id) {
            let i = choose|i: int| #[trigger] first_schema(meta.schemas, id, i);
            assert(after.schemas[i].schema_id == id);
            if k < i {
                assert(meta.schemas[k].schema_id != id);
            }
        } else {
            let n = meta.schemas.len() as int;
            if k < n {
                assert(after.schemas[k].schema_id != id);
            }
        }
    }
}

proof fn lemma_first_schema_exists(schemas: Seq<SchemaView>, schema_id: i32, i: int)
    requires
        0 <= i < schemas.len(),
        schemas[i].schema_id == schema_id,
    ensures
        has_schema(schemas, schema_id),
    decreases i,
{
    if forall|j: int| 0 <= j < i ==> (#[trigger] schemas[j]).schema_id != schema_id {
        assert(first_schema(schemas, schema_id, i));
    } else {
        let j = choose|j: int| 0 <= j < i && (#[trigger] schemas[j]).schema_id == schema_id;
        lemma_first_schema_exists(schemas, schema_id, j);
    }
}

proof fn lemma_first_spec_exists(specs: Seq<PartitionSpecView>, spec_id: i32, i: int)
    requires
        0 <= i < specs.len(),
        specs[i].spec_id == spec_id,
    ensures
        has_spec(specs, spec_id),
    decreases i,
{
    if forall|j: int| 0 <= j < i ==> (#[trigger] specs[j]).spec_id != spec_id {
        assert(first_spec(specs, spec_id, i));
    } else {
        let j = choose|j: int| 0 <= j < i && (#[trigger] specs[j]).spec_id == spec_id;
        lemma_first_spec_exists(specs, spec_id, j);
    }
}

/// A partition spec that was made the default is the default one.
pub proof fn set_spec_is_default(meta: TableMetadataView, spec: PartitionSpecView)
    ensures
        default_spec(with_spec(meta, spec)) == Some(spec),
{
    let after = with_spec(meta, spec);
    let id = spec.spec_id;
    if has_spec(meta.partition_specs, id) {
        let i = choose|i: int| #[trigger] first_spec(meta.partition_specs, id, i);
        assert(first_spec(meta.partition_specs, id, i));
        assert(first_spec(after.partition_specs, id, i));
        let k = choose|k: int| #[trigger] first_spec(after.partition_specs, id, k);
        assert(after.partition_specs[i].spec_id == id);
        if k < i {
            assert(meta.partition_specs[k].spec_id != id);
        }
    } else {
        let n = meta.partition_specs.len() as int;
        assert forall|j: int| 0 <= j < n implies (#[trigger] after.partition_specs[j]).spec_id
            != id by {
            if after.partition_specs[j].spec_id == id {
                lemma_first_spec_exists(meta.partition_specs, id, j);
            }
        }
        assert(first_spec(after.partition_specs, id, n));
        let k = choose|k: int| #[trigger] first_spec(after.partition_specs, id, k);
        if k < n {
            assert(after.partition_specs[k].spec_id != id);
        }
    }
}

/// The schema that a commit brings is the current one when it starts.
pub proof fn commit_with_a_schema_has_a_current_one(
    meta: TableMetadataView,
    schema: SchemaView,
    spec: Option<PartitionSpecView>,
)
    ensures
        current_schema(after_both(meta, Some(schema), spec)) == Some(schema),
{
    set_schema_is_current(meta, schema);
    let one = with_schema(meta, schema);
    let both = after_spec(one, spec);
    assert(both.schemas == one.schemas);
    assert(both.current_schema_id == one.current_schema_id);
}

/// To make the default partition spec the default once more changes nothing.
pub proof fn spec_update_is_idempotent(meta: TableMetadataView, spec: PartitionSpecView)
    ensures
        with_spec(with_spec(meta, spec), spec) == with_spec(meta, spec),
{
    let once = with_spec(meta, spec);
    set_spec_is_default(meta, spec);
    let i = choose|i: int| #[trigger] first_spec(once.partition_specs, spec.spec_id, i);
    assert(first_spec(once.partition_specs, spec.spec_id, i));
    assert(once.partition_specs.update(i, spec) =~= once.partition_specs);
}

/// To make the current schema the current one once more changes nothing.
pub proof fn schema_update_is_idempotent(meta: TableMetadataView, schema: SchemaView)
    ensures
        with_schema(with_schema(meta, schema), schema) == with_schema(meta, schema),
{
    let once = with_schema(meta, schema);
    set_schema_is_current(meta, schema);
    let i = choose|i: int| #[trigger] first_schema(once.schemas, schema.schema_id, i);
    assert(first_schema(once.schemas, schema.schema_id, i));
    assert(once.schemas.update(i, schema) =~= once.schemas);
}

} // verus!
