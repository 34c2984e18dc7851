//! What changes to the metadata of a table keep, add and tell the catalog.
use vstd::prelude::*;

use crate::content::{optional_view, views};
use crate::error::EngineError;
use crate::table::{
    FormatVersion, PartitionSpec, PartitionSpecView, Schema, SchemaView, Snapshot, SnapshotLog,
    SnapshotUpdateKind, SnapshotView, TableMetadata, TableMetadataView, TableUpdate,
    TableUpdateView, UnboundPartitionSpec,
};
use crate::table_changes::{
    after_schema, apply_partition_spec_update, apply_schema_update, apply_snapshot_updates,
    current_schema, evolution_changes, evolve, first_schema, first_snapshot, first_spec, has_schema,
    has_spec, newest_added, numbered_spec, put_schema, put_spec, schema_changes, spec_changes,
    unbound_partition_spec, validate_scoped_overwrite_format, with_snapshot_changes, Evolution,
};

verus! {

proof fn lemma_has_schema(schemas: Seq<SchemaView>, id: i32)
    ensures
        has_schema(schemas, id) <==> exists|i: int|
            0 <= i < schemas.len() && (#[trigger] schemas[i]).schema_id == id,
    decreases schemas.len(),
{
    if exists|i: int| 0 <= i < schemas.len() && (#[trigger] schemas[i]).schema_id == id {
        let i = choose|i: int| 0 <= i < schemas.len() && (#[trigger] schemas[i]).schema_id == id;
        lemma_first_schema(schemas, id, i);
    } else if has_schema(schemas, id) {
        let i = choose|i: int| #[trigger] first_schema(schemas, id, i);
        assert(schemas[i].schema_id == id);
    }
}

proof fn lemma_first_schema(schemas: Seq<SchemaView>, id: i32, i: int)
    requires
        0 <= i < schemas.len(),
        schemas[i].schema_id == id,
    ensures
        exists|k: int| #[trigger] first_schema(schemas, id, k) && k <= i,
    decreases i,
{
    if exists|j: int| 0 <= j < i && (#[trigger] schemas[j]).schema_id == id {
        let j = choose|j: int| 0 <= j < i && (#[trigger] schemas[j]).schema_id == id;
        lemma_first_schema(schemas, id, j);
    } else {
        assert(first_schema(schemas, id, i));
    }
}

proof fn lemma_has_spec(specs: Seq<PartitionSpecView>, id: i32)
    ensures
        has_spec(specs, id) <==> exists|i: int|
            0 <= i < specs.len() && (#[trigger] specs[i]).spec_id == id,
{
    if exists|i: int| 0 <= i < specs.len() && (#[trigger] specs[i]).spec_id == id {
        let i = choose|i: int| 0 <= i < specs.len() && (#[trigger] specs[i]).spec_id == id;
        lemma_first_spec(specs, id, i);
    } else if has_spec(specs, id) {
        let i = choose|i: int| #[trigger] first_spec(specs, id, i);
        assert(specs[i].spec_id == id);
    }
}

proof fn lemma_first_spec(specs: Seq<PartitionSpecView>, id: i32, i: int)
    requires
        0 <= i < specs.len(),
        specs[i].spec_id == id,
    ensures
        exists|k: int| #[trigger] first_spec(specs, id, k) && k <= i,
    decreases i,
{
    if exists|j: int| 0 <= j < i && (#[trigger] specs[j]).spec_id == id {
        let j = choose|j: int| 0 <= j < i && (#[trigger] specs[j]).spec_id == id;
        lemma_first_spec(specs, id, j);
    } else {
        assert(first_spec(specs, id, i));
    }
}

/// A list of schemas in which one stands in the place of the first that has its ID, or at the end.
/// All others are in their places.
pub open spec fn schema_is_put(
    before: Seq<SchemaView>,
    after: Seq<SchemaView>,
    schema: SchemaView,
) -> bool {
    &&& forall|i: int|
        0 <= i < before.len() && (#[trigger] before[i]).schema_id != schema.schema_id ==> i
            < after.len() && after[i] == before[i]
    &&& if exists|i: int| 0 <= i < before.len() && (#[trigger] before[i]).schema_id
        == schema.schema_id {
        &&& after.len() == before.len()
        &&& exists|k: int|
            {
                &&& 0 <= k < before.len()
                &&& (#[trigger] before[k]).schema_id == schema.schema_id
                &&& after[k] == schema
                &&& forall|i: int| 0 <= i < k ==> (#[trigger] before[i]).schema_id
                    != schema.schema_id
                &&& forall|i: int| k < i < before.len() ==> after[i] == #[trigger] before[i]
            }
    } else {
        after.len() == before.len() + 1 && after.last() == schema
    }
}

/// A list of partition specs in which one stands in the place of the first that has its ID, or at
/// the end. All others are in their places.
pub open spec fn spec_is_put(
    before: Seq<PartitionSpecView>,
    after: Seq<PartitionSpecView>,
    spec: PartitionSpecView,
) -> bool {
    &&& forall|i: int|
        0 <= i < before.len() && (#[trigger] before[i]).spec_id != spec.spec_id ==> i < after.len()
            && after[i] == before[i]
    &&& if exists|i: int| 0 <= i < before.len() && (#[trigger] before[i]).spec_id == spec.spec_id {
        &&& after.len() == before.len()
        &&& exists|k: int|
            {
                &&& 0 <= k < before.len()
                &&& (#[trigger] before[k]).spec_id == spec.spec_id
                &&& after[k] == spec
                &&& forall|i: int| 0 <= i < k ==> (#[trigger] before[i]).spec_id != spec.spec_id
                &&& forall|i: int| k < i < before.len() ==> after[i] == #[trigger] before[i]
            }
    } else {
        after.len() == before.len() + 1 && after.last() == spec
    }
}

proof fn lemma_put_schema(before: Seq<SchemaView>, schema: SchemaView)
    ensures
        schema_is_put(before, put_schema(before, schema), schema),
{
    lemma_has_schema(before, schema.schema_id);
    if has_schema(before, schema.schema_id) {
        let k = choose|i: int| #[trigger] first_schema(before, schema.schema_id, i);
        assert(before[k].schema_id == schema.schema_id);
    }
}

proof fn lemma_put_spec(before: Seq<PartitionSpecView>, spec: PartitionSpecView)
    ensures
        spec_is_put(before, put_spec(before, spec), spec),
{
    lemma_has_spec(before, spec.spec_id);
    if has_spec(before, spec.spec_id) {
        let k = choose|i: int| #[trigger] first_spec(before, spec.spec_id, i);
        assert(before[k].spec_id == spec.spec_id);
    }
}

/// What is recorded of snapshots, references and properties is the same.
pub open spec fn same_history(a: TableMetadataView, b: TableMetadataView) -> bool {
    &&& a.table_uuid == b.table_uuid
    &&& a.last_sequence_number == b.last_sequence_number
    &&& a.last_updated_ms == b.last_updated_ms
    &&& a.current_snapshot_id == b.current_snapshot_id
    &&& a.snapshots == b.snapshots
    &&& a.snapshot_log == b.snapshot_log
    &&& a.metadata_log == b.metadata_log
    &&& a.default_sort_order_id == b.default_sort_order_id
    &&& a.properties == b.properties
    &&& a.refs == b.refs
}

/// What is recorded of schemas is the same.
pub open spec fn same_schemas(a: TableMetadataView, b: TableMetadataView) -> bool {
    &&& a.schemas == b.schemas
    &&& a.current_schema_id == b.current_schema_id
    &&& a.last_column_id == b.last_column_id
}

/// What is recorded of partition specs is the same.
pub open spec fn same_specs(a: TableMetadataView, b: TableMetadataView) -> bool {
    &&& a.partition_specs == b.partition_specs
    &&& a.default_spec_id == b.default_spec_id
    &&& a.last_partition_id == b.last_partition_id
}

/// The first number is the larger of the two others.
pub open spec fn is_larger_of(n: int, a: int, b: int) -> bool {
    n >= a && n >= b && (n == a || n == b)
}

/// A schema that is made the current one is put among the others, which stay. The highest field ID
/// and the version only go up to what the schema needs. Nothing else changes.
pub proof fn setting_a_schema_keeps_the_rest(
    meta: &mut TableMetadata,
    schema: Schema,
    r: (),
)
    requires
        call_ensures(apply_schema_update, (meta, schema), r),
    ensures
        schema_is_put(old(meta)@.schemas, final(meta)@.schemas, schema@),
        final(meta).current_schema_id == schema.schema_id,
        is_larger_of(
            final(meta).last_column_id as int,
            old(meta).last_column_id as int,
            schema.highest_field_id as int,
        ),
        is_larger_of(
            version_number(final(meta).format_version),
            version_number(old(meta).format_version),
            version_number(schema.format_version),
        ),
        same_specs(old(meta)@, final(meta)@),
        same_history(old(meta)@, final(meta)@),
{
    lemma_put_schema(meta@.schemas, schema@);
}

/// A partition spec that is made the default one is put among the others, which stay. The highest
/// partition field ID only goes up to what the spec needs. Nothing else changes.
pub proof fn setting_a_spec_keeps_the_rest(
    meta: &mut TableMetadata,
    spec: PartitionSpec,
    r: (),
)
    requires
        call_ensures(apply_partition_spec_update, (meta, spec), r),
    ensures
        spec_is_put(old(meta)@.partition_specs, final(meta)@.partition_specs, spec@),
        final(meta).default_spec_id == spec.spec_id,
        is_larger_of(
            final(meta).last_partition_id as int,
            old(meta).last_partition_id as int,
            spec.last_assigned_field_id as int,
        ),
        final(meta).format_version == old(meta).format_version,
        same_schemas(old(meta)@, final(meta)@),
        same_history(old(meta)@, final(meta)@),
{
    lemma_put_spec(meta@.partition_specs, spec@);
}

/// The number of a version.
pub open spec fn version_number(version: FormatVersion) -> int {
    match version {
        FormatVersion::V1 => 1,
        FormatVersion::V2 => 2,
        FormatVersion::V3 => 3,
    }
}

/// The snapshot, the schema and the partition spec that are found are the first ones with the
/// recorded IDs, and none is found only where there is none.
pub proof fn lookups_find_the_recorded_ids(
    meta: &TableMetadata,
    snapshot: Option<&Snapshot>,
    schema: Option<&Schema>,
    spec: Option<&PartitionSpec>,
)
    requires
        call_ensures(TableMetadata::current_snapshot, (meta,), snapshot),
        call_ensures(TableMetadata::current_schema, (meta,), schema),
        call_ensures(TableMetadata::default_partition_spec, (meta,), spec),
    ensures
        match snapshot {
            Some(s) => meta.current_snapshot_id is Some && exists|i: int|
                0 <= i < meta.snapshots@.len() && (#[trigger] meta.snapshots@[i]).snapshot_id
                    == meta.current_snapshot_id->0 && meta.snapshots@[i]@ == s@ && forall|j: int|
                    0 <= j < i ==> (#[trigger] meta.snapshots@[j]).snapshot_id
                        != meta.current_snapshot_id->0,
            None => meta.current_snapshot_id is None || forall|i: int|
                0 <= i < meta.snapshots@.len() ==> (#[trigger] meta.snapshots@[i]).snapshot_id
                    != meta.current_snapshot_id->0,
        },
        match schema {
            Some(s) => exists|i: int|
                0 <= i < meta.schemas@.len() && (#[trigger] meta.schemas@[i]).schema_id
                    == meta.current_schema_id && meta.schemas@[i]@ == s@ && forall|j: int|
                    0 <= j < i ==> (#[trigger] meta.schemas@[j]).schema_id
                        != meta.current_schema_id,
            None => forall|i: int|
                0 <= i < meta.schemas@.len() ==> (#[trigger] meta.schemas@[i]).schema_id
                    != meta.current_schema_id,
        },
        match spec {
            Some(s) => exists|i: int|
                0 <= i < meta.partition_specs@.len() && (#[trigger] meta.partition_specs@[i]).spec_id
                    == meta.default_spec_id && meta.partition_specs@[i]@ == s@ && forall|j: int|
                    0 <= j < i ==> (#[trigger] meta.partition_specs@[j]).spec_id
                        != meta.default_spec_id,
            None => forall|i: int|
                0 <= i < meta.partition_specs@.len() ==> (
                #[trigger] meta.partition_specs@[i]).spec_id != meta.default_spec_id,
        },
{
    let m = meta@;
    lemma_has_schema(m.schemas, m.current_schema_id);
    lemma_has_spec(m.partition_specs, m.default_spec_id);
    match snapshot {
        Some(s) => {
            let id = m.current_snapshot_id->0;
            let i = choose|i: int| #[trigger] first_snapshot(m.snapshots, id, i);
            assert(first_snapshot(m.snapshots, id, i));
            assert(m.snapshots[i] == meta.snapshots@[i]@);
            assert forall|j: int| 0 <= j < i implies (#[trigger] meta.snapshots@[j]).snapshot_id
                != id by {
                assert(m.snapshots[j].snapshot_id != id);
            }
        },
        None => {
            if m.current_snapshot_id is Some {
                let id = m.current_snapshot_id->0;
                assert forall|i: int| 0 <= i < meta.snapshots@.len() implies (
                #[trigger] meta.snapshots@[i]).snapshot_id != id by {
                    if meta.snapshots@[i].snapshot_id == id {
                        assert(m.snapshots[i].snapshot_id == id);
                        lemma_first_snapshot(m.snapshots, id, i);
                    }
                }
            }
        },
    }
    match schema {
        Some(s) => {
            let i = choose|i: int| #[trigger] first_schema(m.schemas, m.current_schema_id, i);
            assert(first_schema(m.schemas, m.current_schema_id, i));
            assert(m.schemas[i] == meta.schemas@[i]@);
            assert forall|j: int| 0 <= j < i implies (#[trigger] meta.schemas@[j]).schema_id
                != meta.current_schema_id by {
                assert(m.schemas[j].schema_id != m.current_schema_id);
            }
        },
        None => {
            assert forall|i: int| 0 <= i < meta.schemas@.len() implies (
            #[trigger] meta.schemas@[i]).schema_id != meta.current_schema_id by {
                assert(m.schemas[i].schema_id == meta.schemas@[i].schema_id);
            }
        },
    }
    match spec {
        Some(s) => {
            let i = choose|i: int| #[trigger] first_spec(m.partition_specs, m.default_spec_id, i);
            assert(first_spec(m.partition_specs, m.default_spec_id, i));
            assert(m.partition_specs[i] == meta.partition_specs@[i]@);
            assert forall|j: int| 0 <= j < i implies (#[trigger] meta.partition_specs@[j]).spec_id
                != meta.default_spec_id by {
                assert(m.partition_specs[j].spec_id != m.default_spec_id);
            }
        },
        None => {
            assert forall|i: int| 0 <= i < meta.partition_specs@.len() implies (
            #[trigger] meta.partition_specs@[i]).spec_id != meta.default_spec_id by {
                assert(m.partition_specs[i].spec_id == meta.partition_specs@[i].spec_id);
            }
        },
    }
}

proof fn lemma_first_snapshot(snapshots: Seq<SnapshotView>, id: i64, i: int)
    requires
        0 <= i < snapshots.len(),
        snapshots[i].snapshot_id == id,
    ensures
        exists|k: int| #[trigger] first_snapshot(snapshots, id, k) && k <= i,
    decreases i,
{
    if exists|j: int| 0 <= j < i && (#[trigger] snapshots[j]).snapshot_id == id {
        let j = choose|j: int| 0 <= j < i && (#[trigger] snapshots[j]).snapshot_id == id;
        lemma_first_snapshot(snapshots, id, j);
    } else {
        assert(first_snapshot(snapshots, id, i));
    }
}

/// A partition spec as a catalog is told of it has as many fields as the spec, and the field at each
/// place has the source, the name and the transform of the field at that place.
pub open spec fn tells_of(told: UnboundPartitionSpec, spec: PartitionSpec) -> bool {
    &&& told.fields@.len() == spec.fields@.len()
    &&& forall|i: int|
        0 <= i < spec.fields@.len() ==> {
            &&& (#[trigger] told.fields@[i]).source_id == spec.fields@[i].source_id
            &&& told.fields@[i].name@ == spec.fields@[i].name@
            &&& told.fields@[i].transform == spec.fields@[i].transform
        }
}

/// The spec that a catalog is told of is that of the files, but for the IDs that it gives itself.
pub proof fn catalog_is_told_the_true_fields(spec: &PartitionSpec, told: UnboundPartitionSpec)
    requires
        call_ensures(unbound_partition_spec, (spec,), told),
    ensures
        tells_of(told, *spec),
{
    lemma_told_fields(told, *spec);
}

proof fn lemma_told_fields(told: UnboundPartitionSpec, spec: PartitionSpec)
    requires
        told@ == crate::table_changes::unbound_fields(spec@),
    ensures
        tells_of(told, spec),
{
    assert(told@.len() == told.fields@.len());
    assert forall|i: int| 0 <= i < spec.fields@.len() implies {
        &&& (#[trigger] told.fields@[i]).source_id == spec.fields@[i].source_id
        &&& told.fields@[i].name@ == spec.fields@[i].name@
        &&& told.fields@[i].transform == spec.fields@[i].transform
    } by {
        assert(told@[i] == told.fields@[i]@);
        assert(spec@.fields[i] == spec.fields@[i]@);
    }
}

/// The rest of what an evolution keeps: a commit that brings a schema and a partition spec changes
/// nothing but those, the highest IDs and the version.
pub proof fn evolution_keeps_the_rest(
    metadata: TableMetadata,
    schema: &Option<Schema>,
    spec: &Option<PartitionSpec>,
    unpartitioned: &PartitionSpec,
    r: Result<Evolution, EngineError>,
)
    requires
        call_ensures(evolve, (metadata, schema, spec, unpartitioned), r),
        r is Ok,
    ensures
        ({
            let after = r->Ok_0.metadata@;
            &&& same_history(metadata@, after)
            &&& match schema {
                Some(schema) => {
                    &&& schema_is_put(metadata@.schemas, after.schemas, schema@)
                    &&& after.current_schema_id == schema.schema_id
                    &&& is_larger_of(
                        after.last_column_id as int,
                        metadata.last_column_id as int,
                        schema.highest_field_id as int,
                    )
                },
                None => same_schemas(metadata@, after),
            }
            &&& spec is None ==> same_specs(metadata@, after)
        }),
{
    if schema is Some {
        lemma_put_schema(metadata@.schemas, schema->0@);
    }
}

/// The partition spec that a commit brings is the default one afterwards, with its own fields. Its
/// ID is its own, unless that is 0: then it takes the place of the default one.
pub proof fn evolution_sets_the_spec(
    metadata: TableMetadata,
    schema: &Option<Schema>,
    spec: &Option<PartitionSpec>,
    unpartitioned: &PartitionSpec,
    r: Result<Evolution, EngineError>,
)
    requires
        call_ensures(evolve, (metadata, schema, spec, unpartitioned), r),
        r is Ok,
        spec is Some,
    ensures
        ({
            let after = r->Ok_0.metadata@;
            let followed = r->Ok_0.partition_spec@;
            &&& followed.fields == spec->0@.fields
            &&& followed.last_assigned_field_id == spec->0.last_assigned_field_id
            &&& spec->0.spec_id != 0 ==> followed.spec_id == spec->0.spec_id
            &&& spec->0.spec_id == 0 ==> followed.spec_id == metadata.default_spec_id
            &&& after.default_spec_id == followed.spec_id
            &&& spec_is_put(metadata@.partition_specs, after.partition_specs, followed)
            &&& is_larger_of(
                after.last_partition_id as int,
                metadata.last_partition_id as int,
                spec->0.last_assigned_field_id as int,
            )
        }),
{
    lemma_put_spec(metadata@.partition_specs, r->Ok_0.partition_spec@);
}

/// Where a commit brings no partition spec its files follow the default one of the table, or else
/// are not partitioned.
pub proof fn files_follow_the_default_spec(
    metadata: TableMetadata,
    schema: &Option<Schema>,
    unpartitioned: &PartitionSpec,
    r: Result<Evolution, EngineError>,
    spec: Option<&PartitionSpec>,
)
    requires
        call_ensures(evolve, (metadata, schema, &None::<PartitionSpec>, unpartitioned), r),
        call_ensures(TableMetadata::default_partition_spec, (&metadata,), spec),
        r is Ok,
    ensures
        r->Ok_0.partition_spec@ == match spec {
            Some(spec) => spec@,
            None => unpartitioned@,
        },
{
}

/// An evolution fails exactly where no schema is current in the end: the commit brings none, and
/// none of the table has the recorded ID.
pub proof fn evolution_fails_only_without_a_schema(
    metadata: TableMetadata,
    schema: &Option<Schema>,
    spec: &Option<PartitionSpec>,
    unpartitioned: &PartitionSpec,
    r: Result<Evolution, EngineError>,
)
    requires
        call_ensures(evolve, (metadata, schema, spec, unpartitioned), r),
    ensures
        r is Err <==> schema is None && forall|i: int|
            0 <= i < metadata.schemas@.len() ==> (#[trigger] metadata.schemas@[i]).schema_id
                != metadata.current_schema_id,
{
    if schema is Some {
        crate::table_changes::commit_with_a_schema_has_a_current_one(
            metadata@,
            schema->0@,
            optional_view(*spec),
        );
    } else {
        lemma_has_schema(metadata@.schemas, metadata@.current_schema_id);
        assert forall|i: int| 0 <= i < metadata.schemas@.len() implies (
        #[trigger] metadata.schemas@[i]).schema_id == metadata@.schemas[i].schema_id by {}
        if exists|i: int|
            0 <= i < metadata@.schemas.len() && (#[trigger] metadata@.schemas[i]).schema_id
                == metadata@.current_schema_id {
            let i = choose|i: int|
                0 <= i < metadata@.schemas.len() && (#[trigger] metadata@.schemas[i]).schema_id
                    == metadata@.current_schema_id;
            assert(metadata.schemas@[i].schema_id == metadata.current_schema_id);
        } else {
            assert forall|i: int| 0 <= i < metadata.schemas@.len() implies (
            #[trigger] metadata.schemas@[i]).schema_id != metadata.current_schema_id by {
                assert(metadata@.schemas[i].schema_id == metadata.schemas@[i].schema_id);
            }
        }
    }
}

/// The version after an evolution is the highest of that of the table and those that the schema of
/// the commit and the current schema need.
pub proof fn evolution_raises_the_version_as_needed(
    metadata: TableMetadata,
    schema: &Option<Schema>,
    spec: &Option<PartitionSpec>,
    unpartitioned: &PartitionSpec,
    r: Result<Evolution, EngineError>,
    current: Option<&Schema>,
)
    requires
        call_ensures(evolve, (metadata, schema, spec, unpartitioned), r),
        r is Ok,
        call_ensures(TableMetadata::current_schema, (&r->Ok_0.metadata,), current),
    ensures
        current is Some,
        schema is Some ==> current->0@ == schema->0@,
        is_larger_of(
            version_number(r->Ok_0.metadata.format_version),
            version_number(metadata.format_version),
            version_number(current->0.format_version),
        ),
{
    if schema is Some {
        crate::table_changes::commit_with_a_schema_has_a_current_one(
            metadata@,
            schema->0@,
            optional_view(*spec),
        );
    }
    let both = crate::table_changes::after_both(
        metadata@,
        optional_view(*schema),
        optional_view(*spec),
    );
    assert(r->Ok_0.metadata@.schemas == both.schemas);
    assert(current_schema(r->Ok_0.metadata@) == current_schema(both));
}

/// What the catalog knows of a table, as far as an evolution tells it.
pub struct CatalogRecord {
    pub format_version: FormatVersion,
    pub schemas: Seq<SchemaView>,
    pub current_schema_id: i32,
    /// The partition specs by ID, by source, name and transform of their fields.
    pub specs: Map<i32, Seq<(i32, Seq<char>, crate::table::Transform)>>,
    /// A spec that was added and has no ID yet.
    pub added_spec: Option<Seq<(i32, Seq<char>, crate::table::Transform)>>,
    pub default_spec_id: i32,
}

/// The fields of a spec by source, name and transform.
pub open spec fn told_fields(
    fields: Seq<crate::table::UnboundPartitionFieldView>,
) -> Seq<(i32, Seq<char>, crate::table::Transform)> {
    Seq::new(fields.len(), |i: int| (fields[i].source_id, fields[i].name, fields[i].transform))
}

/// The fields of a spec by source, name and transform.
pub open spec fn spec_fields(spec: PartitionSpecView) -> Seq<
    (i32, Seq<char>, crate::table::Transform),
> {
    Seq::new(
        spec.fields.len(),
        |i: int| (spec.fields[i].source_id, spec.fields[i].name, spec.fields[i].transform),
    )
}

/// What the catalog knows after it is told of one change.
pub open spec fn replayed(record: CatalogRecord, update: TableUpdateView) -> CatalogRecord {
    match update {
        TableUpdateView::UpgradeFormatVersion { format_version } => CatalogRecord {
            format_version,
            ..record
        },
        TableUpdateView::AddSchema { schema } => CatalogRecord {
            schemas: record.schemas.push(schema),
            ..record
        },
        TableUpdateView::SetCurrentSchema { schema_id } => CatalogRecord {
            current_schema_id: schema_id,
            ..record
        },
        TableUpdateView::AddSpec { spec } => CatalogRecord {
            added_spec: Some(told_fields(spec)),
            ..record
        },
        TableUpdateView::SetDefaultSpec { spec_id } => CatalogRecord {
            default_spec_id: spec_id,
            specs: match record.added_spec {
                Some(fields) => record.specs.insert(spec_id, fields),
                None => record.specs,
            },
            added_spec: None,
            ..record
        },
        _ => record,
    }
}

/// What the catalog knows after it is told of all changes.
pub open spec fn replay(record: CatalogRecord, updates: Seq<TableUpdateView>) -> CatalogRecord
    decreases updates.len(),
{
    if updates.len() == 0 {
        record
    } else {
        replayed(replay(record, updates.drop_last()), updates.last())
    }
}

proof fn lemma_replay_concat(record: CatalogRecord, a: Seq<TableUpdateView>, b: Seq<TableUpdateView>)
    ensures
        replay(record, a + b) == replay(replay(record, a), b),
    decreases b.len(),
{
    if b.len() == 0 {
        assert(a + b =~= a);
    } else {
        lemma_replay_concat(record, a, b.drop_last());
        assert((a + b).drop_last() =~= a + b.drop_last());
    }
}

proof fn lemma_replay_one(record: CatalogRecord, update: TableUpdateView)
    ensures
        replay(record, seq![update]) == replayed(record, update),
        replay(record, seq![]) == record,
{
    assert(seq![update].drop_last() =~= seq![]);
    assert(replay(record, seq![update].drop_last()) == record);
}

proof fn lemma_replay_two(record: CatalogRecord, a: TableUpdateView, b: TableUpdateView)
    ensures
        replay(record, seq![a] + seq![b]) == replayed(replayed(record, a), b),
{
    lemma_replay_concat(record, seq![a], seq![b]);
    lemma_replay_one(record, a);
    lemma_replay_one(replayed(record, a), b);
}

/// A catalog that knew the table before and is told of the changes knows it afterwards: the
/// version, the current schema among the schemas, and the default spec with the fields that the
/// files follow. It is told of a schema or a spec only where it does not have one with that ID.
pub proof fn replaying_the_changes_gives_the_table(
    metadata: TableMetadata,
    schema: &Option<Schema>,
    spec: &Option<PartitionSpec>,
    unpartitioned: &PartitionSpec,
    r: Result<Evolution, EngineError>,
    record: CatalogRecord,
)
    requires
        call_ensures(evolve, (metadata, schema, spec, unpartitioned), r),
        r is Ok,
        record.format_version == metadata.format_version,
        record.schemas == metadata@.schemas,
        record.current_schema_id == metadata.current_schema_id,
        record.default_spec_id == metadata.default_spec_id,
        record.added_spec is None,
        forall|id: i32| #[trigger]
            record.specs.contains_key(id) <==> exists|i: int|
                0 <= i < metadata.partition_specs@.len() && (
                #[trigger] metadata.partition_specs@[i]).spec_id == id,
    ensures
        ({
            let told = replay(record, views(r->Ok_0.updates@));
            let after = r->Ok_0.metadata@;
            &&& told.format_version == after.format_version
            &&& told.current_schema_id == after.current_schema_id
            &&& told.default_spec_id == after.default_spec_id
            &&& schema is None ==> told.schemas == record.schemas
            &&& schema is Some ==> if exists|i: int|
                0 <= i < metadata.schemas@.len() && (#[trigger] metadata.schemas@[i]).schema_id
                    == schema->0.schema_id {
                told.schemas == record.schemas
            } else {
                told.schemas == record.schemas.push(schema->0@) && told.schemas == after.schemas
            }
            &&& spec is None ==> told.specs == record.specs && told.added_spec is None
            &&& spec is Some ==> ({
                let id = after.default_spec_id;
                if record.specs.contains_key(id) {
                    told.specs == record.specs && told.added_spec is None
                } else if id == metadata.default_spec_id {
                    told.specs == record.specs && told.added_spec == Some(spec_fields(spec->0@))
                } else {
                    told.specs == record.specs.insert(id, spec_fields(spec->0@))
                        && told.added_spec is None
                }
            })
        }),
{
    let s = optional_view(*schema);
    let p = optional_view(*spec);
    let before = metadata@;
    let middle = after_schema(before, s);
    let after = r->Ok_0.metadata@;
    let of_schema = schema_changes(before, s);
    let of_spec = spec_changes(middle, p);
    let changes = evolution_changes(before, s, p);
    let upgrade: Seq<TableUpdateView> = if version_number(after.format_version) > version_number(
        before.format_version,
    ) {
        seq![TableUpdateView::UpgradeFormatVersion { format_version: after.format_version }]
    } else {
        seq![]
    };
    assert(changes == upgrade + (of_schema + of_spec));
    lemma_replay_concat(record, upgrade, of_schema + of_spec);
    let one = replay(record, upgrade);
    lemma_replay_one(
        record,
        TableUpdateView::UpgradeFormatVersion { format_version: after.format_version },
    );
    assert(one == CatalogRecord { format_version: after.format_version, ..record });
    lemma_replay_concat(one, of_schema, of_spec);
    let two = replay(one, of_schema);
    lemma_replay_one(one, TableUpdateView::SetCurrentSchema { schema_id: 0 });
    if schema is Some {
        let new = schema->0@;
        let add = TableUpdateView::AddSchema { schema: new };
        let set = TableUpdateView::SetCurrentSchema { schema_id: new.schema_id };
        lemma_has_schema(before.schemas, new.schema_id);
        lemma_put_schema(before.schemas, new);
        lemma_replay_one(one, add);
        lemma_replay_one(one, set);
        lemma_replay_two(one, add, set);
        assert(seq![add] + Seq::<TableUpdateView>::empty() =~= seq![add]);
        assert(Seq::<TableUpdateView>::empty() + seq![set] =~= seq![set]);
        assert(Seq::<TableUpdateView>::empty() + Seq::<TableUpdateView>::empty() =~= seq![]);
        lemma_schema_ids(metadata, new.schema_id);
        if !has_schema(before.schemas, new.schema_id) {
            assert(after.schemas =~= before.schemas.push(new));
        }
    }
    assert(two.format_version == after.format_version);
    assert(two.current_schema_id == after.current_schema_id);
    lemma_replay_one(two, TableUpdateView::SetDefaultSpec { spec_id: 0 });
    if spec is Some {
        let new = numbered_spec(middle, spec->0@);
        let fields = crate::table_changes::unbound_fields(new);
        let add = TableUpdateView::AddSpec { spec: fields };
        let set = TableUpdateView::SetDefaultSpec { spec_id: new.spec_id };
        lemma_has_spec(before.partition_specs, new.spec_id);
        lemma_spec_ids(metadata, new.spec_id);
        assert(told_fields(fields) =~= spec_fields(spec->0@));
        lemma_replay_one(two, add);
        lemma_replay_one(two, set);
        lemma_replay_two(two, add, set);
        assert(seq![add] + Seq::<TableUpdateView>::empty() =~= seq![add]);
        assert(Seq::<TableUpdateView>::empty() + seq![set] =~= seq![set]);
        assert(Seq::<TableUpdateView>::empty() + Seq::<TableUpdateView>::empty() =~= seq![]);
        assert(record.specs.contains_key(new.spec_id) <==> has_spec(
            before.partition_specs,
            new.spec_id,
        ));
    }
}

proof fn lemma_schema_ids(metadata: TableMetadata, id: i32)
    ensures
        (exists|i: int|
            0 <= i < metadata.schemas@.len() && (#[trigger] metadata.schemas@[i]).schema_id == id)
            <==> (exists|i: int|
            0 <= i < metadata@.schemas.len() && (#[trigger] metadata@.schemas[i]).schema_id == id),
{
    if exists|i: int|
        0 <= i < metadata.schemas@.len() && (#[trigger] metadata.schemas@[i]).schema_id == id {
        let i = choose|i: int|
            0 <= i < metadata.schemas@.len() && (#[trigger] metadata.schemas@[i]).schema_id == id;
        assert(metadata@.schemas[i].schema_id == id);
    }
    if exists|i: int|
        0 <= i < metadata@.schemas.len() && (#[trigger] metadata@.schemas[i]).schema_id == id {
        let i = choose|i: int|
            0 <= i < metadata@.schemas.len() && (#[trigger] metadata@.schemas[i]).schema_id == id;
        assert(metadata.schemas@[i].schema_id == id);
    }
}

proof fn lemma_spec_ids(metadata: TableMetadata, id: i32)
    ensures
        (exists|i: int|
            0 <= i < metadata.partition_specs@.len() && (
            #[trigger] metadata.partition_specs@[i]).spec_id == id) <==> (exists|i: int|
            0 <= i < metadata@.partition_specs.len() && (
            #[trigger] metadata@.partition_specs[i]).spec_id == id),
{
    if exists|i: int|
        0 <= i < metadata.partition_specs@.len() && (#[trigger] metadata.partition_specs@[i]).spec_id
            == id {
        let i = choose|i: int|
            0 <= i < metadata.partition_specs@.len() && (
            #[trigger] metadata.partition_specs@[i]).spec_id == id;
        assert(metadata@.partition_specs[i].spec_id == id);
    }
    if exists|i: int|
        0 <= i < metadata@.partition_specs.len() && (#[trigger] metadata@.partition_specs[i]).spec_id
            == id {
        let i = choose|i: int|
            0 <= i < metadata@.partition_specs.len() && (
            #[trigger] metadata@.partition_specs[i]).spec_id == id;
        assert(metadata.partition_specs@[i].spec_id == id);
    }
}

/// Each change that a catalog is told of an evolution is one of these, and at most once.
pub proof fn evolution_tells_nothing_else(
    metadata: TableMetadata,
    schema: &Option<Schema>,
    spec: &Option<PartitionSpec>,
    unpartitioned: &PartitionSpec,
    r: Result<Evolution, EngineError>,
)
    requires
        call_ensures(evolve, (metadata, schema, spec, unpartitioned), r),
        r is Ok,
    ensures
        r->Ok_0.updates@.len() <= 5,
        forall|i: int|
            0 <= i < r->Ok_0.updates@.len() ==> match #[trigger] r->Ok_0.updates@[i] {
                TableUpdate::UpgradeFormatVersion { .. } => i == 0,
                TableUpdate::AddSchema { schema: told } => schema is Some && told@ == schema->0@,
                TableUpdate::SetCurrentSchema { schema_id } => schema is Some && schema_id
                    == schema->0.schema_id && schema_id != metadata.current_schema_id,
                TableUpdate::AddSpec { spec: told } => spec is Some && tells_of(told, spec->0),
                TableUpdate::SetDefaultSpec { spec_id } => spec is Some && spec_id
                    != metadata.default_spec_id && spec_id == spec->0.spec_id,
                _ => false,
            },
{
    let updates = r->Ok_0.updates@;
    let changes = views(updates);
    assert(changes.len() == updates.len());
    assert forall|i: int| 0 <= i < updates.len() implies match #[trigger] updates[i] {
        TableUpdate::UpgradeFormatVersion { .. } => i == 0,
        TableUpdate::AddSchema { schema: told } => schema is Some && told@ == schema->0@,
        TableUpdate::SetCurrentSchema { schema_id } => schema is Some && schema_id
            == schema->0.schema_id && schema_id != metadata.current_schema_id,
        TableUpdate::AddSpec { spec: told } => spec is Some && tells_of(told, spec->0),
        TableUpdate::SetDefaultSpec { spec_id } => spec is Some && spec_id
            != metadata.default_spec_id && spec_id == spec->0.spec_id,
        _ => false,
    } by {
        assert(changes[i] == updates[i]@);
        match updates[i] {
            TableUpdate::AddSpec { spec: told } => {
                let middle = after_schema(metadata@, optional_view(*schema));
                assert(told@ =~= crate::table_changes::unbound_fields(spec->0@)) by {
                    assert(told@ == crate::table_changes::unbound_fields(
                        numbered_spec(middle, spec->0@),
                    ));
                }
                lemma_told_fields(told, spec->0);
            },
            _ => {},
        }
    }
}

/// The place of a kind of change among those that a catalog is told of.
pub open spec fn turn(update: TableUpdate) -> int {
    match update {
        TableUpdate::UpgradeFormatVersion { .. } => 0,
        TableUpdate::AddSchema { .. } => 1,
        TableUpdate::SetCurrentSchema { .. } => 2,
        TableUpdate::AddSpec { .. } => 3,
        TableUpdate::SetDefaultSpec { .. } => 4,
        _ => 5,
    }
}

/// The catalog is told of the version first, then of the schema before it is made the current one,
/// then of the partition spec before it is made the default one, and of each at most once.
pub proof fn changes_are_told_in_order(
    metadata: TableMetadata,
    schema: &Option<Schema>,
    spec: &Option<PartitionSpec>,
    unpartitioned: &PartitionSpec,
    r: Result<Evolution, EngineError>,
    i: int,
    j: int,
)
    requires
        call_ensures(evolve, (metadata, schema, spec, unpartitioned), r),
        r is Ok,
        0 <= i < j < r->Ok_0.updates@.len(),
    ensures
        turn(r->Ok_0.updates@[i]) < turn(r->Ok_0.updates@[j]),
{
    let updates = r->Ok_0.updates@;
    let changes = views(updates);
    assert(changes[i] == updates[i]@);
    assert(changes[j] == updates[j]@);
    let middle = after_schema(metadata@, optional_view(*schema));
    let a = schema_changes(metadata@, optional_view(*schema));
    let b = spec_changes(middle, optional_view(*spec));
    let after = crate::table_changes::evolved(
        metadata@,
        optional_view(*schema),
        optional_view(*spec),
    );
    let first: Seq<TableUpdateView> = if after.format_version.rank()
        > metadata.format_version.rank() {
        seq![TableUpdateView::UpgradeFormatVersion { format_version: after.format_version }]
    } else {
        seq![]
    };
    assert(changes == first + (a + b));
    lemma_schema_turns(metadata@, optional_view(*schema));
    lemma_spec_turns(middle, optional_view(*spec));
    lemma_turns(first, a, b, i, j);
}

/// Changes that come in turn, from one turn to another.
spec fn in_turn(updates: Seq<TableUpdateView>, from: int, to: int) -> bool {
    &&& forall|i: int| 0 <= i < updates.len() ==> from <= turn_of(#[trigger] updates[i]) <= to
    &&& forall|i: int, j: int|
        0 <= i < j < updates.len() ==> turn_of(#[trigger] updates[i]) < turn_of(
            #[trigger] updates[j],
        )
}

proof fn lemma_schema_turns(meta: TableMetadataView, schema: Option<SchemaView>)
    ensures
        in_turn(schema_changes(meta, schema), 1, 2),
{
}

proof fn lemma_spec_turns(meta: TableMetadataView, spec: Option<PartitionSpecView>)
    ensures
        in_turn(spec_changes(meta, spec), 3, 4),
{
}

proof fn lemma_turns(
    first: Seq<TableUpdateView>,
    a: Seq<TableUpdateView>,
    b: Seq<TableUpdateView>,
    i: int,
    j: int,
)
    requires
        in_turn(first, 0, 0),
        in_turn(a, 1, 2),
        in_turn(b, 3, 4),
        0 <= i < j < (first + (a + b)).len(),
    ensures
        turn_of((first + (a + b))[i]) < turn_of((first + (a + b))[j]),
{
}

spec fn turn_of(update: TableUpdateView) -> int {
    match update {
        TableUpdateView::UpgradeFormatVersion { .. } => 0,
        TableUpdateView::AddSchema { .. } => 1,
        TableUpdateView::SetCurrentSchema { .. } => 2,
        TableUpdateView::AddSpec { .. } => 3,
        TableUpdateView::SetDefaultSpec { .. } => 4,
        _ => 5,
    }
}

/// A change that adds a snapshot.
pub open spec fn adds() -> spec_fn(TableUpdateView) -> bool {
    |update: TableUpdateView| update is AddSnapshot
}

/// The snapshot that a change adds.
pub open spec fn added_snapshot() -> spec_fn(TableUpdateView) -> SnapshotView {
    |update: TableUpdateView| update->AddSnapshot_snapshot
}

/// The snapshots that changes add, in their order.
pub open spec fn added_snapshots(updates: Seq<TableUpdateView>) -> Seq<SnapshotView> {
    updates.filter(adds()).map_values(added_snapshot())
}

/// The reference at one place is the last one that the changes give that name.
pub open spec fn names_last(updates: Seq<TableUpdateView>, name: Seq<char>, i: int) -> bool {
    &&& 0 <= i < updates.len()
    &&& updates[i] matches TableUpdateView::SetSnapshotRef { ref_name, .. } && ref_name == name
    &&& forall|j: int|
        i < j < updates.len() ==> !((#[trigger] updates[j]) matches TableUpdateView::SetSnapshotRef {
            ref_name,
            ..
        } && ref_name == name)
}

/// No change gives a reference that name.
pub open spec fn names_never(updates: Seq<TableUpdateView>, name: Seq<char>) -> bool {
    forall|j: int|
        0 <= j < updates.len() ==> !((#[trigger] updates[j]) matches TableUpdateView::SetSnapshotRef {
            ref_name,
            ..
        } && ref_name == name)
}

proof fn lemma_added_snapshots(updates: Seq<TableUpdateView>)
    requires
        updates.len() > 0,
    ensures
        added_snapshots(updates) == if updates.last() is AddSnapshot {
            added_snapshots(updates.drop_last()).push(updates.last()->AddSnapshot_snapshot)
        } else {
            added_snapshots(updates.drop_last())
        },
{
    reveal(Seq::filter);
    assert(added_snapshots(updates) =~= if updates.last() is AddSnapshot {
        added_snapshots(updates.drop_last()).push(updates.last()->AddSnapshot_snapshot)
    } else {
        added_snapshots(updates.drop_last())
    });
}

pub proof fn lemma_history(before: TableMetadataView, updates: Seq<TableUpdateView>, time: i64)
    ensures
        ({
            let after = with_snapshot_changes(before, updates, time);
            let added = added_snapshots(updates);
            &&& after.snapshots == before.snapshots + added
            &&& after.snapshot_log == before.snapshot_log + Seq::new(
                added.len(),
                |i: int| SnapshotLog { timestamp_ms: time, snapshot_id: added[i].snapshot_id },
            )
            &&& after.current_snapshot_id == if added.len() > 0 {
                Some(added.last().snapshot_id)
            } else {
                before.current_snapshot_id
            }
            &&& newest_added(updates) == if added.len() > 0 {
                Some(added.last())
            } else {
                None
            }
            &&& same_schemas(before, after)
            &&& same_specs(before, after)
            &&& after.format_version == before.format_version
            &&& after.table_uuid == before.table_uuid
            &&& after.properties == before.properties
            &&& after.default_sort_order_id == before.default_sort_order_id
            &&& after.metadata_log == before.metadata_log
            &&& after.last_sequence_number == before.last_sequence_number
        }),
    decreases updates.len(),
{
    let after = with_snapshot_changes(before, updates, time);
    let added = added_snapshots(updates);
    if updates.len() == 0 {
        reveal(Seq::filter);
        assert(added =~= seq![]);
        assert(after.snapshots =~= before.snapshots + added);
        assert(after.snapshot_log =~= before.snapshot_log + Seq::new(
            added.len(),
            |i: int| SnapshotLog { timestamp_ms: time, snapshot_id: added[i].snapshot_id },
        ));
    } else {
        lemma_history(before, updates.drop_last(), time);
        lemma_added_snapshots(updates);
        assert(after.snapshots =~= before.snapshots + added);
        assert(after.snapshot_log =~= before.snapshot_log + Seq::new(
            added.len(),
            |i: int| SnapshotLog { timestamp_ms: time, snapshot_id: added[i].snapshot_id },
        ));
    }
}

proof fn lemma_refs(
    before: TableMetadataView,
    updates: Seq<TableUpdateView>,
    time: i64,
    name: Seq<char>,
)
    ensures
        ({
            let after = with_snapshot_changes(before, updates, time);
            &&& names_never(updates, name) ==> (after.refs.contains_key(name)
                <==> before.refs.contains_key(name)) && (before.refs.contains_key(name)
                ==> after.refs[name] == before.refs[name])
            &&& forall|i: int| #[trigger]
                names_last(updates, name, i) ==> after.refs.contains_key(name)
                    && after.refs[name] == updates[i]->SetSnapshotRef_reference
        }),
    decreases updates.len(),
{
    let after = with_snapshot_changes(before, updates, time);
    if updates.len() > 0 {
        let shorter = updates.drop_last();
        lemma_refs(before, shorter, time, name);
        if names_never(updates, name) {
            assert forall|j: int| 0 <= j < shorter.len() implies !((
            #[trigger] shorter[j]) matches TableUpdateView::SetSnapshotRef { ref_name, .. }
                && ref_name == name) by {
                assert(shorter[j] == updates[j]);
            }
            assert(names_never(shorter, name));
            assert(!(updates[updates.len() - 1] matches TableUpdateView::SetSnapshotRef {
                ref_name,
                ..
            } && ref_name == name));
        }
        assert forall|i: int| #[trigger] names_last(updates, name, i) implies after.refs.contains_key(
            name,
        ) && after.refs[name] == updates[i]->SetSnapshotRef_reference by {
            if i < shorter.len() {
                assert forall|j: int| i < j < shorter.len() implies !((
                #[trigger] shorter[j]) matches TableUpdateView::SetSnapshotRef { ref_name, .. }
                    && ref_name == name) by {
                    assert(shorter[j] == updates[j]);
                }
                assert(names_last(shorter, name, i));
                assert(!(updates[updates.len() - 1] matches TableUpdateView::SetSnapshotRef {
                    ref_name,
                    ..
                } && ref_name == name));
            }
        }
    }
}

/// Publishing never drops a snapshot: those of the table before come first, in their places, and
/// then the added ones in their order. The log of snapshots grows by an entry for each of these, at
/// the time of the commit. The last one added is the current one. The log of metadata grows by the
/// file that was current, with its time.
pub proof fn publishing_keeps_the_history(
    meta: &mut TableMetadata,
    updates: &Vec<TableUpdate>,
    time: i64,
    previous_file: String,
    rows: Option<i64>,
)
    requires
        call_ensures(apply_snapshot_updates, (meta, updates, time, previous_file), rows),
    ensures
        ({
            let before = old(meta)@;
            let after = final(meta)@;
            let added = added_snapshots(views(updates@));
            &&& after.snapshots == before.snapshots + added
            &&& after.snapshot_log.len() == before.snapshot_log.len() + added.len()
            &&& forall|i: int|
                0 <= i < before.snapshot_log.len() ==> #[trigger] after.snapshot_log[i]
                    == before.snapshot_log[i]
            &&& forall|i: int|
                0 <= i < added.len() ==> (#[trigger] after.snapshot_log[before.snapshot_log.len()
                    + i]).snapshot_id == added[i].snapshot_id && after.snapshot_log[before.snapshot_log.len()
                    + i].timestamp_ms == time
            &&& added.len() > 0 ==> after.current_snapshot_id == Some(added.last().snapshot_id)
            &&& added.len() == 0 ==> after.current_snapshot_id == before.current_snapshot_id
            &&& after.metadata_log.len() == before.metadata_log.len() + 1
            &&& forall|i: int|
                0 <= i < before.metadata_log.len() ==> #[trigger] after.metadata_log[i]
                    == before.metadata_log[i]
            &&& after.metadata_log.last() == (before.last_updated_ms, previous_file@)
        }),
{
    lemma_history(meta@, views(updates@), time);
}

/// References that no update names stay as they are, and one that is named is what the last of
/// those updates says.
pub proof fn publishing_moves_only_named_references(
    meta: &mut TableMetadata,
    updates: &Vec<TableUpdate>,
    time: i64,
    previous_file: String,
    rows: Option<i64>,
    name: Seq<char>,
    i: int,
)
    requires
        call_ensures(apply_snapshot_updates, (meta, updates, time, previous_file), rows),
    ensures
        names_never(views(updates@), name) ==> (final(meta)@.refs.contains_key(name)
            <==> old(meta)@.refs.contains_key(name)) && (old(meta)@.refs.contains_key(name)
            ==> final(meta)@.refs[name] == old(meta)@.refs[name]),
        names_last(views(updates@), name, i) ==> final(meta)@.refs.contains_key(name)
            && final(meta)@.refs[name] == views(updates@)[i]->SetSnapshotRef_reference,
{
    lemma_refs(meta@, views(updates@), time, name);
}

/// The sequence number never goes down, and is that of the last added snapshot where that is higher.
/// The time is that of the commit. The rows are those of the last added snapshot. Schemas, partition
/// specs, the version and the rest stay.
pub proof fn publishing_keeps_the_rest(
    meta: &mut TableMetadata,
    updates: &Vec<TableUpdate>,
    time: i64,
    previous_file: String,
    rows: Option<i64>,
)
    requires
        call_ensures(apply_snapshot_updates, (meta, updates, time, previous_file), rows),
    ensures
        ({
            let before = old(meta)@;
            let after = final(meta)@;
            let added = added_snapshots(views(updates@));
            &&& same_schemas(before, after)
            &&& same_specs(before, after)
            &&& after.format_version == before.format_version
            &&& after.table_uuid == before.table_uuid
            &&& after.properties == before.properties
            &&& after.default_sort_order_id == before.default_sort_order_id
            &&& after.last_updated_ms == time
            &&& added.len() == 0 ==> after.last_sequence_number == before.last_sequence_number
                && rows is None
            &&& added.len() > 0 ==> rows == added.last().added_rows && is_larger_of(
                after.last_sequence_number as int,
                before.last_sequence_number as int,
                added.last().sequence_number as int,
            )
        }),
{
    lemma_history(meta@, views(updates@), time);
}

/// A commit that replaces single files is refused exactly for tables of the third version.
pub proof fn scoped_overwrites_stop_at_row_lineage(
    kind: SnapshotUpdateKind,
    version: FormatVersion,
    r: Result<(), EngineError>,
)
    requires
        call_ensures(validate_scoped_overwrite_format, (kind, version), r),
    ensures
        r is Err <==> version is V3 && (kind is CopyOnWrite || kind is CopyOnWriteDelete),
{
}

} // verus!
