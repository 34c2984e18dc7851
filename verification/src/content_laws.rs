//! Values that hold the same agree in every part.
use vstd::prelude::*;

use crate::content::{copy_list, copy_option, optional_view, same_list, same_option, views, Content};
use crate::table::{
    copy_partition, partition_values, same_partition, CommitMeta, LakehouseExecutionContext,
    Literal, MetadataLog, PartitionSpec, PrimitiveLiteral, Schema, Snapshot, SnapshotReference,
    TableMetadata, TableRequirement, TableUpdate, UnboundPartitionSpec,
};

verus! {

/// Two values that may be missing hold the same.
pub open spec fn both_or_none<T: View>(a: Option<T>, b: Option<T>) -> bool {
    match (a, b) {
        (Some(x), Some(y)) => x@ == y@,
        (None, None) => true,
        _ => false,
    }
}

/// Two lists hold the same, place by place.
pub open spec fn place_by_place<T: View>(a: Seq<T>, b: Seq<T>) -> bool {
    a.len() == b.len() && forall|i: int| 0 <= i < a.len() ==> (#[trigger] a[i])@ == b[i]@
}

proof fn lemma_views<T: View>(a: Seq<T>, b: Seq<T>)
    ensures
        views(a) == views(b) <==> place_by_place(a, b),
{
    if views(a) == views(b) {
        assert(views(a).len() == a.len());
        assert(views(b).len() == b.len());
        assert forall|i: int| 0 <= i < a.len() implies (#[trigger] a[i])@ == b[i]@ by {
            assert(views(a)[i] == views(b)[i]);
        }
    }
    if place_by_place(a, b) {
        assert(views(a) =~= views(b));
    }
}

proof fn lemma_option<T: View>(a: Option<T>, b: Option<T>)
    ensures
        optional_view(a) == optional_view(b) <==> both_or_none(a, b),
{
}

/// Two lists are the same exactly where they are so place by place, and a copy is the same.
pub proof fn lists_are_compared_place_by_place<T: Content>(
    a: &Vec<T>,
    b: &Vec<T>,
    same: bool,
    copy: Vec<T>,
)
    requires
        call_ensures(same_list::<T>, (a, b), same),
        call_ensures(copy_list::<T>, (a,), copy),
    ensures
        same <==> place_by_place(a@, b@),
        place_by_place(copy@, a@),
{
    lemma_views(a@, b@);
    lemma_views(copy@, a@);
}

/// Two values that may be missing are the same exactly where both are missing or both hold the
/// same, and a copy is the same.
pub proof fn missing_values_are_the_same_only_as_missing<T: Content>(
    a: &Option<T>,
    b: &Option<T>,
    same: bool,
    copy: Option<T>,
)
    requires
        call_ensures(same_option::<T>, (a, b), same),
        call_ensures(copy_option::<T>, (a,), copy),
    ensures
        same <==> both_or_none(*a, *b),
        both_or_none(copy, *a),
{
    lemma_option(*a, *b);
    lemma_option(copy, *a);
}

/// Two schemas that hold the same agree in every part.
pub proof fn schemas_agree_in_every_part(a: Schema, b: Schema)
    ensures
        a@ == b@ <==> {
            &&& a.schema_id == b.schema_id
            &&& a.highest_field_id == b.highest_field_id
            &&& a.format_version == b.format_version
            &&& a.definition@ == b.definition@
        },
{
}

/// Two partition specs that hold the same agree in every part of every field.
pub proof fn specs_agree_in_every_part(a: PartitionSpec, b: PartitionSpec)
    ensures
        a@ == b@ <==> {
            &&& a.spec_id == b.spec_id
            &&& a.last_assigned_field_id == b.last_assigned_field_id
            &&& a.fields@.len() == b.fields@.len()
            &&& forall|i: int|
                0 <= i < a.fields@.len() ==> {
                    &&& (#[trigger] a.fields@[i]).source_id == b.fields@[i].source_id
                    &&& a.fields@[i].field_id == b.fields@[i].field_id
                    &&& a.fields@[i].name@ == b.fields@[i].name@
                    &&& a.fields@[i].transform == b.fields@[i].transform
                }
        },
{
    lemma_views(a.fields@, b.fields@);
    if a@ == b@ {
        assert forall|i: int| 0 <= i < a.fields@.len() implies {
            &&& (#[trigger] a.fields@[i]).source_id == b.fields@[i].source_id
            &&& a.fields@[i].field_id == b.fields@[i].field_id
            &&& a.fields@[i].name@ == b.fields@[i].name@
            &&& a.fields@[i].transform == b.fields@[i].transform
        } by {
            assert(a.fields@[i]@ == b.fields@[i]@);
        }
    }
}

/// Two specs without IDs that hold the same agree in every part of every field.
pub proof fn unbound_specs_agree_in_every_part(a: UnboundPartitionSpec, b: UnboundPartitionSpec)
    ensures
        a@ == b@ <==> {
            &&& a.fields@.len() == b.fields@.len()
            &&& forall|i: int|
                0 <= i < a.fields@.len() ==> {
                    &&& (#[trigger] a.fields@[i]).source_id == b.fields@[i].source_id
                    &&& a.fields@[i].name@ == b.fields@[i].name@
                    &&& a.fields@[i].transform == b.fields@[i].transform
                }
        },
{
    lemma_views(a.fields@, b.fields@);
    if a@ == b@ {
        assert forall|i: int| 0 <= i < a.fields@.len() implies {
            &&& (#[trigger] a.fields@[i]).source_id == b.fields@[i].source_id
            &&& a.fields@[i].name@ == b.fields@[i].name@
            &&& a.fields@[i].transform == b.fields@[i].transform
        } by {
            assert(a.fields@[i]@ == b.fields@[i]@);
        }
    }
}

/// Two values of partition fields are the same.
pub open spec fn same_value(a: PrimitiveLiteral, b: PrimitiveLiteral) -> bool {
    match (a, b) {
        (PrimitiveLiteral::Boolean(x), PrimitiveLiteral::Boolean(y)) => x == y,
        (PrimitiveLiteral::Int(x), PrimitiveLiteral::Int(y)) => x == y,
        (PrimitiveLiteral::Long(x), PrimitiveLiteral::Long(y)) => x == y,
        (PrimitiveLiteral::Float(x), PrimitiveLiteral::Float(y)) => x == y,
        (PrimitiveLiteral::Double(x), PrimitiveLiteral::Double(y)) => x == y,
        (PrimitiveLiteral::Int128(x), PrimitiveLiteral::Int128(y)) => x == y,
        (PrimitiveLiteral::UInt128(x), PrimitiveLiteral::UInt128(y)) => x == y,
        (PrimitiveLiteral::String(x), PrimitiveLiteral::String(y)) => x@ == y@,
        (PrimitiveLiteral::Binary(x), PrimitiveLiteral::Binary(y)) => x@ == y@,
        _ => false,
    }
}

/// The values of a partition field are the same: both missing, or of one type and with one value.
pub open spec fn same_field(a: Option<Literal>, b: Option<Literal>) -> bool {
    match (a, b) {
        (Some(Literal::Primitive(x)), Some(Literal::Primitive(y))) => same_value(x, y),
        (None, None) => true,
        _ => false,
    }
}

/// Two partitions have the same value in every field.
pub open spec fn same_in_every_field(a: Seq<Option<Literal>>, b: Seq<Option<Literal>>) -> bool {
    a.len() == b.len() && forall|i: int| 0 <= i < a.len() ==> same_field(#[trigger] a[i], b[i])
}

/// Two partitions are the same one exactly where they have the same value in every field. A copy of
/// a partition is the same one.
pub proof fn partitions_are_compared_in_every_field(
    a: &Vec<Option<Literal>>,
    b: &Vec<Option<Literal>>,
    same: bool,
    copy: Vec<Option<Literal>>,
)
    requires
        call_ensures(same_partition, (a, b), same),
        call_ensures(copy_partition, (a,), copy),
    ensures
        same <==> same_in_every_field(a@, b@),
        same_in_every_field(copy@, a@),
{
    lemma_partition(a@, b@);
    lemma_partition(copy@, a@);
}

pub proof fn lemma_partition(a: Seq<Option<Literal>>, b: Seq<Option<Literal>>)
    ensures
        partition_values(a) == partition_values(b) <==> same_in_every_field(a, b),
{
    let (x, y) = (partition_values(a), partition_values(b));
    if x == y {
        assert(x.len() == a.len() && y.len() == b.len());
        assert forall|i: int| 0 <= i < a.len() implies same_field(#[trigger] a[i], b[i]) by {
            assert(x[i] == y[i]);
        }
    }
    if same_in_every_field(a, b) {
        assert forall|i: int| 0 <= i < a.len() implies x[i] == y[i] by {
            assert(same_field(a[i], b[i]));
        }
        assert(x =~= y);
    }
}

/// Two snapshots, references or entries of a log that hold the same agree in every part.
pub proof fn snapshots_agree_in_every_part(
    a: Snapshot,
    b: Snapshot,
    ra: SnapshotReference,
    rb: SnapshotReference,
    la: MetadataLog,
    lb: MetadataLog,
)
    ensures
        a@ == b@ <==> {
            &&& a.snapshot_id == b.snapshot_id
            &&& a.sequence_number == b.sequence_number
            &&& a.added_rows == b.added_rows
            &&& a.manifest_list@ == b.manifest_list@
            &&& a.details@ == b.details@
        },
        ra@ == rb@ <==> ra.snapshot_id == rb.snapshot_id && ra.retention@ == rb.retention@,
        la@ == lb@ <==> la.timestamp_ms == lb.timestamp_ms && la.metadata_file@
            == lb.metadata_file@,
{
}

/// Two requirements that hold the same are of one kind and name the same.
pub proof fn requirements_agree_in_every_part(a: TableRequirement, b: TableRequirement)
    ensures
        a@ == b@ <==> match (a, b) {
            (TableRequirement::NotExist, TableRequirement::NotExist) => true,
            (
                TableRequirement::UuidMatch { uuid: x },
                TableRequirement::UuidMatch { uuid: y },
            ) => x == y,
            (
                TableRequirement::RefSnapshotIdMatch { reference: x, snapshot_id: i },
                TableRequirement::RefSnapshotIdMatch { reference: y, snapshot_id: j },
            ) => x@ == y@ && i == j,
            (
                TableRequirement::LastAssignedFieldIdMatch { last_assigned_field_id: x },
                TableRequirement::LastAssignedFieldIdMatch { last_assigned_field_id: y },
            ) => x == y,
            (
                TableRequirement::CurrentSchemaIdMatch { current_schema_id: x },
                TableRequirement::CurrentSchemaIdMatch { current_schema_id: y },
            ) => x == y,
            (
                TableRequirement::LastAssignedPartitionIdMatch { last_assigned_partition_id: x },
                TableRequirement::LastAssignedPartitionIdMatch { last_assigned_partition_id: y },
            ) => x == y,
            (
                TableRequirement::DefaultSpecIdMatch { default_spec_id: x },
                TableRequirement::DefaultSpecIdMatch { default_spec_id: y },
            ) => x == y,
            (
                TableRequirement::DefaultSortOrderIdMatch { default_sort_order_id: x },
                TableRequirement::DefaultSortOrderIdMatch { default_sort_order_id: y },
            ) => x == y,
            _ => false,
        },
{
}

/// Two updates that hold the same are of one kind and say the same.
pub proof fn updates_agree_in_every_part(a: TableUpdate, b: TableUpdate)
    ensures
        a@ == b@ <==> match (a, b) {
            (TableUpdate::AddSchema { schema: x }, TableUpdate::AddSchema { schema: y }) => x@
                == y@,
            (
                TableUpdate::SetCurrentSchema { schema_id: x },
                TableUpdate::SetCurrentSchema { schema_id: y },
            ) => x == y,
            (TableUpdate::AddSpec { spec: x }, TableUpdate::AddSpec { spec: y }) => x@ == y@,
            (
                TableUpdate::SetDefaultSpec { spec_id: x },
                TableUpdate::SetDefaultSpec { spec_id: y },
            ) => x == y,
            (
                TableUpdate::UpgradeFormatVersion { format_version: x },
                TableUpdate::UpgradeFormatVersion { format_version: y },
            ) => x == y,
            (TableUpdate::AddSnapshot { snapshot: x }, TableUpdate::AddSnapshot { snapshot: y }) =>
                x@ == y@,
            (
                TableUpdate::SetSnapshotRef { ref_name: n, reference: x },
                TableUpdate::SetSnapshotRef { ref_name: m, reference: y },
            ) => n@ == m@ && x@ == y@,
            (TableUpdate::Other(x), TableUpdate::Other(y)) => x@ == y@,
            _ => false,
        },
{
}

/// Two reports of writers that hold the same agree in every part.
pub proof fn reports_agree_in_every_part(a: CommitMeta, b: CommitMeta)
    ensures
        a@ == b@ <==> {
            &&& a.table_uri@ == b.table_uri@
            &&& a.row_count == b.row_count
            &&& place_by_place(a.requirements@, b.requirements@)
            &&& place_by_place(a.table_properties@, b.table_properties@)
            &&& both_or_none(a.lakehouse_table, b.lakehouse_table)
            &&& both_or_none(a.schema, b.schema)
            &&& both_or_none(a.partition_spec, b.partition_spec)
        },
{
    lemma_views(a.requirements@, b.requirements@);
    lemma_views(a.table_properties@, b.table_properties@);
    lemma_option(a.lakehouse_table, b.lakehouse_table);
    lemma_option(a.schema, b.schema);
    lemma_option(a.partition_spec, b.partition_spec);
}

/// Two tables of catalogs that hold the same agree in every part.
pub proof fn catalog_tables_agree_in_every_part(
    a: LakehouseExecutionContext,
    b: LakehouseExecutionContext,
)
    ensures
        a@ == b@ <==> place_by_place(a.catalog_table@, b.catalog_table@) && a.details@
            == b.details@,
{
    lemma_views(a.catalog_table@, b.catalog_table@);
}

/// Two tables' metadata that hold the same agree in every part.
pub proof fn metadata_agrees_in_every_part(a: TableMetadata, b: TableMetadata, name: Seq<char>)
    requires
        a@ == b@,
    ensures
        a.format_version == b.format_version,
        a.table_uuid == b.table_uuid,
        a.last_sequence_number == b.last_sequence_number,
        a.last_updated_ms == b.last_updated_ms,
        a.last_column_id == b.last_column_id,
        place_by_place(a.schemas@, b.schemas@),
        a.current_schema_id == b.current_schema_id,
        place_by_place(a.partition_specs@, b.partition_specs@),
        a.default_spec_id == b.default_spec_id,
        a.last_partition_id == b.last_partition_id,
        a.current_snapshot_id == b.current_snapshot_id,
        place_by_place(a.snapshots@, b.snapshots@),
        a.snapshot_log@ == b.snapshot_log@,
        place_by_place(a.metadata_log@, b.metadata_log@),
        a.default_sort_order_id == b.default_sort_order_id,
        a.refs@.contains_key(name) <==> b.refs@.contains_key(name),
        a.refs@.contains_key(name) ==> a.refs@[name]@ == b.refs@[name]@,
        a.properties@.contains_key(name) <==> b.properties@.contains_key(name),
        a.properties@.contains_key(name) ==> a.properties@[name]@ == b.properties@[name]@,
{
    lemma_views(a.schemas@, b.schemas@);
    lemma_views(a.partition_specs@, b.partition_specs@);
    lemma_views(a.snapshots@, b.snapshots@);
    lemma_views(a.metadata_log@, b.metadata_log@);
    assert(a@.refs.contains_key(name) <==> a.refs@.contains_key(name));
    assert(b@.refs.contains_key(name) <==> b.refs@.contains_key(name));
    assert(a@.properties.contains_key(name) <==> a.properties@.contains_key(name));
    assert(b@.properties.contains_key(name) <==> b.properties@.contains_key(name));
    if a.refs@.contains_key(name) {
        assert(a@.refs[name] == a.refs@[name]@);
        assert(b@.refs[name] == b.refs@[name]@);
    }
    if a.properties@.contains_key(name) {
        assert(a@.properties[name] == a.properties@[name]@);
        assert(b@.properties[name] == b.properties@[name]@);
    }
}

} // verus!
