//! What a table's metadata, its files and the changes to it hold.
use vstd::prelude::*;

use crate::content::{
    copy_list, copy_option, optional_view, same_list, same_option, views, Content,
};
use crate::text_map::TextMap;

verus! {

/// The version of the table format.
#[derive(Debug, Clone, Copy, PartialEq, Eq, Structural)]
pub enum FormatVersion {
    V1,
    V2,
    V3,
}

impl FormatVersion {
    pub open spec fn rank(self) -> int {
        match self {
            FormatVersion::V1 => 1,
            FormatVersion::V2 => 2,
            FormatVersion::V3 => 3,
        }
    }

    pub open spec fn later_of(self, other: FormatVersion) -> FormatVersion {
        if other.rank() > self.rank() {
            other
        } else {
            self
        }
    }

    /// The number of the version.
    pub fn number(self) -> (r: u8)
        ensures
            r == self.rank(),
    {
        match self {
            FormatVersion::V1 => 1,
            FormatVersion::V2 => 2,
            FormatVersion::V3 => 3,
        }
    }

    /// The later of two versions.
    pub fn max(self, other: FormatVersion) -> (r: FormatVersion)
        ensures
            r == self.later_of(other),
    {
        if other.number() > self.number() {
            other
        } else {
            self
        }
    }
}

/// How a commit changes the files of the table.
#[derive(Debug, Clone, Copy, PartialEq, Eq, Structural)]
pub enum SnapshotUpdateKind {
    /// Files are added.
    FastAppend,
    /// All files are replaced.
    FullOverwrite,
    /// Some files are replaced by others.
    CopyOnWrite,
    /// Some files are replaced by what is left of them after a delete.
    CopyOnWriteDelete,
}

impl SnapshotUpdateKind {
    pub open spec fn copy_on_write(self) -> bool {
        self == SnapshotUpdateKind::CopyOnWrite || self == SnapshotUpdateKind::CopyOnWriteDelete
    }

    /// Whether the commit replaces some of the files.
    pub fn is_copy_on_write(self) -> (r: bool)
        ensures
            r == self.copy_on_write(),
    {
        match self {
            SnapshotUpdateKind::CopyOnWrite => true,
            SnapshotUpdateKind::CopyOnWriteDelete => true,
            _ => false,
        }
    }
}

/// A schema of a table.
#[derive(Debug, PartialEq, Eq)]
pub struct Schema {
    pub schema_id: i32,
    /// The highest ID of any of its fields.
    pub highest_field_id: i32,
    /// The first version of the table format that has all of its types.
    pub format_version: FormatVersion,
    /// The fields, as text.
    pub definition: String,
}

#[verifier::ext_equal]
pub struct SchemaView {
    pub schema_id: i32,
    pub highest_field_id: i32,
    pub format_version: FormatVersion,
    pub definition: Seq<char>,
}

impl View for Schema {
    type V = SchemaView;

    open spec fn view(&self) -> SchemaView {
        SchemaView {
            schema_id: self.schema_id,
            highest_field_id: self.highest_field_id,
            format_version: self.format_version,
            definition: self.definition@,
        }
    }
}

impl Content for Schema {
    fn same(&self, other: &Self) -> (r: bool) {
        self.schema_id == other.schema_id && self.highest_field_id == other.highest_field_id
            && self.format_version == other.format_version && self.definition.same(
            &other.definition,
        )
    }

    fn copy(&self) -> (r: Self) {
        Schema {
            schema_id: self.schema_id,
            highest_field_id: self.highest_field_id,
            format_version: self.format_version,
            definition: self.definition.clone(),
        }
    }
}

/// How a partition value comes from the value of a column.
#[derive(Debug, Clone, Copy, PartialEq, Eq, Structural)]
pub enum Transform {
    Identity,
    Bucket(u32),
    Truncate(u32),
    Year,
    Month,
    Day,
    Hour,
    Void,
    Unknown,
}

/// A field of a partition spec.
#[derive(Debug, PartialEq, Eq)]
pub struct PartitionField {
    pub source_id: i32,
    pub field_id: i32,
    pub name: String,
    pub transform: Transform,
}

#[verifier::ext_equal]
pub struct PartitionFieldView {
    pub source_id: i32,
    pub field_id: i32,
    pub name: Seq<char>,
    pub transform: Transform,
}

impl View for PartitionField {
    type V = PartitionFieldView;

    open spec fn view(&self) -> PartitionFieldView {
        PartitionFieldView {
            source_id: self.source_id,
            field_id: self.field_id,
            name: self.name@,
            transform: self.transform,
        }
    }
}

impl Content for PartitionField {
    fn same(&self, other: &Self) -> (r: bool) {
        self.source_id == other.source_id && self.field_id == other.field_id && self.name.same(
            &other.name,
        ) && self.transform == other.transform
    }

    fn copy(&self) -> (r: Self) {
        PartitionField {
            source_id: self.source_id,
            field_id: self.field_id,
            name: self.name.clone(),
            transform: self.transform,
        }
    }
}

/// How the files of a table are partitioned.
#[derive(Debug, PartialEq, Eq)]
pub struct PartitionSpec {
    pub spec_id: i32,
    pub fields: Vec<PartitionField>,
    /// The highest ID that was given to a partition field.
    pub last_assigned_field_id: i32,
}

#[verifier::ext_equal]
pub struct PartitionSpecView {
    pub spec_id: i32,
    pub fields: Seq<PartitionFieldView>,
    pub last_assigned_field_id: i32,
}

impl View for PartitionSpec {
    type V = PartitionSpecView;

    open spec fn view(&self) -> PartitionSpecView {
        PartitionSpecView {
            spec_id: self.spec_id,
            fields: views(self.fields@),
            last_assigned_field_id: self.last_assigned_field_id,
        }
    }
}

impl Content for PartitionSpec {
    fn same(&self, other: &Self) -> (r: bool) {
        self.spec_id == other.spec_id && same_list(&self.fields, &other.fields)
            && self.last_assigned_field_id == other.last_assigned_field_id
    }

    fn copy(&self) -> (r: Self) {
        PartitionSpec {
            spec_id: self.spec_id,
            fields: copy_list(&self.fields),
            last_assigned_field_id: self.last_assigned_field_id,
        }
    }
}

/// A partition field that has no ID yet.
#[derive(Debug, PartialEq, Eq)]
pub struct UnboundPartitionField {
    pub source_id: i32,
    pub name: String,
    pub transform: Transform,
}

#[verifier::ext_equal]
pub struct UnboundPartitionFieldView {
    pub source_id: i32,
    pub name: Seq<char>,
    pub transform: Transform,
}

impl View for UnboundPartitionField {
    type V = UnboundPartitionFieldView;

    open spec fn view(&self) -> UnboundPartitionFieldView {
        UnboundPartitionFieldView {
            source_id: self.source_id,
            name: self.name@,
            transform: self.transform,
        }
    }
}

impl Content for UnboundPartitionField {
    fn same(&self, other: &Self) -> (r: bool) {
        self.source_id == other.source_id && self.name.same(&other.name) && self.transform
            == other.transform
    }

    fn copy(&self) -> (r: Self) {
        UnboundPartitionField {
            source_id: self.source_id,
            name: self.name.clone(),
            transform: self.transform,
        }
    }
}

/// A partition spec whose IDs the catalog is to give.
#[derive(Debug, PartialEq, Eq)]
pub struct UnboundPartitionSpec {
    pub fields: Vec<UnboundPartitionField>,
}

impl View for UnboundPartitionSpec {
    type V = Seq<UnboundPartitionFieldView>;

    open spec fn view(&self) -> Seq<UnboundPartitionFieldView> {
        views(self.fields@)
    }
}

/// A value of a primitive type. A floating point value stands as the bits of its canonical form:
/// the same for every value that is not a number, and no negative zero.
#[derive(Debug, PartialEq, Eq)]
pub enum PrimitiveLiteral {
    Boolean(bool),
    Int(i32),
    Long(i64),
    Float(u32),
    Double(u64),
    Int128(i128),
    UInt128(u128),
    String(String),
    Binary(Vec<u8>),
}

#[verifier::ext_equal]
pub enum PrimitiveLiteralView {
    Boolean(bool),
    Int(i32),
    Long(i64),
    Float(u32),
    Double(u64),
    Int128(i128),
    UInt128(u128),
    String(Seq<char>),
    Binary(Seq<u8>),
}

impl View for PrimitiveLiteral {
    type V = PrimitiveLiteralView;

    open spec fn view(&self) -> PrimitiveLiteralView {
        match self {
            PrimitiveLiteral::Boolean(v) => PrimitiveLiteralView::Boolean(*v),
            PrimitiveLiteral::Int(v) => PrimitiveLiteralView::Int(*v),
            PrimitiveLiteral::Long(v) => PrimitiveLiteralView::Long(*v),
            PrimitiveLiteral::Float(v) => PrimitiveLiteralView::Float(*v),
            PrimitiveLiteral::Double(v) => PrimitiveLiteralView::Double(*v),
            PrimitiveLiteral::Int128(v) => PrimitiveLiteralView::Int128(*v),
            PrimitiveLiteral::UInt128(v) => PrimitiveLiteralView::UInt128(*v),
            PrimitiveLiteral::String(v) => PrimitiveLiteralView::String(v@),
            PrimitiveLiteral::Binary(v) => PrimitiveLiteralView::Binary(v@),
        }
    }
}

/// Whether two lists hold the same bytes.
fn same_bytes(a: &Vec<u8>, b: &Vec<u8>) -> (r: bool)
    ensures
        r == (a@ == b@),
{
    let r = same_list(a, b);
    assert(views(a@) =~= a@);
    assert(views(b@) =~= b@);
    r
}

impl Content for PrimitiveLiteral {
    fn same(&self, other: &Self) -> (r: bool) {
        match (self, other) {
            (PrimitiveLiteral::Boolean(a), PrimitiveLiteral::Boolean(b)) => *a == *b,
            (PrimitiveLiteral::Int(a), PrimitiveLiteral::Int(b)) => *a == *b,
            (PrimitiveLiteral::Long(a), PrimitiveLiteral::Long(b)) => *a == *b,
            (PrimitiveLiteral::Float(a), PrimitiveLiteral::Float(b)) => *a == *b,
            (PrimitiveLiteral::Double(a), PrimitiveLiteral::Double(b)) => *a == *b,
            (PrimitiveLiteral::Int128(a), PrimitiveLiteral::Int128(b)) => *a == *b,
            (PrimitiveLiteral::UInt128(a), PrimitiveLiteral::UInt128(b)) => *a == *b,
            (PrimitiveLiteral::String(a), PrimitiveLiteral::String(b)) => a.same(b),
            (PrimitiveLiteral::Binary(a), PrimitiveLiteral::Binary(b)) => same_bytes(a, b),
            _ => false,
        }
    }

    fn copy(&self) -> (r: Self) {
        match self {
            PrimitiveLiteral::Boolean(v) => PrimitiveLiteral::Boolean(*v),
            PrimitiveLiteral::Int(v) => PrimitiveLiteral::Int(*v),
            PrimitiveLiteral::Long(v) => PrimitiveLiteral::Long(*v),
            PrimitiveLiteral::Float(v) => PrimitiveLiteral::Float(*v),
            PrimitiveLiteral::Double(v) => PrimitiveLiteral::Double(*v),
            PrimitiveLiteral::Int128(v) => PrimitiveLiteral::Int128(*v),
            PrimitiveLiteral::UInt128(v) => PrimitiveLiteral::UInt128(*v),
            PrimitiveLiteral::String(v) => PrimitiveLiteral::String(v.clone()),
            PrimitiveLiteral::Binary(v) => {
                let bytes = copy_list(v);
                assert(views(v@) =~= v@);
                assert(views(bytes@) =~= bytes@);
                PrimitiveLiteral::Binary(bytes)
            },
        }
    }
}

/// A value of a partition field.
#[derive(Debug, PartialEq, Eq)]
pub enum Literal {
    Primitive(PrimitiveLiteral),
}

impl View for Literal {
    type V = PrimitiveLiteralView;

    open spec fn view(&self) -> PrimitiveLiteralView {
        match self {
            Literal::Primitive(v) => v@,
        }
    }
}

impl Content for Literal {
    fn same(&self, other: &Self) -> (r: bool) {
        match (self, other) {
            (Literal::Primitive(a), Literal::Primitive(b)) => a.same(b),
        }
    }

    fn copy(&self) -> (r: Self) {
        match self {
            Literal::Primitive(v) => Literal::Primitive(v.copy()),
        }
    }
}

/// What a file holds.
#[derive(Debug, Clone, Copy, PartialEq, Eq, Structural)]
pub enum DataContentType {
    Data,
    PositionDeletes,
    EqualityDeletes,
}

/// A file of a table.
#[derive(Debug, PartialEq, Eq)]
pub struct DataFile {
    pub content: DataContentType,
    pub file_path: String,
    pub partition_spec_id: i32,
    /// The partition that the file belongs to, by the fields of its partition spec.
    pub partition: Vec<Option<Literal>>,
    pub record_count: u64,
    pub file_size_in_bytes: u64,
    pub sort_order_id: Option<i32>,
    /// The column statistics and the rest of what is recorded of the file, as text.
    pub details: String,
}

/// The values of a partition.
pub open spec fn partition_values(partition: Seq<Option<Literal>>) -> Seq<
    Option<PrimitiveLiteralView>,
> {
    Seq::new(partition.len(), |i: int| optional_view(partition[i]))
}

/// Whether two partitions are the same one.
pub fn same_partition(a: &Vec<Option<Literal>>, b: &Vec<Option<Literal>>) -> (r: bool)
    ensures
        r == (partition_values(a@) == partition_values(b@)),
{
    if a.len() != b.len() {
        assert(partition_values(a@).len() != partition_values(b@).len());
        return false;
    }
    let mut i: usize = 0;
    while i < a.len()
        invariant
            i <= a.len(),
            a.len() == b.len(),
            forall|j: int|
                0 <= j < i ==> optional_view(#[trigger] a@[j]) == optional_view(b@[j]),
        decreases a.len() - i,
    {
        if !same_option(&a[i], &b[i]) {
            assert(partition_values(a@)[i as int] != partition_values(b@)[i as int]);
            return false;
        }
        i += 1;
    }
    assert(partition_values(a@) =~= partition_values(b@));
    true
}

/// The same partition once more.
pub fn copy_partition(partition: &Vec<Option<Literal>>) -> (r: Vec<Option<Literal>>)
    ensures
        partition_values(r@) == partition_values(partition@),
{
    let mut r: Vec<Option<Literal>> = Vec::new();
    let mut i: usize = 0;
    while i < partition.len()
        invariant
            i <= partition.len(),
            r.len() == i,
            forall|j: int|
                0 <= j < i ==> optional_view(#[trigger] r@[j]) == optional_view(partition@[j]),
        decreases partition.len() - i,
    {
        r.push(copy_option(&partition[i]));
        i += 1;
    }
    assert(partition_values(r@) =~= partition_values(partition@));
    r
}

/// A snapshot of a table.
#[derive(Debug, PartialEq, Eq)]
pub struct Snapshot {
    pub snapshot_id: i64,
    pub sequence_number: i64,
    /// How many rows the snapshot added, where the table keeps the lineage of its rows.
    pub added_rows: Option<i64>,
    /// Where the list of its manifests is.
    pub manifest_list: String,
    /// The rest of what is recorded of the snapshot, as text.
    pub details: String,
}

#[verifier::ext_equal]
pub struct SnapshotView {
    pub snapshot_id: i64,
    pub sequence_number: i64,
    pub added_rows: Option<i64>,
    pub manifest_list: Seq<char>,
    pub details: Seq<char>,
}

impl View for Snapshot {
    type V = SnapshotView;

    open spec fn view(&self) -> SnapshotView {
        SnapshotView {
            snapshot_id: self.snapshot_id,
            sequence_number: self.sequence_number,
            added_rows: self.added_rows,
            manifest_list: self.manifest_list@,
            details: self.details@,
        }
    }
}

impl Snapshot {
    /// A snapshot that holds the same.
    pub fn copy(&self) -> (r: Self)
        ensures
            r@ == self@,
    {
        Snapshot {
            snapshot_id: self.snapshot_id,
            sequence_number: self.sequence_number,
            added_rows: self.added_rows,
            manifest_list: self.manifest_list.clone(),
            details: self.details.clone(),
        }
    }
}

/// A named reference to a snapshot.
#[derive(Debug, PartialEq, Eq)]
pub struct SnapshotReference {
    pub snapshot_id: i64,
    /// How long the reference and its snapshots are kept, as text.
    pub retention: String,
}

#[verifier::ext_equal]
pub struct SnapshotReferenceView {
    pub snapshot_id: i64,
    pub retention: Seq<char>,
}

impl View for SnapshotReference {
    type V = SnapshotReferenceView;

    open spec fn view(&self) -> SnapshotReferenceView {
        SnapshotReferenceView { snapshot_id: self.snapshot_id, retention: self.retention@ }
    }
}

impl SnapshotReference {
    /// A reference that holds the same.
    pub fn copy(&self) -> (r: Self)
        ensures
            r@ == self@,
    {
        SnapshotReference { snapshot_id: self.snapshot_id, retention: self.retention.clone() }
    }
}

/// When a snapshot became current.
#[derive(Debug, Clone, Copy, PartialEq, Eq, Structural)]
pub struct SnapshotLog {
    pub timestamp_ms: i64,
    pub snapshot_id: i64,
}

/// An earlier metadata file, and the time of its last update.
#[derive(Debug, PartialEq, Eq)]
pub struct MetadataLog {
    pub timestamp_ms: i64,
    pub metadata_file: String,
}

/// What is recorded of a table, as far as a commit reads or changes it.
#[derive(Debug)]
pub struct TableMetadata {
    pub format_version: FormatVersion,
    pub table_uuid: Option<u128>,
    pub last_sequence_number: i64,
    pub last_updated_ms: i64,
    pub last_column_id: i32,
    pub schemas: Vec<Schema>,
    pub current_schema_id: i32,
    pub partition_specs: Vec<PartitionSpec>,
    pub default_spec_id: i32,
    pub last_partition_id: i32,
    pub current_snapshot_id: Option<i64>,
    pub snapshots: Vec<Snapshot>,
    pub snapshot_log: Vec<SnapshotLog>,
    pub metadata_log: Vec<MetadataLog>,
    pub default_sort_order_id: Option<i32>,
    pub properties: TextMap<String>,
    pub refs: TextMap<SnapshotReference>,
}

#[verifier::ext_equal]
pub struct TableMetadataView {
    pub format_version: FormatVersion,
    pub table_uuid: Option<u128>,
    pub last_sequence_number: i64,
    pub last_updated_ms: i64,
    pub last_column_id: i32,
    pub schemas: Seq<SchemaView>,
    pub current_schema_id: i32,
    pub partition_specs: Seq<PartitionSpecView>,
    pub default_spec_id: i32,
    pub last_partition_id: i32,
    pub current_snapshot_id: Option<i64>,
    pub snapshots: Seq<SnapshotView>,
    pub snapshot_log: Seq<SnapshotLog>,
    /// The earlier metadata files with their times.
    pub metadata_log: Seq<(i64, Seq<char>)>,
    pub default_sort_order_id: Option<i32>,
    pub properties: Map<Seq<char>, Seq<char>>,
    pub refs: Map<Seq<char>, SnapshotReferenceView>,
}

impl View for MetadataLog {
    type V = (i64, Seq<char>);

    open spec fn view(&self) -> (i64, Seq<char>) {
        (self.timestamp_ms, self.metadata_file@)
    }
}

impl View for TableMetadata {
    type V = TableMetadataView;

    open spec fn view(&self) -> TableMetadataView {
        TableMetadataView {
            format_version: self.format_version,
            table_uuid: self.table_uuid,
            last_sequence_number: self.last_sequence_number,
            last_updated_ms: self.last_updated_ms,
            last_column_id: self.last_column_id,
            schemas: views(self.schemas@),
            current_schema_id: self.current_schema_id,
            partition_specs: views(self.partition_specs@),
            default_spec_id: self.default_spec_id,
            last_partition_id: self.last_partition_id,
            current_snapshot_id: self.current_snapshot_id,
            snapshots: views(self.snapshots@),
            snapshot_log: self.snapshot_log@,
            metadata_log: views(self.metadata_log@),
            default_sort_order_id: self.default_sort_order_id,
            properties: self.properties@.map_values(|value: String| value@),
            refs: self.refs@.map_values(|reference: SnapshotReference| reference@),
        }
    }
}

/// What must hold of a table for a commit to go through.
#[derive(Debug, PartialEq, Eq)]
pub enum TableRequirement {
    NotExist,
    UuidMatch { uuid: u128 },
    RefSnapshotIdMatch { reference: String, snapshot_id: Option<i64> },
    LastAssignedFieldIdMatch { last_assigned_field_id: i32 },
    CurrentSchemaIdMatch { current_schema_id: i32 },
    LastAssignedPartitionIdMatch { last_assigned_partition_id: i32 },
    DefaultSpecIdMatch { default_spec_id: i32 },
    DefaultSortOrderIdMatch { default_sort_order_id: i64 },
}

#[verifier::ext_equal]
pub enum TableRequirementView {
    NotExist,
    UuidMatch { uuid: u128 },
    RefSnapshotIdMatch { reference: Seq<char>, snapshot_id: Option<i64> },
    LastAssignedFieldIdMatch { last_assigned_field_id: i32 },
    CurrentSchemaIdMatch { current_schema_id: i32 },
    LastAssignedPartitionIdMatch { last_assigned_partition_id: i32 },
    DefaultSpecIdMatch { default_spec_id: i32 },
    DefaultSortOrderIdMatch { default_sort_order_id: i64 },
}

impl View for TableRequirement {
    type V = TableRequirementView;

    open spec fn view(&self) -> TableRequirementView {
        match self {
            TableRequirement::NotExist => TableRequirementView::NotExist,
            TableRequirement::UuidMatch { uuid } => TableRequirementView::UuidMatch { uuid: *uuid },
            TableRequirement::RefSnapshotIdMatch { reference, snapshot_id } =>
                TableRequirementView::RefSnapshotIdMatch {
                reference: reference@,
                snapshot_id: *snapshot_id,
            },
            TableRequirement::LastAssignedFieldIdMatch { last_assigned_field_id } =>
                TableRequirementView::LastAssignedFieldIdMatch {
                last_assigned_field_id: *last_assigned_field_id,
            },
            TableRequirement::CurrentSchemaIdMatch { current_schema_id } =>
                TableRequirementView::CurrentSchemaIdMatch {
                current_schema_id: *current_schema_id,
            },
            TableRequirement::LastAssignedPartitionIdMatch { last_assigned_partition_id } =>
                TableRequirementView::LastAssignedPartitionIdMatch {
                last_assigned_partition_id: *last_assigned_partition_id,
            },
            TableRequirement::DefaultSpecIdMatch { default_spec_id } =>
                TableRequirementView::DefaultSpecIdMatch { default_spec_id: *default_spec_id },
            TableRequirement::DefaultSortOrderIdMatch { default_sort_order_id } =>
                TableRequirementView::DefaultSortOrderIdMatch {
                default_sort_order_id: *default_sort_order_id,
            },
        }
    }
}

fn same_id(a: Option<i64>, b: Option<i64>) -> (r: bool)
    ensures
        r == (a == b),
{
    match (a, b) {
        (Some(x), Some(y)) => x == y,
        (None, None) => true,
        _ => false,
    }
}

impl Content for TableRequirement {
    fn same(&self, other: &Self) -> (r: bool) {
        match (self, other) {
            (TableRequirement::NotExist, TableRequirement::NotExist) => true,
            (
                TableRequirement::UuidMatch { uuid: a },
                TableRequirement::UuidMatch { uuid: b },
            ) => *a == *b,
            (
                TableRequirement::RefSnapshotIdMatch { reference: a, snapshot_id: x },
                TableRequirement::RefSnapshotIdMatch { reference: b, snapshot_id: y },
            ) => a.same(b) && same_id(*x, *y),
            (
                TableRequirement::LastAssignedFieldIdMatch { last_assigned_field_id: a },
                TableRequirement::LastAssignedFieldIdMatch { last_assigned_field_id: b },
            ) => *a == *b,
            (
                TableRequirement::CurrentSchemaIdMatch { current_schema_id: a },
                TableRequirement::CurrentSchemaIdMatch { current_schema_id: b },
            ) => *a == *b,
            (
                TableRequirement::LastAssignedPartitionIdMatch { last_assigned_partition_id: a },
                TableRequirement::LastAssignedPartitionIdMatch { last_assigned_partition_id: b },
            ) => *a == *b,
            (
                TableRequirement::DefaultSpecIdMatch { default_spec_id: a },
                TableRequirement::DefaultSpecIdMatch { default_spec_id: b },
            ) => *a == *b,
            (
                TableRequirement::DefaultSortOrderIdMatch { default_sort_order_id: a },
                TableRequirement::DefaultSortOrderIdMatch { default_sort_order_id: b },
            ) => *a == *b,
            _ => false,
        }
    }

    fn copy(&self) -> (r: Self) {
        match self {
            TableRequirement::NotExist => TableRequirement::NotExist,
            TableRequirement::UuidMatch { uuid } => TableRequirement::UuidMatch { uuid: *uuid },
            TableRequirement::RefSnapshotIdMatch { reference, snapshot_id } =>
                TableRequirement::RefSnapshotIdMatch {
                reference: reference.clone(),
                snapshot_id: *snapshot_id,
            },
            TableRequirement::LastAssignedFieldIdMatch { last_assigned_field_id } =>
                TableRequirement::LastAssignedFieldIdMatch {
                last_assigned_field_id: *last_assigned_field_id,
            },
            TableRequirement::CurrentSchemaIdMatch { current_schema_id } =>
                TableRequirement::CurrentSchemaIdMatch { current_schema_id: *current_schema_id },
            TableRequirement::LastAssignedPartitionIdMatch { last_assigned_partition_id } =>
                TableRequirement::LastAssignedPartitionIdMatch {
                last_assigned_partition_id: *last_assigned_partition_id,
            },
            TableRequirement::DefaultSpecIdMatch { default_spec_id } =>
                TableRequirement::DefaultSpecIdMatch { default_spec_id: *default_spec_id },
            TableRequirement::DefaultSortOrderIdMatch { default_sort_order_id } =>
                TableRequirement::DefaultSortOrderIdMatch {
                default_sort_order_id: *default_sort_order_id,
            },
        }
    }
}

/// A change to the metadata of a table.
#[derive(Debug, PartialEq, Eq)]
pub enum TableUpdate {
    AddSchema { schema: Box<Schema> },
    SetCurrentSchema { schema_id: i32 },
    AddSpec { spec: UnboundPartitionSpec },
    SetDefaultSpec { spec_id: i32 },
    UpgradeFormatVersion { format_version: FormatVersion },
    AddSnapshot { snapshot: Snapshot },
    SetSnapshotRef { ref_name: String, reference: SnapshotReference },
    /// Any other change, as text.
    Other(String),
}

#[verifier::ext_equal]
pub enum TableUpdateView {
    AddSchema { schema: SchemaView },
    SetCurrentSchema { schema_id: i32 },
    AddSpec { spec: Seq<UnboundPartitionFieldView> },
    SetDefaultSpec { spec_id: i32 },
    UpgradeFormatVersion { format_version: FormatVersion },
    AddSnapshot { snapshot: SnapshotView },
    SetSnapshotRef { ref_name: Seq<char>, reference: SnapshotReferenceView },
    Other(Seq<char>),
}

impl View for TableUpdate {
    type V = TableUpdateView;

    open spec fn view(&self) -> TableUpdateView {
        match self {
            TableUpdate::AddSchema { schema } => TableUpdateView::AddSchema { schema: schema@ },
            TableUpdate::SetCurrentSchema { schema_id } => TableUpdateView::SetCurrentSchema {
                schema_id: *schema_id,
            },
            TableUpdate::AddSpec { spec } => TableUpdateView::AddSpec { spec: spec@ },
            TableUpdate::SetDefaultSpec { spec_id } => TableUpdateView::SetDefaultSpec {
                spec_id: *spec_id,
            },
            TableUpdate::UpgradeFormatVersion { format_version } =>
                TableUpdateView::UpgradeFormatVersion { format_version: *format_version },
            TableUpdate::AddSnapshot { snapshot } => TableUpdateView::AddSnapshot {
                snapshot: snapshot@,
            },
            TableUpdate::SetSnapshotRef { ref_name, reference } => TableUpdateView::SetSnapshotRef {
                ref_name: ref_name@,
                reference: reference@,
            },
            TableUpdate::Other(text) => TableUpdateView::Other(text@),
        }
    }
}

impl TableUpdate {
    /// An update that holds the same.
    pub fn copy(&self) -> (r: Self)
        ensures
            r@ == self@,
    {
        match self {
            TableUpdate::AddSchema { schema } => TableUpdate::AddSchema {
                schema: Box::new(schema.copy()),
            },
            TableUpdate::SetCurrentSchema { schema_id } => TableUpdate::SetCurrentSchema {
                schema_id: *schema_id,
            },
            TableUpdate::AddSpec { spec } => TableUpdate::AddSpec {
                spec: UnboundPartitionSpec { fields: copy_list(&spec.fields) },
            },
            TableUpdate::SetDefaultSpec { spec_id } => TableUpdate::SetDefaultSpec {
                spec_id: *spec_id,
            },
            TableUpdate::UpgradeFormatVersion { format_version } =>
                TableUpdate::UpgradeFormatVersion { format_version: *format_version },
            TableUpdate::AddSnapshot { snapshot } => TableUpdate::AddSnapshot {
                snapshot: snapshot.copy(),
            },
            TableUpdate::SetSnapshotRef { ref_name, reference } => TableUpdate::SetSnapshotRef {
                ref_name: ref_name.clone(),
                reference: reference.copy(),
            },
            TableUpdate::Other(text) => TableUpdate::Other(text.clone()),
        }
    }
}

/// The table of a catalog that a commit writes to.
#[derive(Debug, PartialEq, Eq)]
pub struct LakehouseExecutionContext {
    /// The name of the table in its catalog, part by part.
    pub catalog_table: Vec<String>,
    /// Who is in charge of the table, and the rest of the context, as text.
    pub details: String,
}

#[verifier::ext_equal]
pub struct LakehouseExecutionContextView {
    pub catalog_table: Seq<Seq<char>>,
    pub details: Seq<char>,
}

impl View for LakehouseExecutionContext {
    type V = LakehouseExecutionContextView;

    open spec fn view(&self) -> LakehouseExecutionContextView {
        LakehouseExecutionContextView {
            catalog_table: views(self.catalog_table@),
            details: self.details@,
        }
    }
}

impl Content for LakehouseExecutionContext {
    fn same(&self, other: &Self) -> (r: bool) {
        same_list(&self.catalog_table, &other.catalog_table) && self.details.same(&other.details)
    }

    fn copy(&self) -> (r: Self) {
        LakehouseExecutionContext {
            catalog_table: copy_list(&self.catalog_table),
            details: self.details.clone(),
        }
    }
}

impl Content for (String, String) {
    fn same(&self, other: &Self) -> (r: bool) {
        self.0.same(&other.0) && self.1.same(&other.1)
    }

    fn copy(&self) -> (r: Self) {
        (self.0.clone(), self.1.clone())
    }
}

/// What a writer reports of the files it wrote, beside the files.
#[derive(Debug, PartialEq, Eq)]
pub struct CommitMeta {
    pub table_uri: String,
    pub row_count: u64,
    pub requirements: Vec<TableRequirement>,
    pub table_properties: Vec<(String, String)>,
    pub lakehouse_table: Option<LakehouseExecutionContext>,
    pub schema: Option<Schema>,
    pub partition_spec: Option<PartitionSpec>,
}

#[verifier::ext_equal]
pub struct CommitMetaView {
    pub table_uri: Seq<char>,
    pub row_count: u64,
    pub requirements: Seq<TableRequirementView>,
    pub table_properties: Seq<(Seq<char>, Seq<char>)>,
    pub lakehouse_table: Option<LakehouseExecutionContextView>,
    pub schema: Option<SchemaView>,
    pub partition_spec: Option<PartitionSpecView>,
}

impl View for CommitMeta {
    type V = CommitMetaView;

    open spec fn view(&self) -> CommitMetaView {
        CommitMetaView {
            table_uri: self.table_uri@,
            row_count: self.row_count,
            requirements: views(self.requirements@),
            table_properties: views(self.table_properties@),
            lakehouse_table: optional_view(self.lakehouse_table),
            schema: optional_view(self.schema),
            partition_spec: optional_view(self.partition_spec),
        }
    }
}

impl Content for CommitMeta {
    fn same(&self, other: &Self) -> (r: bool) {
        self.table_uri.same(&other.table_uri) && self.row_count == other.row_count && same_list(
            &self.requirements,
            &other.requirements,
        ) && same_list(&self.table_properties, &other.table_properties) && same_option(
            &self.lakehouse_table,
            &other.lakehouse_table,
        ) && same_option(&self.schema, &other.schema) && same_option(
            &self.partition_spec,
            &other.partition_spec,
        )
    }

    fn copy(&self) -> (r: Self) {
        CommitMeta {
            table_uri: self.table_uri.clone(),
            row_count: self.row_count,
            requirements: copy_list(&self.requirements),
            table_properties: copy_list(&self.table_properties),
            lakehouse_table: copy_option(&self.lakehouse_table),
            schema: copy_option(&self.schema),
            partition_spec: copy_option(&self.partition_spec),
        }
    }
}

} // verus!
