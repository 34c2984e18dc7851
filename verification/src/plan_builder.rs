//! The plan of a write: its rows are spread over tasks, sorted within each of them, written and
//! committed.
use vstd::prelude::*;
use vstd::string::*;

use crate::commit_exec::IcebergCommitExec;
use crate::content::{copy_option, optional_view};
use crate::error::{EngineError, EngineErrorView};
use crate::table::{LakehouseExecutionContext, SnapshotUpdateKind};
use crate::table_writer::{find_text, first_text};
use crate::text::{text_equal, texts};

verus! {

/// What becomes of the rows that a table holds already. What only the writers read of a mode is an
/// `M`.
#[derive(Debug, PartialEq, Eq)]
pub enum PhysicalSinkMode<M> {
    /// They are all replaced.
    Overwrite,
    /// Those that meet a condition are replaced.
    OverwriteIf(M),
    /// Those in the partitions of the new rows are replaced.
    OverwritePartitions,
    /// They stay.
    Other(M),
}

/// A field by which a table is partitioned.
#[derive(Debug, PartialEq, Eq)]
pub struct CatalogPartitionField {
    /// The column that it comes from.
    pub column: String,
    /// The field as an expression, for messages.
    pub expression: String,
}

/// How the writers are to write. What only they read is an `O`.
#[derive(Debug, PartialEq, Eq)]
pub struct IcebergWriterExecOptions<O> {
    pub lakehouse_table: Option<LakehouseExecutionContext>,
    pub writing: O,
}

/// The table that is written to.
#[derive(Debug, PartialEq, Eq)]
pub struct IcebergTableConfig<O> {
    pub table_url: String,
    pub partition_columns: Vec<CatalogPartitionField>,
    pub table_exists: bool,
    pub options: IcebergWriterExecOptions<O>,
}

/// A plan that gives rows, and what is known of it.
#[derive(Debug, PartialEq, Eq)]
pub struct InputPlan<P> {
    pub plan: P,
    /// The names of its columns.
    pub columns: Vec<String>,
    pub partition_count: usize,
}

/// What rows are sorted by.
#[derive(Debug, PartialEq, Eq)]
pub enum SortKey<S> {
    /// A column, by its name and its place; ascending, rows without a value last.
    Column { name: String, index: usize },
    /// What the user asked for.
    User(S),
}

/// The rows of a write as its writers get them.
#[derive(Debug, PartialEq, Eq)]
pub struct PreparedRows<P, S> {
    pub input: InputPlan<P>,
    /// Into how many partitions the rows are spread, where they are.
    pub repartition: Option<usize>,
    /// What the rows of each partition are sorted by; nothing where they are not sorted.
    pub sort_keys: Vec<SortKey<S>>,
}

/// The plan node that writes rows.
#[derive(Debug, PartialEq, Eq)]
pub struct IcebergWriterNode<P, S, O, M> {
    pub input: PreparedRows<P, S>,
    pub table_config: IcebergTableConfig<O>,
    pub sink_mode: PhysicalSinkMode<M>,
}

/// The parts of a write, to make its plan from.
pub struct IcebergPlanBuilder<P, S, O, M> {
    pub input: InputPlan<P>,
    pub table_config: IcebergTableConfig<O>,
    pub sink_mode: PhysicalSinkMode<M>,
    pub sort_order: Option<Vec<S>>,
    pub expected_snapshot_id: Option<Option<i64>>,
    pub removed_data_file_paths: Vec<String>,
    pub dynamic_partition_overwrite: bool,
    /// How many tasks the session wants.
    pub target_partitions: usize,
}

/// The columns that partition fields come from.
pub open spec fn source_columns(fields: Seq<CatalogPartitionField>) -> Seq<Seq<char>> {
    Seq::new(fields.len(), |i: int| fields[i].column@)
}

/// The texts, each only where it first occurs.
pub open spec fn first_occurrences(names: Seq<Seq<char>>) -> Seq<Seq<char>>
    decreases names.len(),
{
    if names.len() == 0 {
        seq![]
    } else {
        let earlier = first_occurrences(names.drop_last());
        if earlier.contains(names.last()) {
            earlier
        } else {
            earlier.push(names.last())
        }
    }
}

/// All partition fields come from columns of the rows.
pub open spec fn columns_known(
    fields: Seq<CatalogPartitionField>,
    columns: Seq<Seq<char>>,
) -> bool {
    forall|i: int| 0 <= i < fields.len() ==> columns.contains((#[trigger] fields[i]).column@)
}

/// The error about the first partition field that comes from no column of the rows.
pub open spec fn unknown_column(
    fields: Seq<CatalogPartitionField>,
    columns: Seq<Seq<char>>,
    error: EngineErrorView,
) -> bool {
    exists|i: int|
        0 <= i < fields.len() && !columns.contains((#[trigger] fields[i]).column@) && error
            == EngineErrorView::Plan(
            "Partition column '"@ + fields[i].expression@ + "' not found in schema"@,
        ) && forall|j: int| 0 <= j < i ==> columns.contains((#[trigger] fields[j]).column@)
}

/// Rows are spread over as many partitions as are wanted, unless they are in as many already.
pub open spec fn spread(partition_count: usize, target_partitions: usize) -> Option<usize> {
    let target = if target_partitions == 0 {
        1
    } else {
        target_partitions
    };
    if partition_count >= target {
        None
    } else {
        Some(target)
    }
}

/// The sort keys begin with the columns that the table is partitioned by, each once, and end with
/// what the user asked for.
pub open spec fn sorts_by<S>(
    keys: Seq<SortKey<S>>,
    partition_columns: Seq<Seq<char>>,
    columns: Seq<Seq<char>>,
    user: Seq<S>,
) -> bool {
    let leading = first_occurrences(partition_columns);
    &&& keys.len() == leading.len() + user.len()
    &&& forall|i: int|
        0 <= i < leading.len() ==> ((#[trigger] keys[i]) matches SortKey::Column { name, index }
            && name@ == leading[i] && first_text(columns, name@, index as int))
    &&& forall|i: int|
        0 <= i < user.len() ==> #[trigger] keys[leading.len() + i] == SortKey::User(user[i])
}

/// How a commit changes the files of the table.
pub open spec fn update_kind<M>(
    table_exists: bool,
    mode: PhysicalSinkMode<M>,
) -> SnapshotUpdateKind {
    if !table_exists {
        SnapshotUpdateKind::FastAppend
    } else {
        match mode {
            PhysicalSinkMode::Overwrite => SnapshotUpdateKind::FullOverwrite,
            PhysicalSinkMode::OverwriteIf(_) => SnapshotUpdateKind::CopyOnWrite,
            PhysicalSinkMode::OverwritePartitions => SnapshotUpdateKind::CopyOnWrite,
            PhysicalSinkMode::Other(_) => SnapshotUpdateKind::FastAppend,
        }
    }
}

/// What the user asked for, where they did.
pub open spec fn user_keys<S>(sort_order: Option<Vec<S>>) -> Seq<S> {
    match sort_order {
        Some(keys) => keys@,
        None => seq![],
    }
}

/// Refuses partition fields that come from no column of the rows. The columns keep their order.
pub fn add_projection_node<P>(
    input: &InputPlan<P>,
    partition_columns: &Vec<CatalogPartitionField>,
) -> (r: Result<(), EngineError>)
    ensures
        r is Ok <==> columns_known(partition_columns@, texts(input.columns@)),
        r matches Err(e) ==> unknown_column(partition_columns@, texts(input.columns@), e@),
{
    let mut i: usize = 0;
    while i < partition_columns.len()
        invariant
            i <= partition_columns.len(),
            forall|j: int|
                0 <= j < i ==> texts(input.columns@).contains(
                    (#[trigger] partition_columns@[j]).column@,
                ),
        decreases partition_columns.len() - i,
    {
        match find_text(&input.columns, partition_columns[i].column.as_str()) {
            Some(k) => {
                assert(texts(input.columns@)[k as int] == partition_columns@[i as int].column@);
            },
            None => {
                assert(!texts(input.columns@).contains(partition_columns@[i as int].column@));
                return Err(
                    EngineError::Plan(
                        String::from_str("Partition column '").concat(
                            partition_columns[i].expression.as_str(),
                        ).concat("' not found in schema"),
                    ),
                );
            },
        }
        i += 1;
    }
    Ok(())
}

/// Into how many partitions rows are spread, where they are.
pub fn add_repartition_node(partition_count: usize, target_partitions: usize) -> (r: Option<usize>)
    ensures
        r == spread(partition_count, target_partitions),
{
    let target: usize = if target_partitions == 0 {
        1
    } else {
        target_partitions
    };
    if partition_count >= target {
        None
    } else {
        Some(target)
    }
}

/// The columns among the keys.
spec fn leads<S>(
    keys: Seq<SortKey<S>>,
    leading: Seq<Seq<char>>,
    columns: Seq<Seq<char>>,
) -> bool {
    &&& keys.len() == leading.len()
    &&& forall|i: int|
        0 <= i < leading.len() ==> ((#[trigger] keys[i]) matches SortKey::Column { name, index }
            && name@ == leading[i] && first_text(columns, name@, index as int))
}

fn has_column<S>(
    keys: &Vec<SortKey<S>>,
    column: &str,
    Ghost(leading): Ghost<Seq<Seq<char>>>,
    Ghost(columns): Ghost<Seq<Seq<char>>>,
) -> (r: bool)
    requires
        leads(keys@, leading, columns),
    ensures
        r == leading.contains(column@),
{
    let mut i: usize = 0;
    while i < keys.len()
        invariant
            i <= keys.len(),
            leads(keys@, leading, columns),
            forall|j: int| 0 <= j < i ==> (#[trigger] leading[j]) != column@,
        decreases keys.len() - i,
    {
        match &keys[i] {
            SortKey::Column { name, .. } => {
                assert(keys@[i as int] matches SortKey::Column { name, index } && name@
                    == leading[i as int]);
                if text_equal(name.as_str(), column) {
                    return true;
                }
            },
            SortKey::User(_) => {
                assert(keys@[i as int] is Column);
            },
        }
        i += 1;
    }
    false
}

/// What the rows of each partition are sorted by: first the columns that the table is partitioned
/// by, so that the rows of a partition of the table come together, then what the user asked for.
pub fn add_sort_node<P, S>(
    input: &InputPlan<P>,
    partition_columns: &Vec<CatalogPartitionField>,
    sort_order: Option<Vec<S>>,
) -> (r: Result<Vec<SortKey<S>>, EngineError>)
    ensures
        r is Ok <==> columns_known(partition_columns@, texts(input.columns@)),
        r matches Ok(keys) ==> sorts_by(
            keys@,
            source_columns(partition_columns@),
            texts(input.columns@),
            user_keys(sort_order),
        ),
        r matches Err(e) ==> exists|i: int|
            0 <= i < partition_columns@.len() && !texts(input.columns@).contains(
                (#[trigger] partition_columns@[i]).column@,
            ) && e@ == EngineErrorView::Plan(
                "Partition column '"@ + partition_columns@[i].column@ + "' not found in schema"@,
            ) && forall|j: int|
                0 <= j < i ==> texts(input.columns@).contains(
                    (#[trigger] partition_columns@[j]).column@,
                ),
{
    let ghost columns = texts(input.columns@);
    let ghost sources = source_columns(partition_columns@);
    let mut keys: Vec<SortKey<S>> = Vec::new();
    let mut i: usize = 0;
    assert(sources.take(0) =~= seq![]);
    while i < partition_columns.len()
        invariant
            i <= partition_columns.len(),
            columns == texts(input.columns@),
            sources == source_columns(partition_columns@),
            leads(keys@, first_occurrences(sources.take(i as int)), columns),
            forall|j: int|
                0 <= j < i ==> columns.contains((#[trigger] partition_columns@[j]).column@),
        decreases partition_columns.len() - i,
    {
        let ghost leading = first_occurrences(sources.take(i as int));
        let column = partition_columns[i].column.as_str();
        proof {
            assert(sources.take(i + 1).drop_last() =~= sources.take(i as int));
            assert(sources.take(i + 1).last() == column@);
        }
        if !has_column(&keys, column, Ghost(leading), Ghost(columns)) {
            match find_text(&input.columns, column) {
                Some(index) => {
                    let ghost before = keys@;
                    assert(columns[index as int] == column@);
                    keys.push(SortKey::Column { name: partition_columns[i].column.clone(), index });
                    assert forall|k: int| 0 <= k < leading.len() + 1 implies ((
                    #[trigger] keys@[k]) matches SortKey::Column { name, index } && name@
                        == leading.push(column@)[k] && first_text(columns, name@, index as int)) by {
                        if k < leading.len() {
                            assert(keys@[k] == before[k]);
                        }
                    }
                },
                None => {
                    assert(!columns.contains(partition_columns@[i as int].column@));
                    return Err(
                        EngineError::Plan(
                            String::from_str("Partition column '").concat(column).concat(
                                "' not found in schema",
                            ),
                        ),
                    );
                },
            }
        } else {
            proof {
                let k = choose|k: int| 0 <= k < leading.len() && leading[k] == column@;
                assert(keys@[k] matches SortKey::Column { name, index } && first_text(
                    columns,
                    name@,
                    index as int,
                ));
                let index = keys@[k]->index;
                assert(columns[index as int] == column@);
            }
        }
        i += 1;
    }
    assert(sources.take(sources.len() as int) =~= sources);
    let ghost leading = first_occurrences(sources);
    match sort_order {
        Some(order) => {
            let ghost user = order@;
            let ghost first = keys@;
            for key in iter: order
                invariant
                    user == iter.seq(),
                    first.len() == leading.len(),
                    keys@.len() == leading.len() + iter.index(),
                    forall|k: int| 0 <= k < leading.len() ==> #[trigger] keys@[k] == first[k],
                    forall|k: int|
                        0 <= k < iter.index() ==> #[trigger] keys@[leading.len() + k]
                            == SortKey::User(user[k]),
            {
                let ghost done = keys@;
                let ghost n = iter.index() as int;
                keys.push(SortKey::User(key));
                assert forall|k: int| 0 <= k < n + 1 implies #[trigger] keys@[leading.len() + k]
                    == SortKey::User(user[k]) by {
                    if k < n {
                        assert(keys@[leading.len() + k] == done[leading.len() + k]);
                    }
                }
            }
        },
        None => {},
    }
    Ok(keys)
}

/// How the commit of a write changes the files of the table.
pub fn snapshot_update_kind<M>(table_exists: bool, sink_mode: &PhysicalSinkMode<M>) -> (r:
    SnapshotUpdateKind)
    ensures
        r == update_kind(table_exists, *sink_mode),
{
    if table_exists {
        match sink_mode {
            PhysicalSinkMode::Overwrite => SnapshotUpdateKind::FullOverwrite,
            PhysicalSinkMode::OverwriteIf(_) => SnapshotUpdateKind::CopyOnWrite,
            PhysicalSinkMode::OverwritePartitions => SnapshotUpdateKind::CopyOnWrite,
            PhysicalSinkMode::Other(_) => SnapshotUpdateKind::FastAppend,
        }
    } else {
        SnapshotUpdateKind::FastAppend
    }
}

impl<P, S, O, M> IcebergPlanBuilder<P, S, O, M> {
    pub fn new(
        input: InputPlan<P>,
        table_config: IcebergTableConfig<O>,
        sink_mode: PhysicalSinkMode<M>,
        sort_order: Option<Vec<S>>,
        target_partitions: usize,
    ) -> (r: Self)
        ensures
            r.input == input,
            r.table_config == table_config,
            r.sink_mode == sink_mode,
            r.sort_order == sort_order,
            r.target_partitions == target_partitions,
            r.expected_snapshot_id is None,
            r.removed_data_file_paths@ == Seq::<String>::empty(),
            !r.dynamic_partition_overwrite,
    {
        IcebergPlanBuilder {
            input,
            table_config,
            sink_mode,
            sort_order,
            expected_snapshot_id: None,
            removed_data_file_paths: Vec::new(),
            dynamic_partition_overwrite: false,
            target_partitions,
        }
    }

    pub fn with_expected_snapshot_id(self, expected_snapshot_id: Option<Option<i64>>) -> (r: Self)
        ensures
            r == (IcebergPlanBuilder { expected_snapshot_id, ..self }),
    {
        let mut builder = self;
        builder.expected_snapshot_id = expected_snapshot_id;
        builder
    }

    pub fn with_removed_data_file_paths(self, paths: Vec<String>) -> (r: Self)
        ensures
            r == (IcebergPlanBuilder { removed_data_file_paths: paths, ..self }),
    {
        let mut builder = self;
        builder.removed_data_file_paths = paths;
        builder
    }

    pub fn with_dynamic_partition_overwrite(self, enabled: bool) -> (r: Self)
        ensures
            r == (IcebergPlanBuilder { dynamic_partition_overwrite: enabled, ..self }),
    {
        let mut builder = self;
        builder.dynamic_partition_overwrite = enabled;
        builder
    }

    /// Makes the plan: the commit of what is written of the rows, sorted within tasks that they
    /// are spread over.
    pub fn build(self) -> (r: Result<IcebergCommitExec<IcebergWriterNode<P, S, O, M>>, EngineError>)
        ensures
            r is Ok <==> columns_known(
                self.table_config.partition_columns@,
                texts(self.input.columns@),
            ),
            r matches Err(e) ==> unknown_column(
                self.table_config.partition_columns@,
                texts(self.input.columns@),
                e@,
            ),
            r matches Ok(commit) ==> {
                &&& commit.input.input.input == self.input
                &&& commit.input.input.repartition == spread(
                    self.input.partition_count,
                    self.target_partitions,
                )
                &&& sorts_by(
                    commit.input.input.sort_keys@,
                    source_columns(self.table_config.partition_columns@),
                    texts(self.input.columns@),
                    user_keys(self.sort_order),
                )
                &&& commit.input.table_config == self.table_config
                &&& commit.input.sink_mode == self.sink_mode
                &&& commit.table_url == self.table_config.table_url
                &&& optional_view(commit.lakehouse_table) == optional_view(
                    self.table_config.options.lakehouse_table,
                )
                &&& commit.snapshot_update_kind == update_kind(
                    self.table_config.table_exists,
                    self.sink_mode,
                )
                &&& commit.expected_snapshot_id == self.expected_snapshot_id
                &&& commit.removed_data_file_paths == self.removed_data_file_paths
                &&& commit.dynamic_partition_overwrite == self.dynamic_partition_overwrite
                &&& commit.caller_expected_snapshot_id is None
                &&& commit.snapshot_properties@ == Seq::<(String, String)>::empty()
            },
    {
        match add_projection_node(&self.input, &self.table_config.partition_columns) {
            Ok(()) => {},
            Err(error) => return Err(error),
        }
        let repartition = add_repartition_node(
            self.input.partition_count,
            self.target_partitions,
        );
        let sort_keys = match add_sort_node(
            &self.input,
            &self.table_config.partition_columns,
            self.sort_order,
        ) {
            Ok(keys) => keys,
            Err(error) => return Err(error),
        };
        let table_url = self.table_config.table_url.clone();
        let lakehouse_table = copy_option(&self.table_config.options.lakehouse_table);
        let kind = snapshot_update_kind(self.table_config.table_exists, &self.sink_mode);
        let writer = IcebergWriterNode {
            input: PreparedRows { input: self.input, repartition, sort_keys },
            table_config: self.table_config,
            sink_mode: self.sink_mode,
        };
        Ok(
            IcebergCommitExec::new(
                writer,
                table_url,
                lakehouse_table,
                kind,
            ).with_expected_snapshot_id(self.expected_snapshot_id).with_removed_data_file_paths(
                self.removed_data_file_paths,
            ).with_dynamic_partition_overwrite(self.dynamic_partition_overwrite),
        )
    }
}

/// The columns that rows are sorted by first are those that the table is partitioned by, each once.
pub proof fn leading_columns_are_the_partition_columns(names: Seq<Seq<char>>)
    ensures
        first_occurrences(names).no_duplicates(),
        forall|name: Seq<char>| #[trigger]
            first_occurrences(names).contains(name) <==> names.contains(name),
    decreases names.len(),
{
    if names.len() > 0 {
        let earlier = first_occurrences(names.drop_last());
        let last = names.last();
        leading_columns_are_the_partition_columns(names.drop_last());
        assert forall|name: Seq<char>| #[trigger]
            first_occurrences(names).contains(name) <==> names.contains(name) by {
            assert(names.contains(name) <==> names.drop_last().contains(name) || name == last) by {
                if names.contains(name) {
                    let k = choose|k: int| 0 <= k < names.len() && names[k] == name;
                    if k < names.len() - 1 {
                        assert(names.drop_last()[k] == name);
                    }
                }
                if names.drop_last().contains(name) {
                    let k = choose|k: int|
                        0 <= k < names.drop_last().len() && names.drop_last()[k] == name;
                    assert(names[k] == name);
                }
                assert(names[names.len() - 1] == last);
            }
            if !earlier.contains(last) {
                let all = earlier.push(last);
                if earlier.contains(name) {
                    let k = choose|k: int| 0 <= k < earlier.len() && earlier[k] == name;
                    assert(all[k] == name);
                }
                assert(all[earlier.len() as int] == last);
                if all.contains(name) {
                    let k = choose|k: int| 0 <= k < all.len() && all[k] == name;
                    if k < earlier.len() {
                        assert(earlier[k] == name);
                    }
                }
            }
        }
    }
}

/// After rows are spread there are at least as many partitions as are wanted, and never fewer than
/// before.
pub proof fn spreading_reaches_the_target(partition_count: usize, target_partitions: usize)
    ensures
        ({
            let after = match spread(partition_count, target_partitions) {
                Some(n) => n,
                None => partition_count,
            };
            after >= target_partitions && after >= 1 && after >= partition_count
        }),
{
}

} // verus!
