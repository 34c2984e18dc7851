//! What the plan of a write is, in terms of the rows, the table and the session.
use vstd::prelude::*;

use crate::commit_exec::IcebergCommitExec;
use crate::content_laws::both_or_none;
use crate::error::EngineError;
use crate::plan_builder::{
    columns_known, first_occurrences, leading_columns_are_the_partition_columns,
    snapshot_update_kind, source_columns, IcebergPlanBuilder, IcebergWriterNode,
    InputPlan, PhysicalSinkMode, SortKey,
};
use crate::table::SnapshotUpdateKind;
use crate::text::texts;

verus! {

/// The column is among those of the rows.
pub open spec fn has_column<P>(input: InputPlan<P>, column: Seq<char>) -> bool {
    exists|i: int| 0 <= i < input.columns@.len() && (#[trigger] input.columns@[i])@ == column
}

pub proof fn lemma_has_column<P>(input: InputPlan<P>, column: Seq<char>)
    ensures
        texts(input.columns@).contains(column) <==> has_column(input, column),
{
    let t = texts(input.columns@);
    if t.contains(column) {
        let i = choose|i: int| 0 <= i < t.len() && t[i] == column;
        assert(input.columns@[i]@ == column);
    }
    if has_column(input, column) {
        let i = choose|i: int|
            0 <= i < input.columns@.len() && (#[trigger] input.columns@[i])@ == column;
        assert(t[i] == column);
    }
}

/// A plan is made exactly where every partition field comes from a column of the rows. Else it is an
/// error of planning.
pub proof fn plans_need_their_partition_columns<P, S, O, M>(
    builder: IcebergPlanBuilder<P, S, O, M>,
    r: Result<IcebergCommitExec<IcebergWriterNode<P, S, O, M>>, EngineError>,
)
    requires
        call_ensures(IcebergPlanBuilder::<P, S, O, M>::build, (builder,), r),
    ensures
        r is Ok <==> forall|i: int|
            0 <= i < builder.table_config.partition_columns@.len() ==> has_column(
                builder.input,
                (#[trigger] builder.table_config.partition_columns@[i]).column@,
            ),
        r is Err ==> r->Err_0 is Plan,
{
    let fields = builder.table_config.partition_columns@;
    assert forall|i: int| 0 <= i < fields.len() implies (texts(builder.input.columns@).contains(
        (#[trigger] fields[i]).column@,
    ) <==> has_column(builder.input, fields[i].column@)) by {
        lemma_has_column(builder.input, fields[i].column@);
    }
    if columns_known(fields, texts(builder.input.columns@)) {
        assert forall|i: int| 0 <= i < fields.len() implies has_column(
            builder.input,
            (#[trigger] fields[i]).column@,
        ) by {
            assert(texts(builder.input.columns@).contains(fields[i].column@));
        }
    } else {
        let i = choose|i: int|
            0 <= i < fields.len() && !texts(builder.input.columns@).contains(
                (#[trigger] fields[i]).column@,
            );
        assert(!has_column(builder.input, fields[i].column@));
    }
}

/// What the user asked rows to be sorted by.
pub open spec fn asked_for<P, S, O, M>(builder: IcebergPlanBuilder<P, S, O, M>) -> Seq<S> {
    match builder.sort_order {
        Some(order) => order@,
        None => seq![],
    }
}

/// The column with this name stands at this place among those of the rows, and at no earlier one.
pub open spec fn column_at<P>(input: InputPlan<P>, name: Seq<char>, index: int) -> bool {
    &&& 0 <= index < input.columns@.len()
    &&& input.columns@[index]@ == name
    &&& forall|j: int| 0 <= j < index ==> (#[trigger] input.columns@[j])@ != name
}

/// A partition field comes from the column with this name.
pub open spec fn partitions_by<P, S, O, M>(
    builder: IcebergPlanBuilder<P, S, O, M>,
    name: Seq<char>,
    f: int,
) -> bool {
    0 <= f < builder.table_config.partition_columns@.len()
        && builder.table_config.partition_columns@[f].column@ == name
}

proof fn lemma_keys<P, S, O, M>(
    builder: IcebergPlanBuilder<P, S, O, M>,
    r: Result<IcebergCommitExec<IcebergWriterNode<P, S, O, M>>, EngineError>,
    i: int,
)
    requires
        call_ensures(IcebergPlanBuilder::<P, S, O, M>::build, (builder,), r),
        r is Ok,
    ensures
        ({
            let keys = r->Ok_0.input.input.sort_keys@;
            let leading = first_occurrences(
                source_columns(builder.table_config.partition_columns@),
            );
            &&& keys.len() == leading.len() + asked_for(builder).len()
            &&& 0 <= i < leading.len() ==> keys[i] is Column && keys[i]->name@ == leading[i]
                && column_at(builder.input, keys[i]->name@, keys[i]->index as int)
            &&& 0 <= i < asked_for(builder).len() ==> keys[leading.len() + i] == SortKey::User(
                asked_for(builder)[i],
            )
        }),
{
    let keys = r->Ok_0.input.input.sort_keys@;
    let leading = first_occurrences(source_columns(builder.table_config.partition_columns@));
    let columns = texts(builder.input.columns@);
    if 0 <= i < leading.len() {
        assert(keys[i] is Column && keys[i]->name@ == leading[i]);
        let index = keys[i]->index as int;
        let name = keys[i]->name@;
        assert(columns[index] == builder.input.columns@[index]@);
        assert forall|j: int| 0 <= j < index implies (#[trigger] builder.input.columns@[j])@
            != name by {
            assert(columns[j] != name);
        }
    }
    if 0 <= i < asked_for(builder).len() {
        assert(keys[leading.len() + i] == SortKey::User(asked_for(builder)[i]));
    }
}

/// The keys that rows are sorted by end with those of the user, all of them and in their order. Each
/// one before those is a column that the table is partitioned by, at the place of the first column
/// of that name.
pub proof fn rows_are_sorted_by_partition_first<P, S, O, M>(
    builder: IcebergPlanBuilder<P, S, O, M>,
    r: Result<IcebergCommitExec<IcebergWriterNode<P, S, O, M>>, EngineError>,
    i: int,
)
    requires
        call_ensures(IcebergPlanBuilder::<P, S, O, M>::build, (builder,), r),
        r is Ok,
        0 <= i < r->Ok_0.input.input.sort_keys@.len(),
    ensures
        ({
            let keys = r->Ok_0.input.input.sort_keys@;
            let n = keys.len() - asked_for(builder).len();
            &&& n >= 0
            &&& i >= n ==> keys[i] == SortKey::User(asked_for(builder)[i - n])
            &&& i < n ==> keys[i] is Column && column_at(
                builder.input,
                keys[i]->name@,
                keys[i]->index as int,
            ) && exists|f: int| partitions_by(builder, keys[i]->name@, f)
        }),
{
    let fields = builder.table_config.partition_columns@;
    let names = source_columns(fields);
    let leading = first_occurrences(names);
    lemma_keys(builder, r, i);
    lemma_keys(builder, r, i - leading.len());
    if i < leading.len() {
        leading_columns_are_the_partition_columns(names);
        assert(leading.contains(leading[i]));
        assert(names.contains(leading[i]));
        let f = choose|f: int| 0 <= f < names.len() && names[f] == leading[i];
        assert(partitions_by(builder, leading[i], f));
    }
}

/// Rows are sorted by every column that the table is partitioned by, once.
pub proof fn rows_are_sorted_by_every_partition_column<P, S, O, M>(
    builder: IcebergPlanBuilder<P, S, O, M>,
    r: Result<IcebergCommitExec<IcebergWriterNode<P, S, O, M>>, EngineError>,
    f: int,
) -> (i: int)
    requires
        call_ensures(IcebergPlanBuilder::<P, S, O, M>::build, (builder,), r),
        r is Ok,
        0 <= f < builder.table_config.partition_columns@.len(),
    ensures
        0 <= i < r->Ok_0.input.input.sort_keys@.len() - asked_for(builder).len(),
        r->Ok_0.input.input.sort_keys@[i]->name@
            == builder.table_config.partition_columns@[f].column@,
{
    let names = source_columns(builder.table_config.partition_columns@);
    let leading = first_occurrences(names);
    leading_columns_are_the_partition_columns(names);
    assert(names.contains(names[f]));
    assert(leading.contains(names[f]));
    let i = choose|i: int| 0 <= i < leading.len() && leading[i] == names[f];
    lemma_keys(builder, r, i);
    i
}

/// No column is sorted by twice, and one that is sorted by before another is named before it by the
/// partition fields.
pub proof fn partition_columns_are_sorted_in_order<P, S, O, M>(
    builder: IcebergPlanBuilder<P, S, O, M>,
    r: Result<IcebergCommitExec<IcebergWriterNode<P, S, O, M>>, EngineError>,
    i: int,
    j: int,
    f: int,
)
    requires
        call_ensures(IcebergPlanBuilder::<P, S, O, M>::build, (builder,), r),
        r is Ok,
        0 <= i < j < r->Ok_0.input.input.sort_keys@.len() - asked_for(builder).len(),
        partitions_by(builder, r->Ok_0.input.input.sort_keys@[j]->name@, f),
    ensures
        r->Ok_0.input.input.sort_keys@[i]->name@ != r->Ok_0.input.input.sort_keys@[j]->name@,
        exists|g: int|
            g < f && #[trigger] partitions_by(
                builder,
                r->Ok_0.input.input.sort_keys@[i]->name@,
                g,
            ),
{
    let names = source_columns(builder.table_config.partition_columns@);
    let leading = first_occurrences(names);
    lemma_keys(builder, r, i);
    lemma_keys(builder, r, j);
    leading_columns_are_the_partition_columns(names);
    assert(leading[i] != leading[j]);
    assert(names[f] == leading[j]);
    lemma_occurrence_order(names, i, j, f);
    let g = choose|g: int| 0 <= g < f && #[trigger] names[g] == leading[i];
    assert(partitions_by(builder, leading[i], g));
}

proof fn lemma_occurrence_order(names: Seq<Seq<char>>, i: int, j: int, f: int)
    requires
        0 <= i < j < first_occurrences(names).len(),
        0 <= f < names.len(),
        names[f] == first_occurrences(names)[j],
    ensures
        exists|g: int| 0 <= g < f && #[trigger] names[g] == first_occurrences(names)[i],
    decreases names.len(),
{
    let shorter = names.drop_last();
    let earlier = first_occurrences(shorter);
    let all = first_occurrences(names);
    leading_columns_are_the_partition_columns(shorter);
    leading_columns_are_the_partition_columns(names);
    if j < earlier.len() {
        assert(all[i] == earlier[i] && all[j] == earlier[j]);
        if f < shorter.len() {
            assert(shorter[f] == names[f]);
            lemma_occurrence_order(shorter, i, j, f);
            let g = choose|g: int| 0 <= g < f && #[trigger] shorter[g] == earlier[i];
            assert(names[g] == all[i]);
        } else {
            assert(earlier.contains(earlier[i]));
            assert(shorter.contains(earlier[i]));
            let g = choose|g: int| 0 <= g < shorter.len() && shorter[g] == earlier[i];
            assert(names[g] == all[i]);
        }
    } else {
        assert(all[j] == names.last());
        assert(!earlier.contains(names.last()));
        if f < shorter.len() {
            assert(shorter[f] == names.last());
            assert(shorter.contains(names.last()));
            assert(earlier.contains(names.last()));
        }
        assert(all[i] == earlier[i]);
        assert(earlier.contains(earlier[i]));
        assert(shorter.contains(earlier[i]));
        let g = choose|g: int| 0 <= g < shorter.len() && shorter[g] == earlier[i];
        assert(names[g] == all[i]);
    }
}

/// Rows are spread exactly where they are in fewer partitions than the session wants, and then into
/// as many as it wants. It wants one at least.
pub proof fn rows_are_spread_as_the_session_wants<P, S, O, M>(
    builder: IcebergPlanBuilder<P, S, O, M>,
    r: Result<IcebergCommitExec<IcebergWriterNode<P, S, O, M>>, EngineError>,
)
    requires
        call_ensures(IcebergPlanBuilder::<P, S, O, M>::build, (builder,), r),
        r is Ok,
    ensures
        ({
            let spread = r->Ok_0.input.input.repartition;
            let wanted = builder.target_partitions;
            let there = builder.input.partition_count;
            &&& spread is Some <==> there < wanted || there == 0
            &&& spread is Some ==> (wanted > 0 ==> spread->0 == wanted) && (wanted == 0
                ==> spread->0 == 1)
        }),
{
}

/// A write to a new table appends. One to a table that is there replaces all files, some files or
/// none, as its mode says.
pub proof fn modes_decide_what_is_replaced<M>(
    exists_already: bool,
    mode: &PhysicalSinkMode<M>,
    kind: SnapshotUpdateKind,
)
    requires
        call_ensures(snapshot_update_kind::<M>, (exists_already, mode), kind),
    ensures
        kind is FullOverwrite <==> exists_already && *mode is Overwrite,
        kind is CopyOnWrite <==> exists_already && (*mode is OverwriteIf || *mode
            is OverwritePartitions),
        kind is FastAppend <==> !exists_already || *mode is Other,
        !(kind is CopyOnWriteDelete),
{
}

/// All else of a plan is what the builder was given: the input, the table, the mode of the writers,
/// the snapshot that it was made for, the files to remove, and whether those of whole partitions are.
pub proof fn plans_carry_what_they_were_given<P, S, O, M>(
    builder: IcebergPlanBuilder<P, S, O, M>,
    r: Result<IcebergCommitExec<IcebergWriterNode<P, S, O, M>>, EngineError>,
    kind: SnapshotUpdateKind,
)
    requires
        call_ensures(IcebergPlanBuilder::<P, S, O, M>::build, (builder,), r),
        call_ensures(
            snapshot_update_kind::<M>,
            (builder.table_config.table_exists, &builder.sink_mode),
            kind,
        ),
        r is Ok,
    ensures
        ({
            let commit = r->Ok_0;
            &&& commit.input.input.input == builder.input
            &&& commit.input.table_config == builder.table_config
            &&& commit.input.sink_mode == builder.sink_mode
            &&& commit.table_url@ == builder.table_config.table_url@
            &&& both_or_none(
                commit.lakehouse_table,
                builder.table_config.options.lakehouse_table,
            )
            &&& commit.snapshot_update_kind == kind
            &&& commit.expected_snapshot_id == builder.expected_snapshot_id
            &&& commit.removed_data_file_paths == builder.removed_data_file_paths
            &&& commit.dynamic_partition_overwrite == builder.dynamic_partition_overwrite
            &&& commit.caller_expected_snapshot_id is None
            &&& commit.snapshot_properties@.len() == 0
        }),
{
}

/// Each setting of a builder changes that setting and nothing else.
pub proof fn builder_settings_are_kept_apart<P, S, O, M>(
    builder: IcebergPlanBuilder<P, S, O, M>,
    planned: Option<Option<i64>>,
    a: IcebergPlanBuilder<P, S, O, M>,
    paths: Vec<String>,
    b: IcebergPlanBuilder<P, S, O, M>,
    dynamic: bool,
    c: IcebergPlanBuilder<P, S, O, M>,
)
    requires
        call_ensures(
            IcebergPlanBuilder::<P, S, O, M>::with_expected_snapshot_id,
            (builder, planned),
            a,
        ),
        call_ensures(IcebergPlanBuilder::<P, S, O, M>::with_removed_data_file_paths, (a, paths), b),
        call_ensures(
            IcebergPlanBuilder::<P, S, O, M>::with_dynamic_partition_overwrite,
            (b, dynamic),
            c,
        ),
    ensures
        c.input == builder.input,
        c.table_config == builder.table_config,
        c.sink_mode == builder.sink_mode,
        c.sort_order == builder.sort_order,
        c.target_partitions == builder.target_partitions,
        c.expected_snapshot_id == planned,
        c.removed_data_file_paths == paths,
        c.dynamic_partition_overwrite == dynamic,
{
}

} // verus!
