//! What the input of a commit leads to, and what becomes of the files of its tasks.
use vstd::prelude::*;

use crate::commit_exec::{
    AbandonInput, DisplayFormatType, IcebergCommitExec, ReadInput, ReadStep, WriterActions,
};
use crate::commit_run::Step;
use crate::commit_state::{catalog_updates, CommitBase, CommitPlan, PreparedSnapshot};
use crate::content::views;
use crate::content_laws::{both_or_none, place_by_place};
use crate::error::{EngineError, EngineErrorView};
use crate::error_laws::stands_in;
use crate::overwrite_laws::{comes_first, lemma_comes_first};
use crate::snapshot_properties::validate_snapshot_properties;
use crate::table::{CommitMeta, DataFile, TableRequirement, TableRequirementView, TableUpdate};
use crate::task_files::{
    agree, base_paths, begin_cleanup, failed_deletions, merge_writer_commit_meta, paths_of,
    prefixed_paths, task_file_paths, unresolved, CleanupStep, DeleteFiles, DeleteOutcome,
    ResolvePath, ResolvedPath,
};
use crate::text::texts;

verus! {

/// The paths are those of the files of rows, in their order, and then those of deletes.
pub open spec fn lists_paths(paths: Seq<String>, data: Seq<DataFile>, deletes: Seq<DataFile>) -> bool {
    &&& paths.len() == data.len() + deletes.len()
    &&& forall|i: int| 0 <= i < data.len() ==> (#[trigger] paths[i])@ == data[i].file_path@
    &&& forall|i: int|
        0 <= i < deletes.len() ==> (#[trigger] paths[data.len() + i])@ == deletes[i].file_path@
}

proof fn lemma_paths(paths: Seq<String>, data: Seq<DataFile>, deletes: Seq<DataFile>)
    requires
        texts(paths) == paths_of(data) + paths_of(deletes),
    ensures
        lists_paths(paths, data, deletes),
{
    let all = texts(paths);
    assert(all.len() == paths.len());
    assert forall|i: int| 0 <= i < data.len() implies (#[trigger] paths[i])@
        == data[i].file_path@ by {
        assert(all[i] == paths_of(data)[i]);
    }
    assert forall|i: int| 0 <= i < deletes.len() implies (#[trigger] paths[data.len() + i])@
        == deletes[i].file_path@ by {
        assert(all[data.len() + i] == paths_of(deletes)[i]);
    }
}

/// Every file that a task wrote is listed with its path.
pub proof fn every_task_file_is_listed(data: &[DataFile], deletes: &[DataFile], paths: Vec<String>)
    requires
        call_ensures(task_file_paths, (data, deletes), paths),
    ensures
        lists_paths(paths@, data@, deletes@),
{
    lemma_paths(paths@, data@, deletes@);
}

/// Two reports say the same but for the number of rows.
pub open spec fn same_but_rows(a: CommitMeta, b: CommitMeta) -> bool {
    &&& a.table_uri@ == b.table_uri@
    &&& place_by_place(a.requirements@, b.requirements@)
    &&& place_by_place(a.table_properties@, b.table_properties@)
    &&& both_or_none(a.lakehouse_table, b.lakehouse_table)
    &&& both_or_none(a.schema, b.schema)
    &&& both_or_none(a.partition_spec, b.partition_spec)
}

proof fn lemma_agree(a: CommitMeta, b: CommitMeta)
    ensures
        agree(a@, b@) <==> same_but_rows(a, b),
{
    let c = CommitMeta { row_count: a.row_count, ..b };
    assert(c@ == crate::table::CommitMetaView { row_count: a.row_count, ..b@ });
    crate::content_laws::reports_agree_in_every_part(a, c);
}

/// The first report is kept as it is. A further one is accepted exactly where it says the same but
/// for the rows and these can be added up. Then they are, and nothing else changes. Else all stays
/// as it was.
pub proof fn reports_are_merged_by_adding_rows(
    merged: &mut Option<CommitMeta>,
    incoming: CommitMeta,
    r: Result<(), EngineError>,
)
    requires
        call_ensures(merge_writer_commit_meta, (merged, incoming), r),
    ensures
        match *old(merged) {
            None => r is Ok && *final(merged) == Some(incoming),
            Some(existing) => {
                &&& r is Ok <==> same_but_rows(existing, incoming) && existing.row_count
                    + incoming.row_count <= u64::MAX
                &&& r is Err ==> *final(merged) == *old(merged)
                &&& r is Ok ==> *final(merged) is Some && (*final(merged))->0.row_count
                    == existing.row_count + incoming.row_count && same_but_rows(
                    (*final(merged))->0,
                    existing,
                )
            },
        },
{
    if *merged is Some {
        let existing = (*merged)->0;
        lemma_agree(existing, incoming);
        if r is Ok {
            let after = (*final(merged))->0;
            assert(after == CommitMeta { row_count: after.row_count, ..existing });
        }
    }
}

/// A commit begins exactly where it runs in one partition on an input of one, and the controls of
/// the caller hold up: their properties are accepted, and the snapshot they expect is a positive
/// number. What it begins with is what the node says.
pub proof fn commits_begin_as_the_node_says<P>(
    node: &IcebergCommitExec<P>,
    partition: usize,
    inputs: usize,
    properties: &[(String, String)],
    checked: Result<(), EngineError>,
    r: Result<ReadInput, EngineError>,
)
    requires
        call_ensures(IcebergCommitExec::<P>::execute, (node, partition, inputs), r),
        properties@ == node.snapshot_properties@,
        call_ensures(validate_snapshot_properties, (properties,), checked),
    ensures
        r is Ok <==> partition == 0 && inputs == 1 && checked is Ok && (
        node.caller_expected_snapshot_id is Some ==> node.caller_expected_snapshot_id->0 > 0),
        r is Err && (partition != 0 || inputs != 1) ==> r->Err_0 is Internal,
        r is Err && partition == 0 && inputs == 1 ==> r->Err_0 is Plan,
        r matches Ok(input) ==> {
            &&& both_or_none(input.lakehouse_table, node.lakehouse_table)
            &&& input.snapshot_update_kind == node.snapshot_update_kind
            &&& input.expected_snapshot_id == node.expected_snapshot_id
            &&& input.caller_expected_snapshot_id == node.caller_expected_snapshot_id
            &&& place_by_place(input.snapshot_properties@, node.snapshot_properties@)
            &&& place_by_place(input.removed_data_file_paths@, node.removed_data_file_paths@)
            &&& input.dynamic_partition_overwrite == node.dynamic_partition_overwrite
            &&& input.data_files@.len() == 0
            &&& input.delete_files@.len() == 0
            &&& input.meta is None
        },
{
    if r is Ok {
        let a = r->Ok_0.snapshot_properties@;
        let b = node.snapshot_properties@;
        assert(views(a).len() == a.len() && views(b).len() == b.len());
        assert forall|i: int| 0 <= i < a.len() implies (#[trigger] a[i])@ == b[i]@ by {
            assert(views(a)[i] == views(b)[i]);
        }
    }
}

/// The node on another input is the same node but for the input, and takes exactly one.
pub proof fn another_input_keeps_the_node<P>(
    node: &IcebergCommitExec<P>,
    children: Vec<P>,
    r: Result<IcebergCommitExec<P>, EngineError>,
)
    requires
        call_ensures(IcebergCommitExec::<P>::with_new_children, (node, children), r),
    ensures
        r is Ok <==> children@.len() == 1,
        r is Err ==> r->Err_0 is Internal,
        r matches Ok(after) ==> {
            &&& after.input == children@[0]
            &&& after.table_url@ == node.table_url@
            &&& both_or_none(after.lakehouse_table, node.lakehouse_table)
            &&& after.snapshot_update_kind == node.snapshot_update_kind
            &&& after.expected_snapshot_id == node.expected_snapshot_id
            &&& after.caller_expected_snapshot_id == node.caller_expected_snapshot_id
            &&& place_by_place(after.snapshot_properties@, node.snapshot_properties@)
            &&& place_by_place(after.removed_data_file_paths@, node.removed_data_file_paths@)
            &&& after.dynamic_partition_overwrite == node.dynamic_partition_overwrite
        },
{
    if r is Ok {
        let a = r->Ok_0.snapshot_properties@;
        let b = node.snapshot_properties@;
        assert(views(a).len() == a.len() && views(b).len() == b.len());
        assert forall|i: int| 0 <= i < a.len() implies (#[trigger] a[i])@ == b[i]@ by {
            assert(views(a)[i] == views(b)[i]);
        }
    }
}

/// Each setting of a node changes that setting and nothing else, and each getter gives back what was
/// set.
pub proof fn settings_are_kept_apart<P>(
    node: IcebergCommitExec<P>,
    planned: Option<Option<i64>>,
    a: IcebergCommitExec<P>,
    expected: Option<i64>,
    b: IcebergCommitExec<P>,
    properties: Vec<(String, String)>,
    c: IcebergCommitExec<P>,
    paths: Vec<String>,
    d: IcebergCommitExec<P>,
    dynamic: bool,
    e: IcebergCommitExec<P>,
)
    requires
        call_ensures(IcebergCommitExec::<P>::with_expected_snapshot_id, (node, planned), a),
        call_ensures(IcebergCommitExec::<P>::with_caller_expected_snapshot_id, (a, expected), b),
        call_ensures(IcebergCommitExec::<P>::with_snapshot_properties, (b, properties), c),
        call_ensures(IcebergCommitExec::<P>::with_removed_data_file_paths, (c, paths), d),
        call_ensures(IcebergCommitExec::<P>::with_dynamic_partition_overwrite, (d, dynamic), e),
    ensures
        e.input == node.input,
        e.table_url == node.table_url,
        e.lakehouse_table == node.lakehouse_table,
        e.snapshot_update_kind == node.snapshot_update_kind,
        e.expected_snapshot_id == planned,
        e.caller_expected_snapshot_id == expected,
        e.snapshot_properties == properties,
        e.removed_data_file_paths == paths,
        e.dynamic_partition_overwrite == dynamic,
{
}

/// The node is shown with the URL of its table.
pub proof fn nodes_show_their_table<P>(
    node: &IcebergCommitExec<P>,
    format: DisplayFormatType,
    r: String,
)
    requires
        call_ensures(IcebergCommitExec::<P>::fmt_as, (node, format), r),
    ensures
        stands_in(node.table_url@, r@),
{
    match format {
        DisplayFormatType::TreeRender => {
            assert(r@ =~= "format: iceberg\ntable_path="@ + node.table_url@ + Seq::<char>::empty());
        },
        _ => {
            assert(r@ == "IcebergCommitExec(table_path="@ + node.table_url@ + ")"@);
        },
    }
}

/// The files that a batch reports come after those of the batches before. Where its report does not
/// go together with those before, or it cannot be decoded, the commit is abandoned and every file
/// that was reported is to be deleted. Batches without rows say nothing.
pub proof fn every_reported_file_is_taken_into_account(
    input: ReadInput,
    rows: usize,
    decode: bool,
    reply: Result<WriterActions, EngineError>,
    next: ReadStep,
)
    requires
        input.wf(),
        call_ensures(ReadInput::needs_decoding, (&input, rows), decode),
        call_ensures(ReadInput::decoded, (input, reply), next),
    ensures
        decode <==> rows > 0,
        match reply {
            Err(e) => next is Abandon && next->Abandon_0.error == e && lists_paths(
                next->Abandon_0.paths@,
                input.data_files@,
                input.delete_files@,
            ),
            Ok(actions) => {
                let goes_together = input.meta is None || actions.meta is None || (same_but_rows(
                    input.meta->0,
                    actions.meta->0,
                ) && input.meta->0.row_count + actions.meta->0.row_count <= u64::MAX);
                &&& next is More <==> goes_together
                &&& next matches ReadStep::Abandon(abandon) ==> lists_paths(
                    abandon.paths@,
                    input.data_files@ + actions.data_files@,
                    input.delete_files@ + actions.delete_files@,
                )
                &&& next matches ReadStep::More(more) ==> {
                    &&& more.data_files@ == input.data_files@ + actions.data_files@
                    &&& more.delete_files@ == input.delete_files@ + actions.delete_files@
                    &&& more.lakehouse_table == input.lakehouse_table
                    &&& more.snapshot_update_kind == input.snapshot_update_kind
                    &&& more.expected_snapshot_id == input.expected_snapshot_id
                    &&& more.caller_expected_snapshot_id == input.caller_expected_snapshot_id
                    &&& more.snapshot_properties == input.snapshot_properties
                    &&& more.removed_data_file_paths == input.removed_data_file_paths
                    &&& more.dynamic_partition_overwrite == input.dynamic_partition_overwrite
                    &&& actions.meta is None ==> more.meta == input.meta
                    &&& actions.meta is Some ==> more.meta is Some && more.meta->0.row_count == if input.meta
                        is Some {
                        input.meta->0.row_count as int + actions.meta->0.row_count as int
                    } else {
                        actions.meta->0.row_count as int
                    } && same_but_rows(more.meta->0, actions.meta->0)
                }
            },
        },
{
    match reply {
        Err(_) => {
            lemma_paths(next->Abandon_0.paths@, input.data_files@, input.delete_files@);
        },
        Ok(actions) => {
            if input.meta is Some && actions.meta is Some {
                lemma_agree(input.meta->0, actions.meta->0);
            }
            match next {
                ReadStep::Abandon(abandon) => {
                    lemma_paths(
                        abandon.paths@,
                        input.data_files@ + actions.data_files@,
                        input.delete_files@ + actions.delete_files@,
                    );
                },
                ReadStep::More(more) => {
                    if actions.meta is Some {
                        let reports = input.reports@;
                        let longer = reports.push(actions.meta->0@);
                        assert(longer.drop_last() =~= reports);
                        assert(longer[reports.len() as int] == actions.meta->0@);
                        assert(agree(more.meta->0@, longer[reports.len() as int]));
                        lemma_agree(more.meta->0, actions.meta->0);
                        assert(crate::task_files::total_rows(longer)
                            == crate::task_files::total_rows(reports) + actions.meta->0.row_count);
                        if input.meta is None {
                            assert(crate::task_files::total_rows(reports) == 0);
                        }
                    }
                },
            }
        },
    }
}

/// An input that failed is abandoned with its error, and every file that was reported is to be
/// deleted. Then the commit ends with that error, or with one that also says what could not be
/// deleted.
pub proof fn abandoned_inputs_end_with_their_error(
    input: ReadInput,
    error: EngineError,
    abandoned: AbandonInput,
    reply: Result<(), EngineError>,
    e: EngineError,
)
    requires
        call_ensures(ReadInput::failed, (input, error), abandoned),
        call_ensures(AbandonInput::cleaned, (abandoned, reply), e),
    ensures
        lists_paths(abandoned.paths@, input.data_files@, input.delete_files@),
        abandoned.error == error,
        reply is Ok ==> e@ == error@,
        reply is Err ==> e is Execution && stands_in(error@.text(), e->Execution_0@) && stands_in(
            reply->Err_0@.text(),
            e->Execution_0@,
        ),
{
    lemma_paths(abandoned.paths@, input.data_files@, input.delete_files@);
    if reply is Err {
        let (a, b) = (error@.text(), reply->Err_0@.text());
        let between = "; uncommitted Iceberg artifact cleanup also failed: "@;
        let none = Seq::<char>::empty();
        assert(e->Execution_0@ =~= none + a + (between + b));
        assert(e->Execution_0@ =~= (a + between) + b + none);
    }
}

/// One of the requirements is this one.
pub open spec fn is_required(
    requirements: Seq<TableRequirement>,
    reference: Seq<char>,
    snapshot_id: Option<i64>,
) -> bool {
    exists|i: int|
        0 <= i < requirements.len() && ((#[trigger] requirements[i]) matches TableRequirement::RefSnapshotIdMatch {
            reference: r,
            snapshot_id: s,
        } && r@ == reference && s == snapshot_id)
}

/// The plan of the commit that the input leads to.
pub open spec fn plan_in(next: Step) -> Option<CommitPlan> {
    match next {
        Step::LoadCatalogTable(s) => Some(s.plan),
        Step::ResolveMode(s) => Some(s.plan),
        _ => None,
    }
}

/// Where the writers wrote and report nothing the commit is over, unless it is controlled: then that
/// is an error, for its conditions must not be passed over. Where they wrote and report nothing, or
/// the removals do not go with the kind of update or with each other, that is an error. After an
/// error every file that was written is to be deleted.
pub proof fn commits_without_a_report_never_begin(input: ReadInput, next: Step)
    requires
        input.wf(),
        call_ensures(ReadInput::end, (input,), next),
    ensures
        ({
            let silent = input.meta is None && input.data_files@.len() == 0
                && input.delete_files@.len() == 0;
            let controlled = input.expected_snapshot_id is Some || input.caller_expected_snapshot_id
                is Some || input.snapshot_properties@.len() > 0;
            let planned = input.removed_data_file_paths@.len() > 0;
            let replaces = input.snapshot_update_kind is CopyOnWrite || input.snapshot_update_kind
                is CopyOnWriteDelete;
            let fails = if silent {
                controlled
            } else {
                ||| input.meta is None
                ||| !replaces && (planned || input.dynamic_partition_overwrite)
                ||| planned && input.dynamic_partition_overwrite
            };
            &&& fails ==> next is CleanTaskFiles && next->CleanTaskFiles_0.error is Internal
                && lists_paths(
                next->CleanTaskFiles_0.paths@,
                input.data_files@,
                input.delete_files@,
            )
            &&& !fails && silent ==> next is Done && next->Done_0.result == Ok::<i64, EngineError>(
                0,
            )
            &&& !fails && !silent ==> plan_in(next) is Some
        }),
{
    if next is CleanTaskFiles {
        lemma_paths(next->CleanTaskFiles_0.paths@, input.data_files@, input.delete_files@);
    }
}

/// A commit carries all that its writers report and all that its node says. It has the requirements
/// of the writers in their places, and the snapshots that the plan and the caller expect. It has
/// nothing to write exactly where it replaces single files and has none to add or to remove. The
/// catalog that the writers name comes before that of the node.
pub proof fn commits_carry_all_that_was_reported(input: ReadInput, next: Step)
    requires
        input.wf(),
        call_ensures(ReadInput::end, (input,), next),
        plan_in(next) is Some,
    ensures
        input.meta is Some,
        ({
            let plan = plan_in(next)->0;
            let meta = input.meta->0;
            let info = plan.info;
            &&& info.table_uri == meta.table_uri
            &&& info.row_count == meta.row_count
            &&& info.data_files == input.data_files
            &&& info.delete_files == input.delete_files
            &&& info.table_properties == meta.table_properties
            &&& info.snapshot_properties == input.snapshot_properties
            &&& info.caller_expected_snapshot_id == input.caller_expected_snapshot_id
            &&& info.snapshot_update_kind == input.snapshot_update_kind
            &&& info.schema == meta.schema
            &&& info.partition_spec == meta.partition_spec
            &&& meta.lakehouse_table is Some ==> info.lakehouse_table == meta.lakehouse_table
            &&& meta.lakehouse_table is None ==> info.lakehouse_table == input.lakehouse_table
            &&& next is LoadCatalogTable <==> info.lakehouse_table is Some
            &&& plan.removed_data_file_paths == input.removed_data_file_paths
            &&& plan.dynamic_partition_overwrite == input.dynamic_partition_overwrite
            &&& lists_paths(plan.task_file_paths@, input.data_files@, input.delete_files@)
            &&& plan.validation_only <==> (input.snapshot_update_kind is CopyOnWrite
                || input.snapshot_update_kind is CopyOnWriteDelete) && input.data_files@.len() == 0
                && input.removed_data_file_paths@.len() == 0
            &&& meta.requirements@.len() <= info.requirements@.len()
            &&& forall|i: int|
                0 <= i < meta.requirements@.len() ==> (#[trigger] info.requirements@[i])@
                    == meta.requirements@[i]@
            &&& input.expected_snapshot_id is Some ==> is_required(
                info.requirements@,
                "main"@,
                input.expected_snapshot_id->0,
            )
            &&& input.caller_expected_snapshot_id is Some ==> is_required(
                info.requirements@,
                "main"@,
                input.caller_expected_snapshot_id,
            )
        }),
{
    let plan = plan_in(next)->0;
    let meta = input.meta->0;
    lemma_paths(plan.task_file_paths@, input.data_files@, input.delete_files@);
    let reported = views(meta.requirements@);
    let all = views(plan.info.requirements@);
    let middle = crate::requirements::with_requirement(
        reported,
        match input.expected_snapshot_id {
            Some(snapshot_id) => Some(
                TableRequirementView::RefSnapshotIdMatch { reference: "main"@, snapshot_id },
            ),
            None => None,
        },
    );
    assert(all == input.all_requirements(meta));
    assert(reported.len() <= middle.len() <= all.len());
    assert forall|i: int| 0 <= i < meta.requirements@.len() implies (
    #[trigger] plan.info.requirements@[i])@ == meta.requirements@[i]@ by {
        assert(all[i] == middle[i]);
        assert(middle[i] == reported[i]);
    }
    if input.expected_snapshot_id is Some {
        crate::commit_laws::planned_snapshot_becomes_a_requirement(
            input,
            plan,
            input.expected_snapshot_id->0,
        );
        let i = choose|i: int|
            0 <= i < plan.info.requirements@.len() && (#[trigger] plan.info.requirements@[i])@ == (
            TableRequirementView::RefSnapshotIdMatch {
                reference: "main"@,
                snapshot_id: input.expected_snapshot_id->0,
            });
        assert(plan.info.requirements@[i] is RefSnapshotIdMatch);
    }
    if input.caller_expected_snapshot_id is Some {
        crate::commit_laws::caller_expectation_becomes_a_requirement(
            input,
            plan,
            input.caller_expected_snapshot_id->0,
        );
        let i = choose|i: int|
            0 <= i < plan.info.requirements@.len() && (#[trigger] plan.info.requirements@[i])@ == (
            TableRequirementView::RefSnapshotIdMatch {
                reference: "main"@,
                snapshot_id: Some(input.caller_expected_snapshot_id->0),
            });
        assert(plan.info.requirements@[i] is RefSnapshotIdMatch);
    }
}

/// A commit requires nothing but what its writers report and that the table is at the snapshots that
/// the plan and the caller expect, each once. One outside a catalog has nothing to go by.
pub proof fn commits_require_nothing_else(input: ReadInput, next: Step, i: int)
    requires
        input.wf(),
        call_ensures(ReadInput::end, (input,), next),
        plan_in(next) is Some,
    ensures
        ({
            let meta = input.meta->0;
            let n = meta.requirements@.len();
            let required = plan_in(next)->0.info.requirements@;
            &&& n <= i < required.len() ==> required[i] is RefSnapshotIdMatch
                && required[i]->reference@ == "main"@ && (input.expected_snapshot_id == Some(
                required[i]->snapshot_id,
            ) || input.caller_expected_snapshot_id is Some && input.caller_expected_snapshot_id
                == required[i]->snapshot_id) && forall|j: int|
                0 <= j < i ==> (#[trigger] required[j])@ != required[i]@
            &&& next is ResolveMode ==> next->ResolveMode_0.catalog.metadata_location is None
                && !next->ResolveMode_0.catalog.is_catalog_managed_iceberg_table
        }),
{
    let plan = plan_in(next)->0;
    let meta = input.meta->0;
    let n = meta.requirements@.len();
    let reported = views(meta.requirements@);
    let all = views(plan.info.requirements@);
    let planned = match input.expected_snapshot_id {
        Some(snapshot_id) => Some(
            TableRequirementView::RefSnapshotIdMatch { reference: "main"@, snapshot_id },
        ),
        None => None,
    };
    let middle = crate::requirements::with_requirement(reported, planned);
    assert(all == input.all_requirements(meta));
    if n <= i < all.len() {
        assert(all[i] == plan.info.requirements@[i]@);
        assert forall|j: int| 0 <= j < i implies (#[trigger] plan.info.requirements@[j])@
            != plan.info.requirements@[i]@ by {
            assert(all[j] == plan.info.requirements@[j]@);
            if i < middle.len() {
                assert(all[i] == middle[i] && all[j] == middle[j]);
                assert(middle[j] == reported[j]);
                assert(!reported.contains(middle[i]));
            } else {
                assert(all[j] == middle[j]);
                assert(middle.contains(middle[j]));
                assert(!middle.contains(all[i]));
            }
        }
    }
}

/// A commit that cannot begin says why.
pub proof fn inputs_that_cannot_begin_say_why(input: ReadInput, next: Step)
    requires
        input.wf(),
        call_ensures(ReadInput::end, (input,), next),
        next is CleanTaskFiles,
    ensures
        next->CleanTaskFiles_0.error@ == EngineErrorView::Internal(
            if input.meta is None && input.data_files@.len() == 0 && input.delete_files@.len()
                == 0 {
                "controlled Iceberg mutation produced no commit metadata"@
            } else if input.meta is None {
                "missing commit_meta action from writer output"@
            } else if input.snapshot_update_kind is FastAppend || input.snapshot_update_kind
                is FullOverwrite {
                "scoped overwrite requires a copy-on-write snapshot update"@
            } else {
                "dynamic partition overwrite cannot carry planned removal paths"@
            },
        ),
{
}

/// Reports that do not go together are an error of the engine, and those that have too many rows one
/// of execution. The same comes of the batches that bring them.
pub proof fn reports_that_do_not_merge_say_why(
    merged: &mut Option<CommitMeta>,
    incoming: CommitMeta,
    r: Result<(), EngineError>,
    input: ReadInput,
    actions: WriterActions,
    next: ReadStep,
)
    requires
        call_ensures(merge_writer_commit_meta, (merged, incoming), r),
        r is Err,
        input.wf(),
        input.meta == *merged,
        actions.meta == Some(incoming),
        call_ensures(ReadInput::decoded, (input, Ok(actions)), next),
    ensures
        *old(merged) is Some,
        r->Err_0@ == if same_but_rows((*old(merged))->0, incoming) {
            EngineErrorView::Execution("Iceberg writer row count overflow across partitions"@)
        } else {
            EngineErrorView::Internal(
                "inconsistent commit_meta actions from Iceberg writer partitions"@,
            )
        },
        next is Abandon,
        next->Abandon_0.error@ == r->Err_0@,
{
    if *merged is Some {
        lemma_agree((*merged)->0, incoming);
    }
}

/// A node is shown with its name and the URL of its table, and in a tree with the format and the
/// URL.
pub proof fn nodes_are_shown_by_name_or_format<P>(
    node: &IcebergCommitExec<P>,
    format: DisplayFormatType,
    r: String,
)
    requires
        call_ensures(IcebergCommitExec::<P>::fmt_as, (node, format), r),
    ensures
        format is TreeRender ==> r@ == "format: iceberg\ntable_path="@ + node.table_url@,
        !(format is TreeRender) ==> r@ == "IcebergCommitExec(table_path="@ + node.table_url@ + ")"@,
{
}

/// The paths of a cleanup are asked about in byte order, each once.
pub proof fn cleanup_goes_in_byte_order(paths: &Vec<String>, next: CleanupStep, i: int, j: int)
    requires
        call_ensures(begin_cleanup, (paths,), next),
        next is Resolve,
        0 <= i < j < next->Resolve_0.paths@.len(),
    ensures
        comes_first(next->Resolve_0.paths@[i]@, next->Resolve_0.paths@[j]@),
        next->Resolve_0.paths@[i]@ != next->Resolve_0.paths@[j]@,
{
    let t = texts(next->Resolve_0.paths@);
    assert(t[i] == next->Resolve_0.paths@[i]@);
    assert(t[j] == next->Resolve_0.paths@[j]@);
    lemma_comes_first(t[i], t[j]);
    lemma_comes_first(t[i], t[i]);
    crate::text::lemma_text_order(t[i], t[j], t[i]);
}

/// The catalog is told of the changes of the metadata first and then of those of the snapshot, all
/// of them and in their order.
pub proof fn catalog_is_told_everything(
    base: &CommitBase,
    prepared: &PreparedSnapshot,
    r: Vec<TableUpdate>,
)
    requires
        call_ensures(catalog_updates, (base, prepared), r),
    ensures
        r@.len() == base.updates@.len() + prepared.updates@.len(),
        forall|i: int| 0 <= i < base.updates@.len() ==> (#[trigger] r@[i])@ == base.updates@[i]@,
        forall|i: int|
            0 <= i < prepared.updates@.len() ==> (#[trigger] r@[base.updates@.len() + i])@
                == prepared.updates@[i]@,
{
    let all = views(r@);
    assert(all.len() == r@.len());
    assert(views(base.updates@).len() == base.updates@.len());
    assert(views(prepared.updates@).len() == prepared.updates@.len());
    assert forall|i: int| 0 <= i < base.updates@.len() implies (#[trigger] r@[i])@
        == base.updates@[i]@ by {
        assert(all[i] == views(base.updates@)[i]);
    }
    assert forall|i: int| 0 <= i < prepared.updates@.len() implies (
    #[trigger] r@[base.updates@.len() + i])@ == prepared.updates@[i]@ by {
        assert(all[base.updates@.len() + i] == views(prepared.updates@)[i]);
    }
}

/// A cleanup deals with every path that it was given, once, and with no other.
pub proof fn cleanup_begins_with_every_path(paths: &Vec<String>, next: CleanupStep, path: Seq<char>)
    requires
        call_ensures(begin_cleanup, (paths,), next),
    ensures
        next matches CleanupStep::Resolve(s) ==> ((exists|k: int|
            0 <= k < s.paths@.len() && (#[trigger] s.paths@[k])@ == path) <==> (exists|k: int|
            0 <= k < paths@.len() && (#[trigger] paths@[k])@ == path)) && s.resolved@.len() == 0,
        next matches CleanupStep::Delete(s) ==> paths@.len() == 0 && s.plan.base_paths@.len() == 0
            && s.plan.prefixed_paths@.len() == 0 && s.plan.failures@.len() == 0,
{
    assert(next.paths().contains(path) <==> texts(paths@).contains(path));
    match next {
        CleanupStep::Resolve(s) => {
            if exists|k: int| 0 <= k < s.paths@.len() && (#[trigger] s.paths@[k])@ == path {
                let k = choose|k: int| 0 <= k < s.paths@.len() && (#[trigger] s.paths@[k])@ == path;
                assert(texts(s.paths@)[k] == path);
                let n = choose|n: int| 0 <= n < texts(paths@).len() && texts(paths@)[n] == path;
                assert(paths@[n]@ == path);
            }
            if exists|k: int| 0 <= k < paths@.len() && (#[trigger] paths@[k])@ == path {
                let k = choose|k: int| 0 <= k < paths@.len() && (#[trigger] paths@[k])@ == path;
                assert(texts(paths@)[k] == path);
                let n = choose|n: int| 0 <= n < texts(s.paths@).len() && texts(s.paths@)[n] == path;
                assert(s.paths@[n]@ == path);
            }
        },
        CleanupStep::Delete(s) => {
            if paths@.len() > 0 {
                let first = paths@[0]@;
                assert(texts(paths@)[0] == first);
                assert(next.paths().contains(first));
            }
            assert(s.resolved@.len() == 0);
            assert(texts(s.plan.base_paths@).len() == s.plan.base_paths@.len());
            assert(texts(s.plan.prefixed_paths@).len() == s.plan.prefixed_paths@.len());
            assert(texts(s.plan.failures@).len() == s.plan.failures@.len());
        },
    }
}

/// Each path is asked about in turn, and what was said of it is kept. Files are deleted only once
/// all are asked about: a path of the store is deleted there, one below the table there, and one that
/// leads nowhere is reported with its reason.
pub proof fn each_path_is_asked_about(
    step: ResolvePath,
    path: &String,
    target: ResolvedPath,
    next: CleanupStep,
    i: int,
)
    requires
        step.wf(),
        call_ensures(ResolvePath::path, (&step,), path),
        call_ensures(ResolvePath::resolved, (step, target), next),
    ensures
        path@ == step.paths@[step.resolved@.len() as int]@,
        next matches CleanupStep::Resolve(s) ==> s.resolved@.len() == step.resolved@.len() + 1
            && s.resolved@.last() == (
            step.paths@[step.resolved@.len() as int],
            target,
        ) && s.resolved@.drop_last() == step.resolved@,
        next is Delete <==> step.resolved@.len() + 1 == step.paths@.len(),
        next matches CleanupStep::Delete(s) ==> {
            let all = step.resolved@.push((step.paths@[step.resolved@.len() as int], target));
            0 <= i < all.len() ==> match all[i].1 {
                ResolvedPath::Base(p) => exists|k: int|
                    0 <= k < s.plan.base_paths@.len() && (#[trigger] s.plan.base_paths@[k])@ == p@,
                ResolvedPath::Prefixed(p) => exists|k: int|
                    0 <= k < s.plan.prefixed_paths@.len() && (
                    #[trigger] s.plan.prefixed_paths@[k])@ == p@,
                ResolvedPath::Unresolved(reason) => exists|k: int|
                    0 <= k < s.plan.failures@.len() && stands_in(
                        all[i].0@,
                        (#[trigger] s.plan.failures@[k])@,
                    ) && stands_in(reason@, s.plan.failures@[k]@),
            }
        },
        next matches CleanupStep::Delete(s) ==> s.plan.base_paths@.len()
            + s.plan.prefixed_paths@.len() + s.plan.failures@.len() == step.paths@.len(),
{
    let all = step.resolved@.push((step.paths@[step.resolved@.len() as int], target));
    assert(all.drop_last() =~= step.resolved@);
    match next {
        CleanupStep::Delete(s) => {
            crate::task_files::no_path_is_passed_over(all);
            assert(texts(s.plan.base_paths@).len() == s.plan.base_paths@.len());
            assert(texts(s.plan.prefixed_paths@).len() == s.plan.prefixed_paths@.len());
            assert(texts(s.plan.failures@).len() == s.plan.failures@.len());
            if 0 <= i < all.len() {
                crate::task_files::lemma_dealt_with(all, i);
                match all[i].1 {
                    ResolvedPath::Base(p) => {
                        let k = choose|k: int|
                            0 <= k < base_paths(all).len() && base_paths(all)[k] == p@;
                        assert(s.plan.base_paths@[k]@ == p@);
                    },
                    ResolvedPath::Prefixed(p) => {
                        let k = choose|k: int|
                            0 <= k < prefixed_paths(all).len() && prefixed_paths(all)[k] == p@;
                        assert(s.plan.prefixed_paths@[k]@ == p@);
                    },
                    ResolvedPath::Unresolved(reason) => {
                        let a = "failed to resolve "@;
                        let b = ": "@;
                        let text = a + all[i].0@ + b + reason@;
                        let k = choose|k: int|
                            0 <= k < unresolved(all).len() && unresolved(all)[k] == text;
                        assert(s.plan.failures@[k]@ == text);
                        assert(text =~= a + all[i].0@ + (b + reason@));
                        assert(text =~= (a + all[i].0@ + b) + reason@ + Seq::<char>::empty());
                    },
                }
            }
        },
        _ => {},
    }
}

proof fn lemma_failed(outcomes: Seq<DeleteOutcome>)
    ensures
        failed_deletions(outcomes).len() == 0 <==> forall|i: int|
            0 <= i < outcomes.len() ==> !((#[trigger] outcomes[i]) is Failed),
    decreases outcomes.len(),
{
    if outcomes.len() > 0 {
        let shorter = outcomes.drop_last();
        lemma_failed(shorter);
        if failed_deletions(outcomes).len() == 0 {
            assert forall|i: int| 0 <= i < outcomes.len() implies !((#[trigger] outcomes[i])
                is Failed) by {
                if i < shorter.len() {
                    assert(outcomes[i] == shorter[i]);
                }
            }
        }
        if forall|i: int| 0 <= i < outcomes.len() ==> !((#[trigger] outcomes[i]) is Failed) {
            assert forall|i: int| 0 <= i < shorter.len() implies !((#[trigger] shorter[i])
                is Failed) by {
                assert(shorter[i] == outcomes[i]);
            }
            assert(!(outcomes[outcomes.len() - 1] is Failed));
        }
    }
}

/// A cleanup succeeds exactly where every path led somewhere and no deletion failed. That a file was
/// not there is no failure.
pub proof fn cleanup_succeeds_only_if_nothing_is_left(
    step: DeleteFiles,
    base: Vec<DeleteOutcome>,
    prefixed: Vec<DeleteOutcome>,
    r: Result<(), EngineError>,
)
    requires
        step.wf(),
        call_ensures(DeleteFiles::deleted, (step, base, prefixed), r),
    ensures
        r is Ok <==> step.plan.failures@.len() == 0 && (forall|i: int|
            0 <= i < base@.len() ==> !((#[trigger] base@[i]) is Failed)) && (forall|i: int|
            0 <= i < prefixed@.len() ==> !((#[trigger] prefixed@[i]) is Failed)),
        r is Err ==> r->Err_0 is Execution,
{
    lemma_failed(base@);
    lemma_failed(prefixed@);
    assert(texts(step.plan.failures@).len() == step.plan.failures@.len());
}

} // verus!
