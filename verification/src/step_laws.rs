//! What each reply to a step of a commit leads to, in terms of the reply.
use vstd::prelude::*;

use crate::commit_run::{
    read_current, AfterCleanup, AfterPrepared, AskCatalog, BootstrapFirst, BootstrapTable,
    CatalogCommitOutcome, CleanBootstrap, CleanPrepared, CleanPreparedAfter, CleanTaskFiles,
    CommitToCatalog, ConfirmFirst, ConfirmPublish, ConfirmUnchanged, CurrentStep, DeleteCandidate,
    EncodeMetadata, FindFile, Finished, ListAfterPut, ListVersion, LoadCatalogTable, LoadLiveFiles,
    LoadMetadata, Locate, LocateNewFile, LocatedMetadata, MoveBootstrapPointer, MovePointer,
    NameBootstrap, NameMetadata, NameRegistered, next_version, PersistStrategy,
    PrepareFirstSnapshot, PrepareSnapshot, PutMetadata, PutOutcome, ReadFile, Register,
    ReloadLocation, ResolveMode, SerializeMetadata, StampUpdates, Step, WriteHint,
};
use crate::commit_state::{
    exposure, CatalogCommitMode, CatalogTableInfo, CommitBase, CommitRun, Event, PreparedSnapshot,
};
use crate::content::views;
use crate::error::{EngineError, EngineErrorView};
use crate::error_laws::{lemma_errors, lost_to_another, nobody_can_tell, stands_in};
use crate::requirement_laws::{all_recorded, lemma_meets_all, only_asks_for_none};
use crate::table::{DataFile, PartitionSpec, TableMetadata};
use crate::table_changes::{apply_snapshot_updates, evolve, Evolution};
use crate::task_files::DeleteOutcome;
use crate::text::int_text;

verus! {

/// The same commit: what it is to do, and how, is the same. Only what happened may differ, and the
/// attempt with what it starts from.
pub open spec fn same_commit(a: CommitRun, b: CommitRun) -> bool {
    &&& a.plan == b.plan
    &&& a.mode == b.mode
    &&& a.unpartitioned == b.unpartitioned
    &&& a.recorded_location == b.recorded_location
}

/// The same attempt: the commit is the same, and so is what it starts from.
pub open spec fn same_attempt(a: CommitRun, b: CommitRun) -> bool {
    &&& same_commit(a, b)
    &&& a.location == b.location
    &&& a.latest == b.latest
    &&& a.latest_version == b.latest_version
    &&& a.attempt == b.attempt
}

/// The commit failed with this error. All files that its tasks have written are to be deleted.
pub open spec fn gave_up(next: Step, run: CommitRun, error: EngineErrorView) -> bool {
    &&& next is CleanTaskFiles
    &&& next->CleanTaskFiles_0.paths == run.plan.task_file_paths
    &&& next->CleanTaskFiles_0.error@ == error
}

/// The commit failed, and all files that its tasks have written are to be deleted.
pub open spec fn gave_up_somehow(next: Step, run: CommitRun) -> bool {
    &&& next is CleanTaskFiles
    &&& next->CleanTaskFiles_0.paths == run.plan.task_file_paths
}

/// The commit ended with this error and nothing is deleted.
pub open spec fn kept_all(next: Step, error: EngineErrorView) -> bool {
    &&& next is Done
    &&& next->Done_0.result is Err
    &&& next->Done_0.result->Err_0@ == error
}

/// The commit ended and reports its rows, where the result can hold them.
pub open spec fn reported(next: Step, run: CommitRun) -> bool {
    &&& next is Done
    &&& if run.plan.info.row_count <= 0x7fff_ffff_ffff_ffff {
        next->Done_0.result == Ok::<i64, EngineError>(run.plan.info.row_count as i64)
    } else {
        next->Done_0.result is Err && next->Done_0.result->Err_0 is Execution
    }
}

/// The commit ended with nothing to report.
pub open spec fn reported_nothing(next: Step) -> bool {
    next is Done && next->Done_0.result == Ok::<i64, EngineError>(0)
}

/// The catalog is asked which metadata is current.
pub open spec fn asks_catalog(run: CommitRun) -> bool {
    run.plan.info.lakehouse_table is Some && run.mode.uses_catalog_metadata
}

/// The commit moves the pointer of the catalog.
pub open spec fn points(run: CommitRun) -> bool {
    run.plan.info.lakehouse_table is Some && run.mode.uses_metadata_location_update
}

/// The catalog makes the commit.
pub open spec fn left_to_catalog(run: CommitRun) -> bool {
    run.plan.info.lakehouse_table is Some && run.mode.uses_catalog_commit
}

/// The error of a commit that was tried five times.
pub open spec fn lost_too_often() -> EngineErrorView {
    EngineErrorView::Execution(
        "Iceberg commit failed after "@ + int_text(5)
            + " retries due to concurrent metadata updates"@,
    )
}

/// The commit is tried once more, up to the fifth time. Where the catalog is in charge of the
/// metadata it is asked again, and else the latest metadata is looked for.
pub open spec fn tried_again(next: Step, run: CommitRun) -> bool {
    if run.attempt >= 5 {
        gave_up(next, run, lost_too_often())
    } else if asks_catalog(run) {
        next is ReloadLocation && same_commit(next->ReloadLocation_0.run, run)
            && next->ReloadLocation_0.run.attempt == run.attempt + 1
    } else {
        next is Locate && same_commit(next->Locate_0.run, run) && next->Locate_0.run.attempt
            == run.attempt + 1 && next->Locate_0.run.location == run.location
    }
}

/// The files of a failed commit being deleted, the commit ends with its error. Where they cannot be,
/// the error says so and what went wrong before.
pub proof fn failed_commits_end_with_their_error(
    step: CleanTaskFiles,
    reply: Result<(), EngineError>,
    next: Finished,
)
    requires
        step.wf(),
        call_ensures(CleanTaskFiles::cleaned, (step, reply), next),
    ensures
        next.result is Err,
        reply is Ok ==> next.result->Err_0@ == step.error@,
        reply matches Err(c) ==> next.result->Err_0 is Execution && exists|between: Seq<char>|
            next.result->Err_0->Execution_0@ == #[trigger] (step.error@.text() + between
                + c@.text()),
{
    match reply {
        Err(c) => {
            assert(next.result->Err_0->Execution_0@ == step.error@.text()
                + "; uncommitted Iceberg artifact cleanup also failed: "@ + c@.text());
        },
        Ok(()) => {},
    }
}

/// What the properties of a table say of its metadata comes before what the catalog says. Where the
/// catalog is not in charge of the metadata neither is followed, only recorded.
pub proof fn catalog_is_followed_only_where_in_charge(
    step: ResolveMode,
    mode: CatalogCommitMode,
    property: Option<String>,
    unpartitioned: PartitionSpec,
    next: Step,
)
    requires
        step.wf(),
        call_ensures(ResolveMode::resolved, (step, mode, property, unpartitioned), next),
    ensures
        next is Locate,
        ({
            let run = next->Locate_0.run;
            &&& run.plan == step.plan
            &&& run.mode == mode
            &&& run.unpartitioned == unpartitioned
            &&& run.attempt == 1
            &&& run.latest@ == ""@
            &&& run.latest_version is None
            &&& property is Some ==> run.recorded_location == property
            &&& property is None ==> run.recorded_location == step.catalog.metadata_location
            &&& mode.uses_catalog_metadata ==> run.location == run.recorded_location
            &&& !mode.uses_catalog_metadata ==> run.location is None
        }),
{
}

/// A failure to load what the catalog knows fails the commit. Else that is what it goes on with.
pub proof fn catalog_failures_fail_the_commit(
    step: LoadCatalogTable,
    reply: Result<CatalogTableInfo, EngineError>,
    next: Step,
)
    requires
        step.wf(),
        call_ensures(LoadCatalogTable::loaded, (step, reply), next),
    ensures
        match reply {
            Ok(catalog) => next is ResolveMode && next->ResolveMode_0.plan == step.plan
                && next->ResolveMode_0.catalog == catalog,
            Err(e) => next is CleanTaskFiles && next->CleanTaskFiles_0.paths
                == step.plan.task_file_paths && next->CleanTaskFiles_0.error == e,
        },
{
}

/// An attempt starts from the metadata that was found. Where none is found the commit fails, unless
/// it is the first attempt and no catalog said where to look: then there is no table yet. A new
/// table is made only where nothing but its absence is required of it. The catalog that is to make
/// the commits must know the table.
pub proof fn missing_metadata_means_a_new_table_only_at_first(
    step: Locate,
    reply: Result<LocatedMetadata, EngineError>,
    next: Step,
)
    requires
        step.wf(),
        call_ensures(Locate::located, (step, reply), next),
    ensures
        match reply {
            Ok(found) => next is LoadMetadata && {
                let run = next->LoadMetadata_0.run;
                &&& same_commit(run, step.run)
                &&& run.location == step.run.location
                &&& run.attempt == step.run.attempt
                &&& run.latest == found.file
                &&& run.latest_version == found.version
            },
            Err(e) => if step.run.attempt > 1 || step.run.location is Some {
                gave_up(next, step.run, e@)
            } else if !only_asks_for_none(step.run.plan.info.requirements@) {
                gave_up_somehow(next, step.run)
            } else if step.run.plan.validation_only {
                reported_nothing(next)
            } else if points(step.run) {
                next is BootstrapTable && next->BootstrapTable_0.run == step.run
                    && next->BootstrapTable_0.style is Uuid
            } else if step.run.mode.uses_catalog_commit {
                gave_up(
                    next,
                    step.run,
                    EngineErrorView::Plan(
                        "missing Iceberg metadata for catalog-authoritative table"@,
                    ),
                )
            } else {
                next is BootstrapTable && next->BootstrapTable_0.run == step.run
                    && next->BootstrapTable_0.style is Hadoop
            },
        },
{
    let none: Seq<crate::table::TableRequirement> = step.run.plan.info.requirements@;
    lemma_none(none);
}

proof fn lemma_none(requirements: Seq<crate::table::TableRequirement>)
    ensures
        crate::requirements::meets_all(None, requirements) <==> only_asks_for_none(requirements),
{
    if crate::requirements::meets_all(None, requirements) {
        assert forall|i: int| 0 <= i < requirements.len() implies (#[trigger] requirements[i])
            is NotExist by {
            assert(crate::requirements::meets(None, requirements[i]@));
        }
    }
    if only_asks_for_none(requirements) {
        assert forall|i: int| 0 <= i < requirements.len() implies crate::requirements::meets(
            None,
            (#[trigger] requirements[i])@,
        ) by {
            assert(requirements[i] is NotExist);
        }
    }
}

/// A new table that readers find by its path is there once it is written. The catalog records it
/// where it records the table. One that readers are sent to is not there before the pointer moves.
pub proof fn new_tables_are_there_once_readers_find_them(
    step: BootstrapTable,
    reply: Result<String, EngineError>,
    next: Step,
)
    requires
        step.wf(),
        call_ensures(BootstrapTable::bootstrapped, (step, reply), next),
    ensures
        match reply {
            Err(e) => gave_up(next, step.run, e@),
            Ok(file) => if step.style is Uuid {
                &&& next is NameBootstrap
                &&& same_attempt(next->NameBootstrap_0.run, step.run)
                &&& next->NameBootstrap_0.metadata_file == file
                &&& next->NameBootstrap_0.new_table
                &&& next->NameBootstrap_0.run.journal@ == step.run.journal@.push(
                    Event::CandidateWritten,
                )
            } else {
                found_by_path(next, step.run, file)
            },
        },
{
}

/// The commit can be seen by its path. It is over, unless the catalog is to record it.
pub open spec fn found_by_path(next: Step, run: CommitRun, file: String) -> bool {
    if run.plan.info.lakehouse_table is Some && run.mode.is_filesystem {
        &&& next is NameRegistered
        &&& same_attempt(next->NameRegistered_0.run, run)
        &&& next->NameRegistered_0.metadata_file == file
        &&& next->NameRegistered_0.run.journal@ == run.journal@.push(Event::Published)
    } else {
        reported(next, run) && next->Done_0.journal@ == run.journal@.push(Event::Published)
    }
}

/// The pointer is moved to the location of the file that was written. Where that has none, what was
/// written is removed again.
pub proof fn pointer_goes_to_the_written_file(
    step: NameBootstrap,
    reply: Result<String, EngineError>,
    next: Step,
)
    requires
        step.wf(),
        call_ensures(NameBootstrap::named, (step, reply), next),
    ensures
        match reply {
            Ok(location) => next is MoveBootstrapPointer && next->MoveBootstrapPointer_0.run
                == step.run && next->MoveBootstrapPointer_0.location == location
                && next->MoveBootstrapPointer_0.new_table == step.new_table,
            Err(e) => next is CleanBootstrap && next->CleanBootstrap_0.run == step.run
                && next->CleanBootstrap_0.afterwards == AfterCleanup::Fail(e),
        },
{
}

/// A pointer that moved makes the commit. Where another one was first, what was written is removed,
/// and a new table is given up while an old one is tried again. Where nobody can tell, nothing is
/// removed. After any other error what was written is removed, and the commit fails with it. The
/// pointer is expected where this attempt found it, and nowhere for a new table.
pub proof fn first_snapshot_is_there_once_the_pointer_moved(
    step: MoveBootstrapPointer,
    expected: Option<&String>,
    reply: Result<(), EngineError>,
    next: Step,
)
    requires
        step.wf(),
        call_ensures(MoveBootstrapPointer::previous_location, (&step,), expected),
        call_ensures(MoveBootstrapPointer::moved, (step, reply), next),
    ensures
        step.new_table ==> expected is None,
        !step.new_table ==> (expected is Some <==> step.run.location is Some) && (expected is Some
            ==> expected->0@ == step.run.location->0@),
        match reply {
            Ok(()) => reported(next, step.run) && next->Done_0.journal@ == step.run.journal@.push(
                Event::Published,
            ),
            Err(e) => if lost_to_another(e) {
                &&& next is CleanBootstrap
                &&& next->CleanBootstrap_0.run == step.run
                &&& step.new_table ==> next->CleanBootstrap_0.afterwards is Fail
                    && next->CleanBootstrap_0.afterwards->Fail_0@ == lost_too_often()
                &&& !step.new_table ==> next->CleanBootstrap_0.afterwards is Retry
            } else if nobody_can_tell(e) {
                kept_all(next, e@)
            } else {
                &&& next is CleanBootstrap
                &&& next->CleanBootstrap_0.run == step.run
                &&& next->CleanBootstrap_0.afterwards == AfterCleanup::Fail(e)
            },
        },
{
    if reply is Err {
        lemma_errors(reply->Err_0);
    }
}

/// What was written with a first snapshot being removed, the commit fails or is tried again as was
/// set. Where nobody can tell whether it is removed, nothing else is, and where it could not be, the
/// commit fails.
pub proof fn first_snapshot_is_removed_before_anything_else(
    step: CleanBootstrap,
    reply: Result<(), EngineError>,
    next: Step,
)
    requires
        step.wf(),
        call_ensures(CleanBootstrap::cleaned, (step, reply), next),
    ensures
        match reply {
            Err(c) => if nobody_can_tell(c) {
                kept_all(next, c@)
            } else {
                gave_up_somehow(next, step.run)
            },
            Ok(()) => match step.afterwards {
                AfterCleanup::Fail(e) => gave_up(next, step.run, e@),
                AfterCleanup::Retry => tried_again(next, step.run),
            },
        },
{
    if reply is Err {
        lemma_errors(reply->Err_0);
    }
}

/// The catalog being asked again, the next attempt starts from where it says.
pub proof fn next_attempt_follows_the_catalog(
    step: ReloadLocation,
    reply: Result<Option<String>, EngineError>,
    next: Step,
)
    requires
        step.wf(),
        call_ensures(ReloadLocation::reloaded, (step, reply), next),
    ensures
        match reply {
            Ok(location) => next is Locate && same_commit(next->Locate_0.run, step.run)
                && next->Locate_0.run.location == location && next->Locate_0.run.attempt
                == step.run.attempt,
            Err(e) => gave_up(next, step.run, e@),
        },
{
}

/// A commit that replaces single files of a table of the third version.
pub open spec fn scoped_on_lineage(run: CommitRun, metadata: TableMetadata) -> bool {
    metadata.format_version is V3 && (run.plan.info.snapshot_update_kind is CopyOnWrite
        || run.plan.info.snapshot_update_kind is CopyOnWriteDelete)
}

/// The metadata that an attempt works on is what an evolution gave.
pub open spec fn is_evolved(base: CommitBase, evolution: Evolution) -> bool {
    &&& base.metadata@ == evolution.metadata@
    &&& views(base.updates@) == views(evolution.updates@)
    &&& base.partition_spec@ == evolution.partition_spec@
}

/// What comes after the metadata is evolved: the commit fails where that fails or is refused for the
/// version in the end. Else a table that has a snapshot gets the next one, and one that has none its
/// first, which the catalog makes where it makes the commits.
pub open spec fn works_on(
    next: Step,
    run: CommitRun,
    evolution: Result<Evolution, EngineError>,
    current: Option<&crate::table::Snapshot>,
) -> bool {
    match evolution {
        Err(e) => gave_up(next, run, e@),
        Ok(evolution) => if scoped_on_lineage(run, evolution.metadata) {
            gave_up(
                next,
                run,
                EngineErrorView::NotImplemented(
                    "Iceberg v3 scoped overwrite is not supported until row lineage is preserved"@,
                ),
            )
        } else if current is Some {
            next is ListVersion && next->ListVersion_0.run == run && is_evolved(
                next->ListVersion_0.base,
                evolution,
            )
        } else if left_to_catalog(run) {
            next is PrepareFirstSnapshot && next->PrepareFirstSnapshot_0.run == run && is_evolved(
                next->PrepareFirstSnapshot_0.base,
                evolution,
            )
        } else {
            next is ConfirmFirst && next->ConfirmFirst_0.run == run && is_evolved(
                next->ConfirmFirst_0.base,
                evolution,
            ) && next->ConfirmFirst_0.moves_pointer == points(run)
        },
    }
}

/// This is what the evolution for a commit gave, and the current snapshot of the metadata in the
/// end.
pub open spec fn evolution_of(
    run: CommitRun,
    metadata: TableMetadata,
    evolution: Result<Evolution, EngineError>,
    current: Option<&crate::table::Snapshot>,
) -> bool {
    &&& call_ensures(
        evolve,
        (metadata, &run.plan.info.schema, &run.plan.info.partition_spec, &run.unpartitioned),
        evolution,
    )
    &&& evolution is Ok ==> call_ensures(
        TableMetadata::current_snapshot,
        (&evolution->Ok_0.metadata,),
        current,
    )
}

/// The paths that a step is to remove from the table.
pub open spec fn removes(next: Step) -> Seq<String> {
    match next {
        Step::ListVersion(s) => s.base.removed_data_file_paths@,
        Step::PrepareFirstSnapshot(s) => s.base.removed_data_file_paths@,
        Step::ConfirmFirst(s) => s.base.removed_data_file_paths@,
        _ => seq![],
    }
}

/// Nothing is done with metadata that is not as the requirements want it, or for which the commit is
/// refused. A commit with nothing to write only confirms it. Where whole partitions are overwritten
/// the live files come first, and else the planned ones are those to remove.
pub proof fn loaded_metadata_is_checked_first(
    step: LoadMetadata,
    reply: Result<TableMetadata, EngineError>,
    next: Step,
    evolution: Result<Evolution, EngineError>,
    current: Option<&crate::table::Snapshot>,
)
    requires
        step.wf(),
        call_ensures(LoadMetadata::loaded, (step, reply), next),
        reply is Ok ==> evolution_of(step.run, reply->Ok_0, evolution, current),
    ensures
        match reply {
            Err(e) => gave_up(next, step.run, e@),
            Ok(metadata) => if !all_recorded(metadata, step.run.plan.info.requirements@) {
                gave_up_somehow(next, step.run)
            } else if scoped_on_lineage(step.run, metadata) {
                gave_up_somehow(next, step.run) && next->CleanTaskFiles_0.error is NotImplemented
            } else if step.run.plan.validation_only {
                next is ConfirmUnchanged && next->ConfirmUnchanged_0.run == step.run
            } else if step.run.plan.dynamic_partition_overwrite {
                ||| next is LoadLiveFiles && next->LoadLiveFiles_0.run == step.run
                    && next->LoadLiveFiles_0.metadata == metadata
                ||| gave_up_somehow(next, step.run) && next->CleanTaskFiles_0.error is Plan
            } else {
                works_on(next, step.run, evolution, current) && (next is CleanTaskFiles || removes(next)
                    == step.run.plan.removed_data_file_paths@)
            },
        },
{
    if reply is Ok {
        let metadata = reply->Ok_0;
        lemma_meets_all(metadata, step.run.plan.info.requirements@);
    }
}

/// An overwrite of whole partitions removes exactly the live files that have, in every partition
/// field, the value of one and the same added file.
pub proof fn overwrites_remove_what_they_touch(
    step: LoadLiveFiles,
    reply: Result<Vec<DataFile>, EngineError>,
    next: Step,
    path: Seq<char>,
    evolution: Result<Evolution, EngineError>,
    current: Option<&crate::table::Snapshot>,
)
    requires
        step.wf(),
        call_ensures(LoadLiveFiles::loaded, (step, reply), next),
        evolution_of(step.run, step.metadata, evolution, current),
    ensures
        match reply {
            Err(e) => gave_up(next, step.run, e@),
            Ok(live) => (gave_up_somehow(next, step.run) || works_on(
                next,
                step.run,
                evolution,
                current,
            )) && (next is CleanTaskFiles || ((
            exists|k: int| 0 <= k < removes(next).len() && (#[trigger] removes(next)[k])@ == path)
                <==> (exists|i: int, j: int|
                0 <= i < live@.len() && 0 <= j < step.run.plan.info.data_files@.len() && (
                #[trigger] live@[i]).file_path@ == path
                    && crate::content_laws::same_in_every_field(
                    (#[trigger] step.run.plan.info.data_files@[j]).partition@,
                    live@[i].partition@,
                )))),
        },
{
    if reply is Ok {
        let live = reply->Ok_0@;
        let added = step.run.plan.info.data_files@;
        let spec = choose|spec: PartitionSpec|
            crate::table_changes::default_spec(step.metadata@) == Some(spec@)
                && #[trigger] crate::commit_run::removes_touched(
                next,
                step.run,
                step.metadata,
                live,
                spec,
            );
        if added.len() == 0 || crate::live_files::all_fit(added, spec)
            && crate::live_files::all_fit(live, spec) {
            let removed = choose|removed: Seq<String>|
                {
                    &&& #[trigger] crate::commit_run::changes_base(
                        next,
                        step.run,
                        step.metadata,
                        removed,
                    )
                    &&& crate::ordered::increasing(crate::text::texts(removed))
                    &&& forall|p: Seq<char>| #[trigger]
                        crate::text::texts(removed).contains(p) <==> crate::live_files::overwritten(
                            added,
                            live,
                            p,
                        )
                };
            if !(next is CleanTaskFiles) {
                assert(removes(next) == removed);
                lemma_overwritten(removed, added, live, path);
            }
        }
    }
}

/// An overwrite of whole partitions fails exactly where the paths to remove cannot be found, with that
/// error, and else goes on with the evolved metadata.
pub proof fn overwrites_fail_only_with_their_paths(
    step: LoadLiveFiles,
    live: Vec<DataFile>,
    next: Step,
    spec: Option<&PartitionSpec>,
    added: &[DataFile],
    found: &[DataFile],
    paths: Result<Vec<String>, EngineError>,
    evolution: Result<Evolution, EngineError>,
    current: Option<&crate::table::Snapshot>,
)
    requires
        step.wf(),
        call_ensures(LoadLiveFiles::loaded, (step, Ok(live)), next),
        call_ensures(TableMetadata::default_partition_spec, (&step.metadata,), spec),
        spec is Some,
        added@ == step.run.plan.info.data_files@,
        found@ == live@,
        call_ensures(
            crate::live_files::dynamic_partition_overwrite_paths,
            (added, found, spec->0),
            paths,
        ),
        evolution_of(step.run, step.metadata, evolution, current),
    ensures
        match paths {
            Err(e) => gave_up(next, step.run, e@),
            Ok(_) => works_on(next, step.run, evolution, current),
        },
{
    let chosen = choose|spec: PartitionSpec|
        crate::table_changes::default_spec(step.metadata@) == Some(spec@)
            && #[trigger] crate::commit_run::removes_touched(
            next,
            step.run,
            step.metadata,
            live@,
            spec,
        );
    crate::content_laws::specs_agree_in_every_part(chosen, *spec->0);
    lemma_same_fit(added@, chosen, *spec->0);
    lemma_same_fit(live@, chosen, *spec->0);
}

proof fn lemma_same_fit(files: Seq<DataFile>, a: PartitionSpec, b: PartitionSpec)
    requires
        a.spec_id == b.spec_id,
        a.fields@.len() == b.fields@.len(),
    ensures
        crate::live_files::all_fit(files, a) <==> crate::live_files::all_fit(files, b),
{
    assert forall|i: int| 0 <= i < files.len() implies (crate::live_files::fits_spec(
        #[trigger] files[i],
        a,
    ) <==> crate::live_files::fits_spec(files[i], b)) by {}
    if crate::live_files::all_fit(files, a) {
        assert forall|i: int| 0 <= i < files.len() implies crate::live_files::fits_spec(
            #[trigger] files[i],
            b,
        ) by {
            assert(crate::live_files::fits_spec(files[i], a));
        }
    }
    if crate::live_files::all_fit(files, b) {
        assert forall|i: int| 0 <= i < files.len() implies crate::live_files::fits_spec(
            #[trigger] files[i],
            a,
        ) by {
            assert(crate::live_files::fits_spec(files[i], b));
        }
    }
}

proof fn lemma_overwritten(
    removed: Seq<String>,
    added: Seq<DataFile>,
    live: Seq<DataFile>,
    path: Seq<char>,
)
    requires
        forall|p: Seq<char>| #[trigger]
            crate::text::texts(removed).contains(p) <==> crate::live_files::overwritten(
                added,
                live,
                p,
            ),
    ensures
        (exists|k: int| 0 <= k < removed.len() && (#[trigger] removed[k])@ == path) <==> (exists|
            i: int,
            j: int,
        |
            0 <= i < live.len() && 0 <= j < added.len() && (#[trigger] live[i]).file_path@ == path
                && crate::content_laws::same_in_every_field(
                (#[trigger] added[j]).partition@,
                live[i].partition@,
            )),
{
    let t = crate::text::texts(removed);
    assert(t.contains(path) <==> crate::live_files::overwritten(added, live, path));
    if exists|k: int| 0 <= k < removed.len() && (#[trigger] removed[k])@ == path {
        let k = choose|k: int| 0 <= k < removed.len() && (#[trigger] removed[k])@ == path;
        assert(t[k] == path);
        let i = choose|i: int|
            0 <= i < live.len() && (#[trigger] live[i]).file_path@ == path
                && crate::live_files::touched(added, live[i]);
        let j = choose|j: int|
            0 <= j < added.len() && crate::table::partition_values(
                (#[trigger] added[j]).partition@,
            ) == crate::table::partition_values(live[i].partition@);
        crate::content_laws::lemma_partition(added[j].partition@, live[i].partition@);
        assert(live[i].file_path@ == path && crate::content_laws::same_in_every_field(
            added[j].partition@,
            live[i].partition@,
        ));
    }
    if exists|i: int, j: int|
        0 <= i < live.len() && 0 <= j < added.len() && (#[trigger] live[i]).file_path@ == path
            && crate::content_laws::same_in_every_field(
            (#[trigger] added[j]).partition@,
            live[i].partition@,
        ) {
        let (i, j) = choose|i: int, j: int|
            0 <= i < live.len() && 0 <= j < added.len() && (#[trigger] live[i]).file_path@ == path
                && crate::content_laws::same_in_every_field(
                (#[trigger] added[j]).partition@,
                live[i].partition@,
            );
        crate::content_laws::lemma_partition(added[j].partition@, live[i].partition@);
        assert(crate::live_files::touched(added, live[i]));
        let k = choose|k: int| 0 <= k < t.len() && t[k] == path;
        assert(removed[k]@ == path);
    }
}

/// A commit with nothing to write is done only where the metadata that it checked is still the
/// current one, and that is as the requirements want it.
pub proof fn unchanged_commits_confirm_what_they_checked(
    step: ConfirmUnchanged,
    reply: Result<(String, TableMetadata), EngineError>,
    next: Step,
)
    requires
        step.wf(),
        call_ensures(ConfirmUnchanged::loaded, (step, reply), next),
    ensures
        match reply {
            Err(e) => gave_up(next, step.run, e@),
            Ok((file, metadata)) => if !all_recorded(metadata, step.run.plan.info.requirements@) {
                gave_up_somehow(next, step.run)
            } else if file@ != step.run.latest@ {
                tried_again(next, step.run)
            } else {
                reported_nothing(next)
            },
        },
{
    if reply is Ok {
        lemma_meets_all(reply->Ok_0.1, step.run.plan.info.requirements@);
    }
}

/// A first snapshot is written only on metadata that is still the current one and as the
/// requirements want it. Else the commit fails or is tried again, and nothing is written.
pub proof fn first_snapshots_confirm_what_they_start_from(
    step: ConfirmFirst,
    reply: Result<(String, TableMetadata), EngineError>,
    next: Step,
)
    requires
        step.wf(),
        call_ensures(ConfirmFirst::loaded, (step, reply), next),
    ensures
        match reply {
            Err(e) => gave_up(next, step.run, e@),
            Ok((file, metadata)) => if !all_recorded(metadata, step.run.plan.info.requirements@) {
                gave_up_somehow(next, step.run)
            } else if file@ != step.run.latest@ {
                tried_again(next, step.run)
            } else {
                &&& next is BootstrapFirst
                &&& same_attempt(next->BootstrapFirst_0.run, step.run)
                &&& next->BootstrapFirst_0.base == step.base
                &&& next->BootstrapFirst_0.moves_pointer == step.moves_pointer
            },
        },
{
    if reply is Ok {
        lemma_meets_all(reply->Ok_0.1, step.run.plan.info.requirements@);
    }
}

/// A first snapshot that readers are sent to gets a unique name and follows the file that the
/// catalog names. One that lost to another is tried again, and any other error fails the commit. It
/// can be seen at once only where no pointer has to move.
pub proof fn first_snapshots_are_there_once_readers_find_them(
    step: BootstrapFirst,
    strategy: PersistStrategy,
    previous: Option<&String>,
    reply: Result<String, EngineError>,
    next: Step,
)
    requires
        step.wf(),
        call_ensures(BootstrapFirst::strategy, (&step,), strategy),
        call_ensures(BootstrapFirst::previous_metadata_file, (&step,), previous),
        call_ensures(BootstrapFirst::bootstrapped, (step, reply), next),
    ensures
        strategy is NewUuidVersion <==> step.moves_pointer,
        previous is Some <==> step.moves_pointer && step.run.location is Some,
        previous is Some ==> previous->0@ == step.run.location->0@,
        match reply {
            Err(e) => if lost_to_another(e) {
                tried_again(next, step.run)
            } else {
                gave_up(next, step.run, e@)
            },
            Ok(file) => if step.moves_pointer && step.run.location is Some {
                &&& next is NameBootstrap
                &&& same_attempt(next->NameBootstrap_0.run, step.run)
                &&& next->NameBootstrap_0.metadata_file == file
                &&& !next->NameBootstrap_0.new_table
            } else {
                found_by_path(next, step.run, file)
            },
        },
{
    if reply is Err {
        lemma_errors(reply->Err_0);
    }
}

/// The catalog records where the metadata now is, in place of what it recorded before. Whether it
/// does or not, the commit can be seen and nothing is removed.
pub proof fn recording_never_undoes_a_commit(
    name: NameRegistered,
    location: Result<String, EngineError>,
    named: Step,
    register: Register,
    previous: Option<&String>,
    reply: Result<(), EngineError>,
    next: Step,
)
    requires
        name.wf(),
        call_ensures(NameRegistered::named, (name, location), named),
        register.wf(),
        call_ensures(Register::previous_location, (&register,), previous),
        call_ensures(Register::registered, (register, reply), next),
    ensures
        match location {
            Ok(l) => named is Register && named->Register_0.run == name.run
                && named->Register_0.location == l,
            Err(e) => kept_all(named, e@),
        },
        previous is Some <==> register.run.recorded_location is Some,
        previous is Some ==> previous->0@ == register.run.recorded_location->0@,
        match reply {
            Ok(()) => reported(next, register.run),
            Err(e) => kept_all(next, e@),
        },
{
}

/// The next version is one more than that of the metadata that the attempt starts from, and the
/// first one where that has none.
pub proof fn versions_follow_each_other(run: &CommitRun, version: u64)
    requires
        call_ensures(next_version, (run,), version),
    ensures
        run.latest_version matches Some(v) ==> version == v + 1,
        run.latest_version is None ==> version == 1,
{
}

/// A snapshot is prepared only where no metadata file of the next version is there. Where one is,
/// another commit was first.
pub proof fn taken_versions_are_left_alone(
    step: ListVersion,
    reply: Result<Vec<String>, EngineError>,
    next: Step,
)
    requires
        step.wf(),
        call_ensures(ListVersion::listed, (step, reply), next),
    ensures
        match reply {
            Err(e) => gave_up(next, step.run, e@),
            Ok(files) => if files@.len() == 0 {
                next is PrepareSnapshot && next->PrepareSnapshot_0.run == step.run
                    && next->PrepareSnapshot_0.base == step.base
            } else {
                tried_again(next, step.run)
            },
        },
{
}

/// What comes after a snapshot is prepared: it is dropped where the metadata is not as its
/// requirements want it, and else the catalog commits it, or its updates are made here.
pub open spec fn went_on_with(
    next: Step,
    run: CommitRun,
    base: CommitBase,
    prepared: PreparedSnapshot,
    first: bool,
) -> bool {
    if !all_recorded(base.metadata, prepared.requirements@) {
        next is CleanPreparedAfter && next->CleanPreparedAfter_0.run == run
    } else if left_to_catalog(run) {
        &&& next is CommitToCatalog
        &&& next->CommitToCatalog_0.run == run
        &&& next->CommitToCatalog_0.base == base
        &&& next->CommitToCatalog_0.prepared == prepared
        &&& next->CommitToCatalog_0.first == first
    } else {
        &&& next is StampUpdates
        &&& next->StampUpdates_0.run == run
        &&& next->StampUpdates_0.base == base
        &&& next->StampUpdates_0.prepared == prepared
    }
}

/// A prepared snapshot is committed only on metadata that is as its own requirements want it.
pub proof fn prepared_snapshots_are_checked(
    step: PrepareSnapshot,
    reply: Result<PreparedSnapshot, String>,
    next: Step,
    first: PrepareFirstSnapshot,
    first_reply: Result<PreparedSnapshot, EngineError>,
    first_next: Step,
)
    requires
        step.wf(),
        call_ensures(PrepareSnapshot::prepared, (step, reply), next),
        first.wf(),
        call_ensures(PrepareFirstSnapshot::prepared, (first, first_reply), first_next),
    ensures
        match reply {
            Err(text) => gave_up(next, step.run, EngineErrorView::Execution(text@)),
            Ok(prepared) => went_on_with(next, step.run, step.base, prepared, false),
        },
        match first_reply {
            Err(e) => gave_up(first_next, first.run, e@),
            Ok(prepared) => went_on_with(first_next, first.run, first.base, prepared, true),
        },
{
    if reply is Ok {
        lemma_meets_all(step.base.metadata, reply->Ok_0.requirements@);
    }
    if first_reply is Ok {
        lemma_meets_all(first.base.metadata, first_reply->Ok_0.requirements@);
    }
}

/// The commit is made where the catalog says so, and only then. Where nobody can tell, nothing is
/// removed. A conflict is tried again once the manifests are removed. Where the catalog cannot
/// commit, that is an error, unless moving its pointer will do. After any other error the manifests
/// are removed, and the commit fails with it.
pub proof fn catalog_decides(
    step: CommitToCatalog,
    reply: Result<CatalogCommitOutcome, EngineError>,
    next: Step,
)
    requires
        step.wf(),
        call_ensures(CommitToCatalog::committed, (step, reply), next),
    ensures
        match reply {
            Err(e) => if nobody_can_tell(e) {
                kept_all(next, e@)
            } else {
                next is CleanPreparedAfter && next->CleanPreparedAfter_0.run == step.run
                    && next->CleanPreparedAfter_0.error == e
            },
            Ok(outcome) => match outcome {
                CatalogCommitOutcome::Committed => reported(next, step.run)
                    && next->Done_0.journal@ == step.run.journal@.push(Event::Published),
                CatalogCommitOutcome::Conflict => next is CleanPrepared && next->CleanPrepared_0.run
                    == step.run && next->CleanPrepared_0.afterwards is Retry,
                CatalogCommitOutcome::NotSupported => if !step.run.mode.is_compatibility {
                    next is CleanPreparedAfter && next->CleanPreparedAfter_0.run == step.run
                        && next->CleanPreparedAfter_0.error@ == EngineErrorView::Plan(
                        "Iceberg catalog commit is not supported by the resolved catalog authority"@,
                    )
                } else if step.first {
                    next is CleanPrepared && next->CleanPrepared_0.run == step.run
                        && next->CleanPrepared_0.afterwards == AfterPrepared::FirstSnapshot(
                        step.base,
                    )
                } else {
                    next is StampUpdates && next->StampUpdates_0.run == step.run
                        && next->StampUpdates_0.base == step.base && next->StampUpdates_0.prepared
                        == step.prepared
                },
            },
        },
{
    if reply is Err {
        lemma_errors(reply->Err_0);
    }
}

/// The manifests being removed, the commit fails, is tried again or writes its first snapshot as was
/// set. Where they could not be removed, it fails.
pub proof fn manifests_are_removed_before_anything_else(
    step: CleanPrepared,
    reply: Result<(), EngineError>,
    next: Step,
    failing: CleanPreparedAfter,
    error: EngineError,
    failed: Step,
)
    requires
        step.wf(),
        call_ensures(CleanPrepared::cleaned, (step, reply), next),
        failing.wf(),
        call_ensures(CleanPreparedAfter::cleaned, (failing, error), failed),
    ensures
        match reply {
            Err(_) => gave_up_somehow(next, step.run),
            Ok(()) => match step.afterwards {
                AfterPrepared::Fail(e) => gave_up(next, step.run, e@),
                AfterPrepared::Retry => tried_again(next, step.run),
                AfterPrepared::FirstSnapshot(base) => next is ConfirmFirst
                    && next->ConfirmFirst_0.run == step.run && next->ConfirmFirst_0.base == base
                    && next->ConfirmFirst_0.moves_pointer,
            },
        },
        gave_up(failed, failing.run, error@),
{
}

/// The metadata that is published has the snapshots of the metadata before and then the added ones,
/// the time of the commit, and at the end of its log the file that the attempt started from: where
/// the catalog says it is, or else its path.
pub proof fn published_metadata_follows_its_base(step: StampUpdates, time: i64, next: Step)
    requires
        step.wf(),
        call_ensures(StampUpdates::stamped, (step, time), next),
    ensures
        next is SerializeMetadata,
        next->SerializeMetadata_0.run == step.run,
        ({
            let before = step.base.metadata@;
            let new = next->SerializeMetadata_0.new;
            let after = new.metadata@;
            let added = crate::table_laws::added_snapshots(views(step.prepared.updates@));
            &&& after.snapshots == before.snapshots + added
            &&& added.len() > 0 ==> after.current_snapshot_id == Some(added.last().snapshot_id)
                && new.added_rows == added.last().added_rows
            &&& added.len() == 0 ==> after.current_snapshot_id == before.current_snapshot_id
                && new.added_rows is None
            &&& after.last_updated_ms == time
            &&& after.metadata_log.len() == before.metadata_log.len() + 1
            &&& forall|i: int|
                0 <= i < before.metadata_log.len() ==> #[trigger] after.metadata_log[i]
                    == before.metadata_log[i]
            &&& after.metadata_log.last().0 == before.last_updated_ms
            &&& step.run.location is Some ==> after.metadata_log.last().1
                == step.run.location->0@
            &&& step.run.location is None ==> after.metadata_log.last().1 == step.run.latest@
            &&& crate::table_laws::same_schemas(before, after)
            &&& crate::table_laws::same_specs(before, after)
            &&& after.format_version == before.format_version
        }),
{
    crate::table_laws::lemma_history(
        step.base.metadata@,
        views(step.prepared.updates@),
        time,
    );
}

/// The metadata that is published is what the updates of the snapshot make of the metadata that the
/// attempt works on, at the time of the commit, after the file that the attempt started from.
pub proof fn published_metadata_has_the_updates_made(
    step: StampUpdates,
    time: i64,
    next: Step,
    metadata: &mut TableMetadata,
    file: String,
    rows: Option<i64>,
)
    requires
        step.wf(),
        call_ensures(StampUpdates::stamped, (step, time), next),
        metadata@ == step.base.metadata@,
        step.run.location is Some ==> file@ == step.run.location->0@,
        step.run.location is None ==> file@ == step.run.latest@,
        call_ensures(apply_snapshot_updates, (metadata, &step.prepared.updates, time, file), rows),
    ensures
        next is SerializeMetadata,
        next->SerializeMetadata_0.new.metadata@ == final(metadata)@,
        next->SerializeMetadata_0.new.added_rows == rows,
{
}

/// What is put is what was encoded of what was serialised of the metadata of the commit, in the file
/// that was named for it. A failure on the way fails the commit.
pub proof fn what_is_encoded_is_carried_on(
    serialize: SerializeMetadata,
    json: Result<Vec<u8>, EngineError>,
    a: Step,
    locate: LocateNewFile,
    location: Result<String, EngineError>,
    b: Step,
    encode: EncodeMetadata,
    bytes: Result<Vec<u8>, EngineError>,
    c: Step,
)
    requires
        serialize.wf(),
        locate.wf(),
        encode.wf(),
        call_ensures(SerializeMetadata::serialized, (serialize, json), a),
        call_ensures(LocateNewFile::located, (locate, location), b),
        call_ensures(EncodeMetadata::encoded, (encode, bytes), c),
    ensures
        match json {
            Ok(json) => a is NameMetadata && a->NameMetadata_0.run == serialize.run
                && a->NameMetadata_0.new == serialize.new && a->NameMetadata_0.json == json,
            Err(e) => a is CleanPreparedAfter && a->CleanPreparedAfter_0.run == serialize.run
                && a->CleanPreparedAfter_0.error == e,
        },
        match location {
            Ok(location) => b is EncodeMetadata && b->EncodeMetadata_0.run == locate.run
                && b->EncodeMetadata_0.new == locate.new && b->EncodeMetadata_0.json == locate.json
                && b->EncodeMetadata_0.file == locate.file && b->EncodeMetadata_0.location
                == location,
            Err(e) => b is CleanPreparedAfter && b->CleanPreparedAfter_0.run == locate.run
                && b->CleanPreparedAfter_0.error == e,
        },
        match bytes {
            Ok(bytes) => c is ConfirmPublish && c->ConfirmPublish_0.run == encode.run
                && c->ConfirmPublish_0.encoded.new == encode.new
                && c->ConfirmPublish_0.encoded.bytes == bytes && c->ConfirmPublish_0.encoded.file
                == encode.file && c->ConfirmPublish_0.encoded.location == encode.location,
            Err(e) => c is CleanPreparedAfter && c->CleanPreparedAfter_0.run == encode.run
                && c->CleanPreparedAfter_0.error == e,
        },
{
}

/// The name of a new metadata file begins with the directory of metadata and ends with the extension.
/// The number in it is that of the next version. Where readers are sent to it, an identifier of 36
/// characters follows the number, and else nothing does.
pub proof fn new_files_are_named_by_the_next_version(
    step: NameMetadata,
    extension: Result<String, EngineError>,
    next: Step,
    version: u64,
)
    requires
        step.wf(),
        call_ensures(NameMetadata::named, (step, extension), next),
        call_ensures(next_version, (&step.run,), version),
    ensures
        match extension {
            Err(e) => next is CleanPreparedAfter && next->CleanPreparedAfter_0.run == step.run
                && next->CleanPreparedAfter_0.error == e,
            Ok(extension) => {
                &&& next is LocateNewFile
                &&& next->LocateNewFile_0.run == step.run
                &&& next->LocateNewFile_0.new == step.new
                &&& next->LocateNewFile_0.json == step.json
                &&& exists|digits: Seq<char>, identifier: Seq<char>|
                    {
                        &&& crate::text_laws::writes_number(digits, version as nat)
                        &&& points(step.run) ==> identifier.len() == 37 && identifier[0] == '-'
                            && (digits.len() == 5 || digits.len() > 5 && digits[0] != '0')
                        &&& !points(step.run) ==> identifier.len() == 0 && (digits.len() == 1
                            || digits[0] != '0')
                        &&& next->LocateNewFile_0.file@ == if points(step.run) {
                            "metadata/"@
                        } else {
                            "metadata/v"@
                        } + #[trigger] (digits + identifier) + extension@
                    }
            },
        },
{
    if extension is Ok {
        let ext = extension->Ok_0@;
        let file = next->LocateNewFile_0.file@;
        let n = version as nat;
        crate::text_laws::lemma_number(n);
        if points(step.run) {
            let uuid = choose|uuid: u128| #[trigger]
                crate::commit_run::random_uuid(uuid) && file
                    == crate::commit_state::metadata_file(n, Some(uuid), ext);
            let digits = crate::commit_state::five_digits(n);
            let chars = crate::identifier::uuid_chars(uuid);
            let identifier = "-"@ + chars;
            reveal_strlit("-");
            assert(identifier.len() == 37);
            assert(identifier[0] == '-');
            crate::text_laws::lemma_five_digits(n);
            assert(file =~= "metadata/"@ + (digits + identifier) + ext);
        } else {
            let digits = crate::text::nat_text(n);
            let none: Seq<char> = seq![];
            assert(digits + none =~= digits);
            assert(file =~= "metadata/v"@ + (digits + none) + ext);
        }
    }
}

/// New metadata is put only where the metadata that the attempt starts from is still the current one
/// and as the requirements want it. Where it is another one, the manifests are removed and the
/// commit is tried again, and else it fails.
pub proof fn metadata_is_put_only_on_the_current_one(
    step: ConfirmPublish,
    reply: Result<(String, TableMetadata), EngineError>,
    next: Step,
)
    requires
        step.wf(),
        call_ensures(ConfirmPublish::loaded, (step, reply), next),
    ensures
        match reply {
            Err(e) => next is CleanPreparedAfter && next->CleanPreparedAfter_0.run == step.run
                && next->CleanPreparedAfter_0.error == e,
            Ok((file, metadata)) => if !all_recorded(metadata, step.run.plan.info.requirements@) {
                next is CleanPreparedAfter && next->CleanPreparedAfter_0.run == step.run
            } else if file@ != step.run.latest@ {
                next is CleanPrepared && next->CleanPrepared_0.run == step.run
                    && next->CleanPrepared_0.afterwards is Retry
            } else {
                next is PutMetadata && same_attempt(next->PutMetadata_0.run, step.run)
                    && next->PutMetadata_0.encoded == step.encoded
            },
        },
{
    if reply is Ok {
        lemma_meets_all(reply->Ok_0.1, step.run.plan.info.requirements@);
    }
}

/// A file that was created is looked at once more. One that was there already means another commit
/// was first, and after any other error the commit fails with it.
pub proof fn created_files_are_looked_at_once_more(step: PutMetadata, reply: PutOutcome, next: Step)
    requires
        step.wf(),
        call_ensures(PutMetadata::put, (step, reply), next),
    ensures
        match reply {
            PutOutcome::Created => {
                &&& next is ListAfterPut
                &&& same_attempt(next->ListAfterPut_0.run, step.run)
                &&& next->ListAfterPut_0.file == step.encoded.file
                &&& next->ListAfterPut_0.location == step.encoded.location
                &&& next->ListAfterPut_0.run.journal@ == step.run.journal@.push(
                    Event::CandidateWritten,
                )
            },
            PutOutcome::AlreadyExists => next is CleanPrepared && next->CleanPrepared_0.run
                == step.run && next->CleanPrepared_0.afterwards is Retry,
            PutOutcome::Failed(e) => next is CleanPreparedAfter && next->CleanPreparedAfter_0.run
                == step.run && next->CleanPreparedAfter_0.error == e,
        },
{
}

/// A commit without a pointer can be seen exactly where its file is the only one of its version, and
/// one with a pointer moves it only then. Else the file is deleted, and the commit is tried again or
/// fails.
pub proof fn only_file_of_its_version_is_published(
    step: ListAfterPut,
    reply: Result<Vec<String>, EngineError>,
    next: Step,
)
    requires
        step.wf(),
        call_ensures(ListAfterPut::listed, (step, reply), next),
    ensures
        match reply {
            Err(e) => next is DeleteCandidate && next->DeleteCandidate_0.run == step.run
                && next->DeleteCandidate_0.file == step.file && next->DeleteCandidate_0.afterwards
                == AfterCleanup::Fail(e),
            Ok(files) => if exists|i: int|
                0 <= i < files@.len() && (#[trigger] files@[i])@ != step.file@ {
                next is DeleteCandidate && next->DeleteCandidate_0.run == step.run
                    && next->DeleteCandidate_0.file == step.file
                    && next->DeleteCandidate_0.afterwards is Retry
            } else if points(step.run) {
                next is MovePointer && next->MovePointer_0.run == step.run
                    && next->MovePointer_0.file == step.file && next->MovePointer_0.location
                    == step.location
            } else {
                &&& next is WriteHint
                &&& same_attempt(next->WriteHint_0.run, step.run)
                &&& next->WriteHint_0.file == step.file
                &&& next->WriteHint_0.location == step.location
                &&& next->WriteHint_0.run.journal@ == step.run.journal@.push(Event::Published)
            },
        },
{
}

/// A commit with a pointer can be seen exactly where the pointer moved. Where another commit was
/// first, its file is deleted and it is tried again. Where nobody can tell, nothing is deleted.
/// After any other error its file is deleted and it fails with that. The pointer is expected where
/// this attempt found it.
pub proof fn moved_pointers_publish(
    step: MovePointer,
    expected: Option<&String>,
    reply: Result<(), EngineError>,
    next: Step,
)
    requires
        step.wf(),
        call_ensures(MovePointer::previous_location, (&step,), expected),
        call_ensures(MovePointer::moved, (step, reply), next),
    ensures
        expected is Some <==> step.run.location is Some,
        expected is Some ==> expected->0@ == step.run.location->0@,
        match reply {
            Ok(()) => {
                &&& next is WriteHint
                &&& same_attempt(next->WriteHint_0.run, step.run)
                &&& next->WriteHint_0.file == step.file
                &&& next->WriteHint_0.location == step.location
                &&& next->WriteHint_0.run.journal@ == step.run.journal@.push(Event::Published)
            },
            Err(e) => if lost_to_another(e) {
                next is DeleteCandidate && next->DeleteCandidate_0.run == step.run
                    && next->DeleteCandidate_0.file == step.file
                    && next->DeleteCandidate_0.afterwards is Retry
            } else if nobody_can_tell(e) {
                kept_all(next, e@)
            } else {
                next is DeleteCandidate && next->DeleteCandidate_0.run == step.run
                    && next->DeleteCandidate_0.file == step.file
                    && next->DeleteCandidate_0.afterwards == AfterCleanup::Fail(e)
            },
        },
{
    if reply is Err {
        lemma_errors(reply->Err_0);
    }
}

/// The manifests of a snapshot go only after the metadata that names them. Where that cannot be
/// deleted nothing else is, nobody can tell whether the commit was made, and the error says which
/// file is left and why.
pub proof fn metadata_goes_before_its_manifests(
    step: DeleteCandidate,
    reply: DeleteOutcome,
    next: Step,
)
    requires
        step.wf(),
        call_ensures(DeleteCandidate::deleted, (step, reply), next),
    ensures
        match reply {
            DeleteOutcome::Failed(error) => {
                &&& next is Done
                &&& next->Done_0.result is Err
                &&& nobody_can_tell(next->Done_0.result->Err_0)
                &&& stands_in(step.file@, next->Done_0.result->Err_0@.text())
                &&& stands_in(error@, next->Done_0.result->Err_0@.text())
            },
            _ => {
                &&& next is CleanPrepared
                &&& same_attempt(next->CleanPrepared_0.run, step.run)
                &&& match step.afterwards {
                    AfterCleanup::Fail(e) => next->CleanPrepared_0.afterwards
                        == AfterPrepared::Fail(e),
                    AfterCleanup::Retry => next->CleanPrepared_0.afterwards is Retry,
                }
            },
        },
{
    match reply {
        DeleteOutcome::Failed(error) => {
            let e = next->Done_0.result->Err_0;
            lemma_errors(e);
            let text = e@.text();
            let a = "External error: "@;
            let b = "Iceberg publication state is unknown: "@;
            let c = "failed to remove candidate metadata "@;
            let d = "; metadata, manifests and task data were retained: "@;
            assert(text =~= (a + b + c) + step.file@ + (d + error@));
            assert(text =~= (a + b + c + step.file@ + d) + error@ + Seq::<char>::empty());
        },
        _ => {},
    }
}

/// The hint names the version, or the file where that has a unique name. Whatever becomes of it the
/// commit is over, unless the catalog is to record it.
pub proof fn hints_name_what_was_published(step: WriteHint, hint: String, version: u64, next: Step)
    requires
        step.wf(),
        call_ensures(WriteHint::hint, (&step,), hint),
        call_ensures(next_version, (&step.run,), version),
        call_ensures(WriteHint::written, (step,), next),
    ensures
        !points(step.run) ==> crate::text_laws::writes_number(hint@, version as nat),
        points(step.run) ==> {
            &&& hint@.len() <= step.file@.len()
            &&& hint@ == step.file@.skip(step.file@.len() - hint@.len())
            &&& hint@.len() < step.file@.len() ==> step.file@[step.file@.len() - hint@.len() - 1]
                == '/'
            &&& forall|i: int| 0 <= i < hint@.len() ==> #[trigger] hint@[i] != '/'
        },
        if !points(step.run) && step.run.plan.info.lakehouse_table is Some
            && step.run.mode.is_filesystem {
            next is Register && next->Register_0.run == step.run && next->Register_0.location
                == step.location
        } else {
            reported(next, step.run)
        },
{
    crate::text_laws::lemma_number(version as nat);
    crate::error_laws::lemma_last_segment(step.file@);
}

/// The current metadata is what the catalog says where that is in charge, which must know it, and
/// else the latest below the table. What is read is that file.
pub proof fn current_metadata_is_read_from_whoever_is_in_charge(
    run: &CommitRun,
    first: CurrentStep,
    ask: AskCatalog,
    answer: Result<Option<String>, EngineError>,
    answered: CurrentStep,
    find: FindFile,
    file: Result<String, EngineError>,
    found: CurrentStep,
    read: ReadFile,
    metadata: Result<TableMetadata, EngineError>,
    done: CurrentStep,
)
    requires
        call_ensures(read_current, (run,), first),
        call_ensures(AskCatalog::answered, (ask, answer), answered),
        call_ensures(FindFile::found, (find, file), found),
        call_ensures(ReadFile::read, (read, metadata), done),
    ensures
        asks_catalog(*run) ==> first is AskCatalog,
        !asks_catalog(*run) ==> first is FindLatest,
        match answer {
            Ok(Some(location)) => answered is FindAt && answered->FindAt_0.location == Some(
                location,
            ),
            Ok(None) => answered is Done && answered->Done_0 is Err && answered->Done_0->Err_0
                is Plan,
            Err(e) => answered is Done && answered->Done_0 is Err && answered->Done_0->Err_0 == e,
        },
        match file {
            Ok(file) => found is ReadFile && found->ReadFile_0.file == file,
            Err(e) => found is Done && found->Done_0 is Err && found->Done_0->Err_0 == e,
        },
        match metadata {
            Ok(metadata) => done is Done && done->Done_0 is Ok && done->Done_0->Ok_0 == (
                read.file,
                metadata,
            ),
            Err(e) => done is Done && done->Done_0 is Err && done->Done_0->Err_0 == e,
        },
{
}

/// What happened was published, or may have been.
pub open spec fn ever_public(journal: Seq<Event>) -> bool {
    exists|i: int|
        0 <= i < journal.len() && ((#[trigger] journal[i]) is Published || journal[i]
            is StateUnknown)
}

/// A commit can be seen, or may be, exactly where it was published or nobody can tell. Else there is
/// a metadata file of it exactly where one was written that was not removed since.
pub proof fn exposure_is_what_happened(journal: Seq<Event>)
    ensures
        exposure(journal) is Public <==> ever_public(journal),
        exposure(journal) is Candidate <==> !ever_public(journal) && exists|i: int|
            0 <= i < journal.len() && (#[trigger] journal[i]) is CandidateWritten && forall|j: int|
                i < j < journal.len() ==> !((#[trigger] journal[j]) is CandidateRemoved),
    decreases journal.len(),
{
    if journal.len() > 0 {
        let shorter = journal.drop_last();
        let last = journal.last();
        exposure_is_what_happened(shorter);
        assert forall|i: int| 0 <= i < shorter.len() implies #[trigger] shorter[i]
            == journal[i] by {}
        if ever_public(shorter) {
            let i = choose|i: int|
                0 <= i < shorter.len() && ((#[trigger] shorter[i]) is Published || shorter[i]
                    is StateUnknown);
            assert(journal[i] is Published || journal[i] is StateUnknown);
        }
        if ever_public(journal) {
            let i = choose|i: int|
                0 <= i < journal.len() && ((#[trigger] journal[i]) is Published || journal[i]
                    is StateUnknown);
            if i < shorter.len() {
                assert(shorter[i] is Published || shorter[i] is StateUnknown);
            }
        }
        assert(journal[journal.len() - 1] == last);
        let written = |s: Seq<Event>|
            exists|i: int|
                0 <= i < s.len() && (#[trigger] s[i]) is CandidateWritten && forall|j: int|
                    i < j < s.len() ==> !((#[trigger] s[j]) is CandidateRemoved);
        if written(shorter) && !(last is CandidateRemoved) {
            let i = choose|i: int|
                0 <= i < shorter.len() && (#[trigger] shorter[i]) is CandidateWritten && forall|
                    j: int,
                |
                    i < j < shorter.len() ==> !((#[trigger] shorter[j]) is CandidateRemoved);
            assert(journal[i] is CandidateWritten);
            assert forall|j: int| i < j < journal.len() implies !((#[trigger] journal[j])
                is CandidateRemoved) by {
                if j < shorter.len() {
                    assert(!(shorter[j] is CandidateRemoved));
                }
            }
            assert(written(journal));
        }
        if written(journal) {
            let i = choose|i: int|
                0 <= i < journal.len() && (#[trigger] journal[i]) is CandidateWritten && forall|
                    j: int,
                |
                    i < j < journal.len() ==> !((#[trigger] journal[j]) is CandidateRemoved);
            if i < shorter.len() {
                assert(!(journal[journal.len() - 1] is CandidateRemoved));
                assert(shorter[i] is CandidateWritten);
                assert forall|j: int| i < j < shorter.len() implies !((#[trigger] shorter[j])
                    is CandidateRemoved) by {
                    assert(!(journal[j] is CandidateRemoved));
                }
                assert(written(shorter));
            }
        }
        if last is CandidateWritten {
            assert(journal[journal.len() - 1] is CandidateWritten);
            assert(written(journal));
        }
    }
}

} // verus!
