//! What holds of every commit, whatever the replies to its steps are.
use vstd::prelude::*;

use crate::commit_exec::ReadInput;
use crate::commit_run::{retries, BootstrapFirst, PutMetadata, Step};
use crate::commit_state::{
    exposure, nothing_written, nothing_written_is_hidden, CommitPlan, CommitRun, Event, Exposure,
    MAX_COMMIT_RETRIES,
};
use crate::content::views;
use crate::requirements::{
    existing_snapshot, meets_all, moved_branch_is_refused, with_requirement,
};
use crate::table::{TableMetadataView, TableRequirementView};

verus! {

/// The files that tasks have written are deleted only where the commit cannot be seen: nothing was
/// published, nothing is unknown, and no metadata file is left.
pub proof fn task_files_are_deleted_only_while_hidden(step: Step)
    requires
        step.wf(),
        step is CleanTaskFiles,
    ensures
        exposure(step->CleanTaskFiles_0.journal@) == Exposure::Hidden,
        forall|i: int|
            0 <= i < step->CleanTaskFiles_0.journal@.len() ==> {
                &&& !((#[trigger] step->CleanTaskFiles_0.journal@[i]) is Published)
                &&& !(step->CleanTaskFiles_0.journal@[i] is StateUnknown)
            },
{
    lemma_hidden_means_never_public(step->CleanTaskFiles_0.journal@);
}

proof fn lemma_hidden_means_never_public(journal: Seq<Event>)
    requires
        exposure(journal) != Exposure::Public,
    ensures
        forall|i: int|
            0 <= i < journal.len() ==> !((#[trigger] journal[i]) is Published) && !(
            journal[i] is StateUnknown),
    decreases journal.len(),
{
    if journal.len() > 0 {
        lemma_hidden_means_never_public(journal.drop_last());
        assert forall|i: int| 0 <= i < journal.len() implies !((#[trigger] journal[i])
            is Published) && !(journal[i] is StateUnknown) by {
            if i < journal.len() - 1 {
                assert(journal.drop_last()[i] == journal[i]);
            }
        }
    }
}

/// A commit that succeeds can be seen, or there was nothing to write.
pub proof fn success_can_be_seen(step: Step)
    requires
        step.wf(),
        step is Done,
        step->Done_0.result is Ok,
    ensures
        exposure(step->Done_0.journal@) == Exposure::Public || nothing_written(
            step->Done_0.journal@,
        ),
{
}

/// No commit ends with a metadata file left behind that nobody is sent to.
pub proof fn no_candidate_is_left_behind(step: Step)
    requires
        step.wf(),
        step is Done,
    ensures
        exposure(step->Done_0.journal@) != Exposure::Candidate,
{
}

/// Metadata is written only if the metadata that the commit starts from was the current one when
/// it was last read, and met the requirements of the commit.
pub proof fn metadata_is_written_on_the_current_base(step: PutMetadata)
    requires
        step.wf(),
    ensures
        exists|metadata: TableMetadataView|
            step.run.journal@.last() == (Event::BaseConfirmed {
                file: step.run.latest@,
                metadata,
            }) && #[trigger] meets_all(Some(metadata), step.run.plan.info.requirements@),
{
    let metadata = step.run.journal@.last()->BaseConfirmed_metadata;
    assert(meets_all(Some(metadata), step.run.plan.info.requirements@));
}

/// The same holds of a first snapshot.
pub proof fn first_snapshot_is_written_on_the_current_base(step: BootstrapFirst)
    requires
        step.wf(),
    ensures
        exists|metadata: TableMetadataView|
            step.run.journal@.last() == (Event::BaseConfirmed {
                file: step.run.latest@,
                metadata,
            }) && #[trigger] meets_all(Some(metadata), step.run.plan.info.requirements@),
{
    let metadata = step.run.journal@.last()->BaseConfirmed_metadata;
    assert(meets_all(Some(metadata), step.run.plan.info.requirements@));
}

/// A commit that expects the main branch at a snapshot writes metadata only if the branch was there
/// when the metadata was last read.
pub proof fn expected_snapshot_is_held_to(step: PutMetadata, i: int, expected: Option<i64>)
    requires
        step.wf(),
        0 <= i < step.run.plan.info.requirements@.len(),
        step.run.plan.info.requirements@[i]@ == (TableRequirementView::RefSnapshotIdMatch {
            reference: "main"@,
            snapshot_id: expected,
        }),
    ensures
        existing_snapshot(
            step.run.journal@.last()->BaseConfirmed_metadata.current_snapshot_id,
        ) == expected,
{
    let metadata = step.run.journal@.last()->BaseConfirmed_metadata;
    if existing_snapshot(metadata.current_snapshot_id) != expected {
        moved_branch_is_refused(metadata, step.run.plan.info.requirements@, i, expected);
    }
}

/// The snapshot that a caller expects is among the requirements of the commit that the input leads
/// to.
pub proof fn caller_expectation_becomes_a_requirement(input: ReadInput, plan: CommitPlan, id: i64)
    requires
        input.meta is Some,
        input.leads_to(plan),
        input.caller_expected_snapshot_id == Some(id),
    ensures
        exists|i: int|
            0 <= i < plan.info.requirements@.len() && (#[trigger] plan.info.requirements@[i])@ == (
            TableRequirementView::RefSnapshotIdMatch {
                reference: "main"@,
                snapshot_id: Some(id),
            }),
{
    let all = input.all_requirements(input.meta->0);
    let wanted = TableRequirementView::RefSnapshotIdMatch {
        reference: "main"@,
        snapshot_id: Some(id),
    };
    assert(exists|i: int| 0 <= i < all.len() && all[i] == wanted) by {
        let earlier = with_requirement(
            views(input.meta->0.requirements@),
            match input.expected_snapshot_id {
                Some(snapshot_id) => Some(
                    TableRequirementView::RefSnapshotIdMatch { reference: "main"@, snapshot_id },
                ),
                None => None,
            },
        );
        if earlier.contains(wanted) {
            let k = choose|k: int| 0 <= k < earlier.len() && earlier[k] == wanted;
            assert(all[k] == wanted);
        } else {
            assert(all[earlier.len() as int] == wanted);
        }
    }
    let i = choose|i: int| 0 <= i < all.len() && all[i] == wanted;
    assert(views(plan.info.requirements@)[i] == wanted);
    assert(plan.info.requirements@[i]@ == wanted);
}

/// The snapshot that the plan was made for is among the requirements of the commit that the input
/// leads to, also where it is none.
pub proof fn planned_snapshot_becomes_a_requirement(
    input: ReadInput,
    plan: CommitPlan,
    planned: Option<i64>,
)
    requires
        input.meta is Some,
        input.leads_to(plan),
        input.expected_snapshot_id == Some(planned),
    ensures
        exists|i: int|
            0 <= i < plan.info.requirements@.len() && (#[trigger] plan.info.requirements@[i])@ == (
            TableRequirementView::RefSnapshotIdMatch {
                reference: "main"@,
                snapshot_id: planned,
            }),
{
    let all = input.all_requirements(input.meta->0);
    let wanted = TableRequirementView::RefSnapshotIdMatch {
        reference: "main"@,
        snapshot_id: planned,
    };
    let reported = views(input.meta->0.requirements@);
    let earlier = with_requirement(reported, Some(wanted));
    assert(exists|i: int| 0 <= i < earlier.len() && earlier[i] == wanted) by {
        if reported.contains(wanted) {
            let k = choose|k: int| 0 <= k < reported.len() && reported[k] == wanted;
            assert(earlier[k] == wanted);
        } else {
            assert(earlier[reported.len() as int] == wanted);
        }
    }
    let i = choose|i: int| 0 <= i < earlier.len() && earlier[i] == wanted;
    assert(i < all.len());
    assert(all[i] == wanted);
    assert(views(plan.info.requirements@)[i] == wanted);
    assert(plan.info.requirements@[i]@ == wanted);
}

/// A commit that is to remove both planned files and those of whole partitions never begins, unless
/// its writers have written nothing and report nothing.
pub proof fn conflicting_removals_never_begin(input: ReadInput)
    requires
        input.dynamic_partition_overwrite,
        input.removed_data_file_paths@.len() > 0,
        !input.silent(),
    ensures
        input.start_error() is Some,
{
}

/// A commit that has nothing to write never comes to a step that writes or publishes.
pub proof fn validation_writes_nothing(step: Step, run: CommitRun)
    requires
        step.wf(),
        run.plan.validation_only,
    ensures
        step matches Step::BootstrapTable(s) ==> s.run != run,
        step matches Step::PrepareFirstSnapshot(s) ==> s.run != run,
        step matches Step::PrepareSnapshot(s) ==> s.run != run,
        step matches Step::CommitToCatalog(s) ==> s.run != run,
        step matches Step::BootstrapFirst(s) ==> s.run != run,
        step matches Step::MoveBootstrapPointer(s) ==> s.run != run,
        step matches Step::PutMetadata(s) ==> s.run != run,
        step matches Step::MovePointer(s) ==> s.run != run,
        step matches Step::WriteHint(s) ==> s.run != run,
        step matches Step::Register(s) ==> s.run != run,
        step matches Step::Locate(s) && s.run == run ==> nothing_written(run.journal@),
        step matches Step::LoadMetadata(s) && s.run == run ==> nothing_written(run.journal@),
        step matches Step::ConfirmUnchanged(s) && s.run == run ==> nothing_written(run.journal@),
{
    if nothing_written(run.journal@) {
        nothing_written_is_hidden(run.journal@);
    }
}

/// The manifests of a snapshot are removed only while no metadata file leads to them: neither one
/// that was published, nor one that nobody is sent to, nor one of which nobody can tell.
pub proof fn manifests_are_removed_only_while_hidden(step: Step)
    requires
        step.wf(),
    ensures
        step matches Step::CleanPrepared(s) ==> exposure(s.run.journal@) == Exposure::Hidden,
        step matches Step::CleanPreparedAfter(s) ==> exposure(s.run.journal@) == Exposure::Hidden,
{
}

/// A table that the catalog is not in charge of is found by its path, whatever the catalog records
/// of it.
pub proof fn path_tables_are_found_by_their_path(step: Step)
    requires
        step.wf(),
    ensures
        step matches Step::Locate(s) ==> (!s.run.mode.uses_catalog_metadata ==> s.run.location
            is None),
        step matches Step::ReloadLocation(s) ==> s.run.mode.uses_catalog_metadata,
{
}

/// A commit is tried at most as often as is set, and each time from a state in which it cannot be
/// seen.
pub proof fn attempts_are_bounded(next: Step, run: CommitRun)
    requires
        run.wf(),
        run.hidden(),
        retries(next, run),
    ensures
        match next {
            Step::ReloadLocation(s) => s.run.attempt == run.attempt + 1 && s.run.attempt
                <= MAX_COMMIT_RETRIES && s.run.hidden() && s.run.plan == run.plan,
            Step::Locate(s) => s.run.attempt == run.attempt + 1 && s.run.attempt
                <= MAX_COMMIT_RETRIES && s.run.hidden() && s.run.plan == run.plan,
            Step::CleanTaskFiles(s) => run.attempt == MAX_COMMIT_RETRIES,
            _ => false,
        },
{
}

} // verus!
