//! The files that a writer left, and how they are cleaned up where they are not committed.
use vstd::prelude::*;
use vstd::string::*;

use crate::content::Content;
use crate::error::{execution_error, internal_error, EngineError, EngineErrorView};
use crate::ordered::{increasing, increasing_has_no_duplicates, sorted_distinct};
use crate::table::{CommitMeta, CommitMetaView, DataFile};
use crate::text::{join, join_text, texts};

verus! {

/// The paths of files.
pub open spec fn paths_of(files: Seq<DataFile>) -> Seq<Seq<char>> {
    Seq::new(files.len(), |i: int| files[i].file_path@)
}

fn push_paths(paths: &mut Vec<String>, files: &[DataFile])
    ensures
        texts(final(paths)@) == texts(old(paths)@) + paths_of(files@),
{
    let ghost before = texts(paths@);
    let mut i: usize = 0;
    assert(before + paths_of(files@.take(0)) =~= before);
    while i < files.len()
        invariant
            i <= files.len(),
            texts(paths@) == before + paths_of(files@.take(i as int)),
        decreases files.len() - i,
    {
        let ghost earlier = texts(paths@);
        paths.push(files[i].file_path.clone());
        assert(texts(paths@) =~= earlier.push(files@[i as int].file_path@));
        assert(texts(paths@) =~= before + paths_of(files@.take(i + 1)));
        i += 1;
    }
    assert(files@.take(files@.len() as int) =~= files@);
}

/// The paths of the files that a task wrote: those of rows, then those of deletes.
pub fn task_file_paths(data_files: &[DataFile], delete_files: &[DataFile]) -> (r: Vec<String>)
    ensures
        texts(r@) == paths_of(data_files@) + paths_of(delete_files@),
{
    let mut paths: Vec<String> = Vec::new();
    assert(texts(paths@) =~= seq![]);
    push_paths(&mut paths, data_files);
    push_paths(&mut paths, delete_files);
    assert(texts(paths@) =~= paths_of(data_files@) + paths_of(delete_files@));
    paths
}

/// Two reports agree on everything but the number of rows.
pub open spec fn agree(a: CommitMetaView, b: CommitMetaView) -> bool {
    a == CommitMetaView { row_count: a.row_count, ..b }
}

/// Takes the report of one more writer into account. All writers must report the same but for the
/// number of rows, which are added up.
pub fn merge_writer_commit_meta(accumulated: &mut Option<CommitMeta>, incoming: CommitMeta) -> (r:
    Result<(), EngineError>)
    ensures
        match *old(accumulated) {
            None => r is Ok && *final(accumulated) == Some(incoming),
            Some(existing) => if !agree(existing@, incoming@) {
                &&& r matches Err(e) && e@ == EngineErrorView::Internal(
                    "inconsistent commit_meta actions from Iceberg writer partitions"@,
                )
                &&& *final(accumulated) == *old(accumulated)
            } else if existing.row_count + incoming.row_count > u64::MAX {
                &&& r matches Err(e) && e@ == EngineErrorView::Execution(
                    "Iceberg writer row count overflow across partitions"@,
                )
                &&& *final(accumulated) == *old(accumulated)
            } else {
                &&& r is Ok
                &&& *final(accumulated) == Some(
                    CommitMeta {
                        row_count: (existing.row_count + incoming.row_count) as u64,
                        ..existing
                    },
                )
            },
        },
{
    let ghost reported = incoming@;
    match accumulated {
        None => {
            *accumulated = Some(incoming);
            Ok(())
        },
        Some(existing) => {
            let incoming_row_count: u64 = incoming.row_count;
            let mut incoming = incoming;
            incoming.row_count = existing.row_count;
            assert(agree(existing@, reported) <==> existing@ == incoming@);
            if !existing.same(&incoming) {
                return Err(
                    internal_error(
                        "inconsistent commit_meta actions from Iceberg writer partitions",
                    ),
                );
            }
            match existing.row_count.checked_add(incoming_row_count) {
                Some(total) => {
                    existing.row_count = total;
                    Ok(())
                },
                None => Err(
                    execution_error("Iceberg writer row count overflow across partitions"),
                ),
            }
        },
    }
}

/// How many rows the reports count in all.
pub open spec fn total_rows(reports: Seq<CommitMetaView>) -> int
    decreases reports.len(),
{
    if reports.len() == 0 {
        0
    } else {
        total_rows(reports.drop_last()) + reports.last().row_count
    }
}

/// What is kept of reports that were merged one after the other.
pub open spec fn merges(reports: Seq<CommitMetaView>, merged: Option<CommitMetaView>) -> bool {
    match merged {
        None => reports.len() == 0,
        Some(meta) => {
            &&& reports.len() > 0
            &&& meta.row_count == total_rows(reports)
            &&& forall|i: int| 0 <= i < reports.len() ==> agree(meta, #[trigger] reports[i])
        },
    }
}

/// A merge that succeeds keeps the sum of all rows, and agrees with every report.
pub proof fn merging_adds_up_rows(
    reports: Seq<CommitMetaView>,
    before: Option<CommitMeta>,
    incoming: CommitMeta,
    after: Option<CommitMeta>,
)
    requires
        merges(reports, crate::content::optional_view(before)),
        match before {
            None => after == Some(incoming),
            Some(existing) => agree(existing@, incoming@) && after == Some(
                CommitMeta {
                    row_count: (existing.row_count + incoming.row_count) as u64,
                    ..existing
                },
            ) && existing.row_count + incoming.row_count <= u64::MAX,
        },
    ensures
        merges(reports.push(incoming@), crate::content::optional_view(after)),
{
    let longer = reports.push(incoming@);
    assert(longer.drop_last() =~= reports);
    assert forall|i: int| 0 <= i < longer.len() implies agree(
        after->0@,
        #[trigger] longer[i],
    ) by {
        if i < reports.len() {
            assert(longer[i] == reports[i]);
        }
    }
    if before is None {
        assert(total_rows(reports) == 0);
    }
}

proof fn lemma_rows_without_one(reports: Seq<CommitMetaView>, i: int)
    requires
        0 <= i < reports.len(),
    ensures
        total_rows(reports) == total_rows(reports.remove(i)) + reports[i].row_count,
    decreases reports.len(),
{
    if i == reports.len() - 1 {
        assert(reports.remove(i) =~= reports.drop_last());
    } else {
        lemma_rows_without_one(reports.drop_last(), i);
        assert(reports.remove(i).drop_last() =~= reports.drop_last().remove(i));
        assert(reports.remove(i).last() == reports.last());
    }
}

proof fn lemma_rows_in_any_order(a: Seq<CommitMetaView>, b: Seq<CommitMetaView>)
    requires
        a.to_multiset() == b.to_multiset(),
    ensures
        total_rows(a) == total_rows(b),
        a.len() == b.len(),
    decreases a.len(),
{
    broadcast use vstd::seq_lib::group_to_multiset_ensures;

    assert(a.to_multiset().len() == a.len());
    assert(b.to_multiset().len() == b.len());
    if a.len() > 0 {
        let last = a.last();
        assert(a.contains(last)) by {
            assert(a[a.len() - 1] == last);
        }
        assert(a.to_multiset().count(last) > 0);
        assert(b.to_multiset().count(last) > 0);
        assert(b.contains(last));
        let i = choose|i: int| 0 <= i < b.len() && b[i] == last;
        assert(a.remove(a.len() - 1) =~= a.drop_last());
        assert(a.drop_last().to_multiset() =~= a.to_multiset().remove(last));
        assert(b.remove(i).to_multiset() =~= b.to_multiset().remove(last));
        lemma_rows_in_any_order(a.drop_last(), b.remove(i));
        lemma_rows_without_one(b, i);
    }
}

/// What is kept of reports does not depend on the order in which they were merged.
pub proof fn merging_order_does_not_matter(
    a: Seq<CommitMetaView>,
    b: Seq<CommitMetaView>,
    merged_a: Option<CommitMetaView>,
    merged_b: Option<CommitMetaView>,
)
    requires
        merges(a, merged_a),
        merges(b, merged_b),
        a.to_multiset() == b.to_multiset(),
    ensures
        merged_a == merged_b,
{
    broadcast use vstd::seq_lib::group_to_multiset_ensures;

    lemma_rows_in_any_order(a, b);
    if a.len() > 0 {
        let first = a[0];
        assert(a.contains(first));
        assert(a.to_multiset().count(first) > 0);
        assert(b.to_multiset().count(first) > 0);
        assert(b.contains(first));
        let i = choose|i: int| 0 <= i < b.len() && b[i] == first;
        assert(agree(merged_a->0, a[0]));
        assert(agree(merged_b->0, b[i]));
    }
}

/// Where a path leads.
#[derive(Debug, PartialEq, Eq)]
pub enum ResolvedPath {
    /// To a path of the whole store.
    Base(String),
    /// To a path below the table.
    Prefixed(String),
    /// Nowhere, for this reason.
    Unresolved(String),
}

/// What is to be deleted, and what went wrong before.
#[derive(Debug, PartialEq, Eq)]
pub struct CleanupPlan {
    /// Paths of the whole store.
    pub base_paths: Vec<String>,
    /// Paths below the table.
    pub prefixed_paths: Vec<String>,
    pub failures: Vec<String>,
}

/// The paths that lead to paths of the whole store.
pub open spec fn base_paths(resolved: Seq<(String, ResolvedPath)>) -> Seq<Seq<char>>
    decreases resolved.len(),
{
    if resolved.len() == 0 {
        seq![]
    } else {
        match resolved.last().1 {
            ResolvedPath::Base(path) => base_paths(resolved.drop_last()).push(path@),
            _ => base_paths(resolved.drop_last()),
        }
    }
}

/// The paths that lead to paths below the table.
pub open spec fn prefixed_paths(resolved: Seq<(String, ResolvedPath)>) -> Seq<Seq<char>>
    decreases resolved.len(),
{
    if resolved.len() == 0 {
        seq![]
    } else {
        match resolved.last().1 {
            ResolvedPath::Prefixed(path) => prefixed_paths(resolved.drop_last()).push(path@),
            _ => prefixed_paths(resolved.drop_last()),
        }
    }
}

/// The messages about paths that lead nowhere.
pub open spec fn unresolved(resolved: Seq<(String, ResolvedPath)>) -> Seq<Seq<char>>
    decreases resolved.len(),
{
    if resolved.len() == 0 {
        seq![]
    } else {
        match resolved.last().1 {
            ResolvedPath::Unresolved(error) => unresolved(resolved.drop_last()).push(
                "failed to resolve "@ + resolved.last().0@ + ": "@ + error@,
            ),
            _ => unresolved(resolved.drop_last()),
        }
    }
}

/// Sorts the paths of files by where they lead.
fn plan_cleanup(resolved: Vec<(String, ResolvedPath)>) -> (plan: CleanupPlan)
    ensures
        texts(plan.base_paths@) == base_paths(resolved@),
        texts(plan.prefixed_paths@) == prefixed_paths(resolved@),
        texts(plan.failures@) == unresolved(resolved@),
{
    let ghost all = resolved@;
    let mut base: Vec<String> = Vec::new();
    let mut prefixed: Vec<String> = Vec::new();
    let mut failures: Vec<String> = Vec::new();
    assert(texts(base@) =~= seq![]);
    assert(all.take(0) =~= seq![]);
    for item in iter: resolved
        invariant
            all == iter.seq(),
            texts(base@) == base_paths(all.take(iter.index() as int)),
            texts(prefixed@) == prefixed_paths(all.take(iter.index() as int)),
            texts(failures@) == unresolved(all.take(iter.index() as int)),
    {
        let ghost i = iter.index() as int;
        let ghost (b, p, f) = (texts(base@), texts(prefixed@), texts(failures@));
        proof {
            assert(item == all[i]);
            assert(all.take(i + 1).drop_last() =~= all.take(i));
            assert(all.take(i + 1).last() == item);
        }
        let (file_path, target) = item;
        match target {
            ResolvedPath::Base(path) => {
                base.push(path);
                assert(texts(base@) =~= b.push(path@));
            },
            ResolvedPath::Prefixed(path) => {
                prefixed.push(path);
                assert(texts(prefixed@) =~= p.push(path@));
            },
            ResolvedPath::Unresolved(error) => {
                let failure = String::from_str("failed to resolve ").concat(
                    file_path.as_str(),
                ).concat(": ").concat(error.as_str());
                failures.push(failure);
                assert(texts(failures@) =~= f.push(failure@));
            },
        }
    }
    assert(all.take(all.len() as int) =~= all);
    CleanupPlan { base_paths: base, prefixed_paths: prefixed, failures }
}

/// How the deletion of an object ended.
#[derive(Debug, PartialEq, Eq)]
pub enum DeleteOutcome {
    Deleted,
    /// There was no such object.
    NotFound,
    Failed(String),
}

/// The messages about deletions that failed.
pub open spec fn failed_deletions(outcomes: Seq<DeleteOutcome>) -> Seq<Seq<char>>
    decreases outcomes.len(),
{
    if outcomes.len() == 0 {
        seq![]
    } else {
        match outcomes.last() {
            DeleteOutcome::Failed(error) => failed_deletions(outcomes.drop_last()).push(error@),
            _ => failed_deletions(outcomes.drop_last()),
        }
    }
}

/// The result of deleting files: that a file was not there is no failure.
fn deletion_result(outcomes: Vec<DeleteOutcome>) -> (r: Result<(), EngineError>)
    ensures
        r is Ok <==> failed_deletions(outcomes@).len() == 0,
        r matches Err(e) ==> e@ == EngineErrorView::Execution(
            join_text(failed_deletions(outcomes@), "; "@),
        ),
{
    let ghost all = outcomes@;
    let mut failures: Vec<String> = Vec::new();
    assert(texts(failures@) =~= seq![]);
    assert(all.take(0) =~= seq![]);
    for outcome in iter: outcomes
        invariant
            all == iter.seq(),
            texts(failures@) == failed_deletions(all.take(iter.index() as int)),
    {
        let ghost i = iter.index() as int;
        let ghost f = texts(failures@);
        proof {
            assert(outcome == all[i]);
            assert(all.take(i + 1).drop_last() =~= all.take(i));
            assert(all.take(i + 1).last() == outcome);
        }
        match outcome {
            DeleteOutcome::Failed(error) => {
                failures.push(error);
                assert(texts(failures@) =~= f.push(error@));
            },
            _ => {},
        }
    }
    assert(all.take(all.len() as int) =~= all);
    assert(texts(failures@).len() == failures@.len());
    if failures.len() == 0 {
        Ok(())
    } else {
        Err(EngineError::Execution(join(&failures, "; ")))
    }
}

/// The messages with that of a failed deletion at their end.
pub open spec fn with_failure(failures: Seq<Seq<char>>, result: Result<(), EngineError>) -> Seq<
    Seq<char>,
> {
    match result {
        Ok(()) => failures,
        Err(e) => failures.push(e@.text()),
    }
}

fn push_failure(failures: &mut Vec<String>, result: &Result<(), EngineError>)
    ensures
        texts(final(failures)@) == with_failure(texts(old(failures)@), *result),
{
    let ghost before = texts(failures@);
    match result {
        Ok(()) => {},
        Err(error) => {
            let message = error.message();
            failures.push(message);
            assert(texts(failures@) =~= before.push(message@));
        },
    }
}

/// The result of a cleanup, from what could not be resolved and from the deletions in the whole
/// store and below the table.
fn cleanup_result(
    failures: Vec<String>,
    base: Result<(), EngineError>,
    prefixed: Result<(), EngineError>,
) -> (r: Result<(), EngineError>)
    ensures
        r is Ok <==> failures@.len() == 0 && base is Ok && prefixed is Ok,
        r matches Err(e) ==> e@ == EngineErrorView::Execution(
            "failed to clean uncommitted Iceberg task files: "@ + join_text(
                with_failure(with_failure(texts(failures@), base), prefixed),
                "; "@,
            ),
        ),
{
    let mut failures = failures;
    push_failure(&mut failures, &base);
    push_failure(&mut failures, &prefixed);
    assert(texts(failures@).len() == failures@.len());
    if failures.len() == 0 {
        Ok(())
    } else {
        Err(
            EngineError::Execution(
                String::from_str("failed to clean uncommitted Iceberg task files: ").concat(
                    join(&failures, "; ").as_str(),
                ),
            ),
        )
    }
}

/// The messages about a deletion: one that names all failures, if there are any.
pub open spec fn deletion_failures(outcomes: Seq<DeleteOutcome>) -> Seq<Seq<char>> {
    if failed_deletions(outcomes).len() == 0 {
        seq![]
    } else {
        seq![EngineErrorView::Execution(join_text(failed_deletions(outcomes), "; "@)).text()]
    }
}

/// All messages of a cleanup.
pub open spec fn cleanup_failures(
    resolved: Seq<(String, ResolvedPath)>,
    base: Seq<DeleteOutcome>,
    prefixed: Seq<DeleteOutcome>,
) -> Seq<Seq<char>> {
    unresolved(resolved) + deletion_failures(base) + deletion_failures(prefixed)
}

/// It was said of these paths, in their order, where they lead.
pub open spec fn leads_of(
    resolved: Seq<(String, ResolvedPath)>,
    paths: Seq<Seq<char>>,
) -> bool {
    resolved.len() == paths.len() && forall|i: int|
        0 <= i < resolved.len() ==> (#[trigger] resolved[i]).0@ == paths[i]
}

/// What a cleanup does next.
pub enum CleanupStep {
    Resolve(ResolvePath),
    Delete(DeleteFiles),
}

/// It is to be found out where a path leads.
pub struct ResolvePath {
    /// The paths of the cleanup in byte order, each once.
    pub paths: Vec<String>,
    /// Where the first of them lead.
    pub resolved: Vec<(String, ResolvedPath)>,
}

/// Files are to be deleted: those in the whole store, then those below the table.
pub struct DeleteFiles {
    pub plan: CleanupPlan,
    /// The paths of the cleanup in byte order, each once.
    pub paths: Ghost<Seq<Seq<char>>>,
    /// Where they lead.
    pub resolved: Ghost<Seq<(String, ResolvedPath)>>,
}

impl CleanupStep {
    pub open spec fn wf(&self) -> bool {
        match self {
            CleanupStep::Resolve(s) => s.wf(),
            CleanupStep::Delete(s) => s.wf(),
        }
    }

    /// The paths of the cleanup.
    pub open spec fn paths(&self) -> Seq<Seq<char>> {
        match self {
            CleanupStep::Resolve(s) => texts(s.paths@),
            CleanupStep::Delete(s) => s.paths@,
        }
    }

    /// Where the paths lead, as far as that is known.
    pub open spec fn resolved(&self) -> Seq<(String, ResolvedPath)> {
        match self {
            CleanupStep::Resolve(s) => s.resolved@,
            CleanupStep::Delete(s) => s.resolved@,
        }
    }
}

/// Begins a cleanup of files. Each path is dealt with once.
pub fn begin_cleanup(paths: &Vec<String>) -> (next: CleanupStep)
    ensures
        next.wf(),
        forall|path: Seq<char>| #[trigger]
            next.paths().contains(path) <==> texts(paths@).contains(path),
        next.resolved() == Seq::<(String, ResolvedPath)>::empty(),
{
    let distinct = sorted_distinct(paths);
    go_on(distinct, Vec::new())
}

fn go_on(paths: Vec<String>, resolved: Vec<(String, ResolvedPath)>) -> (next: CleanupStep)
    requires
        increasing(texts(paths@)),
        resolved@.len() <= paths@.len(),
        leads_of(resolved@, texts(paths@).take(resolved@.len() as int)),
    ensures
        next.wf(),
        next.paths() == texts(paths@),
        next.resolved() == resolved@,
        next is Delete <==> resolved@.len() == paths@.len(),
{
    if resolved.len() < paths.len() {
        CleanupStep::Resolve(ResolvePath { paths, resolved })
    } else {
        let ghost all = texts(paths@);
        let ghost leads = resolved@;
        assert(all.take(all.len() as int) =~= all);
        let plan = plan_cleanup(resolved);
        CleanupStep::Delete(DeleteFiles { plan, paths: Ghost(all), resolved: Ghost(leads) })
    }
}

impl ResolvePath {
    pub open spec fn wf(&self) -> bool {
        &&& increasing(texts(self.paths@))
        &&& self.resolved@.len() < self.paths@.len()
        &&& leads_of(self.resolved@, texts(self.paths@).take(self.resolved@.len() as int))
    }

    /// The path in question: the first one of which nothing is known.
    pub fn path(&self) -> (r: &String)
        requires
            self.wf(),
        ensures
            *r == self.paths@[self.resolved@.len() as int],
    {
        &self.paths[self.resolved.len()]
    }

    pub fn resolved(self, target: ResolvedPath) -> (next: CleanupStep)
        requires
            self.wf(),
        ensures
            next.wf(),
            next.paths() == texts(self.paths@),
            next.resolved() == self.resolved@.push(
                (self.paths@[self.resolved@.len() as int], target),
            ),
            next is Delete <==> self.resolved@.len() + 1 == self.paths@.len(),
    {
        let path = self.paths[self.resolved.len()].clone();
        let mut resolved = self.resolved;
        let ghost before = resolved@;
        let ghost all = texts(self.paths@);
        resolved.push((path, target));
        assert forall|i: int| 0 <= i < resolved@.len() implies (#[trigger] resolved@[i]).0@
            == all.take(resolved@.len() as int)[i] by {
            if i < before.len() {
                assert(before[i].0@ == all.take(before.len() as int)[i]);
            }
        }
        go_on(self.paths, resolved)
    }
}

impl DeleteFiles {
    pub open spec fn wf(&self) -> bool {
        &&& increasing(self.paths@)
        &&& leads_of(self.resolved@, self.paths@)
        &&& texts(self.plan.base_paths@) == base_paths(self.resolved@)
        &&& texts(self.plan.prefixed_paths@) == prefixed_paths(self.resolved@)
        &&& texts(self.plan.failures@) == unresolved(self.resolved@)
    }

    /// The files are deleted, or could not be.
    pub fn deleted(self, base: Vec<DeleteOutcome>, prefixed: Vec<DeleteOutcome>) -> (r: Result<
        (),
        EngineError,
    >)
        requires
            self.wf(),
        ensures
            r is Ok <==> cleanup_failures(self.resolved@, base@, prefixed@).len() == 0,
            r matches Err(e) ==> e@ == EngineErrorView::Execution(
                "failed to clean uncommitted Iceberg task files: "@ + join_text(
                    cleanup_failures(self.resolved@, base@, prefixed@),
                    "; "@,
                ),
            ),
    {
        let base_result = deletion_result(base);
        let prefixed_result = deletion_result(prefixed);
        assert(texts(self.plan.failures@).len() == self.plan.failures@.len());
        assert(with_failure(
            with_failure(unresolved(self.resolved@), base_result),
            prefixed_result,
        ) =~= cleanup_failures(self.resolved@, base@, prefixed@));
        cleanup_result(self.plan.failures, base_result, prefixed_result)
    }
}

/// Every path is either deleted from one of the two places or reported.
pub proof fn no_path_is_passed_over(resolved: Seq<(String, ResolvedPath)>)
    ensures
        base_paths(resolved).len() + prefixed_paths(resolved).len() + unresolved(resolved).len()
            == resolved.len(),
    decreases resolved.len(),
{
    if resolved.len() > 0 {
        no_path_is_passed_over(resolved.drop_last());
    }
}

/// What is to be done about a path is among what the cleanup does.
pub open spec fn dealt_with(plan: CleanupPlan, path: Seq<char>, target: ResolvedPath) -> bool {
    match target {
        ResolvedPath::Base(p) => texts(plan.base_paths@).contains(p@),
        ResolvedPath::Prefixed(p) => texts(plan.prefixed_paths@).contains(p@),
        ResolvedPath::Unresolved(error) => texts(plan.failures@).contains(
            "failed to resolve "@ + path + ": "@ + error@,
        ),
    }
}

pub proof fn lemma_dealt_with(resolved: Seq<(String, ResolvedPath)>, i: int)
    requires
        0 <= i < resolved.len(),
    ensures
        match resolved[i].1 {
            ResolvedPath::Base(p) => base_paths(resolved).contains(p@),
            ResolvedPath::Prefixed(p) => prefixed_paths(resolved).contains(p@),
            ResolvedPath::Unresolved(error) => unresolved(resolved).contains(
                "failed to resolve "@ + resolved[i].0@ + ": "@ + error@,
            ),
        },
    decreases resolved.len(),
{
    let shorter = resolved.drop_last();
    let last = resolved.last();
    if i < shorter.len() {
        lemma_dealt_with(shorter, i);
        assert(shorter[i] == resolved[i]);
        match resolved[i].1 {
            ResolvedPath::Base(p) => {
                let k = choose|k: int|
                    0 <= k < base_paths(shorter).len() && base_paths(shorter)[k] == p@;
                assert(base_paths(resolved)[k] == p@);
            },
            ResolvedPath::Prefixed(p) => {
                let k = choose|k: int|
                    0 <= k < prefixed_paths(shorter).len() && prefixed_paths(shorter)[k] == p@;
                assert(prefixed_paths(resolved)[k] == p@);
            },
            ResolvedPath::Unresolved(error) => {
                let text = "failed to resolve "@ + resolved[i].0@ + ": "@ + error@;
                let k = choose|k: int|
                    0 <= k < unresolved(shorter).len() && unresolved(shorter)[k] == text;
                assert(unresolved(resolved)[k] == text);
            },
        }
    } else {
        match last.1 {
            ResolvedPath::Base(p) => {
                assert(base_paths(resolved)[base_paths(shorter).len() as int] == p@);
            },
            ResolvedPath::Prefixed(p) => {
                assert(prefixed_paths(resolved)[prefixed_paths(shorter).len() as int] == p@);
            },
            ResolvedPath::Unresolved(error) => {
                let text = "failed to resolve "@ + last.0@ + ": "@ + error@;
                assert(unresolved(resolved)[unresolved(shorter).len() as int] == text);
            },
        }
    }
}

/// Each path of a cleanup occurs once among those of which it was said where they lead, and is
/// deleted there or reported. Nothing else is deleted or reported.
pub proof fn each_path_is_deleted_or_reported(step: DeleteFiles, path: Seq<char>)
    requires
        step.wf(),
        step.paths@.contains(path),
    ensures
        exists|i: int|
            0 <= i < step.resolved@.len() && (#[trigger] step.resolved@[i]).0@ == path
                && dealt_with(step.plan, path, step.resolved@[i].1) && forall|j: int|
                0 <= j < step.resolved@.len() && j != i ==> (#[trigger] step.resolved@[j]).0@
                    != path,
        step.plan.base_paths@.len() + step.plan.prefixed_paths@.len()
            + step.plan.failures@.len() == step.paths@.len(),
{
    let i = choose|i: int| 0 <= i < step.paths@.len() && step.paths@[i] == path;
    increasing_has_no_duplicates(step.paths@);
    lemma_dealt_with(step.resolved@, i);
    no_path_is_passed_over(step.resolved@);
    assert(step.resolved@[i].0@ == path);
    assert(dealt_with(step.plan, path, step.resolved@[i].1));
    assert forall|j: int| 0 <= j < step.resolved@.len() && j != i implies (
    #[trigger] step.resolved@[j]).0@ != path by {
        assert(step.paths@[j] != step.paths@[i]);
    }
    assert(texts(step.plan.base_paths@).len() == step.plan.base_paths@.len());
    assert(texts(step.plan.prefixed_paths@).len() == step.plan.prefixed_paths@.len());
    assert(texts(step.plan.failures@).len() == step.plan.failures@.len());
}

} // verus!
