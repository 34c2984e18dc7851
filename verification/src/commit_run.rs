//! The steps of a commit.
//!
//! Each step asks for one thing that is done outside: it is a value with what that takes, and the
//! method that is given the reply says what comes next. A commit is a loop that does what the step
//! asks for and hands the reply back, until it is done.
use vstd::prelude::*;
use vstd::string::*;

use crate::commit_state::{
    commit_count, exposure, lemma_next_exposure, metadata_file, metadata_file_name,
    nothing_written, nothing_written_is_hidden, row_count_overflow, hint_text, version_hint,
    CatalogCommitMode, CatalogTableInfo, CommitBase, CommitPlan, CommitRun, Event, Exposure,
    PreparedSnapshot, MAX_COMMIT_RETRIES,
};
use crate::content::{optional_view, views};
use crate::error::{
    commit_conflict, commit_conflict_error, is_retryable_publication_conflict,
    operation_with_cleanup_failure, plan_error, publication_state_is_unknown,
    publication_state_unknown_error, with_cleanup_failure, EngineError, EngineErrorView,
    ExternalSourceView,
};
use crate::identifier::{hex_digit_at, new_uuid};
use crate::live_files::{all_fit, dynamic_partition_overwrite_paths, overwritten};
use crate::location::{object_path, object_path_of};
use crate::ordered::increasing;
use crate::requirements::{meets_all, requirements_refused, validate_requirements};
use crate::table::{DataFile, PartitionSpec, TableMetadata, TableMetadataView};
use crate::table_changes::{
    after_both, after_schema, apply_snapshot_updates, current_schema, current_snapshot,
    default_spec, evolution_changes, evolve, evolved, next_metadata, rows_added,
    scoped_overwrite_error, scoped_overwrite_refused, spec_for_commit,
    validate_scoped_overwrite_format,
};
use crate::task_files::DeleteOutcome;
use crate::text::{copy_strings, int_text, text_equal, texts};

verus! {

/// What a commit does next.
pub enum Step {
    Done(Finished),
    CleanTaskFiles(CleanTaskFiles),
    LoadCatalogTable(LoadCatalogTable),
    ResolveMode(ResolveMode),
    Locate(Locate),
    ReloadLocation(ReloadLocation),
    BootstrapTable(BootstrapTable),
    NameBootstrap(NameBootstrap),
    MoveBootstrapPointer(MoveBootstrapPointer),
    CleanBootstrap(CleanBootstrap),
    LoadMetadata(LoadMetadata),
    ConfirmUnchanged(ConfirmUnchanged),
    LoadLiveFiles(LoadLiveFiles),
    PrepareFirstSnapshot(PrepareFirstSnapshot),
    ListVersion(ListVersion),
    PrepareSnapshot(PrepareSnapshot),
    CommitToCatalog(CommitToCatalog),
    CleanPrepared(CleanPrepared),
    CleanPreparedAfter(CleanPreparedAfter),
    ConfirmFirst(ConfirmFirst),
    BootstrapFirst(BootstrapFirst),
    NameRegistered(NameRegistered),
    Register(Register),
    StampUpdates(StampUpdates),
    SerializeMetadata(SerializeMetadata),
    NameMetadata(NameMetadata),
    LocateNewFile(LocateNewFile),
    EncodeMetadata(EncodeMetadata),
    ConfirmPublish(ConfirmPublish),
    PutMetadata(PutMetadata),
    ListAfterPut(ListAfterPut),
    MovePointer(MovePointer),
    DeleteCandidate(DeleteCandidate),
    WriteHint(WriteHint),
}

impl Step {
    pub open spec fn wf(&self) -> bool {
        match self {
            Step::Done(s) => s.wf(),
            Step::CleanTaskFiles(s) => s.wf(),
            Step::LoadCatalogTable(s) => s.wf(),
            Step::ResolveMode(s) => s.wf(),
            Step::Locate(s) => s.wf(),
            Step::ReloadLocation(s) => s.wf(),
            Step::BootstrapTable(s) => s.wf(),
            Step::NameBootstrap(s) => s.wf(),
            Step::MoveBootstrapPointer(s) => s.wf(),
            Step::CleanBootstrap(s) => s.wf(),
            Step::LoadMetadata(s) => s.wf(),
            Step::ConfirmUnchanged(s) => s.wf(),
            Step::LoadLiveFiles(s) => s.wf(),
            Step::PrepareFirstSnapshot(s) => s.wf(),
            Step::ListVersion(s) => s.wf(),
            Step::PrepareSnapshot(s) => s.wf(),
            Step::CommitToCatalog(s) => s.wf(),
            Step::CleanPrepared(s) => s.wf(),
            Step::CleanPreparedAfter(s) => s.wf(),
            Step::ConfirmFirst(s) => s.wf(),
            Step::BootstrapFirst(s) => s.wf(),
            Step::NameRegistered(s) => s.wf(),
            Step::Register(s) => s.wf(),
            Step::StampUpdates(s) => s.wf(),
            Step::SerializeMetadata(s) => s.wf(),
            Step::NameMetadata(s) => s.wf(),
            Step::LocateNewFile(s) => s.wf(),
            Step::EncodeMetadata(s) => s.wf(),
            Step::ConfirmPublish(s) => s.wf(),
            Step::PutMetadata(s) => s.wf(),
            Step::ListAfterPut(s) => s.wf(),
            Step::MovePointer(s) => s.wf(),
            Step::DeleteCandidate(s) => s.wf(),
            Step::WriteHint(s) => s.wf(),
        }
    }
}

/// A commit that is over.
pub struct Finished {
    /// How many rows were committed, or what went wrong.
    pub result: Result<i64, EngineError>,
    pub journal: Ghost<Seq<Event>>,
}

impl Finished {
    /// No metadata file is left that nobody is sent to. A commit that succeeded can be seen, unless
    /// there was nothing to write.
    pub open spec fn wf(&self) -> bool {
        &&& exposure(self.journal@) != Exposure::Candidate
        &&& self.result is Ok ==> exposure(self.journal@) == Exposure::Public || nothing_written(
            self.journal@,
        )
    }
}

/// The commit failed and cannot be seen. The files that tasks have written are to be deleted.
pub struct CleanTaskFiles {
    pub paths: Vec<String>,
    /// Why the commit failed.
    pub error: EngineError,
    pub journal: Ghost<Seq<Event>>,
}

impl CleanTaskFiles {
    pub open spec fn wf(&self) -> bool {
        exposure(self.journal@) == Exposure::Hidden
    }

    /// The files are deleted, or could not be.
    pub fn cleaned(self, reply: Result<(), EngineError>) -> (next: Finished)
        requires
            self.wf(),
        ensures
            next.wf(),
            next.journal == self.journal,
            next.result matches Err(e) && e@ == (match reply {
                Ok(()) => self.error@,
                Err(cleanup) => with_cleanup_failure(self.error@, cleanup@),
            }),
    {
        let error = match reply {
            Ok(()) => self.error,
            Err(cleanup_error) => operation_with_cleanup_failure(self.error, cleanup_error),
        };
        Finished { result: Err(error), journal: self.journal }
    }
}

/// The commit failed with this error, and the files of its tasks are to be deleted.
pub open spec fn abandons(next: Step, run: CommitRun, error: EngineErrorView) -> bool {
    next matches Step::CleanTaskFiles(clean) && clean.paths == run.plan.task_file_paths
        && clean.error@ == error && clean.journal == run.journal
}

/// The commit ends with this error, and the files of its tasks stay.
pub open spec fn stops(next: Step, run: CommitRun, error: EngineErrorView) -> bool {
    next matches Step::Done(done) && done.journal == run.journal && (
    done.result matches Err(e) && e@ == error)
}

/// The commit ends with this many rows, where the result can hold them.
pub open spec fn completes(next: Step, run: CommitRun, row_count: u64) -> bool {
    if row_count <= i64::MAX {
        next matches Step::Done(done) && done.journal == run.journal && done.result == Ok::<
            i64,
            EngineError,
        >(row_count as i64)
    } else {
        stops(next, run, row_count_overflow())
    }
}

/// The commit ends without having had anything to write.
pub open spec fn ends_unchanged(next: Step, run: CommitRun) -> bool {
    next matches Step::Done(done) && done.journal == run.journal && done.result == Ok::<
        i64,
        EngineError,
    >(0)
}

/// The commit is tried again from the current metadata, unless it was tried often enough.
pub open spec fn retries(next: Step, run: CommitRun) -> bool {
    if run.attempt >= MAX_COMMIT_RETRIES {
        abandons(next, run, commit_conflict())
    } else if run.catalog_metadata() {
        next == Step::ReloadLocation(ReloadLocation { run: run.next_attempt() })
    } else {
        next == Step::Locate(Locate { run: run.next_attempt() })
    }
}

fn abandon(run: CommitRun, error: EngineError) -> (next: Step)
    requires
        run.wf(),
        run.hidden(),
    ensures
        next.wf(),
        abandons(next, run, error@),
{
    Step::CleanTaskFiles(
        CleanTaskFiles { paths: run.plan.task_file_paths, error, journal: run.journal },
    )
}

fn stop(run: CommitRun, error: EngineError) -> (next: Step)
    requires
        run.wf(),
        run.public(),
    ensures
        next.wf(),
        stops(next, run, error@),
{
    Step::Done(Finished { result: Err(error), journal: run.journal })
}

fn complete(run: CommitRun) -> (next: Step)
    requires
        run.wf(),
        run.public(),
    ensures
        next.wf(),
        completes(next, run, run.plan.info.row_count),
{
    let result = commit_count(run.plan.info.row_count);
    Step::Done(Finished { result, journal: run.journal })
}

fn end_unchanged(run: CommitRun) -> (next: Step)
    requires
        run.wf(),
        run.plan.validation_only,
    ensures
        next.wf(),
        ends_unchanged(next, run),
{
    proof {
        nothing_written_is_hidden(run.journal@);
    }
    Step::Done(Finished { result: Ok(0), journal: run.journal })
}

fn retry(run: CommitRun) -> (next: Step)
    requires
        run.wf(),
        run.hidden(),
    ensures
        next.wf(),
        retries(next, run),
{
    if run.attempt >= MAX_COMMIT_RETRIES {
        return abandon(run, commit_conflict_error());
    }
    let mut run = run;
    run.attempt = run.attempt + 1;
    if run.has_catalog_metadata() {
        Step::ReloadLocation(ReloadLocation { run })
    } else {
        Step::Locate(Locate { run })
    }
}

/// What the catalog knows of the table is to be loaded.
pub struct LoadCatalogTable {
    pub plan: CommitPlan,
}

impl LoadCatalogTable {
    pub open spec fn wf(&self) -> bool {
        self.plan.wf() && self.plan.info.lakehouse_table is Some
    }

    pub fn loaded(self, reply: Result<CatalogTableInfo, EngineError>) -> (next: Step)
        requires
            self.wf(),
        ensures
            next.wf(),
            match reply {
                Ok(catalog) => next == Step::ResolveMode(ResolveMode { plan: self.plan, catalog }),
                Err(e) => next matches Step::CleanTaskFiles(clean) && clean.paths
                    == self.plan.task_file_paths && clean.error == e && clean.journal@ == Seq::<
                    Event,
                >::empty(),
            },
    {
        match reply {
            Ok(catalog) => Step::ResolveMode(ResolveMode { plan: self.plan, catalog }),
            Err(error) => Step::CleanTaskFiles(
                CleanTaskFiles {
                    paths: self.plan.task_file_paths,
                    error,
                    journal: Ghost(Seq::empty()),
                },
            ),
        }
    }
}

/// The part that the catalog has in the commit is to be found out.
pub struct ResolveMode {
    pub plan: CommitPlan,
    pub catalog: CatalogTableInfo,
}

/// The first of two locations that is there.
pub open spec fn first_location(a: Option<String>, b: Option<String>) -> Option<String> {
    match a {
        Some(_) => a,
        None => b,
    }
}

impl ResolveMode {
    pub open spec fn wf(&self) -> bool {
        self.plan.wf()
    }

    /// The mode, and where the table's properties say that its metadata is. What the properties
    /// say comes before what the catalog says. Only where the catalog is in charge of the metadata
    /// is that the place to look. The partition spec of tables without partitions is kept for a
    /// table that has no default one.
    pub fn resolved(
        self,
        mode: CatalogCommitMode,
        property_location: Option<String>,
        unpartitioned: PartitionSpec,
    ) -> (next: Step)
        requires
            self.wf(),
        ensures
            next.wf(),
            next matches Step::Locate(locate) && {
                let recorded = first_location(property_location, self.catalog.metadata_location);
                &&& locate.run.plan == self.plan
                &&& locate.run.mode == mode
                &&& locate.run.unpartitioned == unpartitioned
                &&& locate.run.recorded_location == recorded
                &&& locate.run.location == if mode.uses_catalog_metadata {
                    recorded
                } else {
                    None
                }
                &&& locate.run.latest@ == ""@
                &&& locate.run.latest_version is None
                &&& locate.run.attempt == 1
                &&& locate.run.journal@ == Seq::<Event>::empty()
            },
    {
        let recorded_location = match property_location {
            Some(location) => Some(location),
            None => self.catalog.metadata_location,
        };
        let location: Option<String> = if mode.uses_catalog_metadata {
            match &recorded_location {
                Some(location) => Some(location.clone()),
                None => None,
            }
        } else {
            None
        };
        Step::Locate(
            Locate {
                run: CommitRun {
                    plan: self.plan,
                    mode,
                    unpartitioned,
                    recorded_location,
                    location,
                    latest: String::from_str(""),
                    latest_version: None,
                    attempt: 1,
                    journal: Ghost(Seq::empty()),
                },
            },
        )
    }
}

/// A metadata file, and the version that its name gives.
#[derive(Debug, PartialEq, Eq)]
pub struct LocatedMetadata {
    pub file: String,
    pub version: Option<u32>,
}

/// The current metadata file is to be found: at the location that the catalog gives, or else below
/// the table.
pub struct Locate {
    pub run: CommitRun,
}

impl Locate {
    pub open spec fn wf(&self) -> bool {
        self.run.wf() && self.run.hidden()
    }

    /// Where nothing is found at the first attempt and no catalog said where to look, there is no
    /// table yet.
    pub fn located(self, reply: Result<LocatedMetadata, EngineError>) -> (next: Step)
        requires
            self.wf(),
        ensures
            next.wf(),
            match reply {
                Ok(found) => next == Step::LoadMetadata(
                    LoadMetadata {
                        run: CommitRun {
                            latest: found.file,
                            latest_version: found.version,
                            ..self.run
                        },
                    },
                ),
                Err(e) => if self.run.attempt == 1 && self.run.location is None {
                    begins_table(next, self.run)
                } else {
                    abandons(next, self.run, e@)
                },
            },
    {
        match reply {
            Ok(found) => {
                let mut run = self.run;
                run.latest = found.file;
                run.latest_version = found.version;
                Step::LoadMetadata(LoadMetadata { run })
            },
            Err(error) => {
                if self.run.attempt == 1 && self.run.location.is_none() {
                    begin_table(self.run)
                } else {
                    abandon(self.run, error)
                }
            },
        }
    }
}

/// How the metadata files of a new table are named.
#[derive(Debug, Clone, Copy, PartialEq, Eq, Structural)]
pub enum NewTableMetadataStyle {
    /// Uniquely, for readers that a catalog sends.
    Uuid,
    /// By version, for readers that look below the table.
    Hadoop,
}

/// What a commit to a table that is not there yet does next.
pub open spec fn begins_table(next: Step, run: CommitRun) -> bool {
    if !meets_all(None, run.plan.info.requirements@) {
        next matches Step::CleanTaskFiles(clean) && abandons(next, run, clean.error@)
            && requirements_refused(None, run.plan.info.requirements@, clean.error@)
    } else if run.plan.validation_only {
        ends_unchanged(next, run)
    } else if run.moves_pointer() {
        next == Step::BootstrapTable(BootstrapTable { run, style: NewTableMetadataStyle::Uuid })
    } else if run.mode.uses_catalog_commit {
        abandons(
            next,
            run,
            EngineErrorView::Plan("missing Iceberg metadata for catalog-authoritative table"@),
        )
    } else {
        next == Step::BootstrapTable(BootstrapTable { run, style: NewTableMetadataStyle::Hadoop })
    }
}

fn begin_table(run: CommitRun) -> (next: Step)
    requires
        run.wf(),
        run.hidden(),
        run.attempt == 1,
    ensures
        next.wf(),
        begins_table(next, run),
{
    match validate_requirements(None, run.plan.info.requirements.as_slice()) {
        Ok(()) => {},
        Err(error) => return abandon(run, error),
    }
    if run.plan.validation_only {
        return end_unchanged(run);
    }
    if run.has_pointer() {
        Step::BootstrapTable(BootstrapTable { run, style: NewTableMetadataStyle::Uuid })
    } else if run.mode.uses_catalog_commit {
        abandon(run, plan_error("missing Iceberg metadata for catalog-authoritative table"))
    } else {
        Step::BootstrapTable(BootstrapTable { run, style: NewTableMetadataStyle::Hadoop })
    }
}

/// A new table is to be written with the files of the commit.
pub struct BootstrapTable {
    pub run: CommitRun,
    pub style: NewTableMetadataStyle,
}

/// What comes after a commit that can be seen by its path: the catalog records it, if it records
/// the table.
pub open spec fn visible_by_path(next: Step, run: CommitRun, metadata_file: String) -> bool {
    if run.registered() {
        next == Step::NameRegistered(
            NameRegistered { run: run.recorded(Event::Published), metadata_file },
        )
    } else {
        completes(next, run.recorded(Event::Published), run.plan.info.row_count)
    }
}

fn show_by_path(run: CommitRun, metadata_file: String) -> (next: Step)
    requires
        run.wf(),
        !run.plan.validation_only,
    ensures
        next.wf(),
        visible_by_path(next, run, metadata_file),
{
    proof {
        lemma_next_exposure(run.journal@, Event::Published);
    }
    let run = run.record(Ghost(Event::Published));
    if run.is_registered() {
        Step::NameRegistered(NameRegistered { run, metadata_file })
    } else {
        complete(run)
    }
}

impl BootstrapTable {
    pub open spec fn wf(&self) -> bool {
        self.run.wf() && self.run.hidden() && !self.run.plan.validation_only
            && self.run.attempt == 1 && (self.style == NewTableMetadataStyle::Uuid
            ==> self.run.in_catalog())
    }

    /// The metadata file of the new table. Where readers look below the table, it can be seen.
    pub fn bootstrapped(self, reply: Result<String, EngineError>) -> (next: Step)
        requires
            self.wf(),
        ensures
            next.wf(),
            match reply {
                Err(e) => abandons(next, self.run, e@),
                Ok(metadata_file) => match self.style {
                    NewTableMetadataStyle::Uuid => next == Step::NameBootstrap(
                        NameBootstrap {
                            run: self.run.recorded(Event::CandidateWritten),
                            metadata_file,
                            new_table: true,
                        },
                    ),
                    NewTableMetadataStyle::Hadoop => visible_by_path(next, self.run, metadata_file),
                },
            },
    {
        match reply {
            Err(error) => abandon(self.run, error),
            Ok(metadata_file) => match self.style {
                NewTableMetadataStyle::Uuid => {
                    proof {
                        lemma_next_exposure(self.run.journal@, Event::CandidateWritten);
                    }
                    let run = self.run.record(Ghost(Event::CandidateWritten));
                    Step::NameBootstrap(NameBootstrap { run, metadata_file, new_table: true })
                },
                NewTableMetadataStyle::Hadoop => show_by_path(self.run, metadata_file),
            },
        }
    }
}

/// The full location of a metadata file that was written with a first snapshot is to be found.
pub struct NameBootstrap {
    pub run: CommitRun,
    pub metadata_file: String,
    /// There was no table before.
    pub new_table: bool,
}

impl NameBootstrap {
    pub open spec fn wf(&self) -> bool {
        self.run.wf() && self.run.candidate() && !self.run.plan.validation_only
            && self.run.in_catalog()
    }

    pub fn named(self, reply: Result<String, EngineError>) -> (next: Step)
        requires
            self.wf(),
        ensures
            next.wf(),
            match reply {
                Ok(location) => next == Step::MoveBootstrapPointer(
                    MoveBootstrapPointer { run: self.run, location, new_table: self.new_table },
                ),
                Err(e) => next == Step::CleanBootstrap(
                    CleanBootstrap { run: self.run, afterwards: AfterCleanup::Fail(e) },
                ),
            },
    {
        match reply {
            Ok(location) => Step::MoveBootstrapPointer(
                MoveBootstrapPointer { run: self.run, location, new_table: self.new_table },
            ),
            Err(error) => Step::CleanBootstrap(
                CleanBootstrap { run: self.run, afterwards: AfterCleanup::Fail(error) },
            ),
        }
    }
}

/// The catalog's pointer is to be moved to the metadata file of a first snapshot.
pub struct MoveBootstrapPointer {
    pub run: CommitRun,
    pub location: String,
    /// There was no table before.
    pub new_table: bool,
}

impl MoveBootstrapPointer {
    pub open spec fn wf(&self) -> bool {
        self.run.wf() && self.run.candidate() && !self.run.plan.validation_only
            && self.run.in_catalog()
    }

    /// Where the pointer must be for the move to go through.
    pub open spec fn expected_location(&self) -> Option<String> {
        if self.new_table {
            None
        } else {
            self.run.location
        }
    }

    /// Where the pointer must be for the move to go through.
    pub fn previous_location(&self) -> (r: Option<&String>)
        ensures
            match r {
                Some(location) => self.expected_location() == Some(*location),
                None => self.expected_location() is None,
            },
    {
        if self.new_table {
            None
        } else {
            match &self.run.location {
                Some(location) => Some(location),
                None => None,
            }
        }
    }

    pub fn moved(self, reply: Result<(), EngineError>) -> (next: Step)
        requires
            self.wf(),
        ensures
            next.wf(),
            match reply {
                Ok(()) => completes(
                    next,
                    self.run.recorded(Event::Published),
                    self.run.plan.info.row_count,
                ),
                Err(e) => if e@.retryable_conflict() {
                    if self.new_table {
                        next matches Step::CleanBootstrap(clean) && clean.run == self.run
                            && (clean.afterwards matches AfterCleanup::Fail(conflict) && conflict@
                            == commit_conflict())
                    } else {
                        next == Step::CleanBootstrap(
                            CleanBootstrap { run: self.run, afterwards: AfterCleanup::Retry },
                        )
                    }
                } else if e@.state_unknown() {
                    stops(next, self.run.recorded(Event::StateUnknown), e@)
                } else {
                    next == Step::CleanBootstrap(
                        CleanBootstrap { run: self.run, afterwards: AfterCleanup::Fail(e) },
                    )
                },
            },
    {
        proof {
            lemma_next_exposure(self.run.journal@, Event::Published);
            lemma_next_exposure(self.run.journal@, Event::StateUnknown);
        }
        match reply {
            Ok(()) => complete(self.run.record(Ghost(Event::Published))),
            Err(error) => if is_retryable_publication_conflict(&error) {
                let afterwards = if self.new_table {
                    AfterCleanup::Fail(commit_conflict_error())
                } else {
                    AfterCleanup::Retry
                };
                Step::CleanBootstrap(CleanBootstrap { run: self.run, afterwards })
            } else if publication_state_is_unknown(&error) {
                stop(self.run.record(Ghost(Event::StateUnknown)), error)
            } else {
                Step::CleanBootstrap(
                    CleanBootstrap { run: self.run, afterwards: AfterCleanup::Fail(error) },
                )
            },
        }
    }
}

/// What comes after a cleanup.
pub enum AfterCleanup {
    /// The commit fails with this error.
    Fail(EngineError),
    /// The commit is tried again.
    Retry,
}

/// What was written with a first snapshot is to be removed.
pub struct CleanBootstrap {
    pub run: CommitRun,
    pub afterwards: AfterCleanup,
}

impl CleanBootstrap {
    pub open spec fn wf(&self) -> bool {
        self.run.wf() && self.run.candidate() && !self.run.plan.validation_only
    }

    /// The metadata is removed unless the reply leaves that unknown.
    pub fn cleaned(self, reply: Result<(), EngineError>) -> (next: Step)
        requires
            self.wf(),
        ensures
            next.wf(),
            match reply {
                Err(c) => if c@.state_unknown() {
                    stops(next, self.run.recorded(Event::StateUnknown), c@)
                } else {
                    abandons(
                        next,
                        self.run.recorded(Event::CandidateRemoved),
                        match self.afterwards {
                            AfterCleanup::Fail(e) => with_cleanup_failure(e@, c@),
                            AfterCleanup::Retry => c@,
                        },
                    )
                },
                Ok(()) => match self.afterwards {
                    AfterCleanup::Fail(e) => abandons(
                        next,
                        self.run.recorded(Event::CandidateRemoved),
                        e@,
                    ),
                    AfterCleanup::Retry => retries(
                        next,
                        self.run.recorded(Event::CandidateRemoved),
                    ),
                },
            },
    {
        proof {
            lemma_next_exposure(self.run.journal@, Event::CandidateRemoved);
            lemma_next_exposure(self.run.journal@, Event::StateUnknown);
        }
        match reply {
            Err(cleanup_error) => if publication_state_is_unknown(&cleanup_error) {
                stop(self.run.record(Ghost(Event::StateUnknown)), cleanup_error)
            } else {
                let run = self.run.record(Ghost(Event::CandidateRemoved));
                match self.afterwards {
                    AfterCleanup::Fail(error) => abandon(
                        run,
                        operation_with_cleanup_failure(error, cleanup_error),
                    ),
                    AfterCleanup::Retry => abandon(run, cleanup_error),
                }
            },
            Ok(()) => {
                let run = self.run.record(Ghost(Event::CandidateRemoved));
                match self.afterwards {
                    AfterCleanup::Fail(error) => abandon(run, error),
                    AfterCleanup::Retry => retry(run),
                }
            },
        }
    }
}

/// The catalog is to be asked again where the current metadata is.
pub struct ReloadLocation {
    pub run: CommitRun,
}

impl ReloadLocation {
    pub open spec fn wf(&self) -> bool {
        self.run.wf() && self.run.hidden() && self.run.catalog_metadata() && self.run.attempt > 1
    }

    pub fn reloaded(self, reply: Result<Option<String>, EngineError>) -> (next: Step)
        requires
            self.wf(),
        ensures
            next.wf(),
            match reply {
                Ok(location) => next == Step::Locate(
                    Locate { run: CommitRun { location, ..self.run } },
                ),
                Err(e) => abandons(next, self.run, e@),
            },
    {
        match reply {
            Ok(location) => {
                let mut run = self.run;
                run.location = location;
                Step::Locate(Locate { run })
            },
            Err(error) => abandon(self.run, error),
        }
    }
}

/// The metadata file that an attempt starts from is to be read.
pub struct LoadMetadata {
    pub run: CommitRun,
}

/// What a commit does next with the metadata it starts from.
pub open spec fn continues_from(next: Step, run: CommitRun, metadata: TableMetadata) -> bool {
    if !meets_all(Some(metadata@), run.plan.info.requirements@) {
        next matches Step::CleanTaskFiles(clean) && abandons(next, run, clean.error@)
            && requirements_refused(Some(metadata@), run.plan.info.requirements@, clean.error@)
    } else if scoped_overwrite_refused(
        run.plan.info.snapshot_update_kind,
        metadata.format_version,
    ) {
        abandons(next, run, scoped_overwrite_error())
    } else if run.plan.validation_only {
        next == Step::ConfirmUnchanged(ConfirmUnchanged { run })
    } else if run.plan.dynamic_partition_overwrite {
        match default_spec(metadata@) {
            None => abandons(
                next,
                run,
                EngineErrorView::Plan("Iceberg table metadata has no default partition spec"@),
            ),
            Some(_) => next == Step::LoadLiveFiles(LoadLiveFiles { run, metadata }),
        }
    } else {
        changes_base(next, run, metadata, run.plan.removed_data_file_paths@)
    }
}

/// The attempt works on this metadata and removes these files.
pub open spec fn base_of(
    base: CommitBase,
    run: CommitRun,
    metadata: TableMetadata,
    removed: Seq<String>,
) -> bool {
    let schema = optional_view(run.plan.info.schema);
    let spec = optional_view(run.plan.info.partition_spec);
    &&& base.metadata@ == evolved(metadata@, schema, spec)
    &&& views(base.updates@) == evolution_changes(metadata@, schema, spec)
    &&& base.partition_spec@ == spec_for_commit(
        after_schema(metadata@, schema),
        spec,
        run.unpartitioned@,
    )
    &&& base.removed_data_file_paths@ == removed
}

/// What a commit does next once it is known which files it removes.
pub open spec fn changes_base(
    next: Step,
    run: CommitRun,
    metadata: TableMetadata,
    removed: Seq<String>,
) -> bool {
    let schema = optional_view(run.plan.info.schema);
    let spec = optional_view(run.plan.info.partition_spec);
    let after = evolved(metadata@, schema, spec);
    if current_schema(after_both(metadata@, schema, spec)) is None {
        abandons(next, run, EngineErrorView::Plan("No current schema in table metadata"@))
    } else if scoped_overwrite_refused(
        run.plan.info.snapshot_update_kind,
        after.format_version,
    ) {
        abandons(next, run, scoped_overwrite_error())
    } else if current_snapshot(after) is Some {
        next matches Step::ListVersion(list) && list.run == run && base_of(
            list.base,
            run,
            metadata,
            removed,
        )
    } else if run.catalog_commits() {
        next matches Step::PrepareFirstSnapshot(prepare) && prepare.run == run && base_of(
            prepare.base,
            run,
            metadata,
            removed,
        )
    } else {
        next matches Step::ConfirmFirst(confirm) && confirm.run == run && base_of(
            confirm.base,
            run,
            metadata,
            removed,
        ) && confirm.moves_pointer == run.moves_pointer()
    }
}

fn change_base(run: CommitRun, metadata: TableMetadata, removed: Vec<String>) -> (next: Step)
    requires
        run.wf(),
        run.hidden(),
        !run.plan.validation_only,
    ensures
        next.wf(),
        changes_base(next, run, metadata, removed@),
{
    let evolution = match evolve(
        metadata,
        &run.plan.info.schema,
        &run.plan.info.partition_spec,
        &run.unpartitioned,
    ) {
        Ok(evolution) => evolution,
        Err(error) => return abandon(run, error),
    };
    match validate_scoped_overwrite_format(
        run.plan.info.snapshot_update_kind,
        evolution.metadata.format_version,
    ) {
        Ok(()) => {},
        Err(error) => return abandon(run, error),
    }
    let base = CommitBase {
        metadata: evolution.metadata,
        updates: evolution.updates,
        partition_spec: evolution.partition_spec,
        removed_data_file_paths: removed,
    };
    if base.metadata.current_snapshot().is_some() {
        Step::ListVersion(ListVersion { run, base })
    } else if run.has_catalog_commit() {
        Step::PrepareFirstSnapshot(PrepareFirstSnapshot { run, base })
    } else {
        let moves_pointer = run.has_pointer();
        Step::ConfirmFirst(ConfirmFirst { run, base, moves_pointer })
    }
}

impl LoadMetadata {
    pub open spec fn wf(&self) -> bool {
        self.run.wf() && self.run.hidden()
    }

    pub fn loaded(self, reply: Result<TableMetadata, EngineError>) -> (next: Step)
        requires
            self.wf(),
        ensures
            next.wf(),
            match reply {
                Ok(metadata) => continues_from(next, self.run, metadata),
                Err(e) => abandons(next, self.run, e@),
            },
    {
        let metadata = match reply {
            Ok(metadata) => metadata,
            Err(error) => return abandon(self.run, error),
        };
        let run = self.run;
        match validate_requirements(Some(&metadata), run.plan.info.requirements.as_slice()) {
            Ok(()) => {},
            Err(error) => return abandon(run, error),
        }
        match validate_scoped_overwrite_format(
            run.plan.info.snapshot_update_kind,
            metadata.format_version,
        ) {
            Ok(()) => {},
            Err(error) => return abandon(run, error),
        }
        if run.plan.validation_only {
            return Step::ConfirmUnchanged(ConfirmUnchanged { run });
        }
        if run.plan.dynamic_partition_overwrite {
            return match metadata.default_partition_spec() {
                None => abandon(
                    run,
                    plan_error("Iceberg table metadata has no default partition spec"),
                ),
                Some(_) => Step::LoadLiveFiles(LoadLiveFiles { run, metadata }),
            };
        }
        let removed = copy_strings(&run.plan.removed_data_file_paths);
        change_base(run, metadata, removed)
    }
}

/// The live files of the table are to be read.
pub struct LoadLiveFiles {
    pub run: CommitRun,
    pub metadata: TableMetadata,
}

impl LoadLiveFiles {
    pub open spec fn wf(&self) -> bool {
        self.run.wf() && self.run.hidden() && !self.run.plan.validation_only
            && self.run.plan.dynamic_partition_overwrite && default_spec(self.metadata@) is Some
    }

    /// The files in the partitions of the added ones are the ones to remove.
    pub fn loaded(self, reply: Result<Vec<DataFile>, EngineError>) -> (next: Step)
        requires
            self.wf(),
        ensures
            next.wf(),
            match reply {
                Err(e) => abandons(next, self.run, e@),
                Ok(live) => exists|spec: PartitionSpec|
                    default_spec(self.metadata@) == Some(spec@)
                        && #[trigger] removes_touched(next, self.run, self.metadata, live@, spec),
            },
    {
        let live = match reply {
            Ok(live) => live,
            Err(error) => return abandon(self.run, error),
        };
        let spec = match self.metadata.default_partition_spec() {
            Some(spec) => crate::content::Content::copy(spec),
            None => return abandon(
                self.run,
                plan_error("Iceberg table metadata has no default partition spec"),
            ),
        };
        let removed = dynamic_partition_overwrite_paths(
            self.run.plan.info.data_files.as_slice(),
            live.as_slice(),
            &spec,
        );
        let ghost run = self.run;
        let ghost metadata = self.metadata;
        match removed {
            Ok(paths) => {
                let ghost chosen = paths@;
                let next = change_base(self.run, self.metadata, paths);
                assert(changes_base(next, run, metadata, chosen));
                assert(removes_touched(next, run, metadata, live@, spec));
                next
            },
            Err(error) => {
                let next = abandon(self.run, error);
                assert(removes_touched(next, run, metadata, live@, spec));
                next
            },
        }
    }
}

/// What an overwrite of whole partitions does next, with the live files of the table.
pub open spec fn removes_touched(
    next: Step,
    run: CommitRun,
    metadata: TableMetadata,
    live: Seq<DataFile>,
    spec: PartitionSpec,
) -> bool {
    let added = run.plan.info.data_files@;
    if added.len() == 0 || all_fit(added, spec) && all_fit(live, spec) {
        exists|removed: Seq<String>|
            {
                &&& #[trigger] changes_base(next, run, metadata, removed)
                &&& increasing(texts(removed))
                &&& forall|path: Seq<char>| #[trigger]
                    texts(removed).contains(path) <==> overwritten(added, live, path)
            }
    } else if all_fit(added, spec) {
        abandons(
            next,
            run,
            EngineErrorView::NotImplemented(
                "dynamic partition overwrite is not supported for Iceberg tables with incomparable live partition specs"@,
            ),
        )
    } else {
        abandons(
            next,
            run,
            EngineErrorView::Plan(
                "dynamic partition overwrite produced files that do not match the default Iceberg partition spec "@
                    + int_text(spec.spec_id as int),
            ),
        )
    }
}

/// What is to be done next to read the current metadata.
pub enum CurrentStep {
    /// The catalog is to be asked where the current metadata is.
    AskCatalog(AskCatalog),
    /// The file at a location is to be found.
    FindAt(FindFile),
    /// The latest file below the table is to be found.
    FindLatest(FindFile),
    ReadFile(ReadFile),
    Done(Result<(String, TableMetadata), EngineError>),
}

/// The catalog is to be asked where the current metadata is.
pub struct AskCatalog {}

/// A metadata file is to be found, at a location where one is given.
pub struct FindFile {
    pub location: Option<String>,
}

/// A metadata file is to be read.
pub struct ReadFile {
    pub file: String,
}

/// Begins to read the current metadata of a table. Where the catalog is in charge of the metadata,
/// it says which that is, and else the latest file below the table is.
pub fn read_current(run: &CommitRun) -> (next: CurrentStep)
    ensures
        if run.catalog_metadata() {
            next == CurrentStep::AskCatalog(AskCatalog {  })
        } else {
            next == CurrentStep::FindLatest(FindFile { location: None })
        },
{
    if run.has_catalog_metadata() {
        CurrentStep::AskCatalog(AskCatalog {  })
    } else {
        CurrentStep::FindLatest(FindFile { location: None })
    }
}

impl AskCatalog {
    /// A catalog that is in charge of the metadata must know where it is.
    pub fn answered(self, reply: Result<Option<String>, EngineError>) -> (next: CurrentStep)
        ensures
            match reply {
                Err(e) => next == CurrentStep::Done(Err(e)),
                Ok(Some(location)) => next == CurrentStep::FindAt(
                    FindFile { location: Some(location) },
                ),
                Ok(None) => next matches CurrentStep::Done(Err(e)) && e@ == EngineErrorView::Plan(
                    "catalog-authoritative Iceberg table has no metadata location"@,
                ),
            },
    {
        match reply {
            Err(error) => CurrentStep::Done(Err(error)),
            Ok(Some(location)) => CurrentStep::FindAt(FindFile { location: Some(location) }),
            Ok(None) => CurrentStep::Done(
                Err(plan_error("catalog-authoritative Iceberg table has no metadata location")),
            ),
        }
    }
}

impl FindFile {
    pub fn found(self, reply: Result<String, EngineError>) -> (next: CurrentStep)
        ensures
            match reply {
                Err(e) => next == CurrentStep::Done(Err(e)),
                Ok(file) => next == CurrentStep::ReadFile(ReadFile { file }),
            },
    {
        match reply {
            Err(error) => CurrentStep::Done(Err(error)),
            Ok(file) => CurrentStep::ReadFile(ReadFile { file }),
        }
    }
}

impl ReadFile {
    pub fn read(self, reply: Result<TableMetadata, EngineError>) -> (next: CurrentStep)
        ensures
            match reply {
                Err(e) => next == CurrentStep::Done(Err(e)),
                Ok(metadata) => next == CurrentStep::Done(Ok((self.file, metadata))),
            },
    {
        match reply {
            Err(error) => CurrentStep::Done(Err(error)),
            Ok(metadata) => CurrentStep::Done(Ok((self.file, metadata))),
        }
    }
}

/// What was found when the current metadata was read once more.
pub open spec fn confirmed(run: CommitRun, file: Seq<char>, metadata: TableMetadataView) -> CommitRun {
    run.recorded(Event::BaseConfirmed { file, metadata })
}

/// The current metadata is to be read once more, for a commit that has nothing to write.
pub struct ConfirmUnchanged {
    pub run: CommitRun,
}

impl ConfirmUnchanged {
    pub open spec fn wf(&self) -> bool {
        self.run.wf() && self.run.plan.validation_only
    }

    /// The commit is done if the metadata that was checked is still the current one.
    pub fn loaded(self, reply: Result<(String, TableMetadata), EngineError>) -> (next: Step)
        requires
            self.wf(),
        ensures
            next.wf(),
            match reply {
                Err(e) => abandons(next, self.run, e@),
                Ok((file, metadata)) => if !meets_all(
                    Some(metadata@),
                    self.run.plan.info.requirements@,
                ) {
                    next matches Step::CleanTaskFiles(clean) && abandons(
                        next,
                        self.run,
                        clean.error@,
                    ) && requirements_refused(
                        Some(metadata@),
                        self.run.plan.info.requirements@,
                        clean.error@,
                    )
                } else if file@ != self.run.latest@ {
                    retries(next, self.run)
                } else {
                    ends_unchanged(next, confirmed(self.run, file@, metadata@))
                },
            },
    {
        proof {
            nothing_written_is_hidden(self.run.journal@);
        }
        let (file, metadata) = match reply {
            Ok(current) => current,
            Err(error) => return abandon(self.run, error),
        };
        match validate_requirements(Some(&metadata), self.run.plan.info.requirements.as_slice()) {
            Ok(()) => {},
            Err(error) => return abandon(self.run, error),
        }
        if !text_equal(file.as_str(), self.run.latest.as_str()) {
            return retry(self.run);
        }
        let ghost event = Event::BaseConfirmed { file: file@, metadata: metadata@ };
        proof {
            lemma_next_exposure(self.run.journal@, event);
        }
        end_unchanged(self.run.record(Ghost(event)))
    }
}

/// The current metadata is to be read once more, before the first snapshot of a table is written.
pub struct ConfirmFirst {
    pub run: CommitRun,
    pub base: CommitBase,
    /// The commit moves the catalog's pointer.
    pub moves_pointer: bool,
}

impl ConfirmFirst {
    pub open spec fn wf(&self) -> bool {
        self.run.wf() && self.run.hidden() && !self.run.plan.validation_only && (
        self.moves_pointer ==> self.run.in_catalog())
    }

    pub fn loaded(self, reply: Result<(String, TableMetadata), EngineError>) -> (next: Step)
        requires
            self.wf(),
        ensures
            next.wf(),
            match reply {
                Err(e) => abandons(next, self.run, e@),
                Ok((file, metadata)) => if !meets_all(
                    Some(metadata@),
                    self.run.plan.info.requirements@,
                ) {
                    next matches Step::CleanTaskFiles(clean) && abandons(
                        next,
                        self.run,
                        clean.error@,
                    ) && requirements_refused(
                        Some(metadata@),
                        self.run.plan.info.requirements@,
                        clean.error@,
                    )
                } else if file@ != self.run.latest@ {
                    retries(next, self.run)
                } else {
                    next == Step::BootstrapFirst(
                        BootstrapFirst {
                            run: confirmed(self.run, file@, metadata@),
                            base: self.base,
                            moves_pointer: self.moves_pointer,
                        },
                    )
                },
            },
    {
        let (file, metadata) = match reply {
            Ok(current) => current,
            Err(error) => return abandon(self.run, error),
        };
        match validate_requirements(Some(&metadata), self.run.plan.info.requirements.as_slice()) {
            Ok(()) => {},
            Err(error) => return abandon(self.run, error),
        }
        if !text_equal(file.as_str(), self.run.latest.as_str()) {
            return retry(self.run);
        }
        let ghost event = Event::BaseConfirmed { file: file@, metadata: metadata@ };
        proof {
            lemma_next_exposure(self.run.journal@, event);
        }
        Step::BootstrapFirst(
            BootstrapFirst {
                run: self.run.record(Ghost(event)),
                base: self.base,
                moves_pointer: self.moves_pointer,
            },
        )
    }
}

/// How the metadata of a first snapshot is written.
#[derive(Debug, Clone, Copy, PartialEq, Eq, Structural)]
pub enum PersistStrategy {
    /// As the next version.
    NewVersion,
    /// As the next version, with a unique name.
    NewUuidVersion,
}

/// The first snapshot of a table is to be written, with the metadata that makes it current.
pub struct BootstrapFirst {
    pub run: CommitRun,
    pub base: CommitBase,
    /// The commit moves the catalog's pointer.
    pub moves_pointer: bool,
}

impl BootstrapFirst {
    /// Nothing is written before the metadata that the commit starts from was found to be current.
    pub open spec fn wf(&self) -> bool {
        self.run.wf() && self.run.hidden() && !self.run.plan.validation_only && (
        self.moves_pointer ==> self.run.in_catalog()) && self.run.base_confirmed()
    }

    /// How the metadata is to be written.
    pub fn strategy(&self) -> (r: PersistStrategy)
        ensures
            r == if self.moves_pointer {
                PersistStrategy::NewUuidVersion
            } else {
                PersistStrategy::NewVersion
            },
    {
        if self.moves_pointer {
            PersistStrategy::NewUuidVersion
        } else {
            PersistStrategy::NewVersion
        }
    }

    /// The metadata file that the new one follows, where the catalog names it.
    pub open spec fn follows(&self) -> Option<String> {
        if self.moves_pointer {
            self.run.location
        } else {
            None
        }
    }

    /// The metadata file that the new one follows, where the catalog names it.
    pub fn previous_metadata_file(&self) -> (r: Option<&String>)
        ensures
            match r {
                Some(location) => self.follows() == Some(*location),
                None => self.follows() is None,
            },
    {
        if self.moves_pointer {
            match &self.run.location {
                Some(location) => Some(location),
                None => None,
            }
        } else {
            None
        }
    }

    pub fn bootstrapped(self, reply: Result<String, EngineError>) -> (next: Step)
        requires
            self.wf(),
        ensures
            next.wf(),
            match reply {
                Err(e) => if e@.retryable_conflict() {
                    retries(next, self.run)
                } else {
                    abandons(next, self.run, e@)
                },
                Ok(metadata_file) => if self.moves_pointer && self.run.location is Some {
                    next == Step::NameBootstrap(
                        NameBootstrap {
                            run: self.run.recorded(Event::CandidateWritten),
                            metadata_file,
                            new_table: false,
                        },
                    )
                } else {
                    visible_by_path(next, self.run, metadata_file)
                },
            },
    {
        match reply {
            Err(error) => if is_retryable_publication_conflict(&error) {
                retry(self.run)
            } else {
                abandon(self.run, error)
            },
            Ok(metadata_file) => if self.moves_pointer && self.run.location.is_some() {
                proof {
                    lemma_next_exposure(self.run.journal@, Event::CandidateWritten);
                }
                let run = self.run.record(Ghost(Event::CandidateWritten));
                Step::NameBootstrap(NameBootstrap { run, metadata_file, new_table: false })
            } else {
                show_by_path(self.run, metadata_file)
            },
        }
    }
}

/// The full location of a metadata file is to be found, for the catalog to record it.
pub struct NameRegistered {
    pub run: CommitRun,
    pub metadata_file: String,
}

impl NameRegistered {
    pub open spec fn wf(&self) -> bool {
        self.run.wf() && self.run.public() && self.run.in_catalog()
    }

    pub fn named(self, reply: Result<String, EngineError>) -> (next: Step)
        requires
            self.wf(),
        ensures
            next.wf(),
            match reply {
                Ok(location) => next == Step::Register(Register { run: self.run, location }),
                Err(e) => stops(next, self.run, e@),
            },
    {
        match reply {
            Ok(location) => Step::Register(Register { run: self.run, location }),
            Err(error) => stop(self.run, error),
        }
    }
}

/// The catalog is to record where the metadata now is, in place of what it recorded before.
pub struct Register {
    pub run: CommitRun,
    pub location: String,
}

impl Register {
    pub open spec fn wf(&self) -> bool {
        self.run.wf() && self.run.public() && self.run.in_catalog()
    }

    /// What the catalog recorded before, which the new location takes the place of.
    pub fn previous_location(&self) -> (r: Option<&String>)
        ensures
            match r {
                Some(location) => self.run.recorded_location == Some(*location),
                None => self.run.recorded_location is None,
            },
    {
        match &self.run.recorded_location {
            Some(location) => Some(location),
            None => None,
        }
    }

    pub fn registered(self, reply: Result<(), EngineError>) -> (next: Step)
        requires
            self.wf(),
        ensures
            next.wf(),
            match reply {
                Ok(()) => completes(next, self.run, self.run.plan.info.row_count),
                Err(e) => stops(next, self.run, e@),
            },
    {
        match reply {
            Ok(()) => complete(self.run),
            Err(error) => stop(self.run, error),
        }
    }
}

/// The version that follows that of the metadata an attempt starts from.
pub open spec fn version_after(run: CommitRun) -> nat {
    match run.latest_version {
        Some(version) => (version + 1) as nat,
        None => 1,
    }
}

/// The version that follows that of the metadata an attempt starts from.
pub fn next_version(run: &CommitRun) -> (r: u64)
    ensures
        r == version_after(*run),
{
    match run.latest_version {
        Some(version) => version as u64 + 1,
        None => 1,
    }
}

/// The metadata files of the next version are to be listed.
pub struct ListVersion {
    pub run: CommitRun,
    pub base: CommitBase,
}

impl ListVersion {
    pub open spec fn wf(&self) -> bool {
        self.run.wf() && self.run.hidden() && !self.run.plan.validation_only
    }

    /// Where there is one already, another commit has come first.
    pub fn listed(self, reply: Result<Vec<String>, EngineError>) -> (next: Step)
        requires
            self.wf(),
        ensures
            next.wf(),
            match reply {
                Err(e) => abandons(next, self.run, e@),
                Ok(files) => if files@.len() > 0 {
                    retries(next, self.run)
                } else {
                    next == Step::PrepareSnapshot(
                        PrepareSnapshot { run: self.run, base: self.base },
                    )
                },
            },
    {
        match reply {
            Err(error) => abandon(self.run, error),
            Ok(files) => if files.len() > 0 {
                retry(self.run)
            } else {
                Step::PrepareSnapshot(PrepareSnapshot { run: self.run, base: self.base })
            },
        }
    }
}

/// A snapshot is to be prepared: its manifests are written, and what makes it current is said.
pub struct PrepareSnapshot {
    pub run: CommitRun,
    pub base: CommitBase,
}

/// What comes after a snapshot was prepared: the catalog commits it, or its updates are made here.
pub open spec fn goes_on_with(
    next: Step,
    run: CommitRun,
    base: CommitBase,
    prepared: PreparedSnapshot,
    first: bool,
) -> bool {
    if !meets_all(Some(base.metadata@), prepared.requirements@) {
        next matches Step::CleanPreparedAfter(clean) && clean.run == run && requirements_refused(
            Some(base.metadata@),
            prepared.requirements@,
            clean.error@,
        )
    } else if first || run.catalog_commits() {
        next == Step::CommitToCatalog(CommitToCatalog { run, base, prepared, first })
    } else {
        next == Step::StampUpdates(StampUpdates { run, base, prepared })
    }
}

fn go_on_with(run: CommitRun, base: CommitBase, prepared: PreparedSnapshot, first: bool) -> (next:
    Step)
    requires
        run.wf(),
        run.hidden(),
        !run.plan.validation_only,
        first ==> run.catalog_commits(),
    ensures
        next.wf(),
        goes_on_with(next, run, base, prepared, first),
{
    match validate_requirements(Some(&base.metadata), prepared.requirements.as_slice()) {
        Ok(()) => {},
        Err(error) => return Step::CleanPreparedAfter(CleanPreparedAfter { run, error }),
    }
    if run.has_catalog_commit() {
        Step::CommitToCatalog(CommitToCatalog { run, base, prepared, first })
    } else {
        Step::StampUpdates(StampUpdates { run, base, prepared })
    }
}

impl PrepareSnapshot {
    pub open spec fn wf(&self) -> bool {
        self.run.wf() && self.run.hidden() && !self.run.plan.validation_only
    }

    pub fn prepared(self, reply: Result<PreparedSnapshot, String>) -> (next: Step)
        requires
            self.wf(),
        ensures
            next.wf(),
            match reply {
                Err(text) => abandons(next, self.run, EngineErrorView::Execution(text@)),
                Ok(prepared) => goes_on_with(next, self.run, self.base, prepared, false),
            },
    {
        match reply {
            Err(text) => abandon(self.run, EngineError::Execution(text)),
            Ok(prepared) => go_on_with(self.run, self.base, prepared, false),
        }
    }
}

/// The first snapshot of a table is to be prepared for the catalog to commit it.
pub struct PrepareFirstSnapshot {
    pub run: CommitRun,
    pub base: CommitBase,
}

impl PrepareFirstSnapshot {
    pub open spec fn wf(&self) -> bool {
        self.run.wf() && self.run.hidden() && !self.run.plan.validation_only
            && self.run.catalog_commits()
    }

    pub fn prepared(self, reply: Result<PreparedSnapshot, EngineError>) -> (next: Step)
        requires
            self.wf(),
        ensures
            next.wf(),
            match reply {
                Err(e) => abandons(next, self.run, e@),
                Ok(prepared) => goes_on_with(next, self.run, self.base, prepared, true),
            },
    {
        match reply {
            Err(error) => abandon(self.run, error),
            Ok(prepared) => go_on_with(self.run, self.base, prepared, true),
        }
    }
}

/// How a catalog answers to a commit.
#[derive(Debug, Clone, Copy, PartialEq, Eq, Structural)]
pub enum CatalogCommitOutcome {
    Committed,
    NotSupported,
    Conflict,
}

/// The catalog is to make the commit.
pub struct CommitToCatalog {
    pub run: CommitRun,
    pub base: CommitBase,
    pub prepared: PreparedSnapshot,
    /// The table has no snapshot yet.
    pub first: bool,
}

/// The error of a commit that a catalog cannot make.
pub open spec fn not_supported_error() -> EngineErrorView {
    EngineErrorView::Plan(
        "Iceberg catalog commit is not supported by the resolved catalog authority"@,
    )
}

impl CommitToCatalog {
    pub open spec fn wf(&self) -> bool {
        self.run.wf() && self.run.hidden() && !self.run.plan.validation_only
            && self.run.catalog_commits()
    }

    /// Where the catalog cannot commit, the commit is made here if that will do.
    pub fn committed(self, reply: Result<CatalogCommitOutcome, EngineError>) -> (next: Step)
        requires
            self.wf(),
        ensures
            next.wf(),
            match reply {
                Err(e) => if e@.state_unknown() {
                    stops(next, self.run.recorded(Event::StateUnknown), e@)
                } else {
                    next == Step::CleanPreparedAfter(
                        CleanPreparedAfter { run: self.run, error: e },
                    )
                },
                Ok(CatalogCommitOutcome::Committed) => completes(
                    next,
                    self.run.recorded(Event::Published),
                    self.run.plan.info.row_count,
                ),
                Ok(CatalogCommitOutcome::NotSupported) => if !self.run.mode.is_compatibility {
                    next matches Step::CleanPreparedAfter(clean) && clean.run == self.run
                        && clean.error@ == not_supported_error()
                } else if self.first {
                    next == Step::CleanPrepared(
                        CleanPrepared {
                            run: self.run,
                            afterwards: AfterPrepared::FirstSnapshot(self.base),
                        },
                    )
                } else {
                    next == Step::StampUpdates(
                        StampUpdates { run: self.run, base: self.base, prepared: self.prepared },
                    )
                },
                Ok(CatalogCommitOutcome::Conflict) => next == Step::CleanPrepared(
                    CleanPrepared { run: self.run, afterwards: AfterPrepared::Retry },
                ),
            },
    {
        proof {
            lemma_next_exposure(self.run.journal@, Event::Published);
            lemma_next_exposure(self.run.journal@, Event::StateUnknown);
        }
        let outcome = match reply {
            Ok(outcome) => outcome,
            Err(error) => {
                return if publication_state_is_unknown(&error) {
                    stop(self.run.record(Ghost(Event::StateUnknown)), error)
                } else {
                    Step::CleanPreparedAfter(CleanPreparedAfter { run: self.run, error })
                };
            },
        };
        match outcome {
            CatalogCommitOutcome::Committed => complete(self.run.record(Ghost(Event::Published))),
            CatalogCommitOutcome::NotSupported => if !self.run.mode.is_compatibility {
                Step::CleanPreparedAfter(
                    CleanPreparedAfter {
                        run: self.run,
                        error: plan_error(
                            "Iceberg catalog commit is not supported by the resolved catalog authority",
                        ),
                    },
                )
            } else if self.first {
                Step::CleanPrepared(
                    CleanPrepared {
                        run: self.run,
                        afterwards: AfterPrepared::FirstSnapshot(self.base),
                    },
                )
            } else {
                Step::StampUpdates(
                    StampUpdates { run: self.run, base: self.base, prepared: self.prepared },
                )
            },
            CatalogCommitOutcome::Conflict => Step::CleanPrepared(
                CleanPrepared { run: self.run, afterwards: AfterPrepared::Retry },
            ),
        }
    }
}

/// What comes after the manifests of a snapshot are removed.
pub enum AfterPrepared {
    /// The commit fails with this error.
    Fail(EngineError),
    /// The commit is tried again.
    Retry,
    /// The first snapshot is written here, and the catalog's pointer moved to it.
    FirstSnapshot(CommitBase),
}

/// The manifests of a prepared snapshot are to be removed.
pub struct CleanPrepared {
    pub run: CommitRun,
    pub afterwards: AfterPrepared,
}

impl CleanPrepared {
    pub open spec fn wf(&self) -> bool {
        self.run.wf() && self.run.hidden() && !self.run.plan.validation_only && (
        self.afterwards is FirstSnapshot ==> self.run.in_catalog())
    }

    pub fn cleaned(self, reply: Result<(), EngineError>) -> (next: Step)
        requires
            self.wf(),
        ensures
            next.wf(),
            match reply {
                Err(c) => abandons(
                    next,
                    self.run,
                    match self.afterwards {
                        AfterPrepared::Fail(e) => if c@.state_unknown() {
                            c@
                        } else {
                            with_cleanup_failure(e@, c@)
                        },
                        _ => c@,
                    },
                ),
                Ok(()) => match self.afterwards {
                    AfterPrepared::Fail(e) => abandons(next, self.run, e@),
                    AfterPrepared::Retry => retries(next, self.run),
                    AfterPrepared::FirstSnapshot(base) => next == Step::ConfirmFirst(
                        ConfirmFirst { run: self.run, base, moves_pointer: true },
                    ),
                },
            },
    {
        match reply {
            Err(cleanup_error) => match self.afterwards {
                AfterPrepared::Fail(error) => if publication_state_is_unknown(&cleanup_error) {
                    abandon(self.run, cleanup_error)
                } else {
                    abandon(self.run, operation_with_cleanup_failure(error, cleanup_error))
                },
                _ => abandon(self.run, cleanup_error),
            },
            Ok(()) => match self.afterwards {
                AfterPrepared::Fail(error) => abandon(self.run, error),
                AfterPrepared::Retry => retry(self.run),
                AfterPrepared::FirstSnapshot(base) => Step::ConfirmFirst(
                    ConfirmFirst { run: self.run, base, moves_pointer: true },
                ),
            },
        }
    }
}

/// The manifests of a prepared snapshot are to be removed because of an error. The reply is the
/// error that the commit fails with: this one, or one that also says that the removal failed.
pub struct CleanPreparedAfter {
    pub run: CommitRun,
    pub error: EngineError,
}

impl CleanPreparedAfter {
    pub open spec fn wf(&self) -> bool {
        self.run.wf() && self.run.hidden() && !self.run.plan.validation_only
    }

    pub fn cleaned(self, reply: EngineError) -> (next: Step)
        requires
            self.wf(),
        ensures
            next.wf(),
            abandons(next, self.run, reply@),
    {
        abandon(self.run, reply)
    }
}

/// The updates of a snapshot are to be made, at a time that is to be given.
pub struct StampUpdates {
    pub run: CommitRun,
    pub base: CommitBase,
    pub prepared: PreparedSnapshot,
}

/// The metadata file that a new one follows: where the catalog says it is, or else its path.
pub open spec fn followed_file(run: CommitRun) -> Seq<char> {
    match run.location {
        Some(location) => location@,
        None => run.latest@,
    }
}

impl StampUpdates {
    pub open spec fn wf(&self) -> bool {
        self.run.wf() && self.run.hidden() && !self.run.plan.validation_only
    }

    /// The time of the commit, in milliseconds.
    pub fn stamped(self, timestamp_ms: i64) -> (next: Step)
        requires
            self.wf(),
        ensures
            next.wf(),
            next matches Step::SerializeMetadata(serialize) && {
                &&& serialize.run == self.run
                &&& serialize.new.metadata@ == next_metadata(
                    self.base.metadata@,
                    views(self.prepared.updates@),
                    timestamp_ms,
                    followed_file(self.run),
                )
                &&& serialize.new.added_rows == rows_added(views(self.prepared.updates@))
            },
    {
        let mut metadata = self.base.metadata;
        let previous_file = match &self.run.location {
            Some(location) => location.clone(),
            None => self.run.latest.clone(),
        };
        let added_rows = apply_snapshot_updates(
            &mut metadata,
            &self.prepared.updates,
            timestamp_ms,
            previous_file,
        );
        let new = NewMetadata { metadata, added_rows };
        Step::SerializeMetadata(SerializeMetadata { run: self.run, new })
    }
}

/// The metadata that a commit is to publish. The rows that its snapshot adds, where they are known,
/// are still to be counted in it.
pub struct NewMetadata {
    pub metadata: TableMetadata,
    pub added_rows: Option<i64>,
}

/// The new metadata is to be serialised.
pub struct SerializeMetadata {
    pub run: CommitRun,
    pub new: NewMetadata,
}

impl SerializeMetadata {
    pub open spec fn wf(&self) -> bool {
        self.run.wf() && self.run.hidden() && !self.run.plan.validation_only
    }

    pub fn serialized(self, reply: Result<Vec<u8>, EngineError>) -> (next: Step)
        requires
            self.wf(),
        ensures
            next.wf(),
            match reply {
                Err(e) => next == Step::CleanPreparedAfter(
                    CleanPreparedAfter { run: self.run, error: e },
                ),
                Ok(json) => next == Step::NameMetadata(
                    NameMetadata { run: self.run, new: self.new, json },
                ),
            },
    {
        match reply {
            Err(error) => Step::CleanPreparedAfter(CleanPreparedAfter { run: self.run, error }),
            Ok(json) => Step::NameMetadata(NameMetadata { run: self.run, new: self.new, json }),
        }
    }
}

/// The extension of the new metadata file is to be found.
pub struct NameMetadata {
    pub run: CommitRun,
    pub new: NewMetadata,
    pub json: Vec<u8>,
}

/// An identifier that was made at random.
pub open spec fn random_uuid(uuid: u128) -> bool {
    hex_digit_at(uuid, 12) == 4 && 8 <= hex_digit_at(uuid, 16) <= 11
}

impl NameMetadata {
    pub open spec fn wf(&self) -> bool {
        self.run.wf() && self.run.hidden() && !self.run.plan.validation_only
    }

    /// A file that the catalog's pointer is moved to gets a unique name.
    pub fn named(self, extension: Result<String, EngineError>) -> (next: Step)
        requires
            self.wf(),
        ensures
            next.wf(),
            match extension {
                Err(e) => next == Step::CleanPreparedAfter(
                    CleanPreparedAfter { run: self.run, error: e },
                ),
                Ok(extension) => next matches Step::LocateNewFile(locate) && {
                    &&& locate.run == self.run
                    &&& locate.new == self.new
                    &&& locate.json == self.json
                    &&& if self.run.moves_pointer() {
                        exists|uuid: u128| #[trigger]
                            random_uuid(uuid) && locate.file@ == metadata_file(
                                version_after(self.run),
                                Some(uuid),
                                extension@,
                            )
                    } else {
                        locate.file@ == metadata_file(version_after(self.run), None, extension@)
                    }
                },
            },
    {
        let extension = match extension {
            Ok(extension) => extension,
            Err(error) => {
                return Step::CleanPreparedAfter(CleanPreparedAfter { run: self.run, error });
            },
        };
        let version: u64 = next_version(&self.run);
        let file = if self.run.has_pointer() {
            let uuid: u128 = new_uuid();
            assert(random_uuid(uuid));
            metadata_file_name(version, Some(uuid), extension.as_str())
        } else {
            metadata_file_name(version, None, extension.as_str())
        };
        Step::LocateNewFile(
            LocateNewFile { run: self.run, new: self.new, json: self.json, file },
        )
    }
}

/// The full location of the new metadata file is to be found.
pub struct LocateNewFile {
    pub run: CommitRun,
    pub new: NewMetadata,
    pub json: Vec<u8>,
    pub file: String,
}

impl LocateNewFile {
    pub open spec fn wf(&self) -> bool {
        self.run.wf() && self.run.hidden() && !self.run.plan.validation_only
    }

    pub fn located(self, reply: Result<String, EngineError>) -> (next: Step)
        requires
            self.wf(),
        ensures
            next.wf(),
            match reply {
                Err(e) => next == Step::CleanPreparedAfter(
                    CleanPreparedAfter { run: self.run, error: e },
                ),
                Ok(location) => next == Step::EncodeMetadata(
                    EncodeMetadata {
                        run: self.run,
                        new: self.new,
                        json: self.json,
                        file: self.file,
                        location,
                    },
                ),
            },
    {
        match reply {
            Err(error) => Step::CleanPreparedAfter(CleanPreparedAfter { run: self.run, error }),
            Ok(location) => Step::EncodeMetadata(
                EncodeMetadata {
                    run: self.run,
                    new: self.new,
                    json: self.json,
                    file: self.file,
                    location,
                },
            ),
        }
    }
}

/// The serialised metadata is to be encoded as its file holds it.
pub struct EncodeMetadata {
    pub run: CommitRun,
    pub new: NewMetadata,
    pub json: Vec<u8>,
    pub file: String,
    pub location: String,
}

/// New metadata as its file is to hold it.
pub struct EncodedMetadata {
    pub new: NewMetadata,
    pub bytes: Vec<u8>,
    pub file: String,
    /// The full location of the file.
    pub location: String,
}

impl EncodeMetadata {
    pub open spec fn wf(&self) -> bool {
        self.run.wf() && self.run.hidden() && !self.run.plan.validation_only
    }

    pub fn encoded(self, reply: Result<Vec<u8>, EngineError>) -> (next: Step)
        requires
            self.wf(),
        ensures
            next.wf(),
            match reply {
                Err(e) => next == Step::CleanPreparedAfter(
                    CleanPreparedAfter { run: self.run, error: e },
                ),
                Ok(bytes) => next == Step::ConfirmPublish(
                    ConfirmPublish {
                        run: self.run,
                        encoded: EncodedMetadata {
                            new: self.new,
                            bytes,
                            file: self.file,
                            location: self.location,
                        },
                    },
                ),
            },
    {
        match reply {
            Err(error) => Step::CleanPreparedAfter(CleanPreparedAfter { run: self.run, error }),
            Ok(bytes) => Step::ConfirmPublish(
                ConfirmPublish {
                    run: self.run,
                    encoded: EncodedMetadata {
                        new: self.new,
                        bytes,
                        file: self.file,
                        location: self.location,
                    },
                },
            ),
        }
    }
}

/// The current metadata is to be read once more, before new metadata is written.
pub struct ConfirmPublish {
    pub run: CommitRun,
    pub encoded: EncodedMetadata,
}

impl ConfirmPublish {
    pub open spec fn wf(&self) -> bool {
        self.run.wf() && self.run.hidden() && !self.run.plan.validation_only
    }

    pub fn loaded(self, reply: Result<(String, TableMetadata), EngineError>) -> (next: Step)
        requires
            self.wf(),
        ensures
            next.wf(),
            match reply {
                Err(e) => next == Step::CleanPreparedAfter(
                    CleanPreparedAfter { run: self.run, error: e },
                ),
                Ok((current, metadata)) => if !meets_all(
                    Some(metadata@),
                    self.run.plan.info.requirements@,
                ) {
                    next matches Step::CleanPreparedAfter(clean) && clean.run == self.run
                        && requirements_refused(
                        Some(metadata@),
                        self.run.plan.info.requirements@,
                        clean.error@,
                    )
                } else if current@ != self.run.latest@ {
                    next == Step::CleanPrepared(
                        CleanPrepared { run: self.run, afterwards: AfterPrepared::Retry },
                    )
                } else {
                    next == Step::PutMetadata(
                        PutMetadata {
                            run: confirmed(self.run, current@, metadata@),
                            encoded: self.encoded,
                        },
                    )
                },
            },
    {
        let (current, metadata) = match reply {
            Ok(current) => current,
            Err(error) => {
                return Step::CleanPreparedAfter(CleanPreparedAfter { run: self.run, error });
            },
        };
        match validate_requirements(Some(&metadata), self.run.plan.info.requirements.as_slice()) {
            Ok(()) => {},
            Err(error) => {
                return Step::CleanPreparedAfter(CleanPreparedAfter { run: self.run, error });
            },
        }
        if !text_equal(current.as_str(), self.run.latest.as_str()) {
            return Step::CleanPrepared(
                CleanPrepared { run: self.run, afterwards: AfterPrepared::Retry },
            );
        }
        let ghost event = Event::BaseConfirmed { file: current@, metadata: metadata@ };
        proof {
            lemma_next_exposure(self.run.journal@, event);
        }
        Step::PutMetadata(
            PutMetadata {
                run: self.run.record(Ghost(event)),
                encoded: self.encoded,
            },
        )
    }
}

/// How it ended to create an object.
#[derive(Debug, PartialEq, Eq)]
pub enum PutOutcome {
    Created,
    AlreadyExists,
    Failed(EngineError),
}

/// The new metadata is to be written to a file that is not there yet.
pub struct PutMetadata {
    pub run: CommitRun,
    pub encoded: EncodedMetadata,
}

impl PutMetadata {
    /// Nothing is written before the metadata that the commit starts from was found to be current.
    pub open spec fn wf(&self) -> bool {
        self.run.wf() && self.run.hidden() && !self.run.plan.validation_only
            && self.run.base_confirmed()
    }

    /// The path of the file in the object store.
    pub fn object_path(&self) -> (r: String)
        ensures
            r@ == object_path_of(self.encoded.file@),
    {
        object_path(self.encoded.file.as_str())
    }

    pub fn put(self, reply: PutOutcome) -> (next: Step)
        requires
            self.wf(),
        ensures
            next.wf(),
            match reply {
                PutOutcome::Created => next == Step::ListAfterPut(
                    ListAfterPut {
                        run: self.run.recorded(Event::CandidateWritten),
                        file: self.encoded.file,
                        location: self.encoded.location,
                    },
                ),
                PutOutcome::AlreadyExists => next == Step::CleanPrepared(
                    CleanPrepared { run: self.run, afterwards: AfterPrepared::Retry },
                ),
                PutOutcome::Failed(e) => next == Step::CleanPreparedAfter(
                    CleanPreparedAfter { run: self.run, error: e },
                ),
            },
    {
        match reply {
            PutOutcome::Created => {
                proof {
                    lemma_next_exposure(self.run.journal@, Event::CandidateWritten);
                }
                let run = self.run.record(Ghost(Event::CandidateWritten));
                Step::ListAfterPut(ListAfterPut { run, file: self.encoded.file, location: self.encoded.location })
            },
            PutOutcome::AlreadyExists => Step::CleanPrepared(
                CleanPrepared { run: self.run, afterwards: AfterPrepared::Retry },
            ),
            PutOutcome::Failed(error) => Step::CleanPreparedAfter(
                CleanPreparedAfter { run: self.run, error },
            ),
        }
    }
}

/// One of the files is another than this one.
pub open spec fn has_other_file(files: Seq<String>, file: Seq<char>) -> bool {
    exists|i: int| 0 <= i < files.len() && (#[trigger] files[i])@ != file
}

fn contains_other_file(files: &Vec<String>, file: &str) -> (r: bool)
    ensures
        r == has_other_file(files@, file@),
{
    let mut i: usize = 0;
    while i < files.len()
        invariant
            i <= files.len(),
            forall|j: int| 0 <= j < i ==> (#[trigger] files@[j])@ == file@,
        decreases files.len() - i,
    {
        if !text_equal(files[i].as_str(), file) {
            return true;
        }
        i += 1;
    }
    false
}

/// The metadata files of the new version are to be listed.
pub struct ListAfterPut {
    pub run: CommitRun,
    pub file: String,
    pub location: String,
}

impl ListAfterPut {
    pub open spec fn wf(&self) -> bool {
        self.run.wf() && self.run.candidate() && !self.run.plan.validation_only
    }

    /// Where there is another one, another commit was at work at the same time. Where no pointer
    /// sends readers to the file, they find it as it is.
    pub fn listed(self, reply: Result<Vec<String>, EngineError>) -> (next: Step)
        requires
            self.wf(),
        ensures
            next.wf(),
            match reply {
                Err(e) => next == Step::DeleteCandidate(
                    DeleteCandidate { run: self.run, file: self.file, afterwards: AfterCleanup::Fail(e) },
                ),
                Ok(files) => if has_other_file(files@, self.file@) {
                    next == Step::DeleteCandidate(
                        DeleteCandidate {
                            run: self.run,
                            file: self.file,
                            afterwards: AfterCleanup::Retry,
                        },
                    )
                } else if self.run.moves_pointer() {
                    next == Step::MovePointer(
                        MovePointer { run: self.run, file: self.file, location: self.location },
                    )
                } else {
                    next == Step::WriteHint(
                        WriteHint {
                            run: self.run.recorded(Event::Published),
                            file: self.file,
                            location: self.location,
                        },
                    )
                },
            },
    {
        let files = match reply {
            Ok(files) => files,
            Err(error) => {
                return Step::DeleteCandidate(
                    DeleteCandidate {
                        run: self.run,
                        file: self.file,
                        afterwards: AfterCleanup::Fail(error),
                    },
                );
            },
        };
        if contains_other_file(&files, self.file.as_str()) {
            return Step::DeleteCandidate(
                DeleteCandidate { run: self.run, file: self.file, afterwards: AfterCleanup::Retry },
            );
        }
        if self.run.has_pointer() {
            Step::MovePointer(
                MovePointer { run: self.run, file: self.file, location: self.location },
            )
        } else {
            proof {
                lemma_next_exposure(self.run.journal@, Event::Published);
            }
            let run = self.run.record(Ghost(Event::Published));
            Step::WriteHint(WriteHint { run, file: self.file, location: self.location })
        }
    }
}

/// The catalog's pointer is to be moved from where this attempt found it to the new metadata.
pub struct MovePointer {
    pub run: CommitRun,
    pub file: String,
    pub location: String,
}

impl MovePointer {
    pub open spec fn wf(&self) -> bool {
        self.run.wf() && self.run.candidate() && !self.run.plan.validation_only
            && self.run.moves_pointer()
    }

    /// Where the pointer must be for the move to go through: where this attempt found it.
    pub fn previous_location(&self) -> (r: Option<&String>)
        ensures
            match r {
                Some(location) => self.run.location == Some(*location),
                None => self.run.location is None,
            },
    {
        match &self.run.location {
            Some(location) => Some(location),
            None => None,
        }
    }

    pub fn moved(self, reply: Result<(), EngineError>) -> (next: Step)
        requires
            self.wf(),
        ensures
            next.wf(),
            match reply {
                Ok(()) => next == Step::WriteHint(
                    WriteHint {
                        run: self.run.recorded(Event::Published),
                        file: self.file,
                        location: self.location,
                    },
                ),
                Err(e) => if e@.retryable_conflict() {
                    next == Step::DeleteCandidate(
                        DeleteCandidate {
                            run: self.run,
                            file: self.file,
                            afterwards: AfterCleanup::Retry,
                        },
                    )
                } else if e@.state_unknown() {
                    stops(next, self.run.recorded(Event::StateUnknown), e@)
                } else {
                    next == Step::DeleteCandidate(
                        DeleteCandidate {
                            run: self.run,
                            file: self.file,
                            afterwards: AfterCleanup::Fail(e),
                        },
                    )
                },
            },
    {
        proof {
            lemma_next_exposure(self.run.journal@, Event::Published);
            lemma_next_exposure(self.run.journal@, Event::StateUnknown);
        }
        match reply {
            Ok(()) => {
                let run = self.run.record(Ghost(Event::Published));
                Step::WriteHint(WriteHint { run, file: self.file, location: self.location })
            },
            Err(error) => if is_retryable_publication_conflict(&error) {
                Step::DeleteCandidate(
                    DeleteCandidate { run: self.run, file: self.file, afterwards: AfterCleanup::Retry },
                )
            } else if publication_state_is_unknown(&error) {
                stop(self.run.record(Ghost(Event::StateUnknown)), error)
            } else {
                Step::DeleteCandidate(
                    DeleteCandidate {
                        run: self.run,
                        file: self.file,
                        afterwards: AfterCleanup::Fail(error),
                    },
                )
            },
        }
    }
}

/// A metadata file that nobody was sent to is to be deleted.
pub struct DeleteCandidate {
    pub run: CommitRun,
    pub file: String,
    pub afterwards: AfterCleanup,
}

/// The message about a metadata file that could not be deleted.
pub open spec fn retained_text(file: Seq<char>, error: Seq<char>) -> Seq<char> {
    "failed to remove candidate metadata "@ + file
        + "; metadata, manifests and task data were retained: "@ + error
}

/// What comes after the metadata file is deleted.
pub open spec fn after_delete(afterwards: AfterCleanup) -> AfterPrepared {
    match afterwards {
        AfterCleanup::Fail(e) => AfterPrepared::Fail(e),
        AfterCleanup::Retry => AfterPrepared::Retry,
    }
}

impl DeleteCandidate {
    pub open spec fn wf(&self) -> bool {
        self.run.wf() && self.run.candidate() && !self.run.plan.validation_only
    }

    /// The path of the file in the object store.
    pub fn object_path(&self) -> (r: String)
        ensures
            r@ == object_path_of(self.file@),
    {
        object_path(self.file.as_str())
    }

    /// The manifests go only after the metadata that names them. Where it cannot be deleted, all is
    /// kept that it leads to.
    pub fn deleted(self, reply: DeleteOutcome) -> (next: Step)
        requires
            self.wf(),
        ensures
            next.wf(),
            match reply {
                DeleteOutcome::Failed(error) => stops(
                    next,
                    self.run.recorded(Event::StateUnknown),
                    EngineErrorView::External(
                        ExternalSourceView::PublicationStateUnknown(
                            retained_text(self.file@, error@),
                        ),
                    ),
                ),
                _ => next == Step::CleanPrepared(
                    CleanPrepared {
                        run: self.run.recorded(Event::CandidateRemoved),
                        afterwards: after_delete(self.afterwards),
                    },
                ),
            },
    {
        proof {
            lemma_next_exposure(self.run.journal@, Event::CandidateRemoved);
            lemma_next_exposure(self.run.journal@, Event::StateUnknown);
        }
        match reply {
            DeleteOutcome::Failed(error) => {
                let text = String::from_str("failed to remove candidate metadata ").concat(
                    self.file.as_str(),
                ).concat("; metadata, manifests and task data were retained: ").concat(
                    error.as_str(),
                );
                stop(
                    self.run.record(Ghost(Event::StateUnknown)),
                    publication_state_unknown_error(text),
                )
            },
            _ => {
                let afterwards = match self.afterwards {
                    AfterCleanup::Fail(error) => AfterPrepared::Fail(error),
                    AfterCleanup::Retry => AfterPrepared::Retry,
                };
                Step::CleanPrepared(
                    CleanPrepared { run: self.run.record(Ghost(Event::CandidateRemoved)), afterwards },
                )
            },
        }
    }
}

/// The commit can be seen. A hint for readers that look below the table is to be written.
pub struct WriteHint {
    pub run: CommitRun,
    pub file: String,
    pub location: String,
}

impl WriteHint {
    pub open spec fn wf(&self) -> bool {
        self.run.wf() && self.run.public()
    }

    /// What the hint says.
    pub fn hint(&self) -> (r: String)
        ensures
            r@ == hint_text(self.run.moves_pointer(), self.file@, version_after(self.run)),
    {
        version_hint(self.run.has_pointer(), self.file.as_str(), next_version(&self.run))
    }

    /// Whether the hint was written makes no difference.
    pub fn written(self) -> (next: Step)
        requires
            self.wf(),
        ensures
            next.wf(),
            if !self.run.moves_pointer() && self.run.registered() {
                next == Step::Register(Register { run: self.run, location: self.location })
            } else {
                completes(next, self.run, self.run.plan.info.row_count)
            },
    {
        if !self.run.has_pointer() && self.run.is_registered() {
            Step::Register(Register { run: self.run, location: self.location })
        } else {
            complete(self.run)
        }
    }
}

} // verus!
