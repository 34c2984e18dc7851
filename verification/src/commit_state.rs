//! What a commit carries from step to step.
use vstd::prelude::*;
use vstd::string::*;

use crate::content::views;
use crate::error::{EngineError, EngineErrorView};
use crate::requirements::meets_all;
use crate::table::{
    DataFile, LakehouseExecutionContext, PartitionSpec, Schema, SnapshotUpdateKind, TableMetadata,
    TableMetadataView, TableRequirement, TableUpdate, TableUpdateView,
};
use crate::text::{nat_text, u64_text};

verus! {

/// How often a commit is tried against concurrent ones.
pub const MAX_COMMIT_RETRIES: usize = 5;

/// What a commit is to do.
#[derive(Debug, PartialEq, Eq)]
pub struct CommitInfo {
    pub table_uri: String,
    pub row_count: u64,
    pub data_files: Vec<DataFile>,
    pub delete_files: Vec<DataFile>,
    pub requirements: Vec<TableRequirement>,
    pub table_properties: Vec<(String, String)>,
    pub snapshot_properties: Vec<(String, String)>,
    pub caller_expected_snapshot_id: Option<i64>,
    pub lakehouse_table: Option<LakehouseExecutionContext>,
    pub snapshot_update_kind: SnapshotUpdateKind,
    pub schema: Option<Schema>,
    pub partition_spec: Option<PartitionSpec>,
}

/// A commit that is about to begin.
pub struct CommitPlan {
    pub info: CommitInfo,
    /// The commit replaces single files and has none to add or to remove. All that is left of it is
    /// the check of its requirements.
    pub validation_only: bool,
    /// The files to remove are those in the partitions of the added ones.
    pub dynamic_partition_overwrite: bool,
    /// The files to remove where that was planned.
    pub removed_data_file_paths: Vec<String>,
    /// The files that tasks have written.
    pub task_file_paths: Vec<String>,
}

impl CommitPlan {
    /// A plan rests on a kind of update that goes with the files it removes.
    pub open spec fn wf(&self) -> bool {
        &&& self.validation_only == (self.info.snapshot_update_kind.copy_on_write()
            && self.info.data_files@.len() == 0 && self.removed_data_file_paths@.len() == 0)
        &&& self.dynamic_partition_overwrite ==> self.info.snapshot_update_kind.copy_on_write()
            && self.removed_data_file_paths@.len() == 0
        &&& self.removed_data_file_paths@.len() > 0
            ==> self.info.snapshot_update_kind.copy_on_write()
    }
}

/// What a catalog knows of a table.
#[derive(Debug, PartialEq, Eq)]
pub struct CatalogTableInfo {
    pub metadata_location: Option<String>,
    pub is_catalog_managed_iceberg_table: bool,
}

/// What part a catalog has in a commit.
#[derive(Debug, Clone, Copy, PartialEq, Eq, Structural)]
pub struct CatalogCommitMode {
    /// The catalog says which metadata file is current.
    pub uses_catalog_metadata: bool,
    /// The catalog makes the commit.
    pub uses_catalog_commit: bool,
    /// The commit moves the catalog's pointer to the metadata file.
    pub uses_metadata_location_update: bool,
    /// The table is found by its path, and the catalog only records where its metadata is.
    pub is_filesystem: bool,
    /// Where the catalog cannot commit, moving its pointer will do.
    pub is_compatibility: bool,
}

/// What happened in a commit, as far as others may see or have seen it.
pub enum Event {
    /// The current metadata was read once more. It is this file, and it holds this.
    BaseConfirmed { file: Seq<char>, metadata: TableMetadataView },
    /// A metadata file was written that nobody is sent to yet.
    CandidateWritten,
    /// That file was removed.
    CandidateRemoved,
    /// The commit can be seen.
    Published,
    /// Nobody can tell whether the commit can be seen.
    StateUnknown,
}

/// How far a commit can be seen.
pub enum Exposure {
    /// Not at all.
    Hidden,
    /// There is a metadata file that nobody is sent to.
    Candidate,
    /// It can be seen, or may be.
    Public,
}

/// How far a commit can be seen after what happened. What was public once stays so.
pub open spec fn exposure(journal: Seq<Event>) -> Exposure
    decreases journal.len(),
{
    if journal.len() == 0 {
        Exposure::Hidden
    } else {
        let before = exposure(journal.drop_last());
        match journal.last() {
            Event::BaseConfirmed { .. } => before,
            Event::CandidateWritten => if before == Exposure::Public {
                before
            } else {
                Exposure::Candidate
            },
            Event::CandidateRemoved => if before == Exposure::Public {
                before
            } else {
                Exposure::Hidden
            },
            Event::Published => Exposure::Public,
            Event::StateUnknown => Exposure::Public,
        }
    }
}

/// Nothing was written.
pub open spec fn nothing_written(journal: Seq<Event>) -> bool {
    forall|i: int| 0 <= i < journal.len() ==> (#[trigger] journal[i]) is BaseConfirmed
}

/// A commit under way.
pub struct CommitRun {
    pub plan: CommitPlan,
    pub mode: CatalogCommitMode,
    /// The partition spec of tables without partitions.
    pub unpartitioned: PartitionSpec,
    /// Where the catalog or the table's properties record that the metadata is.
    pub recorded_location: Option<String>,
    /// Where the metadata is that the catalog sends readers to, in this attempt.
    pub location: Option<String>,
    /// The metadata file that this attempt starts from.
    pub latest: String,
    /// The version that the name of that file gives.
    pub latest_version: Option<u32>,
    pub attempt: usize,
    pub journal: Ghost<Seq<Event>>,
}

impl CommitRun {
    pub open spec fn wf(&self) -> bool {
        &&& self.plan.wf()
        &&& 1 <= self.attempt <= MAX_COMMIT_RETRIES
        &&& self.plan.validation_only ==> nothing_written(self.journal@)
        &&& !self.mode.uses_catalog_metadata ==> self.location is None
    }

    /// The commit cannot be seen.
    pub open spec fn hidden(&self) -> bool {
        exposure(self.journal@) == Exposure::Hidden
    }

    /// There is a metadata file that nobody is sent to.
    pub open spec fn candidate(&self) -> bool {
        exposure(self.journal@) == Exposure::Candidate
    }

    /// The commit can be seen, or may be.
    pub open spec fn public(&self) -> bool {
        exposure(self.journal@) == Exposure::Public
    }

    /// The run with one more event.
    pub open spec fn recorded(self, event: Event) -> CommitRun {
        CommitRun { journal: Ghost(self.journal@.push(event)), ..self }
    }

    /// The next attempt.
    pub open spec fn next_attempt(self) -> CommitRun {
        CommitRun { attempt: (self.attempt + 1) as usize, ..self }
    }

    /// The last thing that happened is that the metadata that this attempt starts from was found to
    /// be the current one, and to meet the requirements of the commit.
    pub open spec fn base_confirmed(&self) -> bool {
        &&& self.journal@.len() > 0
        &&& self.journal@.last() matches Event::BaseConfirmed { file, metadata } && file
            == self.latest@ && meets_all(Some(metadata), self.plan.info.requirements@)
    }

    pub open spec fn in_catalog(&self) -> bool {
        self.plan.info.lakehouse_table is Some
    }

    /// The catalog says which metadata file is current.
    pub open spec fn catalog_metadata(&self) -> bool {
        self.in_catalog() && self.mode.uses_catalog_metadata
    }

    /// The catalog makes the commit.
    pub open spec fn catalog_commits(&self) -> bool {
        self.in_catalog() && self.mode.uses_catalog_commit
    }

    /// The commit moves the catalog's pointer.
    pub open spec fn moves_pointer(&self) -> bool {
        self.in_catalog() && self.mode.uses_metadata_location_update
    }

    /// The catalog only records where the metadata is.
    pub open spec fn registered(&self) -> bool {
        self.in_catalog() && self.mode.is_filesystem
    }

    /// Whether the catalog says which metadata file is current.
    pub fn has_catalog_metadata(&self) -> (r: bool)
        ensures
            r == self.catalog_metadata(),
    {
        self.plan.info.lakehouse_table.is_some() && self.mode.uses_catalog_metadata
    }

    /// Whether the catalog makes the commit.
    pub fn has_catalog_commit(&self) -> (r: bool)
        ensures
            r == self.catalog_commits(),
    {
        self.plan.info.lakehouse_table.is_some() && self.mode.uses_catalog_commit
    }

    /// Whether the commit moves the catalog's pointer.
    pub fn has_pointer(&self) -> (r: bool)
        ensures
            r == self.moves_pointer(),
    {
        self.plan.info.lakehouse_table.is_some() && self.mode.uses_metadata_location_update
    }

    /// Whether the catalog only records where the metadata is.
    pub fn is_registered(&self) -> (r: bool)
        ensures
            r == self.registered(),
    {
        self.plan.info.lakehouse_table.is_some() && self.mode.is_filesystem
    }

    /// The run with one more event.
    pub(crate) fn record(self, event: Ghost<Event>) -> (r: CommitRun)
        ensures
            r == self.recorded(event@),
    {
        let mut run = self;
        run.journal = Ghost(run.journal@.push(event@));
        run
    }
}

/// One more event changes what can be seen as it says.
pub proof fn lemma_next_exposure(journal: Seq<Event>, event: Event)
    ensures
        event is BaseConfirmed ==> exposure(journal.push(event)) == exposure(journal),
        event is CandidateWritten && exposure(journal) != Exposure::Public ==> exposure(
            journal.push(event),
        ) == Exposure::Candidate,
        event is CandidateRemoved && exposure(journal) != Exposure::Public ==> exposure(
            journal.push(event),
        ) == Exposure::Hidden,
        event is Published || event is StateUnknown ==> exposure(journal.push(event))
            == Exposure::Public,
        event is BaseConfirmed && nothing_written(journal) ==> nothing_written(
            journal.push(event),
        ),
{
    let longer = journal.push(event);
    assert(longer.drop_last() =~= journal);
    assert(longer.last() == event);
    if event is BaseConfirmed && nothing_written(journal) {
        assert forall|i: int| 0 <= i < longer.len() implies (#[trigger] longer[i]) is BaseConfirmed by {
            if i < journal.len() {
                assert(longer[i] == journal[i]);
            }
        }
    }
}

/// What was public once stays so, whatever else happens.
pub proof fn published_stays_published(journal: Seq<Event>, later: Seq<Event>)
    requires
        exposure(journal) == Exposure::Public,
    ensures
        exposure(journal + later) == Exposure::Public,
    decreases later.len(),
{
    if later.len() == 0 {
        assert(journal + later =~= journal);
    } else {
        published_stays_published(journal, later.drop_last());
        assert((journal + later).drop_last() =~= journal + later.drop_last());
    }
}

/// A commit that wrote nothing cannot be seen.
pub proof fn nothing_written_is_hidden(journal: Seq<Event>)
    requires
        nothing_written(journal),
    ensures
        exposure(journal) == Exposure::Hidden,
    decreases journal.len(),
{
    if journal.len() > 0 {
        assert forall|i: int| 0 <= i < journal.drop_last().len() implies (
        #[trigger] journal.drop_last()[i]) is BaseConfirmed by {
            assert(journal.drop_last()[i] == journal[i]);
        }
        nothing_written_is_hidden(journal.drop_last());
        assert(journal[journal.len() - 1] is BaseConfirmed);
    }
}

/// The metadata that an attempt changes, and how.
pub struct CommitBase {
    /// The metadata with the schema, the partition spec and the version that the commit needs.
    pub metadata: TableMetadata,
    /// The changes that led to it.
    pub updates: Vec<TableUpdate>,
    /// The partition spec that the files of the commit follow.
    pub partition_spec: PartitionSpec,
    /// The files that the commit removes.
    pub removed_data_file_paths: Vec<String>,
}

/// A snapshot whose manifests are written and which is not committed.
#[derive(Debug, PartialEq, Eq)]
pub struct PreparedSnapshot {
    pub requirements: Vec<TableRequirement>,
    pub updates: Vec<TableUpdate>,
}

/// The updates that a catalog is told of: those of the metadata, then those of the snapshot.
pub fn catalog_updates(base: &CommitBase, prepared: &PreparedSnapshot) -> (r: Vec<TableUpdate>)
    ensures
        views(r@) == views(base.updates@) + views(prepared.updates@),
{
    let mut r: Vec<TableUpdate> = Vec::new();
    assert(views(r@) =~= seq![]);
    push_updates(&mut r, &base.updates);
    push_updates(&mut r, &prepared.updates);
    assert(views(r@) =~= views(base.updates@) + views(prepared.updates@));
    r
}

fn push_updates(all: &mut Vec<TableUpdate>, updates: &Vec<TableUpdate>)
    ensures
        views(final(all)@) == views(old(all)@) + views(updates@),
{
    let ghost before: Seq<TableUpdateView> = views(all@);
    let mut i: usize = 0;
    assert(before + views(updates@.take(0)) =~= before);
    while i < updates.len()
        invariant
            i <= updates.len(),
            views(all@) == before + views(updates@.take(i as int)),
        decreases updates.len() - i,
    {
        let ghost earlier: Seq<TableUpdateView> = views(all@);
        let update = updates[i].copy();
        all.push(update);
        assert(views(all@) =~= earlier.push(update@));
        assert(views(all@) =~= before + views(updates@.take(i + 1)));
        i += 1;
    }
    assert(updates@.take(updates@.len() as int) =~= updates@);
}

/// The error of a row count that the result cannot hold.
pub open spec fn row_count_overflow() -> EngineErrorView {
    EngineErrorView::Execution(
        "Iceberg commit row count overflow: out of range integral type conversion attempted"@,
    )
}

/// The number of rows that a commit reports.
pub fn commit_count(row_count: u64) -> (r: Result<i64, EngineError>)
    ensures
        r is Ok <==> row_count <= i64::MAX,
        r matches Ok(count) ==> count == row_count,
        r matches Err(e) ==> e@ == row_count_overflow(),
{
    if row_count <= 0x7fff_ffff_ffff_ffff {
        Ok(row_count as i64)
    } else {
        Err(
            EngineError::Execution(
                String::from_str(
                    "Iceberg commit row count overflow: out of range integral type conversion attempted",
                ),
            ),
        )
    }
}

/// A number in decimal, with zeros before it up to five digits.
pub open spec fn five_digits(n: nat) -> Seq<char> {
    let digits = nat_text(n);
    if digits.len() >= 5 {
        digits
    } else {
        Seq::new((5 - digits.len()) as nat, |i: int| '0') + digits
    }
}

fn five_digit_text(n: u64) -> (r: String)
    ensures
        r@ == five_digits(n as nat),
{
    let digits = u64_text(n);
    let length: usize = digits.as_str().unicode_len();
    proof {
        reveal_strlit("");
        reveal_strlit("0");
        reveal_strlit("00");
        reveal_strlit("000");
        reveal_strlit("0000");
        reveal_strlit("00000");
    }
    let zeros = match length {
        0 => "00000",
        1 => "0000",
        2 => "000",
        3 => "00",
        4 => "0",
        _ => "",
    };
    let r = String::from_str(zeros).concat(digits.as_str());
    assert(r@ =~= five_digits(n as nat));
    r
}

/// The name of a metadata file of a version. One that readers are sent to by a catalog is unique.
pub open spec fn metadata_file(version: nat, uuid: Option<u128>, extension: Seq<char>) -> Seq<char> {
    match uuid {
        Some(uuid) => "metadata/"@ + five_digits(version) + "-"@
            + crate::identifier::uuid_chars(uuid) + extension,
        None => "metadata/v"@ + nat_text(version) + extension,
    }
}

/// The name of a metadata file of a version. One that readers are sent to by a catalog is unique.
pub fn metadata_file_name(version: u64, uuid: Option<u128>, extension: &str) -> (r: String)
    ensures
        r@ == metadata_file(version as nat, uuid, extension@),
{
    match uuid {
        Some(uuid) => String::from_str("metadata/").concat(
            five_digit_text(version).as_str(),
        ).concat("-").concat(crate::identifier::uuid_text(uuid).as_str()).concat(extension),
        None => String::from_str("metadata/v").concat(u64_text(version).as_str()).concat(
            extension,
        ),
    }
}

/// The text after the last slash.
pub open spec fn last_segment(text: Seq<char>) -> Seq<char>
    decreases text.len(),
{
    if text.len() == 0 || text.last() == '/' {
        seq![]
    } else {
        last_segment(text.drop_last()).push(text.last())
    }
}

/// The text after the last slash.
pub fn segment_after_slash(text: &str) -> (r: String)
    ensures
        r@ == last_segment(text@),
{
    let chars = crate::text::chars_of(text);
    let n: usize = chars.len();
    let mut start: usize = n;
    proof {
        assert(text@.take(n as int) =~= text@);
        assert(last_segment(text@) + text@.skip(n as int) =~= last_segment(text@));
    }
    while start > 0 && chars[start - 1] != '/'
        invariant
            start <= n,
            n == chars.len(),
            chars@ == text@,
            last_segment(text@) == last_segment(text@.take(start as int)) + text@.skip(
                start as int,
            ),
        decreases start,
    {
        proof {
            let shorter = text@.take(start - 1);
            assert(text@.take(start as int).drop_last() =~= shorter);
            assert(last_segment(text@.take(start as int)) == last_segment(shorter).push(
                text@[start - 1],
            ));
            assert(last_segment(text@) =~= last_segment(shorter) + text@.skip(start - 1));
        }
        start -= 1;
    }
    assert(last_segment(text@.take(start as int)) =~= seq![]);
    assert(last_segment(text@) =~= text@.skip(start as int));
    assert(text@.subrange(start as int, n as int) =~= text@.skip(start as int));
    let tail = text.substring_char(start, n);
    String::from_str(tail)
}

/// What the version hint of a table says: the name of the metadata file where it is unique, and
/// else the version.
pub open spec fn hint_text(unique: bool, file: Seq<char>, version: nat) -> Seq<char> {
    if unique {
        last_segment(file)
    } else {
        nat_text(version)
    }
}

/// What the version hint of a table says: the name of the metadata file where it is unique, and
/// else the version.
pub fn version_hint(unique: bool, file: &str, version: u64) -> (r: String)
    ensures
        r@ == hint_text(unique, file@, version as nat),
{
    if unique {
        segment_after_slash(file)
    } else {
        u64_text(version)
    }
}

} // verus!
