//! Which files of a table are live, and which of them an overwrite removes.
use vstd::prelude::*;
use vstd::string::*;

use crate::error::{not_implemented, plan_error, EngineError, EngineErrorView};
use crate::ordered::{increasing, sorted_distinct};
use crate::table::{
    partition_values, same_partition, DataContentType, DataFile, PartitionSpec, TableMetadata,
};
use crate::table_changes::current_snapshot;
use crate::text::{i64_text, int_text, texts};

verus! {

/// What a manifest says of a file.
#[derive(Debug, Clone, Copy, PartialEq, Eq, Structural)]
pub enum ManifestStatus {
    Existing,
    Added,
    Deleted,
}

/// An entry of a manifest.
#[derive(Debug, PartialEq, Eq)]
pub struct ManifestEntry {
    pub status: ManifestStatus,
    pub data_file: DataFile,
}

/// The file of the entry belongs to the snapshot.
pub open spec fn active(entry: ManifestEntry) -> bool {
    entry.status == ManifestStatus::Added || entry.status == ManifestStatus::Existing
}

/// The files that the entries of a manifest keep, as files of the manifest's partition spec.
pub open spec fn kept_files(entries: Seq<ManifestEntry>, partition_spec_id: i32) -> Seq<DataFile>
    decreases entries.len(),
{
    if entries.len() == 0 {
        seq![]
    } else {
        let earlier = kept_files(entries.drop_last(), partition_spec_id);
        if active(entries.last()) {
            earlier.push(DataFile { partition_spec_id, ..entries.last().data_file })
        } else {
            earlier
        }
    }
}

/// All files that the entries keep hold rows.
pub open spec fn only_data(entries: Seq<ManifestEntry>) -> bool {
    forall|i: int|
        0 <= i < entries.len() && active(#[trigger] entries[i]) ==> entries[i].data_file.content
            == DataContentType::Data
}

/// The live files of a snapshot, gathered manifest by manifest.
#[derive(Debug, PartialEq, Eq)]
pub struct LiveFiles {
    pub files: Vec<DataFile>,
}

impl LiveFiles {
    /// No files: what a table without a snapshot has.
    pub fn new() -> (r: Self)
        ensures
            r.files@ == Seq::<DataFile>::empty(),
    {
        LiveFiles { files: Vec::new() }
    }

    /// Adds the files that a manifest keeps. A live file of deletes cannot be dealt with.
    pub fn add_manifest(self, partition_spec_id: i32, entries: Vec<ManifestEntry>) -> (r: Result<
        Self,
        EngineError,
    >)
        ensures
            r is Ok <==> only_data(entries@),
            r matches Ok(live) ==> live.files@ == self.files@ + kept_files(
                entries@,
                partition_spec_id,
            ),
            r matches Err(e) ==> e@ == EngineErrorView::Plan(
                "copy-on-write scoped overwrite is not supported for Iceberg tables with active delete files"@,
            ),
    {
        let ghost before = self.files@;
        let ghost all = entries@;
        let mut files = self.files;
        assert(files@ =~= before + kept_files(all.take(0), partition_spec_id));
        for entry in iter: entries
            invariant
                all == iter.seq(),
                files@ == before + kept_files(all.take(iter.index() as int), partition_spec_id),
                only_data(all.take(iter.index() as int)),
        {
            let ghost i = iter.index() as int;
            proof {
                assert(entry == all[i]);
                assert(all.take(i + 1).drop_last() =~= all.take(i));
                assert(all.take(i + 1).last() == entry);
            }
            let kept: bool = match entry.status {
                ManifestStatus::Added => true,
                ManifestStatus::Existing => true,
                ManifestStatus::Deleted => false,
            };
            if kept {
                if !matches!(entry.data_file.content, DataContentType::Data) {
                    assert(active(all[i]));
                    return Err(
                        plan_error(
                            "copy-on-write scoped overwrite is not supported for Iceberg tables with active delete files",
                        ),
                    );
                }
                let mut file = entry.data_file;
                file.partition_spec_id = partition_spec_id;
                files.push(file);
                assert(files@ =~= before + kept_files(all.take(i + 1), partition_spec_id));
            }
            assert(only_data(all.take(i + 1))) by {
                assert forall|k: int|
                    0 <= k < i + 1 && active(#[trigger] all.take(i + 1)[k]) implies all.take(
                    i + 1,
                )[k].data_file.content == DataContentType::Data by {
                    if k < i {
                        assert(all.take(i)[k] == all[k]);
                    }
                }
            }
        }
        assert(all.take(all.len() as int) =~= all);
        Ok(LiveFiles { files })
    }
}

/// A manifest of a snapshot, and the partition spec of its files.
#[derive(Debug, PartialEq, Eq)]
pub struct ManifestFile {
    pub manifest_path: String,
    pub partition_spec_id: i32,
}

/// The files that manifests keep, from their entries, manifest by manifest.
pub open spec fn gathered(
    manifests: Seq<ManifestFile>,
    entries: Seq<Seq<ManifestEntry>>,
) -> Seq<DataFile>
    decreases entries.len(),
{
    if entries.len() == 0 {
        seq![]
    } else {
        gathered(manifests, entries.drop_last()) + kept_files(
            entries.last(),
            manifests[entries.len() - 1].partition_spec_id,
        )
    }
}

/// What is to be done next to gather the live files of a table.
pub enum LiveFilesStep {
    LoadManifestList(LoadManifestList),
    LoadManifest(LoadManifest),
    Done(Result<Vec<DataFile>, EngineError>),
}

impl LiveFilesStep {
    pub open spec fn wf(&self) -> bool {
        match self {
            LiveFilesStep::LoadManifest(s) => s.wf(),
            _ => true,
        }
    }
}

/// The list of the manifests of a snapshot is to be loaded.
pub struct LoadManifestList {
    pub location: String,
}

/// One manifest after the other is to be loaded.
pub struct LoadManifest {
    pub manifests: Vec<ManifestFile>,
    pub live: LiveFiles,
    /// How many of them are loaded.
    pub at: usize,
    /// Their entries.
    pub entries: Ghost<Seq<Seq<ManifestEntry>>>,
}

/// What comes next once so many manifests are loaded.
pub open spec fn walks_on(
    next: LiveFilesStep,
    manifests: Seq<ManifestFile>,
    entries: Seq<Seq<ManifestEntry>>,
) -> bool {
    if entries.len() < manifests.len() {
        next matches LiveFilesStep::LoadManifest(load) && load.manifests@ == manifests
            && load.entries@ == entries
    } else {
        next matches LiveFilesStep::Done(Ok(files)) && files@ == gathered(manifests, entries)
    }
}

fn walk_on(
    manifests: Vec<ManifestFile>,
    live: LiveFiles,
    at: usize,
    entries: Ghost<Seq<Seq<ManifestEntry>>>,
) -> (next: LiveFilesStep)
    requires
        at == entries@.len(),
        at <= manifests@.len(),
        live.files@ == gathered(manifests@, entries@),
    ensures
        next.wf(),
        walks_on(next, manifests@, entries@),
{
    if at < manifests.len() {
        LiveFilesStep::LoadManifest(LoadManifest { manifests, live, at, entries })
    } else {
        LiveFilesStep::Done(Ok(live.files))
    }
}

/// Begins to gather the live files of a table: those that the manifests of its current snapshot
/// keep, if it has one.
pub fn current_live_data_files(table_metadata: &TableMetadata) -> (next: LiveFilesStep)
    ensures
        next.wf(),
        match current_snapshot(table_metadata@) {
            Some(snapshot) => next matches LiveFilesStep::LoadManifestList(load)
                && load.location@ == snapshot.manifest_list,
            None => next matches LiveFilesStep::Done(Ok(files)) && files@ == Seq::<
                DataFile,
            >::empty(),
        },
{
    match table_metadata.current_snapshot() {
        Some(snapshot) => LiveFilesStep::LoadManifestList(
            LoadManifestList { location: snapshot.manifest_list.clone() },
        ),
        None => LiveFilesStep::Done(Ok(Vec::new())),
    }
}

impl LoadManifestList {
    pub fn loaded(self, reply: Result<Vec<ManifestFile>, EngineError>) -> (next: LiveFilesStep)
        ensures
            next.wf(),
            match reply {
                Ok(manifests) => walks_on(next, manifests@, seq![]),
                Err(e) => next == LiveFilesStep::Done(Err(e)),
            },
    {
        match reply {
            Ok(manifests) => walk_on(manifests, LiveFiles::new(), 0, Ghost(Seq::empty())),
            Err(error) => LiveFilesStep::Done(Err(error)),
        }
    }
}

impl LoadManifest {
    pub open spec fn wf(&self) -> bool {
        &&& self.at == self.entries@.len()
        &&& self.at < self.manifests@.len()
        &&& self.live.files@ == gathered(self.manifests@, self.entries@)
    }

    /// Where the manifest is that is to be loaded.
    pub fn location(&self) -> (r: &String)
        requires
            self.wf(),
        ensures
            *r == self.manifests@[self.entries@.len() as int].manifest_path,
    {
        &self.manifests[self.at].manifest_path
    }

    pub fn loaded(self, reply: Result<Vec<ManifestEntry>, EngineError>) -> (next: LiveFilesStep)
        requires
            self.wf(),
        ensures
            next.wf(),
            match reply {
                Ok(entries) => if only_data(entries@) {
                    walks_on(next, self.manifests@, self.entries@.push(entries@))
                } else {
                    next matches LiveFilesStep::Done(Err(e)) && e@ == EngineErrorView::Plan(
                        "copy-on-write scoped overwrite is not supported for Iceberg tables with active delete files"@,
                    )
                },
                Err(e) => next == LiveFilesStep::Done(Err(e)),
            },
    {
        let entries = match reply {
            Ok(entries) => entries,
            Err(error) => return LiveFilesStep::Done(Err(error)),
        };
        let ghost loaded = self.entries@.push(entries@);
        proof {
            assert(loaded.drop_last() =~= self.entries@);
        }
        let count: usize = self.manifests.len();
        assert(self.at < count);
        match self.live.add_manifest(self.manifests[self.at].partition_spec_id, entries) {
            Ok(live) => walk_on(self.manifests, live, self.at + 1, Ghost(loaded)),
            Err(error) => LiveFilesStep::Done(Err(error)),
        }
    }
}

/// A file belongs to a partition of this spec.
pub open spec fn fits_spec(file: DataFile, spec: PartitionSpec) -> bool {
    file.partition_spec_id == spec.spec_id && file.partition@.len() == spec.fields@.len()
}

/// All files belong to partitions of this spec.
pub open spec fn all_fit(files: Seq<DataFile>, spec: PartitionSpec) -> bool {
    forall|i: int| 0 <= i < files.len() ==> fits_spec(#[trigger] files[i], spec)
}

/// One of the added files is in the partition of this file.
pub open spec fn touched(added: Seq<DataFile>, file: DataFile) -> bool {
    exists|i: int|
        0 <= i < added.len() && partition_values((#[trigger] added[i]).partition@)
            == partition_values(file.partition@)
}

/// The path is that of a live file in one of the partitions that the added files are in.
pub open spec fn overwritten(added: Seq<DataFile>, live: Seq<DataFile>, path: Seq<char>) -> bool {
    exists|i: int|
        0 <= i < live.len() && (#[trigger] live[i]).file_path@ == path && touched(added, live[i])
}

fn fit(files: &[DataFile], spec: &PartitionSpec) -> (r: bool)
    ensures
        r == all_fit(files@, *spec),
{
    let mut i: usize = 0;
    while i < files.len()
        invariant
            i <= files.len(),
            forall|j: int| 0 <= j < i ==> fits_spec(#[trigger] files@[j], *spec),
        decreases files.len() - i,
    {
        if files[i].partition_spec_id != spec.spec_id || files[i].partition.len()
            != spec.fields.len() {
            assert(!fits_spec(files@[i as int], *spec));
            return false;
        }
        i += 1;
    }
    true
}

fn is_touched(added: &[DataFile], file: &DataFile) -> (r: bool)
    ensures
        r == touched(added@, *file),
{
    let mut i: usize = 0;
    while i < added.len()
        invariant
            i <= added.len(),
            forall|j: int|
                0 <= j < i ==> partition_values((#[trigger] added@[j]).partition@)
                    != partition_values(file.partition@),
        decreases added.len() - i,
    {
        if same_partition(&added[i].partition, &file.partition) {
            return true;
        }
        i += 1;
    }
    false
}

/// The live files that an overwrite of whole partitions removes: those in a partition that it adds
/// a file to. Their paths come in byte order, each once.
pub fn dynamic_partition_overwrite_paths(
    added_data_files: &[DataFile],
    live_data_files: &[DataFile],
    default_spec: &PartitionSpec,
) -> (r: Result<Vec<String>, EngineError>)
    ensures
        r is Ok <==> added_data_files@.len() == 0 || all_fit(added_data_files@, *default_spec)
            && all_fit(live_data_files@, *default_spec),
        r matches Ok(paths) ==> {
            &&& increasing(texts(paths@))
            &&& forall|path: Seq<char>| #[trigger]
                texts(paths@).contains(path) <==> overwritten(
                    added_data_files@,
                    live_data_files@,
                    path,
                )
        },
        r matches Err(e) ==> e@ == if all_fit(added_data_files@, *default_spec) {
            EngineErrorView::NotImplemented(
                "dynamic partition overwrite is not supported for Iceberg tables with incomparable live partition specs"@,
            )
        } else {
            EngineErrorView::Plan(
                "dynamic partition overwrite produced files that do not match the default Iceberg partition spec "@
                    + int_text(default_spec.spec_id as int),
            )
        },
{
    if added_data_files.len() == 0 {
        let paths: Vec<String> = Vec::new();
        assert(texts(paths@) =~= seq![]);
        assert forall|path: Seq<char>| !overwritten(
            added_data_files@,
            live_data_files@,
            path,
        ) by {
            assert(forall|file: DataFile| !touched(added_data_files@, file));
        }
        return Ok(paths);
    }
    if !fit(added_data_files, default_spec) {
        return Err(
            EngineError::Plan(
                String::from_str(
                    "dynamic partition overwrite produced files that do not match the default Iceberg partition spec ",
                ).concat(i64_text(default_spec.spec_id as i64).as_str()),
            ),
        );
    }
    if !fit(live_data_files, default_spec) {
        return Err(
            not_implemented(
                "dynamic partition overwrite is not supported for Iceberg tables with incomparable live partition specs",
            ),
        );
    }
    let mut paths: Vec<String> = Vec::new();
    let mut i: usize = 0;
    assert(texts(paths@) =~= seq![]);
    while i < live_data_files.len()
        invariant
            i <= live_data_files.len(),
            forall|path: Seq<char>| #[trigger]
                texts(paths@).contains(path) <==> overwritten(
                    added_data_files@,
                    live_data_files@.take(i as int),
                    path,
                ),
        decreases live_data_files.len() - i,
    {
        let ghost before = texts(paths@);
        let ghost shorter = live_data_files@.take(i as int);
        let ghost longer = live_data_files@.take(i + 1);
        let ghost own = live_data_files@[i as int].file_path@;
        let hit = is_touched(added_data_files, &live_data_files[i]);
        if hit {
            paths.push(live_data_files[i].file_path.clone());
            assert(texts(paths@) =~= before.push(own));
        }
        proof {
            assert forall|path: Seq<char>| #[trigger]
                texts(paths@).contains(path) <==> overwritten(added_data_files@, longer, path) by {
                assert(texts(paths@).contains(path) <==> before.contains(path) || (hit && path
                    == own)) by {
                    if hit {
                        if before.contains(path) {
                            let k = choose|k: int| 0 <= k < before.len() && before[k] == path;
                            assert(before.push(own)[k] == path);
                        }
                        assert(before.push(own)[before.len() as int] == own);
                    }
                }
                assert(overwritten(added_data_files@, longer, path) <==> overwritten(
                    added_data_files@,
                    shorter,
                    path,
                ) || (hit && path == own)) by {
                    if overwritten(added_data_files@, shorter, path) {
                        let k = choose|k: int|
                            0 <= k < shorter.len() && (#[trigger] shorter[k]).file_path@ == path
                                && touched(added_data_files@, shorter[k]);
                        assert(longer[k] == shorter[k]);
                    }
                    assert(longer[i as int] == live_data_files@[i as int]);
                    if overwritten(added_data_files@, longer, path) {
                        let k = choose|k: int|
                            0 <= k < longer.len() && (#[trigger] longer[k]).file_path@ == path
                                && touched(added_data_files@, longer[k]);
                        if k < i {
                            assert(longer[k] == shorter[k]);
                        }
                    }
                }
            }
        }
        i += 1;
    }
    assert(live_data_files@.take(live_data_files@.len() as int) =~= live_data_files@);
    Ok(sorted_distinct(&paths))
}

/// A live file in a partition that no added file is in stays, unless another file with its path
/// goes.
pub proof fn untouched_partitions_stay(
    added: Seq<DataFile>,
    live: Seq<DataFile>,
    file: DataFile,
)
    requires
        !touched(added, file),
        forall|i: int|
            0 <= i < live.len() && (#[trigger] live[i]).file_path@ == file.file_path@
                ==> partition_values(live[i].partition@) == partition_values(file.partition@),
    ensures
        !overwritten(added, live, file.file_path@),
{
}

} // verus!
