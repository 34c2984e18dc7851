use std::collections::BTreeMap;

use sail_iceberg::commit_exec::{IcebergCommitExec, ReadStep, WriterActions};
use sail_iceberg::commit_run::{
    read_current, AskCatalog, CatalogCommitOutcome, CurrentStep, LocatedMetadata, NewTableMetadataStyle, PersistStrategy, PutOutcome, Step,
};
use sail_iceberg::commit_state::{
    catalog_updates, CatalogCommitMode, CatalogTableInfo, CommitRun, PreparedSnapshot,
};
use sail_iceberg::error::{publication_state_is_unknown, EngineError, ExternalSource};
use sail_iceberg::live_files::{
    current_live_data_files, LiveFilesStep, ManifestEntry, ManifestFile, ManifestStatus,
};
use sail_iceberg::table::{
    CommitMeta, DataContentType, DataFile, FormatVersion, LakehouseExecutionContext,
    PartitionSpec, Schema, Snapshot, SnapshotReference, SnapshotUpdateKind, TableMetadata,
    TableRequirement, TableUpdate,
};
use sail_iceberg::task_files::{begin_cleanup, CleanupStep, DeleteOutcome, ResolvedPath};
use sail_iceberg::text_map::TextMap;

const NEW_SNAPSHOT: i64 = 99;

const FILESYSTEM: CatalogCommitMode = CatalogCommitMode {
    uses_catalog_metadata: false,
    uses_catalog_commit: false,
    uses_metadata_location_update: false,
    is_filesystem: true,
    is_compatibility: false,
};

const POINTER: CatalogCommitMode = CatalogCommitMode {
    uses_catalog_metadata: true,
    uses_catalog_commit: false,
    uses_metadata_location_update: true,
    is_filesystem: false,
    is_compatibility: false,
};

const CATALOG: CatalogCommitMode = CatalogCommitMode {
    uses_catalog_metadata: true,
    uses_catalog_commit: true,
    uses_metadata_location_update: false,
    is_filesystem: false,
    is_compatibility: false,
};

const COMPATIBILITY: CatalogCommitMode = CatalogCommitMode {
    uses_catalog_metadata: true,
    uses_catalog_commit: true,
    uses_metadata_location_update: false,
    is_filesystem: false,
    is_compatibility: true,
};

#[derive(Clone, Copy, PartialEq, Eq)]
enum Race {
    Never,
    MetadataRead,
    BeforeCandidateCreate,
    AfterCandidateCreate,
    Always,
}

/// A store and a catalog in memory. The content of a metadata file is the ID of its snapshot.
struct World {
    objects: BTreeMap<String, String>,
    pointer: Option<String>,
    mode: CatalogCommitMode,
    race: Race,
    raced: bool,
    /// What another commit writes when it gets in between: a metadata file and its snapshot.
    concurrent: (String, i64),
    failed_delete: Option<String>,
    pointer_error: Option<ExternalSource>,
    catalog_reply: Option<Result<CatalogCommitOutcome, EngineError>>,
    hint: Option<String>,
    format_version: FormatVersion,
    live: Vec<(i32, Vec<ManifestEntry>)>,
    recorded: Vec<(Option<String>, String)>,
    removed: Vec<String>,
    told: Vec<TableUpdate>,
    attempts: usize,
    extension: &'static str,
    schema_id: i32,
    failing: Vec<&'static str>,
    put: Vec<Vec<u8>>,
    moved: Vec<Option<String>>,
    object_paths: Vec<String>,
}

impl World {
    fn new(mode: CatalogCommitMode) -> Self {
        World {
            objects: BTreeMap::new(),
            pointer: None,
            mode,
            race: Race::Never,
            raced: false,
            concurrent: ("metadata/v2.metadata.json".to_string(), 23),
            failed_delete: None,
            pointer_error: None,
            catalog_reply: None,
            hint: None,
            format_version: FormatVersion::V2,
            live: Vec::new(),
            recorded: Vec::new(),
            removed: Vec::new(),
            told: Vec::new(),
            attempts: 0,
            extension: ".metadata.json",
            schema_id: 1,
            failing: Vec::new(),
            put: Vec::new(),
            moved: Vec::new(),
            object_paths: Vec::new(),
        }
    }

    fn with(mut self, path: &str, content: &str) -> Self {
        self.objects.insert(path.to_string(), content.to_string());
        self
    }

    fn race_here(&mut self, point: Race) {
        if self.race == Race::Always || (self.race == point && !self.raced) {
            self.raced = true;
            let (file, snapshot) = self.concurrent.clone();
            self.objects.insert(file.clone(), snapshot.to_string());
            if self.pointer.is_some() {
                self.pointer = Some(format!("memory:///table/{file}"));
            } else {
                self.hint = Some("2".to_string());
            }
        }
    }

    fn latest(&self) -> Result<String, EngineError> {
        match &self.pointer {
            Some(location) => Ok(location.trim_start_matches("memory:///table/").to_string()),
            None => self
                .objects
                .keys()
                .filter(|key| key.starts_with("metadata/"))
                .next_back()
                .cloned()
                .ok_or_else(|| EngineError::Plan("no metadata".to_string())),
        }
    }

    fn load(&self, file: &str) -> Result<TableMetadata, EngineError> {
        let content = self
            .objects
            .get(file)
            .ok_or_else(|| EngineError::Execution(format!("{file} is gone")))?;
        let id = content.parse::<i64>().ok();
        let mut metadata = table_metadata_at_snapshot(id);
        metadata.format_version = self.format_version;
        metadata.last_sequence_number = 1;
        metadata.last_updated_ms = 123;
        metadata.schemas = vec![schema(self.schema_id, FormatVersion::V2)];
        metadata.current_schema_id = self.schema_id;
        metadata.partition_specs = vec![PartitionSpec {
            spec_id: 1,
            fields: vec![],
            last_assigned_field_id: 999,
        }];
        metadata.default_spec_id = 1;
        if let Some(id) = id {
            metadata.snapshots = vec![snapshot(id, 1)];
        }
        Ok(metadata)
    }

    fn authoritative(&self, run: &CommitRun) -> Result<(String, TableMetadata), EngineError> {
        let mut step = read_current(run);
        loop {
            step = match step {
                CurrentStep::Done(result) => return result,
                CurrentStep::AskCatalog(s) => s.answered(Ok(self.pointer.clone())),
                CurrentStep::FindAt(s) => {
                    let location = s.location.clone().expect("location");
                    s.found(Ok(location.trim_start_matches("memory:///table/").to_string()))
                }
                CurrentStep::FindLatest(s) => s.found(self.latest()),
                CurrentStep::ReadFile(s) => {
                    let loaded = self.load(&s.file);
                    s.read(loaded)
                }
            };
        }
    }

    fn live_files(&mut self, metadata: &TableMetadata) -> Result<Vec<DataFile>, EngineError> {
        let mut manifests = std::mem::take(&mut self.live);
        let mut step = current_live_data_files(metadata);
        loop {
            step = match step {
                LiveFilesStep::Done(result) => return result,
                LiveFilesStep::LoadManifestList(s) => {
                    let list = manifests
                        .iter()
                        .enumerate()
                        .map(|(index, (spec_id, _))| ManifestFile {
                            manifest_path: index.to_string(),
                            partition_spec_id: *spec_id,
                        })
                        .collect();
                    s.loaded(Ok(list))
                }
                LiveFilesStep::LoadManifest(s) => {
                    let index: usize = s.location().parse().expect("index");
                    let entries = std::mem::take(&mut manifests[index].1);
                    s.loaded(Ok(entries))
                }
            };
        }
    }

    fn version(file: &str) -> Option<u32> {
        let name = file.rsplit('/').next()?;
        let digits: String =
            name.trim_start_matches('v').chars().take_while(|c| c.is_ascii_digit()).collect();
        digits.parse().ok()
    }

    fn version_files(&self, version: u32) -> Vec<String> {
        self.objects
            .keys()
            .filter(|key| key.starts_with("metadata/") && Self::version(key) == Some(version))
            .cloned()
            .collect()
    }

    fn delete(&mut self, path: &str) -> DeleteOutcome {
        if self.failed_delete.as_deref() == Some(path) {
            DeleteOutcome::Failed("injected metadata deletion failure".to_string())
        } else if self.objects.remove(path).is_some() {
            DeleteOutcome::Deleted
        } else {
            DeleteOutcome::NotFound
        }
    }

    fn clean_task_files(&mut self, paths: &Vec<String>) -> Result<(), EngineError> {
        let mut step = begin_cleanup(paths);
        loop {
            step = match step {
                CleanupStep::Resolve(s) => {
                    let target = match s.path().strip_prefix("file:///") {
                        Some("nowhere") => ResolvedPath::Unresolved("no such store".to_string()),
                        Some(rest) => ResolvedPath::Base(rest.to_string()),
                        None => ResolvedPath::Prefixed(s.path().clone()),
                    };
                    s.resolved(target)
                }
                CleanupStep::Delete(s) => {
                    let base = s.plan.base_paths.iter().map(|path| self.delete(path)).collect();
                    let prefixed =
                        s.plan.prefixed_paths.iter().map(|path| self.delete(path)).collect();
                    return s.deleted(base, prefixed);
                }
            };
        }
    }

    fn move_pointer(&mut self, previous: Option<&String>, to: &str) -> Result<(), EngineError> {
        if let Some(source) = self.pointer_error.take() {
            return Err(EngineError::External(source));
        }
        if self.pointer.as_ref() != previous {
            return Err(EngineError::External(ExternalSource::CatalogConflict("moved".to_string())));
        }
        self.pointer = Some(to.to_string());
        Ok(())
    }

    fn unless_failing<T>(&self, what: &'static str, value: T) -> Result<T, EngineError> {
        match self.failing.contains(&what) {
            true => Err(EngineError::Execution(what.to_string())),
            false => Ok(value),
        }
    }

    fn prepare(&mut self) -> PreparedSnapshot {
        self.objects.insert("manifests/new".to_string(), "manifest".to_string());
        PreparedSnapshot {
            requirements: vec![],
            updates: vec![
                TableUpdate::AddSnapshot { snapshot: snapshot(NEW_SNAPSHOT, 2) },
                TableUpdate::SetSnapshotRef {
                    ref_name: "main".to_string(),
                    reference: SnapshotReference {
                        snapshot_id: NEW_SNAPSHOT,
                        retention: String::new(),
                    },
                },
            ],
        }
    }

    fn run(
        &mut self,
        commit: &IcebergCommitExec<()>,
        actions: Vec<WriterActions>,
    ) -> Result<i64, EngineError> {
        let mut input = commit.execute(0, 1)?;
        for batch in actions {
            input = match input.decoded(Ok(batch)) {
                ReadStep::More(input) => input,
                ReadStep::Abandon(abandon) => {
                    let cleaned = self.clean_task_files(&abandon.paths);
                    return Err(abandon.cleaned(cleaned));
                }
            };
        }
        let mut step = input.end();
        loop {
            step = match step {
                Step::Done(done) => return done.result,
                Step::CleanTaskFiles(s) => {
                    let cleaned = self.clean_task_files(&s.paths);
                    Step::Done(s.cleaned(cleaned))
                }
                Step::LoadCatalogTable(s) => {
                    let info = CatalogTableInfo {
                        metadata_location: self.pointer.clone(),
                        is_catalog_managed_iceberg_table: true,
                    };
                    s.loaded(Ok(info))
                }
                Step::ResolveMode(s) => {
                    let property = s
                        .plan
                        .info
                        .table_properties
                        .iter()
                        .find(|(key, _)| key == "metadata-location")
                        .map(|(_, value)| value.clone());
                    let mode = self.mode;
                    let unpartitioned =
                        PartitionSpec { spec_id: 0, fields: vec![], last_assigned_field_id: 999 };
                    s.resolved(mode, property, unpartitioned)
                }
                Step::Locate(s) => {
                    self.attempts = s.run.attempt;
                    let found = match &s.run.location {
                        Some(location) => {
                            Ok(location.trim_start_matches("memory:///table/").to_string())
                        }
                        None => self.latest(),
                    };
                    s.located(
                        found.map(|file| LocatedMetadata { version: Self::version(&file), file }),
                    )
                }
                Step::ReloadLocation(s) => s.reloaded(Ok(self.pointer.clone())),
                Step::BootstrapTable(s) => {
                    let file = match s.style {
                        NewTableMetadataStyle::Uuid => "metadata/00001-new.metadata.json",
                        NewTableMetadataStyle::Hadoop => "metadata/v1.metadata.json",
                    };
                    self.objects.insert(file.to_string(), NEW_SNAPSHOT.to_string());
                    s.bootstrapped(Ok(file.to_string()))
                }
                Step::NameBootstrap(s) => {
                    let location = format!("memory:///table/{}", s.metadata_file);
                    s.named(Ok(location))
                }
                Step::MoveBootstrapPointer(s) => {
                    let reply = self.move_pointer(s.previous_location(), &s.location);
                    s.moved(reply)
                }
                Step::CleanBootstrap(s) => {
                    self.objects.retain(|path, _| !path.contains("-new"));
                    s.cleaned(Ok(()))
                }
                Step::LoadMetadata(s) => {
                    let loaded = self.load(&s.run.latest);
                    self.race_here(Race::MetadataRead);
                    s.loaded(loaded)
                }
                Step::ConfirmUnchanged(s) => {
                    let current = self.authoritative(&s.run);
                    s.loaded(current)
                }
                Step::LoadLiveFiles(s) => {
                    let live = self.live_files(&s.metadata);
                    s.loaded(live)
                }
                Step::PrepareFirstSnapshot(s) => s.prepared(Ok(self.prepare())),
                Step::ListVersion(s) => {
                    let version = s.run.latest_version.unwrap_or(0) + 1;
                    s.listed(Ok(self.version_files(version)))
                }
                Step::PrepareSnapshot(s) => {
                    self.removed = s.base.removed_data_file_paths.clone();
                    s.prepared(Ok(self.prepare()))
                }
                Step::CommitToCatalog(s) => {
                    self.told = catalog_updates(&s.base, &s.prepared);
                    let reply = match self.catalog_reply.take() {
                        Some(reply) => reply,
                        None => Ok(CatalogCommitOutcome::Committed),
                    };
                    s.committed(reply)
                }
                Step::CleanPrepared(s) => {
                    self.objects.remove("manifests/new");
                    s.cleaned(Ok(()))
                }
                Step::CleanPreparedAfter(s) => {
                    self.objects.remove("manifests/new");
                    let error = s.error.clone();
                    s.cleaned(error)
                }
                Step::ConfirmFirst(s) => {
                    let current = self.authoritative(&s.run);
                    s.loaded(current)
                }
                Step::BootstrapFirst(s) => {
                    let file = match s.strategy() {
                        PersistStrategy::NewUuidVersion => "metadata/00002-new.metadata.json",
                        PersistStrategy::NewVersion => "metadata/v2.metadata.json",
                    };
                    self.objects.insert(file.to_string(), NEW_SNAPSHOT.to_string());
                    s.bootstrapped(Ok(file.to_string()))
                }
                Step::NameRegistered(s) => {
                    let location = format!("memory:///table/{}", s.metadata_file);
                    s.named(Ok(location))
                }
                Step::Register(s) => {
                    self.recorded.push((s.previous_location().cloned(), s.location.clone()));
                    s.registered(Ok(()))
                }
                Step::StampUpdates(s) => s.stamped(456),
                Step::SerializeMetadata(s) => {
                    let id = s.new.metadata.current_snapshot_id.map(|id| id.to_string());
                    let json = id.unwrap_or_default().into_bytes();
                    s.serialized(self.unless_failing("serialise", json))
                }
                Step::NameMetadata(s) => {
                    let extension = self.extension.to_string();
                    s.named(self.unless_failing("extension", extension))
                }
                Step::LocateNewFile(s) => {
                    let location = format!("memory:///table/{}", s.file);
                    s.located(self.unless_failing("location", location))
                }
                Step::EncodeMetadata(s) => {
                    let bytes = s.json.clone();
                    s.encoded(self.unless_failing("encode", bytes))
                }
                Step::ConfirmPublish(s) => {
                    let current = self.authoritative(&s.run);
                    s.loaded(current)
                }
                Step::PutMetadata(s) => {
                    self.object_paths.push(s.object_path());
                    self.race_here(Race::BeforeCandidateCreate);
                    if self.objects.contains_key(&s.encoded.file) {
                        s.put(PutOutcome::AlreadyExists)
                    } else {
                        let content = String::from_utf8(s.encoded.bytes.clone()).expect("text");
                        self.put.push(s.encoded.bytes.clone());
                        self.objects.insert(s.encoded.file.clone(), content);
                        self.race_here(Race::AfterCandidateCreate);
                        s.put(PutOutcome::Created)
                    }
                }
                Step::ListAfterPut(s) => {
                    let version = s.run.latest_version.unwrap_or(0) + 1;
                    let files = match self.mode.uses_metadata_location_update {
                        // Unique files of one version are told apart by the pointer alone.
                        true => vec![s.file.clone()],
                        false => self.version_files(version),
                    };
                    s.listed(Ok(files))
                }
                Step::MovePointer(s) => {
                    self.moved.push(s.previous_location().cloned());
                    let reply = self.move_pointer(s.previous_location(), &s.location);
                    s.moved(reply)
                }
                Step::DeleteCandidate(s) => {
                    self.object_paths.push(s.object_path());
                    let outcome = self.delete(&s.file);
                    s.deleted(outcome)
                }
                Step::WriteHint(s) => {
                    self.hint = Some(s.hint());
                    s.written()
                }
            };
        }
    }
}

fn snapshot(id: i64, sequence_number: i64) -> Snapshot {
    Snapshot {
        snapshot_id: id,
        sequence_number,
        added_rows: None,
        manifest_list: String::new(),
        details: String::new(),
    }
}

fn schema(schema_id: i32, format_version: FormatVersion) -> Schema {
    Schema { schema_id, highest_field_id: 1, format_version, definition: "id: int".to_string() }
}

fn table_metadata_at_snapshot(snapshot_id: Option<i64>) -> TableMetadata {
    TableMetadata {
        format_version: FormatVersion::V2,
        table_uuid: None,
        last_sequence_number: 2,
        last_updated_ms: 0,
        last_column_id: 0,
        schemas: vec![],
        current_schema_id: 0,
        partition_specs: vec![],
        default_spec_id: 0,
        last_partition_id: 0,
        current_snapshot_id: snapshot_id,
        snapshots: vec![],
        snapshot_log: vec![],
        metadata_log: vec![],
        default_sort_order_id: None,
        properties: TextMap::new(),
        refs: TextMap::new(),
    }
}

fn data_file(path: &str) -> DataFile {
    DataFile {
        content: DataContentType::Data,
        file_path: path.to_string(),
        partition_spec_id: 1,
        partition: vec![],
        record_count: 1,
        file_size_in_bytes: 9,
        sort_order_id: None,
        details: String::new(),
    }
}

fn commit_meta(row_count: u64) -> CommitMeta {
    CommitMeta {
        table_uri: "memory:///table/".to_string(),
        row_count,
        requirements: vec![],
        table_properties: vec![],
        lakehouse_table: None,
        schema: None,
        partition_spec: None,
    }
}

fn append(paths: &[&str], row_count: u64) -> Vec<WriterActions> {
    vec![WriterActions {
        data_files: paths.iter().map(|path| data_file(path)).collect(),
        delete_files: vec![],
        meta: Some(commit_meta(row_count)),
    }]
}

fn validation_only_delete_input() -> Vec<WriterActions> {
    append(&[], 0)
}

fn lakehouse() -> LakehouseExecutionContext {
    LakehouseExecutionContext {
        catalog_table: vec!["db".to_string(), "items".to_string()],
        details: String::new(),
    }
}

fn commit(kind: SnapshotUpdateKind, in_catalog: bool) -> IcebergCommitExec<()> {
    let table = if in_catalog { Some(lakehouse()) } else { None };
    IcebergCommitExec::new((), "memory:///table/".to_string(), table, kind)
}

#[test]
fn scoped_overwrite_execute_rechecks_format_after_schema_evolution() {
    let mut world = World::new(FILESYSTEM).with("metadata/v1.metadata.json", "");
    let mut meta = commit_meta(0);
    meta.table_properties = vec![("format-version".to_string(), "2".to_string())];
    world.schema_id = 0;
    meta.schema = Some(schema(1, FormatVersion::V3));
    let actions =
        vec![WriterActions { data_files: vec![], delete_files: vec![], meta: Some(meta) }];
    let commit = commit(SnapshotUpdateKind::CopyOnWrite, false)
        .with_removed_data_file_paths(vec!["old.parquet".to_string()]);
    let error = world.run(&commit, actions).expect_err("effective v3 scoped overwrite must fail");
    assert!(error.message().contains("v3 scoped overwrite"));
    assert_eq!(world.objects.len(), 1);
}

#[test]
fn validation_only_delete_rejects_stale_snapshot_and_writes_no_metadata() {
    let mut world = World::new(FILESYSTEM).with("metadata/v1.metadata.json", "2");
    let before = world.objects.clone();
    let stale = commit(SnapshotUpdateKind::CopyOnWriteDelete, false)
        .with_caller_expected_snapshot_id(Some(1));
    let error = world
        .run(&stale, validation_only_delete_input())
        .expect_err("advanced snapshot must reject a validation-only delete");
    assert!(error.message().contains("expected snapshot Some(1)"));
    assert!(error.message().contains("found Some(2)"));

    let current = commit(SnapshotUpdateKind::CopyOnWriteDelete, false)
        .with_caller_expected_snapshot_id(Some(2));
    assert_eq!(world.run(&current, validation_only_delete_input()), Ok(0));
    assert_eq!(world.objects, before);
}

#[test]
fn validation_only_delete_rejects_head_advanced_during_metadata_read() {
    let mut world = World::new(FILESYSTEM).with("metadata/v1.metadata.json", "17");
    world.race = Race::MetadataRead;
    let mut expected = world.objects.clone();
    expected.insert("metadata/v2.metadata.json".to_string(), "23".to_string());
    let commit = commit(SnapshotUpdateKind::CopyOnWriteDelete, false)
        .with_caller_expected_snapshot_id(Some(17));
    let error = world
        .run(&commit, validation_only_delete_input())
        .expect_err("head advanced during validation-only execution must fail");
    assert!(error.message().contains("expected snapshot Some(17)"));
    assert!(error.message().contains("found Some(23)"));
    assert!(world.raced);
    assert_eq!(world.objects, expected);
}

#[test]
fn catalog_validation_only_delete_rejects_head_advanced_during_metadata_read() {
    let mut world = World::new(POINTER)
        .with("metadata/v1.metadata.json", "17")
        .with("metadata/v2.metadata.json", "23");
    world.pointer = Some("memory:///table/metadata/v1.metadata.json".to_string());
    world.race = Race::MetadataRead;
    let before = world.objects.clone();
    let commit = commit(SnapshotUpdateKind::CopyOnWriteDelete, true)
        .with_caller_expected_snapshot_id(Some(17));
    let error = world
        .run(&commit, validation_only_delete_input())
        .expect_err("catalog head advanced during validation-only execution must fail");
    assert!(error.message().contains("expected snapshot Some(17)"));
    assert!(error.message().contains("found Some(23)"));
    assert!(world.raced);
    assert_eq!(world.objects, before);
    assert_eq!(world.pointer.as_deref(), Some("memory:///table/metadata/v2.metadata.json"));
}

#[test]
fn cleanup_removes_absolute_and_relative_task_files() {
    let mut world = World::new(FILESYSTEM)
        .with("tmp/table/data/absolute.parquet", "absolute")
        .with("data/relative.parquet", "relative");
    world
        .clean_task_files(&vec![
            "file:///tmp/table/data/absolute.parquet".to_string(),
            "data/relative.parquet".to_string(),
        ])
        .expect("clean up task files");
    assert!(world.objects.is_empty());
}

#[test]
fn caller_expected_snapshot_race_preserves_concurrent_filesystem_commit() {
    let mut world = World::new(FILESYSTEM)
        .with("metadata/v1.metadata.json", "17")
        .with("data/concurrent.parquet", "rows");
    let mut expected = world.objects.clone();
    expected.insert("metadata/v2.metadata.json".to_string(), "23".to_string());
    world.objects.insert("data/task.parquet".to_string(), "task-data".to_string());
    world.race = Race::BeforeCandidateCreate;
    let commit = commit(SnapshotUpdateKind::FastAppend, false)
        .with_caller_expected_snapshot_id(Some(17));
    let error = world
        .run(&commit, append(&["data/task.parquet"], 1))
        .expect_err("concurrent head must reject the caller expectation");
    assert!(error.message().contains("expected snapshot Some(17)"));
    assert!(error.message().contains("found Some(23)"));
    assert!(world.raced);
    assert_eq!(world.objects, expected);
    assert_eq!(world.hint.as_deref(), Some("2"));
}

#[test]
fn metadata_cleanup_failure_preserves_unknown_publication_state() {
    let mut world = World::new(FILESYSTEM)
        .with("metadata/v1.metadata.json", "17")
        .with("data/task.parquet", "task-data");
    world.race = Race::AfterCandidateCreate;
    world.concurrent = ("metadata/00002-concurrent.metadata.json".to_string(), 23);
    world.failed_delete = Some("metadata/v2.metadata.json".to_string());
    let commit = commit(SnapshotUpdateKind::FastAppend, false)
        .with_caller_expected_snapshot_id(Some(17));
    let error = world
        .run(&commit, append(&["data/task.parquet"], 1))
        .expect_err("metadata cleanup failure makes publication state unknown");
    assert!(publication_state_is_unknown(&error));
    assert!(error.message().contains("injected metadata deletion failure"));
    assert_eq!(
        error.message(),
        "External error: Iceberg publication state is unknown: failed to remove candidate metadata metadata/v2.metadata.json; metadata, manifests and task data were retained: injected metadata deletion failure"
    );
    assert!(world.raced);
    let kept: Vec<&str> = world.objects.keys().map(|key| key.as_str()).collect();
    assert_eq!(
        kept,
        vec![
            "data/task.parquet",
            "manifests/new",
            "metadata/00002-concurrent.metadata.json",
            "metadata/v1.metadata.json",
            "metadata/v2.metadata.json",
        ]
    );
    assert_eq!(world.objects["metadata/v2.metadata.json"], NEW_SNAPSHOT.to_string());
}

#[test]
fn task_cleanup_failure_is_returned_and_retains_the_failed_file() {
    let mut world = World::new(FILESYSTEM).with("tmp/task-cleanup-failure/data/task.parquet", "t");
    world.failed_delete = Some("tmp/task-cleanup-failure/data/task.parquet".to_string());
    let error = world
        .clean_task_files(&vec!["file:///tmp/task-cleanup-failure/data/task.parquet".to_string()])
        .expect_err("task cleanup failure must be surfaced");
    assert!(error.message().contains("injected metadata deletion failure"));
    assert_eq!(
        error.message(),
        "Execution error: failed to clean uncommitted Iceberg task files: Execution error: injected metadata deletion failure"
    );
    assert_eq!(world.objects.len(), 1);
}

#[test]
fn caller_expected_snapshot_race_cleans_metadata_location_cas_attempt() {
    let mut world = World::new(POINTER)
        .with("metadata/00001-a.metadata.json", "17")
        .with("metadata/00002-b.metadata.json", "23");
    world.pointer = Some("memory:///table/metadata/00001-a.metadata.json".to_string());
    world.concurrent = ("metadata/00002-b.metadata.json".to_string(), 23);
    world.race = Race::AfterCandidateCreate;
    // The files of the next version are told apart by the pointer: start without the other one.
    let other = world.objects.remove("metadata/00002-b.metadata.json").expect("other");
    let mut expected = world.objects.clone();
    expected.insert("metadata/00002-b.metadata.json".to_string(), other);
    world.objects.insert("data/task.parquet".to_string(), "task-data".to_string());
    let commit = commit(SnapshotUpdateKind::FastAppend, true)
        .with_caller_expected_snapshot_id(Some(17));
    let mut actions = append(&["data/task.parquet"], 1);
    if let Some(meta) = actions[0].meta.as_mut() {
        meta.lakehouse_table = Some(lakehouse());
        meta.table_properties = vec![(
            "metadata-location".to_string(),
            "memory:///table/metadata/00001-a.metadata.json".to_string(),
        )];
    }
    let error = world
        .run(&commit, actions)
        .expect_err("metadata-location race must reject the caller expectation");
    assert!(error.message().contains("expected snapshot Some(17)"));
    assert!(error.message().contains("found Some(23)"));
    assert!(world.raced);
    assert_eq!(world.objects, expected);
    assert_eq!(world.pointer.as_deref(), Some("memory:///table/metadata/00002-b.metadata.json"));
}

#[test]
fn append_to_a_path_table_is_published_as_the_next_version() {
    let mut world = World::new(FILESYSTEM)
        .with("metadata/v1.metadata.json", "17")
        .with("data/a.parquet", "rows");
    let commit = commit(SnapshotUpdateKind::FastAppend, true);
    assert_eq!(world.run(&commit, append(&["data/a.parquet"], 3)), Ok(3));
    assert_eq!(world.objects["metadata/v2.metadata.json"], NEW_SNAPSHOT.to_string());
    assert_eq!(world.hint.as_deref(), Some("2"));
    assert!(world.objects.contains_key("data/a.parquet"));
    assert_eq!(
        world.recorded,
        vec![(None, "memory:///table/metadata/v2.metadata.json".to_string())]
    );
}

#[test]
fn append_moves_the_pointer_to_a_unique_file() {
    let mut world = World::new(POINTER).with("metadata/00007-a.metadata.json", "17");
    world.pointer = Some("memory:///table/metadata/00007-a.metadata.json".to_string());
    let commit = commit(SnapshotUpdateKind::FastAppend, true);
    assert_eq!(world.run(&commit, append(&["data/a.parquet"], 3)), Ok(3));
    let pointer = world.pointer.clone().expect("pointer");
    let name = pointer.trim_start_matches("memory:///table/metadata/");
    assert_eq!(world.hint.as_deref(), Some(name));
    let uuid = name
        .trim_start_matches("00008-")
        .trim_end_matches(".metadata.json")
        .to_string();
    let groups: Vec<usize> = uuid.split('-').map(|group| group.len()).collect();
    assert_eq!(groups, vec![8, 4, 4, 4, 12]);
    assert_eq!(uuid.as_bytes()[14], b'4');
    assert!(uuid.chars().all(|c| c == '-' || c.is_ascii_digit() || ('a'..='f').contains(&c)));
    assert!(world.recorded.is_empty());
}

#[test]
fn new_tables_are_bootstrapped_in_the_style_of_their_mode() {
    let mut by_path = World::new(FILESYSTEM);
    let append_commit = commit(SnapshotUpdateKind::FastAppend, false);
    assert_eq!(by_path.run(&append_commit, append(&["data/a.parquet"], 3)), Ok(3));
    assert!(by_path.objects.contains_key("metadata/v1.metadata.json"));

    let mut by_pointer = World::new(POINTER);
    let in_catalog = commit(SnapshotUpdateKind::FastAppend, true);
    assert_eq!(by_pointer.run(&in_catalog, append(&["data/a.parquet"], 3)), Ok(3));
    assert_eq!(
        by_pointer.pointer.as_deref(),
        Some("memory:///table/metadata/00001-new.metadata.json")
    );

    let mut by_catalog = World::new(CATALOG).with("data/a.parquet", "rows");
    let error = by_catalog
        .run(&in_catalog, append(&["data/a.parquet"], 3))
        .expect_err("a catalog in charge must know the table");
    assert_eq!(
        error.message(),
        "Error during planning: missing Iceberg metadata for catalog-authoritative table"
    );
    assert!(by_catalog.objects.is_empty());
}

#[test]
fn conflict_while_a_new_table_is_registered_removes_it_again() {
    let mut world = World::new(POINTER).with("data/a.parquet", "rows");
    world.pointer_error = Some(ExternalSource::CatalogConflict("taken".to_string()));
    let in_catalog = commit(SnapshotUpdateKind::FastAppend, true);
    let error = world.run(&in_catalog, append(&["data/a.parquet"], 3)).expect_err("conflict");
    assert_eq!(
        error.message(),
        "Execution error: Iceberg commit failed after 5 retries due to concurrent metadata updates"
    );
    assert!(world.objects.is_empty());
}

#[test]
fn unknown_pointer_state_keeps_everything() {
    let mut world = World::new(POINTER)
        .with("metadata/00001-a.metadata.json", "17")
        .with("data/a.parquet", "rows");
    world.pointer = Some("memory:///table/metadata/00001-a.metadata.json".to_string());
    world.pointer_error = Some(ExternalSource::CatalogCommitStateUnknown("timeout".to_string()));
    let in_catalog = commit(SnapshotUpdateKind::FastAppend, true);
    let error = world.run(&in_catalog, append(&["data/a.parquet"], 3)).expect_err("unknown");
    assert!(publication_state_is_unknown(&error));
    assert_eq!(world.objects.len(), 4);
    assert!(world.objects.contains_key("data/a.parquet"));
}

#[test]
fn other_pointer_errors_remove_the_candidate() {
    let mut world = World::new(POINTER)
        .with("metadata/00001-a.metadata.json", "17")
        .with("data/a.parquet", "rows");
    world.pointer = Some("memory:///table/metadata/00001-a.metadata.json".to_string());
    world.pointer_error = Some(ExternalSource::CatalogOther("denied".to_string()));
    let in_catalog = commit(SnapshotUpdateKind::FastAppend, true);
    let error = world.run(&in_catalog, append(&["data/a.parquet"], 3)).expect_err("denied");
    assert_eq!(error.message(), "External error: denied");
    assert_eq!(world.objects.len(), 1);
}

#[test]
fn concurrent_commits_are_retried_a_set_number_of_times() {
    let mut world = World::new(FILESYSTEM)
        .with("metadata/v1.metadata.json", "17")
        .with("metadata/00002-x.metadata.json", "18")
        .with("data/a.parquet", "rows");
    // A file of the next version that is never the latest one.
    let append_commit = commit(SnapshotUpdateKind::FastAppend, false);
    let error = world.run(&append_commit, append(&["data/a.parquet"], 3)).expect_err("conflict");
    assert_eq!(
        error.message(),
        "Execution error: Iceberg commit failed after 5 retries due to concurrent metadata updates"
    );
    assert_eq!(world.attempts, 5);
    assert!(!world.objects.contains_key("data/a.parquet"));
}

#[test]
fn lost_race_is_won_at_the_next_attempt() {
    let mut world = World::new(FILESYSTEM)
        .with("metadata/v1.metadata.json", "17")
        .with("data/a.parquet", "rows");
    world.race = Race::BeforeCandidateCreate;
    let append_commit = commit(SnapshotUpdateKind::FastAppend, false);
    assert_eq!(world.run(&append_commit, append(&["data/a.parquet"], 3)), Ok(3));
    assert_eq!(world.attempts, 2);
    assert_eq!(world.objects["metadata/v2.metadata.json"], "23");
    assert_eq!(world.objects["metadata/v3.metadata.json"], NEW_SNAPSHOT.to_string());
    assert_eq!(world.hint.as_deref(), Some("3"));
}

#[test]
fn catalog_commits_are_answered_for() {
    let location = "memory:///table/metadata/00001-a.metadata.json";
    let world = |mode: CatalogCommitMode, snapshot: &str| {
        let mut world = World::new(mode)
            .with("metadata/00001-a.metadata.json", snapshot)
            .with("data/a.parquet", "rows");
        world.pointer = Some(location.to_string());
        world
    };
    let in_catalog = commit(SnapshotUpdateKind::FastAppend, true);

    let mut committed = world(CATALOG, "17");
    assert_eq!(committed.run(&in_catalog, append(&["data/a.parquet"], 3)), Ok(3));
    assert_eq!(committed.told.len(), 2);

    let mut refused = world(CATALOG, "17");
    refused.catalog_reply = Some(Ok(CatalogCommitOutcome::NotSupported));
    let error = refused.run(&in_catalog, append(&["data/a.parquet"], 3)).expect_err("refused");
    assert_eq!(
        error.message(),
        "Error during planning: Iceberg catalog commit is not supported by the resolved catalog authority"
    );
    assert_eq!(refused.objects.len(), 1);

    let mut conflict = world(CATALOG, "17");
    conflict.catalog_reply = Some(Ok(CatalogCommitOutcome::Conflict));
    assert_eq!(conflict.run(&in_catalog, append(&["data/a.parquet"], 3)), Ok(3));
    assert_eq!(conflict.attempts, 2);

    let mut unknown = world(CATALOG, "17");
    unknown.catalog_reply = Some(Err(EngineError::Execution(
        "Iceberg catalog commit state is unknown: timeout".to_string(),
    )));
    unknown.run(&in_catalog, append(&["data/a.parquet"], 3)).expect_err("unknown");
    assert!(unknown.objects.contains_key("data/a.parquet"));
    assert!(unknown.objects.contains_key("manifests/new"));

    let mut failed = world(CATALOG, "17");
    failed.catalog_reply = Some(Err(EngineError::Execution("no".to_string())));
    let error = failed.run(&in_catalog, append(&["data/a.parquet"], 3)).expect_err("failed");
    assert_eq!(error.message(), "Execution error: no");
    assert_eq!(failed.objects.len(), 1);

    let mut fallback = world(COMPATIBILITY, "17");
    fallback.catalog_reply = Some(Ok(CatalogCommitOutcome::NotSupported));
    assert_eq!(fallback.run(&in_catalog, append(&["data/a.parquet"], 3)), Ok(3));
    assert!(fallback.objects.contains_key("metadata/v2.metadata.json"));

    let mut first = world(COMPATIBILITY, "");
    first.catalog_reply = Some(Ok(CatalogCommitOutcome::NotSupported));
    assert_eq!(first.run(&in_catalog, append(&["data/a.parquet"], 3)), Ok(3));
    assert_eq!(
        first.pointer.as_deref(),
        Some("memory:///table/metadata/00002-new.metadata.json")
    );
    assert!(!first.objects.contains_key("manifests/new"));
}

#[test]
fn first_snapshot_of_a_created_table_is_the_next_version() {
    let mut world = World::new(FILESYSTEM).with("metadata/v1.metadata.json", "");
    let append_commit = commit(SnapshotUpdateKind::FastAppend, false);
    assert_eq!(world.run(&append_commit, append(&["data/a.parquet"], 3)), Ok(3));
    assert_eq!(world.objects["metadata/v2.metadata.json"], NEW_SNAPSHOT.to_string());
}

#[test]
fn dynamic_overwrite_removes_the_live_files_of_its_partitions() {
    let mut world = World::new(FILESYSTEM).with("metadata/v1.metadata.json", "17");
    world.live = vec![(
        1,
        vec![
            ManifestEntry { status: ManifestStatus::Added, data_file: data_file("b.parquet") },
            ManifestEntry { status: ManifestStatus::Deleted, data_file: data_file("c.parquet") },
            ManifestEntry { status: ManifestStatus::Existing, data_file: data_file("a.parquet") },
        ],
    )];
    let overwrite = commit(SnapshotUpdateKind::CopyOnWrite, false)
        .with_dynamic_partition_overwrite(true);
    assert_eq!(world.run(&overwrite, append(&["new.parquet"], 3)), Ok(3));
    assert_eq!(world.removed, vec!["a.parquet", "b.parquet"]);

    let mut deletes = World::new(FILESYSTEM).with("metadata/v1.metadata.json", "17");
    let mut file = data_file("d.parquet");
    file.content = DataContentType::PositionDeletes;
    deletes.live = vec![(1, vec![ManifestEntry { status: ManifestStatus::Added, data_file: file }])];
    let error = deletes.run(&overwrite, append(&["new.parquet"], 3)).expect_err("deletes");
    assert_eq!(
        error.message(),
        "Error during planning: copy-on-write scoped overwrite is not supported for Iceberg tables with active delete files"
    );
}

#[test]
fn commits_that_cannot_begin_say_why() {
    let silent = || vec![];
    let mut world = World::new(FILESYSTEM);
    assert_eq!(world.run(&commit(SnapshotUpdateKind::FastAppend, false), silent()), Ok(0));
    let internal = |error: EngineError| match error {
        EngineError::Internal(text) => text,
        other => format!("unexpected {other:?}"),
    };
    let controlled =
        commit(SnapshotUpdateKind::FastAppend, false).with_expected_snapshot_id(Some(None));
    assert_eq!(
        internal(world.run(&controlled, silent()).expect_err("controlled")),
        "controlled Iceberg mutation produced no commit metadata"
    );
    let mut without_meta = append(&["data/a.parquet"], 1);
    without_meta[0].meta = None;
    assert_eq!(
        internal(
            world
                .run(&commit(SnapshotUpdateKind::FastAppend, false), without_meta)
                .expect_err("no metadata")
        ),
        "missing commit_meta action from writer output"
    );
    let scoped =
        commit(SnapshotUpdateKind::FastAppend, false).with_dynamic_partition_overwrite(true);
    assert_eq!(
        internal(world.run(&scoped, append(&["a"], 1)).expect_err("scoped")),
        "scoped overwrite requires a copy-on-write snapshot update"
    );
    let both = commit(SnapshotUpdateKind::CopyOnWrite, false)
        .with_dynamic_partition_overwrite(true)
        .with_removed_data_file_paths(vec!["old".to_string()]);
    assert_eq!(world.run(&both, silent()), Ok(0));
    assert_eq!(
        internal(world.run(&both, append(&["a"], 1)).expect_err("both")),
        "dynamic partition overwrite cannot carry planned removal paths"
    );
    let mut overflow = World::new(FILESYSTEM);
    let error = overflow
        .run(&commit(SnapshotUpdateKind::FastAppend, false), append(&["a"], u64::MAX))
        .expect_err("overflow");
    let std_text = i64::try_from(u64::MAX).expect_err("overflow").to_string();
    assert_eq!(
        error.message(),
        format!("Execution error: Iceberg commit row count overflow: {std_text}")
    );
}

#[test]
fn reports_of_writers_are_merged_or_refused() {
    let append_commit = commit(SnapshotUpdateKind::FastAppend, false);
    let mut world = World::new(FILESYSTEM);
    let mut actions = append(&["a"], 3);
    actions.extend(append(&["b"], 4));
    assert_eq!(world.run(&append_commit, actions), Ok(7));
    let mut world = World::new(FILESYSTEM);
    let mut actions = append(&["b"], 4);
    actions.extend(append(&["a"], 3));
    assert_eq!(world.run(&append_commit, actions), Ok(7));

    let mut world = World::new(FILESYSTEM).with("a", "1").with("b", "2");
    let mut actions = append(&["a"], 3);
    actions.extend(append(&["b", "file:///nowhere"], 4));
    if let Some(meta) = actions[1].meta.as_mut() {
        meta.table_uri = "elsewhere".to_string();
    }
    let error = world.run(&append_commit, actions).expect_err("inconsistent");
    assert_eq!(
        error.message(),
        "Execution error: Internal error: inconsistent commit_meta actions from Iceberg writer partitions.\nThis issue was likely caused by a bug in DataFusion's code. Please help us to resolve this by filing a bug report in our issue tracker: https://github.com/apache/datafusion/issues; uncommitted Iceberg artifact cleanup also failed: Execution error: failed to clean uncommitted Iceberg task files: failed to resolve file:///nowhere: no such store"
    );
    assert!(world.objects.is_empty());

    let mut world = World::new(FILESYSTEM);
    let mut actions = append(&["a"], u64::MAX);
    actions.extend(append(&["b"], 1));
    assert_eq!(
        world.run(&append_commit, actions).expect_err("overflow").message(),
        "Execution error: Iceberg writer row count overflow across partitions"
    );
}

#[test]
fn unmet_requirements_stop_a_commit() {
    let mut world = World::new(FILESYSTEM).with("metadata/v1.metadata.json", "17");
    let mut actions = append(&["a"], 3);
    if let Some(meta) = actions[0].meta.as_mut() {
        meta.requirements = vec![TableRequirement::CurrentSchemaIdMatch { current_schema_id: 2 }];
    }
    assert_eq!(
        world
            .run(&commit(SnapshotUpdateKind::FastAppend, false), actions)
            .expect_err("schema")
            .message(),
        "Error during planning: Iceberg commit failed: expected current schema id 2 but found 1. Reload table metadata and retry."
    );
    assert_eq!(world.attempts, 1);
}

#[test]
fn object_paths_are_those_of_the_store() {
    let mut world = World::new(FILESYSTEM).with("metadata/v1.metadata.json", "17");
    world.extension = ".meta%data#.json";
    world.race = Race::AfterCandidateCreate;
    world.concurrent = ("metadata/00002-concurrent.metadata.json".to_string(), 23);
    let append_commit = commit(SnapshotUpdateKind::FastAppend, false);
    world.run(&append_commit, append(&["a"], 3)).expect_err("never the only file of its version");
    let expected = object_store::path::Path::from("metadata/v2.meta%data#.json").to_string();
    assert_eq!(expected, "metadata/v2.meta%25data%23.json");
    assert_eq!(world.object_paths[..2], [expected.clone(), expected]);
}

#[test]
fn catalog_in_charge_must_know_the_metadata() {
    match (AskCatalog {}).answered(Ok(None)) {
        CurrentStep::Done(Err(error)) => assert_eq!(
            error.message(),
            "Error during planning: catalog-authoritative Iceberg table has no metadata location"
        ),
        _ => panic!("must fail"),
    }
    assert!(matches!(
        (AskCatalog {}).answered(Ok(Some("x".to_string()))),
        CurrentStep::FindAt(find) if find.location.as_deref() == Some("x")
    ));
}

#[test]
fn live_files_are_those_of_all_manifests() {
    let entry = |path: &str, status: ManifestStatus| ManifestEntry {
        status,
        data_file: data_file(path),
    };
    let mut world = World::new(FILESYSTEM).with("metadata/v1.metadata.json", "17");
    world.live = vec![
        (4, vec![entry("a", ManifestStatus::Added), entry("b", ManifestStatus::Deleted)]),
        (5, vec![]),
        (6, vec![entry("c", ManifestStatus::Existing)]),
    ];
    let metadata = world.load("metadata/v1.metadata.json").expect("metadata");
    let files = world.live_files(&metadata).expect("live files");
    let found: Vec<(&str, i32)> =
        files.iter().map(|file| (file.file_path.as_str(), file.partition_spec_id)).collect();
    assert_eq!(found, vec![("a", 4), ("c", 6)]);
    let empty = table_metadata_at_snapshot(None);
    assert_eq!(world.live_files(&empty), Ok(vec![]));
}

#[test]
fn first_failure_on_the_way_to_new_metadata_is_reported() {
    let order = ["serialise", "extension", "location", "encode"];
    for first in 0..order.len() {
        let mut world = World::new(FILESYSTEM)
            .with("metadata/v1.metadata.json", "17")
            .with("data/a.parquet", "rows");
        world.failing = order[first..].to_vec();
        let append_commit = commit(SnapshotUpdateKind::FastAppend, false);
        let error = world.run(&append_commit, append(&["data/a.parquet"], 3)).expect_err("fails");
        assert_eq!(error, EngineError::Execution(order[first].to_string()));
        assert_eq!(world.objects.len(), 1);
    }
}

#[test]
fn what_was_encoded_is_put_and_the_pointer_moved_from_where_it_was() {
    let mut world = World::new(POINTER).with("metadata/00001-a.metadata.json", "17");
    let location = "memory:///table/metadata/00001-a.metadata.json".to_string();
    world.pointer = Some(location.clone());
    let in_catalog = commit(SnapshotUpdateKind::FastAppend, true);
    assert_eq!(world.run(&in_catalog, append(&["data/a.parquet"], 3)), Ok(3));
    assert_eq!(world.put, vec![NEW_SNAPSHOT.to_string().into_bytes()]);
    assert_eq!(world.moved, vec![Some(location)]);
}

#[test]
fn each_path_is_cleaned_once_or_reported() {
    let mut world = World::new(FILESYSTEM).with("a", "1").with("b", "2").with("c", "3");
    world.failed_delete = Some("b".to_string());
    let paths = ["b", "file:///nowhere", "a", "b", "file:///c", "gone"];
    let error = world
        .clean_task_files(&paths.iter().map(|path| path.to_string()).collect())
        .expect_err("two failures");
    assert_eq!(
        error,
        EngineError::Execution(
            "failed to clean uncommitted Iceberg task files: failed to resolve file:///nowhere: no such store; Execution error: injected metadata deletion failure".to_string()
        )
    );
    assert_eq!(world.objects.keys().collect::<Vec<_>>(), vec!["b"]);
    assert_eq!(world.clean_task_files(&vec![]), Ok(()));
}
