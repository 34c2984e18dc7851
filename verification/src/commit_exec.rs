//! The plan node that commits what writers have written, and the reading of its input.
use vstd::prelude::*;
use vstd::string::*;

use crate::commit_run::{CleanTaskFiles, Finished, LoadCatalogTable, ResolveMode, Step};
use crate::commit_state::{CatalogTableInfo, CommitInfo, CommitPlan, Event};
use crate::content::{copy_list, copy_option, optional_view, views};
use crate::error::{
    internal_error, operation_with_cleanup_failure, plan_error, with_cleanup_failure, EngineError,
    EngineErrorView,
};
use crate::requirements::{
    add_requirement, caller_expected_snapshot_requirement, expected_snapshot_requirement,
    with_requirement,
};
use crate::snapshot_properties::{
    keys, list_accepted, list_refused_with, pair_texts, validate_snapshot_properties,
};
use crate::table::{
    CommitMeta, CommitMetaView, DataFile, LakehouseExecutionContext, SnapshotUpdateKind,
    TableRequirementView,
};
use crate::task_files::{
    agree, merge_writer_commit_meta, merges, merging_adds_up_rows, paths_of, task_file_paths,
};
use crate::text::{copy_strings, nat_text, texts, u64_text};

verus! {

/// How a plan node is shown.
#[derive(Debug, Clone, Copy, PartialEq, Eq, Structural)]
pub enum DisplayFormatType {
    Default,
    Verbose,
    TreeRender,
}

/// The plan node that commits what its input, the writers, has written.
#[derive(Debug)]
pub struct IcebergCommitExec<P> {
    pub input: P,
    pub table_url: String,
    pub lakehouse_table: Option<LakehouseExecutionContext>,
    pub snapshot_update_kind: SnapshotUpdateKind,
    /// The snapshot that the plan was made for, which may be none, where the plan depends on it.
    pub expected_snapshot_id: Option<Option<i64>>,
    /// The snapshot that the caller expects the table to be at.
    pub caller_expected_snapshot_id: Option<i64>,
    pub snapshot_properties: Vec<(String, String)>,
    pub removed_data_file_paths: Vec<String>,
    pub dynamic_partition_overwrite: bool,
}

impl<P> IcebergCommitExec<P> {
    pub fn new(
        input: P,
        table_url: String,
        lakehouse_table: Option<LakehouseExecutionContext>,
        snapshot_update_kind: SnapshotUpdateKind,
    ) -> (r: Self)
        ensures
            r.input == input,
            r.table_url == table_url,
            r.lakehouse_table == lakehouse_table,
            r.snapshot_update_kind == snapshot_update_kind,
            r.expected_snapshot_id is None,
            r.caller_expected_snapshot_id is None,
            r.snapshot_properties@ == Seq::<(String, String)>::empty(),
            r.removed_data_file_paths@ == Seq::<String>::empty(),
            !r.dynamic_partition_overwrite,
    {
        IcebergCommitExec {
            input,
            table_url,
            lakehouse_table,
            snapshot_update_kind,
            expected_snapshot_id: None,
            caller_expected_snapshot_id: None,
            snapshot_properties: Vec::new(),
            removed_data_file_paths: Vec::new(),
            dynamic_partition_overwrite: false,
        }
    }

    pub fn with_expected_snapshot_id(self, expected_snapshot_id: Option<Option<i64>>) -> (r: Self)
        ensures
            r == (IcebergCommitExec { expected_snapshot_id, ..self }),
    {
        let mut node = self;
        node.expected_snapshot_id = expected_snapshot_id;
        node
    }

    pub fn with_caller_expected_snapshot_id(self, snapshot_id: Option<i64>) -> (r: Self)
        ensures
            r == (IcebergCommitExec { caller_expected_snapshot_id: snapshot_id, ..self }),
    {
        let mut node = self;
        node.caller_expected_snapshot_id = snapshot_id;
        node
    }

    pub fn with_snapshot_properties(self, properties: Vec<(String, String)>) -> (r: Self)
        ensures
            r == (IcebergCommitExec { snapshot_properties: properties, ..self }),
    {
        let mut node = self;
        node.snapshot_properties = properties;
        node
    }

    pub fn with_removed_data_file_paths(self, paths: Vec<String>) -> (r: Self)
        ensures
            r == (IcebergCommitExec { removed_data_file_paths: paths, ..self }),
    {
        let mut node = self;
        node.removed_data_file_paths = paths;
        node
    }

    pub fn with_dynamic_partition_overwrite(self, enabled: bool) -> (r: Self)
        ensures
            r == (IcebergCommitExec { dynamic_partition_overwrite: enabled, ..self }),
    {
        let mut node = self;
        node.dynamic_partition_overwrite = enabled;
        node
    }

    pub fn removed_data_file_paths(&self) -> (r: &[String])
        ensures
            r@ == self.removed_data_file_paths@,
    {
        self.removed_data_file_paths.as_slice()
    }

    pub fn dynamic_partition_overwrite(&self) -> (r: bool)
        ensures
            r == self.dynamic_partition_overwrite,
    {
        self.dynamic_partition_overwrite
    }

    pub fn table_url(&self) -> (r: &str)
        ensures
            r@ == self.table_url@,
    {
        self.table_url.as_str()
    }

    pub fn input(&self) -> (r: &P)
        ensures
            *r == self.input,
    {
        &self.input
    }

    pub fn lakehouse_table(&self) -> (r: Option<&LakehouseExecutionContext>)
        ensures
            match r {
                Some(table) => self.lakehouse_table == Some(*table),
                None => self.lakehouse_table is None,
            },
    {
        match &self.lakehouse_table {
            Some(table) => Some(table),
            None => None,
        }
    }

    pub fn snapshot_update_kind(&self) -> (r: SnapshotUpdateKind)
        ensures
            r == self.snapshot_update_kind,
    {
        self.snapshot_update_kind
    }

    pub fn expected_snapshot_id(&self) -> (r: Option<Option<i64>>)
        ensures
            r == self.expected_snapshot_id,
    {
        self.expected_snapshot_id
    }

    pub fn caller_expected_snapshot_id(&self) -> (r: Option<i64>)
        ensures
            r == self.caller_expected_snapshot_id,
    {
        self.caller_expected_snapshot_id
    }

    pub fn snapshot_properties(&self) -> (r: &[(String, String)])
        ensures
            r@ == self.snapshot_properties@,
    {
        self.snapshot_properties.as_slice()
    }

    /// The controls of the caller hold up.
    pub open spec fn controls_accepted(&self) -> bool {
        &&& list_accepted(keys(pair_texts(self.snapshot_properties@)))
        &&& self.caller_expected_snapshot_id matches Some(id) ==> id > 0
    }

    /// The error about the controls of the caller.
    pub open spec fn controls_refused(&self, error: EngineErrorView) -> bool {
        if list_accepted(keys(pair_texts(self.snapshot_properties@))) {
            error == EngineErrorView::Plan(
                "Iceberg expected snapshot ID must be a positive integer"@,
            )
        } else {
            list_refused_with(keys(pair_texts(self.snapshot_properties@)), error)
        }
    }

    /// Checks what the caller attached to the commit.
    pub fn validate_publication_controls(&self) -> (r: Result<(), EngineError>)
        ensures
            r is Ok <==> self.controls_accepted(),
            r matches Err(e) ==> self.controls_refused(e@),
    {
        match validate_snapshot_properties(self.snapshot_properties.as_slice()) {
            Ok(()) => {},
            Err(error) => return Err(error),
        }
        match self.caller_expected_snapshot_id {
            Some(snapshot_id) => if snapshot_id <= 0 {
                return Err(plan_error("Iceberg expected snapshot ID must be a positive integer"));
            },
            None => {},
        }
        Ok(())
    }

    /// The same node on another input.
    pub fn with_new_children(&self, children: Vec<P>) -> (r: Result<Self, EngineError>)
        ensures
            r is Ok <==> children@.len() == 1,
            r matches Ok(node) ==> {
                &&& node.input == children@[0]
                &&& node.table_url == self.table_url
                &&& optional_view(node.lakehouse_table) == optional_view(self.lakehouse_table)
                &&& node.snapshot_update_kind == self.snapshot_update_kind
                &&& node.expected_snapshot_id == self.expected_snapshot_id
                &&& node.caller_expected_snapshot_id == self.caller_expected_snapshot_id
                &&& views(node.snapshot_properties@) == views(self.snapshot_properties@)
                &&& node.removed_data_file_paths@ == self.removed_data_file_paths@
                &&& node.dynamic_partition_overwrite == self.dynamic_partition_overwrite
            },
            r matches Err(e) ==> e@ == EngineErrorView::Internal(
                "IcebergCommitExec requires exactly one child"@,
            ),
    {
        let mut children = children;
        if children.len() != 1 {
            return Err(internal_error("IcebergCommitExec requires exactly one child"));
        }
        match children.pop() {
            Some(input) => Ok(
                IcebergCommitExec::new(
                    input,
                    self.table_url.clone(),
                    copy_option(&self.lakehouse_table),
                    self.snapshot_update_kind,
                ).with_expected_snapshot_id(
                    self.expected_snapshot_id,
                ).with_caller_expected_snapshot_id(
                    self.caller_expected_snapshot_id,
                ).with_snapshot_properties(
                    copy_list(&self.snapshot_properties),
                ).with_removed_data_file_paths(
                    copy_strings(&self.removed_data_file_paths),
                ).with_dynamic_partition_overwrite(self.dynamic_partition_overwrite),
            ),
            None => Err(internal_error("IcebergCommitExec requires exactly one child")),
        }
    }

    /// How the node is shown.
    pub fn fmt_as(&self, t: DisplayFormatType) -> (r: String)
        ensures
            r@ == match t {
                DisplayFormatType::TreeRender => "format: iceberg\ntable_path="@
                    + self.table_url@,
                _ => "IcebergCommitExec(table_path="@ + self.table_url@ + ")"@,
            },
    {
        match t {
            DisplayFormatType::TreeRender => String::from_str(
                "format: iceberg\ntable_path=",
            ).concat(self.table_url.as_str()),
            _ => String::from_str("IcebergCommitExec(table_path=").concat(
                self.table_url.as_str(),
            ).concat(")"),
        }
    }

    /// Begins a commit: its input is to be read. The node runs in one partition on an input of
    /// one.
    pub fn execute(&self, partition: usize, input_partitions: usize) -> (r: Result<
        ReadInput,
        EngineError,
    >)
        ensures
            r is Ok <==> partition == 0 && input_partitions == 1 && self.controls_accepted(),
            r matches Ok(input) ==> {
                &&& input.wf()
                &&& optional_view(input.lakehouse_table) == optional_view(self.lakehouse_table)
                &&& input.snapshot_update_kind == self.snapshot_update_kind
                &&& input.expected_snapshot_id == self.expected_snapshot_id
                &&& input.caller_expected_snapshot_id == self.caller_expected_snapshot_id
                &&& views(input.snapshot_properties@) == views(self.snapshot_properties@)
                &&& input.removed_data_file_paths@ == self.removed_data_file_paths@
                &&& input.dynamic_partition_overwrite == self.dynamic_partition_overwrite
                &&& input.data_files@ == Seq::<DataFile>::empty()
                &&& input.delete_files@ == Seq::<DataFile>::empty()
                &&& input.meta is None
            },
            r matches Err(e) ==> if partition != 0 {
                e@ == EngineErrorView::Internal(
                    "IcebergCommitExec can only be executed in a single partition"@,
                )
            } else if input_partitions != 1 {
                e@ == EngineErrorView::Internal(
                    "IcebergCommitExec requires exactly one input partition, got "@ + nat_text(
                        input_partitions as nat,
                    ),
                )
            } else {
                self.controls_refused(e@)
            },
    {
        if partition != 0 {
            return Err(
                internal_error("IcebergCommitExec can only be executed in a single partition"),
            );
        }
        if input_partitions != 1 {
            return Err(
                EngineError::Internal(
                    String::from_str(
                        "IcebergCommitExec requires exactly one input partition, got ",
                    ).concat(u64_text(input_partitions as u64).as_str()),
                ),
            );
        }
        match self.validate_publication_controls() {
            Ok(()) => {},
            Err(error) => return Err(error),
        }
        Ok(
            ReadInput {
                lakehouse_table: copy_option(&self.lakehouse_table),
                snapshot_update_kind: self.snapshot_update_kind,
                expected_snapshot_id: self.expected_snapshot_id,
                caller_expected_snapshot_id: self.caller_expected_snapshot_id,
                snapshot_properties: copy_list(&self.snapshot_properties),
                removed_data_file_paths: copy_strings(&self.removed_data_file_paths),
                dynamic_partition_overwrite: self.dynamic_partition_overwrite,
                data_files: Vec::new(),
                delete_files: Vec::new(),
                meta: None,
                reports: Ghost(Seq::empty()),
            },
        )
    }
}

/// What a batch of the input says that writers have done.
#[derive(Debug, PartialEq, Eq)]
pub struct WriterActions {
    pub data_files: Vec<DataFile>,
    pub delete_files: Vec<DataFile>,
    pub meta: Option<CommitMeta>,
}

/// A commit whose input is being read.
pub struct ReadInput {
    pub lakehouse_table: Option<LakehouseExecutionContext>,
    pub snapshot_update_kind: SnapshotUpdateKind,
    pub expected_snapshot_id: Option<Option<i64>>,
    pub caller_expected_snapshot_id: Option<i64>,
    pub snapshot_properties: Vec<(String, String)>,
    pub removed_data_file_paths: Vec<String>,
    pub dynamic_partition_overwrite: bool,
    pub data_files: Vec<DataFile>,
    pub delete_files: Vec<DataFile>,
    /// What the writers report, merged.
    pub meta: Option<CommitMeta>,
    /// What each writer reported.
    pub reports: Ghost<Seq<CommitMetaView>>,
}

/// A commit whose input failed. The files that its tasks have written are to be deleted.
pub struct AbandonInput {
    pub paths: Vec<String>,
    pub error: EngineError,
}

impl AbandonInput {
    /// The files are deleted, or could not be. What comes back is the error of the commit.
    pub fn cleaned(self, reply: Result<(), EngineError>) -> (e: EngineError)
        ensures
            e@ == match reply {
                Ok(()) => self.error@,
                Err(cleanup) => with_cleanup_failure(self.error@, cleanup@),
            },
    {
        match reply {
            Ok(()) => self.error,
            Err(cleanup_error) => operation_with_cleanup_failure(self.error, cleanup_error),
        }
    }
}

/// What comes after a batch of the input.
pub enum ReadStep {
    More(ReadInput),
    Abandon(AbandonInput),
}

impl ReadInput {
    /// The merged report counts the rows of all reports and agrees with each of them.
    pub open spec fn wf(&self) -> bool {
        merges(self.reports@, optional_view(self.meta))
    }

    /// The paths of the files that were written.
    pub open spec fn written_paths(&self) -> Seq<Seq<char>> {
        paths_of(self.data_files@) + paths_of(self.delete_files@)
    }

    /// Whether a batch is to be decoded: one without rows says nothing.
    pub fn needs_decoding(&self, rows: usize) -> (r: bool)
        ensures
            r == (rows != 0),
    {
        rows != 0
    }

    /// The input failed.
    pub fn failed(self, error: EngineError) -> (r: AbandonInput)
        ensures
            r.error == error,
            texts(r.paths@) == self.written_paths(),
    {
        AbandonInput {
            paths: task_file_paths(self.data_files.as_slice(), self.delete_files.as_slice()),
            error,
        }
    }

    /// A batch of the input was decoded.
    pub fn decoded(self, reply: Result<WriterActions, EngineError>) -> (next: ReadStep)
        requires
            self.wf(),
        ensures
            match reply {
                Err(e) => next matches ReadStep::Abandon(abandon) && abandon.error == e && texts(
                    abandon.paths@,
                ) == self.written_paths(),
                Ok(actions) => {
                    let data_files = self.data_files@ + actions.data_files@;
                    let delete_files = self.delete_files@ + actions.delete_files@;
                    match next {
                        ReadStep::More(input) => {
                            &&& input.wf()
                            &&& input.data_files@ == data_files
                            &&& input.delete_files@ == delete_files
                            &&& input.reports@ == match actions.meta {
                                Some(meta) => self.reports@.push(meta@),
                                None => self.reports@,
                            }
                            &&& input == (ReadInput {
                                data_files: input.data_files,
                                delete_files: input.delete_files,
                                meta: input.meta,
                                reports: input.reports,
                                ..self
                            })
                            &&& mergeable(self.meta, actions.meta)
                            &&& actions.meta is None ==> input.meta == self.meta
                        },
                        ReadStep::Abandon(abandon) => {
                            &&& texts(abandon.paths@) == paths_of(data_files) + paths_of(
                                delete_files,
                            )
                            &&& !mergeable(self.meta, actions.meta)
                            &&& abandon.error@ == if agree(self.meta->0@, actions.meta->0@) {
                                EngineErrorView::Execution(
                                    "Iceberg writer row count overflow across partitions"@,
                                )
                            } else {
                                EngineErrorView::Internal(
                                    "inconsistent commit_meta actions from Iceberg writer partitions"@,
                                )
                            }
                        },
                    }
                },
            },
    {
        let actions = match reply {
            Ok(actions) => actions,
            Err(error) => return ReadStep::Abandon(self.failed(error)),
        };
        let mut input = self;
        let mut data_files = actions.data_files;
        let mut delete_files = actions.delete_files;
        input.data_files.append(&mut data_files);
        input.delete_files.append(&mut delete_files);
        match actions.meta {
            Some(meta) => {
                let ghost before = input.meta;
                let merged = merge_writer_commit_meta(&mut input.meta, meta);
                match merged {
                    Ok(()) => {
                        proof {
                            merging_adds_up_rows(input.reports@, before, meta, input.meta);
                        }
                        input.reports = Ghost(input.reports@.push(meta@));
                        ReadStep::More(input)
                    },
                    Err(error) => ReadStep::Abandon(input.failed(error)),
                }
            },
            None => ReadStep::More(input),
        }
    }

    /// The caller, or the plan, sets conditions on the commit.
    pub open spec fn controlled(&self) -> bool {
        self.expected_snapshot_id is Some || self.caller_expected_snapshot_id is Some
            || self.snapshot_properties@.len() > 0
    }

    /// The writers have written nothing and report nothing.
    pub open spec fn silent(&self) -> bool {
        self.meta is None && self.data_files@.len() == 0 && self.delete_files@.len() == 0
    }

    /// The error of a commit that cannot begin, if any.
    pub open spec fn start_error(&self) -> Option<EngineErrorView> {
        let scoped = self.dynamic_partition_overwrite || self.removed_data_file_paths@.len() > 0;
        if self.silent() {
            if self.controlled() {
                Some(
                    EngineErrorView::Internal(
                        "controlled Iceberg mutation produced no commit metadata"@,
                    ),
                )
            } else {
                None
            }
        } else if self.meta is None {
            Some(EngineErrorView::Internal("missing commit_meta action from writer output"@))
        } else if !self.snapshot_update_kind.copy_on_write() && scoped {
            Some(
                EngineErrorView::Internal(
                    "scoped overwrite requires a copy-on-write snapshot update"@,
                ),
            )
        } else if self.dynamic_partition_overwrite && self.removed_data_file_paths@.len() > 0 {
            Some(
                EngineErrorView::Internal(
                    "dynamic partition overwrite cannot carry planned removal paths"@,
                ),
            )
        } else {
            None
        }
    }

    /// The requirements of the commit: those that the writers report, that the table is at the
    /// snapshot that the plan was made for, and that it is at the one that the caller expects.
    pub open spec fn all_requirements(&self, meta: CommitMeta) -> Seq<TableRequirementView> {
        with_requirement(
            with_requirement(
                views(meta.requirements@),
                match self.expected_snapshot_id {
                    Some(snapshot_id) => Some(
                        TableRequirementView::RefSnapshotIdMatch {
                            reference: "main"@,
                            snapshot_id,
                        },
                    ),
                    None => None,
                },
            ),
            match self.caller_expected_snapshot_id {
                Some(id) => Some(
                    TableRequirementView::RefSnapshotIdMatch {
                        reference: "main"@,
                        snapshot_id: Some(id),
                    },
                ),
                None => None,
            },
        )
    }

    /// The commit that the input leads to.
    pub open spec fn leads_to(&self, plan: CommitPlan) -> bool {
        let meta = self.meta->0;
        &&& plan.info == (CommitInfo {
            table_uri: meta.table_uri,
            row_count: meta.row_count,
            data_files: self.data_files,
            delete_files: self.delete_files,
            requirements: plan.info.requirements,
            table_properties: meta.table_properties,
            snapshot_properties: self.snapshot_properties,
            caller_expected_snapshot_id: self.caller_expected_snapshot_id,
            lakehouse_table: match meta.lakehouse_table {
                Some(table) => Some(table),
                None => self.lakehouse_table,
            },
            snapshot_update_kind: self.snapshot_update_kind,
            schema: meta.schema,
            partition_spec: meta.partition_spec,
        })
        &&& views(plan.info.requirements@) == self.all_requirements(meta)
        &&& plan.dynamic_partition_overwrite == self.dynamic_partition_overwrite
        &&& plan.removed_data_file_paths == self.removed_data_file_paths
        &&& texts(plan.task_file_paths@) == self.written_paths()
    }

    /// The input is read. Where it says nothing, there is nothing to commit; conditions on the
    /// commit must not be passed over then.
    pub fn end(self) -> (next: Step)
        requires
            self.wf(),
        ensures
            next.wf(),
            match self.start_error() {
                Some(e) => next matches Step::CleanTaskFiles(clean) && clean.error@ == e && texts(
                    clean.paths@,
                ) == self.written_paths() && clean.journal@ == Seq::<Event>::empty(),
                None => if self.silent() {
                    next matches Step::Done(done) && done.result == Ok::<i64, EngineError>(0)
                        && done.journal@ == Seq::<Event>::empty()
                } else {
                    match next {
                        Step::LoadCatalogTable(load) => self.leads_to(load.plan)
                            && load.plan.info.lakehouse_table is Some,
                        Step::ResolveMode(resolve) => self.leads_to(resolve.plan)
                            && resolve.plan.info.lakehouse_table is None
                            && resolve.catalog.metadata_location is None
                            && !resolve.catalog.is_catalog_managed_iceberg_table,
                        _ => false,
                    }
                },
            },
    {
        let input = self;
        let paths = task_file_paths(input.data_files.as_slice(), input.delete_files.as_slice());
        let meta = match input.meta {
            Some(meta) => meta,
            None => {
                let silent: bool = input.data_files.len() == 0 && input.delete_files.len() == 0;
                let controlled: bool = input.expected_snapshot_id.is_some()
                    || input.caller_expected_snapshot_id.is_some()
                    || input.snapshot_properties.len() > 0;
                if silent && !controlled {
                    return Step::Done(Finished { result: Ok(0), journal: Ghost(Seq::empty()) });
                }
                let error = if silent {
                    internal_error("controlled Iceberg mutation produced no commit metadata")
                } else {
                    internal_error("missing commit_meta action from writer output")
                };
                return Step::CleanTaskFiles(
                    CleanTaskFiles { paths, error, journal: Ghost(Seq::empty()) },
                );
            },
        };
        let mut requirements = meta.requirements;
        add_requirement(
            &mut requirements,
            expected_snapshot_requirement(input.expected_snapshot_id),
        );
        add_requirement(
            &mut requirements,
            caller_expected_snapshot_requirement(input.caller_expected_snapshot_id),
        );
        let copy_on_write = input.snapshot_update_kind.is_copy_on_write();
        let planned: bool = input.removed_data_file_paths.len() > 0;
        if !copy_on_write && (input.dynamic_partition_overwrite || planned) {
            return Step::CleanTaskFiles(
                CleanTaskFiles {
                    paths,
                    error: internal_error(
                        "scoped overwrite requires a copy-on-write snapshot update",
                    ),
                    journal: Ghost(Seq::empty()),
                },
            );
        }
        if input.dynamic_partition_overwrite && planned {
            return Step::CleanTaskFiles(
                CleanTaskFiles {
                    paths,
                    error: internal_error(
                        "dynamic partition overwrite cannot carry planned removal paths",
                    ),
                    journal: Ghost(Seq::empty()),
                },
            );
        }
        let validation_only: bool = copy_on_write && input.data_files.len() == 0 && !planned;
        let lakehouse_table = match meta.lakehouse_table {
            Some(table) => Some(table),
            None => input.lakehouse_table,
        };
        let in_catalog = lakehouse_table.is_some();
        let plan = CommitPlan {
            info: CommitInfo {
                table_uri: meta.table_uri,
                row_count: meta.row_count,
                data_files: input.data_files,
                delete_files: input.delete_files,
                requirements,
                table_properties: meta.table_properties,
                snapshot_properties: input.snapshot_properties,
                caller_expected_snapshot_id: input.caller_expected_snapshot_id,
                lakehouse_table,
                snapshot_update_kind: input.snapshot_update_kind,
                schema: meta.schema,
                partition_spec: meta.partition_spec,
            },
            validation_only,
            dynamic_partition_overwrite: input.dynamic_partition_overwrite,
            removed_data_file_paths: input.removed_data_file_paths,
            task_file_paths: paths,
        };
        if in_catalog {
            Step::LoadCatalogTable(LoadCatalogTable { plan })
        } else {
            Step::ResolveMode(
                ResolveMode {
                    plan,
                    catalog: CatalogTableInfo {
                        metadata_location: None,
                        is_catalog_managed_iceberg_table: false,
                    },
                },
            )
        }
    }
}

/// A report goes together with those that were merged before.
pub open spec fn mergeable(merged: Option<CommitMeta>, incoming: Option<CommitMeta>) -> bool {
    merged is Some && incoming is Some ==> agree(merged->0@, incoming->0@) && merged->0.row_count
        + incoming->0.row_count <= u64::MAX
}

} // verus!
