//! What messages name: what was expected and what was found, which key and which values.
use vstd::prelude::*;

use crate::commit_exec::IcebergCommitExec;
use crate::commit_run::{
    AfterCleanup, AfterPrepared, CleanBootstrap, CleanPrepared, ConfirmFirst, ConfirmPublish,
    ConfirmUnchanged, LoadMetadata, Locate, LocatedMetadata, PrepareFirstSnapshot, PrepareSnapshot,
    Step,
};
use crate::commit_state::{commit_count, PreparedSnapshot};
use crate::error::{EngineError, EngineErrorView};
use crate::error_laws::{lemma_contains, lemma_errors, nobody_can_tell, stands_in};
use crate::identifier::uuid_chars;
use crate::live_files::dynamic_partition_overwrite_paths;
use crate::plan_builder::{IcebergPlanBuilder, IcebergWriterNode};
use crate::python_error::{
    cloudpickle_import_failure, declared_failure_kind, search_class, ClassMarker, MarkerSearch,
    PythonDataSourceContext, PythonDataSourceError, PythonDataSourceFailure, PythonException,
};
use crate::requirement_laws::is_at;
use crate::requirements::{meets, owned, requirements_refused, unmet_text, validate_requirements};
use crate::snapshot_properties::{
    validate_snapshot_properties, validate_snapshot_property_key, Operation, SnapshotPropertyError,
    Summary,
};
use crate::step_laws::gave_up;
use crate::table::{
    DataFile, FormatVersion, PartitionSpec, SnapshotUpdateKind, TableMetadata, TableRequirement,
};
use crate::table_changes::validate_scoped_overwrite_format;
use crate::table_writer::{IcebergTableWriter, WriterSettings};
use crate::task_files::{failed_deletions, DeleteFiles, DeleteOutcome};
use crate::text::{chars_of, int_text, join_text, optional_int_text, text_contains, texts};
use crate::text_map::TextMap;

verus! {

/// Two texts stand in a third one, the first before the second.
pub open spec fn stand_in_order(a: Seq<char>, b: Seq<char>, whole: Seq<char>) -> bool {
    exists|x: Seq<char>, y: Seq<char>, z: Seq<char>| whole == #[trigger] (x + a + y + b + z)
}

proof fn lemma_order(
    a: Seq<char>,
    b: Seq<char>,
    x: Seq<char>,
    y: Seq<char>,
    z: Seq<char>,
    whole: Seq<char>,
)
    requires
        whole == x + a + y + b + z,
    ensures
        stand_in_order(a, b, whole),
{
}

/// A requirement that a table does not meet is reported with what it wants and then what was found,
/// and one on a reference with its name too.
pub proof fn unmet_requirements_name_both_sides(
    meta: &TableMetadata,
    requirements: &[TableRequirement],
    r: Result<(), EngineError>,
)
    requires
        call_ensures(validate_requirements, (Some(meta), requirements), r),
        requirements@.len() == 1,
        r is Err,
    ensures
        r->Err_0 is Plan,
        ({
            let text = r->Err_0->Plan_0@;
            match requirements@[0] {
                TableRequirement::LastAssignedFieldIdMatch { last_assigned_field_id } =>
                    stand_in_order(
                    "last assigned field id "@ + int_text(last_assigned_field_id as int),
                    int_text(meta.last_column_id as int),
                    text,
                ),
                TableRequirement::CurrentSchemaIdMatch { current_schema_id } => stand_in_order(
                    "current schema id "@ + int_text(current_schema_id as int),
                    int_text(meta.current_schema_id as int),
                    text,
                ),
                TableRequirement::LastAssignedPartitionIdMatch { last_assigned_partition_id } =>
                    stand_in_order(
                    "last assigned partition id "@ + int_text(last_assigned_partition_id as int),
                    int_text(meta.last_partition_id as int),
                    text,
                ),
                TableRequirement::DefaultSpecIdMatch { default_spec_id } => stand_in_order(
                    "default partition spec id "@ + int_text(default_spec_id as int),
                    int_text(meta.default_spec_id as int),
                    text,
                ),
                TableRequirement::DefaultSortOrderIdMatch { default_sort_order_id } =>
                    stand_in_order(
                    "default sort order id "@ + int_text(default_sort_order_id as int),
                    int_text(
                        match meta.default_sort_order_id {
                            Some(id) => id as int,
                            None => 0,
                        },
                    ),
                    text,
                ),
                TableRequirement::RefSnapshotIdMatch { reference, snapshot_id } => stands_in(
                    reference@,
                    text,
                ) && exists|found: Option<i64>|
                    {
                        &&& #[trigger] stand_in_order(
                            optional_int_text(snapshot_id),
                            optional_int_text(found),
                            text,
                        )
                        &&& reference@ == "main"@ ==> is_at(meta.current_snapshot_id, found)
                    },
                TableRequirement::UuidMatch { uuid } => stand_in_order(
                    uuid_chars(uuid),
                    match meta.table_uuid {
                        Some(found) => uuid_chars(found),
                        None => "None"@,
                    },
                    text,
                ),
                TableRequirement::NotExist => text
                    == "Iceberg table already exists but commit asserted non-existence."@,
            }
        }),
{
    let requirement = requirements@[0];
    let text = r->Err_0->Plan_0@;
    let m = owned(Some(meta));
    let i = choose|i: int|
        0 <= i < requirements@.len() && !meets(m, (#[trigger] requirements@[i])@) && r->Err_0@
            == EngineErrorView::Plan(unmet_text(m, requirements@[i]@)) && forall|j: int|
            0 <= j < i ==> meets(m, (#[trigger] requirements@[j])@);
    assert(text == unmet_text(m, requirement@));
    match requirement {
        TableRequirement::LastAssignedFieldIdMatch { last_assigned_field_id } => {
            lemma_mismatch(
                "last assigned field id"@,
                "last assigned field id "@,
                last_assigned_field_id as int,
                meta.last_column_id as int,
            );
        },
        TableRequirement::CurrentSchemaIdMatch { current_schema_id } => {
            lemma_mismatch(
                "current schema id"@,
                "current schema id "@,
                current_schema_id as int,
                meta.current_schema_id as int,
            );
        },
        TableRequirement::LastAssignedPartitionIdMatch { last_assigned_partition_id } => {
            lemma_mismatch(
                "last assigned partition id"@,
                "last assigned partition id "@,
                last_assigned_partition_id as int,
                meta.last_partition_id as int,
            );
        },
        TableRequirement::DefaultSpecIdMatch { default_spec_id } => {
            lemma_mismatch(
                "default partition spec id"@,
                "default partition spec id "@,
                default_spec_id as int,
                meta.default_spec_id as int,
            );
        },
        TableRequirement::DefaultSortOrderIdMatch { default_sort_order_id } => {
            lemma_mismatch(
                "default sort order id"@,
                "default sort order id "@,
                default_sort_order_id as int,
                match meta.default_sort_order_id {
                    Some(id) => id as int,
                    None => 0,
                },
            );
        },
        TableRequirement::RefSnapshotIdMatch { reference, snapshot_id } => {
            let found = crate::requirements::referenced_snapshot(meta@, reference@);
            let (a, b) = (optional_int_text(snapshot_id), optional_int_text(found));
            let x = "Iceberg commit failed: reference '"@ + reference@ + "' expected snapshot "@;
            let none = Seq::<char>::empty();
            assert(text =~= x + a + " but found "@ + b + none);
            lemma_order(a, b, x, " but found "@, none, text);
            assert(text =~= "Iceberg commit failed: reference '"@ + reference@ + (
            "' expected snapshot "@ + a + " but found "@ + b));
        },
        TableRequirement::UuidMatch { uuid } => {
            let a = uuid_chars(uuid);
            let x = "Iceberg commit failed: expected table UUID "@;
            let z = ". Reload table metadata and retry."@;
            let y = " but found "@;
            match meta.table_uuid {
                Some(found) => {
                    let b = uuid_chars(found);
                    assert(text =~= x + a + (y + "Some("@) + b + (")"@ + z));
                    lemma_order(a, b, x, y + "Some("@, ")"@ + z, text);
                },
                None => {
                    assert(text =~= x + a + y + "None"@ + z);
                    lemma_order(a, "None"@, x, y, z, text);
                },
            }
        },
        TableRequirement::NotExist => {},
    }
}

/// Where there is no table, a requirement on it is reported as one that could not be checked, with
/// what it is on.
pub proof fn missing_tables_are_named_as_missing(
    requirements: &[TableRequirement],
    r: Result<(), EngineError>,
)
    requires
        call_ensures(validate_requirements, (None::<&TableMetadata>, requirements), r),
        requirements@.len() == 1,
        r is Err,
    ensures
        r->Err_0 is Plan,
        ({
            let what = match requirements@[0] {
                TableRequirement::NotExist => seq![],
                TableRequirement::UuidMatch { .. } => "UUID"@,
                TableRequirement::RefSnapshotIdMatch { .. } => "snapshot"@,
                TableRequirement::LastAssignedFieldIdMatch { .. } => "field id"@,
                TableRequirement::CurrentSchemaIdMatch { .. } => "schema"@,
                TableRequirement::LastAssignedPartitionIdMatch { .. } => "partition id"@,
                TableRequirement::DefaultSpecIdMatch { .. } => "partition spec"@,
                TableRequirement::DefaultSortOrderIdMatch { .. } => "sort order"@,
            };
            &&& !(requirements@[0] is NotExist)
            &&& r->Err_0->Plan_0@ == "Iceberg table metadata missing while validating "@ + what
                + " requirement"@
        }),
{
    let m = owned(None::<&TableMetadata>);
    let i = choose|i: int|
        0 <= i < requirements@.len() && !meets(m, (#[trigger] requirements@[i])@) && r->Err_0@
            == EngineErrorView::Plan(unmet_text(m, requirements@[i]@)) && forall|j: int|
            0 <= j < i ==> meets(m, (#[trigger] requirements@[j])@);
    assert(!meets(m, requirements@[0]@));
}

proof fn lemma_mismatch(what: Seq<char>, spaced: Seq<char>, expected: int, found: int)
    requires
        what == "last assigned field id"@ && spaced == "last assigned field id "@ || what
            == "current schema id"@ && spaced == "current schema id "@ || what
            == "last assigned partition id"@ && spaced == "last assigned partition id "@ || what
            == "default partition spec id"@ && spaced == "default partition spec id "@ || what
            == "default sort order id"@ && spaced == "default sort order id "@,
    ensures
        stand_in_order(
            spaced + int_text(expected),
            int_text(found),
            crate::requirements::mismatch_text(what, expected, found),
        ),
{
    reveal_strlit("last assigned field id");
    reveal_strlit("last assigned field id ");
    reveal_strlit("current schema id");
    reveal_strlit("current schema id ");
    reveal_strlit("last assigned partition id");
    reveal_strlit("last assigned partition id ");
    reveal_strlit("default partition spec id");
    reveal_strlit("default partition spec id ");
    reveal_strlit("default sort order id");
    reveal_strlit("default sort order id ");
    reveal_strlit(" ");
    assert(spaced =~= what + " "@);
    let whole = crate::requirements::mismatch_text(what, expected, found);
    let x = "Iceberg commit failed: expected "@;
    let y = " but found "@;
    let z = ". Reload table metadata and retry."@;
    assert(whole =~= x + (spaced + int_text(expected)) + y + int_text(found) + z);
    lemma_order(spaced + int_text(expected), int_text(found), x, y, z, whole);
}

proof fn lemma_refused_once(
    meta: Option<crate::table::TableMetadataView>,
    requirements: Seq<TableRequirement>,
    a: EngineErrorView,
    b: EngineErrorView,
)
    requires
        requirements_refused(meta, requirements, a),
        requirements_refused(meta, requirements, b),
    ensures
        a == b,
{
    let i = choose|i: int|
        0 <= i < requirements.len() && !meets(meta, (#[trigger] requirements[i])@) && a
            == EngineErrorView::Plan(unmet_text(meta, requirements[i]@)) && forall|j: int|
            0 <= j < i ==> meets(meta, (#[trigger] requirements[j])@);
    let k = choose|k: int|
        0 <= k < requirements.len() && !meets(meta, (#[trigger] requirements[k])@) && b
            == EngineErrorView::Plan(unmet_text(meta, requirements[k]@)) && forall|j: int|
            0 <= j < k ==> meets(meta, (#[trigger] requirements[j])@);
    if i < k {
        assert(meets(meta, requirements[i]@));
    }
    if k < i {
        assert(meets(meta, requirements[k]@));
    }
}

/// Whenever metadata is read and does not meet the requirements of a commit, the error is that of
/// the check of those requirements on that metadata.
pub proof fn refusals_report_the_unmet_requirement(
    metadata: TableMetadata,
    file: String,
    load: LoadMetadata,
    a: Step,
    unchanged: ConfirmUnchanged,
    b: Step,
    first: ConfirmFirst,
    c: Step,
    publish: ConfirmPublish,
    d: Step,
    requirements: &[TableRequirement],
    checked: Result<(), EngineError>,
)
    requires
        call_ensures(validate_requirements, (Some(&metadata), requirements), checked),
        checked is Err,
        load.wf(),
        load.run.plan.info.requirements@ == requirements@,
        call_ensures(LoadMetadata::loaded, (load, Ok(metadata)), a),
        unchanged.wf(),
        unchanged.run.plan.info.requirements@ == requirements@,
        call_ensures(ConfirmUnchanged::loaded, (unchanged, Ok((file, metadata))), b),
        first.wf(),
        first.run.plan.info.requirements@ == requirements@,
        call_ensures(ConfirmFirst::loaded, (first, Ok((file, metadata))), c),
        publish.wf(),
        publish.run.plan.info.requirements@ == requirements@,
        call_ensures(ConfirmPublish::loaded, (publish, Ok((file, metadata))), d),
    ensures
        gave_up(a, load.run, checked->Err_0@),
        gave_up(b, unchanged.run, checked->Err_0@),
        gave_up(c, first.run, checked->Err_0@),
        d is CleanPreparedAfter,
        d->CleanPreparedAfter_0.run == publish.run,
        d->CleanPreparedAfter_0.error@ == checked->Err_0@,
{
    let m = Some(metadata@);
    let e = checked->Err_0@;
    assert(!crate::requirements::meets_all(m, requirements@));
    lemma_refused_once(m, requirements@, a->CleanTaskFiles_0.error@, e);
    lemma_refused_once(m, requirements@, b->CleanTaskFiles_0.error@, e);
    lemma_refused_once(m, requirements@, c->CleanTaskFiles_0.error@, e);
    lemma_refused_once(m, requirements@, d->CleanPreparedAfter_0.error@, e);
}

/// A prepared snapshot whose own requirements the metadata does not meet is dropped with the error of
/// the check of those requirements on that metadata.
pub proof fn dropped_snapshots_report_the_unmet_requirement(
    step: PrepareSnapshot,
    prepared: PreparedSnapshot,
    next: Step,
    first: PrepareFirstSnapshot,
    first_next: Step,
    requirements: &[TableRequirement],
    checked: Result<(), EngineError>,
    first_checked: Result<(), EngineError>,
)
    requires
        step.wf(),
        first.wf(),
        requirements@ == prepared.requirements@,
        call_ensures(PrepareSnapshot::prepared, (step, Ok(prepared)), next),
        call_ensures(PrepareFirstSnapshot::prepared, (first, Ok(prepared)), first_next),
        call_ensures(validate_requirements, (Some(&step.base.metadata), requirements), checked),
        call_ensures(
            validate_requirements,
            (Some(&first.base.metadata), requirements),
            first_checked,
        ),
    ensures
        checked is Err ==> next is CleanPreparedAfter && next->CleanPreparedAfter_0.error@
            == checked->Err_0@,
        first_checked is Err ==> first_next is CleanPreparedAfter
            && first_next->CleanPreparedAfter_0.error@ == first_checked->Err_0@,
{
    if checked is Err {
        let m = Some(step.base.metadata@);
        assert(!crate::requirements::meets_all(m, requirements@));
        lemma_refused_once(
            m,
            requirements@,
            next->CleanPreparedAfter_0.error@,
            checked->Err_0@,
        );
    }
    if first_checked is Err {
        let m = Some(first.base.metadata@);
        assert(!crate::requirements::meets_all(m, requirements@));
        lemma_refused_once(
            m,
            requirements@,
            first_next->CleanPreparedAfter_0.error@,
            first_checked->Err_0@,
        );
    }
}

/// Where there is no table, and more than that is required, the error is that of the check of the
/// requirements without a table.
pub proof fn missing_tables_report_the_unmet_requirement(
    step: Locate,
    error: EngineError,
    next: Step,
    requirements: &[TableRequirement],
    checked: Result<(), EngineError>,
)
    requires
        call_ensures(validate_requirements, (None::<&TableMetadata>, requirements), checked),
        checked is Err,
        step.wf(),
        step.run.plan.info.requirements@ == requirements@,
        step.run.attempt == 1,
        step.run.location is None,
        call_ensures(Locate::located, (step, Err::<LocatedMetadata, EngineError>(error)), next),
    ensures
        gave_up(next, step.run, checked->Err_0@),
{
    assert(!crate::requirements::meets_all(None, requirements@));
    lemma_refused_once(None, requirements@, next->CleanTaskFiles_0.error@, checked->Err_0@);
}

/// An overwrite of whole partitions goes on exactly where the metadata has a default partition spec,
/// and else says that it has none. One that the version of the table rules out fails with the error
/// of that check.
pub proof fn overwrites_need_a_default_spec(
    step: LoadMetadata,
    metadata: TableMetadata,
    next: Step,
    requirements: &[TableRequirement],
    checked: Result<(), EngineError>,
    format: Result<(), EngineError>,
    spec: Option<&PartitionSpec>,
)
    requires
        step.wf(),
        call_ensures(LoadMetadata::loaded, (step, Ok(metadata)), next),
        requirements@ == step.run.plan.info.requirements@,
        call_ensures(validate_requirements, (Some(&metadata), requirements), checked),
        checked is Ok,
        call_ensures(
            validate_scoped_overwrite_format,
            (step.run.plan.info.snapshot_update_kind, metadata.format_version),
            format,
        ),
        call_ensures(TableMetadata::default_partition_spec, (&metadata,), spec),
    ensures
        format is Err ==> gave_up(next, step.run, format->Err_0@),
        format is Ok && !step.run.plan.validation_only && step.run.plan.dynamic_partition_overwrite
            ==> match spec {
            Some(_) => next is LoadLiveFiles && next->LoadLiveFiles_0.run == step.run
                && next->LoadLiveFiles_0.metadata == metadata,
            None => gave_up(
                next,
                step.run,
                EngineErrorView::Plan("Iceberg table metadata has no default partition spec"@),
            ),
        },
{
}

/// An error about partition specs, about the version of a table or about too many rows says what
/// cannot be done, and where it is about a spec of the table, which.
pub proof fn refusals_say_why(
    added: &[DataFile],
    live: &[DataFile],
    spec: &PartitionSpec,
    paths: Result<Vec<String>, EngineError>,
    kind: SnapshotUpdateKind,
    version: FormatVersion,
    format: Result<(), EngineError>,
    rows: u64,
    count: Result<i64, EngineError>,
)
    requires
        call_ensures(dynamic_partition_overwrite_paths, (added, live, spec), paths),
        call_ensures(validate_scoped_overwrite_format, (kind, version), format),
        call_ensures(commit_count, (rows,), count),
    ensures
        paths is Err && paths->Err_0 is Plan ==> paths->Err_0->Plan_0@
            == "dynamic partition overwrite produced files that do not match the default Iceberg partition spec "@
            + int_text(spec.spec_id as int),
        paths is Err && !(paths->Err_0 is Plan) ==> paths->Err_0@
            == EngineErrorView::NotImplemented(
            "dynamic partition overwrite is not supported for Iceberg tables with incomparable live partition specs"@,
        ),
        format is Err ==> format->Err_0@ == EngineErrorView::NotImplemented(
            "Iceberg v3 scoped overwrite is not supported until row lineage is preserved"@,
        ),
        count is Err ==> count->Err_0@ == EngineErrorView::Execution(
            "Iceberg commit row count overflow: out of range integral type conversion attempted"@,
        ),
{
}

/// A commit that cannot run where it is says whether its own partition is wrong or how many its input
/// has. Only where both are right its controls are checked, and reported as that check does.
pub proof fn misplaced_commits_say_why<P>(
    node: &IcebergCommitExec<P>,
    partition: usize,
    inputs: usize,
    r: Result<crate::commit_exec::ReadInput, EngineError>,
    checked: Result<(), EngineError>,
)
    requires
        call_ensures(IcebergCommitExec::<P>::execute, (node, partition, inputs), r),
        call_ensures(IcebergCommitExec::<P>::validate_publication_controls, (node,), checked),
    ensures
        if partition != 0 {
            r is Err && r->Err_0@ == EngineErrorView::Internal(
                "IcebergCommitExec can only be executed in a single partition"@,
            )
        } else if inputs != 1 {
            r is Err && r->Err_0@ == EngineErrorView::Internal(
                "IcebergCommitExec requires exactly one input partition, got "@ + int_text(
                    inputs as int,
                ),
            )
        } else {
            (r is Err <==> checked is Err) && (r is Err ==> r->Err_0@ == checked->Err_0@)
        },
{
    if partition == 0 && inputs == 1 && checked is Err {
        let keys = crate::snapshot_properties::keys(
            crate::snapshot_properties::pair_texts(node.snapshot_properties@),
        );
        if !crate::snapshot_properties::list_accepted(keys) {
            lemma_list_refused_once(keys, r->Err_0@, checked->Err_0@);
        }
    }
}

/// Where what was written could not be removed the error says why. Where the commit had failed before
/// that, it says that too, unless nobody can tell what is there.
pub proof fn failed_removals_are_reported(
    bootstrap: CleanBootstrap,
    prepared: CleanPrepared,
    error: EngineError,
    a: Step,
    b: Step,
)
    requires
        bootstrap.wf(),
        prepared.wf(),
        call_ensures(CleanBootstrap::cleaned, (bootstrap, Err::<(), EngineError>(error)), a),
        call_ensures(CleanPrepared::cleaned, (prepared, Err::<(), EngineError>(error)), b),
    ensures
        !nobody_can_tell(error) ==> match bootstrap.afterwards {
            AfterCleanup::Retry => gave_up(a, bootstrap.run, error@),
            AfterCleanup::Fail(e) => a is CleanTaskFiles && a->CleanTaskFiles_0.error is Execution
                && stand_in_order(
                e@.text(),
                error@.text(),
                a->CleanTaskFiles_0.error->Execution_0@,
            ),
        },
        match prepared.afterwards {
            AfterPrepared::Fail(e) => if nobody_can_tell(error) {
                gave_up(b, prepared.run, error@)
            } else {
                b is CleanTaskFiles && b->CleanTaskFiles_0.error is Execution && stand_in_order(
                    e@.text(),
                    error@.text(),
                    b->CleanTaskFiles_0.error->Execution_0@,
                )
            },
            _ => gave_up(b, prepared.run, error@),
        },
{
    lemma_errors(error);
    let between = "; uncommitted Iceberg artifact cleanup also failed: "@;
    let none = Seq::<char>::empty();
    match bootstrap.afterwards {
        AfterCleanup::Fail(e) => {
            if !nobody_can_tell(error) {
                let text = a->CleanTaskFiles_0.error->Execution_0@;
                assert(text =~= none + e@.text() + between + error@.text() + none);
                lemma_order(e@.text(), error@.text(), none, between, none, text);
            }
        },
        _ => {},
    }
    match prepared.afterwards {
        AfterPrepared::Fail(e) => {
            if !nobody_can_tell(error) {
                let text = b->CleanTaskFiles_0.error->Execution_0@;
                assert(text =~= none + e@.text() + between + error@.text() + none);
                lemma_order(e@.text(), error@.text(), none, between, none, text);
            }
        },
        _ => {},
    }
}

/// A fault of properties is told with the key that it is about, and with the values where two are at
/// odds: the earlier one, or that of the engine, and then the new one.
pub proof fn property_faults_name_key_and_values(error: SnapshotPropertyError, message: String)
    requires
        call_ensures(SnapshotPropertyError::message, (&error,), message),
    ensures
        match error {
            SnapshotPropertyError::Key { fault, key } => fault is Empty || stands_in(
                key@,
                message@,
            ),
            SnapshotPropertyError::DuplicateKey { key } => stands_in(key@, message@),
            SnapshotPropertyError::NotCanonical => true,
            SnapshotPropertyError::ConflictingValues { key, previous_value, value } => stands_in(
                key@,
                message@,
            ) && stand_in_order(previous_value@, value@, message@),
            SnapshotPropertyError::EngineCollision { key, engine_value, value } => stands_in(
                key@,
                message@,
            ) && stand_in_order(engine_value@, value@, message@),
        },
{
    match error {
        SnapshotPropertyError::Key { fault, key } => {
            if fault is SurroundingWhitespace {
                assert(message@ == "Iceberg snapshot property key `"@ + key@
                    + "` cannot have leading or trailing whitespace"@);
            }
            if fault is Reserved {
                assert(message@ == "Iceberg snapshot property key `"@ + key@ + "` is reserved"@);
            }
        },
        SnapshotPropertyError::DuplicateKey { key } => {
            assert(message@ == "duplicate Iceberg snapshot property key `"@ + key@ + "`"@);
        },
        SnapshotPropertyError::NotCanonical => {},
        SnapshotPropertyError::ConflictingValues { key, previous_value, value } => {
            let a = "duplicate Iceberg snapshot property key `"@;
            let b = "` has conflicting values `"@;
            let c = "` and `"@;
            let d = "`"@;
            assert(message@ =~= a + key@ + (b + previous_value@ + c + value@ + d));
            assert(message@ =~= (a + key@ + b) + previous_value@ + c + value@ + d);
            lemma_order(previous_value@, value@, a + key@ + b, c, d, message@);
        },
        SnapshotPropertyError::EngineCollision { key, engine_value, value } => {
            let a = "Iceberg snapshot property key `"@;
            let b = "` collides with engine summary value `"@;
            let c = "` instead of caller value `"@;
            let d = "`"@;
            assert(message@ =~= a + key@ + (b + engine_value@ + c + value@ + d));
            assert(message@ =~= (a + key@ + b) + engine_value@ + c + value@ + d);
            lemma_order(engine_value@, value@, a + key@ + b, c, d, message@);
        },
    }
}

/// What is reported of a fault of properties is what it says, as an error of planning.
pub proof fn property_faults_are_of_planning(
    error: SnapshotPropertyError,
    message: String,
    e: EngineError,
)
    requires
        call_ensures(SnapshotPropertyError::message, (&error,), message),
        call_ensures(SnapshotPropertyError::plan_error, (&error,), e),
    ensures
        e is Plan,
        e->Plan_0@ == message@,
{
}

/// A list of one property is refused with the error of its key.
pub proof fn list_of_one_is_refused_as_its_key(
    key: &str,
    properties: &[(String, String)],
    a: Result<(), EngineError>,
    b: Result<(), EngineError>,
)
    requires
        properties@.len() == 1,
        properties@[0].0@ == key@,
        call_ensures(validate_snapshot_property_key, (key,), a),
        call_ensures(validate_snapshot_properties, (properties,), b),
    ensures
        a is Ok <==> b is Ok,
        a is Err ==> a->Err_0@ == b->Err_0@,
{
    let keys = crate::snapshot_properties::keys(
        crate::snapshot_properties::pair_texts(properties@),
    );
    assert(keys.len() == 1 && keys[0] == key@);
    if b is Ok {
        assert(crate::snapshot_properties::list_fault(keys, 0) is None);
    } else {
        let fault = choose|fault: crate::snapshot_properties::SnapshotPropertyErrorView| #[trigger]
            crate::snapshot_properties::list_refused(keys, fault) && b->Err_0@
                == EngineErrorView::Plan(fault.text());
        assert(crate::snapshot_properties::list_fault(keys, 0) == Some(fault));
    }
    if a is Ok {
        assert forall|i: int| 0 <= i < keys.len() implies #[trigger]
            crate::snapshot_properties::list_fault(keys, i) is None by {}
        assert(crate::snapshot_properties::list_accepted(keys));
    }
}

proof fn lemma_joined(pieces: Seq<Seq<char>>, separator: Seq<char>, i: int)
    requires
        0 <= i < pieces.len(),
    ensures
        stands_in(pieces[i], join_text(pieces, separator)),
    decreases pieces.len(),
{
    let all = join_text(pieces, separator);
    let none = Seq::<char>::empty();
    if pieces.len() == 1 {
        assert(all =~= none + pieces[0] + none);
    } else {
        let shorter = pieces.drop_last();
        let before = join_text(shorter, separator);
        if i == pieces.len() - 1 {
            assert(all =~= (before + separator) + pieces[i] + none);
        } else {
            lemma_joined(shorter, separator, i);
            assert(shorter[i] == pieces[i]);
            let (x, y) = choose|x: Seq<char>, y: Seq<char>|
                before == #[trigger] (x + pieces[i] + y);
            assert(all =~= x + pieces[i] + (y + separator + pieces.last()));
        }
    }
}

proof fn lemma_stands_through(part: Seq<char>, middle: Seq<char>, whole: Seq<char>)
    requires
        stands_in(part, middle),
        stands_in(middle, whole),
    ensures
        stands_in(part, whole),
{
    let (x, y) = choose|x: Seq<char>, y: Seq<char>| middle == #[trigger] (x + part + y);
    let (u, v) = choose|u: Seq<char>, v: Seq<char>| whole == #[trigger] (u + middle + v);
    assert(whole =~= (u + x) + part + (y + v));
}

/// The error of a cleanup names everything that went wrong: each path that led nowhere, and the
/// reason of each deletion that failed.
pub proof fn cleanup_errors_name_everything(
    step: DeleteFiles,
    base: Vec<DeleteOutcome>,
    prefixed: Vec<DeleteOutcome>,
    r: Result<(), EngineError>,
    i: int,
)
    requires
        step.wf(),
        call_ensures(DeleteFiles::deleted, (step, base, prefixed), r),
        r is Err,
    ensures
        r->Err_0 is Execution,
        0 <= i < step.plan.failures@.len() ==> stands_in(
            step.plan.failures@[i]@,
            r->Err_0->Execution_0@,
        ),
        0 <= i < base@.len() && base@[i] is Failed ==> stands_in(
            base@[i]->Failed_0@,
            r->Err_0->Execution_0@,
        ),
        0 <= i < prefixed@.len() && prefixed@[i] is Failed ==> stands_in(
            prefixed@[i]->Failed_0@,
            r->Err_0->Execution_0@,
        ),
{
    let failures = crate::task_files::cleanup_failures(step.resolved@, base@, prefixed@);
    let text = r->Err_0->Execution_0@;
    let joined = join_text(failures, "; "@);
    let none = Seq::<char>::empty();
    assert(text =~= "failed to clean uncommitted Iceberg task files: "@ + joined + none);
    let a = texts(step.plan.failures@);
    assert(a == crate::task_files::unresolved(step.resolved@));
    let b = crate::task_files::deletion_failures(base@);
    let c = crate::task_files::deletion_failures(prefixed@);
    assert(failures == a + b + c);
    if 0 <= i < a.len() {
        assert(failures[i] == step.plan.failures@[i]@);
        lemma_joined(failures, "; "@, i);
        lemma_stands_through(failures[i], joined, text);
    }
    if 0 <= i < base@.len() && base@[i] is Failed {
        lemma_reason(base@, i);
        let at = a.len() as int;
        assert(failures[at] == b[0]);
        lemma_joined(failures, "; "@, at);
        lemma_stands_through(base@[i]->Failed_0@, failures[at], joined);
        lemma_stands_through(base@[i]->Failed_0@, joined, text);
    }
    if 0 <= i < prefixed@.len() && prefixed@[i] is Failed {
        lemma_reason(prefixed@, i);
        let at = (a.len() + b.len()) as int;
        assert(failures[at] == c[0]);
        lemma_joined(failures, "; "@, at);
        lemma_stands_through(prefixed@[i]->Failed_0@, failures[at], joined);
        lemma_stands_through(prefixed@[i]->Failed_0@, joined, text);
    }
}

proof fn lemma_order_within(
    a: Seq<char>,
    b: Seq<char>,
    middle: Seq<char>,
    x: Seq<char>,
    y: Seq<char>,
)
    requires
        stand_in_order(a, b, middle),
    ensures
        stand_in_order(a, b, x + middle + y),
{
    let (u, v, w) = choose|u: Seq<char>, v: Seq<char>, w: Seq<char>|
        middle == #[trigger] (u + a + v + b + w);
    assert(x + middle + y =~= (x + u) + a + v + b + (w + y));
}

proof fn lemma_order_of_parts(
    a: Seq<char>,
    m: Seq<char>,
    b: Seq<char>,
    n: Seq<char>,
    whole: Seq<char>,
)
    requires
        stands_in(a, m),
        stands_in(b, n),
        stand_in_order(m, n, whole),
    ensures
        stand_in_order(a, b, whole),
{
    let (x, y, z) = choose|x: Seq<char>, y: Seq<char>, z: Seq<char>|
        whole == #[trigger] (x + m + y + n + z);
    let (p, q) = choose|p: Seq<char>, q: Seq<char>| m == #[trigger] (p + a + q);
    let (u, v) = choose|u: Seq<char>, v: Seq<char>| n == #[trigger] (u + b + v);
    assert(whole =~= (x + p) + a + (q + y + u) + b + (v + z));
}

proof fn lemma_joined_in_order(pieces: Seq<Seq<char>>, separator: Seq<char>, i: int, j: int)
    requires
        0 <= i < j < pieces.len(),
    ensures
        stand_in_order(pieces[i], pieces[j], join_text(pieces, separator)),
    decreases pieces.len(),
{
    let all = join_text(pieces, separator);
    let shorter = pieces.drop_last();
    let before = join_text(shorter, separator);
    let none = Seq::<char>::empty();
    assert(shorter[i] == pieces[i]);
    if j == pieces.len() - 1 {
        lemma_joined(shorter, separator, i);
        let (x, y) = choose|x: Seq<char>, y: Seq<char>| before == #[trigger] (x + pieces[i] + y);
        assert(all =~= x + pieces[i] + (y + separator) + pieces[j] + none);
    } else {
        lemma_joined_in_order(shorter, separator, i, j);
        lemma_order_within(pieces[i], pieces[j], before, none, separator + pieces.last());
        assert(all =~= none + before + (separator + pieces.last()));
    }
}

proof fn lemma_failure_place(outcomes: Seq<DeleteOutcome>, i: int) -> (k: int)
    requires
        0 <= i < outcomes.len(),
        outcomes[i] is Failed,
    ensures
        0 <= k < failed_deletions(outcomes).len(),
        failed_deletions(outcomes)[k] == outcomes[i]->Failed_0@,
        k == failed_deletions(outcomes.take(i)).len(),
    decreases outcomes.len(),
{
    let shorter = outcomes.drop_last();
    let before = failed_deletions(shorter);
    if i < shorter.len() {
        assert(shorter[i] == outcomes[i]);
        assert(shorter.take(i) =~= outcomes.take(i));
        let k = lemma_failure_place(shorter, i);
        assert(failed_deletions(outcomes)[k] == before[k]);
        k
    } else {
        assert(outcomes.take(i) =~= shorter);
        before.len() as int
    }
}

proof fn lemma_failures_grow(outcomes: Seq<DeleteOutcome>, i: int, j: int)
    requires
        0 <= i < j <= outcomes.len(),
        outcomes[i] is Failed,
    ensures
        failed_deletions(outcomes.take(i)).len() < failed_deletions(outcomes.take(j)).len(),
    decreases j,
{
    assert(outcomes.take(j).drop_last() =~= outcomes.take(j - 1));
    if i < j - 1 {
        lemma_failures_grow(outcomes, i, j - 1);
    }
}

/// The reasons in an error of a cleanup come in their order: the paths that led nowhere, then the
/// deletions in the store, then those below the table.
pub proof fn cleanup_errors_come_in_order(
    step: DeleteFiles,
    base: Vec<DeleteOutcome>,
    prefixed: Vec<DeleteOutcome>,
    r: Result<(), EngineError>,
    i: int,
    j: int,
)
    requires
        step.wf(),
        call_ensures(DeleteFiles::deleted, (step, base, prefixed), r),
        r is Err,
        i >= 0,
        j >= 0,
    ensures
        ({
            let text = r->Err_0->Execution_0@;
            let failures = step.plan.failures@;
            &&& i < j < failures.len() ==> stand_in_order(failures[i]@, failures[j]@, text)
            &&& i < failures.len() && j < base@.len() && base@[j] is Failed ==> stand_in_order(
                failures[i]@,
                base@[j]->Failed_0@,
                text,
            )
            &&& i < j < base@.len() && base@[i] is Failed && base@[j] is Failed ==> stand_in_order(
                base@[i]->Failed_0@,
                base@[j]->Failed_0@,
                text,
            )
            &&& i < base@.len() && base@[i] is Failed && j < prefixed@.len() && prefixed@[j]
                is Failed ==> stand_in_order(base@[i]->Failed_0@, prefixed@[j]->Failed_0@, text)
            &&& i < j < prefixed@.len() && prefixed@[i] is Failed && prefixed@[j] is Failed
                ==> stand_in_order(prefixed@[i]->Failed_0@, prefixed@[j]->Failed_0@, text)
        }),
{
    let text = r->Err_0->Execution_0@;
    let failures = crate::task_files::cleanup_failures(step.resolved@, base@, prefixed@);
    let joined = join_text(failures, "; "@);
    let none = Seq::<char>::empty();
    let prefix = "failed to clean uncommitted Iceberg task files: "@;
    assert(text =~= prefix + joined + none);
    let a = texts(step.plan.failures@);
    assert(a == crate::task_files::unresolved(step.resolved@));
    let b = crate::task_files::deletion_failures(base@);
    let c = crate::task_files::deletion_failures(prefixed@);
    assert(failures == a + b + c);
    if i < j < a.len() {
        assert(failures[i] == a[i] && failures[j] == a[j]);
        lemma_joined_in_order(failures, "; "@, i, j);
        lemma_order_within(failures[i], failures[j], joined, prefix, none);
    }
    let at_b = a.len() as int;
    let at_c = (a.len() + b.len()) as int;
    if i < a.len() && j < base@.len() && base@[j] is Failed {
        lemma_reason(base@, j);
        assert(failures[i] == a[i] && failures[at_b] == b[0]);
        lemma_joined_in_order(failures, "; "@, i, at_b);
        lemma_order_within(failures[i], failures[at_b], joined, prefix, none);
        assert(failures[i] =~= none + failures[i] + none);
        lemma_order_of_parts(
            failures[i],
            failures[i],
            base@[j]->Failed_0@,
            failures[at_b],
            text,
        );
    }
    if i < j < base@.len() && base@[i] is Failed && base@[j] is Failed {
        lemma_reasons_in_order(base@, i, j);
        assert(failures[at_b] == b[0]);
        lemma_piece_order(failures, at_b, base@[i]->Failed_0@, base@[j]->Failed_0@, prefix);
    }
    if i < base@.len() && base@[i] is Failed && j < prefixed@.len() && prefixed@[j] is Failed {
        lemma_reason(base@, i);
        lemma_reason(prefixed@, j);
        assert(failures[at_b] == b[0] && failures[at_c] == c[0]);
        lemma_joined_in_order(failures, "; "@, at_b, at_c);
        lemma_order_within(failures[at_b], failures[at_c], joined, prefix, none);
        lemma_order_of_parts(
            base@[i]->Failed_0@,
            failures[at_b],
            prefixed@[j]->Failed_0@,
            failures[at_c],
            text,
        );
    }
    if i < j < prefixed@.len() && prefixed@[i] is Failed && prefixed@[j] is Failed {
        lemma_reasons_in_order(prefixed@, i, j);
        assert(failures[at_c] == c[0]);
        lemma_piece_order(failures, at_c, prefixed@[i]->Failed_0@, prefixed@[j]->Failed_0@, prefix);
    }
}

/// The reason of a failed deletion stands in the one message about all of them.
proof fn lemma_reason(outcomes: Seq<DeleteOutcome>, i: int)
    requires
        0 <= i < outcomes.len(),
        outcomes[i] is Failed,
    ensures
        crate::task_files::deletion_failures(outcomes).len() == 1,
        stands_in(
            outcomes[i]->Failed_0@,
            crate::task_files::deletion_failures(outcomes)[0],
        ),
{
    let k = lemma_failure_place(outcomes, i);
    let f = failed_deletions(outcomes);
    lemma_joined(f, "; "@, k);
    let own = join_text(f, "; "@);
    let message = crate::task_files::deletion_failures(outcomes)[0];
    assert(message =~= "Execution error: "@ + own + Seq::<char>::empty());
    lemma_stands_through(f[k], own, message);
}

proof fn lemma_reasons_in_order(outcomes: Seq<DeleteOutcome>, i: int, j: int)
    requires
        0 <= i < j < outcomes.len(),
        outcomes[i] is Failed,
        outcomes[j] is Failed,
    ensures
        crate::task_files::deletion_failures(outcomes).len() == 1,
        stand_in_order(
            outcomes[i]->Failed_0@,
            outcomes[j]->Failed_0@,
            crate::task_files::deletion_failures(outcomes)[0],
        ),
{
    let k = lemma_failure_place(outcomes, i);
    let l = lemma_failure_place(outcomes, j);
    lemma_failures_grow(outcomes, i, j);
    let f = failed_deletions(outcomes);
    lemma_joined_in_order(f, "; "@, k, l);
    let own = join_text(f, "; "@);
    let none = Seq::<char>::empty();
    let message = crate::task_files::deletion_failures(outcomes)[0];
    assert(message =~= "Execution error: "@ + own + none);
    lemma_order_within(f[k], f[l], own, "Execution error: "@, none);
}

proof fn lemma_piece_order(
    pieces: Seq<Seq<char>>,
    k: int,
    a: Seq<char>,
    b: Seq<char>,
    prefix: Seq<char>,
)
    requires
        0 <= k < pieces.len(),
        stand_in_order(a, b, pieces[k]),
    ensures
        stand_in_order(a, b, prefix + join_text(pieces, "; "@)),
{
    lemma_joined(pieces, "; "@, k);
    let joined = join_text(pieces, "; "@);
    let none = Seq::<char>::empty();
    let (x, y) = choose|x: Seq<char>, y: Seq<char>| joined == #[trigger] (x + pieces[k] + y);
    lemma_order_within(a, b, pieces[k], x, y);
    lemma_order_within(a, b, joined, prefix, none);
    assert(prefix + joined + none =~= prefix + joined);
}

/// A plan that lacks a column is refused with the first partition field that does.
pub proof fn plans_name_the_first_missing_column<P, S, O, M>(
    builder: IcebergPlanBuilder<P, S, O, M>,
    r: Result<IcebergCommitExec<IcebergWriterNode<P, S, O, M>>, EngineError>,
)
    requires
        call_ensures(IcebergPlanBuilder::<P, S, O, M>::build, (builder,), r),
        r is Err,
    ensures
        ({
            let fields = builder.table_config.partition_columns@;
            exists|i: int|
                {
                    &&& 0 <= i < fields.len()
                    &&& !crate::plan_laws::has_column(
                        builder.input,
                        (#[trigger] fields[i]).column@,
                    )
                    &&& stands_in(fields[i].expression@, r->Err_0->Plan_0@)
                    &&& forall|j: int|
                        0 <= j < i ==> crate::plan_laws::has_column(
                            builder.input,
                            (#[trigger] fields[j]).column@,
                        )
                }
        }),
{
    let fields = builder.table_config.partition_columns@;
    let columns = texts(builder.input.columns@);
    let error = r->Err_0@;
    let i = choose|i: int|
        0 <= i < fields.len() && !columns.contains((#[trigger] fields[i]).column@) && error
            == EngineErrorView::Plan(
            "Partition column '"@ + fields[i].expression@ + "' not found in schema"@,
        ) && forall|j: int| 0 <= j < i ==> columns.contains((#[trigger] fields[j]).column@);
    crate::plan_laws::lemma_has_column(builder.input, fields[i].column@);
    assert forall|j: int| 0 <= j < i implies crate::plan_laws::has_column(
        builder.input,
        (#[trigger] fields[j]).column@,
    ) by {
        crate::plan_laws::lemma_has_column(builder.input, fields[j].column@);
    }
    assert(r->Err_0->Plan_0@ == "Partition column '"@ + fields[i].expression@
        + "' not found in schema"@);
}

/// One text is found in another exactly where it stands in it.
pub proof fn texts_are_found_where_they_stand(text: &str, needle: &str, r: bool, chars: Vec<char>)
    requires
        call_ensures(text_contains, (text, needle), r),
        call_ensures(chars_of, (text,), chars),
    ensures
        r <==> stands_in(needle@, text@),
        chars@ == text@,
{
    lemma_contains(text@, needle@);
}

/// A map gives back what was put in under a key, and under every other key what it gave before.
pub proof fn maps_give_back_what_was_put_in<V>(
    map: &mut TextMap<V>,
    key: String,
    value: V,
    r: (),
    own: &str,
    found: Option<&V>,
    other: &str,
    before: Option<&V>,
    after: Option<&V>,
)
    requires
        call_ensures(TextMap::<V>::insert, (map, key, value), r),
        own@ == key@,
        other@ != key@,
        call_ensures(TextMap::<V>::get, (&*final(map), own), found),
        call_ensures(TextMap::<V>::get, (&*map, other), before),
        call_ensures(TextMap::<V>::get, (&*final(map), other), after),
    ensures
        found is Some,
        *found->0 == value,
        before is Some <==> after is Some,
        before is Some ==> *before->0 == *after->0,
{
}

/// A new map holds nothing.
pub proof fn new_maps_are_empty<V>(map: TextMap<V>, key: &str, found: Option<&V>)
    requires
        call_ensures(TextMap::<V>::new, (), map),
        call_ensures(TextMap::<V>::get, (&map, key), found),
    ensures
        found is None,
{
}

/// A new summary has its operation and nothing else.
pub proof fn new_summaries_are_empty(operation: Operation, summary: Summary, key: Seq<char>)
    requires
        call_ensures(Summary::new, (operation,), summary),
    ensures
        summary.operation == operation,
        !summary.additional_properties@.contains_key(key),
{
}

/// A new node has what it was given, expects nothing and removes nothing.
pub proof fn new_nodes_expect_nothing<P>(
    input: P,
    table_url: String,
    table: Option<crate::table::LakehouseExecutionContext>,
    kind: SnapshotUpdateKind,
    node: IcebergCommitExec<P>,
)
    requires
        call_ensures(IcebergCommitExec::<P>::new, (input, table_url, table, kind), node),
    ensures
        node.input == input,
        node.table_url == table_url,
        node.lakehouse_table == table,
        node.snapshot_update_kind == kind,
        node.expected_snapshot_id is None,
        node.caller_expected_snapshot_id is None,
        node.snapshot_properties@.len() == 0,
        node.removed_data_file_paths@.len() == 0,
        !node.dynamic_partition_overwrite,
{
}

/// What is asked of a node is what it holds.
pub proof fn nodes_tell_what_they_hold<P>(
    node: &IcebergCommitExec<P>,
    url: &str,
    input: &P,
    kind: SnapshotUpdateKind,
    planned: Option<Option<i64>>,
    expected: Option<i64>,
    dynamic: bool,
    paths: &[String],
    properties: &[(String, String)],
    table: Option<&crate::table::LakehouseExecutionContext>,
)
    requires
        call_ensures(IcebergCommitExec::<P>::table_url, (node,), url),
        call_ensures(IcebergCommitExec::<P>::input, (node,), input),
        call_ensures(IcebergCommitExec::<P>::snapshot_update_kind, (node,), kind),
        call_ensures(IcebergCommitExec::<P>::expected_snapshot_id, (node,), planned),
        call_ensures(IcebergCommitExec::<P>::caller_expected_snapshot_id, (node,), expected),
        call_ensures(IcebergCommitExec::<P>::dynamic_partition_overwrite, (node,), dynamic),
        call_ensures(IcebergCommitExec::<P>::removed_data_file_paths, (node,), paths),
        call_ensures(IcebergCommitExec::<P>::snapshot_properties, (node,), properties),
        call_ensures(IcebergCommitExec::<P>::lakehouse_table, (node,), table),
    ensures
        url@ == node.table_url@,
        *input == node.input,
        kind == node.snapshot_update_kind,
        planned == node.expected_snapshot_id,
        expected == node.caller_expected_snapshot_id,
        dynamic == node.dynamic_partition_overwrite,
        paths@ == node.removed_data_file_paths@,
        properties@ == node.snapshot_properties@,
        table is Some <==> node.lakehouse_table is Some,
        table is Some ==> *table->0 == node.lakehouse_table->0,
{
}

/// The controls of a caller hold up exactly where their properties are accepted and the snapshot
/// that they expect, if any, is a positive number. Faults of properties are reported first, as they
/// are.
pub proof fn controls_are_checked<P>(
    node: &IcebergCommitExec<P>,
    r: Result<(), EngineError>,
    properties: &[(String, String)],
    checked: Result<(), EngineError>,
)
    requires
        call_ensures(IcebergCommitExec::<P>::validate_publication_controls, (node,), r),
        properties@ == node.snapshot_properties@,
        call_ensures(validate_snapshot_properties, (properties,), checked),
    ensures
        r is Ok <==> checked is Ok && (node.caller_expected_snapshot_id is Some
            ==> node.caller_expected_snapshot_id->0 > 0),
        r is Err ==> r->Err_0 is Plan,
        checked is Err ==> r->Err_0@ == checked->Err_0@,
{
    if checked is Err {
        let keys = crate::snapshot_properties::keys(
            crate::snapshot_properties::pair_texts(properties@),
        );
        lemma_list_refused_once(keys, r->Err_0@, checked->Err_0@);
    }
}

proof fn lemma_list_refused_once(keys: Seq<Seq<char>>, a: EngineErrorView, b: EngineErrorView)
    requires
        crate::snapshot_properties::list_refused_with(keys, a),
        crate::snapshot_properties::list_refused_with(keys, b),
    ensures
        a == b,
{
    let x = choose|fault: crate::snapshot_properties::SnapshotPropertyErrorView| #[trigger]
        crate::snapshot_properties::list_refused(keys, fault) && a == EngineErrorView::Plan(
            fault.text(),
        );
    let y = choose|fault: crate::snapshot_properties::SnapshotPropertyErrorView| #[trigger]
        crate::snapshot_properties::list_refused(keys, fault) && b == EngineErrorView::Plan(
            fault.text(),
        );
    let i = choose|i: int|
        0 <= i < keys.len() && #[trigger] crate::snapshot_properties::list_fault(keys, i) == Some(x)
            && forall|j: int|
            0 <= j < i ==> #[trigger] crate::snapshot_properties::list_fault(keys, j) is None;
    let k = choose|k: int|
        0 <= k < keys.len() && #[trigger] crate::snapshot_properties::list_fault(keys, k) == Some(y)
            && forall|j: int|
            0 <= j < k ==> #[trigger] crate::snapshot_properties::list_fault(keys, j) is None;
    if i < k {
        assert(crate::snapshot_properties::list_fault(keys, i) is None);
    }
    if k < i {
        assert(crate::snapshot_properties::list_fault(keys, k) is None);
    }
}

/// Deciding class by class is the same as deciding for the exception: the search goes on exactly
/// past classes without a marker, and what it finds is what the exception declares.
pub proof fn searching_class_by_class_declares_the_same(
    error: &PythonException,
    declared: Option<PythonDataSourceFailure>,
    i: int,
    found: MarkerSearch,
)
    requires
        error.classes is Some,
        call_ensures(declared_failure_kind, (error,), declared),
        crate::python_laws::decides_at(error.classes->0@, i),
        call_ensures(search_class, (&error.classes->0@[i],), found),
    ensures
        found == MarkerSearch::Found(declared),
{
    crate::python_laws::lemma_declared(error.classes->0@);
}

/// The search goes on exactly past classes without a marker.
pub proof fn only_missing_markers_are_passed(marker: &ClassMarker, found: MarkerSearch)
    requires
        call_ensures(search_class, (marker,), found),
    ensures
        found is Continue <==> *marker is Missing,
{
}

/// Each constructor makes the error that it is named after, with its message as it is. A context
/// keeps what it was given.
pub proof fn python_errors_are_what_they_are_made_as(
    text: String,
    a: PythonDataSourceError,
    b: PythonDataSourceError,
    c: PythonDataSourceError,
    d: PythonDataSourceError,
    e: PythonDataSourceError,
    operation: &'static str,
    context: PythonDataSourceContext,
    reason: &str,
    message: String,
)
    requires
        call_ensures(PythonDataSourceError::python, (text,), a),
        call_ensures(PythonDataSourceError::schema, (text,), b),
        call_ensures(PythonDataSourceError::version, (text,), c),
        call_ensures(PythonDataSourceError::arrow, (text,), d),
        call_ensures(PythonDataSourceError::resource_exhausted, (text,), e),
        call_ensures(PythonDataSourceContext::new, (text, operation), context),
        call_ensures(cloudpickle_import_failure, (reason,), message),
    ensures
        a == PythonDataSourceError::PythonError(text),
        b == PythonDataSourceError::SchemaError(text),
        c == PythonDataSourceError::VersionError(text),
        d == PythonDataSourceError::ArrowError(text),
        e == PythonDataSourceError::ResourceExhausted(text),
        context.datasource_name == text,
        context.operation@ == operation@,
        stands_in(reason@, message@),
{
    assert(message@ == "Failed to import pyspark.cloudpickle: "@ + reason@
        + ". PySpark must be installed to use Python data sources."@);
}

/// A new writer has its settings, and no file yet.
pub proof fn new_writers_have_no_files<W, B>(
    settings: WriterSettings,
    spec_id: i32,
    url: String,
    table: IcebergTableWriter<W, B>,
)
    requires
        call_ensures(IcebergTableWriter::<W, B>::new, (settings, spec_id, url), table),
    ensures
        table.settings == settings,
        table.partition_spec_id == spec_id,
        table.data_url == url,
        table.open@.len() == 0,
        table.written@.len() == 0,
        table.queue@.len() == 0,
{
}

} // verus!
