//! The requirements of a commit, and whether a table meets them.
use vstd::prelude::*;
use vstd::string::*;

use crate::content::{optional_view, views, Content};
use crate::error::{plan_error, EngineError, EngineErrorView};
use crate::identifier::{uuid_chars, uuid_text};
use crate::table::{TableMetadata, TableMetadataView, TableRequirement, TableRequirementView};
use crate::text::{
    i64_text, int_text, optional_i64_text, optional_int_text, text_equal,
};

verus! {

/// A snapshot ID that stands for a snapshot: a negative one stands for none.
pub open spec fn existing_snapshot(id: Option<i64>) -> Option<i64> {
    match id {
        Some(id) => if id >= 0 {
            Some(id)
        } else {
            None
        },
        None => None,
    }
}

/// The snapshot that a reference of a table points to.
pub open spec fn referenced_snapshot(meta: TableMetadataView, reference: Seq<char>) -> Option<i64> {
    existing_snapshot(
        if reference == "main"@ {
            meta.current_snapshot_id
        } else if meta.refs.contains_key(reference) {
            Some(meta.refs[reference].snapshot_id)
        } else {
            None
        },
    )
}

/// The sort order of a table: order 0 where none is recorded.
pub open spec fn sort_order(meta: TableMetadataView) -> i64 {
    match meta.default_sort_order_id {
        Some(id) => id as i64,
        None => 0,
    }
}

/// A table meets a requirement.
pub open spec fn meets(meta: Option<TableMetadataView>, requirement: TableRequirementView) -> bool {
    match requirement {
        TableRequirementView::NotExist => meta is None,
        TableRequirementView::UuidMatch { uuid } => meta is Some && meta->0.table_uuid == Some(
            uuid,
        ),
        TableRequirementView::RefSnapshotIdMatch { reference, snapshot_id } => meta is Some
            && referenced_snapshot(meta->0, reference) == snapshot_id,
        TableRequirementView::LastAssignedFieldIdMatch { last_assigned_field_id } => meta is Some
            && meta->0.last_column_id == last_assigned_field_id,
        TableRequirementView::CurrentSchemaIdMatch { current_schema_id } => meta is Some
            && meta->0.current_schema_id == current_schema_id,
        TableRequirementView::LastAssignedPartitionIdMatch { last_assigned_partition_id } => meta
            is Some && meta->0.last_partition_id == last_assigned_partition_id,
        TableRequirementView::DefaultSpecIdMatch { default_spec_id } => meta is Some
            && meta->0.default_spec_id == default_spec_id,
        TableRequirementView::DefaultSortOrderIdMatch { default_sort_order_id } => meta is Some
            && sort_order(meta->0) == default_sort_order_id,
    }
}

/// A table meets all of the requirements.
pub open spec fn meets_all(meta: Option<TableMetadataView>, requirements: Seq<TableRequirement>) -> bool {
    forall|i: int| 0 <= i < requirements.len() ==> meets(meta, (#[trigger] requirements[i])@)
}

/// An optional identifier as text.
pub open spec fn optional_uuid_text(uuid: Option<u128>) -> Seq<char> {
    match uuid {
        Some(uuid) => "Some("@ + uuid_chars(uuid) + ")"@,
        None => "None"@,
    }
}

/// The message about an ID that is not the expected one.
pub open spec fn mismatch_text(what: Seq<char>, expected: int, found: int) -> Seq<char> {
    "Iceberg commit failed: expected "@ + what + " "@ + int_text(expected) + " but found "@
        + int_text(found) + ". Reload table metadata and retry."@
}

/// The message about a requirement that cannot be checked without metadata.
pub open spec fn missing_text(what: Seq<char>) -> Seq<char> {
    "Iceberg table metadata missing while validating "@ + what + " requirement"@
}

/// The message about a requirement that a table does not meet.
pub open spec fn unmet_text(
    meta: Option<TableMetadataView>,
    requirement: TableRequirementView,
) -> Seq<char> {
    match requirement {
        TableRequirementView::NotExist =>
            "Iceberg table already exists but commit asserted non-existence."@,
        TableRequirementView::UuidMatch { uuid } => match meta {
            None => missing_text("UUID"@),
            Some(meta) => "Iceberg commit failed: expected table UUID "@ + uuid_chars(uuid)
                + " but found "@ + optional_uuid_text(meta.table_uuid)
                + ". Reload table metadata and retry."@,
        },
        TableRequirementView::RefSnapshotIdMatch { reference, snapshot_id } => match meta {
            None => missing_text("snapshot"@),
            Some(meta) => "Iceberg commit failed: reference '"@ + reference
                + "' expected snapshot "@ + optional_int_text(snapshot_id) + " but found "@
                + optional_int_text(referenced_snapshot(meta, reference)),
        },
        TableRequirementView::LastAssignedFieldIdMatch { last_assigned_field_id } => match meta {
            None => missing_text("field id"@),
            Some(meta) => mismatch_text(
                "last assigned field id"@,
                last_assigned_field_id as int,
                meta.last_column_id as int,
            ),
        },
        TableRequirementView::CurrentSchemaIdMatch { current_schema_id } => match meta {
            None => missing_text("schema"@),
            Some(meta) => mismatch_text(
                "current schema id"@,
                current_schema_id as int,
                meta.current_schema_id as int,
            ),
        },
        TableRequirementView::LastAssignedPartitionIdMatch { last_assigned_partition_id } =>
            match meta {
            None => missing_text("partition id"@),
            Some(meta) => mismatch_text(
                "last assigned partition id"@,
                last_assigned_partition_id as int,
                meta.last_partition_id as int,
            ),
        },
        TableRequirementView::DefaultSpecIdMatch { default_spec_id } => match meta {
            None => missing_text("partition spec"@),
            Some(meta) => mismatch_text(
                "default partition spec id"@,
                default_spec_id as int,
                meta.default_spec_id as int,
            ),
        },
        TableRequirementView::DefaultSortOrderIdMatch { default_sort_order_id } => match meta {
            None => missing_text("sort order"@),
            Some(meta) => mismatch_text(
                "default sort order id"@,
                default_sort_order_id as int,
                sort_order(meta) as int,
            ),
        },
    }
}

/// The check of the requirements ends in this error: that of the first one that is not met.
pub open spec fn requirements_refused(
    meta: Option<TableMetadataView>,
    requirements: Seq<TableRequirement>,
    error: EngineErrorView,
) -> bool {
    exists|i: int|
        0 <= i < requirements.len() && !meets(meta, (#[trigger] requirements[i])@) && error
            == EngineErrorView::Plan(unmet_text(meta, requirements[i]@)) && forall|j: int|
            0 <= j < i ==> meets(meta, (#[trigger] requirements[j])@)
}

fn mismatch(what: &str, expected: i64, found: i64) -> (e: EngineError)
    ensures
        e@ == EngineErrorView::Plan(mismatch_text(what@, expected as int, found as int)),
{
    EngineError::Plan(
        String::from_str("Iceberg commit failed: expected ").concat(what).concat(" ").concat(
            i64_text(expected).as_str(),
        ).concat(" but found ").concat(i64_text(found).as_str()).concat(
            ". Reload table metadata and retry.",
        ),
    )
}

fn missing(what: &str) -> (e: EngineError)
    ensures
        e@ == EngineErrorView::Plan(missing_text(what@)),
{
    EngineError::Plan(
        String::from_str("Iceberg table metadata missing while validating ").concat(what).concat(
            " requirement",
        ),
    )
}

fn optional_uuid(uuid: Option<u128>) -> (r: String)
    ensures
        r@ == optional_uuid_text(uuid),
{
    match uuid {
        Some(uuid) => String::from_str("Some(").concat(uuid_text(uuid).as_str()).concat(")"),
        None => String::from_str("None"),
    }
}

/// The snapshot that a reference of a table points to.
fn snapshot_of_reference(meta: &TableMetadata, reference: &str) -> (r: Option<i64>)
    ensures
        r == referenced_snapshot(meta@, reference@),
{
    let recorded: Option<i64> = if text_equal(reference, "main") {
        meta.current_snapshot_id
    } else {
        match meta.refs.get(reference) {
            Some(entry) => Some(entry.snapshot_id),
            None => None,
        }
    };
    match recorded {
        Some(id) => if id >= 0 {
            Some(id)
        } else {
            None
        },
        None => None,
    }
}

fn check_reference(
    meta: Option<&TableMetadata>,
    reference: &String,
    snapshot_id: Option<i64>,
    Ghost(requirement): Ghost<TableRequirementView>,
) -> (r: Result<(), EngineError>)
    requires
        requirement == (TableRequirementView::RefSnapshotIdMatch {
            reference: reference@,
            snapshot_id,
        }),
    ensures
        r is Ok <==> meets(owned(meta), requirement),
        r matches Err(e) ==> e@ == EngineErrorView::Plan(unmet_text(owned(meta), requirement)),
{
    match meta {
        None => Err(missing("snapshot")),
        Some(meta) => {
            let actual = snapshot_of_reference(meta, reference.as_str());
            let matches: bool = match (actual, snapshot_id) {
                (Some(a), Some(b)) => a == b,
                (None, None) => true,
                _ => false,
            };
            if matches {
                Ok(())
            } else {
                Err(
                    EngineError::Plan(
                        String::from_str("Iceberg commit failed: reference '").concat(
                            reference.as_str(),
                        ).concat("' expected snapshot ").concat(
                            optional_i64_text(snapshot_id).as_str(),
                        ).concat(" but found ").concat(optional_i64_text(actual).as_str()),
                    ),
                )
            }
        },
    }
}

fn check_uuid(meta: Option<&TableMetadata>, uuid: u128) -> (r: Result<(), EngineError>)
    ensures
        r is Ok <==> meets(owned(meta), TableRequirementView::UuidMatch { uuid }),
        r matches Err(e) ==> e@ == EngineErrorView::Plan(
            unmet_text(owned(meta), TableRequirementView::UuidMatch { uuid }),
        ),
{
    match meta {
        None => Err(missing("UUID")),
        Some(meta) => {
            let matches: bool = match meta.table_uuid {
                Some(found) => found == uuid,
                None => false,
            };
            if matches {
                Ok(())
            } else {
                Err(
                    EngineError::Plan(
                        String::from_str("Iceberg commit failed: expected table UUID ").concat(
                            uuid_text(uuid).as_str(),
                        ).concat(" but found ").concat(
                            optional_uuid(meta.table_uuid).as_str(),
                        ).concat(". Reload table metadata and retry."),
                    ),
                )
            }
        },
    }
}

/// What optional metadata holds.
pub open spec fn owned(meta: Option<&TableMetadata>) -> Option<TableMetadataView> {
    match meta {
        Some(meta) => Some(meta@),
        None => None,
    }
}

/// Checks one requirement.
fn check_requirement(meta: Option<&TableMetadata>, requirement: &TableRequirement) -> (r: Result<
    (),
    EngineError,
>)
    ensures
        r is Ok <==> meets(owned(meta), requirement@),
        r matches Err(e) ==> e@ == EngineErrorView::Plan(unmet_text(owned(meta), requirement@)),
{
    match requirement {
        TableRequirement::NotExist => match meta {
            Some(_) => Err(
                plan_error("Iceberg table already exists but commit asserted non-existence."),
            ),
            None => Ok(()),
        },
        TableRequirement::UuidMatch { uuid } => check_uuid(meta, *uuid),
        TableRequirement::RefSnapshotIdMatch { reference, snapshot_id } => check_reference(
            meta,
            reference,
            *snapshot_id,
            Ghost(requirement@),
        ),
        TableRequirement::LastAssignedFieldIdMatch { last_assigned_field_id } => match meta {
            None => Err(missing("field id")),
            Some(meta) => if meta.last_column_id == *last_assigned_field_id {
                Ok(())
            } else {
                Err(
                    mismatch(
                        "last assigned field id",
                        *last_assigned_field_id as i64,
                        meta.last_column_id as i64,
                    ),
                )
            },
        },
        TableRequirement::CurrentSchemaIdMatch { current_schema_id } => match meta {
            None => Err(missing("schema")),
            Some(meta) => if meta.current_schema_id == *current_schema_id {
                Ok(())
            } else {
                Err(
                    mismatch(
                        "current schema id",
                        *current_schema_id as i64,
                        meta.current_schema_id as i64,
                    ),
                )
            },
        },
        TableRequirement::LastAssignedPartitionIdMatch { last_assigned_partition_id } =>
            match meta {
            None => Err(missing("partition id")),
            Some(meta) => if meta.last_partition_id == *last_assigned_partition_id {
                Ok(())
            } else {
                Err(
                    mismatch(
                        "last assigned partition id",
                        *last_assigned_partition_id as i64,
                        meta.last_partition_id as i64,
                    ),
                )
            },
        },
        TableRequirement::DefaultSpecIdMatch { default_spec_id } => match meta {
            None => Err(missing("partition spec")),
            Some(meta) => if meta.default_spec_id == *default_spec_id {
                Ok(())
            } else {
                Err(
                    mismatch(
                        "default partition spec id",
                        *default_spec_id as i64,
                        meta.default_spec_id as i64,
                    ),
                )
            },
        },
        TableRequirement::DefaultSortOrderIdMatch { default_sort_order_id } => match meta {
            None => Err(missing("sort order")),
            Some(meta) => {
                let actual: i64 = match meta.default_sort_order_id {
                    Some(id) => id as i64,
                    None => 0,
                };
                if actual == *default_sort_order_id {
                    Ok(())
                } else {
                    Err(mismatch("default sort order id", *default_sort_order_id, actual))
                }
            },
        },
    }
}

/// Checks that a table meets the requirements of a commit. Where there is no table, no metadata is
/// given.
pub fn validate_requirements(
    table_meta: Option<&TableMetadata>,
    requirements: &[TableRequirement],
) -> (r: Result<(), EngineError>)
    ensures
        r is Ok <==> meets_all(owned(table_meta), requirements@),
        r matches Err(e) ==> requirements_refused(owned(table_meta), requirements@, e@),
{
    let mut i: usize = 0;
    while i < requirements.len()
        invariant
            i <= requirements.len(),
            forall|j: int|
                0 <= j < i ==> meets(owned(table_meta), (#[trigger] requirements@[j])@),
        decreases requirements.len() - i,
    {
        match check_requirement(table_meta, &requirements[i]) {
            Ok(()) => {},
            Err(error) => {
                assert(!meets(owned(table_meta), requirements@[i as int]@));
                return Err(error);
            },
        }
        i += 1;
    }
    Ok(())
}

/// The requirement that the main branch is at the snapshot that a plan was made for. The plan may
/// have been made for a table without a snapshot.
pub fn expected_snapshot_requirement(expected_snapshot_id: Option<Option<i64>>) -> (r: Option<
    TableRequirement,
>)
    ensures
        r is Some <==> expected_snapshot_id is Some,
        r matches Some(requirement) ==> requirement@ == (TableRequirementView::RefSnapshotIdMatch {
            reference: "main"@,
            snapshot_id: expected_snapshot_id->0,
        }),
{
    match expected_snapshot_id {
        Some(snapshot_id) => Some(
            TableRequirement::RefSnapshotIdMatch {
                reference: String::from_str("main"),
                snapshot_id,
            },
        ),
        None => None,
    }
}

/// The requirement that the main branch is at the snapshot that a caller named.
pub fn caller_expected_snapshot_requirement(expected_snapshot_id: Option<i64>) -> (r: Option<
    TableRequirement,
>)
    ensures
        r is Some <==> expected_snapshot_id is Some,
        r matches Some(requirement) ==> requirement@ == (TableRequirementView::RefSnapshotIdMatch {
            reference: "main"@,
            snapshot_id: expected_snapshot_id,
        }),
{
    match expected_snapshot_id {
        Some(snapshot_id) => Some(
            TableRequirement::RefSnapshotIdMatch {
                reference: String::from_str("main"),
                snapshot_id: Some(snapshot_id),
            },
        ),
        None => None,
    }
}

/// The requirements with one more at their end, unless it is among them.
pub open spec fn with_requirement(
    requirements: Seq<TableRequirementView>,
    requirement: Option<TableRequirementView>,
) -> Seq<TableRequirementView> {
    match requirement {
        Some(r) => if requirements.contains(r) {
            requirements
        } else {
            requirements.push(r)
        },
        None => requirements,
    }
}

/// Whether a requirement is among others.
fn contains_requirement(
    requirements: &Vec<TableRequirement>,
    requirement: &TableRequirement,
) -> (r: bool)
    ensures
        r == views(requirements@).contains(requirement@),
{
    let ghost held = views(requirements@);
    let mut i: usize = 0;
    while i < requirements.len()
        invariant
            i <= requirements.len(),
            held == views(requirements@),
            forall|j: int| 0 <= j < i ==> (#[trigger] held[j]) != requirement@,
        decreases requirements.len() - i,
    {
        if requirements[i].same(requirement) {
            assert(held[i as int] == requirement@);
            return true;
        }
        i += 1;
    }
    false
}

/// Adds a requirement unless it is there already.
pub fn add_requirement(
    requirements: &mut Vec<TableRequirement>,
    requirement: Option<TableRequirement>,
)
    ensures
        views(final(requirements)@) == with_requirement(
            views(old(requirements)@),
            optional_view(requirement),
        ),
{
    match requirement {
        Some(requirement) => {
            if !contains_requirement(requirements, &requirement) {
                requirements.push(requirement);
                assert(views(requirements@) =~= views(old(requirements)@).push(requirement@));
            }
        },
        None => {},
    }
}

/// A table that moved away from the snapshot that a commit expects meets no list of requirements
/// that names that snapshot.
pub proof fn moved_branch_is_refused(
    meta: TableMetadataView,
    requirements: Seq<TableRequirement>,
    i: int,
    expected: Option<i64>,
)
    requires
        0 <= i < requirements.len(),
        requirements[i]@ == (TableRequirementView::RefSnapshotIdMatch {
            reference: "main"@,
            snapshot_id: expected,
        }),
        existing_snapshot(meta.current_snapshot_id) != expected,
    ensures
        !meets_all(Some(meta), requirements),
{
    assert(!meets(Some(meta), requirements[i]@));
}

/// The requirements that a list had, and the one that was added, all hold where the longer list
/// holds.
pub proof fn added_requirement_is_met(
    meta: Option<TableMetadataView>,
    before: Seq<TableRequirementView>,
    requirement: TableRequirementView,
)
    requires
        forall|k: int|
            0 <= k < with_requirement(before, Some(requirement)).len() ==> meets(
                meta,
                #[trigger] with_requirement(before, Some(requirement))[k],
            ),
    ensures
        meets(meta, requirement),
        forall|i: int| 0 <= i < before.len() ==> meets(meta, #[trigger] before[i]),
{
    let after = with_requirement(before, Some(requirement));
    assert forall|i: int| 0 <= i < before.len() implies meets(meta, #[trigger] before[i]) by {
        assert(after[i] == before[i]);
    }
    if before.contains(requirement) {
        let k = choose|k: int| 0 <= k < before.len() && before[k] == requirement;
        assert(after[k] == requirement);
    } else {
        assert(after[before.len() as int] == requirement);
    }
}

} // verus!
