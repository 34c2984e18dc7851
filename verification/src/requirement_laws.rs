//! What a check of requirements says of a table, in terms of what the table records.
use vstd::prelude::*;

use crate::content::views;
use crate::error::EngineError;
use crate::requirements::{
    add_requirement, caller_expected_snapshot_requirement, expected_snapshot_requirement, meets,
    meets_all, owned, validate_requirements,
};
use crate::table::{SnapshotReference, TableMetadata, TableRequirement};

verus! {

/// A recorded snapshot ID is this one. A negative ID stands for no snapshot.
pub open spec fn is_at(recorded: Option<i64>, expected: Option<i64>) -> bool {
    match expected {
        Some(id) => recorded == Some(id) && id >= 0,
        None => match recorded {
            Some(id) => id < 0,
            None => true,
        },
    }
}

/// A table is as a requirement wants it, by what it records.
pub open spec fn recorded_as(meta: TableMetadata, requirement: TableRequirement) -> bool {
    match requirement {
        TableRequirement::NotExist => false,
        TableRequirement::UuidMatch { uuid } => meta.table_uuid == Some(uuid),
        TableRequirement::RefSnapshotIdMatch { reference, snapshot_id } => if reference@
            == "main"@ {
            is_at(meta.current_snapshot_id, snapshot_id)
        } else if meta.refs@.dom().contains(reference@) {
            is_at(Some(meta.refs@[reference@].snapshot_id), snapshot_id)
        } else {
            snapshot_id is None
        },
        TableRequirement::LastAssignedFieldIdMatch { last_assigned_field_id } =>
            meta.last_column_id == last_assigned_field_id,
        TableRequirement::CurrentSchemaIdMatch { current_schema_id } => meta.current_schema_id
            == current_schema_id,
        TableRequirement::LastAssignedPartitionIdMatch { last_assigned_partition_id } =>
            meta.last_partition_id == last_assigned_partition_id,
        TableRequirement::DefaultSpecIdMatch { default_spec_id } => meta.default_spec_id
            == default_spec_id,
        TableRequirement::DefaultSortOrderIdMatch { default_sort_order_id } =>
            match meta.default_sort_order_id {
            Some(id) => id == default_sort_order_id,
            None => default_sort_order_id == 0,
        },
    }
}

proof fn lemma_meets(meta: &TableMetadata, requirement: TableRequirement)
    ensures
        meets(owned(Some(meta)), requirement@) <==> recorded_as(*meta, requirement),
{
    match requirement {
        TableRequirement::RefSnapshotIdMatch { reference, .. } => {
            assert(meta@.refs =~= meta.refs@.map_values(|r: SnapshotReference| r@));
            assert(meta@.refs.contains_key(reference@) <==> meta.refs@.contains_key(reference@));
        },
        _ => {},
    }
}

/// A table is as all requirements want it.
pub open spec fn all_recorded(meta: TableMetadata, requirements: Seq<TableRequirement>) -> bool {
    forall|i: int|
        0 <= i < requirements.len() ==> recorded_as(meta, #[trigger] requirements[i])
}

/// All that the requirements ask for is that there be no table.
pub open spec fn only_asks_for_none(requirements: Seq<TableRequirement>) -> bool {
    forall|i: int| 0 <= i < requirements.len() ==> (#[trigger] requirements[i]) is NotExist
}

pub proof fn lemma_meets_all(meta: TableMetadata, requirements: Seq<TableRequirement>)
    ensures
        meets_all(Some(meta@), requirements) <==> all_recorded(meta, requirements),
        meets_all(None, requirements) <==> only_asks_for_none(requirements),
{
    assert forall|i: int| 0 <= i < requirements.len() implies (meets(
        Some(meta@),
        (#[trigger] requirements[i])@,
    ) <==> recorded_as(meta, requirements[i])) by {
        lemma_meets(&meta, requirements[i]);
    }
    if meets_all(Some(meta@), requirements) {
        assert forall|i: int| 0 <= i < requirements.len() implies recorded_as(
            meta,
            #[trigger] requirements[i],
        ) by {
            assert(meets(Some(meta@), requirements[i]@));
        }
    }
    if meets_all(None, requirements) {
        assert forall|i: int| 0 <= i < requirements.len() implies (#[trigger] requirements[i])
            is NotExist by {
            assert(meets(None, requirements[i]@));
        }
    }
    if only_asks_for_none(requirements) {
        assert forall|i: int| 0 <= i < requirements.len() implies meets(
            None,
            (#[trigger] requirements[i])@,
        ) by {
            assert(requirements[i] is NotExist);
        }
    }
}

/// A check succeeds exactly where the table records, for each of the requirements, what that
/// requirement names: the UUID, the snapshot of the reference, the highest field ID, the current
/// schema, the highest partition field ID, the default partition spec, the default sort order. No
/// table passes a check that asks for none to be there.
pub proof fn checked_requirements_are_recorded(
    meta: &TableMetadata,
    requirements: &[TableRequirement],
    r: Result<(), EngineError>,
)
    requires
        call_ensures(validate_requirements, (Some(meta), requirements), r),
    ensures
        r is Ok <==> forall|i: int|
            0 <= i < requirements@.len() ==> recorded_as(*meta, #[trigger] requirements@[i]),
{
    assert forall|i: int| 0 <= i < requirements@.len() implies (meets(
        owned(Some(meta)),
        (#[trigger] requirements@[i])@,
    ) <==> recorded_as(*meta, requirements@[i])) by {
        lemma_meets(meta, requirements@[i]);
    }
    if r is Ok {
        assert(meets_all(owned(Some(meta)), requirements@));
        assert forall|i: int| 0 <= i < requirements@.len() implies recorded_as(
            *meta,
            #[trigger] requirements@[i],
        ) by {
            assert(meets(owned(Some(meta)), requirements@[i]@));
        }
    } else if forall|i: int|
        0 <= i < requirements@.len() ==> recorded_as(*meta, #[trigger] requirements@[i]) {
        assert(meets_all(owned(Some(meta)), requirements@));
    }
}

/// Where there is no table, a check succeeds exactly where all that is asked for is that there be
/// none.
pub proof fn missing_table_passes_only_as_missing(
    requirements: &[TableRequirement],
    r: Result<(), EngineError>,
)
    requires
        call_ensures(validate_requirements, (None::<&TableMetadata>, requirements), r),
    ensures
        r is Ok <==> forall|i: int|
            0 <= i < requirements@.len() ==> (#[trigger] requirements@[i]) is NotExist,
{
    let none = owned(None::<&TableMetadata>);
    if r is Ok {
        assert(meets_all(none, requirements@));
        assert forall|i: int| 0 <= i < requirements@.len() implies (#[trigger] requirements@[i])
            is NotExist by {
            assert(meets(none, requirements@[i]@));
        }
    } else if forall|i: int|
        0 <= i < requirements@.len() ==> (#[trigger] requirements@[i]) is NotExist {
        assert(meets_all(none, requirements@));
    }
}

/// A commit that was planned for a schema, a field numbering, a partition spec, a partition field
/// numbering, a sort order or a UUID is refused once the table has moved on to another one.
pub proof fn stale_commit_is_refused(
    meta: &TableMetadata,
    requirements: &[TableRequirement],
    r: Result<(), EngineError>,
    i: int,
)
    requires
        call_ensures(validate_requirements, (Some(meta), requirements), r),
        0 <= i < requirements@.len(),
        match requirements@[i] {
            TableRequirement::CurrentSchemaIdMatch { current_schema_id } => current_schema_id
                != meta.current_schema_id,
            TableRequirement::LastAssignedFieldIdMatch { last_assigned_field_id } =>
                last_assigned_field_id != meta.last_column_id,
            TableRequirement::DefaultSpecIdMatch { default_spec_id } => default_spec_id
                != meta.default_spec_id,
            TableRequirement::LastAssignedPartitionIdMatch { last_assigned_partition_id } =>
                last_assigned_partition_id != meta.last_partition_id,
            TableRequirement::UuidMatch { uuid } => meta.table_uuid != Some(uuid),
            TableRequirement::DefaultSortOrderIdMatch { default_sort_order_id } =>
                meta.default_sort_order_id is Some && meta.default_sort_order_id->0
                    != default_sort_order_id,
            TableRequirement::NotExist => true,
            TableRequirement::RefSnapshotIdMatch { .. } => false,
        },
    ensures
        r is Err,
{
    checked_requirements_are_recorded(meta, requirements, r);
    if r is Ok {
        assert(recorded_as(*meta, requirements@[i]));
    }
}

/// A check of a list is a check of each requirement by itself: the list passes where they all do,
/// and else it fails as the first one that does not.
pub proof fn checking_a_list_checks_each(
    meta: Option<&TableMetadata>,
    requirements: &[TableRequirement],
    r: Result<(), EngineError>,
    singles: Seq<&[TableRequirement]>,
    results: Seq<Result<(), EngineError>>,
)
    requires
        call_ensures(validate_requirements, (meta, requirements), r),
        singles.len() == requirements@.len(),
        results.len() == requirements@.len(),
        forall|i: int|
            0 <= i < requirements@.len() ==> (#[trigger] singles[i])@ == seq![requirements@[i]]
                && call_ensures(validate_requirements, (meta, singles[i]), results[i]),
    ensures
        r is Ok <==> forall|i: int| 0 <= i < results.len() ==> (#[trigger] results[i]) is Ok,
        r matches Err(e) ==> exists|i: int|
            0 <= i < results.len() && (#[trigger] results[i] matches Err(single) && single@ == e@)
                && forall|j: int| 0 <= j < i ==> (#[trigger] results[j]) is Ok,
{
    let m = owned(meta);
    assert forall|i: int| 0 <= i < results.len() implies ((#[trigger] results[i]) is Ok <==> meets(
        m,
        requirements@[i]@,
    )) by {
        assert(singles[i]@ == seq![requirements@[i]]);
        assert(singles[i]@[0] == requirements@[i]);
        if results[i] is Ok {
            assert(meets_all(m, singles[i]@));
            assert(meets(m, singles[i]@[0]@));
        }
        if meets(m, requirements@[i]@) {
            assert(meets_all(m, singles[i]@));
        }
    }
    if r is Ok {
        assert(meets_all(m, requirements@));
        assert forall|i: int| 0 <= i < results.len() implies (#[trigger] results[i]) is Ok by {
            assert(meets(m, requirements@[i]@));
        }
    } else {
        let e = r->Err_0;
        let i = choose|i: int|
            0 <= i < requirements@.len() && !meets(m, (#[trigger] requirements@[i])@) && e@
                == crate::error::EngineErrorView::Plan(
                crate::requirements::unmet_text(m, requirements@[i]@),
            ) && forall|j: int| 0 <= j < i ==> meets(m, (#[trigger] requirements@[j])@);
        assert(singles[i]@ == seq![requirements@[i]]);
        assert(singles[i]@[0] == requirements@[i]);
        assert(!(results[i] is Ok));
        assert(results[i]->Err_0@ == e@);
        assert forall|j: int| 0 <= j < i implies (#[trigger] results[j]) is Ok by {
            assert(meets(m, requirements@[j]@));
        }
    }
}

/// A requirement on the snapshot that a plan was made for is met exactly where the main branch is
/// at that snapshot, also where that is none.
pub proof fn planned_snapshot_is_checked(
    planned: Option<i64>,
    requirement: Option<TableRequirement>,
    meta: &TableMetadata,
    requirements: &[TableRequirement],
    r: Result<(), EngineError>,
)
    requires
        call_ensures(expected_snapshot_requirement, (Some(planned),), requirement),
        requirement is Some,
        requirements@ == seq![requirement->0],
        call_ensures(validate_requirements, (Some(meta), requirements), r),
    ensures
        r is Ok <==> is_at(meta.current_snapshot_id, planned),
{
    checked_requirements_are_recorded(meta, requirements, r);
    assert(requirements@[0] == requirement->0);
    lemma_meets(meta, requirement->0);
    if is_at(meta.current_snapshot_id, planned) {
        assert(meets(owned(Some(meta)), requirement->0@));
        assert(recorded_as(*meta, requirements@[0]));
    } else {
        assert(!meets(owned(Some(meta)), requirement->0@));
    }
}

/// A requirement on the snapshot that a caller expects is met exactly where the main branch is at
/// that snapshot. There is such a requirement exactly where the caller names one, and there is one
/// for a plan exactly where it depends on a snapshot.
pub proof fn caller_snapshot_is_checked(
    expected: Option<i64>,
    requirement: Option<TableRequirement>,
    meta: &TableMetadata,
    requirements: &[TableRequirement],
    r: Result<(), EngineError>,
)
    requires
        call_ensures(caller_expected_snapshot_requirement, (expected,), requirement),
        expected is Some,
        requirements@ == seq![requirement->0],
        call_ensures(validate_requirements, (Some(meta), requirements), r),
    ensures
        requirement is Some,
        r is Ok <==> is_at(meta.current_snapshot_id, expected),
{
    checked_requirements_are_recorded(meta, requirements, r);
    assert(requirements@[0] == requirement->0);
    lemma_meets(meta, requirement->0);
    if is_at(meta.current_snapshot_id, expected) {
        assert(meets(owned(Some(meta)), requirement->0@));
        assert(recorded_as(*meta, requirements@[0]));
    } else {
        assert(!meets(owned(Some(meta)), requirement->0@));
    }
}

/// Where nothing is expected there is nothing to require.
pub proof fn no_expectation_requires_nothing(
    planned: Option<TableRequirement>,
    expected: Option<TableRequirement>,
)
    requires
        call_ensures(expected_snapshot_requirement, (None::<Option<i64>>,), planned),
        call_ensures(caller_expected_snapshot_requirement, (None::<i64>,), expected),
    ensures
        planned is None,
        expected is None,
{
}

/// Adding a requirement keeps all others in their places. The added one is there afterwards, and
/// the list is longer by one only if it was not there before.
pub proof fn adding_a_requirement_keeps_the_others(
    requirements: &mut Vec<TableRequirement>,
    requirement: Option<TableRequirement>,
    r: (),
)
    requires
        call_ensures(add_requirement, (requirements, requirement), r),
    ensures
        ({
            let before = views(old(requirements)@);
            let after = views(final(requirements)@);
            &&& before.len() <= after.len() <= before.len() + 1
            &&& forall|i: int| 0 <= i < before.len() ==> #[trigger] after[i] == before[i]
            &&& requirement is None ==> after == before
            &&& requirement is Some ==> {
                &&& exists|i: int| 0 <= i < after.len() && #[trigger] after[i] == requirement->0@
                &&& after.len() > before.len() ==> after.last() == requirement->0@ && forall|
                    i: int,
                |
                    0 <= i < before.len() ==> #[trigger] before[i] != requirement->0@
                &&& after.len() == before.len() ==> exists|i: int|
                    0 <= i < before.len() && #[trigger] before[i] == requirement->0@
            }
        }),
{
    let before = views(requirements@);
    let after = views(final(requirements)@);
    if requirement is Some {
        if before.contains(requirement->0@) {
            let k = choose|k: int| 0 <= k < before.len() && before[k] == requirement->0@;
            assert(after[k] == requirement->0@);
        } else {
            assert(after[before.len() as int] == requirement->0@);
            assert forall|i: int| 0 <= i < before.len() implies #[trigger] before[i]
                != requirement->0@ by {
                if before[i] == requirement->0@ {
                    assert(before.contains(requirement->0@));
                }
            }
        }
    }
}

} // verus!
