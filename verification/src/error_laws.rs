//! What errors say, and which of them may be followed by another try.
use vstd::prelude::*;

use crate::commit_state::{commit_count, segment_after_slash};
use crate::error::{
    commit_conflict_error, is_retryable_publication_conflict, operation_with_cleanup_failure,
    publication_state_is_unknown, publication_state_unknown_error, EngineError, ExternalSource,
};
use crate::text::{contains_text, occurs_at};

verus! {

/// One text stands in another one.
pub open spec fn stands_in(part: Seq<char>, whole: Seq<char>) -> bool {
    exists|before: Seq<char>, after: Seq<char>| whole == #[trigger] (before + part + after)
}

pub proof fn lemma_contains(whole: Seq<char>, part: Seq<char>)
    ensures
        contains_text(whole, part) <==> stands_in(part, whole),
{
    if contains_text(whole, part) {
        let i = choose|i: int| #[trigger] occurs_at(whole, part, i);
        let before = whole.take(i);
        let after = whole.skip(i + part.len());
        assert(whole =~= before + part + after);
    }
    if stands_in(part, whole) {
        let (before, after) = choose|before: Seq<char>, after: Seq<char>|
            whole == #[trigger] (before + part + after);
        let i = before.len() as int;
        assert(whole.subrange(i, i + part.len()) =~= part);
        assert(occurs_at(whole, part, i));
    }
}

/// The catalog, or the store, refused a change because of another one.
pub open spec fn lost_to_another(error: EngineError) -> bool {
    match error {
        EngineError::External(ExternalSource::CatalogConflict(_)) => true,
        EngineError::External(ExternalSource::CatalogStaleMetadata(_)) => true,
        EngineError::External(ExternalSource::ObjectStoreAlreadyExists(_)) => true,
        _ => false,
    }
}

/// Nobody can tell whether the change was made.
pub open spec fn nobody_can_tell(error: EngineError) -> bool {
    match error {
        EngineError::External(ExternalSource::CatalogCommitStateUnknown(_)) => true,
        EngineError::External(ExternalSource::PublicationStateUnknown(_)) => true,
        EngineError::Execution(text) => stands_in(
            "Iceberg catalog commit state is unknown"@,
            text@,
        ),
        _ => false,
    }
}

pub proof fn lemma_errors(error: EngineError)
    ensures
        error@.retryable_conflict() <==> lost_to_another(error),
        error@.state_unknown() <==> nobody_can_tell(error),
{
    match error {
        EngineError::Execution(text) => {
            lemma_contains(text@, "Iceberg catalog commit state is unknown"@);
        },
        _ => {},
    }
}

/// A change is tried again exactly after it lost to another one, and its state is unknown exactly
/// where nobody can tell. No error is both.
pub proof fn conflicts_and_unknown_states_are_apart(
    error: EngineError,
    retryable: bool,
    unknown: bool,
)
    requires
        call_ensures(is_retryable_publication_conflict, (&error,), retryable),
        call_ensures(publication_state_is_unknown, (&error,), unknown),
    ensures
        retryable <==> lost_to_another(error),
        unknown <==> nobody_can_tell(error),
        !(retryable && unknown),
{
    lemma_errors(error);
}

/// The whole text of an error is the prefix of its kind and then what it says. An internal error goes
/// on after that.
pub proof fn error_texts_hold_what_is_said(error: EngineError, message: String)
    requires
        call_ensures(EngineError::message, (&error,), message),
    ensures
        match error {
            EngineError::Plan(t) => message@ == "Error during planning: "@ + t@,
            EngineError::Execution(t) => message@ == "Execution error: "@ + t@,
            EngineError::Internal(t) => exists|ending: Seq<char>|
                message@ == #[trigger] ("Internal error: "@ + t@ + ending),
            EngineError::NotImplemented(t) => message@ == "This feature is not implemented: "@ + t@,
            EngineError::External(source) => match source {
                ExternalSource::PublicationStateUnknown(t) => message@
                    == "External error: "@ + ("Iceberg publication state is unknown: "@ + t@),
                ExternalSource::CatalogConflict(t) => message@ == "External error: "@ + t@,
                ExternalSource::CatalogStaleMetadata(t) => message@ == "External error: "@ + t@,
                ExternalSource::CatalogCommitStateUnknown(t) => message@
                    == "External error: "@ + t@,
                ExternalSource::CatalogOther(t) => message@ == "External error: "@ + t@,
                ExternalSource::ObjectStoreAlreadyExists(t) => message@ == "External error: "@ + t@,
                ExternalSource::ObjectStoreOther(t) => message@ == "External error: "@ + t@,
                ExternalSource::Other(t) => message@ == "External error: "@ + t@,
            },
            EngineError::Other(t) => message@ == t@,
        },
{
    match error {
        EngineError::Internal(t) => {
            assert(message@ == "Internal error: "@ + t@
                + ".\nThis issue was likely caused by a bug in DataFusion's code. Please help us to resolve this by filing a bug report in our issue tracker: https://github.com/apache/datafusion/issues"@);
        },
        _ => {},
    }
}

/// The error of an operation whose cleanup failed too says what both of them say, the operation
/// first, and is one of execution.
pub proof fn cleanup_failures_say_both(
    operation: EngineError,
    cleanup: EngineError,
    first: String,
    second: String,
    e: EngineError,
)
    requires
        call_ensures(operation_with_cleanup_failure, (operation, cleanup), e),
        call_ensures(EngineError::message, (&operation,), first),
        call_ensures(EngineError::message, (&cleanup,), second),
    ensures
        e is Execution,
        exists|between: Seq<char>|
            e->Execution_0@ == #[trigger] (first@ + between + second@),
{
    assert(e->Execution_0@ == first@ + "; uncommitted Iceberg artifact cleanup also failed: "@
        + second@);
}

/// The error after which it is not known whether a table version was published says so, and leads
/// neither to another try nor to a cleanup.
pub proof fn unknown_publications_are_unknown(message: String, e: EngineError, unknown: bool)
    requires
        call_ensures(publication_state_unknown_error, (message,), e),
        call_ensures(publication_state_is_unknown, (&e,), unknown),
    ensures
        unknown,
        !lost_to_another(e),
        e == EngineError::External(ExternalSource::PublicationStateUnknown(message)),
{
}

/// The error of a commit that lost too often is one of execution and is not tried again.
pub proof fn lost_commits_are_over(e: EngineError, retryable: bool)
    requires
        call_ensures(commit_conflict_error, (), e),
        call_ensures(is_retryable_publication_conflict, (&e,), retryable),
    ensures
        e is Execution,
        !retryable,
{
}

/// A commit reports as many rows as it has, and fails exactly where the result cannot hold them.
pub proof fn reported_rows_are_the_rows(rows: u64, r: Result<i64, EngineError>)
    requires
        call_ensures(commit_count, (rows,), r),
    ensures
        r is Ok <==> rows <= 0x7fff_ffff_ffff_ffff,
        r matches Ok(count) ==> count == rows,
        r matches Err(e) ==> e is Execution,
{
}

/// The segment after the last slash has no slash, and is what is left of the text after a slash, or
/// the whole text where there is none.
pub proof fn last_segment_follows_the_last_slash(text: &str, r: String)
    requires
        call_ensures(segment_after_slash, (text,), r),
    ensures
        forall|i: int| 0 <= i < r@.len() ==> #[trigger] r@[i] != '/',
        r@.len() <= text@.len(),
        r@ == text@.skip(text@.len() - r@.len()),
        r@.len() < text@.len() ==> text@[text@.len() - r@.len() - 1] == '/',
{
    lemma_last_segment(text@);
}

pub proof fn lemma_last_segment(text: Seq<char>)
    ensures
        ({
            let r = crate::commit_state::last_segment(text);
            &&& forall|i: int| 0 <= i < r.len() ==> #[trigger] r[i] != '/'
            &&& r.len() <= text.len()
            &&& r == text.skip(text.len() - r.len())
            &&& r.len() < text.len() ==> text[text.len() - r.len() - 1] == '/'
        }),
    decreases text.len(),
{
    let r = crate::commit_state::last_segment(text);
    if text.len() == 0 || text.last() == '/' {
        assert(r =~= text.skip(text.len() as int));
    } else {
        let shorter = text.drop_last();
        lemma_last_segment(shorter);
        let s = crate::commit_state::last_segment(shorter);
        assert(s == shorter.skip(shorter.len() - s.len()));
        assert(r =~= text.skip(text.len() - r.len()));
        assert forall|i: int| 0 <= i < r.len() implies #[trigger] r[i] != '/' by {
            if i < s.len() {
                assert(r[i] == s[i]);
            }
        }
    }
}

} // verus!
