//! Errors of planning and of execution.
use vstd::prelude::*;
use vstd::string::*;

use crate::commit_state::MAX_COMMIT_RETRIES;
use crate::text::{contains_text, nat_text, text_contains, u64_text};

verus! {

/// What an error comes from that arose outside the engine, with its text.
#[derive(Debug, PartialEq, Eq)]
pub enum ExternalSource {
    /// The catalog refused a change because of another one.
    CatalogConflict(String),
    /// The catalog saw that a change rests on metadata that is no longer current.
    CatalogStaleMetadata(String),
    /// The catalog cannot tell whether a change was made.
    CatalogCommitStateUnknown(String),
    /// Any other failure of the catalog.
    CatalogOther(String),
    /// An object to be created is there already.
    ObjectStoreAlreadyExists(String),
    /// Any other failure of the object store.
    ObjectStoreOther(String),
    /// It is not known whether a table version was published.
    PublicationStateUnknown(String),
    /// Anything else.
    Other(String),
}

/// An error of the engine. The text of each is that without the prefix that its kind has.
#[derive(Debug, PartialEq, Eq)]
pub enum EngineError {
    Plan(String),
    Execution(String),
    Internal(String),
    NotImplemented(String),
    External(ExternalSource),
    /// An error of another kind, with its whole text.
    Other(String),
}

#[verifier::ext_equal]
pub enum ExternalSourceView {
    CatalogConflict(Seq<char>),
    CatalogStaleMetadata(Seq<char>),
    CatalogCommitStateUnknown(Seq<char>),
    CatalogOther(Seq<char>),
    ObjectStoreAlreadyExists(Seq<char>),
    ObjectStoreOther(Seq<char>),
    PublicationStateUnknown(Seq<char>),
    Other(Seq<char>),
}

#[verifier::ext_equal]
pub enum EngineErrorView {
    Plan(Seq<char>),
    Execution(Seq<char>),
    Internal(Seq<char>),
    NotImplemented(Seq<char>),
    External(ExternalSourceView),
    Other(Seq<char>),
}

impl View for ExternalSource {
    type V = ExternalSourceView;

    open spec fn view(&self) -> ExternalSourceView {
        match self {
            ExternalSource::CatalogConflict(t) => ExternalSourceView::CatalogConflict(t@),
            ExternalSource::CatalogStaleMetadata(t) => ExternalSourceView::CatalogStaleMetadata(t@),
            ExternalSource::CatalogCommitStateUnknown(t) =>
                ExternalSourceView::CatalogCommitStateUnknown(t@),
            ExternalSource::CatalogOther(t) => ExternalSourceView::CatalogOther(t@),
            ExternalSource::ObjectStoreAlreadyExists(t) =>
                ExternalSourceView::ObjectStoreAlreadyExists(t@),
            ExternalSource::ObjectStoreOther(t) => ExternalSourceView::ObjectStoreOther(t@),
            ExternalSource::PublicationStateUnknown(t) =>
                ExternalSourceView::PublicationStateUnknown(t@),
            ExternalSource::Other(t) => ExternalSourceView::Other(t@),
        }
    }
}

impl View for EngineError {
    type V = EngineErrorView;

    open spec fn view(&self) -> EngineErrorView {
        match self {
            EngineError::Plan(t) => EngineErrorView::Plan(t@),
            EngineError::Execution(t) => EngineErrorView::Execution(t@),
            EngineError::Internal(t) => EngineErrorView::Internal(t@),
            EngineError::NotImplemented(t) => EngineErrorView::NotImplemented(t@),
            EngineError::External(source) => EngineErrorView::External(source@),
            EngineError::Other(t) => EngineErrorView::Other(t@),
        }
    }
}

impl ExternalSourceView {
    /// The text of the source.
    pub open spec fn text(self) -> Seq<char> {
        match self {
            ExternalSourceView::CatalogConflict(t) => t,
            ExternalSourceView::CatalogStaleMetadata(t) => t,
            ExternalSourceView::CatalogCommitStateUnknown(t) => t,
            ExternalSourceView::CatalogOther(t) => t,
            ExternalSourceView::ObjectStoreAlreadyExists(t) => t,
            ExternalSourceView::ObjectStoreOther(t) => t,
            ExternalSourceView::PublicationStateUnknown(t) =>
                "Iceberg publication state is unknown: "@ + t,
            ExternalSourceView::Other(t) => t,
        }
    }
}

impl EngineErrorView {
    /// The whole text of the error.
    pub open spec fn text(self) -> Seq<char> {
        match self {
            EngineErrorView::Plan(t) => "Error during planning: "@ + t,
            EngineErrorView::Execution(t) => "Execution error: "@ + t,
            EngineErrorView::Internal(t) => "Internal error: "@ + t
                + ".\nThis issue was likely caused by a bug in DataFusion's code. Please help us to resolve this by filing a bug report in our issue tracker: https://github.com/apache/datafusion/issues"@,
            EngineErrorView::NotImplemented(t) => "This feature is not implemented: "@ + t,
            EngineErrorView::External(source) => "External error: "@ + source.text(),
            EngineErrorView::Other(t) => t,
        }
    }

    /// The change was refused because of another one, so it may be tried again.
    pub open spec fn retryable_conflict(self) -> bool {
        match self {
            EngineErrorView::External(source) => match source {
                ExternalSourceView::CatalogConflict(_) => true,
                ExternalSourceView::CatalogStaleMetadata(_) => true,
                ExternalSourceView::ObjectStoreAlreadyExists(_) => true,
                _ => false,
            },
            _ => false,
        }
    }

    /// After this error it is not known whether the change was made.
    pub open spec fn state_unknown(self) -> bool {
        match self {
            EngineErrorView::Execution(t) => contains_text(
                t,
                "Iceberg catalog commit state is unknown"@,
            ),
            EngineErrorView::External(source) => match source {
                ExternalSourceView::PublicationStateUnknown(_) => true,
                ExternalSourceView::CatalogCommitStateUnknown(_) => true,
                _ => false,
            },
            _ => false,
        }
    }
}

impl Clone for ExternalSource {
    fn clone(&self) -> (r: Self)
        ensures
            r == *self,
    {
        match self {
            ExternalSource::CatalogConflict(t) => ExternalSource::CatalogConflict(t.clone()),
            ExternalSource::CatalogStaleMetadata(t) => ExternalSource::CatalogStaleMetadata(
                t.clone(),
            ),
            ExternalSource::CatalogCommitStateUnknown(t) =>
                ExternalSource::CatalogCommitStateUnknown(t.clone()),
            ExternalSource::CatalogOther(t) => ExternalSource::CatalogOther(t.clone()),
            ExternalSource::ObjectStoreAlreadyExists(t) => ExternalSource::ObjectStoreAlreadyExists(
                t.clone(),
            ),
            ExternalSource::ObjectStoreOther(t) => ExternalSource::ObjectStoreOther(t.clone()),
            ExternalSource::PublicationStateUnknown(t) => ExternalSource::PublicationStateUnknown(
                t.clone(),
            ),
            ExternalSource::Other(t) => ExternalSource::Other(t.clone()),
        }
    }
}

impl Clone for EngineError {
    fn clone(&self) -> (r: Self)
        ensures
            r == *self,
    {
        match self {
            EngineError::Plan(t) => EngineError::Plan(t.clone()),
            EngineError::Execution(t) => EngineError::Execution(t.clone()),
            EngineError::Internal(t) => EngineError::Internal(t.clone()),
            EngineError::NotImplemented(t) => EngineError::NotImplemented(t.clone()),
            EngineError::External(source) => EngineError::External(source.clone()),
            EngineError::Other(t) => EngineError::Other(t.clone()),
        }
    }
}

impl ExternalSource {
    /// The text of the source.
    pub fn message(&self) -> (message: String)
        ensures
            message@ == self@.text(),
    {
        match self {
            ExternalSource::CatalogConflict(t) => t.clone(),
            ExternalSource::CatalogStaleMetadata(t) => t.clone(),
            ExternalSource::CatalogCommitStateUnknown(t) => t.clone(),
            ExternalSource::CatalogOther(t) => t.clone(),
            ExternalSource::ObjectStoreAlreadyExists(t) => t.clone(),
            ExternalSource::ObjectStoreOther(t) => t.clone(),
            ExternalSource::PublicationStateUnknown(t) => String::from_str(
                "Iceberg publication state is unknown: ",
            ).concat(t.as_str()),
            ExternalSource::Other(t) => t.clone(),
        }
    }
}

impl EngineError {
    /// The whole text of the error.
    pub fn message(&self) -> (message: String)
        ensures
            message@ == self@.text(),
    {
        match self {
            EngineError::Plan(t) => String::from_str("Error during planning: ").concat(t.as_str()),
            EngineError::Execution(t) => String::from_str("Execution error: ").concat(t.as_str()),
            EngineError::Internal(t) => String::from_str("Internal error: ").concat(
                t.as_str(),
            ).concat(
                ".\nThis issue was likely caused by a bug in DataFusion's code. Please help us to resolve this by filing a bug report in our issue tracker: https://github.com/apache/datafusion/issues",
            ),
            EngineError::NotImplemented(t) => String::from_str(
                "This feature is not implemented: ",
            ).concat(t.as_str()),
            EngineError::External(source) => String::from_str("External error: ").concat(
                source.message().as_str(),
            ),
            EngineError::Other(t) => t.clone(),
        }
    }
}

/// A plan error with a fixed text.
pub fn plan_error(text: &str) -> (e: EngineError)
    ensures
        e@ == EngineErrorView::Plan(text@),
{
    EngineError::Plan(String::from_str(text))
}

/// An execution error with a fixed text.
pub fn execution_error(text: &str) -> (e: EngineError)
    ensures
        e@ == EngineErrorView::Execution(text@),
{
    EngineError::Execution(String::from_str(text))
}

/// An internal error with a fixed text.
pub fn internal_error(text: &str) -> (e: EngineError)
    ensures
        e@ == EngineErrorView::Internal(text@),
{
    EngineError::Internal(String::from_str(text))
}

/// An error about something that is not implemented, with a fixed text.
pub fn not_implemented(text: &str) -> (e: EngineError)
    ensures
        e@ == EngineErrorView::NotImplemented(text@),
{
    EngineError::NotImplemented(String::from_str(text))
}

/// The error after which it is not known whether a table version was published.
pub fn publication_state_unknown_error(message: String) -> (e: EngineError)
    ensures
        e == EngineError::External(ExternalSource::PublicationStateUnknown(message)),
        e@.state_unknown(),
        !e@.retryable_conflict(),
{
    EngineError::External(ExternalSource::PublicationStateUnknown(message))
}

/// The error of an operation whose artifacts could not be cleaned up either.
pub open spec fn with_cleanup_failure(
    operation: EngineErrorView,
    cleanup: EngineErrorView,
) -> EngineErrorView {
    EngineErrorView::Execution(
        operation.text() + "; uncommitted Iceberg artifact cleanup also failed: "@
            + cleanup.text(),
    )
}

/// The error of an operation whose artifacts could not be cleaned up either.
pub fn operation_with_cleanup_failure(
    operation_error: EngineError,
    cleanup_error: EngineError,
) -> (e: EngineError)
    ensures
        e@ == with_cleanup_failure(operation_error@, cleanup_error@),
{
    EngineError::Execution(
        operation_error.message().concat(
            "; uncommitted Iceberg artifact cleanup also failed: ",
        ).concat(cleanup_error.message().as_str()),
    )
}

/// The change was refused because of another one, so it may be tried again.
pub fn is_retryable_publication_conflict(error: &EngineError) -> (r: bool)
    ensures
        r == error@.retryable_conflict(),
{
    match error {
        EngineError::External(source) => match source {
            ExternalSource::CatalogConflict(_) => true,
            ExternalSource::CatalogStaleMetadata(_) => true,
            ExternalSource::ObjectStoreAlreadyExists(_) => true,
            _ => false,
        },
        _ => false,
    }
}

/// After this error it is not known whether the change was made.
pub fn publication_state_is_unknown(error: &EngineError) -> (r: bool)
    ensures
        r == error@.state_unknown(),
{
    match error {
        EngineError::Execution(t) => text_contains(
            t.as_str(),
            "Iceberg catalog commit state is unknown",
        ),
        EngineError::External(source) => match source {
            ExternalSource::PublicationStateUnknown(_) => true,
            ExternalSource::CatalogCommitStateUnknown(_) => true,
            _ => false,
        },
        _ => false,
    }
}

/// An error that leaves the state unknown is never taken for one after which to try again.
pub proof fn unknown_state_is_not_retried(error: EngineErrorView)
    requires
        error.state_unknown(),
    ensures
        !error.retryable_conflict(),
{
}

/// The error of a commit that lost against concurrent ones too often.
pub open spec fn commit_conflict() -> EngineErrorView {
    EngineErrorView::Execution(
        "Iceberg commit failed after "@ + nat_text(MAX_COMMIT_RETRIES as nat)
            + " retries due to concurrent metadata updates"@,
    )
}

/// The error of a commit that lost against concurrent ones too often.
pub fn commit_conflict_error() -> (e: EngineError)
    ensures
        e@ == commit_conflict(),
{
    EngineError::Execution(
        String::from_str("Iceberg commit failed after ").concat(
            u64_text(MAX_COMMIT_RETRIES as u64).as_str(),
        ).concat(" retries due to concurrent metadata updates"),
    )
}

} // verus!
