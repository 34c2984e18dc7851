//! Failures of data sources that are written in Python.
use vstd::prelude::*;
use vstd::string::*;

use crate::text::text_equal;

verus! {

/// A failure that the application declared itself. Nothing else of the exception is kept.
#[derive(Debug, Clone, Copy, PartialEq, Eq, Structural)]
pub enum PythonDataSourceFailure {
    Terminal,
    Transient,
}

impl PythonDataSourceFailure {
    /// The message for a user.
    pub open spec fn text(self) -> Seq<char> {
        match self {
            PythonDataSourceFailure::Terminal => "Python data source reported a terminal failure"@,
            PythonDataSourceFailure::Transient =>
                "Python data source reported a transient failure"@,
        }
    }

    /// The message for a user.
    pub fn message(&self) -> (message: &'static str)
        ensures
            message@ == self.text(),
    {
        match self {
            PythonDataSourceFailure::Terminal => "Python data source reported a terminal failure",
            PythonDataSourceFailure::Transient => "Python data source reported a transient failure",
        }
    }
}

/// What the namespace of one class holds under the name of the failure marker.
#[derive(Debug, PartialEq, Eq)]
pub enum ClassMarker {
    /// The namespace could not be read.
    Unreadable,
    /// There is no marker.
    Missing,
    /// There is one, and it is no text.
    NotText,
    Text(String),
}

/// Whether the search for a marker goes on to the next class.
#[derive(Debug, Clone, Copy, PartialEq, Eq, Structural)]
pub enum MarkerSearch {
    Continue,
    Found(Option<PythonDataSourceFailure>),
}

/// The name of the class attribute that declares a failure.
pub fn failure_kind_attribute() -> (name: &'static str)
    ensures
        name@ == "__sail_data_source_failure_kind__"@,
{
    "__sail_data_source_failure_kind__"
}

/// The failure that a marker's text declares.
pub open spec fn marked_failure(marker: Seq<char>) -> Option<PythonDataSourceFailure> {
    if marker == "terminal"@ {
        Some(PythonDataSourceFailure::Terminal)
    } else if marker == "transient"@ {
        Some(PythonDataSourceFailure::Transient)
    } else {
        None
    }
}

/// What one class decides.
pub open spec fn class_decision(marker: ClassMarker) -> MarkerSearch {
    match marker {
        ClassMarker::Unreadable => MarkerSearch::Found(None),
        ClassMarker::Missing => MarkerSearch::Continue,
        ClassMarker::NotText => MarkerSearch::Found(None),
        ClassMarker::Text(text) => MarkerSearch::Found(marked_failure(text@)),
    }
}

/// The failure that an exception declares: the first class in resolution order that is not without
/// a marker decides.
pub open spec fn declared(classes: Seq<ClassMarker>) -> Option<PythonDataSourceFailure>
    decreases classes.len(),
{
    if classes.len() == 0 {
        None
    } else {
        match class_decision(classes[0]) {
            MarkerSearch::Continue => declared(classes.skip(1)),
            MarkerSearch::Found(failure) => failure,
        }
    }
}

/// Decides on one class of the resolution order.
pub fn search_class(marker: &ClassMarker) -> (r: MarkerSearch)
    ensures
        r == class_decision(*marker),
{
    match marker {
        ClassMarker::Unreadable => MarkerSearch::Found(None),
        ClassMarker::Missing => MarkerSearch::Continue,
        ClassMarker::NotText => MarkerSearch::Found(None),
        ClassMarker::Text(text) => {
            proof {
                reveal_strlit("terminal");
                reveal_strlit("transient");
            }
            if text_equal(text.as_str(), "terminal") {
                MarkerSearch::Found(Some(PythonDataSourceFailure::Terminal))
            } else if text_equal(text.as_str(), "transient") {
                MarkerSearch::Found(Some(PythonDataSourceFailure::Transient))
            } else {
                MarkerSearch::Found(None)
            }
        },
    }
}

/// What was read of an exception.
#[derive(Debug, PartialEq, Eq)]
pub struct PythonException {
    /// The markers of its classes in resolution order, where that order could be read. What comes
    /// after the first class that decides may be left out.
    pub classes: Option<Vec<ClassMarker>>,
    /// The exception as text.
    pub text: String,
    /// The formatted traceback, where there is one.
    pub traceback: Option<String>,
}

impl PythonException {
    /// The failure that the exception declares.
    pub open spec fn declared_failure(&self) -> Option<PythonDataSourceFailure> {
        match self.classes {
            Some(classes) => declared(classes@),
            None => None,
        }
    }

    /// The exception as text, with its traceback where that is not empty.
    pub open spec fn full_text(&self) -> Seq<char> {
        match self.traceback {
            Some(traceback) => if traceback@.len() == 0 {
                self.text@
            } else {
                self.text@ + "\nTraceback:\n"@ + traceback@
            },
            None => self.text@,
        }
    }
}

/// The failure that an exception declares.
pub fn declared_failure_kind(error: &PythonException) -> (r: Option<PythonDataSourceFailure>)
    ensures
        r == error.declared_failure(),
{
    match &error.classes {
        None => None,
        Some(classes) => {
            let mut i: usize = 0;
            assert(classes@.skip(0) =~= classes@);
            while i < classes.len()
                invariant
                    i <= classes.len(),
                    error.classes == Some(*classes),
                    declared(classes@) == declared(classes@.skip(i as int)),
                decreases classes.len() - i,
            {
                assert(classes@.skip(i as int)[0] == classes@[i as int]);
                assert(classes@.skip(i as int).skip(1) =~= classes@.skip(i + 1));
                match search_class(&classes[i]) {
                    MarkerSearch::Continue => {},
                    MarkerSearch::Found(failure) => return failure,
                }
                i += 1;
            }
            None
        },
    }
}

/// The classes after the first one that decides make no difference.
pub proof fn classes_after_the_first_decision_do_not_count(
    classes: Seq<ClassMarker>,
    rest: Seq<ClassMarker>,
)
    requires
        exists|i: int|
            0 <= i < classes.len() && class_decision(#[trigger] classes[i]) != MarkerSearch::Continue,
    ensures
        declared(classes + rest) == declared(classes),
    decreases classes.len(),
{
    let i = choose|i: int|
        0 <= i < classes.len() && class_decision(#[trigger] classes[i]) != MarkerSearch::Continue;
    assert((classes + rest)[0] == classes[0]);
    if class_decision(classes[0]) == MarkerSearch::Continue {
        assert(classes.skip(1)[i - 1] == classes[i]);
        classes_after_the_first_decision_do_not_count(classes.skip(1), rest);
        assert((classes + rest).skip(1) =~= classes.skip(1) + rest);
    }
}

/// The exception as text, with its traceback where that is not empty.
pub fn format_py_error_with_traceback(e: &PythonException) -> (r: String)
    ensures
        r@ == e.full_text(),
{
    match &e.traceback {
        Some(traceback) => {
            let empty = traceback.as_str().unicode_len() == 0;
            if empty {
                e.text.clone()
            } else {
                String::from_str(e.text.as_str()).concat("\nTraceback:\n").concat(
                    traceback.as_str(),
                )
            }
        },
        None => e.text.clone(),
    }
}

/// A failed operation of a Python data source.
#[derive(Debug, PartialEq, Eq)]
pub enum PythonDataSourceError {
    /// An exception.
    PythonError(String),
    /// A schema that does not hold up.
    SchemaError(String),
    /// Versions that do not go together.
    VersionError(String),
    /// A conversion to or from Arrow.
    ArrowError(String),
    /// A failure of the query engine, as text.
    DataFusion(String),
    /// Something that ran out, such as room for a partition.
    ResourceExhausted(String),
    /// A failure that the application declared. What the exception says is dropped.
    DeclaredFailure(PythonDataSourceFailure),
}

impl PythonDataSourceError {
    /// An error from Python.
    pub fn python(msg: String) -> (e: Self)
        ensures
            e == PythonDataSourceError::PythonError(msg),
    {
        PythonDataSourceError::PythonError(msg)
    }

    /// An error about a schema.
    pub fn schema(msg: String) -> (e: Self)
        ensures
            e == PythonDataSourceError::SchemaError(msg),
    {
        PythonDataSourceError::SchemaError(msg)
    }

    /// An error about versions.
    pub fn version(msg: String) -> (e: Self)
        ensures
            e == PythonDataSourceError::VersionError(msg),
    {
        PythonDataSourceError::VersionError(msg)
    }

    /// An error of a conversion to or from Arrow.
    pub fn arrow(msg: String) -> (e: Self)
        ensures
            e == PythonDataSourceError::ArrowError(msg),
    {
        PythonDataSourceError::ArrowError(msg)
    }

    /// An error about something that ran out.
    pub fn resource_exhausted(msg: String) -> (e: Self)
        ensures
            e == PythonDataSourceError::ResourceExhausted(msg),
    {
        PythonDataSourceError::ResourceExhausted(msg)
    }

    /// The error for an exception: what it declares, or else its text.
    pub fn from_exception(e: &PythonException) -> (r: Self)
        ensures
            match e.declared_failure() {
                Some(failure) => r == PythonDataSourceError::DeclaredFailure(failure),
                None => r matches PythonDataSourceError::PythonError(text) && text@
                    == e.full_text(),
            },
    {
        match declared_failure_kind(e) {
            Some(failure) => PythonDataSourceError::DeclaredFailure(failure),
            None => PythonDataSourceError::python(format_py_error_with_traceback(e)),
        }
    }

    /// The message for a user.
    pub open spec fn text(self) -> Seq<char> {
        match self {
            PythonDataSourceError::PythonError(text) => "Python error: "@ + text@,
            PythonDataSourceError::SchemaError(text) => "Schema error: "@ + text@,
            PythonDataSourceError::VersionError(text) => "Version error: "@ + text@,
            PythonDataSourceError::ArrowError(text) => "Arrow conversion error: "@ + text@,
            PythonDataSourceError::DataFusion(text) => "DataFusion error: "@ + text@,
            PythonDataSourceError::ResourceExhausted(text) => "Resource exhausted: "@ + text@,
            PythonDataSourceError::DeclaredFailure(failure) => failure.text(),
        }
    }

    /// The message for a user.
    pub fn message(&self) -> (message: String)
        ensures
            message@ == self.text(),
    {
        match self {
            PythonDataSourceError::PythonError(text) => String::from_str("Python error: ").concat(
                text.as_str(),
            ),
            PythonDataSourceError::SchemaError(text) => String::from_str("Schema error: ").concat(
                text.as_str(),
            ),
            PythonDataSourceError::VersionError(text) => String::from_str("Version error: ").concat(
                text.as_str(),
            ),
            PythonDataSourceError::ArrowError(text) => String::from_str(
                "Arrow conversion error: ",
            ).concat(text.as_str()),
            PythonDataSourceError::DataFusion(text) => String::from_str(
                "DataFusion error: ",
            ).concat(text.as_str()),
            PythonDataSourceError::ResourceExhausted(text) => String::from_str(
                "Resource exhausted: ",
            ).concat(text.as_str()),
            PythonDataSourceError::DeclaredFailure(failure) => String::from_str(failure.message()),
        }
    }
}

/// The data source and the operation that an error is reported for.
#[derive(Debug)]
pub struct PythonDataSourceContext {
    /// The name of the data source.
    pub datasource_name: String,
    /// The operation, such as "schema", "partitions" or "read".
    pub operation: &'static str,
}

impl Clone for PythonDataSourceContext {
    fn clone(&self) -> (r: Self)
        ensures
            r == *self,
    {
        PythonDataSourceContext {
            datasource_name: self.datasource_name.clone(),
            operation: self.operation,
        }
    }
}

impl PythonDataSourceContext {
    pub fn new(datasource_name: String, operation: &'static str) -> (r: Self)
        ensures
            r.datasource_name == datasource_name,
            r.operation == operation,
    {
        PythonDataSourceContext { datasource_name, operation }
    }

    /// A message with the context before it.
    pub open spec fn in_context(&self, msg: Seq<char>) -> Seq<char> {
        "["@ + self.datasource_name@ + "::"@ + self.operation@ + "] "@ + msg
    }

    /// An error with this message in its context.
    pub fn wrap_error(&self, msg: String) -> (r: PythonDataSourceError)
        ensures
            r matches PythonDataSourceError::PythonError(text) && text@ == self.in_context(msg@),
    {
        PythonDataSourceError::python(
            String::from_str("[").concat(self.datasource_name.as_str()).concat("::").concat(
                self.operation,
            ).concat("] ").concat(msg.as_str()),
        )
    }

    /// The error for an exception: what it declares, or else its text in its context.
    pub fn wrap_py_error(&self, e: &PythonException) -> (r: PythonDataSourceError)
        ensures
            match e.declared_failure() {
                Some(failure) => r == PythonDataSourceError::DeclaredFailure(failure),
                None => r matches PythonDataSourceError::PythonError(text) && text@
                    == self.in_context(e.full_text()),
            },
    {
        match declared_failure_kind(e) {
            Some(failure) => PythonDataSourceError::DeclaredFailure(failure),
            None => self.wrap_error(format_py_error_with_traceback(e)),
        }
    }
}

/// What the query engine is handed for an exception.
#[derive(Debug, PartialEq, Eq)]
pub enum PythonFailureReport {
    /// An error of the data source.
    DataSource(PythonDataSourceError),
    /// A general I/O error with this text.
    Other(String),
}

/// What the query engine is handed for an exception: what it declares, or else its text.
pub fn py_err(e: &PythonException) -> (r: PythonFailureReport)
    ensures
        match e.declared_failure() {
            Some(failure) => r == PythonFailureReport::DataSource(
                PythonDataSourceError::DeclaredFailure(failure),
            ),
            None => r matches PythonFailureReport::Other(text) && text@ == e.full_text(),
        },
{
    match declared_failure_kind(e) {
        Some(failure) => PythonFailureReport::DataSource(
            PythonDataSourceError::DeclaredFailure(failure),
        ),
        None => PythonFailureReport::Other(format_py_error_with_traceback(e)),
    }
}

/// The message of a failed import of the pickler that comes with PySpark.
pub fn cloudpickle_import_failure(error: &str) -> (message: String)
    ensures
        message@ == "Failed to import pyspark.cloudpickle: "@ + error@
            + ". PySpark must be installed to use Python data sources."@,
{
    String::from_str("Failed to import pyspark.cloudpickle: ").concat(error).concat(
        ". PySpark must be installed to use Python data sources.",
    )
}

/// Two exceptions that declare a failure of the same kind are reported alike, whatever else they
/// say.
pub proof fn declared_failures_hide_the_exception(
    a: PythonException,
    b: PythonException,
    report_of_a: PythonFailureReport,
    report_of_b: PythonFailureReport,
)
    requires
        a.declared_failure() is Some,
        a.declared_failure() == b.declared_failure(),
        call_ensures(py_err, (&a,), report_of_a),
        call_ensures(py_err, (&b,), report_of_b),
    ensures
        report_of_a == report_of_b,
{
}

} // verus!
