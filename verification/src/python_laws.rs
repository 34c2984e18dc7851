//! What is reported of an exception of a Python data source.
use vstd::prelude::*;

use crate::python_error::{
    declared, declared_failure_kind, format_py_error_with_traceback, marked_failure, py_err,
    ClassMarker, PythonDataSourceContext, PythonDataSourceError, PythonDataSourceFailure,
    PythonException, PythonFailureReport,
};

verus! {

/// The first class that is not without a marker stands at this place.
pub open spec fn decides_at(classes: Seq<ClassMarker>, i: int) -> bool {
    &&& 0 <= i < classes.len()
    &&& !(classes[i] is Missing)
    &&& forall|j: int| 0 <= j < i ==> (#[trigger] classes[j]) is Missing
}

pub proof fn lemma_declared(classes: Seq<ClassMarker>)
    ensures
        declared(classes) is Some ==> exists|i: int| #[trigger] decides_at(classes, i),
        forall|i: int| #[trigger]
            decides_at(classes, i) ==> declared(classes) == match classes[i] {
                ClassMarker::Text(text) => marked_failure(text@),
                _ => None,
            },
    decreases classes.len(),
{
    if classes.len() > 0 {
        let rest = classes.skip(1);
        lemma_declared(rest);
        if classes[0] is Missing {
            if declared(rest) is Some {
                let i = choose|i: int| #[trigger] decides_at(rest, i);
                assert(classes[i + 1] == rest[i]);
                assert forall|j: int| 0 <= j < i + 1 implies (#[trigger] classes[j]) is Missing by {
                    if j > 0 {
                        assert(rest[j - 1] == classes[j]);
                    }
                }
                assert(decides_at(classes, i + 1));
            }
            assert forall|i: int| #[trigger] decides_at(classes, i) implies declared(classes)
                == match classes[i] {
                ClassMarker::Text(text) => marked_failure(text@),
                _ => None,
            } by {
                assert(i > 0);
                assert(rest[i - 1] == classes[i]);
                assert forall|j: int| 0 <= j < i - 1 implies (#[trigger] rest[j]) is Missing by {
                    assert(rest[j] == classes[j + 1]);
                }
                assert(decides_at(rest, i - 1));
            }
        } else {
            assert(decides_at(classes, 0));
            assert forall|i: int| #[trigger] decides_at(classes, i) implies i == 0 by {
                if i > 0 {
                    assert(classes[0] is Missing);
                }
            }
        }
    }
}

/// An exception declares a failure exactly where the first of its classes that has a marker has one
/// that reads "terminal" or "transient", and that is the failure. A marker that cannot be read, or
/// is none of these, declares nothing, whatever the classes after it say.
pub proof fn first_marker_declares(
    error: &PythonException,
    r: Option<PythonDataSourceFailure>,
    i: int,
)
    requires
        call_ensures(declared_failure_kind, (error,), r),
    ensures
        error.classes is None ==> r is None,
        error.classes is Some && (forall|j: int|
            0 <= j < error.classes->0@.len() ==> (#[trigger] error.classes->0@[j]) is Missing)
            ==> r is None,
        error.classes is Some && decides_at(error.classes->0@, i) ==> match error.classes->0@[i] {
            ClassMarker::Text(text) => {
                &&& text@ == "terminal"@ ==> r == Some(PythonDataSourceFailure::Terminal)
                &&& text@ == "transient"@ ==> r == Some(PythonDataSourceFailure::Transient)
                &&& text@ != "terminal"@ && text@ != "transient"@ ==> r is None
            },
            _ => r is None,
        },
{
    if error.classes is Some {
        let classes = error.classes->0@;
        lemma_declared(classes);
        reveal_strlit("terminal");
        reveal_strlit("transient");
        assert("terminal"@.len() != "transient"@.len());
        if (forall|j: int| 0 <= j < classes.len() ==> (#[trigger] classes[j]) is Missing)
            && declared(classes) is Some {
            let k = choose|k: int| #[trigger] decides_at(classes, k);
            assert(classes[k] is Missing);
        }
    }
}

/// The text of an exception comes first, and its traceback at the end where there is one that is not
/// empty.
pub proof fn tracebacks_come_last(e: &PythonException, r: String)
    requires
        call_ensures(format_py_error_with_traceback, (e,), r),
    ensures
        e.traceback is None || e.traceback->0@.len() == 0 ==> r@ == e.text@,
        e.traceback is Some && e.traceback->0@.len() > 0 ==> exists|between: Seq<char>|
            r@ == #[trigger] (e.text@ + between + e.traceback->0@),
{
    if e.traceback is Some && e.traceback->0@.len() > 0 {
        assert(r@ == e.text@ + "\nTraceback:\n"@ + e.traceback->0@);
    }
}

/// Where an exception declares a failure all that is reported is that failure. Else it is reported
/// with its text and its traceback, by itself or with the data source and the operation before it.
pub proof fn reports_agree_on_what_is_declared(
    e: &PythonException,
    declared: Option<PythonDataSourceFailure>,
    text: String,
    a: PythonDataSourceError,
    context: &PythonDataSourceContext,
    b: PythonDataSourceError,
    c: PythonFailureReport,
)
    requires
        call_ensures(declared_failure_kind, (e,), declared),
        call_ensures(format_py_error_with_traceback, (e,), text),
        call_ensures(PythonDataSourceError::from_exception, (e,), a),
        call_ensures(PythonDataSourceContext::wrap_py_error, (context, e), b),
        call_ensures(py_err, (e,), c),
    ensures
        match declared {
            Some(failure) => {
                &&& a == PythonDataSourceError::DeclaredFailure(failure)
                &&& b == PythonDataSourceError::DeclaredFailure(failure)
                &&& c == PythonFailureReport::DataSource(
                    PythonDataSourceError::DeclaredFailure(failure),
                )
            },
            None => {
                &&& a is PythonError && a->PythonError_0@ == text@
                &&& b is PythonError && b->PythonError_0@ == "["@ + context.datasource_name@ + "::"@
                    + context.operation@ + "] "@ + text@
                &&& c is Other && c->Other_0@ == text@
            },
        },
{
}

/// A message in its context has the data source first, then the operation, then the message.
pub proof fn contexts_come_first(
    context: &PythonDataSourceContext,
    message: String,
    r: PythonDataSourceError,
)
    requires
        call_ensures(PythonDataSourceContext::wrap_error, (context, message), r),
    ensures
        r is PythonError,
        r->PythonError_0@ == "["@ + context.datasource_name@ + "::"@ + context.operation@ + "] "@
            + message@,
{
}

/// Every error is told with what it says, and declared failures with their kind alone.
pub proof fn python_errors_say_what_they_are(error: PythonDataSourceError, message: String)
    requires
        call_ensures(PythonDataSourceError::message, (&error,), message),
    ensures
        match error {
            PythonDataSourceError::PythonError(t) => message@ == "Python error: "@ + t@,
            PythonDataSourceError::SchemaError(t) => message@ == "Schema error: "@ + t@,
            PythonDataSourceError::VersionError(t) => message@ == "Version error: "@ + t@,
            PythonDataSourceError::ArrowError(t) => message@ == "Arrow conversion error: "@ + t@,
            PythonDataSourceError::DataFusion(t) => message@ == "DataFusion error: "@ + t@,
            PythonDataSourceError::ResourceExhausted(t) => message@ == "Resource exhausted: "@ + t@,
            PythonDataSourceError::DeclaredFailure(failure) => message@ == if failure is Terminal {
                "Python data source reported a terminal failure"@
            } else {
                "Python data source reported a transient failure"@
            },
        },
{
}

} // verus!
