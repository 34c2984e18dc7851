use sail_iceberg::python_error::{
    cloudpickle_import_failure, failure_kind_attribute, format_py_error_with_traceback, py_err,
    search_class, ClassMarker, MarkerSearch, PythonDataSourceContext, PythonDataSourceError,
    PythonDataSourceFailure, PythonException, PythonFailureReport,
};

fn exception(classes: Option<Vec<ClassMarker>>, traceback: Option<&str>) -> PythonException {
    PythonException {
        classes,
        text: "RuntimeError: private Python detail".to_string(),
        traceback: traceback.map(|text| text.to_string()),
    }
}

fn declared_error(kind: &str) -> PythonException {
    exception(
        Some(vec![ClassMarker::Text(kind.to_string()), ClassMarker::Missing, ClassMarker::Missing]),
        Some("line 1"),
    )
}

fn assert_declared_failure_is_constant(kind: &str, message: &str) -> Result<(), String> {
    match py_err(&declared_error(kind)) {
        PythonFailureReport::DataSource(error) => {
            assert_eq!(error.message(), message);
            assert!(!error.message().contains("private Python detail"));
            let PythonDataSourceError::DeclaredFailure(source) = error else {
                return Err("classified marker source was not preserved".to_string());
            };
            assert_eq!(source.message(), message);
            Ok(())
        }
        other => Err(format!("expected external error, got {other:?}")),
    }
}

#[test]
fn test_terminal_declared_failure_preserves_only_finite_marker() -> Result<(), String> {
    assert_declared_failure_is_constant(
        "terminal",
        "Python data source reported a terminal failure",
    )
}

#[test]
fn test_transient_declared_failure_preserves_only_finite_marker() -> Result<(), String> {
    assert_declared_failure_is_constant(
        "transient",
        "Python data source reported a transient failure",
    )
}

#[test]
fn first_marker_in_resolution_order_decides() {
    let inherited = exception(
        Some(vec![
            ClassMarker::Missing,
            ClassMarker::Text("transient".to_string()),
            ClassMarker::Text("terminal".to_string()),
        ]),
        None,
    );
    assert_eq!(
        PythonDataSourceError::from_exception(&inherited),
        PythonDataSourceError::DeclaredFailure(PythonDataSourceFailure::Transient)
    );
    for classes in [
        None,
        Some(vec![]),
        Some(vec![ClassMarker::Unreadable, ClassMarker::Text("terminal".to_string())]),
        Some(vec![ClassMarker::NotText, ClassMarker::Text("terminal".to_string())]),
        Some(vec![ClassMarker::Text("other".to_string()), ClassMarker::Text("terminal".to_string())]),
    ] {
        assert_eq!(
            py_err(&exception(classes, None)),
            PythonFailureReport::Other("RuntimeError: private Python detail".to_string())
        );
    }
    assert_eq!(search_class(&ClassMarker::Missing), MarkerSearch::Continue);
    assert_eq!(failure_kind_attribute(), "__sail_data_source_failure_kind__");
}

#[test]
fn traceback_follows_the_text_where_it_is_not_empty() {
    let text = "RuntimeError: private Python detail";
    assert_eq!(format_py_error_with_traceback(&exception(None, None)), text);
    assert_eq!(format_py_error_with_traceback(&exception(None, Some(""))), text);
    assert_eq!(
        format_py_error_with_traceback(&exception(None, Some("tb\n"))),
        "RuntimeError: private Python detail\nTraceback:\ntb\n"
    );
}

#[test]
fn context_is_put_before_the_message() {
    let context = PythonDataSourceContext::new("rest".to_string(), "schema");
    assert_eq!(
        context.wrap_error("no columns".to_string()).message(),
        "Python error: [rest::schema] no columns"
    );
    assert_eq!(
        context.clone().wrap_py_error(&exception(None, None)).message(),
        "Python error: [rest::schema] RuntimeError: private Python detail"
    );
    assert_eq!(
        context.wrap_py_error(&declared_error("terminal")).message(),
        "Python data source reported a terminal failure"
    );
}

#[test]
fn every_error_has_its_own_prefix() {
    let text = || "x".to_string();
    for (error, message) in [
        (PythonDataSourceError::python(text()), "Python error: x"),
        (PythonDataSourceError::schema(text()), "Schema error: x"),
        (PythonDataSourceError::version(text()), "Version error: x"),
        (PythonDataSourceError::arrow(text()), "Arrow conversion error: x"),
        (PythonDataSourceError::DataFusion(text()), "DataFusion error: x"),
        (PythonDataSourceError::resource_exhausted(text()), "Resource exhausted: x"),
    ] {
        assert_eq!(error.message(), message);
    }
    assert_eq!(
        cloudpickle_import_failure("No module named 'pyspark'"),
        "Failed to import pyspark.cloudpickle: No module named 'pyspark'. PySpark must be installed to use Python data sources."
    );
}
