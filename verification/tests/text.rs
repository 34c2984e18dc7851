use datafusion_common::DataFusionError;
use sail_iceberg::commit_state::{metadata_file_name, segment_after_slash, version_hint};
use sail_iceberg::error::{
    is_retryable_publication_conflict, publication_state_is_unknown, EngineError, ExternalSource,
};
use sail_iceberg::ordered::sorted_distinct;
use sail_iceberg::text::{
    i64_text, is_white_space, join, text_before, text_contains, text_equal, u64_text,
};

#[test]
fn error_texts_are_those_of_the_engine() {
    let text = || "something went wrong".to_string();
    for (ours, theirs) in [
        (EngineError::Plan(text()), DataFusionError::Plan(text())),
        (EngineError::Execution(text()), DataFusionError::Execution(text())),
        (EngineError::Internal(text()), DataFusionError::Internal(text())),
        (EngineError::NotImplemented(text()), DataFusionError::NotImplemented(text())),
        (
            EngineError::External(ExternalSource::Other(text())),
            DataFusionError::External(text().into()),
        ),
    ] {
        assert_eq!(ours.message(), theirs.to_string());
    }
    assert_eq!(EngineError::Other(text()).message(), text());
}

#[test]
fn conflicts_and_unknown_states_are_told_apart() {
    let text = || "x".to_string();
    for (source, retryable, unknown) in [
        (ExternalSource::CatalogConflict(text()), true, false),
        (ExternalSource::CatalogStaleMetadata(text()), true, false),
        (ExternalSource::ObjectStoreAlreadyExists(text()), true, false),
        (ExternalSource::CatalogCommitStateUnknown(text()), false, true),
        (ExternalSource::PublicationStateUnknown(text()), false, true),
        (ExternalSource::CatalogOther(text()), false, false),
        (ExternalSource::ObjectStoreOther(text()), false, false),
        (ExternalSource::Other(text()), false, false),
    ] {
        let error = EngineError::External(source);
        assert_eq!(is_retryable_publication_conflict(&error), retryable, "{error:?}");
        assert_eq!(publication_state_is_unknown(&error), unknown, "{error:?}");
    }
    let unknown = "a; Iceberg catalog commit state is unknown: b".to_string();
    assert!(publication_state_is_unknown(&EngineError::Execution(unknown)));
    let unknown = "Iceberg catalog commit state is unknown".to_string();
    assert!(!publication_state_is_unknown(&EngineError::Plan(unknown)));
}

#[test]
fn white_space_is_that_of_the_standard_library() {
    for code in 0..=0x10ffff_u32 {
        if let Some(c) = char::from_u32(code) {
            assert_eq!(is_white_space(c), c.is_whitespace(), "{code:x}");
        }
    }
}

#[test]
fn text_order_is_that_of_the_standard_library() {
    let samples = ["", "a", "ab", "b", "A", "é", "z", "\u{10000}", "\u{ffff}", "a\u{0}"];
    for a in samples {
        for b in samples {
            assert_eq!(text_before(a, b), a < b, "{a:?} {b:?}");
            assert_eq!(text_equal(a, b), a == b, "{a:?} {b:?}");
            assert_eq!(text_contains(a, b), a.contains(b), "{a:?} {b:?}");
        }
    }
    let strings = ["b", "a", "", "b", "é", "B"].map(|text| text.to_string()).to_vec();
    let set: std::collections::BTreeSet<String> = strings.iter().cloned().collect();
    assert_eq!(sorted_distinct(&strings), set.into_iter().collect::<Vec<_>>());
}

#[test]
fn numbers_are_written_in_decimal() {
    for n in [0, 7, 10, 99, 12345, u64::MAX] {
        assert_eq!(u64_text(n), n.to_string());
    }
    for n in [0, -1, 42, i64::MAX, i64::MIN] {
        assert_eq!(i64_text(n), n.to_string());
    }
    let pieces = ["a".to_string(), "b".to_string(), "c".to_string()].to_vec();
    assert_eq!(join(&pieces, "; "), "a; b; c");
}

#[test]
fn metadata_files_are_named_by_version() {
    assert_eq!(metadata_file_name(12, None, ".metadata.json"), "metadata/v12.metadata.json");
    for (version, uuid) in [(7_u64, 1_u128), (123456, u128::MAX), (99999, 0x0f << 64)] {
        let expected = format!(
            "metadata/{version:05}-{}.metadata.json",
            uuid::Uuid::from_u128(uuid)
        );
        assert_eq!(metadata_file_name(version, Some(uuid), ".metadata.json"), expected);
    }
    assert_eq!(segment_after_slash("metadata/v1.json"), "v1.json");
    assert_eq!(segment_after_slash("v1.json"), "v1.json");
    assert_eq!(segment_after_slash("metadata/"), "");
    assert_eq!(version_hint(true, "metadata/00001-x.json", 1), "00001-x.json");
    assert_eq!(version_hint(false, "metadata/v1.json", 1), "1");
}
