use thasia::error::{
    core_error_code, core_error_severity, source_error_code, AppError, ConvertError, CoreErrorKind,
    ErrorSeverity, SourceErrorKind,
};

#[test]
fn convert_error_codes() {
    assert_eq!(ConvertError::MissingScanResult.code(), "thasia::convert::missing_scan_result");
    assert_eq!(ConvertError::StateLock("poisoned".into()).code(), "thasia::state::lock");
    assert_eq!(
        ConvertError::CustomImageTooLarge { path: "/a".into(), bytes: 1 }.code(),
        "thasia::convert::custom_image_too_large"
    );
    assert_eq!(ConvertError::UnsupportedCustomImage { path: "/a".into() }.code(), "thasia::convert::custom_image_type");
    assert_eq!(ConvertError::Package("zip".into()).code(), "thasia::package");
    assert_eq!(ConvertError::Pipeline("decode".into()).code(), "thasia::pipeline");
}

#[test]
fn convert_error_severities() {
    assert_eq!(ConvertError::Cancelled.severity(), ErrorSeverity::Recoverable);
    assert_eq!(
        ConvertError::IncompleteVolume { volume_num: 1, expected: 2, actual: 1 }.severity(),
        ErrorSeverity::Recoverable
    );
    assert_eq!(ConvertError::CustomImageNotFile { path: "/a".into() }.severity(), ErrorSeverity::Recoverable);
    assert_eq!(
        ConvertError::CustomImageMetadata { path: "/a".into(), message: "denied".into() }.severity(),
        ErrorSeverity::Fatal
    );
    assert_eq!(ConvertError::InvalidOutputName("x".into()).severity(), ErrorSeverity::Fatal);
    assert_eq!(
        ConvertError::CreateOutputDir { path: "/a".into(), message: "denied".into() }.severity(),
        ErrorSeverity::Fatal
    );
}

#[test]
fn core_and_source_codes() {
    assert_eq!(core_error_code(CoreErrorKind::UnsafeFilenameCharacter), "thasia::filename::unsafe_character");
    assert_eq!(core_error_code(CoreErrorKind::Fatal), "thasia::fatal::pipeline_aborted");
    assert_eq!(core_error_severity(CoreErrorKind::ItemProcessFailed), ErrorSeverity::Warning);
    assert_eq!(core_error_severity(CoreErrorKind::VolumeSkipped), ErrorSeverity::Recoverable);
    assert_eq!(core_error_severity(CoreErrorKind::EmptyFilename), ErrorSeverity::Recoverable);
    assert_eq!(core_error_severity(CoreErrorKind::Io), ErrorSeverity::Fatal);
    assert_eq!(source_error_code(SourceErrorKind::Join), "thasia::source::task");
    assert_eq!(source_error_code(SourceErrorKind::Suwayomi), "thasia::source::suwayomi");
}

#[test]
fn command_error_messages() {
    assert_eq!(AppError::Io { message: "denied".into() }.message(), "I/O error: denied");
    assert_eq!(AppError::StateLock { message: "poisoned".into() }.message(), "State lock failed: poisoned");
    assert_eq!(AppError::SuwayomiRuntime { message: "x".into() }.message(), "Suwayomi-Server is not running: x");
    assert_eq!(AppError::SuwayomiNotReady.message(), "Suwayomi-Server is not ready");
    assert_eq!(AppError::Cancelled.message(), "Cancelled");
    assert_eq!(AppError::Message { message: "plain".into() }.message(), "plain");
}

#[test]
fn command_errors_from_lower_layers() {
    let convert = AppError::from_convert(&ConvertError::Cancelled, "Conversion was cancelled".into(), vec![]);
    match &convert {
        AppError::Convert { code, severity, .. } => {
            assert_eq!(code, "thasia::convert::cancelled");
            assert_eq!(*severity, ErrorSeverity::Recoverable);
        }
        other => panic!("unexpected {other:?}"),
    }
    assert_eq!(convert.message(), "Conversion was cancelled");
    match AppError::from_core(CoreErrorKind::ItemProcessFailed, "m".into(), vec!["c".into()]) {
        AppError::Core { code, severity, causes, .. } => {
            assert_eq!(code, "thasia::item::process_failed");
            assert_eq!(severity, ErrorSeverity::Warning);
            assert_eq!(causes, vec!["c".to_string()]);
        }
        other => panic!("unexpected {other:?}"),
    }
    match AppError::from_source(SourceErrorKind::Http, "m".into(), vec![]) {
        AppError::Source { code, severity, .. } => {
            assert_eq!(code, "thasia::source::http");
            assert_eq!(severity, ErrorSeverity::Recoverable);
        }
        other => panic!("unexpected {other:?}"),
    }
}

#[test]
fn plain_messages_become_message_errors() {
    let error = AppError::from("No source is prepared for conversion.".to_string());
    assert!(matches!(&error, AppError::Message { .. }));
    assert_eq!(error.message(), "No source is prepared for conversion.");
}
