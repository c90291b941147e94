//! Error kinds of the conversion and command layers, their stable codes,
//! severities, and the user-facing messages of command errors.
use vstd::prelude::*;

verus! {

/// How serious an error is for the user interface.
#[derive(Clone, Copy, Debug, PartialEq, Eq, Structural)]
pub enum ErrorSeverity {
    Warning,
    Recoverable,
    Fatal,
}

/// Errors of a conversion run. Causes that come from other components are
/// carried as their rendered messages.
#[derive(Clone, Debug)]
pub enum ConvertError {
    MissingScanResult,
    MissingSource,
    Cancelled,
    MissingOutputPath,
    IncompleteVolume { volume_num: u32, expected: u32, actual: u32 },
    StateLock(String),
    CreateOutputDir { path: String, message: String },
    InvalidOutputName(String),
    UnsupportedCustomImage { path: String },
    CustomImageMetadata { path: String, message: String },
    CustomImageNotFile { path: String },
    CustomImageTooLarge { path: String, bytes: u64 },
    Package(String),
    Pipeline(String),
}

/// Stable machine-readable code of each conversion error.
pub open spec fn convert_error_code(error: ConvertError) -> Seq<char> {
    match error {
        ConvertError::MissingScanResult => "thasia::convert::missing_scan_result"@,
        ConvertError::MissingSource => "thasia::convert::missing_source"@,
        ConvertError::Cancelled => "thasia::convert::cancelled"@,
        ConvertError::MissingOutputPath => "thasia::convert::missing_output_path"@,
        ConvertError::IncompleteVolume { .. } => "thasia::convert::incomplete_volume"@,
        ConvertError::StateLock(_) => "thasia::state::lock"@,
        ConvertError::CreateOutputDir { .. } => "thasia::convert::create_output_dir"@,
        ConvertError::InvalidOutputName(_) => "thasia::convert::invalid_output_name"@,
        ConvertError::UnsupportedCustomImage { .. } => "thasia::convert::custom_image_type"@,
        ConvertError::CustomImageMetadata { .. } => "thasia::convert::custom_image_metadata"@,
        ConvertError::CustomImageNotFile { .. } => "thasia::convert::custom_image_not_file"@,
        ConvertError::CustomImageTooLarge { .. } => "thasia::convert::custom_image_too_large"@,
        ConvertError::Package(_) => "thasia::package"@,
        ConvertError::Pipeline(_) => "thasia::pipeline"@,
    }
}

/// Conversion errors the user can recover from; every other one is fatal.
pub open spec fn convert_error_recoverable(error: ConvertError) -> bool {
    match error {
        ConvertError::Cancelled
        | ConvertError::MissingScanResult
        | ConvertError::MissingSource
        | ConvertError::MissingOutputPath
        | ConvertError::IncompleteVolume { .. }
        | ConvertError::UnsupportedCustomImage { .. }
        | ConvertError::CustomImageNotFile { .. }
        | ConvertError::CustomImageTooLarge { .. } => true,
        _ => false,
    }
}

impl ConvertError {
    /// The error's stable code.
    pub fn code(&self) -> (code: &'static str)
        ensures
            code@ == convert_error_code(*self),
    {
        proof {
            reveal_strlit("thasia::convert::missing_scan_result");
            reveal_strlit("thasia::convert::missing_source");
            reveal_strlit("thasia::convert::cancelled");
            reveal_strlit("thasia::convert::missing_output_path");
            reveal_strlit("thasia::convert::incomplete_volume");
            reveal_strlit("thasia::state::lock");
            reveal_strlit("thasia::convert::create_output_dir");
            reveal_strlit("thasia::convert::invalid_output_name");
            reveal_strlit("thasia::convert::custom_image_type");
            reveal_strlit("thasia::convert::custom_image_metadata");
            reveal_strlit("thasia::convert::custom_image_not_file");
            reveal_strlit("thasia::convert::custom_image_too_large");
            reveal_strlit("thasia::package");
            reveal_strlit("thasia::pipeline");
        }
        match self {
            ConvertError::MissingScanResult => "thasia::convert::missing_scan_result",
            ConvertError::MissingSource => "thasia::convert::missing_source",
            ConvertError::Cancelled => "thasia::convert::cancelled",
            ConvertError::MissingOutputPath => "thasia::convert::missing_output_path",
            ConvertError::IncompleteVolume { .. } => "thasia::convert::incomplete_volume",
            ConvertError::StateLock(_) => "thasia::state::lock",
            ConvertError::CreateOutputDir { .. } => "thasia::convert::create_output_dir",
            ConvertError::InvalidOutputName(_) => "thasia::convert::invalid_output_name",
            ConvertError::UnsupportedCustomImage { .. } => "thasia::convert::custom_image_type",
            ConvertError::CustomImageMetadata { .. } => "thasia::convert::custom_image_metadata",
            ConvertError::CustomImageNotFile { .. } => "thasia::convert::custom_image_not_file",
            ConvertError::CustomImageTooLarge { .. } => "thasia::convert::custom_image_too_large",
            ConvertError::Package(_) => "thasia::package",
            ConvertError::Pipeline(_) => "thasia::pipeline",
        }
    }

    /// Recoverable for the errors a user can act on, fatal otherwise.
    pub fn severity(&self) -> (severity: ErrorSeverity)
        ensures
            severity == (if convert_error_recoverable(*self) {
                ErrorSeverity::Recoverable
            } else {
                ErrorSeverity::Fatal
            }),
    {
        match self {
            ConvertError::Cancelled
            | ConvertError::MissingScanResult
            | ConvertError::MissingSource
            | ConvertError::MissingOutputPath
            | ConvertError::IncompleteVolume { .. }
            | ConvertError::UnsupportedCustomImage { .. }
            | ConvertError::CustomImageNotFile { .. }
            | ConvertError::CustomImageTooLarge { .. } => ErrorSeverity::Recoverable,
            _ => ErrorSeverity::Fatal,
        }
    }
}

/// The kinds of error the core conversion library reports.
#[derive(Clone, Copy, Debug, PartialEq, Eq, Structural)]
pub enum CoreErrorKind {
    ItemProcessFailed,
    VolumeSkipped,
    UnresolvedPath,
    EmptyFilename,
    InvalidFilenameComponent,
    FilenameTrailingDotOrSpace,
    UnsafeFilenameCharacter,
    WindowsReservedFilename,
    Fatal,
    Discovery,
    Io,
}

/// Stable code of each core error kind.
pub open spec fn core_code(kind: CoreErrorKind) -> Seq<char> {
    match kind {
        CoreErrorKind::ItemProcessFailed => "thasia::item::process_failed"@,
        CoreErrorKind::VolumeSkipped => "thasia::volume::skipped"@,
        CoreErrorKind::UnresolvedPath => "thasia::parse::unresolved"@,
        CoreErrorKind::EmptyFilename => "thasia::filename::empty"@,
        CoreErrorKind::InvalidFilenameComponent => "thasia::filename::invalid_component"@,
        CoreErrorKind::FilenameTrailingDotOrSpace => "thasia::filename::trailing_dot_or_space"@,
        CoreErrorKind::UnsafeFilenameCharacter => "thasia::filename::unsafe_character"@,
        CoreErrorKind::WindowsReservedFilename => "thasia::filename::windows_reserved"@,
        CoreErrorKind::Fatal => "thasia::fatal::pipeline_aborted"@,
        CoreErrorKind::Discovery => "thasia::discovery"@,
        CoreErrorKind::Io => "thasia::io"@,
    }
}

/// Severity of each core error kind: a failed item is a warning; skipped
/// volumes, unresolved paths and refused file names are recoverable; the rest is fatal.
pub open spec fn core_severity(kind: CoreErrorKind) -> ErrorSeverity {
    match kind {
        CoreErrorKind::ItemProcessFailed => ErrorSeverity::Warning,
        CoreErrorKind::VolumeSkipped | CoreErrorKind::UnresolvedPath => ErrorSeverity::Recoverable,
        CoreErrorKind::EmptyFilename
        | CoreErrorKind::InvalidFilenameComponent
        | CoreErrorKind::FilenameTrailingDotOrSpace
        | CoreErrorKind::UnsafeFilenameCharacter
        | CoreErrorKind::WindowsReservedFilename => ErrorSeverity::Recoverable,
        _ => ErrorSeverity::Fatal,
    }
}

/// The stable code of a core error kind.
pub fn core_error_code(kind: CoreErrorKind) -> (code: &'static str)
    ensures
        code@ == core_code(kind),
{
    proof {
        reveal_strlit("thasia::item::process_failed");
        reveal_strlit("thasia::volume::skipped");
        reveal_strlit("thasia::parse::unresolved");
        reveal_strlit("thasia::filename::empty");
        reveal_strlit("thasia::filename::invalid_component");
        reveal_strlit("thasia::filename::trailing_dot_or_space");
        reveal_strlit("thasia::filename::unsafe_character");
        reveal_strlit("thasia::filename::windows_reserved");
        reveal_strlit("thasia::fatal::pipeline_aborted");
        reveal_strlit("thasia::discovery");
        reveal_strlit("thasia::io");
    }
    match kind {
        CoreErrorKind::ItemProcessFailed => "thasia::item::process_failed",
        CoreErrorKind::VolumeSkipped => "thasia::volume::skipped",
        CoreErrorKind::UnresolvedPath => "thasia::parse::unresolved",
        CoreErrorKind::EmptyFilename => "thasia::filename::empty",
        CoreErrorKind::InvalidFilenameComponent => "thasia::filename::invalid_component",
        CoreErrorKind::FilenameTrailingDotOrSpace => "thasia::filename::trailing_dot_or_space",
        CoreErrorKind::UnsafeFilenameCharacter => "thasia::filename::unsafe_character",
        CoreErrorKind::WindowsReservedFilename => "thasia::filename::windows_reserved",
        CoreErrorKind::Fatal => "thasia::fatal::pipeline_aborted",
        CoreErrorKind::Discovery => "thasia::discovery",
        CoreErrorKind::Io => "thasia::io",
    }
}

/// The severity of a core error kind.
pub fn core_error_severity(kind: CoreErrorKind) -> (severity: ErrorSeverity)
    ensures
        severity == core_severity(kind),
{
    match kind {
        CoreErrorKind::ItemProcessFailed => ErrorSeverity::Warning,
        CoreErrorKind::VolumeSkipped | CoreErrorKind::UnresolvedPath => ErrorSeverity::Recoverable,
        CoreErrorKind::EmptyFilename
        | CoreErrorKind::InvalidFilenameComponent
        | CoreErrorKind::FilenameTrailingDotOrSpace
        | CoreErrorKind::UnsafeFilenameCharacter
        | CoreErrorKind::WindowsReservedFilename => ErrorSeverity::Recoverable,
        _ => ErrorSeverity::Fatal,
    }
}

/// The kinds of error the source layer (files, archives, the download server) reports.
#[derive(Clone, Copy, Debug, PartialEq, Eq, Structural)]
pub enum SourceErrorKind {
    Io,
    Join,
    Http,
    Json,
    Zip,
    Archive,
    Suwayomi,
}

/// Stable code of each source error kind.
pub open spec fn source_code(kind: SourceErrorKind) -> Seq<char> {
    match kind {
        SourceErrorKind::Io => "thasia::source::io"@,
        SourceErrorKind::Join => "thasia::source::task"@,
        SourceErrorKind::Http => "thasia::source::http"@,
        SourceErrorKind::Json => "thasia::source::json"@,
        SourceErrorKind::Zip => "thasia::source::zip"@,
        SourceErrorKind::Archive => "thasia::source::archive"@,
        SourceErrorKind::Suwayomi => "thasia::source::suwayomi"@,
    }
}

/// The stable code of a source error kind.
pub fn source_error_code(kind: SourceErrorKind) -> (code: &'static str)
    ensures
        code@ == source_code(kind),
{
    proof {
        reveal_strlit("thasia::source::io");
        reveal_strlit("thasia::source::task");
        reveal_strlit("thasia::source::http");
        reveal_strlit("thasia::source::json");
        reveal_strlit("thasia::source::zip");
        reveal_strlit("thasia::source::archive");
        reveal_strlit("thasia::source::suwayomi");
    }
    match kind {
        SourceErrorKind::Io => "thasia::source::io",
        SourceErrorKind::Join => "thasia::source::task",
        SourceErrorKind::Http => "thasia::source::http",
        SourceErrorKind::Json => "thasia::source::json",
        SourceErrorKind::Zip => "thasia::source::zip",
        SourceErrorKind::Archive => "thasia::source::archive",
        SourceErrorKind::Suwayomi => "thasia::source::suwayomi",
    }
}

/// Errors returned by the desktop backend's commands.
#[derive(Clone, Debug)]
pub enum AppError {
    Core { code: String, message: String, severity: ErrorSeverity, causes: Vec<String> },
    Convert { code: String, message: String, severity: ErrorSeverity, causes: Vec<String> },
    Source { code: String, message: String, severity: ErrorSeverity, causes: Vec<String> },
    Io { message: String },
    Json { message: String },
    Semaphore { message: String },
    Task { message: String },
    OpenPath { message: String },
    StateLock { message: String },
    SuwayomiNotInstalled,
    SuwayomiNotRunning,
    SuwayomiStarting,
    SuwayomiRuntime { message: String },
    SuwayomiNotReady,
    Cancelled,
    Message { message: String },
}

/// The text a command error is shown with.
pub open spec fn app_error_text(error: AppError) -> Seq<char> {
    match error {
        AppError::Core { message, .. } => message@,
        AppError::Convert { message, .. } => message@,
        AppError::Source { message, .. } => message@,
        AppError::Io { message } => "I/O error: "@ + message@,
        AppError::Json { message } => "JSON error: "@ + message@,
        AppError::Semaphore { message } => "Semaphore error: "@ + message@,
        AppError::Task { message } => "Task error: "@ + message@,
        AppError::OpenPath { message } => "Open path error: "@ + message@,
        AppError::StateLock { message } => "State lock failed: "@ + message@,
        AppError::SuwayomiNotInstalled => "Suwayomi-Server is not installed"@,
        AppError::SuwayomiNotRunning => "Suwayomi-Server is not running"@,
        AppError::SuwayomiStarting => "Suwayomi-Server is still starting"@,
        AppError::SuwayomiRuntime { message } => "Suwayomi-Server is not running: "@ + message@,
        AppError::SuwayomiNotReady => "Suwayomi-Server is not ready"@,
        AppError::Cancelled => "Cancelled"@,
        AppError::Message { message } => message@,
    }
}

fn prefixed(prefix: &str, message: &String) -> (text: String)
    ensures
        text@ == prefix@ + message@,
{
    let mut text = prefix.to_string();
    crate::text::append_str(&mut text, message.as_str());
    text
}

impl AppError {
    /// The text the error is shown with (see [`app_error_text`]).
    pub fn message(&self) -> (text: String)
        ensures
            text@ == app_error_text(*self),
    {
        match self {
            AppError::Core { message, .. } => message.clone(),
            AppError::Convert { message, .. } => message.clone(),
            AppError::Source { message, .. } => message.clone(),
            AppError::Io { message } => prefixed("I/O error: ", message),
            AppError::Json { message } => prefixed("JSON error: ", message),
            AppError::Semaphore { message } => prefixed("Semaphore error: ", message),
            AppError::Task { message } => prefixed("Task error: ", message),
            AppError::OpenPath { message } => prefixed("Open path error: ", message),
            AppError::StateLock { message } => prefixed("State lock failed: ", message),
            AppError::SuwayomiNotInstalled => "Suwayomi-Server is not installed".to_string(),
            AppError::SuwayomiNotRunning => "Suwayomi-Server is not running".to_string(),
            AppError::SuwayomiStarting => "Suwayomi-Server is still starting".to_string(),
            AppError::SuwayomiRuntime { message } => prefixed("Suwayomi-Server is not running: ", message),
            AppError::SuwayomiNotReady => "Suwayomi-Server is not ready".to_string(),
            AppError::Cancelled => "Cancelled".to_string(),
            AppError::Message { message } => message.clone(),
        }
    }

    /// A conversion error as a command error: its code and severity, with
    /// its rendered message and the messages of its causes.
    pub fn from_convert(error: &ConvertError, message: String, causes: Vec<String>) -> (app: Self)
        ensures
            app matches AppError::Convert { code, message: m, severity, causes: c } && code@ == convert_error_code(
                *error,
            ) && m == message && severity == (if convert_error_recoverable(*error) {
                ErrorSeverity::Recoverable
            } else {
                ErrorSeverity::Fatal
            }) && c == causes,
    {
        AppError::Convert { code: error.code().to_string(), message, severity: error.severity(), causes }
    }

    /// A core error as a command error: the kind's code and severity, with
    /// the rendered message and the messages of its causes.
    pub fn from_core(kind: CoreErrorKind, message: String, causes: Vec<String>) -> (app: Self)
        ensures
            app matches AppError::Core { code, message: m, severity, causes: c } && code@ == core_code(kind) && m
                == message && severity == core_severity(kind) && c == causes,
    {
        AppError::Core { code: core_error_code(kind).to_string(), message, severity: core_error_severity(kind), causes }
    }

    /// A source error as a command error: the kind's code, always recoverable.
    pub fn from_source(kind: SourceErrorKind, message: String, causes: Vec<String>) -> (app: Self)
        ensures
            app matches AppError::Source { code, message: m, severity, causes: c } && code@ == source_code(kind) && m
                == message && severity == ErrorSeverity::Recoverable && c == causes,
    {
        AppError::Source { code: source_error_code(kind).to_string(), message, severity: ErrorSeverity::Recoverable, causes }
    }
}

impl From<String> for AppError {
    /// A plain message as a command error.
    fn from(message: String) -> (error: Self) {
        AppError::Message { message }
    }
}

impl vstd::std_specs::convert::FromSpecImpl<String> for AppError {
    open spec fn obeys_from_spec() -> bool {
        true
    }

    open spec fn from_spec(message: String) -> Self {
        AppError::Message { message }
    }
}

} // verus!
