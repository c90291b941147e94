//! Events reported to the user interface while scanning, converting and downloading.
use vstd::prelude::*;

verus! {

/// One more image of a large archive was scanned.
#[derive(Clone, Debug)]
pub struct ScanProgressEvent {
    pub current: u32,
    pub total: u32,
}

/// A volume starts converting.
#[derive(Clone, Debug)]
pub struct VolumeStartEvent {
    pub volume_num: u32,
    pub volume_name: String,
    pub total_volumes: u32,
}

/// A volume finished, successfully or not.
#[derive(Clone, Debug)]
pub struct VolumeCompleteEvent {
    pub volume_num: u32,
    pub success: bool,
    pub error: Option<String>,
    pub output_path: Option<String>,
}

/// The file a converted volume was written to.
#[derive(Clone, Debug)]
pub struct ConversionOutput {
    pub volume_num: u32,
    pub volume_name: String,
    pub path: String,
}

/// A series download starts.
#[derive(Clone, Debug)]
pub struct DownloadStartEvent {
    pub series_title: String,
    pub total_chapters: u32,
}

/// Phase of an in-progress chapter download batch.
#[derive(Clone, Copy, Debug, PartialEq, Eq, Structural)]
pub enum ChapterDownloadPhase {
    /// Waiting for the next chapter to finish downloading.
    Downloading,
    /// A single chapter finished downloading.
    Complete,
}

/// Progress of a chapter download batch.
#[derive(Clone, Debug)]
pub struct ChapterDownloadEvent {
    pub current_chapter: String,
    pub current: u32,
    pub total: u32,
    pub phase: ChapterDownloadPhase,
    pub tick: u32,
}

/// A series download finished.
#[derive(Clone, Debug)]
pub struct DownloadCompleteEvent {
    pub success: bool,
    pub error: Option<String>,
    pub output_dir: Option<String>,
}

} // verus!
