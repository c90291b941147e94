//! Verified core of a manga converter: scan grouping, page editing,
//! conversion planning and bookkeeping, the image protocol, and the rules of
//! the download-server integration and the desktop front end.

pub mod discovery;
pub mod edits;
pub mod error;
pub mod events;
pub mod options;
pub mod paths;
pub mod pipeline_plan;
pub mod protocol;
pub mod reorder;
pub mod resolve;
pub mod run;
pub mod scan;
pub mod settings;
pub mod stats;
pub mod text;
pub mod ui;
pub mod web;
