//! Segmented downloads: planning, progress, tasks and their manager.

pub mod error;
pub mod event;
pub mod manager;
pub mod plan;
pub mod task;
pub mod transfer;

pub use error::DownloadError;
pub use event::DownloadEvent;
pub use manager::DownloadManager;
pub use plan::SegmentRange;
pub use task::{DownloadProgress, DownloadStatus, DownloadTask};
