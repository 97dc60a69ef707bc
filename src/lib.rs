//! Time-partitioned, append-only storage of telemetry frames: segment naming,
//! rotation decisions, run-id recovery and the binary frame codec. The caller
//! performs the file-system work that each decision describes.
use vstd::prelude::*;

pub mod archival;
pub mod calendar;
pub mod codec;
pub mod decimal;
pub mod error;
pub mod format;
pub mod layout;
pub mod runs;
pub mod segment;
pub mod utc;

pub use archival::{worker_action, ArchivalRequest, WorkerAction};
pub use calendar::UtcTime;
pub use codec::{encode_frame, encode_header, read_frames, read_segment, BINARY_VERSION};
pub use error::StoreError;
pub use format::FormatKind;
pub use layout::{archive_path, lock_path};
pub use runs::{
    next_run_id, DirEntryName, ExecCountDailySingleFrame, ExecCountSingleFrame, RunTracker,
};
pub use segment::{CheckedFileName, OpenPlan, SegmentStep};
pub use utc::{BoundaryTracker, UtcMode};

verus! {

} // verus!
