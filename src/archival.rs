//! The hand-off to the archival worker: what a request asks for, and what
//! the worker does with it.
use vstd::prelude::*;

use crate::layout::{archive_of, archive_path};

verus! {

/// A message to the archival worker.
#[derive(Debug)]
pub enum ArchivalRequest {
    /// Compress this retired segment (a directory or a file), then delete it.
    Archive(String),
    /// Stop the worker.
    Stop,
}

/// What the worker does next.
#[derive(Debug)]
pub enum WorkerAction {
    /// Write the archive of `source` to `archive`; delete `source` only if
    /// that succeeded.
    Compress { source: String, archive: String },
    /// Leave the loop.
    Exit,
}

/// The worker's answer to a request: a stop request ends it, any other is
/// archived next to its source.
pub fn worker_action(req: ArchivalRequest) -> (r: WorkerAction)
    ensures
        match req {
            ArchivalRequest::Stop => r is Exit,
            ArchivalRequest::Archive(p) => r matches WorkerAction::Compress { source, archive } && source@
                == p@ && archive@ == archive_of(p@),
        },
{
    match req {
        ArchivalRequest::Stop => WorkerAction::Exit,
        ArchivalRequest::Archive(p) => {
            let archive = archive_path(p.as_str());
            WorkerAction::Compress { source: p, archive }
        },
    }
}

} // verus!
