//! Whether a target file is fresh or already there, and how the writer for it
//! is obtained: created and initialized, opened for append, or kept.
use vstd::prelude::*;

use crate::error::StoreError;
use crate::format::{initial_bytes_of, FormatKind};

verus! {

/// A target path, classified by whether it was already present on disk.
#[derive(Debug)]
pub enum CheckedFileName {
    /// Absent: it is to be created.
    New(String),
    /// Present: it is to be resumed.
    Old(String),
}

impl CheckedFileName {
    /// The path, whichever the class.
    pub open spec fn path(&self) -> Seq<char> {
        match self {
            CheckedFileName::New(p) => p@,
            CheckedFileName::Old(p) => p@,
        }
    }

    /// Classifies `path` by whether it is present.
    pub fn classify(path: String, present: bool) -> (r: CheckedFileName)
        ensures
            r.path() == path@,
            r is Old <==> present,
    {
        if present {
            CheckedFileName::Old(path)
        } else {
            CheckedFileName::New(path)
        }
    }

    /// The path.
    pub fn get_filename(&self) -> (r: &String)
        ensures
            r@ == self.path(),
    {
        match self {
            CheckedFileName::New(filename) => filename,
            CheckedFileName::Old(filename) => filename,
        }
    }

    /// Whether the path was present.
    pub fn file_exists(&self) -> (r: bool)
        ensures
            r == self is Old,
    {
        match self {
            CheckedFileName::New(_) => false,
            CheckedFileName::Old(_) => true,
        }
    }

    /// The path where a fresh target is required: `AlreadyExists` when it
    /// was present.
    pub fn into_fresh(self) -> (r: Result<String, StoreError>)
        ensures
            self is New ==> r is Ok && r->Ok_0@ == self.path(),
            self is Old ==> r == Err::<String, StoreError>(StoreError::AlreadyExists),
    {
        match self {
            CheckedFileName::New(filename) => Ok(filename),
            CheckedFileName::Old(_) => Err(StoreError::AlreadyExists),
        }
    }
}

/// How to get a writer for a target.
#[derive(Debug)]
pub enum OpenPlan {
    /// Keep writing through the writer that is already open on the target.
    Reuse,
    /// Open the present file for appending; nothing is re-initialized.
    Append(String),
    /// Create the file and write these initial bytes into it first.
    Create(String, Vec<u8>),
}

/// The plan, as path and bytes.
pub enum PlanView {
    Reuse,
    Append(Seq<char>),
    Create(Seq<char>, Seq<u8>),
}

impl View for OpenPlan {
    type V = PlanView;

    open spec fn view(&self) -> PlanView {
        match self {
            OpenPlan::Reuse => PlanView::Reuse,
            OpenPlan::Append(p) => PlanView::Append(p@),
            OpenPlan::Create(p, b) => PlanView::Create(p@, b@),
        }
    }
}

/// The plan for target `c`: a fresh target is created with the format's
/// initial bytes; a present one is resumed (through the open writer where
/// there is one) in append modes, and refused in single-frame modes.
pub open spec fn plan_of(
    c: CheckedFileName,
    kind: FormatKind,
    progname: Seq<u8>,
    writer_open: bool,
    single: bool,
) -> Result<PlanView, StoreError> {
    match c {
        CheckedFileName::New(p) => match initial_bytes_of(kind, progname) {
            Some(b) => Ok(PlanView::Create(p@, b)),
            None => Err(StoreError::InvalidInput),
        },
        CheckedFileName::Old(p) => if single {
            Err(StoreError::AlreadyExists)
        } else if writer_open {
            Ok(PlanView::Reuse)
        } else {
            Ok(PlanView::Append(p@))
        },
    }
}

/// The plan of `plan_of`, as values.
pub fn open_plan(
    c: CheckedFileName,
    kind: FormatKind,
    progname: &[u8],
    writer_open: bool,
    single: bool,
) -> (r: Result<OpenPlan, StoreError>)
    ensures
        match (r, plan_of(c, kind, progname@, writer_open, single)) {
            (Ok(p), Ok(v)) => p@ == v,
            (Err(e), Err(f)) => e == f,
            _ => false,
        },
{
    match c {
        CheckedFileName::New(p) => match kind.initial_bytes(progname) {
            Ok(b) => Ok(OpenPlan::Create(p, b)),
            Err(e) => Err(e),
        },
        CheckedFileName::Old(p) => {
            if single {
                Err(StoreError::AlreadyExists)
            } else if writer_open {
                Ok(OpenPlan::Reuse)
            } else {
                Ok(OpenPlan::Append(p))
            }
        },
    }
}

/// What to do for one frame before it is written: hand `archive` to the
/// archival worker (first), make sure `dir` exists (second), drop the open
/// writer when `close_writer`, then obtain a writer for `target`.
#[derive(Debug)]
pub struct SegmentStep {
    pub archive: Option<String>,
    pub dir: String,
    pub target: String,
    pub close_writer: bool,
}

/// A step, as paths.
pub struct StepView {
    pub archive: Option<Seq<char>>,
    pub dir: Seq<char>,
    pub target: Seq<char>,
    pub close_writer: bool,
}

impl View for SegmentStep {
    type V = StepView;

    open spec fn view(&self) -> StepView {
        StepView {
            archive: match self.archive {
                Some(a) => Some(a@),
                None => None,
            },
            dir: self.dir@,
            target: self.target@,
            close_writer: self.close_writer,
        }
    }
}

} // verus!
