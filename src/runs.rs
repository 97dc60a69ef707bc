//! Partitioning by program run: the next run id recovered from the names
//! under the root, and the per-run counters of days, hours and frames.
use vstd::prelude::*;

use crate::decimal::{padded_decimal, parse_decimal, parsed_u64};
use crate::error::StoreError;
use crate::segment::{open_plan, plan_of, CheckedFileName, OpenPlan, SegmentStep, StepView};
use crate::format::FormatKind;
use crate::layout::{
    counter_dir, counter_file, join, run_dir, run_name, with_extension, COUNTER_WIDTH, FRAME_WIDTH,
};

verus! {

/// One name found directly under the root.
#[derive(Debug)]
pub struct DirEntryName {
    pub name: String,
    pub is_dir: bool,
}

/// `s` without the suffix `suf`, if it ends with it.
pub open spec fn strip_suffix(s: Seq<char>, suf: Seq<char>) -> Option<Seq<char>> {
    if s.len() >= suf.len() && s.subrange(s.len() - suf.len(), s.len() as int) == suf {
        Some(s.subrange(0, s.len() - suf.len()))
    } else {
        None
    }
}

/// The stem of an archive file name: `N.tar.gz` and `N.gz` give `N`.
pub open spec fn archive_stem(name: Seq<char>) -> Option<Seq<char>> {
    match strip_suffix(name, seq!['.', 'g', 'z']) {
        Some(x) => match strip_suffix(x, seq!['.', 't', 'a', 'r']) {
            Some(y) => Some(y),
            None => Some(x),
        },
        None => None,
    }
}

/// The run id that an entry shows: a directory named by a number, or an
/// archive whose stem is a number.
pub open spec fn entry_run(name: Seq<char>, is_dir: bool) -> Option<u64> {
    if is_dir {
        parsed_u64(name)
    } else {
        match archive_stem(name) {
            Some(st) => parsed_u64(st),
            None => None,
        }
    }
}

/// The entries, as names and kinds.
pub open spec fn entries_view(es: Seq<DirEntryName>) -> Seq<(Seq<char>, bool)> {
    es.map_values(|e: DirEntryName| (e.name@, e.is_dir))
}

/// The largest run id among the entries; zero where none shows one.
pub open spec fn max_run(es: Seq<(Seq<char>, bool)>) -> nat
    decreases es.len(),
{
    if es.len() == 0 {
        0
    } else {
        let m = max_run(es.drop_last());
        match entry_run(es.last().0, es.last().1) {
            Some(v) => if v > m {
                v as nat
            } else {
                m
            },
            None => m,
        }
    }
}

/// The id of a new run: one more than every run id shown under the root;
/// `InvalidData` when that would overflow.
pub open spec fn next_run_spec(es: Seq<(Seq<char>, bool)>) -> Result<u64, StoreError> {
    if max_run(es) >= u64::MAX {
        Err(StoreError::InvalidData)
    } else {
        Ok((max_run(es) + 1) as u64)
    }
}

/// `s` without the suffix `suf`, if it ends with it.
pub fn strip_suffix_str(s: &str, suf: &str) -> (r: Option<String>)
    ensures
        match strip_suffix(s@, suf@) {
            Some(x) => r is Some && r->Some_0@ == x,
            None => r is None,
        },
{
    let n = s.unicode_len();
    let k = suf.unicode_len();
    if n < k {
        return None;
    }
    let mut i: usize = 0;
    while i < k
        invariant
            n == s@.len(),
            k == suf@.len(),
            k <= n,
            0 <= i <= k,
            forall|j: int| 0 <= j < i ==> s@[n - k + j] == #[trigger] suf@[j],
        decreases k - i,
    {
        if s.get_char(n - k + i) != suf.get_char(i) {
            assert(s@.subrange(n - k, n as int)[i as int] != suf@[i as int]);
            return None;
        }
        i = i + 1;
    }
    assert(s@.subrange(n - k, n as int) =~= suf@);
    Some(String::from_str(s.substring_char(0, n - k)))
}

/// The run id that an entry shows, if any.
pub fn entry_run_id(e: &DirEntryName) -> (r: Option<u64>)
    ensures
        r == entry_run(e.name@, e.is_dir),
{
    if e.is_dir {
        return parse_decimal(e.name.as_str());
    }
    proof {
        reveal_strlit(".gz");
        reveal_strlit(".tar");
        assert(".gz"@ =~= seq!['.', 'g', 'z']);
        assert(".tar"@ =~= seq!['.', 't', 'a', 'r']);
    }
    match strip_suffix_str(e.name.as_str(), ".gz") {
        Some(x) => match strip_suffix_str(x.as_str(), ".tar") {
            Some(y) => parse_decimal(y.as_str()),
            None => parse_decimal(x.as_str()),
        },
        None => None,
    }
}

/// The id of a new run under a root holding `entries`: one more than the
/// largest id among number-named directories and archives there, so that a
/// run whose directory was archived and deleted still counts.
pub fn next_run_id(entries: &Vec<DirEntryName>) -> (r: Result<u64, StoreError>)
    ensures
        r == next_run_spec(entries_view(entries@)),
{
    let ghost es = entries_view(entries@);
    let mut max: u64 = 0;
    let mut i: usize = 0;
    while i < entries.len()
        invariant
            0 <= i <= entries@.len(),
            es == entries_view(entries@),
            max == max_run(es.subrange(0, i as int)),
        decreases entries@.len() - i,
    {
        assert(es.subrange(0, i + 1).drop_last() =~= es.subrange(0, i as int));
        assert(es.subrange(0, i + 1).last() == (entries@[i as int].name@, entries@[i as int].is_dir));
        match entry_run_id(&entries[i]) {
            Some(v) => {
                if v > max {
                    max = v;
                }
            },
            None => {},
        }
        i = i + 1;
    }
    assert(es.subrange(0, entries@.len() as int) =~= es);
    if max == u64::MAX {
        Err(StoreError::InvalidData)
    } else {
        Ok(max + 1)
    }
}

/// Every run id that the entries show is below the new id.
pub proof fn lemma_max_run_bounds(es: Seq<(Seq<char>, bool)>, i: int)
    requires
        0 <= i < es.len(),
        entry_run(es[i].0, es[i].1) is Some,
    ensures
        entry_run(es[i].0, es[i].1)->Some_0 <= max_run(es),
    decreases es.len(),
{
    if i < es.len() - 1 {
        assert(es.drop_last()[i] == es[i]);
        lemma_max_run_bounds(es.drop_last(), i);
    }
}

/// A new run id is larger than every run id shown under the root, whether by
/// a directory or by the archive left after a directory was compressed.
pub proof fn lemma_new_run_exceeds_existing(es: Seq<(Seq<char>, bool)>, i: int)
    requires
        0 <= i < es.len(),
        entry_run(es[i].0, es[i].1) is Some,
        next_run_spec(es) is Ok,
    ensures
        next_run_spec(es)->Ok_0 > entry_run(es[i].0, es[i].1)->Some_0,
{
    lemma_max_run_bounds(es, i);
}

proof fn lemma_max_run_push(es: Seq<(Seq<char>, bool)>, e: (Seq<char>, bool))
    ensures
        max_run(es.push(e)) == match entry_run(e.0, e.1) {
            Some(v) => if v > max_run(es) {
                v as nat
            } else {
                max_run(es)
            },
            None => max_run(es),
        },
{
    assert(es.push(e).drop_last() =~= es);
}

/// Run ids strictly increase across constructions on one root: once a run's
/// directory exists, or only its archive is left, the next run id is larger.
pub proof fn lemma_run_ids_increase(es: Seq<(Seq<char>, bool)>, archived: bool)
    requires
        next_run_spec(es) is Ok,
    ensures
        ({
            let run = next_run_spec(es)->Ok_0;
            let left = if archived {
                (run_name(run as nat) + seq!['.', 't', 'a', 'r', '.', 'g', 'z'], false)
            } else {
                (run_name(run as nat), true)
            };
            match next_run_spec(es.push(left)) {
                Ok(next) => next > run,
                Err(e) => e == StoreError::InvalidData && run == u64::MAX,
            }
        }),
{
    let run = next_run_spec(es)->Ok_0;
    let name = run_name(run as nat);
    crate::decimal::lemma_padded_value(run as nat, COUNTER_WIDTH as nat);
    assert(parsed_u64(name) == Some(run));
    let left = if archived {
        (name + seq!['.', 't', 'a', 'r', '.', 'g', 'z'], false)
    } else {
        (name, true)
    };
    if archived {
        let full = name + seq!['.', 't', 'a', 'r', '.', 'g', 'z'];
        let x = name + seq!['.', 't', 'a', 'r'];
        assert(full.subrange(full.len() - 3, full.len() as int) =~= seq!['.', 'g', 'z']);
        assert(full.subrange(0, full.len() - 3) =~= x);
        assert(x.subrange(x.len() - 4, x.len() as int) =~= seq!['.', 't', 'a', 'r']);
        assert(x.subrange(0, x.len() - 4) =~= name);
        assert(archive_stem(full) == Some(name));
    }
    assert(entry_run(left.0, left.1) == Some(run));
    lemma_max_run_push(es, left);
}

/// The state of a run-based single-frame writer.
pub struct SingleFrameView {
    pub run_dir: Seq<char>,
    pub framecount: nat,
    pub kind: FormatKind,
}

/// Storage of one file per frame, numbered within the run:
/// `root/<run>/<frame>.<ext>`.
#[derive(Debug)]
pub struct ExecCountSingleFrame {
    run_dir: String,
    framecount: u64,
    kind: FormatKind,
}

impl View for ExecCountSingleFrame {
    type V = SingleFrameView;

    closed spec fn view(&self) -> SingleFrameView {
        SingleFrameView { run_dir: self.run_dir@, framecount: self.framecount as nat, kind: self.kind }
    }
}

impl ExecCountSingleFrame {
    /// A new run under `root`, whose listing is `entries`; its directory is
    /// `root/<run id zero-padded>`.
    pub fn new(root: &str, entries: &Vec<DirEntryName>, kind: FormatKind) -> (r: Result<
        ExecCountSingleFrame,
        StoreError,
    >)
        ensures
            match next_run_spec(entries_view(entries@)) {
                Ok(run) => r is Ok && r->Ok_0@ == (SingleFrameView {
                    run_dir: join(root@, run_name(run as nat)),
                    framecount: 0,
                    kind,
                }),
                Err(e) => r == Err::<ExecCountSingleFrame, StoreError>(e),
            },
    {
        match next_run_id(entries) {
            Ok(run) => Ok(ExecCountSingleFrame { run_dir: run_dir(root, run), framecount: 0, kind }),
            Err(e) => Err(e),
        }
    }

    /// The directory of this run.
    pub fn run_dir(&self) -> (r: &String)
        ensures
            r@ == self@.run_dir,
    {
        &self.run_dir
    }

    /// The path of the next frame's file: the frame counter goes up by one
    /// and names it; `InvalidData` (nothing changed) when it would overflow.
    pub fn store_custom_writer(&mut self) -> (r: Result<String, StoreError>)
        ensures
            old(self)@.framecount == u64::MAX ==> r == Err::<String, StoreError>(
                StoreError::InvalidData,
            ) && final(self)@ == old(self)@,
            old(self)@.framecount < u64::MAX ==> final(self)@ == (SingleFrameView {
                framecount: old(self)@.framecount + 1,
                ..old(self)@
            }) && r is Ok && r->Ok_0@ == join(
                old(self)@.run_dir,
                with_extension(
                    padded_decimal(old(self)@.framecount + 1, FRAME_WIDTH as nat),
                    old(self)@.kind,
                ),
            ),
    {
        if self.framecount == u64::MAX {
            return Err(StoreError::InvalidData);
        }
        let fileidx = self.framecount + 1;
        self.framecount = fileidx;
        Ok(counter_file(self.run_dir.as_str(), fileidx, FRAME_WIDTH, self.kind))
    }
}

/// Seconds in a day.
pub const SECS_PER_DAY: u64 = 86400;

/// Seconds in an hour.
pub const SECS_PER_HOUR: u64 = 3600;

/// The state of a run-based writer of one file per frame inside day directories.
pub struct DailySingleView {
    pub run_dir: Seq<char>,
    pub kind: FormatKind,
    pub compress: bool,
    pub day: nat,
    pub framecount: nat,
    pub last_dir: Seq<char>,
}

/// The state after a frame stored `secs` seconds into the run, and its step.
/// A later day starts a new day directory (the finished one goes to archival
/// when that is on) and restarts the frame count at zero; within a day every
/// call takes the next frame number, and `InvalidData` (nothing changed) is
/// the answer when that would overflow.
pub open spec fn daily_single_spec(s: DailySingleView, secs: nat) -> Result<
    (DailySingleView, StepView),
    StoreError,
> {
    let day = secs / 86400;
    if day > s.day {
        let dir = join(s.run_dir, padded_decimal(day, COUNTER_WIDTH as nat));
        Ok(
            (
                DailySingleView { day, framecount: 0, last_dir: dir, ..s },
                StepView {
                    archive: if s.compress {
                        Some(s.last_dir)
                    } else {
                        None
                    },
                    dir,
                    target: join(
                        dir,
                        with_extension(padded_decimal(0, COUNTER_WIDTH as nat), s.kind),
                    ),
                    close_writer: true,
                },
            ),
        )
    } else if s.framecount >= u32::MAX {
        Err(StoreError::InvalidData)
    } else {
        Ok(
            (
                DailySingleView { framecount: s.framecount + 1, ..s },
                StepView {
                    archive: None,
                    dir: s.last_dir,
                    target: join(
                        s.last_dir,
                        with_extension(
                            padded_decimal(s.framecount + 1, COUNTER_WIDTH as nat),
                            s.kind,
                        ),
                    ),
                    close_writer: true,
                },
            ),
        )
    }
}

/// Storage of one file per frame inside day directories of the run:
/// `root/<run>/<day>/<frame>.<ext>`, the day counted from the run's start.
#[derive(Debug)]
pub struct ExecCountDailySingleFrame {
    run_dir: String,
    kind: FormatKind,
    compress: bool,
    day: u64,
    framecount: u32,
    last_dir: String,
}

impl View for ExecCountDailySingleFrame {
    type V = DailySingleView;

    closed spec fn view(&self) -> DailySingleView {
        DailySingleView {
            run_dir: self.run_dir@,
            kind: self.kind,
            compress: self.compress,
            day: self.day as nat,
            framecount: self.framecount as nat,
            last_dir: self.last_dir@,
        }
    }
}

impl ExecCountDailySingleFrame {
    /// A new run under `root`, whose listing is `entries`; it starts in day
    /// directory zero.
    pub fn new(root: &str, entries: &Vec<DirEntryName>, kind: FormatKind, compress: bool) -> (r:
        Result<ExecCountDailySingleFrame, StoreError>)
        ensures
            match next_run_spec(entries_view(entries@)) {
                Ok(run) => r is Ok && r->Ok_0@ == (DailySingleView {
                    run_dir: join(root@, run_name(run as nat)),
                    kind,
                    compress,
                    day: 0,
                    framecount: 0,
                    last_dir: join(
                        join(root@, run_name(run as nat)),
                        padded_decimal(0, COUNTER_WIDTH as nat),
                    ),
                }),
                Err(e) => r == Err::<ExecCountDailySingleFrame, StoreError>(e),
            },
    {
        match next_run_id(entries) {
            Ok(run) => {
                let dir = run_dir(root, run);
                let last_dir = counter_dir(dir.as_str(), 0);
                Ok(ExecCountDailySingleFrame { run_dir: dir, kind, compress, day: 0, framecount: 0, last_dir })
            },
            Err(e) => Err(e),
        }
    }

    /// The current day directory.
    pub fn last_dir(&self) -> (r: &String)
        ensures
            r@ == self@.last_dir,
    {
        &self.last_dir
    }

    /// The step for a frame stored `secs` seconds after the run started.
    pub fn store_custom_writer(&mut self, secs: u64) -> (r: Result<SegmentStep, StoreError>)
        ensures
            match daily_single_spec(old(self)@, secs as nat) {
                Ok((s, v)) => r is Ok && r->Ok_0@ == v && final(self)@ == s,
                Err(e) => r == Err::<SegmentStep, StoreError>(e) && final(self)@ == old(self)@,
            },
    {
        let day = secs / SECS_PER_DAY;
        if day > self.day {
            let archive = if self.compress {
                Some(self.last_dir.clone())
            } else {
                None
            };
            let dir = counter_dir(self.run_dir.as_str(), day);
            self.framecount = 0;
            self.day = day;
            self.last_dir = dir.clone();
            let target = counter_file(dir.as_str(), 0, COUNTER_WIDTH, self.kind);
            Ok(SegmentStep { archive, dir, target, close_writer: true })
        } else {
            if self.framecount == u32::MAX {
                return Err(StoreError::InvalidData);
            }
            self.framecount = self.framecount + 1;
            let target = counter_file(
                self.last_dir.as_str(),
                self.framecount as u64,
                COUNTER_WIDTH,
                self.kind,
            );
            Ok(SegmentStep { archive: None, dir: self.last_dir.clone(), target, close_writer: true })
        }
    }
}

/// The state of a run-based appending writer with one file per day, or per
/// hour of the day.
pub struct RunTrackerView {
    pub run_dir: Seq<char>,
    pub kind: FormatKind,
    pub hourly: bool,
    pub compress: bool,
    pub progname: Seq<u8>,
    pub day: nat,
    pub hour: nat,
    pub last_dir: Seq<char>,
    pub writer_open: bool,
}

/// The state after a frame stored `secs` seconds into the run, and its step.
/// Days and hours only move forward; a later day starts a new day directory
/// (the finished one goes to archival when that is on) and closes the
/// writer, and so does a later hour in hourly mode.
pub open spec fn run_advance_spec(s: RunTrackerView, secs: nat) -> (RunTrackerView, StepView) {
    let d = secs / 86400;
    let h = secs % 86400 / 3600;
    let new_day = d > s.day;
    let day = if new_day {
        d
    } else {
        s.day
    };
    let hour = if new_day || h > s.hour {
        h
    } else {
        s.hour
    };
    let dir = if new_day {
        join(s.run_dir, padded_decimal(d, COUNTER_WIDTH as nat))
    } else {
        s.last_dir
    };
    let new_key = new_day || (s.hourly && hour != s.hour);
    let n = if s.hourly {
        hour
    } else {
        day
    };
    (
        RunTrackerView {
            day,
            hour,
            last_dir: dir,
            writer_open: s.writer_open && !new_key,
            ..s
        },
        StepView {
            archive: if new_day && s.compress {
                Some(s.last_dir)
            } else {
                None
            },
            dir,
            target: join(dir, with_extension(padded_decimal(n, COUNTER_WIDTH as nat), s.kind)),
            close_writer: new_key,
        },
    )
}

/// Appending storage by elapsed run time: `root/<run>/<day>/<day>.<ext>`, or
/// `root/<run>/<day>/<hour>.<ext>` in hourly mode.
#[derive(Debug)]
pub struct RunTracker {
    run_dir: String,
    kind: FormatKind,
    hourly: bool,
    compress: bool,
    progname: Vec<u8>,
    day: u64,
    hour: u64,
    last_dir: String,
    writer_open: bool,
}

impl View for RunTracker {
    type V = RunTrackerView;

    closed spec fn view(&self) -> RunTrackerView {
        RunTrackerView {
            run_dir: self.run_dir@,
            kind: self.kind,
            hourly: self.hourly,
            compress: self.compress,
            progname: self.progname@,
            day: self.day as nat,
            hour: self.hour as nat,
            last_dir: self.last_dir@,
            writer_open: self.writer_open,
        }
    }
}

impl RunTracker {
    /// A new run under `root`, whose listing is `entries`; it starts in day
    /// directory zero, hour zero.
    pub fn new(
        root: &str,
        entries: &Vec<DirEntryName>,
        kind: FormatKind,
        hourly: bool,
        compress: bool,
        progname: &[u8],
    ) -> (r: Result<RunTracker, StoreError>)
        ensures
            match next_run_spec(entries_view(entries@)) {
                Ok(run) => r is Ok && r->Ok_0@ == (RunTrackerView {
                    run_dir: join(root@, run_name(run as nat)),
                    kind,
                    hourly,
                    compress,
                    progname: progname@,
                    day: 0,
                    hour: 0,
                    last_dir: join(
                        join(root@, run_name(run as nat)),
                        padded_decimal(0, COUNTER_WIDTH as nat),
                    ),
                    writer_open: false,
                }),
                Err(e) => r == Err::<RunTracker, StoreError>(e),
            },
    {
        match next_run_id(entries) {
            Ok(run) => {
                let dir = run_dir(root, run);
                let last_dir = counter_dir(dir.as_str(), 0);
                Ok(
                    RunTracker {
                        run_dir: dir,
                        kind,
                        hourly,
                        compress,
                        progname: vstd::slice::slice_to_vec(progname),
                        day: 0,
                        hour: 0,
                        last_dir,
                        writer_open: false,
                    },
                )
            },
            Err(e) => Err(e),
        }
    }

    /// The current day directory.
    pub fn last_dir(&self) -> (r: &String)
        ensures
            r@ == self@.last_dir,
    {
        &self.last_dir
    }

    pub fn kind(&self) -> (r: FormatKind)
        ensures
            r == self@.kind,
    {
        self.kind
    }

    /// Chooses the segment for a frame stored `secs` seconds after the run
    /// started.
    pub fn advance(&mut self, secs: u64) -> (r: SegmentStep)
        ensures
            (final(self)@, r@) == run_advance_spec(old(self)@, secs as nat),
    {
        let d = secs / SECS_PER_DAY;
        let h = secs % SECS_PER_DAY / SECS_PER_HOUR;
        let new_day = d > self.day;
        let archive = if new_day && self.compress {
            Some(self.last_dir.clone())
        } else {
            None
        };
        let hour = if new_day || h > self.hour {
            h
        } else {
            self.hour
        };
        let new_key = new_day || (self.hourly && hour != self.hour);
        if new_day {
            self.day = d;
            self.last_dir = counter_dir(self.run_dir.as_str(), d);
        }
        self.hour = hour;
        self.writer_open = self.writer_open && !new_key;
        let n = if self.hourly {
            hour
        } else {
            self.day
        };
        let target = counter_file(self.last_dir.as_str(), n, COUNTER_WIDTH, self.kind);
        let r = SegmentStep { archive, dir: self.last_dir.clone(), target, close_writer: new_key };
        proof {
            let (sn, sv) = run_advance_spec(old(self)@, secs as nat);
            assert(r@.archive == sv.archive);
            assert(r@.dir == sv.dir);
            assert(r@.target == sv.target);
            assert(self@ == sn);
        }
        r
    }

    /// How to get a writer for the classified target of the last step.
    pub fn open(&mut self, c: CheckedFileName) -> (r: Result<OpenPlan, StoreError>)
        ensures
            match (r, plan_of(c, old(self)@.kind, old(self)@.progname, old(self)@.writer_open, false)) {
                (Ok(p), Ok(v)) => p@ == v,
                (Err(e), Err(f)) => e == f,
                _ => false,
            },
            final(self)@ == (RunTrackerView { writer_open: r is Ok, ..old(self)@ }),
    {
        let r = open_plan(c, self.kind, self.progname.as_slice(), self.writer_open, false);
        self.writer_open = r.is_ok();
        r
    }

    /// Forgets the open writer (after a failed open or write).
    pub fn release_writer(&mut self)
        ensures
            final(self)@ == (RunTrackerView { writer_open: false, ..old(self)@ }),
    {
        self.writer_open = false;
    }
}

} // verus!
