//! Rotation on UTC calendar boundaries: which day directory and which file a
//! frame stored at a given time goes to, and when the previous day is handed
//! to archival.
use vstd::prelude::*;

use crate::calendar::{
    clock_text, date_text, days_from_civil, lemma_date_text_injective, lemma_day_of_unix_seconds,
    CivilTime, UtcTime,
};
use crate::error::StoreError;
use crate::format::FormatKind;
use crate::layout::{
    date_dir, hour_file, instant_file, join, lemma_join_injective, lemma_with_extension_injective,
    with_extension,
};
use crate::segment::{open_plan, plan_of, CheckedFileName, OpenPlan, PlanView, SegmentStep, StepView};

verus! {

/// How a tracker partitions frames in time.
#[derive(Clone, Copy, Debug, PartialEq, Eq, Structural)]
pub enum UtcMode {
    /// One file per UTC day, appended to.
    DailyAppend,
    /// One file per UTC hour inside the day directory, appended to.
    HourlyAppend,
    /// One file per frame, named by its full time.
    DailySingle,
}

/// The state of a tracker.
pub struct TrackerView {
    pub root: Seq<char>,
    pub kind: FormatKind,
    pub mode: UtcMode,
    pub compress: bool,
    pub progname: Seq<u8>,
    pub last_date: Option<(int, int, int)>,
    pub last_hour: Option<int>,
    pub current_dir: Seq<char>,
    pub writer_open: bool,
}

/// The file name, inside the day directory, of a frame stored at `t`.
pub open spec fn target_name(mode: UtcMode, t: CivilTime, kind: FormatKind) -> Seq<char> {
    match mode {
        UtcMode::DailyAppend => with_extension(
            date_text(t) + seq!['0', '0'] + seq!['0', '0', '0', '0'],
            kind,
        ),
        UtcMode::HourlyAppend => with_extension(
            date_text(t) + crate::decimal::padded_decimal(t.hour as nat, 2) + seq![
                '0',
                '0',
                '0',
                '0',
            ],
            kind,
        ),
        UtcMode::DailySingle => with_extension(date_text(t) + clock_text(t), kind),
    }
}

/// The state after a frame at `t`, and the step for it. The previous day
/// directory is handed to archival only when the date changed, archival is
/// on, and there was a previous day.
pub open spec fn advance_spec(s: TrackerView, t: CivilTime) -> (TrackerView, StepView) {
    let date = (t.year, t.month, t.day);
    let new_day = s.last_date != Some(date);
    let dir = join(s.root, date_text(t));
    let archive = if s.compress && new_day && s.last_date is Some {
        Some(s.current_dir)
    } else {
        None
    };
    let new_key = new_day || s.mode == UtcMode::DailySingle || (s.mode == UtcMode::HourlyAppend
        && s.last_hour != Some(t.hour));
    let next = TrackerView {
        last_date: Some(date),
        last_hour: Some(t.hour),
        current_dir: dir,
        writer_open: s.writer_open && !new_key,
        ..s
    };
    (
        next,
        StepView {
            archive,
            dir,
            target: join(dir, target_name(s.mode, t, s.kind)),
            close_writer: new_key,
        },
    )
}

/// A fresh tracker: no day seen yet.
pub open spec fn fresh_tracker(
    root: Seq<char>,
    kind: FormatKind,
    mode: UtcMode,
    compress: bool,
    progname: Seq<u8>,
) -> TrackerView {
    TrackerView {
        root,
        kind,
        mode,
        compress,
        progname,
        last_date: None,
        last_hour: None,
        current_dir: Seq::empty(),
        writer_open: false,
    }
}

/// Segment selection by UTC calendar time.
#[derive(Debug)]
pub struct BoundaryTracker {
    root: String,
    kind: FormatKind,
    mode: UtcMode,
    compress: bool,
    progname: Vec<u8>,
    last_date: Option<(i32, u32, u32)>,
    last_hour: Option<u32>,
    current_dir: String,
    writer_open: bool,
}

impl View for BoundaryTracker {
    type V = TrackerView;

    closed spec fn view(&self) -> TrackerView {
        TrackerView {
            root: self.root@,
            kind: self.kind,
            mode: self.mode,
            compress: self.compress,
            progname: self.progname@,
            last_date: match self.last_date {
                Some((y, m, d)) => Some((y as int, m as int, d as int)),
                None => None,
            },
            last_hour: match self.last_hour {
                Some(h) => Some(h as int),
                None => None,
            },
            current_dir: self.current_dir@,
            writer_open: self.writer_open,
        }
    }
}

impl BoundaryTracker {
    /// A tracker for segments of `kind` under `root`, written by `progname`.
    pub fn new(root: &str, kind: FormatKind, mode: UtcMode, compress: bool, progname: &[u8]) -> (r:
        BoundaryTracker)
        ensures
            r@ == fresh_tracker(root@, kind, mode, compress, progname@),
    {
        BoundaryTracker {
            root: String::from_str(root),
            kind,
            mode,
            compress,
            progname: vstd::slice::slice_to_vec(progname),
            last_date: None,
            last_hour: None,
            current_dir: String::new(),
            writer_open: false,
        }
    }

    pub fn kind(&self) -> (r: FormatKind)
        ensures
            r == self@.kind,
    {
        self.kind
    }

    /// Chooses the segment for a frame stored at `t`.
    pub fn advance(&mut self, t: &UtcTime) -> (r: SegmentStep)
        ensures
            (final(self)@, r@) == advance_spec(old(self)@, t@),
    {
        let date = (t.year(), t.month(), t.day());
        let new_day = match self.last_date {
            Some((y, m, d)) => !(y == date.0 && m == date.1 && d == date.2),
            None => true,
        };
        let dir = date_dir(self.root.as_str(), t);
        let archive = if self.compress && new_day && self.last_date.is_some() {
            Some(self.current_dir.clone())
        } else {
            None
        };
        let same_hour = match self.last_hour {
            Some(h) => h == t.hour(),
            None => false,
        };
        let new_key = new_day || self.mode == UtcMode::DailySingle || (self.mode
            == UtcMode::HourlyAppend && !same_hour);
        proof {
            reveal_strlit("00");
        }
        let target = match self.mode {
            UtcMode::DailyAppend => hour_file(dir.as_str(), t, "00", self.kind),
            UtcMode::HourlyAppend => {
                let hh = t.hour_text();
                hour_file(dir.as_str(), t, hh.as_str(), self.kind)
            },
            UtcMode::DailySingle => instant_file(dir.as_str(), t, self.kind),
        };
        self.last_date = Some(date);
        self.last_hour = Some(t.hour());
        self.current_dir = dir.clone();
        self.writer_open = self.writer_open && !new_key;
        let r = SegmentStep { archive, dir, target, close_writer: new_key };
        proof {
            let (sn, sv) = advance_spec(old(self)@, t@);
            assert(new_day == (old(self)@.last_date != Some((t@.year, t@.month, t@.day))));
            assert(r@.archive == sv.archive);
            assert(r@.dir == sv.dir);
            assert(r@.target == sv.target);
            assert(r@.close_writer == sv.close_writer);
            assert(self@.last_date == sn.last_date);
            assert(self@ == sn);
        }
        r
    }

    /// How to get a writer for the classified target of the last step. In
    /// single-frame mode a present target is refused with `AlreadyExists`.
    pub fn open(&mut self, c: CheckedFileName) -> (r: Result<OpenPlan, StoreError>)
        ensures
            match (r, plan_of(
                c,
                old(self)@.kind,
                old(self)@.progname,
                old(self)@.writer_open,
                old(self)@.mode == UtcMode::DailySingle,
            )) {
                (Ok(p), Ok(v)) => p@ == v,
                (Err(e), Err(f)) => e == f,
                _ => false,
            },
            final(self)@ == (TrackerView {
                writer_open: r is Ok && old(self)@.mode != UtcMode::DailySingle,
                ..old(self)@
            }),
    {
        let single = self.mode == UtcMode::DailySingle;
        let r = open_plan(c, self.kind, self.progname.as_slice(), self.writer_open, single);
        self.writer_open = r.is_ok() && !single;
        r
    }

    /// Forgets the open writer (after a failed open or write).
    pub fn release_writer(&mut self)
        ensures
            final(self)@ == (TrackerView { writer_open: false, ..old(self)@ }),
    {
        self.writer_open = false;
    }
}

/// The daily segment of a frame is named by the UTC calendar date of its
/// timestamp (the date whose day number is the Unix seconds divided by the
/// length of a day), whatever the tracker's state; no local time zone enters.
pub proof fn lemma_daily_segment_is_utc_date(s: TrackerView, t: CivilTime)
    requires
        t.valid(),
    ensures
        advance_spec(s, t).1.dir == join(s.root, date_text(t)),
        days_from_civil(t.year, t.month, t.day) == t.unix_seconds() / 86400,
{
    lemma_day_of_unix_seconds(t);
}

/// Frames at `t1` and then 25 hours later, on a fresh tracker with archival
/// on, land in two different day directories, and exactly one archival
/// request is made: for the first directory, in the step that creates the
/// second (the step hands it over before the directory is made).
pub proof fn lemma_day_rotation_archives_once(
    root: Seq<char>,
    kind: FormatKind,
    mode: UtcMode,
    progname: Seq<u8>,
    t1: CivilTime,
    t2: CivilTime,
)
    requires
        t1.valid(),
        t2.valid(),
        t2.unix_seconds() == t1.unix_seconds() + 25 * 3600,
    ensures
        ({
            let s0 = fresh_tracker(root, kind, mode, true, progname);
            let (s1, v1) = advance_spec(s0, t1);
            let (s2, v2) = advance_spec(s1, t2);
            &&& v1.archive is None
            &&& v2.archive == Some(v1.dir)
            &&& v1.dir != v2.dir
        }),
{
    lemma_day_of_unix_seconds(t1);
    lemma_day_of_unix_seconds(t2);
    let u1 = t1.unix_seconds();
    assert((u1 + 90000) / 86400 >= u1 / 86400 + 1) by {
        vstd::arithmetic::div_mod::lemma_div_is_ordered(u1 + 86400, u1 + 90000, 86400);
        vstd::arithmetic::div_mod::lemma_div_plus_one(u1, 86400);
    }
    assert(t1.day_number() != t2.day_number());
    assert((t1.year, t1.month, t1.day) != (t2.year, t2.month, t2.day));
    if date_text(t1) == date_text(t2) {
        lemma_date_text_injective(t1, t2);
    }
    if join(root, date_text(t1)) == join(root, date_text(t2)) {
        lemma_join_injective(root, date_text(t1), date_text(t2));
    }
}

/// Hourly appending: a second frame in the same UTC hour goes to the same
/// file and, the writer being open, is appended through it; a frame in
/// another hour of the same day goes to a different file, with the writer of
/// the previous one closed and nothing sent to archival.
pub proof fn lemma_hourly_appends_within_hour(
    s: TrackerView,
    t1: CivilTime,
    t2: CivilTime,
    t3: CivilTime,
    c: CheckedFileName,
)
    requires
        s.mode == UtcMode::HourlyAppend,
        t1.valid(),
        t2.valid(),
        t3.valid(),
        (t1.year, t1.month, t1.day) == (t2.year, t2.month, t2.day),
        (t1.year, t1.month, t1.day) == (t3.year, t3.month, t3.day),
        t1.hour == t2.hour,
        t3.hour != t1.hour,
    ensures
        ({
            let (s1, v1) = advance_spec(s, t1);
            let opened = TrackerView { writer_open: true, ..s1 };
            let (s2, v2) = advance_spec(opened, t2);
            let (s3, v3) = advance_spec(s2, t3);
            &&& v2.target == v1.target
            &&& v2.archive is None
            &&& !v2.close_writer
            &&& s2.writer_open
            &&& (c is Old && c.path() == v2.target ==> plan_of(
                c,
                s.kind,
                s.progname,
                s2.writer_open,
                false,
            ) == Ok::<PlanView, StoreError>(PlanView::Reuse))
            &&& v3.target != v2.target
            &&& v3.close_writer
            &&& v3.archive is None
            &&& !s3.writer_open
        }),
{
    let (s1, v1) = advance_spec(s, t1);
    let opened = TrackerView { writer_open: true, ..s1 };
    let (s2, v2) = advance_spec(opened, t2);
    let (s3, v3) = advance_spec(s2, t3);
    assert(date_text(t1) == date_text(t2) && date_text(t2) == date_text(t3));
    let dir = join(s.root, date_text(t2));
    let stem2 = date_text(t2) + crate::decimal::padded_decimal(t2.hour as nat, 2) + seq![
        '0',
        '0',
        '0',
        '0',
    ];
    let stem3 = date_text(t3) + crate::decimal::padded_decimal(t3.hour as nat, 2) + seq![
        '0',
        '0',
        '0',
        '0',
    ];
    if v3.target == v2.target {
        lemma_join_injective(dir, with_extension(stem3, s.kind), with_extension(stem2, s.kind));
        lemma_with_extension_injective(stem3, stem2, s.kind);
        crate::decimal::lemma_two_digits(t2.hour as nat);
        crate::decimal::lemma_two_digits(t3.hour as nat);
        let n = date_text(t2).len();
        assert(stem2.subrange(n as int, n as int + 2) =~= crate::decimal::padded_decimal(
            t2.hour as nat,
            2,
        ));
        assert(stem3.subrange(n as int, n as int + 2) =~= crate::decimal::padded_decimal(
            t3.hour as nat,
            2,
        ));
        crate::decimal::lemma_padded_injective(t2.hour as nat, t3.hour as nat, 2);
    }
}

/// Single-frame mode never lets two successful stores resolve to the same
/// path: with `present` the paths on disk before the first store, a store is
/// planned only for an absent target, the first target is present after it,
/// and a second store to that same path is refused with `AlreadyExists`.
pub proof fn lemma_single_frame_never_reuses_path(
    present: Set<Seq<char>>,
    c1: CheckedFileName,
    c2: CheckedFileName,
    kind: FormatKind,
    progname: Seq<u8>,
    writer_open: bool,
)
    requires
        c1 is Old <==> present.contains(c1.path()),
        c2 is Old <==> present.insert(c1.path()).contains(c2.path()),
    ensures
        plan_of(c1, kind, progname, writer_open, true) is Ok && plan_of(
            c2,
            kind,
            progname,
            writer_open,
            true,
        ) is Ok ==> c1.path() != c2.path(),
        c2.path() == c1.path() ==> plan_of(c2, kind, progname, writer_open, true) == Err::<
            PlanView,
            StoreError,
        >(StoreError::AlreadyExists),
{
}

} // verus!
