use std::collections::HashSet;

use datastor::{
    BoundaryTracker, CheckedFileName, FormatKind, OpenPlan, StoreError, UtcMode, UtcTime,
    BINARY_VERSION,
};

// 2015-05-15T10:01:01.123456789Z
const T: i64 = 1_431_648_000 + 10 * 3600 + 61;
const NANOS: u32 = 123_456_789;

fn at(secs: i64) -> UtcTime {
    UtcTime::from_timestamp(secs, NANOS).unwrap()
}

/// Runs one store decision against a simulated disk; returns the target
/// and the plan.
fn store(
    tr: &mut BoundaryTracker,
    disk: &mut HashSet<String>,
    archived: &mut Vec<String>,
    t: &UtcTime,
) -> Result<(String, OpenPlan), StoreError> {
    let step = tr.advance(t);
    if let Some(a) = step.archive.clone() {
        archived.push(a);
    }
    let present = disk.contains(&step.target);
    let plan = tr.open(CheckedFileName::classify(step.target.clone(), present))?;
    disk.insert(step.target.clone());
    Ok((step.target, plan))
}

#[test]
fn daily_name_is_utc_date() {
    let t = at(T);
    assert_eq!(t.date_text(), "20150515");
    assert_eq!(t.hour_text(), "10");
    assert_eq!(t.clock_text(), "100101.123456");
    let midnight = UtcTime::from_timestamp(1_431_648_000 - 1, 0).unwrap();
    assert_eq!(midnight.date_text(), "20150514");
    let epoch = UtcTime::from_timestamp(0, 0).unwrap();
    assert_eq!(epoch.date_text(), "19700101");
    let before = UtcTime::from_timestamp(-1, 0).unwrap();
    assert_eq!(before.date_text(), "19691231");
    assert_eq!(before.clock_text(), "235959.000000");
}

#[test]
fn leap_day_and_far_years() {
    // 2000-02-29T12:00:00Z
    let t = UtcTime::from_timestamp(951_825_600, 0).unwrap();
    assert_eq!(t.date_text(), "20000229");
    assert_eq!((t.year(), t.month(), t.day()), (2000, 2, 29));
    // 0001-01-01T00:00:00Z and 9999-12-31T23:59:59Z
    assert_eq!(UtcTime::from_timestamp(-62_135_596_800, 0).unwrap().date_text(), "00010101");
    assert_eq!(UtcTime::from_timestamp(253_402_300_799, 0).unwrap().date_text(), "99991231");
    // year 10000 carries a sign, as chrono's %Y writes it
    assert_eq!(UtcTime::from_timestamp(253_402_300_800, 0).unwrap().date_text(), "+100000101");
    assert!(UtcTime::from_timestamp(0, 2_000_000_000).is_none());
}

#[test]
fn test_store() {
    let mut disk = HashSet::new();
    let mut archived = Vec::new();
    let mut tr = BoundaryTracker::new(
        "test_store_utcdaily",
        FormatKind::Binary,
        UtcMode::DailyAppend,
        true,
        b"testprogram",
    );
    let (path1, plan1) = store(&mut tr, &mut disk, &mut archived, &at(T)).unwrap();
    assert_eq!(path1, "test_store_utcdaily/20150515/20150515000000.bin");
    match plan1 {
        OpenPlan::Create(p, header) => {
            assert_eq!(p, path1);
            let mut expected = BINARY_VERSION.to_le_bytes().to_vec();
            expected.extend_from_slice(&11u32.to_le_bytes());
            expected.extend_from_slice(b"testprogram");
            assert_eq!(header, expected);
        }
        other => panic!("unexpected plan {other:?}"),
    }
    let (path2, plan2) = store(&mut tr, &mut disk, &mut archived, &at(T + 2 * 3600)).unwrap();
    assert_eq!(path2, path1);
    assert!(matches!(plan2, OpenPlan::Reuse));
    let (path3, plan3) = store(&mut tr, &mut disk, &mut archived, &at(T + 25 * 3600)).unwrap();
    assert_eq!(path3, "test_store_utcdaily/20150516/20150516000000.bin");
    assert!(matches!(plan3, OpenPlan::Create(_, _)));
    assert_eq!(archived, vec!["test_store_utcdaily/20150515".to_string()]);

    // a second handle of another format under the same root resumes nothing of the first
    let mut tr = BoundaryTracker::new(
        "test_store_utcdaily",
        FormatKind::Json,
        UtcMode::DailyAppend,
        true,
        b"testprogram",
    );
    let (path4, plan4) = store(&mut tr, &mut disk, &mut archived, &at(T)).unwrap();
    assert_eq!(path4, "test_store_utcdaily/20150515/20150515000000.json");
    assert!(matches!(plan4, OpenPlan::Create(_, ref h) if h.is_empty()));
}

#[test]
fn test_string() {
    let mut disk = HashSet::new();
    let mut archived = Vec::new();
    let mut tr = BoundaryTracker::new(
        "test_string_utcdaily",
        FormatKind::Json,
        UtcMode::DailyAppend,
        true,
        b"testprogram",
    );
    let data = FormatKind::Json.frame_bytes(b"\"Hello\\nworld\"").unwrap();
    assert_eq!(data, b"\"Hello\\nworld\"\n".to_vec());
    let (path1, _) = store(&mut tr, &mut disk, &mut archived, &at(T)).unwrap();
    let (path2, plan2) = store(&mut tr, &mut disk, &mut archived, &at(T + 2 * 3600)).unwrap();
    assert_eq!(path1, path2);
    assert!(matches!(plan2, OpenPlan::Reuse));
    let (path3, _) = store(&mut tr, &mut disk, &mut archived, &at(T + 25 * 3600)).unwrap();
    assert_ne!(path3, path1);
    assert_eq!(archived.len(), 1);
}

#[test]
fn rotation_after_25_hours_archives_first_day_once() {
    let mut tr = BoundaryTracker::new("root", FormatKind::Raw, UtcMode::DailyAppend, true, b"p");
    let s1 = tr.advance(&at(T));
    assert!(s1.archive.is_none());
    let s2 = tr.advance(&at(T + 25 * 3600));
    assert_ne!(s1.dir, s2.dir);
    assert_eq!(s2.archive, Some(s1.dir.clone()));
    assert_eq!(s1.dir, "root/20150515");
    assert_eq!(s2.dir, "root/20150516");
}

#[test]
fn rotation_without_archival_leaves_days_alone() {
    let mut tr = BoundaryTracker::new("root/", FormatKind::Raw, UtcMode::DailyAppend, false, b"p");
    let s1 = tr.advance(&at(T));
    let s2 = tr.advance(&at(T + 25 * 3600));
    assert_eq!(s1.dir, "root/20150515");
    assert!(s2.archive.is_none());
}

#[test]
fn hourly_append_within_hour_then_new_file() {
    let mut disk = HashSet::new();
    let mut archived = Vec::new();
    let mut tr = BoundaryTracker::new("h", FormatKind::Binary, UtcMode::HourlyAppend, true, b"p");
    let (path1, plan1) = store(&mut tr, &mut disk, &mut archived, &at(T)).unwrap();
    assert_eq!(path1, "h/20150515/20150515100000.bin");
    assert!(matches!(plan1, OpenPlan::Create(_, _)));
    let (path2, plan2) = store(&mut tr, &mut disk, &mut archived, &at(T + 1500)).unwrap();
    assert_eq!(path2, path1);
    assert!(matches!(plan2, OpenPlan::Reuse));
    let step = tr.advance(&at(T + 3600));
    assert!(step.close_writer);
    assert!(step.archive.is_none());
    assert_eq!(step.target, "h/20150515/20150515110000.bin");
    assert_ne!(step.target, path1);
    assert!(archived.is_empty());
}

#[test]
fn hourly_resume_after_restart_appends() {
    let mut tr = BoundaryTracker::new("h", FormatKind::Binary, UtcMode::HourlyAppend, false, b"p");
    let step = tr.advance(&at(T));
    let plan = tr.open(CheckedFileName::classify(step.target.clone(), true)).unwrap();
    match plan {
        OpenPlan::Append(p) => assert_eq!(p, step.target),
        other => panic!("unexpected plan {other:?}"),
    }
}

#[test]
fn test_singleframe() {
    let mut disk = HashSet::new();
    let mut archived = Vec::new();
    let mut tr = BoundaryTracker::new(
        "test_utcsingleframe",
        FormatKind::Binary,
        UtcMode::DailySingle,
        true,
        b"",
    );
    let (path1, _) = store(&mut tr, &mut disk, &mut archived, &at(T)).unwrap();
    assert_eq!(path1, "test_utcsingleframe/20150515/20150515100101.123456.bin");
    let (path2, _) = store(&mut tr, &mut disk, &mut archived, &at(T + 2 * 3600)).unwrap();
    let (path3, _) = store(&mut tr, &mut disk, &mut archived, &at(T + 25 * 3600)).unwrap();
    let (path4, _) = store(&mut tr, &mut disk, &mut archived, &at(T + 26 * 3600)).unwrap();
    assert_eq!(path2, "test_utcsingleframe/20150515/20150515120101.123456.bin");
    assert_eq!(path3, "test_utcsingleframe/20150516/20150516110101.123456.bin");
    assert_eq!(path4, "test_utcsingleframe/20150516/20150516120101.123456.bin");
    assert_eq!(archived, vec!["test_utcsingleframe/20150515".to_string()]);
}

#[test]
fn single_frame_repeat_target_is_already_exists() {
    let mut disk = HashSet::new();
    let mut archived = Vec::new();
    let mut tr = BoundaryTracker::new("s", FormatKind::Raw, UtcMode::DailySingle, false, b"");
    let (path1, _) = store(&mut tr, &mut disk, &mut archived, &at(T)).unwrap();
    let again = store(&mut tr, &mut disk, &mut archived, &at(T));
    assert_eq!(again.unwrap_err(), StoreError::AlreadyExists);
    assert!(disk.contains(&path1));
    let c = CheckedFileName::classify(path1.clone(), true);
    assert!(c.file_exists());
    assert_eq!(c.get_filename(), &path1);
    assert_eq!(c.into_fresh(), Err(StoreError::AlreadyExists));
    let c = CheckedFileName::classify(path1.clone(), false);
    assert!(!c.file_exists());
    assert_eq!(c.into_fresh(), Ok(path1));
}
