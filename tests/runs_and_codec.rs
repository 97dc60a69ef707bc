use datastor::{
    archive_path, encode_frame, encode_header, lock_path, next_run_id, read_frames, read_segment,
    worker_action, ArchivalRequest, CheckedFileName, DirEntryName, ExecCountDailySingleFrame,
    ExecCountSingleFrame, FormatKind, OpenPlan, RunTracker, StoreError, WorkerAction,
};

fn dir(name: &str) -> DirEntryName {
    DirEntryName { name: name.to_string(), is_dir: true }
}

fn file(name: &str) -> DirEntryName {
    DirEntryName { name: name.to_string(), is_dir: false }
}

#[test]
fn run_id_recovery_from_listing() {
    assert_eq!(next_run_id(&vec![]), Ok(1));
    assert_eq!(next_run_id(&vec![dir("0000000003"), dir("notes"), file("7.txt")]), Ok(4));
    // only the archive of run 9 is left
    assert_eq!(
        next_run_id(&vec![dir("0000000003"), file("0000000009.tar.gz"), file("a.lock")]),
        Ok(10)
    );
    assert_eq!(next_run_id(&vec![file("12.gz")]), Ok(13));
    // a file named like a number is no run
    assert_eq!(next_run_id(&vec![file("0000000042")]), Ok(1));
    assert_eq!(next_run_id(&vec![dir("18446744073709551615")]), Err(StoreError::InvalidData));
    assert_eq!(next_run_id(&vec![dir("18446744073709551616")]), Ok(1));
}

#[test]
fn run_ids_increase_across_constructions() {
    let mut listing = vec![file("0000000041.tar.gz")];
    let first = ExecCountSingleFrame::new("root", &listing, FormatKind::Binary).unwrap();
    assert_eq!(first.run_dir(), "root/0000000042");
    listing.push(dir("0000000042"));
    let second = ExecCountSingleFrame::new("root", &listing, FormatKind::Binary).unwrap();
    assert_eq!(second.run_dir(), "root/0000000043");
    // the second run was archived and deleted in the meantime
    listing.push(file("0000000043.tar.gz"));
    let third = ExecCountSingleFrame::new("root", &listing, FormatKind::Binary).unwrap();
    assert_eq!(third.run_dir(), "root/0000000044");
}

#[test]
fn test_exec_count_singleframe() {
    let mut store =
        ExecCountSingleFrame::new("test_exec_count_singleframe", &vec![], FormatKind::Binary)
            .unwrap();
    let mut paths = Vec::new();
    for _ in 0..4 {
        paths.push(store.store_custom_writer().unwrap());
    }
    assert_eq!(paths[0], "test_exec_count_singleframe/0000000001/00000000000000000001.bin");
    assert_eq!(paths[3], "test_exec_count_singleframe/0000000001/00000000000000000004.bin");
    for (i, p) in paths.iter().enumerate() {
        for q in &paths[i + 1..] {
            assert_ne!(p, q);
        }
    }
}

#[test]
fn test_exec_count_daily_singleframe() {
    let mut store = ExecCountDailySingleFrame::new(
        "test_exec_count_daily_singleframe",
        &vec![],
        FormatKind::Binary,
        true,
    )
    .unwrap();
    let base = "test_exec_count_daily_singleframe/0000000001";
    assert_eq!(store.last_dir(), &format!("{base}/0000000000"));
    let mut targets = Vec::new();
    let mut archives = Vec::new();
    for secs in [1u64, 60, 3600, 86400, 86400 + 3500, 86400 + 7200] {
        let step = store.store_custom_writer(secs).unwrap();
        if let Some(a) = step.archive {
            archives.push(a);
        }
        targets.push(step.target);
    }
    assert_eq!(targets[0], format!("{base}/0000000000/0000000001.bin"));
    assert_eq!(targets[2], format!("{base}/0000000000/0000000003.bin"));
    assert_eq!(targets[3], format!("{base}/0000000001/0000000000.bin"));
    assert_eq!(targets[5], format!("{base}/0000000001/0000000002.bin"));
    assert_eq!(archives, vec![format!("{base}/0000000000")]);
}

#[test]
fn test_store_hourly() {
    let mut tr = RunTracker::new(
        "test_store_exechourly",
        &vec![],
        FormatKind::Json,
        true,
        true,
        b"test",
    )
    .unwrap();
    let base = "test_store_exechourly/0000000001";
    let s1 = tr.advance(60);
    assert_eq!(s1.target, format!("{base}/0000000000/0000000000.json"));
    assert!(s1.archive.is_none());
    let plan = tr.open(CheckedFileName::classify(s1.target.clone(), false)).unwrap();
    assert!(matches!(plan, OpenPlan::Create(_, ref h) if h.is_empty()));
    let s2 = tr.advance(3600);
    assert!(s2.close_writer);
    assert_eq!(s2.target, format!("{base}/0000000000/0000000001.json"));
    let s3 = tr.advance(86400);
    assert_eq!(s3.archive, Some(format!("{base}/0000000000")));
    assert_eq!(s3.target, format!("{base}/0000000001/0000000000.json"));
    let s4 = tr.advance(86400 + 3600);
    assert_eq!(s4.target, format!("{base}/0000000001/0000000001.json"));
    assert!(s4.archive.is_none());
    assert_eq!(FormatKind::Json.frame_bytes(b"42").unwrap(), b"42\n".to_vec());
}

#[test]
fn test_store_daily() {
    let mut tr =
        RunTracker::new("test_store_execdaily", &vec![], FormatKind::Json, false, true, b"test")
            .unwrap();
    let base = "test_store_execdaily/0000000001";
    let s1 = tr.advance(60);
    let _ = tr.open(CheckedFileName::classify(s1.target.clone(), false)).unwrap();
    let s2 = tr.advance(3600);
    assert_eq!(s2.target, s1.target);
    assert!(!s2.close_writer);
    let plan = tr.open(CheckedFileName::classify(s2.target.clone(), true)).unwrap();
    assert!(matches!(plan, OpenPlan::Reuse));
    let s3 = tr.advance(86400);
    assert!(s3.close_writer);
    assert_eq!(s3.archive, Some(format!("{base}/0000000000")));
    assert_eq!(s3.target, format!("{base}/0000000001/0000000001.json"));
    let s4 = tr.advance(86400 + 3600);
    assert_eq!(s4.target, s3.target);
    // going back in time stays in the current day
    let s5 = tr.advance(10);
    assert_eq!(s5.target, s3.target);
}

#[test]
fn binary_round_trip() {
    let payloads: Vec<Vec<u8>> = vec![vec![], vec![0, 255, 7], vec![1; 300], b"frame".to_vec()];
    let mut seg = encode_header(b"prog").unwrap();
    for p in &payloads {
        seg.extend_from_slice(&FormatKind::Binary.frame_bytes(p).unwrap());
    }
    let (name, back) = read_segment(&seg).unwrap();
    assert_eq!(name, b"prog".to_vec());
    assert_eq!(back, payloads);
    // framing without the header reads as the same frames
    let header_len = 4 + 4 + 4;
    assert_eq!(read_frames(&seg[header_len..]).unwrap(), payloads);
}

#[test]
fn frame_layout_and_broken_input() {
    assert_eq!(encode_frame(&[9, 8]).unwrap(), vec![2, 0, 0, 0, 9, 8]);
    assert_eq!(encode_frame(&[]).unwrap(), vec![0, 0, 0, 0]);
    assert_eq!(read_frames(&[]).unwrap(), Vec::<Vec<u8>>::new());
    assert!(read_frames(&[1, 0, 0]).is_none());
    assert!(read_frames(&[3, 0, 0, 0, 1, 2]).is_none());
    assert!(read_segment(&[2, 0, 0, 0, 0, 0, 0, 0]).is_none());
    assert!(read_segment(&[1, 0, 0, 0]).is_none());
    assert_eq!(FormatKind::Raw.frame_bytes(&[1, 2]).unwrap(), vec![1, 2]);
    assert_eq!(FormatKind::Raw.initial_bytes(b"x").unwrap(), Vec::<u8>::new());
}

#[test]
fn lock_and_archive_names() {
    let b = lock_path("root", FormatKind::Binary);
    let j = lock_path("root", FormatKind::Json);
    let r = lock_path("root", FormatKind::Raw);
    assert_eq!(b, lock_path("root", FormatKind::Binary));
    assert_ne!(b, j);
    assert_ne!(j, r);
    assert_ne!(b, r);
    assert!(b.starts_with("root/") && b.ends_with(".lock"));
    assert_eq!(b.len(), "root/".len() + 16 + ".lock".len());
    // FNV-1a of "Json"
    let mut h: u64 = 0xcbf2_9ce4_8422_2325;
    for c in b"Json" {
        h = (h ^ *c as u64).wrapping_mul(0x0100_0000_01b3);
    }
    assert_eq!(FormatKind::Json.type_hash(), h);
    assert_eq!(j, format!("root/{h:016x}.lock"));
    assert_eq!(archive_path("root/20150515"), "root/20150515.tar.gz");
}

#[test]
fn worker_stops_on_sentinel() {
    assert!(matches!(worker_action(ArchivalRequest::Stop), WorkerAction::Exit));
    match worker_action(ArchivalRequest::Archive("r/0000000001".to_string())) {
        WorkerAction::Compress { source, archive } => {
            assert_eq!(source, "r/0000000001");
            assert_eq!(archive, "r/0000000001.tar.gz");
        }
        WorkerAction::Exit => panic!("archive request read as a stop"),
    }
}

#[test]
fn day_rollover_resets_frame_counter() {
    let mut store =
        ExecCountDailySingleFrame::new("o", &vec![], FormatKind::Raw, false).unwrap();
    let s = store.store_custom_writer(1).unwrap();
    assert!(s.target.ends_with("0000000001.raw"));
    let s = store.store_custom_writer(2 * 86400).unwrap();
    assert!(s.target.ends_with("0000000002/0000000000.raw"));
}
