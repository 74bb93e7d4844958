use media_studio::model::WatchFolder;
use media_studio::watch::{scan_step, FileStamp, ScanStep, WatchMemory};

fn folder(enabled: bool, settle_seconds: u64) -> WatchFolder {
    WatchFolder {
        id: "camera".to_string(),
        source: "/in".to_string(),
        destination: "/out".to_string(),
        profile: "video-h264".to_string(),
        recursive: false,
        enabled,
        settle_seconds,
    }
}

fn stamp(secs: u64) -> FileStamp {
    FileStamp { before_epoch: false, secs, nanos: 0 }
}

#[test]
fn scan_skips_links_and_descends_only_when_recursive() {
    assert_eq!(scan_step(true, false, true, true, true), ScanStep::Skip);
    assert_eq!(scan_step(true, true, false, true, false), ScanStep::Skip);
    assert_eq!(scan_step(false, true, false, true, false), ScanStep::Descend);
    assert_eq!(scan_step(false, true, false, false, false), ScanStep::Skip);
    assert_eq!(scan_step(false, false, true, false, true), ScanStep::Take);
    assert_eq!(scan_step(false, false, true, true, false), ScanStep::Skip);
}

#[test]
fn a_file_is_handed_on_once_per_modification_time() {
    let f = folder(true, 10);
    let mut memory = WatchMemory::new();
    let path = b"/in/a.mov".to_vec();
    assert!(memory.decide(&f, false, 30, &path, stamp(100)));
    memory.record(path.clone(), stamp(100));
    assert_eq!(memory.stamp_of(&path), Some(stamp(100)));
    assert!(!memory.decide(&f, false, 30, &path, stamp(100)));
    assert!(memory.decide(&f, false, 30, &path, stamp(101)));
    assert!(memory.decide(&f, false, 30, &path, FileStamp { before_epoch: false, secs: 100, nanos: 1 }));
    assert!(memory.decide(&f, false, 30, &path, FileStamp { before_epoch: true, secs: 100, nanos: 0 }));
    memory.record(path.clone(), stamp(101));
    assert_eq!(memory.stamp_of(&path), Some(stamp(101)));
    assert!(!memory.decide(&f, false, 30, &path, stamp(101)));
    // The memory keeps the last time only: the earlier time counts as a change.
    assert!(memory.decide(&f, false, 30, &path, stamp(100)));
    let other = b"/in/b.mov".to_vec();
    assert_eq!(memory.stamp_of(&other), None);
    assert!(memory.decide(&f, false, 30, &other, stamp(101)));
}

#[test]
fn watch_waits_for_settle_and_skips_destination_and_disabled() {
    let mut memory = WatchMemory::new();
    let path = b"/in/a.mov".to_vec();
    assert!(!memory.decide(&folder(true, 10), false, 9, &path, stamp(1)));
    assert!(memory.decide(&folder(true, 10), false, 10, &path, stamp(1)));
    assert!(!memory.decide(&folder(true, 10), true, 30, &path, stamp(1)));
    assert!(!memory.decide(&folder(false, 10), false, 30, &path, stamp(1)));
    memory.record(path.clone(), stamp(1));
    assert!(!memory.decide(&folder(true, 0), false, 0, &path, stamp(1)));
}

#[test]
fn memory_keys_are_exact_bytes() {
    let mut memory = WatchMemory::new();
    memory.record(vec![0x2f, 0x61, 0xff], stamp(5));
    memory.record(vec![0x2f, 0x61, 0xfe], stamp(6));
    assert_eq!(memory.stamp_of(&[0x2f, 0x61, 0xff]), Some(stamp(5)));
    assert_eq!(memory.stamp_of(&[0x2f, 0x61, 0xfe]), Some(stamp(6)));
    assert_eq!(memory.stamp_of(&[0x2f, 0x61]), None);
    memory.record(vec![0x2f, 0x61, 0xff], stamp(7));
    assert_eq!(memory.stamp_of(&[0x2f, 0x61, 0xff]), Some(stamp(7)));
    assert_eq!(memory.stamp_of(&[0x2f, 0x61, 0xfe]), Some(stamp(6)));
}
