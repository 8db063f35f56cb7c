//! Volumes, snapshots, and the shadow copies of partitions.

use diskclone::snapshot_setup::{SetupEvent, SetupOp, WAIT_MILLIS};
use diskclone::vss::{
    get_volume_disk_extents, get_volume_disk_offset, get_volumes_on_disk, key_of_upper, listed_volume_name,
    normalize_volume_name_for_match, open_volume_for_extents, DiskVolume, ListedVolume,
    SnapshotProperties, VssSnapshot, EXTENTS_BUFFER_SIZE,
};

const GUID: &str = "{0a1b2c3d-0000-1111-2222-deadbeef0000}";

fn units(s: &str) -> Vec<u16> {
    s.encode_utf16().collect()
}

fn extents(count: u32, disk: u32, offset: u64) -> Option<[u8; 96]> {
    let mut b = [0u8; 96];
    b[0..4].copy_from_slice(&count.to_le_bytes());
    b[8..12].copy_from_slice(&disk.to_le_bytes());
    b[16..24].copy_from_slice(&offset.to_le_bytes());
    Some(b)
}

fn listed(name: &str, answer: Option<[u8; 96]>) -> ListedVolume {
    let mut buffer = vec![0u16; 52];
    for (i, u) in name.encode_utf16().enumerate() {
        buffer[i] = u;
    }
    ListedVolume { name: buffer, answer }
}

fn snapshot(original: &str, device: &str) -> Option<SnapshotProperties> {
    Some(SnapshotProperties {
        original_volume_name: units(original),
        snapshot_device_object: units(device),
    })
}

#[test]
fn names_are_compared_by_their_guid_part() {
    let key = format!("VOLUME{}", GUID.to_uppercase());
    assert_eq!(normalize_volume_name_for_match(&format!("\\\\?\\Volume{}\\", GUID)), key);
    assert_eq!(normalize_volume_name_for_match(&format!("\\\\.\\vOLUME{}\\", GUID)), key);
    assert_eq!(normalize_volume_name_for_match(&format!("//?/Volume{}//", GUID)), key);
    assert_eq!(normalize_volume_name_for_match(&format!("Volume{}", GUID)), key);
}

#[test]
fn names_without_guid_are_compared_whole() {
    assert_eq!(normalize_volume_name_for_match("\\/c:\\"), "C:");
    assert_eq!(normalize_volume_name_for_match(""), "");
    assert_eq!(normalize_volume_name_for_match("\\\\"), "");
    assert_eq!(normalize_volume_name_for_match("volume x"), "VOLUME X");
    assert_eq!(normalize_volume_name_for_match("a\\volume{1}volume{2}"), "VOLUME{1}VOLUME{2}");
}

#[test]
fn names_beyond_ascii_are_compared_in_upper_case() {
    assert_eq!(normalize_volume_name_for_match("stra\u{df}e"), "STRASSE");
    assert_eq!(normalize_volume_name_for_match("\u{e9}\\Volume{\u{e9}}"), "VOLUME{\u{c9}}");
    assert_eq!(normalize_volume_name_for_match("\u{149}\u{149}Volume{a}"), "VOLUME{A}");
}

#[test]
fn key_starts_at_the_first_guid() {
    assert_eq!(key_of_upper("?\\VOLUME{1}VOLUME{2}"), "VOLUME{1}VOLUME{2}");
    assert_eq!(key_of_upper("VOLUM{VOLUME"), "VOLUM{VOLUME");
    assert_eq!(key_of_upper("volume{1}"), "volume{1}");
    assert_eq!(key_of_upper(""), "");
}

#[test]
fn volume_is_opened_for_its_extents() {
    let path = |name: &str| {
        let r = open_volume_for_extents(name).unwrap();
        assert_eq!((r.read, r.write, r.create), (true, false, false));
        assert_eq!(r.path.last(), Some(&0));
        String::from_utf16(&r.path[..r.path.len() - 1]).unwrap()
    };
    assert_eq!(path("\\\\?\\Volume{x}\\"), "\\\\.\\Volume{x}");
    assert_eq!(path("\\\\.\\Volume{x}"), "\\\\.\\Volume{x}");
    assert_eq!(path("\\\\.\\\\\\Volume{x}\\\\"), "\\\\.\\Volume{x}");
    assert_eq!(path("\\Volume{x}\\"), "\\\\.\\Volume{x}");
    assert_eq!(path("C:"), "\\\\.\\C:");
    assert_eq!(path(""), "\\\\.\\");
    let e = open_volume_for_extents("a\0b").unwrap_err();
    assert_eq!(e.message(), "invalid nul value found at position 5");
}

#[test]
fn extents_are_read_from_the_answer() {
    assert_eq!(EXTENTS_BUFFER_SIZE, 96);
    let get = |answer| get_volume_disk_extents("C:", &answer).unwrap();
    assert_eq!(get(extents(1, 2, 1_048_576)), Some((2, 1_048_576)));
    assert_eq!(get(extents(3, u32::MAX, u64::MAX)), Some((u32::MAX, u64::MAX)));
    assert_eq!(get(extents(0, 2, 5)), None);
    assert_eq!(get(None), None);
    let e = get_volume_disk_extents("a\0b", &None).unwrap_err();
    assert_eq!(e.message(), "invalid nul value found at position 5");
}

#[test]
fn unknown_offset_is_zero() {
    assert_eq!(get_volume_disk_offset("C:", &extents(1, 2, 77)).unwrap(), Some(77));
    assert_eq!(get_volume_disk_offset("C:", &extents(0, 2, 77)).unwrap(), Some(0));
    assert_eq!(get_volume_disk_offset("C:", &None).unwrap(), Some(0));
    assert!(get_volume_disk_offset("a\0b", &None).is_err());
}

#[test]
fn listed_names_end_at_the_nul() {
    assert_eq!(listed_volume_name(&[65, 92, 66, 92, 92, 0, 67]), "A\\B");
    assert_eq!(listed_volume_name(&[65, 66]), "AB");
    assert_eq!(listed_volume_name(&[0, 65]), "");
    assert_eq!(listed_volume_name(&[]), "");
}

#[test]
fn halves_of_pairs_are_replaced() {
    let cases: Vec<Vec<u16>> = vec![
        vec![0xD83D, 0xDCBE, 65],
        vec![0xD83D, 65],
        vec![0xD83D],
        vec![0xDCBE, 65],
        vec![0xD83D, 0xD83D, 0xDCBE],
        vec![0xDCBE, 0xD83D, 66],
        vec![0xD83D, 0xDCBE, 0xDCBE],
        vec![0xD800, 0xDC00, 0xDBFF, 0xDFFF, 0xE000, 0xD7FF, 0xFFFF],
    ];
    for c in cases {
        assert_eq!(listed_volume_name(&c), String::from_utf16_lossy(&c));
    }
    assert_eq!(listed_volume_name(&[0xD83D, 65]), "\u{FFFD}A");
}

#[test]
fn volumes_of_the_disk_are_found() {
    let volumes = vec![
        listed("\\\\?\\Volume{a}\\", extents(1, 0, 100)),
        listed("\\\\?\\Volume{b}\\", extents(1, 1, 200)),
        listed("\\\\?\\Volume{c}\\", None),
        listed("\\\\?\\Volume{d}\\", extents(0, 0, 0)),
        listed("\\\\?\\Volume{e}\\", extents(2, 0, 300)),
    ];
    assert_eq!(
        get_volumes_on_disk(0, &volumes),
        vec!["\\\\?\\Volume{a}\\".to_string(), "\\\\?\\Volume{e}\\".to_string()]
    );
    assert_eq!(get_volumes_on_disk(1, &volumes), vec!["\\\\?\\Volume{b}\\".to_string()]);
    assert!(get_volumes_on_disk(2, &volumes).is_empty());
}

#[test]
fn shadow_path_is_that_of_the_first_match() {
    let s = VssSnapshot {
        snapshots: Some(vec![
            None,
            snapshot("\\\\.\\Volume{A}\\", "\\\\?\\GLOBALROOT\\Device\\Copy1\\"),
            snapshot("\\\\?\\volume{a}\\", "\\\\?\\GLOBALROOT\\Device\\Copy2"),
            snapshot("\\\\?\\Volume{b}\\", "\\\\?\\GLOBALROOT\\Device\\Copy3\\\\"),
        ]),
    };
    let path = |name: &str| s.get_shadow_path(name);
    assert_eq!(path("\\\\?\\Volume{a}\\"), Some("\\\\?\\GLOBALROOT\\Device\\Copy1".to_string()));
    assert_eq!(path("\\\\?\\Volume{b}\\"), Some("\\\\?\\GLOBALROOT\\Device\\Copy3".to_string()));
    assert_eq!(path("\\\\?\\Volume{c}\\"), None);
    assert_eq!(VssSnapshot { snapshots: None }.get_shadow_path("\\\\?\\Volume{a}\\"), None);
}

#[test]
fn shadow_map_goes_by_offset() {
    let s = VssSnapshot {
        snapshots: Some(vec![
            snapshot("\\\\?\\Volume{a}\\", "Copy1"),
            snapshot("\\\\?\\Volume{b}\\", "Copy2"),
        ]),
    };
    let volume = |name: &str, answer| DiskVolume { name: name.to_string(), answer };
    let map = s
        .build_partition_shadow_map(&[
            volume("\\\\?\\Volume{a}\\", extents(1, 0, 1000)),
            volume("\\\\?\\Volume{c}\\", extents(1, 0, 2000)),
            volume("\\\\?\\Volume{b}\\", None),
        ])
        .unwrap();
    assert_eq!(map.len(), 1);
    assert_eq!(map[&1000], "Copy1");
    let map = s
        .build_partition_shadow_map(&[
            volume("\\\\?\\Volume{a}\\", extents(1, 0, 1000)),
            volume("\\\\?\\Volume{b}\\", extents(1, 0, 1000)),
        ])
        .unwrap();
    assert_eq!(map.len(), 1);
    assert_eq!(map[&1000], "Copy2");
}

#[test]
fn volume_of_unknown_place_is_not_mapped() {
    let s = VssSnapshot { snapshots: Some(vec![snapshot("\\\\?\\Volume{a}\\", "Copy1")]) };
    let map = |answer| {
        let name = "\\\\?\\Volume{a}\\".to_string();
        s.build_partition_shadow_map(&[DiskVolume { name, answer }]).unwrap()
    };
    assert!(map(None).is_empty());
    assert!(map(extents(0, 3, 4096)).is_empty());
    assert_eq!(map(extents(1, 3, 4096))[&4096], "Copy1");
    assert_eq!(map(extents(1, 3, 0))[&0], "Copy1");
}

#[test]
fn shadow_map_fails_on_a_name_with_nul() {
    let s = VssSnapshot { snapshots: Some(vec![snapshot("a\0b", "Copy1")]) };
    let volumes = [
        DiskVolume { name: "x\0y".to_string(), answer: None },
        DiskVolume { name: "a\0b".to_string(), answer: None },
    ];
    let e = s.build_partition_shadow_map(&volumes).unwrap_err();
    assert_eq!(e.message(), "invalid nul value found at position 5");
    assert!(s.build_partition_shadow_map(&volumes[..1]).unwrap().is_empty());
}

#[test]
fn finish_passes_on_the_failure() {
    let open = || VssSnapshot { snapshots: Some(Vec::new()) };
    let closed = || VssSnapshot { snapshots: None };
    assert!(open().is_open() && !closed().is_open());
    assert!(open().finish(Ok(())).is_ok());
    assert!(closed().finish(Err("x".to_string())).is_ok());
    let e = open().finish(Err("0x80042301".to_string())).unwrap_err();
    assert_eq!(e.message(), "VSS error: backup_complete: 0x80042301");
}

/// The name of an operation, with its volume if it has one.
fn name_of(op: &SetupOp) -> String {
    let text = |v: &Vec<u16>| String::from_utf16(&v[..v.len() - 1]).unwrap();
    match op {
        SetupOp::InitializeCom => "com".to_string(),
        SetupOp::ListVolumes { disk_number } => format!("list {}", disk_number),
        SetupOp::NewComponents => "new".to_string(),
        SetupOp::InitializeForBackup => "init".to_string(),
        SetupOp::SetContext => "context".to_string(),
        SetupOp::SetBackupState => "state".to_string(),
        SetupOp::GatherWriterMetadata => "gather".to_string(),
        SetupOp::StartSnapshotSet => "start".to_string(),
        SetupOp::IsVolumeSupported { volume } => format!("ask {}", text(volume)),
        SetupOp::AddToSnapshotSet { volume } => format!("add {}", text(volume)),
        SetupOp::PrepareForBackup => "prepare".to_string(),
        SetupOp::DoSnapshotSet => "do".to_string(),
        SetupOp::Wait => "wait".to_string(),
        SetupOp::Finish => "finish".to_string(),
        SetupOp::Fail { error } => format!("fail {}", error.message()),
    }
}

/// The operations of a setup for the volumes, of which those that start with
/// `y` are supported. The operation at index `fails` fails.
fn setup(volumes: &[&str], fails: usize) -> Vec<String> {
    let mut s = VssSnapshot::create_for_disk(4);
    let mut ops = Vec::new();
    let mut event = SetupEvent::Done;
    loop {
        let op = s.step(event);
        ops.push(name_of(&op));
        if matches!(op, SetupOp::Finish | SetupOp::Fail { .. }) {
            return ops;
        }
        event = if ops.len() == fails + 1 {
            SetupEvent::Failed("cause".to_string())
        } else {
            match op {
                SetupOp::ListVolumes { .. } => {
                    SetupEvent::Volumes(volumes.iter().map(|v| v.to_string()).collect())
                }
                SetupOp::IsVolumeSupported { volume } => {
                    SetupEvent::Supported(volume[0] == 'y' as u16)
                }
                _ => SetupEvent::Done,
            }
        };
    }
}

#[test]
fn setup_adds_the_supported_volumes() {
    assert_eq!(WAIT_MILLIS, 5 * 60 * 1000);
    assert_eq!(
        setup(&["y1", "n2", "y3"], usize::MAX - 1),
        vec![
            "com", "list 4", "new", "init", "context", "state", "gather", "wait", "start",
            "ask y1", "add y1", "ask n2", "ask y3", "add y3", "prepare", "wait", "do", "wait",
            "finish",
        ]
    );
}

#[test]
fn setup_without_volumes_fails() {
    let ops = setup(&[], usize::MAX - 1);
    assert_eq!(
        ops,
        vec!["com", "list 4", "fail No volumes found on disk - cannot create shadow copy"]
    );
}

#[test]
fn setup_without_supported_volumes_fails() {
    let ops = setup(&["n1", "n2"], usize::MAX - 1);
    assert_eq!(ops[9..], ["ask n1", "ask n2", "fail No volumes could be added to snapshot set"]);
}

#[test]
fn setup_fails_on_a_volume_with_nul() {
    let ops = setup(&["y1", "a\0b"], usize::MAX - 1);
    assert_eq!(ops.last().unwrap(), "fail invalid nul value found at position 1");
}

#[test]
fn setup_names_the_step_that_failed() {
    let messages = [
        "VSS error: COM init: cause",
        "I/O error: cause",
        "VSS error: BackupComponents::new: cause",
        "VSS error: initialize_for_backup: cause",
        "VSS error: set_context: cause",
        "VSS error: set_backup_state: cause",
        "VSS error: gather_writer_metadata: cause",
        "VSS error: VSS async wait: cause",
        "VSS error: start_snapshot_set: cause",
        "VSS error: is_volume_supported: cause",
        "VSS error: add_to_snapshot_set: cause",
        "VSS error: prepare_for_backup: cause",
        "VSS error: VSS async wait: cause",
        "VSS error: do_snapshot_set: cause",
        "VSS error: VSS async wait: cause",
    ];
    for (i, m) in messages.iter().enumerate() {
        let ops = setup(&["y"], i);
        assert_eq!(ops.len(), i + 2);
        assert_eq!(ops.last().unwrap(), &format!("fail {}", m));
    }
}
