//! The device populator: defaults, merge precedence, node plans and
//! symlinks.

use runh::devices::{
    default_devices, dev_symlinks, device_id_matches, device_skipped, merge_devices, plan_device,
    ptmx_symlink, tun_device, DeviceError, DeviceOp, NODE_KIND_CHAR, NODE_KIND_FIFO,
};
use runh::oci::{DeviceType, LinuxDevice};

fn dev(path: &str, major: i64, minor: i64) -> LinuxDevice {
    LinuxDevice {
        path: path.to_string(),
        typ: DeviceType::C,
        major,
        minor,
        file_mode: Some(0o666),
        uid: Some(0),
        gid: Some(0),
    }
}

#[test]
fn default_set_has_the_standard_nodes() {
    let ds = default_devices();
    let find = |p: &str| ds.iter().find(|d| d.path == p).expect(p);
    assert_eq!((find("/dev/null").major, find("/dev/null").minor), (1, 3));
    assert_eq!((find("/dev/zero").major, find("/dev/zero").minor), (1, 5));
    assert_eq!((find("/dev/full").major, find("/dev/full").minor), (1, 7));
    assert_eq!((find("/dev/random").major, find("/dev/random").minor), (1, 8));
    assert_eq!((find("/dev/urandom").major, find("/dev/urandom").minor), (1, 9));
    assert_eq!((find("/dev/tty").major, find("/dev/tty").minor), (5, 0));
}

#[test]
fn declared_device_overrides_default_on_collision() {
    // A declared /dev/null with other device numbers must win over the
    // default 1/3 entry.
    let declared = vec![dev("/dev/null", 4, 42)];
    let merged = merge_devices(&Some(declared));
    let nulls: Vec<&LinuxDevice> = merged.iter().filter(|d| d.path == "/dev/null").collect();
    assert_eq!(nulls.len(), 1);
    assert_eq!((nulls[0].major, nulls[0].minor), (4, 42));
    // the other defaults are still there
    assert!(merged.iter().any(|d| d.path == "/dev/zero"));
}

#[test]
fn no_declared_devices_yields_the_defaults() {
    let merged = merge_devices(&None);
    assert_eq!(merged.len(), 6);
    assert!(merged.iter().any(|d| d.path == "/dev/null" && d.major == 1 && d.minor == 3));
    assert!(merged.iter().any(|d| d.path == "/dev/random" && d.major == 1 && d.minor == 8));
}

#[test]
fn merge_never_duplicates_a_path() {
    let declared = vec![dev("/dev/null", 4, 42), dev("/dev/null", 5, 5), dev("/dev/custom", 9, 9)];
    let merged = merge_devices(&Some(declared));
    let mut paths: Vec<String> = merged.iter().map(|d| d.path.clone()).collect();
    let before = paths.len();
    paths.sort();
    paths.dedup();
    assert_eq!(paths.len(), before);
    // the first declared entry per path wins
    let null = merged.iter().find(|d| d.path == "/dev/null").unwrap();
    assert_eq!((null.major, null.minor), (4, 42));
}

#[test]
fn ptmx_is_skipped_and_symlinked() {
    assert!(device_skipped(&dev("/dev/ptmx", 5, 2)));
    assert!(!device_skipped(&dev("/dev/ptmx2", 5, 2)));
    let link = ptmx_symlink("/r");
    assert_eq!(link.target, "pts/ptmx");
    assert_eq!(link.link, "/r/dev/ptmx");
}

#[test]
fn device_plan_creates_node_and_ownership() {
    let d = dev("/dev/null", 1, 3);
    let ops = plan_device(&d, "/r/dev/null", "/r").unwrap();
    assert_eq!(ops.len(), 3);
    match &ops[0] {
        DeviceOp::CreateDirAll { path } => assert_eq!(path, "/r/dev"),
        _ => panic!("expected parent directories first"),
    }
    match &ops[1] {
        DeviceOp::Mknod { path, kind, mode, major, minor } => {
            assert_eq!(path, "/r/dev/null");
            assert_eq!(*kind, NODE_KIND_CHAR);
            assert_eq!(*mode, 0o666);
            assert_eq!((*major, *minor), (1, 3));
        },
        _ => panic!("expected the node"),
    }
    match &ops[2] {
        DeviceOp::Chown { path, uid, gid } => {
            assert_eq!(path, "/r/dev/null");
            assert_eq!((*uid, *gid), (Some(0), Some(0)));
        },
        _ => panic!("expected ownership last"),
    }
}

#[test]
fn fifo_device_kind() {
    let mut d = dev("/dev/myfifo", 0, 0);
    d.typ = DeviceType::P;
    let ops = plan_device(&d, "/r/dev/myfifo", "/r").unwrap();
    match &ops[1] {
        DeviceOp::Mknod { kind, .. } => assert_eq!(*kind, NODE_KIND_FIFO),
        _ => panic!("expected the node"),
    }
}

#[test]
fn catch_all_device_type_is_refused() {
    let mut d = dev("/dev/x", 1, 1);
    d.typ = DeviceType::A;
    assert_eq!(plan_device(&d, "/r/dev/x", "/r").unwrap_err(), DeviceError::UnsupportedType);
}

#[test]
fn negative_device_numbers_are_refused() {
    let d = dev("/dev/x", -1, 3);
    assert_eq!(plan_device(&d, "/r/dev/x", "/r").unwrap_err(), DeviceError::InvalidId);
}

#[test]
fn escaping_device_destination_is_refused() {
    let d = dev("/dev/x", 1, 3);
    assert_eq!(
        plan_device(&d, "/elsewhere/x", "/r").unwrap_err(),
        DeviceError::DestinationEscapes
    );
}

#[test]
fn dev_symlinks_point_into_proc_self() {
    let links = dev_symlinks("/r");
    let pairs: Vec<(String, String)> =
        links.into_iter().map(|l| (l.target, l.link)).collect();
    assert_eq!(
        pairs,
        vec![
            ("/proc/self/fd".to_string(), "/r/dev/fd".to_string()),
            ("/proc/self/fd/0".to_string(), "/r/dev/stdin".to_string()),
            ("/proc/self/fd/1".to_string(), "/r/dev/stdout".to_string()),
            ("/proc/self/fd/2".to_string(), "/r/dev/stderr".to_string()),
        ]
    );
}

#[test]
fn existing_device_is_tolerated_only_on_exact_id_match() {
    assert!(device_id_matches(10, 200, 10, 200));
    assert!(!device_id_matches(10, 201, 10, 200));
    assert!(!device_id_matches(11, 200, 10, 200));
}

#[test]
fn tun_device_shape() {
    let t = tun_device(1000, 1000);
    assert_eq!(t.path, "/dev/net/tun");
    assert_eq!((t.major, t.minor), (10, 200));
    assert_eq!(t.file_mode, Some(0o755));
    assert_eq!((t.uid, t.gid), (Some(1000), Some(1000)));
}

#[test]
fn device_destination_needs_a_parent() {
    let d = dev("x", 1, 3);
    assert_eq!(plan_device(&d, "x", "x").unwrap_err(), DeviceError::NoParent);
}
