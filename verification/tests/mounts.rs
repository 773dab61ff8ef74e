//! Mount option parsing and mount planning.

use runh::mounts::{
    is_bind_options, parse_mount_options, plan_mount, procfd_check, MountError, MountFacts,
    MountOp, MS_BIND, MS_NODEV, MS_NOEXEC, MS_NOSUID, MS_RDONLY, MS_REC, MS_REMOUNT, MS_SHARED,
    MS_SLAVE,
};
use runh::oci::Mount;

fn opts(parts: &[&str]) -> Vec<String> {
    parts.iter().map(|s| s.to_string()).collect()
}

fn mount(dest: &str, typ: &str, src: &str, options: &[&str]) -> Mount {
    Mount {
        destination: dest.to_string(),
        typ: Some(typ.to_string()),
        source: Some(src.to_string()),
        options: Some(opts(options)),
    }
}

const FACTS_DIR_SRC: MountFacts = MountFacts {
    source_exists: true,
    source_is_dir: true,
    dest_exists: false,
    dest_is_dir: false,
};

#[test]
fn option_table_sets_expected_bits() {
    let mo = parse_mount_options(&opts(&["rbind", "ro"])).unwrap();
    assert_eq!(mo.mount_flags, MS_BIND | MS_REC | MS_RDONLY);
    assert_eq!(mo.propagation_flags, 0);
    assert_eq!(mo.data.unwrap(), "");
}

#[test]
fn option_table_clears_bits() {
    let mo = parse_mount_options(&opts(&["noexec", "nodev", "nosuid", "exec"])).unwrap();
    assert_eq!(mo.mount_flags, MS_NODEV | MS_NOSUID);
}

#[test]
fn propagation_options_are_separate() {
    let mo = parse_mount_options(&opts(&["rslave"])).unwrap();
    assert_eq!(mo.mount_flags, 0);
    assert_eq!(mo.propagation_flags, MS_SLAVE | MS_REC);
    let mo2 = parse_mount_options(&opts(&["shared"])).unwrap();
    assert_eq!(mo2.propagation_flags, MS_SHARED);
}

#[test]
fn unknown_options_become_data() {
    let mo = parse_mount_options(&opts(&["ro", "size=64m", "mode=755"])).unwrap();
    assert_eq!(mo.mount_flags, MS_RDONLY);
    assert_eq!(mo.data.unwrap(), "size=64m,mode=755");
}

#[test]
fn lazytime_is_refused() {
    assert_eq!(
        parse_mount_options(&opts(&["ro", "lazytime"])).unwrap_err(),
        MountError::UnsupportedOption
    );
    assert_eq!(
        parse_mount_options(&opts(&["tmpcopyup"])).unwrap_err(),
        MountError::UnsupportedOption
    );
}

#[test]
fn bind_detection() {
    assert!(is_bind_options(&opts(&["rbind", "ro"])));
    assert!(is_bind_options(&opts(&["bind"])));
    assert!(!is_bind_options(&opts(&["ro"])));
}

#[test]
fn bind_mount_plan_binds_then_remounts_read_only() {
    // A read-only recursive bind: bound first, the extra flags applied
    // in a second remount pass.
    let m = mount("/data", "none", "/bundle/data", &["rbind", "ro"]);
    let plan = plan_mount(&m, "/bundle/data", "/r/data", "/r", FACTS_DIR_SRC).unwrap();
    assert!(!plan.mounts_dev);
    assert!(!plan.cgroup_skipped);
    assert_eq!(plan.ops.len(), 3);
    match &plan.ops[0] {
        MountOp::CreateDirAll { path } => assert_eq!(path, "/r/data"),
        _ => panic!("expected directory creation first"),
    }
    match &plan.ops[1] {
        MountOp::Mount { source, fstype, dest, flags, .. } => {
            assert_eq!(source, "/bundle/data");
            assert_eq!(fstype, "bind");
            assert_eq!(dest, "/r/data");
            assert_eq!(*flags, MS_BIND | MS_REC | MS_RDONLY);
        },
        _ => panic!("expected the bind mount second"),
    }
    match &plan.ops[2] {
        MountOp::Remount { dest, flags, .. } => {
            assert_eq!(dest, "/r/data");
            assert_eq!(*flags, MS_BIND | MS_REC | MS_RDONLY | MS_REMOUNT);
        },
        _ => panic!("expected the read-only remount pass third"),
    }
}

#[test]
fn bind_mount_missing_source_is_fatal() {
    let m = mount("/data", "none", "/bundle/data", &["bind"]);
    let facts = MountFacts { source_exists: false, ..FACTS_DIR_SRC };
    assert_eq!(
        plan_mount(&m, "/bundle/data", "/r/data", "/r", facts).unwrap_err(),
        MountError::SourceMissing
    );
}

#[test]
fn bind_mount_into_proc_is_fatal() {
    let m = mount("/proc/x", "none", "/bundle/data", &["bind"]);
    assert_eq!(
        plan_mount(&m, "/bundle/data", "/r/proc/x", "/r", FACTS_DIR_SRC).unwrap_err(),
        MountError::DestinationInProc
    );
}

#[test]
fn escaping_destination_is_fatal() {
    let m = mount("/data", "none", "/bundle/data", &["bind"]);
    assert_eq!(
        plan_mount(&m, "/bundle/data", "/elsewhere/data", "/r", FACTS_DIR_SRC).unwrap_err(),
        MountError::DestinationEscapes
    );
}

#[test]
fn bind_mount_of_dev_disables_device_population() {
    let m = mount("/dev", "none", "/bundle/dev", &["rbind"]);
    let plan = plan_mount(&m, "/bundle/dev", "/r/dev", "/r", FACTS_DIR_SRC).unwrap();
    assert!(plan.mounts_dev);
}

#[test]
fn replanning_with_existing_directory_is_identical() {
    // Configuring the same bind mount twice: the second planning sees
    // the destination directory already there and must not fail.
    let m = mount("/data", "none", "/bundle/data", &["rbind", "ro"]);
    let first = plan_mount(&m, "/bundle/data", "/r/data", "/r", FACTS_DIR_SRC).unwrap();
    let again = MountFacts { dest_exists: true, dest_is_dir: true, ..FACTS_DIR_SRC };
    let second = plan_mount(&m, "/bundle/data", "/r/data", "/r", again).unwrap();
    assert_eq!(first.ops.len(), second.ops.len());
    assert_eq!(first.mounts_dev, second.mounts_dev);
}

#[test]
fn tmpfs_read_only_is_mounted_writable_then_remounted() {
    let m = mount("/tmp", "tmpfs", "tmpfs", &["ro"]);
    let facts = MountFacts {
        source_exists: true,
        source_is_dir: true,
        dest_exists: false,
        dest_is_dir: false,
    };
    let plan = plan_mount(&m, "tmpfs", "/r/tmp", "/r", facts).unwrap();
    assert_eq!(plan.ops.len(), 3);
    match &plan.ops[1] {
        MountOp::Mount { flags, fstype, .. } => {
            assert_eq!(fstype, "tmpfs");
            // created writable first
            assert_eq!(*flags & MS_RDONLY, 0);
        },
        _ => panic!("expected the tmpfs mount"),
    }
    match &plan.ops[2] {
        MountOp::Remount { flags, .. } => {
            // remounted read-only afterwards
            assert_eq!(*flags & MS_RDONLY, MS_RDONLY);
            assert_eq!(*flags & MS_REMOUNT, MS_REMOUNT);
        },
        _ => panic!("expected the read-only remount"),
    }
}

#[test]
fn tmpfs_over_existing_directory_restores_permissions() {
    let m = mount("/tmp", "tmpfs", "tmpfs", &[]);
    let facts = MountFacts {
        source_exists: true,
        source_is_dir: true,
        dest_exists: true,
        dest_is_dir: true,
    };
    let plan = plan_mount(&m, "tmpfs", "/r/tmp", "/r", facts).unwrap();
    assert_eq!(plan.ops.len(), 2);
    match &plan.ops[1] {
        MountOp::RestorePermissions { dest } => assert_eq!(dest, "/r/tmp"),
        _ => panic!("expected the permission restore"),
    }
}

#[test]
fn sysfs_needs_a_directory() {
    let m = mount("/sys", "sysfs", "sysfs", &[]);
    let facts = MountFacts {
        source_exists: true,
        source_is_dir: false,
        dest_exists: true,
        dest_is_dir: false,
    };
    assert_eq!(
        plan_mount(&m, "sysfs", "/r/sys", "/r", facts).unwrap_err(),
        MountError::NotADirectory
    );
}

#[test]
fn cgroup_mount_is_skipped_not_silent() {
    let m = mount("/sys/fs/cgroup", "cgroup", "cgroup", &[]);
    let plan = plan_mount(&m, "cgroup", "/r/sys/fs/cgroup", "/r", FACTS_DIR_SRC).unwrap();
    assert!(plan.cgroup_skipped);
    assert!(plan.ops.is_empty());
}

#[test]
fn missing_type_is_fatal() {
    let m = Mount {
        destination: "/data".to_string(),
        typ: None,
        source: Some("/s".to_string()),
        options: None,
    };
    assert_eq!(
        plan_mount(&m, "/s", "/r/data", "/r", FACTS_DIR_SRC).unwrap_err(),
        MountError::MissingType
    );
}

#[test]
fn procfd_check_accepts_only_the_expected_destination() {
    assert!(procfd_check("/r/data", "/r/data").is_ok());
    assert_eq!(
        procfd_check("/r/swapped", "/r/data").unwrap_err(),
        MountError::DestinationMoved
    );
}

#[test]
fn file_destination_needs_a_parent() {
    // a file bind mount whose resolved destination has no parent
    let m = mount("x", "none", "/bundle/f", &["bind"]);
    let facts = MountFacts {
        source_exists: true,
        source_is_dir: false,
        dest_exists: false,
        dest_is_dir: false,
    };
    assert_eq!(
        plan_mount(&m, "/bundle/f", "x", "x", facts).unwrap_err(),
        MountError::NoParent
    );
}

#[test]
fn live_planning_rejects_a_missing_source_field() {
    let m = Mount {
        destination: "/data".to_string(),
        typ: Some("none".to_string()),
        source: None,
        options: Some(opts(&["bind"])),
    };
    assert_eq!(
        runh::mounts::plan_one_mount(&m, "/runh_test_root_that_does_not_exist", "/b").unwrap_err(),
        MountError::MissingSource
    );
}

#[test]
fn live_planning_of_a_directory_bind_mount() {
    // the root does not exist, so destination resolution is lexical;
    // the source is the filesystem root, which exists and is a directory
    let root = "/runh_test_root_that_does_not_exist";
    let m = mount("/data", "none", "/", &["rbind"]);
    let plan = runh::mounts::plan_one_mount(&m, root, "/b").unwrap();
    assert_eq!(plan.ops.len(), 2);
    match &plan.ops[0] {
        MountOp::CreateDirAll { path } => assert_eq!(path, &format!("{}/data", root)),
        _ => panic!("expected directory creation first"),
    }
    match &plan.ops[1] {
        MountOp::Mount { dest, flags, .. } => {
            assert_eq!(dest, &format!("{}/data", root));
            assert_eq!(*flags, MS_BIND | MS_REC);
        }
        _ => panic!("expected the bind mount"),
    }
}
