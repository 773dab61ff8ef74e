//! Formatting, paths, the init decisions and the VM command line.

use runh::create::{bundle_config_path, container_paths, default_pidfile_path, pid_string};
use runh::hermit::{get_qemu_args, NetworkConfig};
use runh::init::{hermit_kernel_path, network_decision, split_env_var, sysctl_path};
use runh::logging::{LogFormat, LogLevel};
use runh::network::{ipv4_string, mac_string, mask_octets, parse_dev_numbers, prefix_to_mask, VirtioNetworkConfig};
use runh::numfmt::{hex_byte_string, parse_u64_dec, u64_to_string};
use runh::oci::ContainerSpec;
use runh::container::OCIContainer;
use runh::flags::{LinuxNamespace, NamespaceType};
use runh::paths::{is_canonical_root, parent_path, split_on};
use runh::rootfs::rootfs_propagation_flags;
use runh::mounts::{MountError, MS_REC, MS_SHARED, MS_SLAVE};

fn empty_spec() -> ContainerSpec {
    ContainerSpec {
        process: None,
        root: None,
        mounts: None,
        hostname: None,
        linux: None,
        hooks: None,
        annotations: None,
    }
}

#[test]
fn decimal_rendering() {
    assert_eq!(u64_to_string(0), "0");
    assert_eq!(u64_to_string(7), "7");
    assert_eq!(u64_to_string(1337), "1337");
    assert_eq!(u64_to_string(u64::MAX), "18446744073709551615");
}

#[test]
fn decimal_parsing() {
    assert_eq!(parse_u64_dec("0"), Some(0));
    assert_eq!(parse_u64_dec("1337"), Some(1337));
    assert_eq!(parse_u64_dec("18446744073709551615"), Some(u64::MAX));
    assert_eq!(parse_u64_dec("18446744073709551616"), None);
    assert_eq!(parse_u64_dec(""), None);
    assert_eq!(parse_u64_dec("12a"), None);
    assert_eq!(parse_u64_dec("-3"), None);
}

#[test]
fn hex_rendering() {
    assert_eq!(hex_byte_string(0x00), "00");
    assert_eq!(hex_byte_string(0x0f), "0f");
    assert_eq!(hex_byte_string(0xde), "de");
}

#[test]
fn address_rendering() {
    assert_eq!(ipv4_string(&[192, 168, 0, 1]), "192.168.0.1");
    assert_eq!(mac_string(&vec![0xde, 0xad, 0xbe, 0xef, 0x00, 0x42]), "de:ad:be:ef:00:42");
}

#[test]
fn mask_computation() {
    let m = prefix_to_mask(8);
    assert_eq!(m, 0xffffff00);
    assert_eq!(mask_octets(m), [255, 255, 255, 0]);
}

#[test]
fn dev_entry_parsing() {
    assert_eq!(parse_dev_numbers("10:200\n"), Some((10, 200)));
    assert_eq!(parse_dev_numbers(" 1 : 3 "), Some((1, 3)));
    assert_eq!(parse_dev_numbers("10"), None);
    assert_eq!(parse_dev_numbers("a:b"), None);
}

#[test]
fn env_entries_split_at_the_first_equals() {
    assert_eq!(
        split_env_var("PATH=/usr/bin:/bin"),
        Some(("PATH".to_string(), "/usr/bin:/bin".to_string()))
    );
    assert_eq!(split_env_var("A=b=c"), Some(("A".to_string(), "b=c".to_string())));
    assert_eq!(split_env_var("=value"), Some(("".to_string(), "value".to_string())));
    assert_eq!(split_env_var("novalue"), None);
}

#[test]
fn sysctl_keys_become_proc_paths() {
    assert_eq!(sysctl_path("net.ipv4.ip_forward"), "/proc/sys/net/ipv4/ip_forward");
    assert_eq!(sysctl_path("kernel"), "/proc/sys/kernel");
}

#[test]
fn parent_paths() {
    assert_eq!(parent_path("/a/b"), Some("/a".to_string()));
    assert_eq!(parent_path("/a"), Some("/".to_string()));
    assert_eq!(parent_path("/"), None);
    assert_eq!(parent_path("name"), None);
}

#[test]
fn splitting() {
    let parts = split_on("a:b::c", ':');
    assert_eq!(parts, vec!["a", "b", "", "c"]);
    let one = split_on("abc", ':');
    assert_eq!(one, vec!["abc"]);
}

#[test]
fn loader_kernel_lives_beside_the_app() {
    assert_eq!(hermit_kernel_path("/apps/hello"), Some("/apps/rusty-loader".to_string()));
    assert_eq!(hermit_kernel_path("hello"), None);
}

#[test]
fn rootfs_propagation_modes() {
    assert_eq!(rootfs_propagation_flags(&None), Ok(MS_SLAVE | MS_REC));
    assert_eq!(rootfs_propagation_flags(&Some("shared".to_string())), Ok(MS_SHARED | MS_REC));
    assert_eq!(
        rootfs_propagation_flags(&Some("upside-down".to_string())),
        Err(MountError::UnknownPropagation)
    );
}

#[test]
fn network_decision_scans_the_namespace_list() {
    let fresh = vec![LinuxNamespace { typ: NamespaceType::Network, path: None }];
    let d = network_decision(&fresh);
    assert!(d.setup_loopback);
    assert!(d.external_namespace.is_none());

    let external = vec![LinuxNamespace {
        typ: NamespaceType::Network,
        path: Some("/proc/9/ns/net".to_string()),
    }];
    let d2 = network_decision(&external);
    assert!(!d2.setup_loopback);
    assert_eq!(d2.external_namespace, Some("/proc/9/ns/net".to_string()));

    let none: Vec<LinuxNamespace> = Vec::new();
    let d3 = network_decision(&none);
    assert!(!d3.setup_loopback);
}

#[test]
fn container_directory_layout() {
    let p = container_paths("/run/runh/box1");
    assert_eq!(p.container_json, "/run/runh/box1/container.json");
    assert_eq!(p.bundle_link, "/run/runh/box1/bundle");
    assert_eq!(p.exec_fifo, "/run/runh/box1/exec.fifo");
    assert_eq!(p.created_marker, "/run/runh/box1/created");
    assert_eq!(bundle_config_path("/bundles/b"), "/bundles/b/config.json");
    assert_eq!(default_pidfile_path("/run/runh/box1"), "/run/runh/box1/containerpid");
}

#[test]
fn pid_rendering() {
    assert_eq!(pid_string(0), "0");
    assert_eq!(pid_string(4321), "4321");
    assert_eq!(pid_string(-7), "-7");
}

#[test]
fn containers_compare_by_id() {
    let a = OCIContainer::new("/b1".to_string(), "one".to_string(), "/p1".to_string(), empty_spec());
    let b = OCIContainer::new("/b2".to_string(), "one".to_string(), "/p2".to_string(), empty_spec());
    let c = OCIContainer::new("/b1".to_string(), "two".to_string(), "/p1".to_string(), empty_spec());
    assert!(a == b);
    assert!(!(a == c));
    assert_eq!(a.id(), "one");
    assert_eq!(b.bundle(), "/b2");
}

#[test]
fn log_level_names() {
    assert_eq!(LogLevel::Info.as_str(), "info");
    assert_eq!(LogLevel::Off.as_str(), "off");
    assert_eq!(LogLevel::default(), LogLevel::Info);
    assert_eq!(LogFormat::default(), LogFormat::Text);
}

#[test]
fn qemu_args_without_network() {
    let args = get_qemu_args(
        "/apps/rusty-loader",
        "/apps/hello",
        &NetworkConfig::NoNetwork,
        &vec!["/apps/hello".to_string()],
        false,
        false,
        None,
        None,
    );
    assert_eq!(args[0], "qemu-system-x86_64");
    assert_eq!(&args[1..3], &["-display".to_string(), "none".to_string()]);
    let kernel_at = args.iter().position(|a| a == "-kernel").unwrap();
    assert_eq!(args[kernel_at + 1], "/apps/rusty-loader");
    let initrd_at = args.iter().position(|a| a == "-initrd").unwrap();
    assert_eq!(args[initrd_at + 1], "/apps/hello");
    // no KVM configured: the emulated CPU is chosen
    assert!(args.iter().any(|a| a.starts_with("qemu64,")));
    assert!(!args.iter().any(|a| a == "--enable-kvm"));
    // the append value is last; with one app arg it is just the separator
    assert_eq!(args.last().unwrap(), " -- ");
    assert_eq!(args[args.len() - 2], "-append");
}

#[test]
fn qemu_args_with_tap_network() {
    let nc = VirtioNetworkConfig {
        ip: [10, 0, 0, 2],
        gateway: [10, 0, 0, 1],
        mask: [255, 255, 255, 0],
        mac: "de:ad:be:ef:00:42".to_string(),
        macvtap_index: 3,
    };
    let args = get_qemu_args(
        "/apps/rusty-loader",
        "/apps/hello",
        &NetworkConfig::TapNetwork(nc),
        &vec!["/apps/hello".to_string(), "--port".to_string(), "80".to_string()],
        true,
        true,
        Some(9),
        Some(true),
    );
    assert!(args.iter().any(|a| a == "--enable-kvm"));
    assert!(args.iter().any(|a| a == "tap,id=net0,fd=9"));
    assert!(args.iter().any(|a| a == "virtio-net-device,netdev=net0,mac=de:ad:be:ef:00:42"));
    assert_eq!(
        args.last().unwrap(),
        "-ip 10.0.0.2 -gateway 10.0.0.1 -mask 255.255.255.0 -- --port 80"
    );
}

#[test]
fn qemu_args_with_user_network() {
    let args = get_qemu_args(
        "/k",
        "/a",
        &NetworkConfig::UserNetwork(8080),
        &Vec::new(),
        false,
        false,
        None,
        None,
    );
    assert!(args
        .iter()
        .any(|a| a == "user,id=u1,hostfwd=tcp::8080-:8080,net=192.168.76.0/24,dhcpstart=192.168.76.9"));
    // no app args at all: the append value is empty
    assert_eq!(args.last().unwrap(), "");
}

#[test]
fn canonical_root_check() {
    assert!(is_canonical_root("/"));
    assert!(is_canonical_root("/run/user/1000/runh"));
    assert!(!is_canonical_root(""));
    assert!(!is_canonical_root("relative/path"));
    assert!(!is_canonical_root("/trailing/"));
    assert!(!is_canonical_root("/a//b"));
    assert!(!is_canonical_root("/a/../b"));
    assert!(!is_canonical_root("/a/./b"));
}

#[test]
fn splitting_then_joining_returns_the_original() {
    for s in ["", "a", "a:b", "::", "x:!@:z:"] {
        let parts = split_on(s, ':');
        assert_eq!(runh::paths::join_with_sep(":", &parts), s);
    }
}

#[test]
fn search_candidates_in_path_order() {
    let cands = runh::init::path_search_candidates("prog", "/usr/bin:/bin:/sbin");
    assert_eq!(cands, vec!["/usr/bin/prog", "/bin/prog", "/sbin/prog"]);
}

#[test]
fn first_existing_candidate_wins() {
    let cands: Vec<String> = ["a", "b", "c"].iter().map(|s| s.to_string()).collect();
    assert_eq!(
        runh::init::find_first_existing_with(&cands, &vec![false, true, true]),
        Some("b".to_string())
    );
    assert_eq!(
        runh::init::find_first_existing_with(&cands, &vec![false, false, false]),
        None
    );
}
