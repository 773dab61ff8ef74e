//! The chroot-safe resolver: containment, symlink re-rooting, and the
//! expansion bound.

use runh::rootfs::{resolve_components_with, resolve_in_rootfs, ProbeAns, ResolveError};

fn comps(parts: &[&str]) -> Vec<String> {
    parts.iter().map(|s| s.to_string()).collect()
}

fn rel_symlink(parts: &[&str]) -> ProbeAns {
    ProbeAns::Symlink {
        absolute: false,
        comps: comps(parts),
    }
}

fn abs_symlink(parts: &[&str]) -> ProbeAns {
    ProbeAns::Symlink {
        absolute: true,
        comps: comps(parts),
    }
}

#[test]
fn plain_path_lands_under_root() {
    let r = resolve_components_with(comps(&["a", "b"]), "/r", Vec::new());
    assert_eq!(r.unwrap(), "/r/a/b");
}

#[test]
fn root_slash_gets_no_double_slash() {
    let r = resolve_components_with(comps(&["a"]), "/", Vec::new());
    assert_eq!(r.unwrap(), "/a");
}

#[test]
fn empty_destination_is_the_root() {
    let r = resolve_components_with(Vec::new(), "/r", Vec::new());
    assert_eq!(r.unwrap(), "/r");
}

#[test]
fn dotdot_cannot_escape() {
    let r = resolve_components_with(comps(&["..", "..", "etc"]), "/r", Vec::new());
    assert_eq!(r.unwrap(), "/r/etc");
}

#[test]
fn dots_are_dropped() {
    let r = resolve_components_with(comps(&[".", "a", ".", "b"]), "/r", Vec::new());
    assert_eq!(r.unwrap(), "/r/a/b");
}

#[test]
fn absolute_symlink_is_rerooted() {
    // "a" is a symlink to "/etc"; the walk must land on /r/etc/b, not /etc/b.
    let answers = vec![abs_symlink(&["etc"])];
    let r = resolve_components_with(comps(&["a", "b"]), "/r", answers);
    assert_eq!(r.unwrap(), "/r/etc/b");
}

#[test]
fn relative_symlink_is_followed_in_place() {
    // "a" -> "x/y": the remainder is walked below the link's directory.
    let answers = vec![rel_symlink(&["x", "y"])];
    let r = resolve_components_with(comps(&["a", "b"]), "/r", answers);
    assert_eq!(r.unwrap(), "/r/x/y/b");
}

#[test]
fn upward_symlink_cannot_escape() {
    // "a" -> "../../x": the .. levels die at the root.
    let answers = vec![rel_symlink(&["..", "..", "x"])];
    let r = resolve_components_with(comps(&["a"]), "/r", answers);
    assert_eq!(r.unwrap(), "/r/x");
}

#[test]
fn alternating_symlink_directions_stay_contained() {
    let answers = vec![
        abs_symlink(&["one"]),
        rel_symlink(&["..", "two"]),
        abs_symlink(&["three"]),
    ];
    let r = resolve_components_with(comps(&["start", "tail"]), "/r", answers);
    let p = r.unwrap();
    assert!(p.starts_with("/r/"), "escaped the root: {}", p);
    assert_eq!(p, "/r/three/tail");
}

#[test]
fn expansion_bound_allows_255_links() {
    let mut answers = Vec::new();
    for _ in 0..255 {
        answers.push(rel_symlink(&["x"]));
    }
    let r = resolve_components_with(comps(&["a"]), "/r", answers);
    assert_eq!(r.unwrap(), "/r/x");
}

#[test]
fn expansion_bound_rejects_256_links() {
    let mut answers = Vec::new();
    for _ in 0..256 {
        answers.push(rel_symlink(&["x"]));
    }
    let r = resolve_components_with(comps(&["a"]), "/r", answers);
    assert_eq!(r.unwrap_err(), ResolveError::TooManySymlinks);
}

#[test]
fn live_resolution_under_a_missing_root_is_lexical() {
    // Nothing exists below this root, so every probe answers "missing"
    // and resolution is purely lexical.
    let root = "/runh_test_root_that_does_not_exist";
    let r = resolve_in_rootfs("../abc/./def", root).unwrap();
    assert_eq!(r, format!("{}/abc/def", root));
    let r2 = resolve_in_rootfs("/x//y/", root).unwrap();
    assert_eq!(r2, format!("{}/x/y", root));
}

#[test]
fn live_resolution_keeps_adversarial_destinations_inside() {
    let root = "/runh_test_root_that_does_not_exist";
    for dest in ["/..", "../../../../etc/passwd", "a/../../b", "....//.."] {
        let p = resolve_in_rootfs(dest, root).unwrap();
        assert!(
            p == root || p.starts_with(&format!("{}/", root)),
            "{} resolved to {} which escapes {}",
            dest,
            p,
            root
        );
    }
}
