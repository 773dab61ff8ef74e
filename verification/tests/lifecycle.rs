//! Namespace flags, container status and the lifecycle decisions.

use runh::flags::{
    child_unshares_cgroup, generate_cloneflags, get_cloneflag, namespaces_to_join,
    parent_unshare_flags, use_pivot_root, LinuxNamespace, NamespaceType, CLONE_NEWCGROUP,
    CLONE_NEWNET, CLONE_NEWNS, CLONE_NEWPID, CLONE_NEWUTS,
};
use runh::state::{
    container_status, plan_delete, plan_kill, normalize_signal_name, ContainerStatus, DeleteError,
    KillDecision, ProcessKind,
};

fn ns(typ: NamespaceType, path: Option<&str>) -> LinuxNamespace {
    LinuxNamespace { typ, path: path.map(|s| s.to_string()) }
}

#[test]
fn cloneflag_table() {
    assert_eq!(get_cloneflag(NamespaceType::Pid), CLONE_NEWPID);
    assert_eq!(get_cloneflag(NamespaceType::Mount), CLONE_NEWNS);
    assert_eq!(get_cloneflag(NamespaceType::Network), CLONE_NEWNET);
    assert_eq!(get_cloneflag(NamespaceType::Cgroup), CLONE_NEWCGROUP);
    assert_eq!(get_cloneflag(NamespaceType::Time), 0x80);
}

#[test]
fn namespace_with_external_path_is_joined_not_created() {
    // The network namespace names an existing path: it must be absent
    // from the clone-flag set and present among the join targets.
    let nss = vec![
        ns(NamespaceType::Pid, None),
        ns(NamespaceType::Network, Some("/proc/1234/ns/net")),
        ns(NamespaceType::Uts, None),
    ];
    let flags = generate_cloneflags(&nss);
    assert_eq!(flags, CLONE_NEWPID | CLONE_NEWUTS);
    assert_eq!(flags & CLONE_NEWNET, 0);
    let joins = namespaces_to_join(&nss);
    assert_eq!(joins.len(), 1);
    assert_eq!(joins[0].flag, CLONE_NEWNET);
    assert_eq!(joins[0].path, "/proc/1234/ns/net");
}

#[test]
fn cgroup_unshare_is_deferred_to_the_second_stage() {
    let flags = CLONE_NEWPID | CLONE_NEWCGROUP | CLONE_NEWNS;
    assert_eq!(parent_unshare_flags(flags), CLONE_NEWPID | CLONE_NEWNS);
    assert!(child_unshares_cgroup(flags));
    assert!(!child_unshares_cgroup(CLONE_NEWPID));
}

#[test]
fn pivot_only_with_a_fresh_mount_namespace() {
    assert!(use_pivot_root(CLONE_NEWNS | CLONE_NEWPID));
    assert!(!use_pivot_root(CLONE_NEWPID));
}

#[test]
fn status_from_process_and_gate() {
    assert_eq!(container_status(None, None, false), ContainerStatus::Creating);
    assert_eq!(container_status(Some(7), None, false), ContainerStatus::Stopped);
    assert_eq!(
        container_status(Some(7), Some(ProcessKind::Zombie), true),
        ContainerStatus::Stopped
    );
    assert_eq!(
        container_status(Some(7), Some(ProcessKind::Other), true),
        ContainerStatus::Created
    );
    assert_eq!(
        container_status(Some(7), Some(ProcessKind::Other), false),
        ContainerStatus::Running
    );
}

#[test]
fn delete_running_without_force_fails() {
    assert_eq!(
        plan_delete(ContainerStatus::Running, false).unwrap_err(),
        DeleteError::StillRunning
    );
}

#[test]
fn delete_running_with_force_kills_first() {
    let action = plan_delete(ContainerStatus::Running, true).unwrap();
    assert!(action.kill_first);
    // a container that never finished creating has nothing to kill
    let action2 = plan_delete(ContainerStatus::Creating, true).unwrap();
    assert!(!action2.kill_first);
    // a stopped container is removed plainly
    let action3 = plan_delete(ContainerStatus::Stopped, false).unwrap();
    assert!(!action3.kill_first);
}

#[test]
fn kill_decisions() {
    assert_eq!(plan_kill(ContainerStatus::Stopped, false), KillDecision::AlreadyStopped);
    assert_eq!(plan_kill(ContainerStatus::Running, true), KillDecision::AllUnsupported);
    assert_eq!(plan_kill(ContainerStatus::Creating, false), KillDecision::InvalidState);
    assert_eq!(plan_kill(ContainerStatus::Running, false), KillDecision::Send);
    assert_eq!(plan_kill(ContainerStatus::Created, false), KillDecision::Send);
}

#[test]
fn signal_names_get_the_prefix_once() {
    assert_eq!(normalize_signal_name("TERM"), "SIGTERM");
    assert_eq!(normalize_signal_name("SIGKILL"), "SIGKILL");
    assert_eq!(normalize_signal_name("9"), "SIG9");
}
