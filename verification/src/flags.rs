//! Namespace types and clone/unshare flag bits.
//!
//! An OCI namespace entry either names an existing namespace by path
//! (to be joined) or asks for a fresh one (to be created).  Only the
//! latter contribute to the clone-flag set; the former become join
//! targets handled through `setns`.

use vstd::prelude::*;

verus! {

/// The kernel clone-flag bit for a new cgroup namespace.
pub const CLONE_NEWCGROUP: u64 = 0x02000000;

/// The kernel clone-flag bit for a new IPC namespace.
pub const CLONE_NEWIPC: u64 = 0x08000000;

/// The kernel clone-flag bit for a new mount namespace.
pub const CLONE_NEWNS: u64 = 0x00020000;

/// The kernel clone-flag bit for a new network namespace.
pub const CLONE_NEWNET: u64 = 0x40000000;

/// The kernel clone-flag bit for a new PID namespace.
pub const CLONE_NEWPID: u64 = 0x20000000;

/// The kernel clone-flag bit for a new user namespace.
pub const CLONE_NEWUSER: u64 = 0x10000000;

/// The kernel clone-flag bit for a new UTS namespace.
pub const CLONE_NEWUTS: u64 = 0x04000000;

/// The kernel clone-flag bit for a new time namespace.
pub const CLONE_NEWTIME: u64 = 0x80;

/// The OCI namespace kinds.
#[derive(Copy, Clone, Debug, PartialEq, Eq, Structural)]
pub enum NamespaceType {
    Cgroup,
    Ipc,
    Mount,
    Network,
    Pid,
    User,
    Uts,
    Time,
}

/// One namespace request: its kind, and the path of an existing
/// namespace to join, or nothing to ask for a fresh one.
pub struct LinuxNamespace {
    pub typ: NamespaceType,
    pub path: Option<String>,
}

impl Clone for LinuxNamespace {
    fn clone(&self) -> (r: Self)
        ensures
            r.typ == self.typ,
            match (&r.path, &self.path) {
                (Option::Some(a), Option::Some(b)) => a@ == b@,
                (Option::None, Option::None) => true,
                _ => false,
            },
    {
        LinuxNamespace {
            typ: self.typ,
            path: match &self.path {
                Option::Some(p) => Option::Some(p.clone()),
                Option::None => Option::None,
            },
        }
    }
}

/// The clone-flag bit of a namespace kind.
pub open spec fn spec_cloneflag(typ: NamespaceType) -> u64 {
    match typ {
        NamespaceType::Cgroup => CLONE_NEWCGROUP,
        NamespaceType::Ipc => CLONE_NEWIPC,
        NamespaceType::Mount => CLONE_NEWNS,
        NamespaceType::Network => CLONE_NEWNET,
        NamespaceType::Pid => CLONE_NEWPID,
        NamespaceType::User => CLONE_NEWUSER,
        NamespaceType::Uts => CLONE_NEWUTS,
        NamespaceType::Time => CLONE_NEWTIME,
    }
}

/// Translate a namespace kind into its clone-flag bit.
pub fn get_cloneflag(typ: NamespaceType) -> (r: u64)
    ensures
        r == spec_cloneflag(typ),
{
    match typ {
        NamespaceType::Cgroup => CLONE_NEWCGROUP,
        NamespaceType::Ipc => CLONE_NEWIPC,
        NamespaceType::Mount => CLONE_NEWNS,
        NamespaceType::Network => CLONE_NEWNET,
        NamespaceType::Pid => CLONE_NEWPID,
        NamespaceType::User => CLONE_NEWUSER,
        NamespaceType::Uts => CLONE_NEWUTS,
        NamespaceType::Time => CLONE_NEWTIME,
    }
}

/// The clone-flag set for the namespaces to be created: exactly those
/// without an external path.  Namespaces that name an existing path are
/// joined, never created, and contribute nothing here.
pub open spec fn spec_cloneflags(nss: Seq<LinuxNamespace>) -> u64
    decreases nss.len(),
{
    if nss.len() == 0 {
        0u64
    } else {
        spec_cloneflags(nss.drop_last()) | (if nss.last().path is None {
            spec_cloneflag(nss.last().typ)
        } else {
            0u64
        })
    }
}

/// Compute the clone-flag set from the namespace list.
pub fn generate_cloneflags(namespaces: &Vec<LinuxNamespace>) -> (r: u64)
    ensures
        r == spec_cloneflags(namespaces@),
{
    let mut result: u64 = 0;
    let mut i: usize = 0;
    while i < namespaces.len()
        invariant
            i <= namespaces@.len(),
            result == spec_cloneflags(namespaces@.take(i as int)),
        decreases namespaces@.len() - i,
    {
        proof {
            assert(namespaces@.take(i as int + 1).drop_last() =~= namespaces@.take(i as int));
            assert(namespaces@.take(i as int + 1).last() == namespaces@[i as int]);
        }
        match &namespaces[i].path {
            Option::None => {
                result = result | get_cloneflag(namespaces[i].typ);
            },
            Option::Some(_) => {
                proof {
                    assert(result | 0u64 == result) by (bit_vector);
                }
            },
        }
        i += 1;
    }
    proof {
        assert(namespaces@.take(namespaces@.len() as int) =~= namespaces@);
    }
    result
}

/// One namespace to join: its clone-flag bit and the path of the
/// existing namespace.
pub struct JoinTarget {
    pub flag: u64,
    pub path: String,
}

/// The join targets of a namespace list: exactly the entries that name
/// an existing namespace path, in order, each with its flag bit.
pub open spec fn spec_join_targets(nss: Seq<LinuxNamespace>) -> Seq<JoinTarget>
    decreases nss.len(),
{
    if nss.len() == 0 {
        Seq::empty()
    } else {
        spec_join_targets(nss.drop_last()) + (match nss.last().path {
            Option::Some(p) => seq![JoinTarget { flag: spec_cloneflag(nss.last().typ), path: p }],
            Option::None => Seq::empty(),
        })
    }
}

/// The namespaces to attach to through their existing paths, in spec
/// order.  Entries without a path are skipped: they are created, not
/// joined.
pub fn namespaces_to_join(namespaces: &Vec<LinuxNamespace>) -> (r: Vec<JoinTarget>)
    ensures
        r@ == spec_join_targets(namespaces@),
{
    let mut out: Vec<JoinTarget> = Vec::new();
    let mut i: usize = 0;
    while i < namespaces.len()
        invariant
            i <= namespaces@.len(),
            out@ == spec_join_targets(namespaces@.take(i as int)),
        decreases namespaces@.len() - i,
    {
        proof {
            assert(namespaces@.take(i as int + 1).drop_last() =~= namespaces@.take(i as int));
            assert(namespaces@.take(i as int + 1).last() == namespaces@[i as int]);
        }
        match &namespaces[i].path {
            Option::Some(p) => {
                let flag = get_cloneflag(namespaces[i].typ);
                out.push(JoinTarget { flag, path: p.clone() });
                proof {
                    assert(out@ =~= spec_join_targets(namespaces@.take(i as int + 1)));
                }
            },
            Option::None => {},
        }
        i += 1;
    }
    proof {
        assert(namespaces@.take(namespaces@.len() as int) =~= namespaces@);
    }
    out
}

/// The flags the first init stage unshares: everything requested except
/// the cgroup namespace, whose unshare is deferred until the process
/// stands inside the new PID namespace.
pub fn parent_unshare_flags(cloneflags: u64) -> (r: u64)
    ensures
        r == cloneflags & !CLONE_NEWCGROUP,
{
    cloneflags & !CLONE_NEWCGROUP
}

/// Must the second init stage unshare the cgroup namespace?  Exactly
/// when it was requested; it was left out of the first stage's unshare.
pub fn child_unshares_cgroup(cloneflags: u64) -> (r: bool)
    ensures
        r == (cloneflags & CLONE_NEWCGROUP != 0),
{
    cloneflags & CLONE_NEWCGROUP != 0
}

/// Is a fresh mount namespace part of the request?  If so the rootfs
/// switch uses `pivot_root`; otherwise it falls back to `chroot`.
pub fn use_pivot_root(cloneflags: u64) -> (r: bool)
    ensures
        r == (cloneflags & CLONE_NEWNS != 0),
{
    cloneflags & CLONE_NEWNS != 0
}

/// Was a fresh user namespace requested?  That setup is not supported.
pub fn requests_user_namespace(cloneflags: u64) -> (r: bool)
    ensures
        r == (cloneflags & CLONE_NEWUSER != 0),
{
    cloneflags & CLONE_NEWUSER != 0
}

} // verus!
