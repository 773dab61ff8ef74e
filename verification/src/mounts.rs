//! Mount options and the mount planning engine.
//!
//! An OCI mount descriptor carries a source, a destination relative to
//! the container root, a filesystem type and an option list.  The
//! option list is folded into kernel mount-flag bits, propagation bits
//! and a free-form data string by a fixed table; the descriptor is then
//! classified (bind, sysfs/proc, mqueue, tmpfs, cgroup, other) and
//! turned into the exact sequence of privileged operations to perform.

use vstd::prelude::*;

use crate::paths::join_with;

verus! {

/// Mount read-only.
pub const MS_RDONLY: u64 = 0x1;

/// Ignore set-user-id and set-group-id bits.
pub const MS_NOSUID: u64 = 0x2;

/// Disallow access to device special files.
pub const MS_NODEV: u64 = 0x4;

/// Disallow program execution.
pub const MS_NOEXEC: u64 = 0x8;

/// Writes are synced at once.
pub const MS_SYNCHRONOUS: u64 = 0x10;

/// Alter flags of a mounted filesystem.
pub const MS_REMOUNT: u64 = 0x20;

/// Allow mandatory locks.
pub const MS_MANDLOCK: u64 = 0x40;

/// Directory modifications are synchronous.
pub const MS_DIRSYNC: u64 = 0x80;

/// Do not update access times.
pub const MS_NOATIME: u64 = 0x400;

/// Do not update directory access times.
pub const MS_NODIRATIME: u64 = 0x800;

/// Bind a directory or file elsewhere.
pub const MS_BIND: u64 = 0x1000;

/// Apply to the whole subtree.
pub const MS_REC: u64 = 0x4000;

/// Suppress kernel log messages.
pub const MS_SILENT: u64 = 0x8000;

/// VFS does not apply the umask.
pub const MS_POSIXACL: u64 = 0x10000;

/// Change to unbindable.
pub const MS_UNBINDABLE: u64 = 0x20000;

/// Change to private.
pub const MS_PRIVATE: u64 = 0x40000;

/// Change to slave.
pub const MS_SLAVE: u64 = 0x80000;

/// Change to shared.
pub const MS_SHARED: u64 = 0x100000;

/// Update access times relative to modification time.
pub const MS_RELATIME: u64 = 0x200000;

/// Update inode version field.
pub const MS_I_VERSION: u64 = 0x800000;

/// Always update the last access time.
pub const MS_STRICTATIME: u64 = 0x1000000;

/// The translated form of a mount option list: the mount-flag bits,
/// the propagation bits, and the comma-joined data string of the
/// unrecognized options.
#[derive(Debug)]
pub struct MountOptions {
    pub mount_flags: u64,
    pub propagation_flags: u64,
    pub data: Option<String>,
}

impl Default for MountOptions {
    fn default() -> (r: Self)
        ensures
            r.mount_flags == 0,
            r.propagation_flags == 0,
            r.data is None,
    {
        MountOptions { mount_flags: 0, propagation_flags: 0, data: Option::None }
    }
}

/// An option the engine refuses rather than silently ignores.
pub open spec fn opt_unsupported(o: Seq<char>) -> bool {
    o == "lazytime"@ || o == "nolazytime"@ || o == "tmpcopyup"@
}

/// The fixed option table: one step of the fold.  A known token sets or
/// clears its flag bits; an unknown token is passed through to the data
/// strings.
pub open spec fn apply_mount_option(st: (u64, u64, Seq<Seq<char>>), o: Seq<char>) -> (
    u64,
    u64,
    Seq<Seq<char>>,
) {
    let mf = st.0;
    let pf = st.1;
    let data = st.2;
    if o == "acl"@ {
        (mf | MS_POSIXACL, pf, data)
    } else if o == "async"@ {
        (mf & !MS_SYNCHRONOUS, pf, data)
    } else if o == "atime"@ {
        (mf & !MS_NOATIME, pf, data)
    } else if o == "bind"@ {
        (mf | MS_BIND, pf, data)
    } else if o == "defaults"@ {
        (mf, pf, data)
    } else if o == "dev"@ {
        (mf & !MS_NODEV, pf, data)
    } else if o == "diratime"@ {
        (mf & !MS_NODIRATIME, pf, data)
    } else if o == "dirsync"@ {
        (mf | MS_DIRSYNC, pf, data)
    } else if o == "exec"@ {
        (mf & !MS_NOEXEC, pf, data)
    } else if o == "iversion"@ {
        (mf | MS_I_VERSION, pf, data)
    } else if o == "loud"@ {
        (mf & !MS_SILENT, pf, data)
    } else if o == "mand"@ {
        (mf | MS_MANDLOCK, pf, data)
    } else if o == "noacl"@ {
        (mf & !MS_POSIXACL, pf, data)
    } else if o == "noatime"@ {
        (mf | MS_NOATIME, pf, data)
    } else if o == "nodev"@ {
        (mf | MS_NODEV, pf, data)
    } else if o == "nodiratime"@ {
        (mf | MS_NODIRATIME, pf, data)
    } else if o == "noexec"@ {
        (mf | MS_NOEXEC, pf, data)
    } else if o == "noiversion"@ {
        (mf & !MS_I_VERSION, pf, data)
    } else if o == "nomand"@ {
        (mf & !MS_MANDLOCK, pf, data)
    } else if o == "norelatime"@ {
        (mf & !MS_RELATIME, pf, data)
    } else if o == "nostrictatime"@ {
        (mf & !MS_STRICTATIME, pf, data)
    } else if o == "nosuid"@ {
        (mf | MS_NOSUID, pf, data)
    } else if o == "rbind"@ {
        (mf | MS_BIND | MS_REC, pf, data)
    } else if o == "relatime"@ {
        (mf | MS_RELATIME, pf, data)
    } else if o == "remount"@ {
        (mf | MS_REMOUNT, pf, data)
    } else if o == "ro"@ {
        (mf | MS_RDONLY, pf, data)
    } else if o == "rw"@ {
        (mf & !MS_RDONLY, pf, data)
    } else if o == "silent"@ {
        (mf | MS_SILENT, pf, data)
    } else if o == "strictatime"@ {
        (mf | MS_STRICTATIME, pf, data)
    } else if o == "suid"@ {
        (mf & !MS_NOSUID, pf, data)
    } else if o == "sync"@ {
        (mf | MS_SYNCHRONOUS, pf, data)
    } else if o == "private"@ {
        (mf, pf | MS_PRIVATE, data)
    } else if o == "shared"@ {
        (mf, pf | MS_SHARED, data)
    } else if o == "slave"@ {
        (mf, pf | MS_SLAVE, data)
    } else if o == "unbindable"@ {
        (mf, pf | MS_UNBINDABLE, data)
    } else if o == "rprivate"@ {
        (mf, pf | MS_PRIVATE | MS_REC, data)
    } else if o == "rshared"@ {
        (mf, pf | MS_SHARED | MS_REC, data)
    } else if o == "rslave"@ {
        (mf, pf | MS_SLAVE | MS_REC, data)
    } else if o == "runbindable"@ {
        (mf, pf | MS_UNBINDABLE | MS_REC, data)
    } else {
        (mf, pf, data.push(o))
    }
}

/// The option fold over a whole option list, starting from empty flags
/// and no data.
pub open spec fn mount_options_state(opts: Seq<Seq<char>>) -> (u64, u64, Seq<Seq<char>>)
    decreases opts.len(),
{
    if opts.len() == 0 {
        (0u64, 0u64, Seq::empty())
    } else {
        apply_mount_option(mount_options_state(opts.drop_last()), opts.last())
    }
}

/// Why a mount cannot be configured.
#[derive(Debug, PartialEq, Eq)]
pub enum MountError {
    /// An option the engine refuses (`lazytime`, `nolazytime`,
    /// `tmpcopyup`).
    UnsupportedOption,
    /// The descriptor lacks its source field.
    MissingSource,
    /// The descriptor lacks its type field.
    MissingType,
    /// The bind-mount source does not exist.
    SourceMissing,
    /// The resolved destination does not lie under the container root.
    DestinationEscapes,
    /// The destination lies under the container's `/proc`.
    DestinationInProc,
    /// sysfs and proc can only be mounted on directories.
    NotADirectory,
    /// A file destination with no parent directory.
    NoParent,
    /// Destination resolution failed.
    Resolution(crate::rootfs::ResolveError),
    /// The destination path changed between resolution and mounting.
    DestinationMoved,
    /// The rootfs propagation mode names no known option.
    UnknownPropagation,
}

/// Fold a mount option list into flag bits and a data string by the
/// fixed table.  The two known-unsupported options are refused, exactly
/// when one occurs.
pub fn parse_mount_options(options: &Vec<String>) -> (r: Result<MountOptions, MountError>)
    ensures
        (r matches Err(e)) <==> (exists|j: int|
            0 <= j < options.deep_view().len() && opt_unsupported(#[trigger] options.deep_view()[j])),
        r matches Err(e) ==> e == MountError::UnsupportedOption,
        r matches Ok(mo) ==> {
            let st = mount_options_state(options.deep_view());
            &&& mo.mount_flags == st.0
            &&& mo.propagation_flags == st.1
            &&& mo.data matches Some(d) && d@ == join_with(seq![','], st.2)
        },
{
    let ghost odv = options.deep_view();
    let mut mf: u64 = 0;
    let mut pf: u64 = 0;
    let mut data: Vec<String> = Vec::new();
    let mut i: usize = 0;
    proof {
        assert(data.deep_view() =~= Seq::<Seq<char>>::empty());
    }
    #[verifier::loop_isolation(false)]
    while i < options.len()
        invariant
            i <= odv.len(),
            (mf, pf, data.deep_view()) == mount_options_state(odv.take(i as int)),
            forall|j: int| 0 <= j < i ==> !opt_unsupported(#[trigger] odv[j]),
        decreases odv.len() - i,
    {
        proof {
            assert(odv.take(i as int + 1).drop_last() =~= odv.take(i as int));
            assert(odv.take(i as int + 1).last() == odv[i as int]);
        }
        let o = options[i].as_str();
        if crate::paths::str_eq(o, "lazytime") || crate::paths::str_eq(o, "nolazytime")
            || crate::paths::str_eq(o, "tmpcopyup") {
            return Err(MountError::UnsupportedOption);
        } else if crate::paths::str_eq(o, "acl") {
            mf = mf | MS_POSIXACL;
        } else if crate::paths::str_eq(o, "async") {
            mf = mf & !MS_SYNCHRONOUS;
        } else if crate::paths::str_eq(o, "atime") {
            mf = mf & !MS_NOATIME;
        } else if crate::paths::str_eq(o, "bind") {
            mf = mf | MS_BIND;
        } else if crate::paths::str_eq(o, "defaults") {
        } else if crate::paths::str_eq(o, "dev") {
            mf = mf & !MS_NODEV;
        } else if crate::paths::str_eq(o, "diratime") {
            mf = mf & !MS_NODIRATIME;
        } else if crate::paths::str_eq(o, "dirsync") {
            mf = mf | MS_DIRSYNC;
        } else if crate::paths::str_eq(o, "exec") {
            mf = mf & !MS_NOEXEC;
        } else if crate::paths::str_eq(o, "iversion") {
            mf = mf | MS_I_VERSION;
        } else if crate::paths::str_eq(o, "loud") {
            mf = mf & !MS_SILENT;
        } else if crate::paths::str_eq(o, "mand") {
            mf = mf | MS_MANDLOCK;
        } else if crate::paths::str_eq(o, "noacl") {
            mf = mf & !MS_POSIXACL;
        } else if crate::paths::str_eq(o, "noatime") {
            mf = mf | MS_NOATIME;
        } else if crate::paths::str_eq(o, "nodev") {
            mf = mf | MS_NODEV;
        } else if crate::paths::str_eq(o, "nodiratime") {
            mf = mf | MS_NODIRATIME;
        } else if crate::paths::str_eq(o, "noexec") {
            mf = mf | MS_NOEXEC;
        } else if crate::paths::str_eq(o, "noiversion") {
            mf = mf & !MS_I_VERSION;
        } else if crate::paths::str_eq(o, "nomand") {
            mf = mf & !MS_MANDLOCK;
        } else if crate::paths::str_eq(o, "norelatime") {
            mf = mf & !MS_RELATIME;
        } else if crate::paths::str_eq(o, "nostrictatime") {
            mf = mf & !MS_STRICTATIME;
        } else if crate::paths::str_eq(o, "nosuid") {
            mf = mf | MS_NOSUID;
        } else if crate::paths::str_eq(o, "rbind") {
            mf = mf | MS_BIND | MS_REC;
        } else if crate::paths::str_eq(o, "relatime") {
            mf = mf | MS_RELATIME;
        } else if crate::paths::str_eq(o, "remount") {
            mf = mf | MS_REMOUNT;
        } else if crate::paths::str_eq(o, "ro") {
            mf = mf | MS_RDONLY;
        } else if crate::paths::str_eq(o, "rw") {
            mf = mf & !MS_RDONLY;
        } else if crate::paths::str_eq(o, "silent") {
            mf = mf | MS_SILENT;
        } else if crate::paths::str_eq(o, "strictatime") {
            mf = mf | MS_STRICTATIME;
        } else if crate::paths::str_eq(o, "suid") {
            mf = mf & !MS_NOSUID;
        } else if crate::paths::str_eq(o, "sync") {
            mf = mf | MS_SYNCHRONOUS;
        } else if crate::paths::str_eq(o, "private") {
            pf = pf | MS_PRIVATE;
        } else if crate::paths::str_eq(o, "shared") {
            pf = pf | MS_SHARED;
        } else if crate::paths::str_eq(o, "slave") {
            pf = pf | MS_SLAVE;
        } else if crate::paths::str_eq(o, "unbindable") {
            pf = pf | MS_UNBINDABLE;
        } else if crate::paths::str_eq(o, "rprivate") {
            pf = pf | MS_PRIVATE | MS_REC;
        } else if crate::paths::str_eq(o, "rshared") {
            pf = pf | MS_SHARED | MS_REC;
        } else if crate::paths::str_eq(o, "rslave") {
            pf = pf | MS_SLAVE | MS_REC;
        } else if crate::paths::str_eq(o, "runbindable") {
            pf = pf | MS_UNBINDABLE | MS_REC;
        } else {
            let ghost ddv = data.deep_view();
            data.push(options[i].clone());
            proof {
                assert(data.deep_view() =~= ddv.push(odv[i as int]));
            }
        }
        i += 1;
    }
    proof {
        assert(odv.take(odv.len() as int) =~= odv);
        reveal_strlit(",");
        assert(","@ =~= seq![',']);
    }
    let joined = crate::paths::join_with_sep(",", &data);
    Ok(MountOptions { mount_flags: mf, propagation_flags: pf, data: Option::Some(joined) })
}

/// One privileged operation of a mount plan, in execution order.  The
/// mounts and remounts target their destination through a short-lived
/// `O_PATH` descriptor re-read and checked against the expected path
/// (see [`procfd_check`]) before use.
#[derive(Debug)]
pub enum MountOp {
    /// Create the directory and its parents; an existing directory is
    /// fine.
    CreateDirAll { path: String },
    /// Create an empty file if nothing exists at the path.
    CreateFile { path: String },
    /// The mount call itself.
    Mount { source: String, fstype: String, dest: String, flags: u64, data: Option<String> },
    /// Apply propagation flags to the mounted destination.
    SetPropagation { dest: String, flags: u64 },
    /// A second remount pass applying flags the initial call cannot.
    Remount { source: String, fstype: String, dest: String, flags: u64 },
    /// Restore the permissions a pre-existing destination had before a
    /// tmpfs was mounted over it.
    RestorePermissions { dest: String },
}

/// The mathematical form of a mount operation.
pub enum MountOpModel {
    CreateDirAll { path: Seq<char> },
    CreateFile { path: Seq<char> },
    Mount { source: Seq<char>, fstype: Seq<char>, dest: Seq<char>, flags: u64, data: Option<Seq<char>> },
    SetPropagation { dest: Seq<char>, flags: u64 },
    Remount { source: Seq<char>, fstype: Seq<char>, dest: Seq<char>, flags: u64 },
    RestorePermissions { dest: Seq<char> },
}

impl DeepView for MountOp {
    type V = MountOpModel;

    open spec fn deep_view(&self) -> MountOpModel {
        match self {
            MountOp::CreateDirAll { path } => MountOpModel::CreateDirAll { path: path@ },
            MountOp::CreateFile { path } => MountOpModel::CreateFile { path: path@ },
            MountOp::Mount { source, fstype, dest, flags, data } => MountOpModel::Mount {
                source: source@,
                fstype: fstype@,
                dest: dest@,
                flags: *flags,
                data: match data {
                    Option::Some(d) => Option::Some(d@),
                    Option::None => Option::None,
                },
            },
            MountOp::SetPropagation { dest, flags } => MountOpModel::SetPropagation {
                dest: dest@,
                flags: *flags,
            },
            MountOp::Remount { source, fstype, dest, flags } => MountOpModel::Remount {
                source: source@,
                fstype: fstype@,
                dest: dest@,
                flags: *flags,
            },
            MountOp::RestorePermissions { dest } => MountOpModel::RestorePermissions {
                dest: dest@,
            },
        }
    }
}

/// What the filesystem says about a mount's source and destination at
/// planning time.
#[derive(Copy, Clone, Debug, PartialEq, Eq, Structural)]
pub struct MountFacts {
    pub source_exists: bool,
    pub source_is_dir: bool,
    pub dest_exists: bool,
    pub dest_is_dir: bool,
}

/// The plan for one mount: the operations to perform in order, whether
/// this mount itself bind-mounts the container's `/dev` (the caller
/// must then skip default device population), and whether a cgroup
/// mount was skipped as unimplemented.
#[derive(Debug)]
pub struct MountPlan {
    pub ops: Vec<MountOp>,
    pub mounts_dev: bool,
    pub cgroup_skipped: bool,
}

/// Does the option list ask for bind semantics?
pub open spec fn spec_is_bind(opts: Seq<Seq<char>>) -> bool {
    exists|j: int|
        #![trigger opts[j]]
        0 <= j < opts.len() && (opts[j] == "bind"@ || opts[j] == "rbind"@)
}

/// Does an unsupported option occur?
pub open spec fn spec_has_unsupported(opts: Seq<Seq<char>>) -> bool {
    exists|j: int| 0 <= j < opts.len() && opt_unsupported(#[trigger] opts[j])
}

/// The flags of the initial mount call: `/dev` destinations and tmpfs
/// mounts temporarily drop read-only (`/dev` must stay writable during
/// device population; a tmpfs cannot be created read-only and is
/// remounted read-only afterwards).
pub open spec fn initial_mount_flags(dest_spec: Seq<char>, fstype: Seq<char>, mf: u64) -> u64 {
    if dest_spec == "/dev"@ || fstype == "tmpfs"@ {
        mf & !MS_RDONLY
    } else {
        mf
    }
}

/// The propagation pass after a mount, when propagation bits were
/// requested.
pub open spec fn prop_ops(dest: Seq<char>, pf: u64) -> Seq<MountOpModel> {
    if pf != 0 {
        seq![MountOpModel::SetPropagation { dest, flags: pf }]
    } else {
        Seq::empty()
    }
}

/// The parsed state of an optional option list: absent options parse as
/// empty flags with no data at all.
pub open spec fn opts_state_of(opts: Option<Seq<Seq<char>>>) -> (u64, u64, Option<Seq<char>>) {
    match opts {
        Option::Some(o) => {
            let st = mount_options_state(o);
            (st.0, st.1, Option::Some(join_with(seq![','], st.2)))
        },
        Option::None => (0u64, 0u64, Option::None),
    }
}

/// The container's `/dev` path under its root.
pub open spec fn dev_path(rootfs: Seq<char>) -> Seq<char> {
    crate::paths::path_under_root(rootfs, seq!["dev"@])
}

/// The container's `/proc` path under its root.
pub open spec fn proc_path(rootfs: Seq<char>) -> Seq<char> {
    crate::paths::path_under_root(rootfs, seq!["proc"@])
}

/// The planned operations for one classified mount: the exact model the
/// executable planner must return.
pub open spec fn spec_plan_mount(
    dest_spec: Seq<char>,
    typ: Option<Seq<char>>,
    opts: Option<Seq<Seq<char>>>,
    src: Seq<char>,
    resolved: Seq<char>,
    rootfs: Seq<char>,
    facts: MountFacts,
) -> Result<(Seq<MountOpModel>, bool, bool), MountError> {
    let st = opts_state_of(opts);
    let mf = st.0;
    let pf = st.1;
    let data = st.2;
    let is_bind = match opts {
        Option::Some(o) => spec_is_bind(o),
        Option::None => false,
    };
    if typ is None {
        Err(MountError::MissingType)
    } else if match opts {
        Option::Some(o) => spec_has_unsupported(o),
        Option::None => false,
    } {
        Err(MountError::UnsupportedOption)
    } else if !crate::paths::starts_with_root(resolved, rootfs) {
        Err(MountError::DestinationEscapes)
    } else if is_bind {
        if !facts.source_exists {
            Err(MountError::SourceMissing)
        } else if crate::paths::path_prefix(proc_path(rootfs), resolved) {
            Err(MountError::DestinationInProc)
        } else {
            let create = if facts.source_is_dir {
                Some(seq![MountOpModel::CreateDirAll { path: resolved }])
            } else {
                match crate::paths::parent_path_spec(resolved) {
                    Option::None => None,
                    Option::Some(par) => Some(
                        seq![MountOpModel::CreateDirAll { path: par }] + (if !facts.dest_exists {
                            seq![MountOpModel::CreateFile { path: resolved }]
                        } else {
                            Seq::empty()
                        }),
                    ),
                }
            };
            match create {
                None => Err(MountError::NoParent),
                Some(create_ops) => {
                    let extra = mf & !(MS_REC | MS_REMOUNT | MS_BIND);
                    Ok(
                        (
                            create_ops + seq![
                                MountOpModel::Mount {
                                    source: src,
                                    fstype: "bind"@,
                                    dest: resolved,
                                    flags: initial_mount_flags(dest_spec, "bind"@, mf),
                                    data,
                                },
                            ] + prop_ops(resolved, pf) + (if extra != 0 {
                                seq![
                                    MountOpModel::Remount {
                                        source: src,
                                        fstype: "bind"@,
                                        dest: resolved,
                                        flags: mf | MS_REMOUNT,
                                    },
                                ]
                            } else {
                                Seq::empty()
                            }),
                            resolved == dev_path(rootfs),
                            false,
                        ),
                    )
                },
            }
        }
    } else {
        let t = typ->0;
        if t == "sysfs"@ || t == "proc"@ {
            if !facts.dest_exists || facts.dest_is_dir {
                Ok(
                    (
                        seq![MountOpModel::CreateDirAll { path: resolved }] + seq![
                            MountOpModel::Mount {
                                source: src,
                                fstype: t,
                                dest: resolved,
                                flags: initial_mount_flags(dest_spec, t, mf),
                                data,
                            },
                        ] + prop_ops(resolved, pf),
                        false,
                        false,
                    ),
                )
            } else {
                Err(MountError::NotADirectory)
            }
        } else if t == "mqueue"@ {
            Ok(
                (
                    (if !facts.dest_exists {
                        seq![MountOpModel::CreateDirAll { path: resolved }]
                    } else {
                        Seq::empty()
                    }) + seq![
                        MountOpModel::Mount {
                            source: src,
                            fstype: t,
                            dest: resolved,
                            flags: initial_mount_flags(dest_spec, t, mf),
                            data,
                        },
                    ] + prop_ops(resolved, pf),
                    false,
                    false,
                ),
            )
        } else if t == "tmpfs"@ {
            Ok(
                (
                    (if !facts.dest_exists {
                        seq![MountOpModel::CreateDirAll { path: resolved }]
                    } else {
                        Seq::empty()
                    }) + seq![
                        MountOpModel::Mount {
                            source: src,
                            fstype: t,
                            dest: resolved,
                            flags: initial_mount_flags(dest_spec, t, mf),
                            data,
                        },
                    ] + prop_ops(resolved, pf) + (if facts.dest_exists {
                        seq![MountOpModel::RestorePermissions { dest: resolved }]
                    } else {
                        Seq::empty()
                    }) + (if mf & MS_RDONLY != 0 {
                        seq![
                            MountOpModel::Remount {
                                source: src,
                                fstype: t,
                                dest: resolved,
                                flags: mf | MS_REMOUNT,
                            },
                        ]
                    } else {
                        Seq::empty()
                    }),
                    false,
                    false,
                ),
            )
        } else if t == "cgroup"@ {
            Ok((Seq::empty(), false, true))
        } else {
            if crate::paths::path_prefix(proc_path(rootfs), resolved) {
                Err(MountError::DestinationInProc)
            } else {
                Ok(
                    (
                        seq![MountOpModel::CreateDirAll { path: resolved }] + seq![
                            MountOpModel::Mount {
                                source: src,
                                fstype: t,
                                dest: resolved,
                                flags: initial_mount_flags(dest_spec, t, mf),
                                data,
                            },
                        ] + prop_ops(resolved, pf),
                        false,
                        false,
                    ),
                )
            }
        }
    }
}

/// The initial-mount flag adjustment, executed.
fn initial_flags_exec(dest_spec: &str, fstype: &str, mf: u64) -> (r: u64)
    ensures
        r == initial_mount_flags(dest_spec@, fstype@, mf),
{
    if crate::paths::str_eq(dest_spec, "/dev") || crate::paths::str_eq(fstype, "tmpfs") {
        mf & !MS_RDONLY
    } else {
        mf
    }
}

/// The container's `/dev` path, executed.
fn dev_path_exec(rootfs: &str) -> (r: String)
    ensures
        r@ == dev_path(rootfs@),
{
    let mut v: Vec<String> = Vec::new();
    v.push(String::from_str("dev"));
    proof {
        assert(v.deep_view() =~= seq!["dev"@]);
    }
    crate::rootfs::path_in_root(rootfs, &v)
}

/// The container's `/proc` path, executed.
fn proc_path_exec(rootfs: &str) -> (r: String)
    ensures
        r@ == proc_path(rootfs@),
{
    let mut v: Vec<String> = Vec::new();
    v.push(String::from_str("proc"));
    proof {
        assert(v.deep_view() =~= seq!["proc"@]);
    }
    crate::rootfs::path_in_root(rootfs, &v)
}

/// Does the option list ask for bind semantics?
pub fn is_bind_options(options: &Vec<String>) -> (r: bool)
    ensures
        r == spec_is_bind(options.deep_view()),
{
    let ghost odv = options.deep_view();
    let mut i: usize = 0;
    while i < options.len()
        invariant
            i <= odv.len(),
            odv == options.deep_view(),
            odv.len() == options@.len(),
            forall|j: int|
                #![trigger odv[j]]
                0 <= j < i ==> !(odv[j] == "bind"@ || odv[j] == "rbind"@),
        decreases odv.len() - i,
    {
        if crate::paths::str_eq(options[i].as_str(), "bind") || crate::paths::str_eq(
            options[i].as_str(),
            "rbind",
        ) {
            proof {
                assert(odv[i as int] == "bind"@ || odv[i as int] == "rbind"@);
            }
            return true;
        }
        i += 1;
    }
    false
}

/// Classify one mount and produce the exact operation sequence of
/// [`spec_plan_mount`]: bind mounts with their optional extra remount
/// pass, sysfs/proc and mqueue mounted directly, tmpfs with its
/// read-only remount after population, cgroup skipped as unimplemented,
/// and anything else mounted plainly; destinations under the
/// container's `/proc` and escaping destinations are refused.  Every
/// mount, remount and propagation operation targets exactly the
/// resolved destination.
pub fn plan_mount(
    m: &crate::oci::Mount,
    src_resolved: &str,
    resolved_dest: &str,
    rootfs: &str,
    facts: MountFacts,
) -> (r: Result<MountPlan, MountError>)
    ensures
        ({
            let sp = spec_plan_mount(
                m.destination@,
                m.typ.deep_view(),
                m.options.deep_view(),
                src_resolved@,
                resolved_dest@,
                rootfs@,
                facts,
            );
            match (r, sp) {
                (Ok(plan), Ok(s)) => plan.ops.deep_view() == s.0 && plan.mounts_dev == s.1
                    && plan.cgroup_skipped == s.2,
                (Err(e1), Err(e2)) => e1 == e2,
                _ => false,
            }
        }),
        r matches Ok(plan) ==> forall|i: int|
            0 <= i < plan.ops.deep_view().len() ==> match #[trigger] plan.ops.deep_view()[i] {
                MountOpModel::Mount { dest, .. } => dest == resolved_dest@,
                MountOpModel::Remount { dest, .. } => dest == resolved_dest@,
                MountOpModel::SetPropagation { dest, .. } => dest == resolved_dest@,
                _ => true,
            },
{
    let typ = match &m.typ {
        Option::None => {
            return Err(MountError::MissingType);
        },
        Option::Some(t) => t,
    };
    let parsed: (u64, u64, Option<String>, bool) = match &m.options {
        Option::Some(opts) => {
            match parse_mount_options(opts) {
                Err(e) => {
                    return Err(e);
                },
                Ok(mo) => (mo.mount_flags, mo.propagation_flags, mo.data, is_bind_options(opts)),
            }
        },
        Option::None => (0u64, 0u64, Option::None, false),
    };
    let mf = parsed.0;
    let pf = parsed.1;
    let data = parsed.2;
    let is_bind = parsed.3;
    if !crate::paths::check_starts_with_root(resolved_dest, rootfs) {
        return Err(MountError::DestinationEscapes);
    }
    if is_bind {
        if !facts.source_exists {
            return Err(MountError::SourceMissing);
        }
        let procp = proc_path_exec(rootfs);
        if crate::paths::is_path_prefix(procp.as_str(), resolved_dest) {
            return Err(MountError::DestinationInProc);
        }
        let mut ops: Vec<MountOp> = Vec::new();
        if facts.source_is_dir {
            ops.push(MountOp::CreateDirAll { path: resolved_dest.to_owned() });
        } else {
            match crate::paths::parent_path(resolved_dest) {
                Option::None => {
                    return Err(MountError::NoParent);
                },
                Option::Some(par) => {
                    ops.push(MountOp::CreateDirAll { path: par });
                    if !facts.dest_exists {
                        ops.push(MountOp::CreateFile { path: resolved_dest.to_owned() });
                    }
                },
            }
        }
        let iflags = initial_flags_exec(m.destination.as_str(), "bind", mf);
        proof {
            reveal_strlit("bind");
        }
        ops.push(
            MountOp::Mount {
                source: src_resolved.to_owned(),
                fstype: String::from_str("bind"),
                dest: resolved_dest.to_owned(),
                flags: iflags,
                data,
            },
        );
        if pf != 0 {
            ops.push(MountOp::SetPropagation { dest: resolved_dest.to_owned(), flags: pf });
        }
        let extra = mf & !(MS_REC | MS_REMOUNT | MS_BIND);
        if extra != 0 {
            ops.push(
                MountOp::Remount {
                    source: src_resolved.to_owned(),
                    fstype: String::from_str("bind"),
                    dest: resolved_dest.to_owned(),
                    flags: mf | MS_REMOUNT,
                },
            );
        }
        let devp = dev_path_exec(rootfs);
        let mounts_dev = crate::paths::str_eq(resolved_dest, devp.as_str());
        proof {
            let sp = spec_plan_mount(
                m.destination@,
                m.typ.deep_view(),
                m.options.deep_view(),
                src_resolved@,
                resolved_dest@,
                rootfs@,
                facts,
            );
            assert(ops.deep_view() =~= sp->Ok_0.0);
        }
        Ok(MountPlan { ops, mounts_dev, cgroup_skipped: false })
    } else {
        let t = typ.as_str();
        if crate::paths::str_eq(t, "sysfs") || crate::paths::str_eq(t, "proc") {
            if !facts.dest_exists || facts.dest_is_dir {
                let mut ops: Vec<MountOp> = Vec::new();
                ops.push(MountOp::CreateDirAll { path: resolved_dest.to_owned() });
                let iflags = initial_flags_exec(m.destination.as_str(), t, mf);
                ops.push(
                    MountOp::Mount {
                        source: src_resolved.to_owned(),
                        fstype: typ.clone(),
                        dest: resolved_dest.to_owned(),
                        flags: iflags,
                        data,
                    },
                );
                if pf != 0 {
                    ops.push(MountOp::SetPropagation { dest: resolved_dest.to_owned(), flags: pf });
                }
                proof {
                    let sp = spec_plan_mount(
                        m.destination@,
                        m.typ.deep_view(),
                        m.options.deep_view(),
                        src_resolved@,
                        resolved_dest@,
                        rootfs@,
                        facts,
                    );
                    assert(ops.deep_view() =~= sp->Ok_0.0);
                }
                Ok(MountPlan { ops, mounts_dev: false, cgroup_skipped: false })
            } else {
                Err(MountError::NotADirectory)
            }
        } else if crate::paths::str_eq(t, "mqueue") {
            let mut ops: Vec<MountOp> = Vec::new();
            if !facts.dest_exists {
                ops.push(MountOp::CreateDirAll { path: resolved_dest.to_owned() });
            }
            let iflags = initial_flags_exec(m.destination.as_str(), t, mf);
            ops.push(
                MountOp::Mount {
                    source: src_resolved.to_owned(),
                    fstype: typ.clone(),
                    dest: resolved_dest.to_owned(),
                    flags: iflags,
                    data,
                },
            );
            if pf != 0 {
                ops.push(MountOp::SetPropagation { dest: resolved_dest.to_owned(), flags: pf });
            }
            proof {
                let sp = spec_plan_mount(
                    m.destination@,
                    m.typ.deep_view(),
                    m.options.deep_view(),
                    src_resolved@,
                    resolved_dest@,
                    rootfs@,
                    facts,
                );
                assert(ops.deep_view() =~= sp->Ok_0.0);
            }
            Ok(MountPlan { ops, mounts_dev: false, cgroup_skipped: false })
        } else if crate::paths::str_eq(t, "tmpfs") {
            let mut ops: Vec<MountOp> = Vec::new();
            if !facts.dest_exists {
                ops.push(MountOp::CreateDirAll { path: resolved_dest.to_owned() });
            }
            let iflags = initial_flags_exec(m.destination.as_str(), t, mf);
            ops.push(
                MountOp::Mount {
                    source: src_resolved.to_owned(),
                    fstype: typ.clone(),
                    dest: resolved_dest.to_owned(),
                    flags: iflags,
                    data,
                },
            );
            if pf != 0 {
                ops.push(MountOp::SetPropagation { dest: resolved_dest.to_owned(), flags: pf });
            }
            if facts.dest_exists {
                ops.push(MountOp::RestorePermissions { dest: resolved_dest.to_owned() });
            }
            if mf & MS_RDONLY != 0 {
                ops.push(
                    MountOp::Remount {
                        source: src_resolved.to_owned(),
                        fstype: typ.clone(),
                        dest: resolved_dest.to_owned(),
                        flags: mf | MS_REMOUNT,
                    },
                );
            }
            proof {
                let sp = spec_plan_mount(
                    m.destination@,
                    m.typ.deep_view(),
                    m.options.deep_view(),
                    src_resolved@,
                    resolved_dest@,
                    rootfs@,
                    facts,
                );
                assert(ops.deep_view() =~= sp->Ok_0.0);
            }
            Ok(MountPlan { ops, mounts_dev: false, cgroup_skipped: false })
        } else if crate::paths::str_eq(t, "cgroup") {
            let ops: Vec<MountOp> = Vec::new();
            proof {
                assert(ops.deep_view() =~= Seq::<MountOpModel>::empty());
            }
            Ok(MountPlan { ops, mounts_dev: false, cgroup_skipped: true })
        } else {
            let procp = proc_path_exec(rootfs);
            if crate::paths::is_path_prefix(procp.as_str(), resolved_dest) {
                return Err(MountError::DestinationInProc);
            }
            let mut ops: Vec<MountOp> = Vec::new();
            ops.push(MountOp::CreateDirAll { path: resolved_dest.to_owned() });
            let iflags = initial_flags_exec(m.destination.as_str(), t, mf);
            ops.push(
                MountOp::Mount {
                    source: src_resolved.to_owned(),
                    fstype: typ.clone(),
                    dest: resolved_dest.to_owned(),
                    flags: iflags,
                    data,
                },
            );
            if pf != 0 {
                ops.push(MountOp::SetPropagation { dest: resolved_dest.to_owned(), flags: pf });
            }
            proof {
                let sp = spec_plan_mount(
                    m.destination@,
                    m.typ.deep_view(),
                    m.options.deep_view(),
                    src_resolved@,
                    resolved_dest@,
                    rootfs@,
                    facts,
                );
                assert(ops.deep_view() =~= sp->Ok_0.0);
            }
            Ok(MountPlan { ops, mounts_dev: false, cgroup_skipped: false })
        }
    }
}

/// The race-free mount gate: a mount targets `/proc/self/fd/<n>` for a
/// descriptor opened on the destination, and the descriptor's path is
/// re-read first.  The mount may proceed exactly when the re-read path
/// still equals the resolved destination; anything else means the
/// destination was swapped underneath and is fatal.
pub fn procfd_check(real_path: &str, expected: &str) -> (r: Result<(), MountError>)
    ensures
        (r is Ok) <==> real_path@ == expected@,
        r matches Err(e) ==> e == MountError::DestinationMoved,
{
    if crate::paths::str_eq(real_path, expected) {
        Ok(())
    } else {
        Err(MountError::DestinationMoved)
    }
}

/// Mount configuration is idempotent with respect to directory
/// creation: planning a bind mount whose destination now exists as a
/// directory is never an error on that account.  With a directory
/// source the plan is identical to the first run (its only creation
/// step makes directories, which tolerates existing ones); with a file
/// source only the create-file step drops out, and planning succeeds
/// alike.
pub proof fn lemma_bind_replan_existing_dest(
    dest_spec: Seq<char>,
    typ: Option<Seq<char>>,
    opts: Option<Seq<Seq<char>>>,
    src: Seq<char>,
    resolved: Seq<char>,
    rootfs: Seq<char>,
    f1: MountFacts,
    f2: MountFacts,
)
    requires
        match opts {
            Option::Some(o) => spec_is_bind(o),
            Option::None => false,
        },
        f2.source_exists == f1.source_exists,
        f2.source_is_dir == f1.source_is_dir,
        f2.dest_exists,
        f2.dest_is_dir,
    ensures
        f1.source_is_dir ==> spec_plan_mount(dest_spec, typ, opts, src, resolved, rootfs, f1)
            == spec_plan_mount(dest_spec, typ, opts, src, resolved, rootfs, f2),
        (spec_plan_mount(dest_spec, typ, opts, src, resolved, rootfs, f1) is Ok) ==> (
        spec_plan_mount(dest_spec, typ, opts, src, resolved, rootfs, f2) is Ok),
{
}

/// Resolve a mount source against the bundle root: an absolute source
/// stands as it is, a relative one lies below the bundle root.
pub fn resolve_mount_source(source: &str, bundle_rootfs: &str) -> (r: String)
    ensures
        r@ == if source@.len() > 0 && source@[0] == '/' {
            source@
        } else {
            bundle_rootfs@ + seq!['/'] + source@
        },
{
    if crate::paths::is_absolute_path(source) {
        source.to_owned()
    } else {
        proof {
            reveal_strlit("/");
            assert("/"@ =~= seq!['/']);
        }
        let mut s = bundle_rootfs.to_owned();
        s.append("/");
        s.append(source);
        s
    }
}

/// Plan one mount of the specification against the live filesystem:
/// resolve its destination chroot-safely, ask the filesystem about
/// source and destination, and classify.  Every mount, remount and
/// propagation operation of a returned plan targets a path under the
/// container root, whatever the filesystem answered.
pub fn plan_one_mount(m: &crate::oci::Mount, rootfs: &str, bundle_rootfs: &str) -> (r: Result<
    MountPlan,
    MountError,
>)
    requires
        crate::paths::canonical_root(rootfs@),
    ensures
        (r == Err::<MountPlan, MountError>(MountError::MissingSource)) <==> m.source is None,
        (r == Err::<MountPlan, MountError>(MountError::MissingType)) <==> (m.source is Some
            && m.typ is None),
        (r == Err::<MountPlan, MountError>(MountError::UnsupportedOption)) <==> (m.source is Some
            && m.typ is Some && (match m.options.deep_view() {
            Option::Some(o) => spec_has_unsupported(o),
            Option::None => false,
        })),
        r matches Ok(plan) ==> forall|i: int|
            0 <= i < plan.ops.deep_view().len() ==> match #[trigger] plan.ops.deep_view()[i] {
                MountOpModel::Mount { dest, .. } => crate::paths::starts_with_root(dest, rootfs@),
                MountOpModel::Remount { dest, .. } => crate::paths::starts_with_root(dest, rootfs@),
                MountOpModel::SetPropagation { dest, .. } => crate::paths::starts_with_root(
                    dest,
                    rootfs@,
                ),
                _ => true,
            },
{
    let src_spec = match &m.source {
        Option::None => {
            return Err(MountError::MissingSource);
        },
        Option::Some(s) => s,
    };
    match &m.typ {
        Option::None => {
            return Err(MountError::MissingType);
        },
        Option::Some(_) => {},
    }
    match &m.options {
        Option::Some(opts) => {
            match parse_mount_options(opts) {
                Err(e) => {
                    return Err(e);
                },
                Ok(_) => {},
            }
        },
        Option::None => {},
    }
    let src = resolve_mount_source(src_spec.as_str(), bundle_rootfs);
    let resolved = match crate::rootfs::resolve_in_rootfs(m.destination.as_str(), rootfs) {
        Err(e) => {
            return Err(MountError::Resolution(e));
        },
        Ok(p) => p,
    };
    let facts = crate::rootfs::probe_mount_facts(src.as_str(), resolved.as_str());
    plan_mount(m, src.as_str(), resolved.as_str(), rootfs, facts)
}

} // verus!
