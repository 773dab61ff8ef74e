//! The device populator.
//!
//! A container gets a default set of character devices, merged with the
//! devices its specification declares; a declared device whose path
//! collides with a default replaces it.  Each device's destination is
//! resolved chroot-safely before any node is created.  `/dev/ptmx` is
//! never created as a node: a separate step symlinks it to `pts/ptmx`,
//! and further symlinks point `/dev/fd` and the standard streams into
//! `/proc/self`.

use vstd::prelude::*;

use crate::oci::{DeviceModel, DeviceType, LinuxDevice};

verus! {

/// The file-type bits of a character device node.
pub const NODE_KIND_CHAR: u32 = 0o020000;

/// The file-type bits of a block device node.
pub const NODE_KIND_BLOCK: u32 = 0o060000;

/// The file-type bits of a FIFO node.
pub const NODE_KIND_FIFO: u32 = 0o010000;

/// Why a device cannot be populated.
#[derive(Debug, PartialEq, Eq)]
pub enum DeviceError {
    /// The resolved destination does not lie under the container root.
    DestinationEscapes,
    /// The destination has no parent directory.
    NoParent,
    /// The catch-all device type is not supported.
    UnsupportedType,
    /// A negative major or minor number.
    InvalidId,
    /// Destination resolution failed.
    Resolution(crate::rootfs::ResolveError),
}

/// Does some entry carry this path?
pub open spec fn spec_has_path(ds: Seq<DeviceModel>, p: Seq<char>) -> bool {
    exists|i: int| 0 <= i < ds.len() && #[trigger] ds[i].path == p
}

/// Is this entry in the sequence?
pub open spec fn in_devs(ds: Seq<DeviceModel>, d: DeviceModel) -> bool {
    exists|i: int| 0 <= i < ds.len() && #[trigger] ds[i] == d
}

/// One merge step: keep the accumulator if the path is taken, append
/// otherwise.
pub open spec fn merge_step(acc: Seq<DeviceModel>, d: DeviceModel) -> Seq<DeviceModel> {
    if spec_has_path(acc, d.path) {
        acc
    } else {
        acc.push(d)
    }
}

/// Merge a device list into an accumulator, left to right, first entry
/// per path winning.
pub open spec fn merge_fold(acc: Seq<DeviceModel>, ds: Seq<DeviceModel>) -> Seq<DeviceModel>
    decreases ds.len(),
{
    if ds.len() == 0 {
        acc
    } else {
        merge_step(merge_fold(acc, ds.drop_last()), ds.last())
    }
}

/// The full merged device list: declared devices first, then the
/// defaults whose paths they left free.
pub open spec fn spec_merged_devices(spec_ds: Seq<DeviceModel>) -> Seq<DeviceModel> {
    merge_fold(merge_fold(Seq::empty(), spec_ds), spec_default_devices())
}

/// One default device entry: a character device owned by root with
/// mode `0666`.
pub open spec fn spec_default_device(path: Seq<char>, major: i64, minor: i64) -> DeviceModel {
    DeviceModel {
        path,
        typ: DeviceType::C,
        major,
        minor,
        file_mode: Option::Some(0o666u32),
        uid: Option::Some(0u32),
        gid: Option::Some(0u32),
    }
}

/// The default device set: null, zero, full, random, urandom, tty.
pub open spec fn spec_default_devices() -> Seq<DeviceModel> {
    seq![
        spec_default_device("/dev/null"@, 1, 3),
        spec_default_device("/dev/zero"@, 1, 5),
        spec_default_device("/dev/full"@, 1, 7),
        spec_default_device("/dev/random"@, 1, 8),
        spec_default_device("/dev/urandom"@, 1, 9),
        spec_default_device("/dev/tty"@, 5, 0),
    ]
}

/// Build one default device entry.
fn default_device(path: &str, major: i64, minor: i64) -> (r: LinuxDevice)
    ensures
        r.deep_view() == spec_default_device(path@, major, minor),
{
    LinuxDevice {
        path: path.to_owned(),
        typ: DeviceType::C,
        major,
        minor,
        file_mode: Option::Some(0o666u32),
        uid: Option::Some(0u32),
        gid: Option::Some(0u32),
    }
}

/// The default device set, built.
pub fn default_devices() -> (r: Vec<LinuxDevice>)
    ensures
        r.deep_view() == spec_default_devices(),
{
    let mut v: Vec<LinuxDevice> = Vec::new();
    v.push(default_device("/dev/null", 1, 3));
    v.push(default_device("/dev/zero", 1, 5));
    v.push(default_device("/dev/full", 1, 7));
    v.push(default_device("/dev/random", 1, 8));
    v.push(default_device("/dev/urandom", 1, 9));
    v.push(default_device("/dev/tty", 5, 0));
    proof {
        assert(v.deep_view() =~= spec_default_devices());
    }
    v
}

/// Does some entry of the built list carry this path?
fn has_path(ds: &Vec<LinuxDevice>, p: &str) -> (r: bool)
    ensures
        r == spec_has_path(ds.deep_view(), p@),
{
    let ghost dv = ds.deep_view();
    let mut i: usize = 0;
    while i < ds.len()
        invariant
            i <= dv.len(),
            dv == ds.deep_view(),
            dv.len() == ds@.len(),
            forall|j: int| 0 <= j < i ==> #[trigger] dv[j].path != p@,
        decreases dv.len() - i,
    {
        if crate::paths::str_eq(ds[i].path.as_str(), p) {
            proof {
                assert(dv[i as int].path == p@);
            }
            return true;
        }
        i += 1;
    }
    false
}

/// Merge the declared devices with the default set.  Declared entries
/// come first and win every path collision; defaults fill in the rest.
/// No path occurs twice in the result.
pub fn merge_devices(spec_devices: &Option<Vec<LinuxDevice>>) -> (r: Vec<LinuxDevice>)
    ensures
        r.deep_view() == merge_fold(
            merge_fold(
                Seq::empty(),
                match spec_devices {
                    Option::Some(ds) => ds.deep_view(),
                    Option::None => Seq::empty(),
                },
            ),
            spec_default_devices(),
        ),
{
    let mut out: Vec<LinuxDevice> = Vec::new();
    proof {
        assert(out.deep_view() =~= Seq::<DeviceModel>::empty());
    }
    match spec_devices {
        Option::Some(ds) => {
            let ghost dv = ds.deep_view();
            let mut i: usize = 0;
            while i < ds.len()
                invariant
                    i <= dv.len(),
                    dv == ds.deep_view(),
                    dv.len() == ds@.len(),
                    out.deep_view() == merge_fold(Seq::empty(), dv.take(i as int)),
                decreases dv.len() - i,
            {
                proof {
                    assert(dv.take(i as int + 1).drop_last() =~= dv.take(i as int));
                    assert(dv.take(i as int + 1).last() == dv[i as int]);
                }
                if !has_path(&out, ds[i].path.as_str()) {
                    let ghost odv = out.deep_view();
                    out.push(ds[i].clone());
                    proof {
                        assert(out.deep_view() =~= odv.push(dv[i as int]));
                    }
                }
                i += 1;
            }
            proof {
                assert(dv.take(dv.len() as int) =~= dv);
            }
        },
        Option::None => {},
    }
    let defaults = default_devices();
    let ghost fv = defaults.deep_view();
    let ghost acc0 = out.deep_view();
    let mut i: usize = 0;
    while i < defaults.len()
        invariant
            i <= fv.len(),
            fv == defaults.deep_view(),
            fv.len() == defaults@.len(),
            out.deep_view() == merge_fold(acc0, fv.take(i as int)),
        decreases fv.len() - i,
    {
        proof {
            assert(fv.take(i as int + 1).drop_last() =~= fv.take(i as int));
            assert(fv.take(i as int + 1).last() == fv[i as int]);
        }
        if !has_path(&out, defaults[i].path.as_str()) {
            let ghost odv = out.deep_view();
            out.push(defaults[i].clone());
            proof {
                assert(out.deep_view() =~= odv.push(fv[i as int]));
            }
        }
        i += 1;
    }
    proof {
        assert(fv.take(fv.len() as int) =~= fv);
    }
    out
}

/// What one merge pass guarantees: the accumulator survives unchanged
/// in front; everything appended comes from the merged list and carries
/// a path the accumulator did not have; a path is present afterwards
/// exactly when either side had it.
pub proof fn lemma_merge_fold(acc: Seq<DeviceModel>, ds: Seq<DeviceModel>)
    ensures
        merge_fold(acc, ds).len() >= acc.len(),
        forall|k: int| 0 <= k < acc.len() ==> #[trigger] merge_fold(acc, ds)[k] == acc[k],
        forall|k: int|
            acc.len() <= k < merge_fold(acc, ds).len() ==> in_devs(
                ds,
                #[trigger] merge_fold(acc, ds)[k],
            ) && !spec_has_path(acc, merge_fold(acc, ds)[k].path),
        forall|p: Seq<char>|
            #![trigger spec_has_path(merge_fold(acc, ds), p)]
            spec_has_path(merge_fold(acc, ds), p) == (spec_has_path(acc, p) || spec_has_path(
                ds,
                p,
            )),
    decreases ds.len(),
{
    if ds.len() == 0 {
        assert forall|p: Seq<char>| spec_has_path(merge_fold(acc, ds), p) implies spec_has_path(
            acc,
            p,
        ) || spec_has_path(ds, p) by {}
    } else {
        lemma_merge_fold(acc, ds.drop_last());
        let prev = merge_fold(acc, ds.drop_last());
        let d = ds.last();
        let m = merge_step(prev, d);
        assert(forall|k: int|
            0 <= k < ds.drop_last().len() ==> #[trigger] ds.drop_last()[k] == ds[k]);
        assert forall|k: int|
            acc.len() <= k < m.len() implies in_devs(ds, #[trigger] m[k]) && !spec_has_path(
            acc,
            m[k].path,
        ) by {
            if k < prev.len() {
                assert(m[k] == prev[k]);
                if acc.len() <= k {
                    assert(in_devs(ds.drop_last(), prev[k]));
                    let i = choose|i: int|
                        0 <= i < ds.drop_last().len() && #[trigger] ds.drop_last()[i] == prev[k];
                    assert(ds[i] == prev[k]);
                }
            } else {
                assert(m[k] == d);
                assert(ds[ds.len() - 1] == d);
            }
        }
        assert forall|p: Seq<char>|
            #![trigger spec_has_path(m, p)]
            spec_has_path(m, p) == (spec_has_path(acc, p) || spec_has_path(ds, p)) by {
            if spec_has_path(m, p) {
                let k = choose|k: int| 0 <= k < m.len() && #[trigger] m[k].path == p;
                if k < prev.len() {
                    assert(spec_has_path(prev, p));
                    if !spec_has_path(acc, p) {
                        assert(spec_has_path(ds.drop_last(), p));
                        let i = choose|i: int|
                            0 <= i < ds.drop_last().len() && #[trigger] ds.drop_last()[i].path
                                == p;
                        assert(ds[i].path == p);
                    }
                } else {
                    assert(m[k] == d);
                    assert(ds[ds.len() - 1].path == p);
                }
            }
            if spec_has_path(acc, p) || spec_has_path(ds, p) {
                if spec_has_path(acc, p) {
                    assert(spec_has_path(prev, p));
                    let k = choose|k: int| 0 <= k < prev.len() && #[trigger] prev[k].path == p;
                    assert(m[k].path == p);
                } else {
                    let i = choose|i: int| 0 <= i < ds.len() && #[trigger] ds[i].path == p;
                    if i < ds.len() - 1 {
                        assert(ds.drop_last()[i].path == p);
                        assert(spec_has_path(prev, p));
                        let k = choose|k: int| 0 <= k < prev.len() && #[trigger] prev[k].path == p;
                        assert(m[k].path == p);
                    } else {
                        if spec_has_path(prev, d.path) {
                            let k = choose|k: int|
                                0 <= k < prev.len() && #[trigger] prev[k].path == d.path;
                            assert(m[k].path == p);
                        } else {
                            assert(m[m.len() - 1].path == p);
                        }
                    }
                }
            }
        }
    }
}

/// A declared device wins every path collision: in the merged list,
/// whatever was appended from the default set carries a path the
/// declared devices did not use, so a declared path is never served by
/// a default entry.
pub proof fn lemma_declared_device_wins(spec_ds: Seq<DeviceModel>)
    ensures
        forall|k: int|
            0 <= k < spec_merged_devices(spec_ds).len() ==> in_devs(
                spec_ds,
                #[trigger] spec_merged_devices(spec_ds)[k],
            ) || (in_devs(spec_default_devices(), spec_merged_devices(spec_ds)[k])
                && !spec_has_path(spec_ds, spec_merged_devices(spec_ds)[k].path)),
{
    let acc = merge_fold(Seq::<DeviceModel>::empty(), spec_ds);
    let m = merge_fold(acc, spec_default_devices());
    lemma_merge_fold(Seq::<DeviceModel>::empty(), spec_ds);
    lemma_merge_fold(acc, spec_default_devices());
    assert forall|k: int| 0 <= k < m.len() implies in_devs(spec_ds, #[trigger] m[k]) || (in_devs(
        spec_default_devices(),
        m[k],
    ) && !spec_has_path(spec_ds, m[k].path)) by {
        if k < acc.len() {
            assert(m[k] == acc[k]);
            assert(in_devs(spec_ds, acc[k]));
        } else {
            assert(!spec_has_path(acc, m[k].path));
            if spec_has_path(spec_ds, m[k].path) {
                assert(spec_has_path(acc, m[k].path));
            }
        }
    }
}

/// One privileged operation of a device plan.
#[derive(Debug)]
pub enum DeviceOp {
    /// Create the directory and its parents.
    CreateDirAll { path: String },
    /// Create the device node.
    Mknod { path: String, kind: u32, mode: u32, major: u64, minor: u64 },
    /// Assign ownership.
    Chown { path: String, uid: Option<u32>, gid: Option<u32> },
}

/// The mathematical form of a device operation.
pub enum DeviceOpModel {
    CreateDirAll { path: Seq<char> },
    Mknod { path: Seq<char>, kind: u32, mode: u32, major: u64, minor: u64 },
    Chown { path: Seq<char>, uid: Option<u32>, gid: Option<u32> },
}

impl DeepView for DeviceOp {
    type V = DeviceOpModel;

    open spec fn deep_view(&self) -> DeviceOpModel {
        match self {
            DeviceOp::CreateDirAll { path } => DeviceOpModel::CreateDirAll { path: path@ },
            DeviceOp::Mknod { path, kind, mode, major, minor } => DeviceOpModel::Mknod {
                path: path@,
                kind: *kind,
                mode: *mode,
                major: *major,
                minor: *minor,
            },
            DeviceOp::Chown { path, uid, gid } => DeviceOpModel::Chown {
                path: path@,
                uid: *uid,
                gid: *gid,
            },
        }
    }
}

/// The node-type bits of a device kind; the catch-all kind has none.
pub open spec fn spec_node_kind(t: DeviceType) -> Option<u32> {
    match t {
        DeviceType::C => Option::Some(NODE_KIND_CHAR),
        DeviceType::U => Option::Some(NODE_KIND_CHAR),
        DeviceType::B => Option::Some(NODE_KIND_BLOCK),
        DeviceType::P => Option::Some(NODE_KIND_FIFO),
        DeviceType::A => Option::None,
    }
}

/// The plan for one device node at its resolved destination.
pub open spec fn spec_plan_device(dev: DeviceModel, resolved: Seq<char>, rootfs: Seq<char>) -> Result<
    Seq<DeviceOpModel>,
    DeviceError,
> {
    if !crate::paths::starts_with_root(resolved, rootfs) {
        Err(DeviceError::DestinationEscapes)
    } else {
        match crate::paths::parent_path_spec(resolved) {
            Option::None => Err(DeviceError::NoParent),
            Option::Some(par) => match spec_node_kind(dev.typ) {
                Option::None => Err(DeviceError::UnsupportedType),
                Option::Some(kind) => if dev.major < 0 || dev.minor < 0 {
                    Err(DeviceError::InvalidId)
                } else {
                    Ok(
                        seq![
                            DeviceOpModel::CreateDirAll { path: par },
                            DeviceOpModel::Mknod {
                                path: resolved,
                                kind,
                                mode: match dev.file_mode {
                                    Option::Some(m) => m,
                                    Option::None => 0o666u32,
                                },
                                major: dev.major as u64,
                                minor: dev.minor as u64,
                            },
                            DeviceOpModel::Chown { path: resolved, uid: dev.uid, gid: dev.gid },
                        ],
                    )
                },
            },
        }
    }
}

/// Is this device left to the ptmx symlink step instead of node
/// creation?
pub fn device_skipped(dev: &LinuxDevice) -> (r: bool)
    ensures
        r == crate::paths::path_prefix("/dev/ptmx"@, dev.path@),
{
    crate::paths::is_path_prefix("/dev/ptmx", dev.path.as_str())
}

/// Plan one device node: parent directories, the node itself with its
/// kind, mode and device numbers, and ownership.
pub fn plan_device(dev: &LinuxDevice, resolved: &str, rootfs: &str) -> (r: Result<
    Vec<DeviceOp>,
    DeviceError,
>)
    ensures
        ({
            let sp = spec_plan_device(dev.deep_view(), resolved@, rootfs@);
            match (r, sp) {
                (Ok(ops), Ok(s)) => ops.deep_view() == s,
                (Err(e1), Err(e2)) => e1 == e2,
                _ => false,
            }
        }),
{
    if !crate::paths::check_starts_with_root(resolved, rootfs) {
        return Err(DeviceError::DestinationEscapes);
    }
    let par = match crate::paths::parent_path(resolved) {
        Option::None => {
            return Err(DeviceError::NoParent);
        },
        Option::Some(p) => p,
    };
    let kind = match dev.typ {
        DeviceType::C => NODE_KIND_CHAR,
        DeviceType::U => NODE_KIND_CHAR,
        DeviceType::B => NODE_KIND_BLOCK,
        DeviceType::P => NODE_KIND_FIFO,
        DeviceType::A => {
            return Err(DeviceError::UnsupportedType);
        },
    };
    if dev.major < 0 || dev.minor < 0 {
        return Err(DeviceError::InvalidId);
    }
    let mode = match dev.file_mode {
        Option::Some(m) => m,
        Option::None => 0o666u32,
    };
    let mut ops: Vec<DeviceOp> = Vec::new();
    ops.push(DeviceOp::CreateDirAll { path: par });
    ops.push(
        DeviceOp::Mknod {
            path: resolved.to_owned(),
            kind,
            mode,
            major: dev.major as u64,
            minor: dev.minor as u64,
        },
    );
    ops.push(DeviceOp::Chown { path: resolved.to_owned(), uid: dev.uid, gid: dev.gid });
    proof {
        let sp = spec_plan_device(dev.deep_view(), resolved@, rootfs@);
        assert(ops.deep_view() =~= sp->Ok_0);
    }
    Ok(ops)
}

/// The devices the populator creates nodes for: the merged list with
/// every ptmx-pathed entry removed, in merge order.  Those entries are
/// handled by the separate ptmx symlink step alone.
pub open spec fn kept_devices(ds: Seq<DeviceModel>) -> Seq<DeviceModel>
    decreases ds.len(),
{
    if ds.len() == 0 {
        Seq::empty()
    } else if crate::paths::path_prefix("/dev/ptmx"@, ds.last().path) {
        kept_devices(ds.drop_last())
    } else {
        kept_devices(ds.drop_last()).push(ds.last())
    }
}

/// `ops` is exactly one device's plan — parent directories, the node
/// with the device's kind, mode, major and minor, and ownership — at
/// some destination contained under the root.
pub open spec fn device_ops_for(d: DeviceModel, ops: Seq<DeviceOpModel>, rootfs: Seq<char>) -> bool {
    exists|resolved: Seq<char>|
        #![trigger spec_plan_device(d, resolved, rootfs)]
        crate::paths::starts_with_root(resolved, rootfs) && spec_plan_device(d, resolved, rootfs)
            == Ok::<Seq<DeviceOpModel>, DeviceError>(ops)
}

/// Plan the whole device population against the live filesystem: merge
/// declared devices over the defaults, skip `/dev/ptmx`, resolve each
/// destination chroot-safely and plan its node.  On success the plan
/// holds exactly three operations for every merged device outside
/// `/dev/ptmx`, in merge order, each triple that device's own plan —
/// so a ptmx-pathed device yields no operation, and a container with
/// no declared devices still gets every default node.  Every created
/// node lies under the container root, whatever the filesystem
/// answered.
pub fn plan_devices(spec_devices: &Option<Vec<LinuxDevice>>, rootfs: &str) -> (r: Result<
    Vec<DeviceOp>,
    DeviceError,
>)
    requires
        crate::paths::canonical_root(rootfs@),
    ensures
        r matches Ok(ops) ==> {
            let kept = kept_devices(
                spec_merged_devices(
                    match spec_devices {
                        Option::Some(ds) => ds.deep_view(),
                        Option::None => Seq::empty(),
                    },
                ),
            );
            &&& ops.deep_view().len() == 3 * kept.len()
            &&& forall|k: int|
                0 <= k < kept.len() ==> device_ops_for(
                    #[trigger] kept[k],
                    ops.deep_view().subrange(3 * k, 3 * k + 3),
                    rootfs@,
                )
        },
        r matches Ok(ops) ==> forall|i: int|
            0 <= i < ops.deep_view().len() ==> match #[trigger] ops.deep_view()[i] {
                DeviceOpModel::Mknod { path, .. } => crate::paths::starts_with_root(path, rootfs@),
                DeviceOpModel::Chown { path, .. } => crate::paths::starts_with_root(path, rootfs@),
                _ => true,
            },
{
    let ghost sdv: Seq<DeviceModel> = match spec_devices {
        Option::Some(ds) => ds.deep_view(),
        Option::None => Seq::empty(),
    };
    let all = merge_devices(spec_devices);
    let ghost adv = all.deep_view();
    proof {
        assert(adv == spec_merged_devices(sdv));
    }
    let mut out: Vec<DeviceOp> = Vec::new();
    let mut i: usize = 0;
    proof {
        assert(adv.take(0) =~= Seq::<DeviceModel>::empty());
    }
    #[verifier::loop_isolation(false)]
    while i < all.len()
        invariant
            i <= adv.len(),
            out.deep_view().len() == 3 * kept_devices(adv.take(i as int)).len(),
            forall|k: int|
                0 <= k < kept_devices(adv.take(i as int)).len() ==> device_ops_for(
                    #[trigger] kept_devices(adv.take(i as int))[k],
                    out.deep_view().subrange(3 * k, 3 * k + 3),
                    rootfs@,
                ),
            forall|k: int|
                0 <= k < out.deep_view().len() ==> match #[trigger] out.deep_view()[k] {
                    DeviceOpModel::Mknod { path, .. } => crate::paths::starts_with_root(
                        path,
                        rootfs@,
                    ),
                    DeviceOpModel::Chown { path, .. } => crate::paths::starts_with_root(
                        path,
                        rootfs@,
                    ),
                    _ => true,
                },
        decreases adv.len() - i,
    {
        proof {
            assert(adv.take(i as int + 1).drop_last() =~= adv.take(i as int));
            assert(adv.take(i as int + 1).last() == adv[i as int]);
        }
        let ghost kept_pre = kept_devices(adv.take(i as int));
        let dev = &all[i];
        if !device_skipped(dev) {
            let resolved = match crate::rootfs::resolve_in_rootfs(dev.path.as_str(), rootfs) {
                Err(e) => {
                    return Err(DeviceError::Resolution(e));
                },
                Ok(p) => p,
            };
            let ops = match plan_device(dev, resolved.as_str(), rootfs) {
                Err(e) => {
                    return Err(e);
                },
                Ok(o) => o,
            };
            let ghost outdv = out.deep_view();
            let ghost opsdv = ops.deep_view();
            let mut ops = ops;
            out.append(&mut ops);
            proof {
                assert(out.deep_view() =~= outdv + opsdv);
                let s = spec_plan_device(adv[i as int], resolved@, rootfs@)->Ok_0;
                assert(opsdv == s);
                assert(s.len() == 3);
                let kept_post = kept_devices(adv.take(i as int + 1));
                assert(kept_post =~= kept_pre.push(adv[i as int]));
                assert forall|k: int|
                    0 <= k < kept_post.len() implies device_ops_for(
                    #[trigger] kept_post[k],
                    out.deep_view().subrange(3 * k, 3 * k + 3),
                    rootfs@,
                ) by {
                    if k < kept_pre.len() {
                        assert(kept_post[k] == kept_pre[k]);
                        assert(out.deep_view().subrange(3 * k, 3 * k + 3) =~= outdv.subrange(
                            3 * k,
                            3 * k + 3,
                        ));
                    } else {
                        assert(kept_post[k] == adv[i as int]);
                        assert(out.deep_view().subrange(3 * k, 3 * k + 3) =~= s);
                        assert(spec_plan_device(adv[i as int], resolved@, rootfs@) == Ok::<
                            Seq<DeviceOpModel>,
                            DeviceError,
                        >(out.deep_view().subrange(3 * k, 3 * k + 3)));
                    }
                }
            }
        } else {
            proof {
                assert(kept_devices(adv.take(i as int + 1)) == kept_pre);
            }
        }
        i += 1;
    }
    proof {
        assert(adv.take(adv.len() as int) =~= adv);
    }
    Ok(out)
}

/// One symbolic link to create.
#[derive(Debug)]
pub struct SymlinkOp {
    pub target: String,
    pub link: String,
}

/// `/dev/ptmx` inside the container is a symlink to `pts/ptmx`.
pub fn ptmx_symlink(rootfs: &str) -> (r: SymlinkOp)
    requires
        crate::paths::canonical_root(rootfs@),
    ensures
        r.target@ == "pts/ptmx"@,
        r.link@ == crate::paths::path_under_root(rootfs@, seq!["dev"@, "ptmx"@]),
{
    let mut v: Vec<String> = Vec::new();
    v.push(String::from_str("dev"));
    v.push(String::from_str("ptmx"));
    proof {
        assert(v.deep_view() =~= seq!["dev"@, "ptmx"@]);
    }
    SymlinkOp { target: String::from_str("pts/ptmx"), link: crate::rootfs::path_in_root(rootfs, &v) }
}

/// The `/dev` symlinks into `/proc/self`: the descriptor directory and
/// the three standard streams.
pub fn dev_symlinks(rootfs: &str) -> (r: Vec<SymlinkOp>)
    requires
        crate::paths::canonical_root(rootfs@),
    ensures
        r@.len() == 4,
        r@[0].target@ == "/proc/self/fd"@ && r@[0].link@ == crate::paths::path_under_root(
            rootfs@,
            seq!["dev"@, "fd"@],
        ),
        r@[1].target@ == "/proc/self/fd/0"@ && r@[1].link@ == crate::paths::path_under_root(
            rootfs@,
            seq!["dev"@, "stdin"@],
        ),
        r@[2].target@ == "/proc/self/fd/1"@ && r@[2].link@ == crate::paths::path_under_root(
            rootfs@,
            seq!["dev"@, "stdout"@],
        ),
        r@[3].target@ == "/proc/self/fd/2"@ && r@[3].link@ == crate::paths::path_under_root(
            rootfs@,
            seq!["dev"@, "stderr"@],
        ),
{
    let mut out: Vec<SymlinkOp> = Vec::new();
    out.push(dev_symlink_to(rootfs, "/proc/self/fd", "fd"));
    out.push(dev_symlink_to(rootfs, "/proc/self/fd/0", "stdin"));
    out.push(dev_symlink_to(rootfs, "/proc/self/fd/1", "stdout"));
    out.push(dev_symlink_to(rootfs, "/proc/self/fd/2", "stderr"));
    out
}

/// One symlink below the container's `/dev`.
fn dev_symlink_to(rootfs: &str, target: &str, name: &str) -> (r: SymlinkOp)
    requires
        crate::paths::canonical_root(rootfs@),
    ensures
        r.target@ == target@,
        r.link@ == crate::paths::path_under_root(rootfs@, seq!["dev"@, name@]),
{
    let mut v: Vec<String> = Vec::new();
    v.push(String::from_str("dev"));
    v.push(name.to_owned());
    proof {
        assert(v.deep_view() =~= seq!["dev"@, name@]);
    }
    SymlinkOp { target: target.to_owned(), link: crate::rootfs::path_in_root(rootfs, &v) }
}

/// Does a found device match the expected device numbers exactly?  A
/// pre-existing node is tolerated only on an exact match.
pub fn device_id_matches(found_major: u64, found_minor: u64, major_exp: u64, minor_exp: u64) -> (r:
    bool)
    ensures
        r == (found_major == major_exp && found_minor == minor_exp),
{
    found_major == major_exp && found_minor == minor_exp
}

/// The tun device the VM-boot mode declares: `/dev/net/tun`, a
/// character device `10/200` with mode `0755`, owned by the container
/// process's user.
pub fn tun_device(uid: u32, gid: u32) -> (r: LinuxDevice)
    ensures
        r.path@ == "/dev/net/tun"@,
        r.typ == DeviceType::C,
        r.major == 10 && r.minor == 200,
        r.file_mode == Option::Some(0o755u32),
        r.uid == Option::Some(uid) && r.gid == Option::Some(gid),
{
    LinuxDevice {
        path: String::from_str("/dev/net/tun"),
        typ: DeviceType::C,
        major: 10,
        minor: 200,
        file_mode: Option::Some(0o755u32),
        uid: Option::Some(uid),
        gid: Option::Some(gid),
    }
}

} // verus!
