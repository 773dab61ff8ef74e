//! Chroot-safe path resolution.
//!
//! A destination path is resolved against a container root component by
//! component.  Every component that exists and is a symlink is expanded
//! with its target re-rooted at the container root, so that no chain of
//! symlinks, however adversarial, can make the result escape the root.
//! A bounded expansion counter rejects symlink loops.
//!
//! The walk consults the filesystem only through a probe: for a
//! candidate path, either it is missing, or present and no symlink, or
//! a symlink with a target.  `resolve_components_with` takes the probe
//! answers as an argument and equals the recursive model
//! [`resolve_model`] exactly; `resolve_in_rootfs` asks the real
//! filesystem and guarantees the same containment for whatever the
//! probes answer.

use vstd::prelude::*;

use crate::paths::{
    all_plain, canonical_root, clean_abs, is_absolute_path, is_special, join_under_base,
    lemma_clean_abs_plain, lemma_path_under_root_prefix, normalize_comps, path_under_root,
    root_base, split_on, starts_with_root, str_eq,
};

verus! {

/// Why a resolution failed: the symlink-expansion bound was exceeded,
/// or the filesystem could not be asked about a candidate path.
#[derive(Copy, Clone, Debug, PartialEq, Eq, Structural)]
pub enum ResolveError {
    TooManySymlinks,
    ProbeFailed,
}

/// What the filesystem says about one candidate path.
pub enum ProbeAns {
    /// Nothing exists there (or a dangling symlink: nothing to expand).
    Missing,
    /// Something exists and it is not a symlink.
    Present,
    /// A symlink; its target, already split into components, with its
    /// leading slash recorded separately.
    Symlink { absolute: bool, comps: Vec<String> },
}

/// The symlink-expansion bound: one more expansion than this many is a
/// resolution error.
pub const MAX_SYMLINK_EXPANSIONS: u32 = 255;

/// The resolution walk as a recursive function of the probe answers.
///
/// `resolved` holds the components accepted so far, `remaining` the
/// components still to walk, `n` the number of symlink expansions
/// performed.  Each probe consumes the front of `answers`; an exhausted
/// script answers `Missing`.  The result is the cleaned component
/// sequence under the root, or the expansion-bound error.
pub open spec fn resolve_model(
    resolved: Seq<Seq<char>>,
    remaining: Seq<Seq<char>>,
    n: nat,
    answers: Seq<ProbeAns>,
) -> Result<Seq<Seq<char>>, ResolveError>
    decreases 256 - n, remaining.len(),
{
    if remaining.len() == 0 {
        Ok(clean_abs(resolved))
    } else if n > MAX_SYMLINK_EXPANSIONS {
        Err(ResolveError::TooManySymlinks)
    } else {
        let c = remaining[0];
        let rest = remaining.skip(1);
        let cleaned = clean_abs(resolved.push(c));
        if cleaned.len() == 0 {
            resolve_model(Seq::empty(), rest, n, answers)
        } else {
            let ans = if answers.len() > 0 {
                answers[0]
            } else {
                ProbeAns::Missing
            };
            let anstail = if answers.len() > 0 {
                answers.skip(1)
            } else {
                answers
            };
            match ans {
                ProbeAns::Missing => resolve_model(resolved.push(c), rest, n, anstail),
                ProbeAns::Present => resolve_model(resolved.push(c), rest, n, anstail),
                ProbeAns::Symlink { absolute, comps } => resolve_model(
                    if absolute {
                        Seq::<Seq<char>>::empty()
                    } else {
                        resolved
                    },
                    comps.deep_view() + rest,
                    n + 1,
                    anstail,
                ),
            }
        }
    }
}

/// Join cleaned components under the root, the root itself when there
/// are none.
pub fn path_in_root(root: &str, cleaned: &Vec<String>) -> (r: String)
    ensures
        r@ == path_under_root(root@, cleaned.deep_view()),
{
    proof {
        reveal_strlit("/");
        assert("/"@ =~= seq!['/']);
    }
    if cleaned.len() == 0 {
        root.to_owned()
    } else if str_eq(root, "/") {
        let empty_base = String::new();
        proof {
            assert(root_base(root@) == empty_base@);
        }
        join_under_base(empty_base.as_str(), cleaned)
    } else {
        proof {
            assert(root_base(root@) == root@);
        }
        join_under_base(root, cleaned)
    }
}

/// Resolve `dest` under `root`, the filesystem's answers given as a
/// script: the walk of [`resolve_model`], executed.  Whatever the
/// answers, a returned path starts with the root.
#[verifier::loop_isolation(false)]
pub fn resolve_components_with(dest: Vec<String>, root: &str, answers: Vec<ProbeAns>) -> (r: Result<
    String,
    ResolveError,
>)
    requires
        canonical_root(root@),
    ensures
        ({
            let m = resolve_model(Seq::empty(), dest.deep_view(), 0, answers@);
            match (r, m) {
                (Ok(p), Ok(cs)) => p@ == path_under_root(root@, cs),
                (Err(e1), Err(e2)) => e1 == e2,
                _ => false,
            }
        }),
        r matches Ok(p) ==> starts_with_root(p@, root@),
        r matches Err(e) ==> e == ResolveError::TooManySymlinks,
{
    let ghost dest0 = dest.deep_view();
    let ghost ans0 = answers@;
    let mut resolved: Vec<String> = Vec::new();
    let mut remaining = dest;
    let mut answers = answers;
    let mut n: u32 = 0;
    proof {
        assert(resolved.deep_view() =~= Seq::<Seq<char>>::empty());
    }
    while remaining.len() > 0
        invariant
            n <= 256,
            resolve_model(Seq::empty(), dest0, 0, ans0) == resolve_model(
                resolved.deep_view(),
                remaining.deep_view(),
                n as nat,
                answers@,
            ),
        decreases 256 - n, remaining@.len(),
    {
        let ghost resolved_pre = resolved.deep_view();
        let ghost remaining_pre = remaining.deep_view();
        let ghost answers_pre = answers@;
        if n > MAX_SYMLINK_EXPANSIONS {
            proof {
                assert(resolve_model(
                    resolved.deep_view(),
                    remaining.deep_view(),
                    n as nat,
                    answers@,
                ) == Err::<Seq<Seq<char>>, ResolveError>(ResolveError::TooManySymlinks));
            }
            return Err(ResolveError::TooManySymlinks);
        }
        let c = remaining.remove(0);
        proof {
            assert(remaining.deep_view() =~= remaining_pre.skip(1));
        }
        resolved.push(c);
        proof {
            assert(resolved.deep_view() =~= resolved_pre.push(remaining_pre[0]));
        }
        let cleaned = crate::paths::clean_components(&resolved);
        if cleaned.len() == 0 {
            resolved = Vec::new();
            proof {
                assert(resolved.deep_view() =~= Seq::<Seq<char>>::empty());
            }
        } else {
            let ans = if answers.len() > 0 {
                let a = answers.remove(0);
                proof {
                    assert(answers@ =~= answers_pre.skip(1));
                }
                a
            } else {
                ProbeAns::Missing
            };
            match ans {
                ProbeAns::Missing => {},
                ProbeAns::Present => {},
                ProbeAns::Symlink { absolute, comps } => {
                    if absolute {
                        resolved = Vec::new();
                        proof {
                            assert(resolved.deep_view() =~= Seq::<Seq<char>>::empty());
                        }
                    } else {
                        let ghost before_pop = resolved.deep_view();
                        resolved.pop();
                        proof {
                            assert(resolved.deep_view() =~= before_pop.drop_last());
                            assert(before_pop.drop_last() =~= resolved_pre);
                        }
                    }
                    let ghost rem_mid = remaining.deep_view();
                    let mut nr = comps;
                    let ghost comps_dv = nr.deep_view();
                    nr.append(&mut remaining);
                    remaining = nr;
                    proof {
                        assert(remaining.deep_view() =~= comps_dv + rem_mid);
                    }
                    n = n + 1;
                },
            }
        }
    }
    let cleaned = crate::paths::clean_components(&resolved);
    let out = path_in_root(root, &cleaned);
    proof {
        lemma_clean_abs_plain(resolved.deep_view());
        lemma_path_under_root_prefix(root@, cleaned.deep_view());
    }
    Ok(out)
}

/// The file-mode mask that selects the file type.
pub const MODE_TYPE_MASK: u32 = 0o170000;

/// The file-type bits of a symbolic link.
pub const MODE_TYPE_SYMLINK: u32 = 0o120000;

/// Relies on nix::sys::stat::stat: the file mode of the path, symlinks
/// followed, or nothing when the path cannot be reached.
#[verifier::external_body]
fn stat_mode(path: &str) -> (r: Option<u32>) {
    match nix::sys::stat::stat(path) {
        Ok(st) => Some(st.st_mode),
        Err(_) => None,
    }
}

/// Relies on nix::sys::stat::lstat: the file mode of the path itself,
/// symlinks not followed, or nothing when the path cannot be reached.
#[verifier::external_body]
fn lstat_mode(path: &str) -> (r: Option<u32>) {
    match nix::sys::stat::lstat(path) {
        Ok(st) => Some(st.st_mode),
        Err(_) => None,
    }
}

/// Relies on nix::fcntl::readlink: the target of the symbolic link at
/// the path, or nothing when it cannot be read as a string.
#[verifier::external_body]
fn read_link_string(path: &str) -> (r: Option<String>) {
    match nix::fcntl::readlink(path) {
        Ok(t) => t.into_string().ok(),
        Err(_) => None,
    }
}

/// Ask the filesystem about one candidate path.  A reachable path whose
/// own entry is a symlink is expanded; one that vanishes between the
/// two questions, or whose target cannot be read, fails the probe.
fn probe_path(path: &str) -> (r: Result<ProbeAns, ResolveError>)
    ensures
        r matches Err(e) ==> e == ResolveError::ProbeFailed,
{
    match stat_mode(path) {
        None => Ok(ProbeAns::Missing),
        Some(_) => {
            match lstat_mode(path) {
                None => Err(ResolveError::ProbeFailed),
                Some(m) => {
                    if m & MODE_TYPE_MASK == MODE_TYPE_SYMLINK {
                        match read_link_string(path) {
                            None => Err(ResolveError::ProbeFailed),
                            Some(t) => {
                                let absolute = is_absolute_path(t.as_str());
                                let comps = normalize_comps(split_on(t.as_str(), '/'));
                                Ok(ProbeAns::Symlink { absolute, comps })
                            },
                        }
                    } else {
                        Ok(ProbeAns::Present)
                    }
                },
            }
        },
    }
}

/// Resolve `dest` under `root` against the real filesystem.  Whatever
/// the filesystem answers, a returned path starts with the root.
#[verifier::loop_isolation(false)]
pub fn resolve_components(dest: Vec<String>, root: &str) -> (r: Result<String, ResolveError>)
    requires
        canonical_root(root@),
    ensures
        r matches Ok(p) ==> starts_with_root(p@, root@),
        r matches Ok(p) ==> exists|cs: Seq<Seq<char>>|
            all_plain(cs) && p@ == path_under_root(root@, cs),
{
    proof {
        reveal_strlit("/");
        assert("/"@ =~= seq!['/']);
    }
    let base = if str_eq(root, "/") {
        String::new()
    } else {
        root.to_owned()
    };
    let mut resolved: Vec<String> = Vec::new();
    let mut remaining = dest;
    let mut n: u32 = 0;
    while remaining.len() > 0
        invariant
            n <= 256,
            base@ == root_base(root@),
        decreases 256 - n, remaining@.len(),
    {
        if n > MAX_SYMLINK_EXPANSIONS {
            return Err(ResolveError::TooManySymlinks);
        }
        let c = remaining.remove(0);
        resolved.push(c);
        let cleaned = crate::paths::clean_components(&resolved);
        if cleaned.len() == 0 {
            resolved = Vec::new();
        } else {
            let candidate = join_under_base(base.as_str(), &cleaned);
            let ans = match probe_path(candidate.as_str()) {
                Ok(a) => a,
                Err(e) => {
                    return Err(e);
                },
            };
            match ans {
                ProbeAns::Missing => {},
                ProbeAns::Present => {},
                ProbeAns::Symlink { absolute, comps } => {
                    if absolute {
                        resolved = Vec::new();
                    } else {
                        resolved.pop();
                    }
                    let mut nr = comps;
                    nr.append(&mut remaining);
                    remaining = nr;
                    n = n + 1;
                },
            }
        }
    }
    let cleaned = crate::paths::clean_components(&resolved);
    let out = path_in_root(root, &cleaned);
    proof {
        lemma_clean_abs_plain(resolved.deep_view());
        lemma_path_under_root_prefix(root@, cleaned.deep_view());
    }
    Ok(out)
}

/// Resolve a destination path under a container root, walking it
/// component by component and re-rooting every symlink target, so the
/// result can never escape the root.
pub fn resolve_in_rootfs(destination_rel: &str, rootfs: &str) -> (r: Result<String, ResolveError>)
    requires
        canonical_root(rootfs@),
    ensures
        r matches Ok(p) ==> starts_with_root(p@, rootfs@),
        r matches Ok(p) ==> exists|cs: Seq<Seq<char>>|
            all_plain(cs) && p@ == path_under_root(rootfs@, cs),
{
    let comps = normalize_comps(split_on(destination_rel, '/'));
    resolve_components(comps, rootfs)
}

/// The recursive propagation flags for the rootfs mount: the mode the
/// specification names, slave when it names none, always applied to
/// the whole subtree.  An unknown mode is refused.
pub fn rootfs_propagation_flags(mode: &Option<String>) -> (r: Result<
    u64,
    crate::mounts::MountError,
>)
    ensures
        r == (match mode {
            Option::None => Ok::<u64, crate::mounts::MountError>(
                crate::mounts::MS_SLAVE | crate::mounts::MS_REC,
            ),
            Option::Some(m) => if m@ == "shared"@ {
                Ok::<u64, crate::mounts::MountError>(crate::mounts::MS_SHARED | crate::mounts::MS_REC)
            } else if m@ == "slave"@ {
                Ok::<u64, crate::mounts::MountError>(crate::mounts::MS_SLAVE | crate::mounts::MS_REC)
            } else if m@ == "private"@ {
                Ok::<u64, crate::mounts::MountError>(
                    crate::mounts::MS_PRIVATE | crate::mounts::MS_REC,
                )
            } else if m@ == "unbindable"@ {
                Ok::<u64, crate::mounts::MountError>(
                    crate::mounts::MS_UNBINDABLE | crate::mounts::MS_REC,
                )
            } else {
                Err::<u64, crate::mounts::MountError>(
                    crate::mounts::MountError::UnknownPropagation,
                )
            },
        }),
{
    proof {
        reveal_strlit("shared");
        reveal_strlit("slave");
        reveal_strlit("private");
        reveal_strlit("unbindable");
    }
    match mode {
        Option::None => Ok(crate::mounts::MS_SLAVE | crate::mounts::MS_REC),
        Option::Some(m) => {
            let s = m.as_str();
            if str_eq(s, "shared") {
                Ok(crate::mounts::MS_SHARED | crate::mounts::MS_REC)
            } else if str_eq(s, "slave") {
                Ok(crate::mounts::MS_SLAVE | crate::mounts::MS_REC)
            } else if str_eq(s, "private") {
                Ok(crate::mounts::MS_PRIVATE | crate::mounts::MS_REC)
            } else if str_eq(s, "unbindable") {
                Ok(crate::mounts::MS_UNBINDABLE | crate::mounts::MS_REC)
            } else {
                Err(crate::mounts::MountError::UnknownPropagation)
            }
        },
    }
}

/// The flags of the rootfs self-bind that precedes the pivot: a
/// recursive bind.
pub fn rootfs_bind_flags() -> (r: u64)
    ensures
        r == crate::mounts::MS_BIND | crate::mounts::MS_REC,
{
    crate::mounts::MS_BIND | crate::mounts::MS_REC
}

/// The flags of the final read-only remount of `/`.
pub fn read_only_remount_flags() -> (r: u64)
    ensures
        r == crate::mounts::MS_BIND | crate::mounts::MS_REMOUNT | crate::mounts::MS_RDONLY,
{
    crate::mounts::MS_BIND | crate::mounts::MS_REMOUNT | crate::mounts::MS_RDONLY
}

/// When the read-only remount is refused, it is retried with the
/// filesystem's own flags folded in.
pub fn combine_remount_flags(base: u64, statvfs_flags: u64) -> (r: u64)
    ensures
        r == base | statvfs_flags,
{
    base | statvfs_flags
}

/// The file-type bits of a directory.
pub const MODE_TYPE_DIR: u32 = 0o040000;

/// Is the mode that of a directory?
pub fn mode_is_dir(m: u32) -> (r: bool)
    ensures
        r == (m & MODE_TYPE_MASK == MODE_TYPE_DIR),
{
    m & MODE_TYPE_MASK == MODE_TYPE_DIR
}

/// Does anything exist at the path (symlinks followed)?
pub(crate) fn path_exists(path: &str) -> (r: bool) {
    stat_mode(path).is_some()
}

/// Ask the filesystem what a mount's source and destination currently
/// are: whether each exists (symlinks followed) and is a directory.
/// Only something that exists can be a directory.
pub(crate) fn probe_mount_facts(src: &str, dest: &str) -> (r: crate::mounts::MountFacts)
    ensures
        r.source_is_dir ==> r.source_exists,
        r.dest_is_dir ==> r.dest_exists,
{
    let (source_exists, source_is_dir) = match stat_mode(src) {
        Option::Some(m) => (true, mode_is_dir(m)),
        Option::None => (false, false),
    };
    let (dest_exists, dest_is_dir) = match stat_mode(dest) {
        Option::Some(m) => (true, mode_is_dir(m)),
        Option::None => (false, false),
    };
    crate::mounts::MountFacts { source_exists, source_is_dir, dest_exists, dest_is_dir }
}

/// A probe answer that expands to a nonempty chain of ordinary
/// components: one more symlink indirection.
pub open spec fn plain_symlink_ans(a: ProbeAns) -> bool {
    match a {
        ProbeAns::Symlink { absolute, comps } => comps.deep_view().len() > 0 && all_plain(
            comps.deep_view(),
        ),
        _ => false,
    }
}

/// Pushing an ordinary component onto the walk never cleans to nothing.
proof fn lemma_clean_push_plain_nonempty(resolved: Seq<Seq<char>>, c: Seq<char>)
    requires
        !is_special(c),
    ensures
        clean_abs(resolved.push(c)).len() > 0,
{
    assert(resolved.push(c).drop_last() =~= resolved);
    assert(resolved.push(c).last() == c);
}

/// A walk fed nothing but symlink answers runs out of expansions: once
/// the script and the expansions already performed cover the bound, the
/// result is the expansion error, never a path.
pub proof fn lemma_symlink_chains_bounded(
    resolved: Seq<Seq<char>>,
    remaining: Seq<Seq<char>>,
    n: nat,
    answers: Seq<ProbeAns>,
)
    requires
        remaining.len() > 0,
        all_plain(remaining),
        forall|j: int| 0 <= j < answers.len() ==> plain_symlink_ans(#[trigger] answers[j]),
        answers.len() + n >= 256,
    ensures
        resolve_model(resolved, remaining, n, answers) == Err::<Seq<Seq<char>>, ResolveError>(
            ResolveError::TooManySymlinks,
        ),
    decreases 256 - n,
{
    if n > MAX_SYMLINK_EXPANSIONS {
    } else {
        let c = remaining[0];
        assert(!is_special(c));
        lemma_clean_push_plain_nonempty(resolved, c);
        assert(answers.len() > 0);
        assert(plain_symlink_ans(answers[0]));
        match answers[0] {
            ProbeAns::Symlink { absolute, comps } => {
                let rest = remaining.skip(1);
                let nremaining = comps.deep_view() + rest;
                assert(all_plain(nremaining)) by {
                    assert(forall|i: int|
                        0 <= i < nremaining.len() ==> #[trigger] nremaining[i] == if i < comps.deep_view().len() {
                            comps.deep_view()[i]
                        } else {
                            remaining[i - comps.deep_view().len() + 1]
                        });
                }
                let anstail = answers.skip(1);
                assert(forall|j: int|
                    0 <= j < anstail.len() ==> plain_symlink_ans(#[trigger] anstail[j]));
                lemma_symlink_chains_bounded(
                    if absolute {
                        Seq::<Seq<char>>::empty()
                    } else {
                        resolved
                    },
                    nremaining,
                    n + 1,
                    anstail,
                );
            },
            _ => {
                assert(false);
            },
        }
    }
}

/// More symlink indirections than the bound allows always fail with the
/// resolution error: a destination with at least one ordinary component,
/// walked against a script of 256 symlink expansions, is rejected.
pub proof fn lemma_resolution_depth_bounded(dest: Seq<Seq<char>>, answers: Seq<ProbeAns>)
    requires
        dest.len() > 0,
        all_plain(dest),
        forall|j: int| 0 <= j < answers.len() ==> plain_symlink_ans(#[trigger] answers[j]),
        answers.len() >= 256,
    ensures
        resolve_model(Seq::empty(), dest, 0, answers) == Err::<Seq<Seq<char>>, ResolveError>(
            ResolveError::TooManySymlinks,
        ),
{
    lemma_symlink_chains_bounded(Seq::empty(), dest, 0, answers);
}

} // verus!
