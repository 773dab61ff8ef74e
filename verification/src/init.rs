//! The init process's decisions.
//!
//! The init side of container creation runs in two stages: the first
//! joins and unshares namespaces and clones again into the new PID
//! namespace; the second, as container PID 1, populates the root
//! filesystem, rendezvouses with the orchestrator for the pre-start
//! hooks, pivots into the new root and waits at the exec gate.  The
//! stages perform irreversible OS work; every choice that work depends
//! on is computed here.

use vstd::prelude::*;

use crate::flags::LinuxNamespace;
use crate::paths::{parent_path, parent_path_spec};

verus! {

/// The two stages of the init sequence.  The first runs in the cloned
/// init process; the second in its child, inside the new PID
/// namespace.  The cgroup namespace is deliberately not unshared in
/// the first stage: that happens in the second, once the process
/// already stands in the new PID namespace (see
/// [`crate::flags::parent_unshare_flags`] and
/// [`crate::flags::child_unshares_cgroup`]).
#[derive(Copy, Clone, Debug, PartialEq, Eq, Structural)]
pub enum InitStage {
    Parent,
    Child,
}

/// The first index holding an equals sign, if any.
pub open spec fn first_eq(s: Seq<char>) -> Option<int>
    decreases s.len(),
{
    if s.len() == 0 {
        Option::None
    } else if s[0] == '=' {
        Option::Some(0)
    } else {
        match first_eq(s.skip(1)) {
            Option::None => Option::None,
            Option::Some(j) => Option::Some(j + 1),
        }
    }
}

/// Split a declared environment entry at its first equals sign into
/// name and value.  An entry without one is malformed.
pub fn split_env_var(s: &str) -> (r: Option<(String, String)>)
    ensures
        match (r, first_eq(s@)) {
            (Option::Some(nv), Option::Some(j)) => nv.0@ == s@.take(j) && nv.1@ == s@.skip(j + 1),
            (Option::None, Option::None) => true,
            _ => false,
        },
{
    let n = s.unicode_len();
    let mut i: usize = 0;
    proof {
        assert(s@.skip(0) =~= s@);
    }
    while i < n
        invariant
            i <= n,
            n == s@.len(),
            forall|k: int| 0 <= k < i ==> s@[k] != '=',
            first_eq(s@) == match first_eq(s@.skip(i as int)) {
                Option::None => Option::None::<int>,
                Option::Some(j) => Option::Some(j + i),
            },
        decreases n - i,
    {
        if s.get_char(i) == '=' {
            proof {
                assert(s@.skip(i as int).len() > 0);
                assert(s@.skip(i as int)[0] == '=');
                assert(first_eq(s@) == Option::Some(i as int));
                assert(s@.subrange(0, i as int) == s@.take(i as int));
                assert(s@.subrange(i as int + 1, n as int) =~= s@.skip(i as int + 1));
            }
            let name = s.substring_char(0, i).to_owned();
            let value = s.substring_char(i + 1, n).to_owned();
            return Option::Some((name, value));
        }
        proof {
            assert(s@.skip(i as int).len() > 0);
            assert(s@.skip(i as int)[0] == s@[i as int]);
            assert(s@.skip(i as int).skip(1) =~= s@.skip(i as int + 1));
        }
        i += 1;
    }
    proof {
        assert(s@.skip(n as int) =~= Seq::<char>::empty());
    }
    Option::None
}

/// Is the environment entry applied?  Only entries with a nonempty
/// name are set.
pub fn env_entry_applies(name: &String) -> (r: bool)
    ensures
        r == (name@.len() > 0),
{
    name.as_str().unicode_len() > 0
}

/// Which network setup the namespace list implies for the second
/// stage: loopback is brought up exactly when a fresh network
/// namespace was requested (no path, or an empty one), and an external
/// network namespace path is remembered.  The last entry of each kind
/// wins, as the list is scanned in order.
pub struct NetworkDecision {
    pub setup_loopback: bool,
    pub external_namespace: Option<String>,
}

/// The external network namespace path the list names, the last one
/// winning.
pub open spec fn spec_external_ns(nss: Seq<LinuxNamespace>) -> Option<Seq<char>>
    decreases nss.len(),
{
    if nss.len() == 0 {
        Option::None
    } else if nss.last().typ == crate::flags::NamespaceType::Network && nss.last().path is Some
        && nss.last().path->0@.len() > 0 {
        Option::Some(nss.last().path->0@)
    } else {
        spec_external_ns(nss.drop_last())
    }
}

/// Scan the namespace list for the network namespace decision.
pub fn network_decision(namespaces: &Vec<LinuxNamespace>) -> (r: NetworkDecision)
    ensures
        r.setup_loopback == (exists|i: int|
            0 <= i < namespaces@.len() && #[trigger] namespaces@[i].typ
                == crate::flags::NamespaceType::Network && (namespaces@[i].path is None
                || namespaces@[i].path->0@.len() == 0)),
        match (r.external_namespace, spec_external_ns(namespaces@)) {
            (Option::Some(a), Option::Some(b)) => a@ == b,
            (Option::None, Option::None) => true,
            _ => false,
        },
{
    let mut setup_loopback = false;
    let mut external_namespace: Option<String> = Option::None;
    let mut i: usize = 0;
    #[verifier::loop_isolation(false)]
    while i < namespaces.len()
        invariant
            i <= namespaces@.len(),
            setup_loopback == (exists|k: int|
                0 <= k < i && #[trigger] namespaces@[k].typ == crate::flags::NamespaceType::Network
                    && (namespaces@[k].path is None || namespaces@[k].path->0@.len() == 0)),
            match (external_namespace, spec_external_ns(namespaces@.take(i as int))) {
                (Option::Some(a), Option::Some(b)) => a@ == b,
                (Option::None, Option::None) => true,
                _ => false,
            },
        decreases namespaces@.len() - i,
    {
        proof {
            assert(namespaces@.take(i as int + 1).drop_last() =~= namespaces@.take(i as int));
            assert(namespaces@.take(i as int + 1).last() == namespaces@[i as int]);
        }
        if namespaces[i].typ == crate::flags::NamespaceType::Network {
            match &namespaces[i].path {
                Option::None => {
                    setup_loopback = true;
                },
                Option::Some(p) => {
                    if p.as_str().unicode_len() == 0 {
                        setup_loopback = true;
                    } else {
                        external_namespace = Option::Some(p.clone());
                    }
                },
            }
        }
        i += 1;
    }
    proof {
        assert(namespaces@.take(namespaces@.len() as int) =~= namespaces@);
    }
    NetworkDecision { setup_loopback, external_namespace }
}

/// A dot in a sysctl key names a path separator.
pub open spec fn dots_to_slashes(s: Seq<char>) -> Seq<char> {
    Seq::new(
        s.len(),
        |i: int|
            if s[i] == '.' {
                '/'
            } else {
                s[i]
            },
    )
}

/// The `/proc/sys` file a sysctl key is written to.
pub fn sysctl_path(key: &str) -> (r: String)
    ensures
        r@ == "/proc/sys/"@ + dots_to_slashes(key@),
{
    let n = key.unicode_len();
    let mut out = String::from_str("/proc/sys/");
    let mut i: usize = 0;
    #[verifier::loop_isolation(false)]
    while i < n
        invariant
            i <= n,
            n == key@.len(),
            out@ =~= "/proc/sys/"@ + dots_to_slashes(key@).take(i as int),
        decreases n - i,
    {
        let c = key.get_char(i);
        if c == '.' {
            out.append("/");
            proof {
                reveal_strlit("/");
                assert("/"@ =~= seq!['/']);
            }
        } else {
            let piece = key.substring_char(i, i + 1);
            proof {
                assert(piece@ =~= seq![key@[i as int]]);
            }
            out.append(piece);
        }
        proof {
            assert(out@ =~= "/proc/sys/"@ + dots_to_slashes(key@).take(i as int + 1));
        }
        i += 1;
    }
    proof {
        assert(dots_to_slashes(key@).take(n as int) =~= dots_to_slashes(key@));
    }
    out
}

/// The loader kernel that boots a unikernel image: `rusty-loader`
/// beside the application, in its directory.
pub fn hermit_kernel_path(app: &str) -> (r: Option<String>)
    ensures
        match (r, parent_path_spec(app@)) {
            (Option::Some(k), Option::Some(par)) => k@ == par + seq!['/'] + "rusty-loader"@,
            (Option::None, Option::None) => true,
            _ => false,
        },
{
    match parent_path(app) {
        Option::None => Option::None,
        Option::Some(par) => {
            proof {
                reveal_strlit("/");
                assert("/"@ =~= seq!['/']);
            }
            let mut k = par;
            k.append("/");
            k.append("rusty-loader");
            Option::Some(k)
        },
    }
}

/// The candidate list a search path yields for a relative name: the
/// path variable's folders, split at every colon, each joined with the
/// name, in order.
pub open spec fn search_candidates_of(
    cands: Seq<Seq<char>>,
    rel: Seq<char>,
    path_var: Seq<char>,
) -> bool {
    exists|folders: Seq<Seq<char>>|
        #![trigger crate::paths::join_with(seq![':'], folders)]
        {
            &&& folders.len() == cands.len()
            &&& crate::paths::join_with(seq![':'], folders) == path_var
            &&& (forall|a: int, b: int|
                0 <= a < folders.len() && 0 <= b < folders[a].len() ==> #[trigger] folders[a][b]
                    != ':')
            &&& (forall|k: int|
                0 <= k < cands.len() ==> #[trigger] cands[k] == folders[k] + seq!['/'] + rel)
        }
}

/// Build the search candidates for a relative name: one per folder of
/// the search path, in order.
pub fn path_search_candidates(path_relative: &str, path_var: &str) -> (r: Vec<String>)
    ensures
        r.deep_view().len() >= 1,
        search_candidates_of(r.deep_view(), path_relative@, path_var@),
{
    proof {
        reveal_strlit("/");
        assert("/"@ =~= seq!['/']);
    }
    let folders = crate::paths::split_on(path_var, ':');
    let ghost fdv = folders.deep_view();
    let mut out: Vec<String> = Vec::new();
    let mut i: usize = 0;
    #[verifier::loop_isolation(false)]
    while i < folders.len()
        invariant
            i <= fdv.len(),
            out.deep_view().len() == i,
            forall|k: int|
                0 <= k < i ==> #[trigger] out.deep_view()[k] == fdv[k] + seq!['/']
                    + path_relative@,
        decreases fdv.len() - i,
    {
        let mut c = folders[i].clone();
        c.append("/");
        c.append(path_relative);
        let ghost odv = out.deep_view();
        out.push(c);
        proof {
            assert(out.deep_view() =~= odv.push(fdv[i as int] + seq!['/'] + path_relative@));
        }
        i += 1;
    }
    proof {
        assert(fdv.len() == out.deep_view().len());
        assert(search_candidates_of(out.deep_view(), path_relative@, path_var@));
    }
    out
}

/// The first candidate whose existence answer is yes, in order; none
/// when every answer is no.
pub open spec fn spec_first_existing(cands: Seq<Seq<char>>, exist: Seq<bool>) -> Option<Seq<char>>
    decreases cands.len(),
{
    if cands.len() == 0 {
        Option::None
    } else if exist.len() > 0 && exist[0] {
        Option::Some(cands[0])
    } else {
        spec_first_existing(
            cands.skip(1),
            if exist.len() > 0 {
                exist.skip(1)
            } else {
                exist
            },
        )
    }
}

/// A chosen candidate is always one of the candidates.
pub proof fn lemma_first_existing_is_member(cands: Seq<Seq<char>>, exist: Seq<bool>)
    ensures
        spec_first_existing(cands, exist) matches Some(c) ==> exists|k: int|
            0 <= k < cands.len() && #[trigger] cands[k] == c,
    decreases cands.len(),
{
    if cands.len() > 0 {
        if exist.len() > 0 && exist[0] {
        } else {
            lemma_first_existing_is_member(
                cands.skip(1),
                if exist.len() > 0 {
                    exist.skip(1)
                } else {
                    exist
                },
            );
            let res = spec_first_existing(cands, exist);
            if res is Some {
                let c = res->0;
                let k = choose|k: int|
                    0 <= k < cands.skip(1).len() && #[trigger] cands.skip(1)[k] == c;
                assert(cands[k + 1] == c);
            }
        }
    }
}

/// Select the first existing candidate, the existence answers given as
/// an argument: the selection rule the live search applies to the
/// filesystem's answers, executed.
pub fn find_first_existing_with(candidates: &Vec<String>, exist: &Vec<bool>) -> (r: Option<String>)
    requires
        exist@.len() == candidates@.len(),
    ensures
        match (r, spec_first_existing(candidates.deep_view(), exist@)) {
            (Option::Some(p), Option::Some(c)) => p@ == c,
            (Option::None, Option::None) => true,
            _ => false,
        },
{
    let ghost cdv = candidates.deep_view();
    let ghost edv = exist@;
    let mut i: usize = 0;
    proof {
        assert(cdv.skip(0) =~= cdv);
        assert(edv.skip(0) =~= edv);
    }
    #[verifier::loop_isolation(false)]
    while i < candidates.len()
        invariant
            i <= cdv.len(),
            spec_first_existing(cdv, edv) == spec_first_existing(
                cdv.skip(i as int),
                edv.skip(i as int),
            ),
        decreases cdv.len() - i,
    {
        proof {
            assert(cdv.skip(i as int).len() > 0);
            assert(cdv.skip(i as int)[0] == cdv[i as int]);
            assert(edv.skip(i as int).len() > 0);
            assert(edv.skip(i as int)[0] == edv[i as int]);
        }
        if exist[i] {
            return Option::Some(candidates[i].clone());
        }
        proof {
            assert(cdv.skip(i as int).skip(1) =~= cdv.skip(i as int + 1));
            assert(edv.skip(i as int).skip(1) =~= edv.skip(i as int + 1));
        }
        i += 1;
    }
    proof {
        assert(cdv.skip(cdv.len() as int).len() == 0);
    }
    Option::None
}

/// Search an executable along a search path.  An absolute name is its
/// own single candidate; a relative name is tried under each folder of
/// the search path in order.  Candidates are resolved chroot-safely
/// under the root when one is given, and the first existing candidate
/// wins — the selection of [`find_first_existing_with`], applied to
/// the filesystem's existence answers.  Without a root the search
/// never fails; a returned path under a root always starts with that
/// root.
pub fn find_in_path(path_relative: &str, rootfs: Option<&str>, path_var: &str) -> (r: Result<
    Option<String>,
    crate::rootfs::ResolveError,
>)
    requires
        rootfs matches Some(root) ==> crate::paths::canonical_root(root@),
    ensures
        rootfs is None ==> r is Ok,
        match (rootfs, r) {
            (Option::Some(root), Ok(Option::Some(found))) => crate::paths::starts_with_root(
                found@,
                root@,
            ) && (exists|cs: Seq<Seq<char>>|
                crate::paths::all_plain(cs) && found@ == crate::paths::path_under_root(root@, cs)),
            _ => true,
        },
        match (rootfs, r) {
            (Option::None, Ok(Option::Some(found))) => (path_relative@.len() > 0
                && path_relative@[0] == '/') ==> found@ == path_relative@,
            _ => true,
        },
        match (rootfs, r) {
            (Option::None, Ok(picked)) => !(path_relative@.len() > 0 && path_relative@[0] == '/')
                ==> (exists|cands: Seq<Seq<char>>, exist: Seq<bool>|
                {
                    &&& search_candidates_of(cands, path_relative@, path_var@)
                    &&& exist.len() == cands.len()
                    &&& match (picked, spec_first_existing(cands, exist)) {
                        (Option::Some(p), Option::Some(c)) => p@ == c,
                        (Option::None, Option::None) => true,
                        _ => false,
                    }
                }),
            _ => true,
        },
{
    let absolute = crate::paths::is_absolute_path(path_relative);
    let candidates: Vec<String> = if absolute {
        let mut v: Vec<String> = Vec::new();
        v.push(path_relative.to_owned());
        proof {
            assert(v.deep_view() =~= seq![path_relative@]);
        }
        v
    } else {
        path_search_candidates(path_relative, path_var)
    };
    let ghost cdv = candidates.deep_view();
    let selected: Vec<String> = match rootfs {
        Option::Some(root) => {
            let mut rs: Vec<String> = Vec::new();
            let mut i: usize = 0;
            #[verifier::loop_isolation(false)]
            while i < candidates.len()
                invariant
                    forall|k: int|
                        0 <= k < rs.deep_view().len() ==> crate::paths::starts_with_root(
                            #[trigger] rs.deep_view()[k],
                            root@,
                        ) && (exists|cs: Seq<Seq<char>>|
                            crate::paths::all_plain(cs) && rs.deep_view()[k]
                                == crate::paths::path_under_root(root@, cs)),
                decreases candidates@.len() - i,
            {
                let p = match crate::rootfs::resolve_in_rootfs(candidates[i].as_str(), root) {
                    Err(e) => {
                        return Err(e);
                    },
                    Ok(p) => p,
                };
                let ghost rdv = rs.deep_view();
                rs.push(p);
                proof {
                    assert(rs.deep_view() =~= rdv.push(rs@[rdv.len() as int]@));
                }
                i += 1;
            }
            rs
        },
        Option::None => candidates,
    };
    let ghost sdv = selected.deep_view();
    let mut exist: Vec<bool> = Vec::new();
    let mut i: usize = 0;
    #[verifier::loop_isolation(false)]
    while i < selected.len()
        invariant
            exist@.len() == i,
            i <= sdv.len(),
        decreases sdv.len() - i,
    {
        exist.push(crate::rootfs::path_exists(selected[i].as_str()));
        i += 1;
    }
    let picked = find_first_existing_with(&selected, &exist);
    proof {
        lemma_first_existing_is_member(sdv, exist@);
        match rootfs {
            Option::Some(root) => {},
            Option::None => {
                if absolute {
                    if picked is Some {
                        assert(sdv.len() == 1);
                        assert(spec_first_existing(sdv, exist@) matches Some(c) ==> c == sdv[0]);
                    }
                } else {
                    assert(search_candidates_of(cdv, path_relative@, path_var@));
                }
            },
        }
    }
    Ok(picked)
}

} // verus!
