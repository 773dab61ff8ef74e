//! Path strings as component sequences.
//!
//! Every path that the runtime manipulates is modelled as the sequence
//! of its `/`-separated components.  Splitting, joining and lexical
//! cleaning (dropping `.` and empty components, resolving `..` against
//! an absolute base) are specified here; the chroot-safe resolver and
//! the mount and device planners build on these primitives.

use vstd::prelude::*;

verus! {

/// A component that lexical cleaning never keeps: empty, `.` or `..`.
pub open spec fn is_special(c: Seq<char>) -> bool {
    c.len() == 0 || c == seq!['.'] || c == seq!['.', '.']
}

/// All components are ordinary names: cleaning keeps them as they are.
pub open spec fn all_plain(cs: Seq<Seq<char>>) -> bool {
    forall|i: int| 0 <= i < cs.len() ==> !is_special(#[trigger] cs[i])
}

/// One step of lexical cleaning against an absolute base: empty and `.`
/// vanish, `..` removes the last kept component (or nothing at the
/// root), anything else is kept.
pub open spec fn clean_push(acc: Seq<Seq<char>>, c: Seq<char>) -> Seq<Seq<char>> {
    if c.len() == 0 || c == seq!['.'] {
        acc
    } else if c == seq!['.', '.'] {
        if acc.len() == 0 {
            acc
        } else {
            acc.drop_last()
        }
    } else {
        acc.push(c)
    }
}

/// Lexical cleaning of a component sequence interpreted below the root:
/// the components of the cleaned absolute path.
pub open spec fn clean_abs(cs: Seq<Seq<char>>) -> Seq<Seq<char>>
    decreases cs.len(),
{
    if cs.len() == 0 {
        Seq::empty()
    } else {
        clean_push(clean_abs(cs.drop_last()), cs.last())
    }
}

/// Components joined with a separator between them: `c0 sep c1 sep c2`.
pub open spec fn join_with(sep: Seq<char>, cs: Seq<Seq<char>>) -> Seq<char>
    decreases cs.len(),
{
    if cs.len() == 0 {
        Seq::empty()
    } else if cs.len() == 1 {
        cs[0]
    } else {
        join_with(sep, cs.drop_last()) + sep + cs.last()
    }
}

/// A base path extended by components, each preceded by a slash:
/// `base/c0/c1`.  With no components the base itself.
pub open spec fn join_under(base: Seq<char>, cs: Seq<Seq<char>>) -> Seq<char>
    decreases cs.len(),
{
    if cs.len() == 0 {
        base
    } else {
        join_under(base, cs.drop_last()) + seq!['/'] + cs.last()
    }
}

/// `p` lies textually under `root`: `root` is a prefix, and where
/// anything follows, a slash follows first (so `/rootfs` never passes
/// for `/root`), unless the root is `/` itself, which every absolute
/// path extends.
pub open spec fn starts_with_root(p: Seq<char>, root: Seq<char>) -> bool {
    &&& p.len() >= root.len()
    &&& p.take(root.len() as int) == root
    &&& (p.len() > root.len() ==> root == seq!['/'] || p[root.len() as int] == '/')
}

/// The string a root and cleaned components denote: the root alone when
/// nothing lies below it, else the slash-joined components under the
/// root (under the empty base when the root is `/`, so no double slash
/// appears).
pub open spec fn root_base(root: Seq<char>) -> Seq<char> {
    if root == seq!['/'] {
        Seq::empty()
    } else {
        root
    }
}

/// The final path for cleaned components `cs` under `root`.
pub open spec fn path_under_root(root: Seq<char>, cs: Seq<Seq<char>>) -> Seq<char> {
    if cs.len() == 0 {
        root
    } else {
        join_under(root_base(root), cs)
    }
}

/// A root the resolver accepts: `/`, or an absolute path whose
/// components are all ordinary names (no `.`, `..`, empty components,
/// no trailing slash).
pub open spec fn canonical_root(root: Seq<char>) -> bool {
    root == seq!['/'] || (exists|cs: Seq<Seq<char>>|
        cs.len() > 0 && all_plain(cs) && slash_free_all(cs) && root == join_under(
            Seq::empty(),
            cs,
        ))
}

/// No component contains a slash.
pub open spec fn slash_free_all(cs: Seq<Seq<char>>) -> bool {
    forall|i: int, j: int|
        0 <= i < cs.len() && 0 <= j < cs[i].len() ==> #[trigger] cs[i][j] != '/'
}

/// Joining with a separator after a push appends the separator and the
/// new component (when something was already there).
pub proof fn lemma_join_with_push(sep: Seq<char>, cs: Seq<Seq<char>>, c: Seq<char>)
    requires
        cs.len() >= 1,
    ensures
        join_with(sep, cs.push(c)) == join_with(sep, cs) + sep + c,
{
    assert(cs.push(c).drop_last() =~= cs);
    assert(cs.push(c).last() == c);
}

/// Whatever components are joined under a base, the base stays a prefix
/// and the next character after it is a slash.
pub proof fn lemma_join_under_prefix(base: Seq<char>, cs: Seq<Seq<char>>)
    ensures
        join_under(base, cs).len() >= base.len(),
        join_under(base, cs).take(base.len() as int) == base,
        cs.len() > 0 ==> join_under(base, cs).len() > base.len() && join_under(base, cs)[base.len() as int] == '/',
    decreases cs.len(),
{
    if cs.len() == 0 {
        assert(join_under(base, cs).take(base.len() as int) =~= base);
    } else {
        lemma_join_under_prefix(base, cs.drop_last());
        let prev = join_under(base, cs.drop_last());
        let whole = prev + seq!['/'] + cs.last();
        assert(whole.take(base.len() as int) =~= prev.take(base.len() as int));
        if cs.len() == 1 {
            assert(cs.drop_last().len() == 0);
            assert(prev == base);
            assert(whole[base.len() as int] == '/');
        } else {
            assert(cs.drop_last().len() > 0);
            assert(whole[base.len() as int] == prev[base.len() as int]);
        }
    }
}

/// The path of cleaned components under a canonical root starts with
/// that root.
pub proof fn lemma_path_under_root_prefix(root: Seq<char>, cs: Seq<Seq<char>>)
    requires
        canonical_root(root),
    ensures
        starts_with_root(path_under_root(root, cs), root),
{
    if cs.len() == 0 {
        assert(path_under_root(root, cs).take(root.len() as int) =~= root);
    } else {
        lemma_join_under_prefix(root_base(root), cs);
        let p = join_under(root_base(root), cs);
        if root == seq!['/'] {
            assert(p.len() > 0);
            assert(p[0] == '/');
            assert(p.take(1) =~= root);
        } else {
            assert(p.take(root.len() as int) == root);
        }
    }
}

/// Cleaning yields only ordinary components.
pub proof fn lemma_clean_abs_plain(cs: Seq<Seq<char>>)
    ensures
        all_plain(clean_abs(cs)),
    decreases cs.len(),
{
    if cs.len() > 0 {
        lemma_clean_abs_plain(cs.drop_last());
        let acc = clean_abs(cs.drop_last());
        let c = cs.last();
        if c.len() == 0 || c == seq!['.'] {
        } else if c == seq!['.', '.'] {
            if acc.len() > 0 {
                assert(forall|i: int|
                    0 <= i < acc.drop_last().len() ==> acc.drop_last()[i] == #[trigger] acc[i]);
            }
        } else {
            let r = acc.push(c);
            assert(forall|i: int| 0 <= i < acc.len() ==> r[i] == #[trigger] acc[i]);
            assert(!is_special(r[acc.len() as int]));
        }
    }
}

/// A component that path normalization keeps: nonempty and not `.`.
pub open spec fn keepable(c: Seq<char>) -> bool {
    c.len() > 0 && c != seq!['.']
}

/// The keepable components, in order.
pub open spec fn filter_comps(cs: Seq<Seq<char>>) -> Seq<Seq<char>>
    decreases cs.len(),
{
    if cs.len() == 0 {
        Seq::empty()
    } else if keepable(cs.last()) {
        filter_comps(cs.drop_last()).push(cs.last())
    } else {
        filter_comps(cs.drop_last())
    }
}

/// Does the sequence start with a literal `.` component?
pub open spec fn dot_headed(cs: Seq<Seq<char>>) -> bool {
    cs.len() > 0 && cs[0] == seq!['.']
}

/// Path normalization as the standard component iteration performs it:
/// empty components vanish, `.` vanishes everywhere but at the very
/// beginning.
pub open spec fn norm_comps(cs: Seq<Seq<char>>) -> Seq<Seq<char>> {
    if dot_headed(cs) {
        seq![cs[0]] + filter_comps(cs.skip(1))
    } else {
        filter_comps(cs)
    }
}

/// Is the component exactly `.`?
pub fn is_dot_comp(s: &str) -> (r: bool)
    ensures
        r == (s@ == seq!['.']),
{
    let n = s.unicode_len();
    if n == 1 {
        let r = s.get_char(0) == '.';
        proof {
            if r {
                assert(s@ =~= seq!['.']);
            }
        }
        r
    } else {
        false
    }
}

/// Normalize split components: drop empty components and `.` except a
/// leading one, as the standard path component iteration does.
pub fn normalize_comps(cs: Vec<String>) -> (r: Vec<String>)
    ensures
        r.deep_view() == norm_comps(cs.deep_view()),
{
    let ghost cdv = cs.deep_view();
    let mut out: Vec<String> = Vec::new();
    let mut i: usize = 0;
    if cs.len() > 0 && is_dot_comp(cs[0].as_str()) {
        out.push(cs[0].clone());
        i = 1;
        proof {
            assert(out.deep_view() =~= seq![cdv[0]]);
        }
    }
    let ghost off: int = if dot_headed(cdv) {
        1
    } else {
        0
    };
    let ghost tail: Seq<Seq<char>> = if dot_headed(cdv) {
        cdv.skip(1)
    } else {
        cdv
    };
    let ghost head: Seq<Seq<char>> = if dot_headed(cdv) {
        seq![cdv[0]]
    } else {
        Seq::empty()
    };
    proof {
        assert(tail.take(0) =~= Seq::<Seq<char>>::empty());
        assert(out.deep_view() =~= head + filter_comps(tail.take(0)));
    }
    while i < cs.len()
        invariant
            off <= i <= cdv.len(),
            cdv == cs.deep_view(),
            cdv.len() == cs@.len(),
            off == if dot_headed(cdv) {
                1int
            } else {
                0int
            },
            tail == if dot_headed(cdv) {
                cdv.skip(1)
            } else {
                cdv
            },
            head == if dot_headed(cdv) {
                seq![cdv[0]]
            } else {
                Seq::<Seq<char>>::empty()
            },
            out.deep_view() == head + filter_comps(tail.take(i - off)),
        decreases cs@.len() - i,
    {
        proof {
            assert(tail.take(i - off + 1).drop_last() =~= tail.take(i - off));
            assert(tail.take(i - off + 1).last() == cdv[i as int]);
        }
        let c = &cs[i];
        if c.unicode_len() > 0 && !is_dot_comp(c.as_str()) {
            let ghost odv = out.deep_view();
            out.push(c.clone());
            proof {
                assert(out.deep_view() =~= odv.push(cdv[i as int]));
                assert(odv.push(cdv[i as int]) =~= head + filter_comps(tail.take(i - off + 1)));
            }
        }
        i += 1;
    }
    proof {
        assert(tail.take(cdv.len() - off) =~= tail);
        assert(out.deep_view() =~= norm_comps(cdv));
    }
    out
}

/// String equality as equality of the character sequences.
pub fn str_eq(a: &str, b: &str) -> (r: bool)
    ensures
        r == (a@ == b@),
{
    let sa = String::from_str(a);
    let sb = String::from_str(b);
    sa == sb
}

/// Does the path start with a slash?
pub fn is_absolute_path(s: &str) -> (r: bool)
    ensures
        r == (s@.len() > 0 && s@[0] == '/'),
{
    if s.unicode_len() == 0 {
        false
    } else {
        s.get_char(0) == '/'
    }
}

/// Is the component empty or `.` (dropped by cleaning)?
pub fn is_skip_comp(s: &str) -> (r: bool)
    ensures
        r == (s@.len() == 0 || s@ == seq!['.']),
{
    let n = s.unicode_len();
    if n == 0 {
        true
    } else if n == 1 {
        let r = s.get_char(0) == '.';
        proof {
            if r {
                assert(s@ =~= seq!['.']);
            }
        }
        r
    } else {
        false
    }
}

/// Is the component `..` (pops one level)?
pub fn is_dotdot_comp(s: &str) -> (r: bool)
    ensures
        r == (s@ == seq!['.', '.']),
{
    let n = s.unicode_len();
    if n == 2 {
        let r = s.get_char(0) == '.' && s.get_char(1) == '.';
        proof {
            if r {
                assert(s@ =~= seq!['.', '.']);
            }
        }
        r
    } else {
        false
    }
}

/// Split a string at every occurrence of `sep`.  The result is the
/// unique sequence of `sep`-free pieces whose `sep`-join is the input.
pub fn split_on(s: &str, sep: char) -> (r: Vec<String>)
    ensures
        r.deep_view().len() >= 1,
        join_with(seq![sep], r.deep_view()) == s@,
        forall|i: int, j: int|
            0 <= i < r.deep_view().len() && 0 <= j < r.deep_view()[i].len()
                ==> #[trigger] r.deep_view()[i][j] != sep,
{
    let n = s.unicode_len();
    let mut out: Vec<String> = Vec::new();
    let mut start: usize = 0;
    let mut i: usize = 0;
    while i < n
        invariant
            n == s@.len(),
            start <= i <= n,
            out.deep_view().len() == 0 ==> start == 0,
            out.deep_view().len() > 0 ==> start >= 1 && join_with(seq![sep], out.deep_view())
                == s@.take(start as int - 1) && s@[start as int - 1] == sep,
            forall|k: int| start <= k < i ==> s@[k] != sep,
            forall|a: int, b: int|
                0 <= a < out.deep_view().len() && 0 <= b < out.deep_view()[a].len()
                    ==> #[trigger] out.deep_view()[a][b] != sep,
        decreases n - i,
    {
        if s.get_char(i) == sep {
            let ghost odv = out.deep_view();
            let piece = s.substring_char(start, i).to_owned();
            out.push(piece);
            proof {
                assert(out.deep_view() =~= odv.push(piece@));
                assert(forall|b: int| 0 <= b < piece@.len() ==> piece@[b] == s@[start + b]);
                if odv.len() == 0 {
                    assert(out.deep_view() =~= seq![piece@]);
                    assert(join_with(seq![sep], seq![piece@]) == piece@);
                    assert(piece@ =~= s@.take(i as int));
                } else {
                    lemma_join_with_push(seq![sep], odv, piece@);
                    assert(s@.take(start as int - 1) + seq![sep] + s@.subrange(
                        start as int,
                        i as int,
                    ) =~= s@.take(i as int));
                }
            }
            start = i + 1;
        }
        i += 1;
    }
    let ghost odv = out.deep_view();
    let piece = s.substring_char(start, n).to_owned();
    out.push(piece);
    proof {
        assert(out.deep_view() =~= odv.push(piece@));
        assert(forall|b: int| 0 <= b < piece@.len() ==> piece@[b] == s@[start + b]);
        if odv.len() == 0 {
            assert(out.deep_view() =~= seq![piece@]);
            assert(piece@ =~= s@.take(n as int));
            assert(s@.take(n as int) =~= s@);
        } else {
            lemma_join_with_push(seq![sep], odv, piece@);
            assert(s@.take(start as int - 1) + seq![sep] + s@.subrange(start as int, n as int)
                =~= s@);
        }
    }
    out
}

/// A slash-join headed by an empty component is a join of the rest
/// under the empty base: `"" / c1 / c2` reads `/c1/c2`.
proof fn lemma_join_with_empty_head(dv: Seq<Seq<char>>)
    requires
        dv.len() >= 2,
        dv[0].len() == 0,
    ensures
        join_with(seq!['/'], dv) == join_under(Seq::empty(), dv.skip(1)),
    decreases dv.len(),
{
    if dv.len() == 2 {
        assert(dv.drop_last() =~= seq![dv[0]]);
        assert(join_with(seq!['/'], dv.drop_last()) == dv[0]);
        assert(join_with(seq!['/'], dv) == dv[0] + seq!['/'] + dv[1]);
        assert(dv.skip(1) =~= seq![dv[1]]);
        assert(dv.skip(1).drop_last() =~= Seq::<Seq<char>>::empty());
        assert(join_under(Seq::<char>::empty(), Seq::<Seq<char>>::empty()) == Seq::<char>::empty());
        assert(join_under(Seq::<char>::empty(), dv.skip(1)) == Seq::<char>::empty() + seq!['/']
            + dv[1]);
        assert(dv[0] + seq!['/'] + dv[1] =~= Seq::<char>::empty() + seq!['/'] + dv[1]);
    } else {
        assert(dv.drop_last().len() >= 2);
        assert(dv.drop_last()[0] == dv[0]);
        lemma_join_with_empty_head(dv.drop_last());
        assert(dv.skip(1).drop_last() =~= dv.drop_last().skip(1));
        assert(dv.skip(1).last() == dv.last());
    }
}

/// Separator-free pieces are determined by their join: two piece
/// sequences with the same separator-join are the same pieces.
proof fn lemma_join_with_injective(sep: char, a: Seq<Seq<char>>, b: Seq<Seq<char>>)
    requires
        a.len() >= 1,
        b.len() >= 1,
        forall|i: int, j: int|
            0 <= i < a.len() && 0 <= j < a[i].len() ==> #[trigger] a[i][j] != sep,
        forall|i: int, j: int|
            0 <= i < b.len() && 0 <= j < b[i].len() ==> #[trigger] b[i][j] != sep,
        join_with(seq![sep], a) == join_with(seq![sep], b),
    ensures
        a == b,
    decreases a.len() + b.len(),
{
    let s = join_with(seq![sep], a);
    if a.len() == 1 && b.len() == 1 {
        assert(a[0] == s && b[0] == s);
        assert(a =~= b);
    } else if a.len() == 1 {
        let xb = join_with(seq![sep], b.drop_last());
        assert(s == xb + seq![sep] + b.last());
        assert(s[xb.len() as int] == sep);
        assert(a[0][xb.len() as int] == sep);
        assert(false);
    } else if b.len() == 1 {
        let xa = join_with(seq![sep], a.drop_last());
        assert(s == xa + seq![sep] + a.last());
        assert(s[xa.len() as int] == sep);
        assert(b[0][xa.len() as int] == sep);
        assert(false);
    } else {
        let xa = join_with(seq![sep], a.drop_last());
        let xb = join_with(seq![sep], b.drop_last());
        let ya = a.last();
        let yb = b.last();
        assert(s == xa + seq![sep] + ya);
        assert(s == xb + seq![sep] + yb);
        assert(s[xa.len() as int] == sep);
        assert(s[xb.len() as int] == sep);
        if ya.len() < yb.len() {
            let p = xa.len() as int;
            assert(p >= s.len() - yb.len());
            assert(yb[p - (s.len() - yb.len())] == sep);
            assert(false);
        }
        if yb.len() < ya.len() {
            let p = xb.len() as int;
            assert(p >= s.len() - ya.len());
            assert(ya[p - (s.len() - ya.len())] == sep);
            assert(false);
        }
        assert(ya.len() == yb.len());
        assert(xa.len() == xb.len());
        assert(ya =~= yb) by {
            assert(forall|t: int|
                0 <= t < ya.len() ==> #[trigger] ya[t] == s[xa.len() + 1 + t] && yb[t] == s[xa.len()
                    + 1 + t]);
        }
        assert(xa =~= xb) by {
            assert(forall|t: int|
                0 <= t < xa.len() ==> #[trigger] xa[t] == s[t] && xb[t] == s[t]);
        }
        assert(forall|i: int, j: int|
            0 <= i < a.drop_last().len() && 0 <= j < a.drop_last()[i].len()
                ==> #[trigger] a.drop_last()[i][j] != sep) by {
            assert(forall|i: int|
                0 <= i < a.drop_last().len() ==> a.drop_last()[i] == #[trigger] a[i]);
        }
        assert(forall|i: int, j: int|
            0 <= i < b.drop_last().len() && 0 <= j < b.drop_last()[i].len()
                ==> #[trigger] b.drop_last()[i][j] != sep) by {
            assert(forall|i: int|
                0 <= i < b.drop_last().len() ==> b.drop_last()[i] == #[trigger] b[i]);
        }
        lemma_join_with_injective(sep, a.drop_last(), b.drop_last());
        assert(a =~= b) by {
            assert(forall|k: int|
                0 <= k < a.len() - 1 ==> #[trigger] a[k] == a.drop_last()[k] && b[k]
                    == b.drop_last()[k]);
        }
    }
}

/// A string of the canonical root form other than `/` splits at its
/// slashes into exactly an empty head followed by its ordinary
/// components.
proof fn lemma_canonical_split(s: Seq<char>, odv: Seq<Seq<char>>)
    requires
        canonical_root(s),
        s != seq!['/'],
        odv.len() >= 1,
        forall|i: int, j: int|
            0 <= i < odv.len() && 0 <= j < odv[i].len() ==> #[trigger] odv[i][j] != '/',
        join_with(seq!['/'], odv) == s,
    ensures
        odv.len() >= 2,
        odv[0].len() == 0,
        forall|k: int| 1 <= k < odv.len() ==> !is_special(#[trigger] odv[k]),
{
    let cs = choose|cs: Seq<Seq<char>>|
        cs.len() > 0 && all_plain(cs) && slash_free_all(cs) && s == join_under(Seq::empty(), cs);
    let dv = seq![Seq::<char>::empty()] + cs;
    assert(dv.len() >= 2);
    assert(dv[0].len() == 0);
    assert(dv.skip(1) =~= cs);
    lemma_join_with_empty_head(dv);
    assert(join_with(seq!['/'], dv) == s);
    assert(forall|i: int, j: int|
        0 <= i < dv.len() && 0 <= j < dv[i].len() ==> #[trigger] dv[i][j] != '/') by {
        assert(forall|i: int| 1 <= i < dv.len() ==> dv[i] == #[trigger] cs[i - 1]);
    }
    lemma_join_with_injective('/', odv, dv);
    assert(forall|k: int| 1 <= k < odv.len() ==> !is_special(#[trigger] odv[k])) by {
        assert(forall|k: int| 1 <= k < odv.len() ==> #[trigger] odv[k] == cs[k - 1]);
        assert(forall|k: int| 0 <= k < cs.len() ==> !is_special(#[trigger] cs[k]));
    }
}

/// Does the string have the canonical root form the resolver asks for?
/// Exactly the canonical forms pass: `/` itself, or slash-joined
/// components none of which is empty, `.` or `..`.
pub fn is_canonical_root(s: &str) -> (r: bool)
    ensures
        r == canonical_root(s@),
{
    proof {
        reveal_strlit("/");
        assert("/"@ =~= seq!['/']);
    }
    if str_eq(s, "/") {
        return true;
    }
    let comps = split_on(s, '/');
    let ghost dv = comps.deep_view();
    if comps.len() < 2 {
        proof {
            if canonical_root(s@) {
                lemma_canonical_split(s@, dv);
            }
        }
        return false;
    }
    if comps[0].as_str().unicode_len() != 0 {
        proof {
            if canonical_root(s@) {
                lemma_canonical_split(s@, dv);
            }
        }
        return false;
    }
    let mut i: usize = 1;
    #[verifier::loop_isolation(false)]
    while i < comps.len()
        invariant
            1 <= i <= dv.len(),
            forall|k: int| 1 <= k < i ==> !is_special(#[trigger] dv[k]),
        decreases dv.len() - i,
    {
        let c = comps[i].as_str();
        if is_skip_comp(c) || is_dotdot_comp(c) {
            proof {
                if canonical_root(s@) {
                    lemma_canonical_split(s@, dv);
                    assert(!is_special(dv[i as int]));
                }
            }
            return false;
        }
        i += 1;
    }
    proof {
        lemma_join_with_empty_head(dv);
        let cs = dv.skip(1);
        assert(cs.len() > 0);
        assert(forall|k: int| 0 <= k < cs.len() ==> cs[k] == #[trigger] dv[k + 1]);
        assert(all_plain(cs));
        assert(slash_free_all(cs)) by {
            assert(forall|a: int, b: int|
                0 <= a < cs.len() && 0 <= b < cs[a].len() ==> #[trigger] cs[a][b] == dv[a + 1][b]);
        }
        assert(s@ == join_under(Seq::empty(), cs));
        assert(canonical_root(s@));
    }
    true
}

/// `p` equals `base` or continues it at a component boundary.
pub open spec fn path_prefix(base: Seq<char>, p: Seq<char>) -> bool {
    &&& p.len() >= base.len()
    &&& p.take(base.len() as int) == base
    &&& (p.len() == base.len() || p[base.len() as int] == '/')
}

/// Does `p` equal `base` or continue it at a component boundary?
pub fn is_path_prefix(base: &str, p: &str) -> (r: bool)
    ensures
        r == path_prefix(base@, p@),
{
    let bn = base.unicode_len();
    let pn = p.unicode_len();
    if pn < bn {
        proof {
            assert(!path_prefix(base@, p@));
        }
        false
    } else if !str_eq(p.substring_char(0, bn), base) {
        proof {
            assert(p@.subrange(0, bn as int) == p@.take(bn as int));
        }
        false
    } else {
        proof {
            assert(p@.subrange(0, bn as int) == p@.take(bn as int));
        }
        pn == bn || p.get_char(bn) == '/'
    }
}

/// Does `p` lie textually under `root` (see [`starts_with_root`])?
pub fn check_starts_with_root(p: &str, root: &str) -> (r: bool)
    ensures
        r == starts_with_root(p@, root@),
{
    proof {
        reveal_strlit("/");
        assert("/"@ =~= seq!['/']);
    }
    let rn = root.unicode_len();
    let pn = p.unicode_len();
    if pn < rn {
        false
    } else if !str_eq(p.substring_char(0, rn), root) {
        proof {
            assert(p@.subrange(0, rn as int) == p@.take(rn as int));
        }
        false
    } else {
        proof {
            assert(p@.subrange(0, rn as int) == p@.take(rn as int));
        }
        pn == rn || str_eq(root, "/") || p.get_char(rn) == '/'
    }
}

/// The last index holding a slash, if any.
pub open spec fn last_slash(p: Seq<char>) -> Option<int>
    decreases p.len(),
{
    if p.len() == 0 {
        Option::None
    } else if p.last() == '/' {
        Option::Some(p.len() - 1)
    } else {
        last_slash(p.drop_last())
    }
}

/// The parent of a path, with the standard library's semantics: the
/// part before the last slash, `/` when that slash leads, nothing for
/// the root itself or a bare name.
pub open spec fn parent_path_spec(p: Seq<char>) -> Option<Seq<char>> {
    if p == seq!['/'] {
        Option::None
    } else {
        match last_slash(p) {
            Option::None => Option::None,
            Option::Some(j) => if j == 0 {
                Option::Some(seq!['/'])
            } else {
                Option::Some(p.take(j))
            },
        }
    }
}

/// The directory part of a path.
#[verifier::loop_isolation(false)]
pub fn parent_path(p: &str) -> (r: Option<String>)
    ensures
        match (r, parent_path_spec(p@)) {
            (Option::Some(rp), Option::Some(sp)) => rp@ == sp,
            (Option::None, Option::None) => true,
            _ => false,
        },
{
    proof {
        reveal_strlit("/");
        assert("/"@ =~= seq!['/']);
    }
    if str_eq(p, "/") {
        return Option::None;
    }
    let n = p.unicode_len();
    let mut i: usize = n;
    proof {
        assert(p@.take(n as int) =~= p@);
    }
    while i > 0
        invariant
            i <= n,
            n == p@.len(),
            forall|k: int| i <= k < n ==> p@[k] != '/',
            last_slash(p@) == last_slash(p@.take(i as int)),
        decreases i,
    {
        proof {
            assert(p@.take(i as int).drop_last() =~= p@.take(i as int - 1));
            assert(p@.take(i as int).len() > 0);
        }
        if p.get_char(i - 1) == '/' {
            proof {
                assert(p@.take(i as int).last() == p@[i as int - 1]);
                assert(last_slash(p@) == Option::Some(i as int - 1));
            }
            if i == 1 {
                return Option::Some(String::from_str("/"));
            } else {
                let parent = s_take(p, i - 1);
                return Option::Some(parent);
            }
        }
        proof {
            assert(p@.take(i as int).last() == p@[i as int - 1]);
        }
        i -= 1;
    }
    proof {
        assert(p@.take(0) =~= Seq::<char>::empty());
    }
    Option::None
}

/// The first `k` characters of a string, as an owned string.
pub fn s_take(p: &str, k: usize) -> (r: String)
    requires
        k <= p@.len(),
    ensures
        r@ == p@.take(k as int),
{
    proof {
        assert(p@.subrange(0, k as int) == p@.take(k as int));
    }
    p.substring_char(0, k).to_owned()
}

/// Join strings with a separator between them.
pub fn join_with_sep(sep: &str, cs: &Vec<String>) -> (r: String)
    ensures
        r@ == join_with(sep@, cs.deep_view()),
{
    let mut out = String::new();
    let mut i: usize = 0;
    while i < cs.len()
        invariant
            i <= cs.deep_view().len(),
            cs.deep_view().len() == cs@.len(),
            out@ == join_with(sep@, cs.deep_view().take(i as int)),
        decreases cs@.len() - i,
    {
        if i > 0 {
            out.append(sep);
        }
        out.append(cs[i].as_str());
        proof {
            let pre = cs.deep_view().take(i as int + 1);
            assert(pre.drop_last() =~= cs.deep_view().take(i as int));
            assert(pre.last() == cs.deep_view()[i as int]);
        }
        i += 1;
    }
    proof {
        assert(cs.deep_view().take(cs.deep_view().len() as int) =~= cs.deep_view());
    }
    out
}

/// Lexically clean a component sequence against an absolute base.
pub fn clean_components(cs: &Vec<String>) -> (r: Vec<String>)
    ensures
        r.deep_view() == clean_abs(cs.deep_view()),
{
    let mut out: Vec<String> = Vec::new();
    let mut i: usize = 0;
    while i < cs.len()
        invariant
            i <= cs.deep_view().len(),
            cs.deep_view().len() == cs@.len(),
            out.deep_view() == clean_abs(cs.deep_view().take(i as int)),
        decreases cs@.len() - i,
    {
        proof {
            let pre = cs.deep_view().take(i as int + 1);
            assert(pre.drop_last() =~= cs.deep_view().take(i as int));
            assert(pre.last() == cs.deep_view()[i as int]);
        }
        let c = &cs[i];
        if is_skip_comp(c.as_str()) {
            // dropped
        } else if is_dotdot_comp(c.as_str()) {
            if out.len() > 0 {
                out.pop();
                proof {
                    assert(out.deep_view() =~= clean_abs(cs.deep_view().take(i as int + 1)));
                }
            }
        } else {
            out.push(c.clone());
            proof {
                assert(out.deep_view() =~= clean_abs(cs.deep_view().take(i as int + 1)));
            }
        }
        i += 1;
    }
    proof {
        assert(cs.deep_view().take(cs.deep_view().len() as int) =~= cs.deep_view());
    }
    out
}

/// Join components under a base string: `base/c0/c1`, the base alone
/// when there are none.
pub fn join_under_base(base: &str, cs: &Vec<String>) -> (r: String)
    ensures
        r@ == join_under(base@, cs.deep_view()),
{
    let mut out = String::from_str(base);
    let mut i: usize = 0;
    while i < cs.len()
        invariant
            i <= cs.deep_view().len(),
            cs.deep_view().len() == cs@.len(),
            out@ == join_under(base@, cs.deep_view().take(i as int)),
        decreases cs@.len() - i,
    {
        out.append("/");
        out.append(cs[i].as_str());
        proof {
            let pre = cs.deep_view().take(i as int + 1);
            assert(pre.drop_last() =~= cs.deep_view().take(i as int));
            assert(pre.last() == cs.deep_view()[i as int]);
            assert("/"@ =~= seq!['/']) by {
                reveal_strlit("/");
            }
        }
        i += 1;
    }
    proof {
        assert(cs.deep_view().take(cs.deep_view().len() as int) =~= cs.deep_view());
    }
    out
}

} // verus!
