//! Splitting a link path into parent directory and file name, and joining
//! them back, on plain byte strings.
//!
//! A path is a byte string as the filesystem stores it.  Splitting ignores
//! trailing slashes, takes the bytes after the last remaining slash as the
//! file name, and fails when no usable name is left: the root, the empty
//! string, or a path whose last component is `.` or `..`.

use vstd::prelude::*;
use crate::errors::LinkError;

verus! {

pub const SLASH: u8 = 47;
pub const DOT: u8 = 46;

/// The path without its trailing slashes.
pub open spec fn strip_trailing_slashes(s: Seq<u8>) -> Seq<u8>
    decreases s.len(),
{
    if s.len() > 0 && s[s.len() - 1] == SLASH {
        strip_trailing_slashes(s.take(s.len() - 1))
    } else {
        s
    }
}

/// Index of the last slash in `s`, or -1 if there is none.
pub open spec fn last_slash(s: Seq<u8>) -> int
    decreases s.len(),
{
    if s.len() == 0 {
        -1
    } else if s[s.len() - 1] == SLASH {
        s.len() - 1
    } else {
        last_slash(s.take(s.len() - 1))
    }
}

/// The file-name component of `p`: what follows the last slash, trailing
/// slashes ignored.
pub open spec fn spec_link_filename(p: Seq<u8>) -> Seq<u8> {
    let r = strip_trailing_slashes(p);
    r.skip(last_slash(r) + 1)
}

/// The parent component of `p`: what precedes the file name, its own
/// trailing slashes stripped; `.` when `p` has no slash, `/` when the
/// parent would otherwise be empty.
pub open spec fn spec_link_parent(p: Seq<u8>) -> Seq<u8> {
    let r = strip_trailing_slashes(p);
    let i = last_slash(r);
    if i == -1 {
        seq![DOT]
    } else {
        let q = strip_trailing_slashes(r.take(i));
        if q.len() == 0 {
            seq![SLASH]
        } else {
            q
        }
    }
}

/// Whether `p` splits into parent and file name: something must remain
/// after the trailing slashes, and the name must not be `.` or `..`.
pub open spec fn spec_path_splits(p: Seq<u8>) -> bool {
    let r = strip_trailing_slashes(p);
    let n = spec_link_filename(p);
    r.len() > 0 && n != seq![DOT] && n != seq![DOT, DOT]
}

/// `parent` with `name` appended below it: a slash is inserted unless the
/// parent already ends in one.
pub open spec fn spec_join(parent: Seq<u8>, name: Seq<u8>) -> Seq<u8> {
    if parent.len() > 0 && parent[parent.len() - 1] == SLASH {
        parent + name
    } else {
        parent + seq![SLASH] + name
    }
}

pub proof fn lemma_last_slash_bounds(s: Seq<u8>)
    ensures
        -1 <= last_slash(s) < s.len(),
        last_slash(s) >= 0 ==> s[last_slash(s)] == SLASH,
    decreases s.len(),
{
    if s.len() == 0 {
    } else if s[s.len() - 1] == SLASH {
    } else {
        lemma_last_slash_bounds(s.take(s.len() - 1));
    }
}

/// `last_slash` is the unique index that carries a slash with none after it.
pub proof fn lemma_last_slash_char(s: Seq<u8>, i: int)
    requires
        -1 <= i < s.len(),
        i >= 0 ==> s[i] == SLASH,
        forall|j: int| i < j < s.len() ==> s[j] != SLASH,
    ensures
        last_slash(s) == i,
    decreases s.len(),
{
    if s.len() == 0 {
    } else if s[s.len() - 1] == SLASH {
        assert(i == s.len() - 1);
    } else {
        assert(i < s.len() - 1);
        lemma_last_slash_char(s.take(s.len() - 1), i);
    }
}

/// `strip_trailing_slashes` keeps exactly the first `e` bytes when all the
/// bytes from `e` on are slashes and the byte before `e` is not.
pub proof fn lemma_strip_trailing_char(s: Seq<u8>, e: int)
    requires
        0 <= e <= s.len(),
        forall|j: int| e <= j < s.len() ==> s[j] == SLASH,
        e > 0 ==> s[e - 1] != SLASH,
    ensures
        strip_trailing_slashes(s) == s.take(e),
    decreases s.len(),
{
    if s.len() > 0 && s[s.len() - 1] == SLASH {
        assert(e < s.len());
        lemma_strip_trailing_char(s.take(s.len() - 1), e);
        assert(s.take(s.len() - 1).take(e) =~= s.take(e));
    } else {
        assert(e == s.len());
        assert(s.take(e) =~= s);
    }
}

/// What `strip_trailing_slashes` leaves never ends in a slash.
pub proof fn lemma_strip_no_trailing(s: Seq<u8>)
    ensures
        ({
            let r = strip_trailing_slashes(s);
            r.len() > 0 ==> r[r.len() - 1] != SLASH
        }),
    decreases s.len(),
{
    if s.len() > 0 && s[s.len() - 1] == SLASH {
        lemma_strip_no_trailing(s.take(s.len() - 1));
    }
}

/// A path that splits has a file name of at least one byte.
pub proof fn lemma_filename_nonempty(p: Seq<u8>)
    requires
        strip_trailing_slashes(p).len() > 0,
    ensures
        spec_link_filename(p).len() >= 1,
{
    let r = strip_trailing_slashes(p);
    lemma_strip_no_trailing(p);
    lemma_last_slash_bounds(r);
}

/// A path that holds a slash has a last one.
pub proof fn lemma_last_slash_finds(s: Seq<u8>, k: int)
    requires
        0 <= k < s.len(),
        s[k] == SLASH,
    ensures
        last_slash(s) >= 0,
    decreases s.len(),
{
    if s[s.len() - 1] == SLASH {
    } else {
        lemma_last_slash_finds(s.take(s.len() - 1), k);
    }
}

/// Joining the parent and file name of a clean absolute path — one that
/// starts with a slash, does not end with one, and has no doubled slash —
/// gives the path back.  This is the shape of every canonical path, so the
/// laws stated over `spec_join(parent, name) == link` apply to them all.
pub proof fn lemma_split_join_roundtrip(p: Seq<u8>)
    requires
        spec_path_splits(p),
        p.len() >= 2,
        p[0] == SLASH,
        p[p.len() - 1] != SLASH,
        forall|i: int| 1 <= i < p.len() ==> !(p[i - 1] == SLASH && #[trigger] p[i] == SLASH),
    ensures
        spec_join(spec_link_parent(p), spec_link_filename(p)) == p,
{
    lemma_strip_trailing_char(p, p.len() as int);
    assert(p.take(p.len() as int) =~= p);
    let i = last_slash(p);
    lemma_last_slash_bounds(p);
    lemma_last_slash_finds(p, 0);
    if i == 0 {
        assert(spec_link_parent(p) =~= seq![SLASH]);
        assert(spec_join(seq![SLASH], p.skip(1)) =~= p);
    } else {
        let q = p.take(i);
        assert(q[q.len() - 1] != SLASH);
        lemma_strip_trailing_char(q, i);
        assert(q.take(i) =~= q);
        assert(spec_link_parent(p) == q);
        assert(spec_join(q, p.skip(i + 1)) =~= p);
    }
}

/// Copy of `s[a..b]`.
pub fn copy_range(s: &Vec<u8>, a: usize, b: usize) -> (r: Vec<u8>)
    requires
        a <= b <= s@.len(),
    ensures
        r@ == s@.subrange(a as int, b as int),
{
    let mut r: Vec<u8> = Vec::new();
    let mut i: usize = a;
    while i < b
        invariant
            a <= i <= b <= s@.len(),
            r@ == s@.subrange(a as int, i as int),
        decreases b - i,
    {
        r.push(s[i]);
        i = i + 1;
        proof {
            assert(r@ =~= s@.subrange(a as int, i as int));
        }
    }
    r
}

/// The end of the path proper (`e`: trailing slashes start there) and the
/// start of the file name (`st`: the byte before it is the last slash).
fn split_bounds(s: &Vec<u8>) -> (r: (usize, usize))
    ensures
        ({
            let (e, st) = r;
            &&& st <= e <= s@.len()
            &&& strip_trailing_slashes(s@) == s@.take(e as int)
            &&& last_slash(s@.take(e as int)) == st - 1
            &&& st == e ==> e == 0
            &&& st > 0 ==> s@[st - 1] == SLASH
        }),
{
    let n = s.len();
    let mut e: usize = n;
    while e > 0 && s[e - 1] == SLASH
        invariant
            e <= n == s@.len(),
            forall|j: int| e <= j < s@.len() ==> s@[j] == SLASH,
        decreases e,
    {
        e = e - 1;
    }
    proof {
        lemma_strip_trailing_char(s@, e as int);
    }
    let mut st: usize = e;
    while st > 0 && s[st - 1] != SLASH
        invariant
            st <= e <= s@.len(),
            e == 0 || s@[e - 1] != SLASH,
            forall|j: int| st <= j < e ==> s@[j] != SLASH,
        decreases st,
    {
        st = st - 1;
    }
    proof {
        assert(forall|j: int| st <= j < e ==> s@.take(e as int)[j] != SLASH);
        lemma_last_slash_char(s@.take(e as int), st - 1);
    }
    (e, st)
}

/// The file name that a symlink at `link` would carry.
///
/// Returns `InvalidPath` when the path has no usable file-name component.
pub fn link_filename(link: &Vec<u8>) -> (r: Result<Vec<u8>, LinkError>)
    ensures
        spec_path_splits(link@) ==> (r matches Ok(n) && n@ == spec_link_filename(link@)),
        !spec_path_splits(link@) ==> (r matches Err(LinkError::InvalidPath { path }) && path@
            == link@),
{
    let (e, st) = split_bounds(link);
    let name = copy_range(link, st, e);
    let bad = name.len() == 0 || (name.len() == 1 && name[0] == DOT) || (name.len() == 2 && name[0]
        == DOT && name[1] == DOT);
    proof {
        let rr = strip_trailing_slashes(link@);
        assert(name@ == rr.skip(last_slash(rr) + 1));
        if name@.len() == 1 && name@[0] == DOT {
            assert(name@ =~= seq![DOT]);
        }
        if name@.len() == 2 && name@[0] == DOT && name@[1] == DOT {
            assert(name@ =~= seq![DOT, DOT]);
        }
        if name@.len() == 0 {
            assert(e == 0);
            assert(rr.len() == 0);
            assert(!spec_path_splits(link@));
        }
        assert(seq![DOT].len() == 1);
        assert(seq![DOT, DOT].len() == 2);
    }
    if bad {
        Err(LinkError::InvalidPath { path: copy_range(link, 0, link.len()) })
    } else {
        proof {
            assert(link@.subrange(0, link@.len() as int) =~= link@);
        }
        Ok(name)
    }
}

/// The directory that a symlink at `link` would live in.
///
/// Returns `InvalidPath` when the path has no usable file-name component.
pub fn link_parent(link: &Vec<u8>) -> (r: Result<Vec<u8>, LinkError>)
    ensures
        spec_path_splits(link@) ==> (r matches Ok(p) && p@ == spec_link_parent(link@)),
        !spec_path_splits(link@) ==> (r matches Err(LinkError::InvalidPath { path }) && path@
            == link@),
{
    let (e, st) = split_bounds(link);
    let name = copy_range(link, st, e);
    let bad = name.len() == 0 || (name.len() == 1 && name[0] == DOT) || (name.len() == 2 && name[0]
        == DOT && name[1] == DOT);
    proof {
        let rr = strip_trailing_slashes(link@);
        assert(name@ == rr.skip(last_slash(rr) + 1));
        if name@.len() == 1 && name@[0] == DOT {
            assert(name@ =~= seq![DOT]);
        }
        if name@.len() == 2 && name@[0] == DOT && name@[1] == DOT {
            assert(name@ =~= seq![DOT, DOT]);
        }
        if name@.len() == 0 {
            assert(e == 0);
            assert(rr.len() == 0);
            assert(!spec_path_splits(link@));
        }
    }
    if bad {
        return Err(LinkError::InvalidPath { path: copy_range(link, 0, link.len()) });
    }
    proof {
        assert(link@.subrange(0, link@.len() as int) =~= link@);
    }
    if st == 0 {
        // No slash before the name: the parent is the current directory.
        let mut p: Vec<u8> = Vec::new();
        p.push(DOT);
        proof {
            assert(p@ =~= seq![DOT]);
        }
        Ok(p)
    } else {
        // The last slash sits at st - 1; strip the slashes just before the
        // name to find where the parent text ends.
        let mut e2: usize = st;
        while e2 > 0 && link[e2 - 1] == SLASH
            invariant
                e2 <= st <= link@.len(),
                forall|j: int| e2 <= j < st ==> link@[j] == SLASH,
            decreases e2,
        {
            e2 = e2 - 1;
        }
        proof {
            let rr = strip_trailing_slashes(link@);
            let i = last_slash(rr);
            assert(rr == link@.take(e as int));
            assert(i == st - 1);
            assert(rr.take(i) =~= link@.take(st - 1));
            assert(forall|j: int| e2 <= j < st - 1 ==> #[trigger] link@.take(st - 1)[j] == SLASH);
            lemma_strip_trailing_char(link@.take(st - 1), e2 as int);
            assert(link@.take(st - 1).take(e2 as int) =~= link@.take(e2 as int));
            assert(strip_trailing_slashes(rr.take(i)) == link@.take(e2 as int));
        }
        if e2 == 0 {
            let mut p: Vec<u8> = Vec::new();
            p.push(SLASH);
            proof {
                assert(p@ =~= seq![SLASH]);
            }
            Ok(p)
        } else {
            let p = copy_range(link, 0, e2);
            proof {
                assert(p@ =~= link@.take(e2 as int));
            }
            Ok(p)
        }
    }
}

/// `parent` with `name` appended below it.
pub fn join_path(parent: &Vec<u8>, name: &Vec<u8>) -> (r: Vec<u8>)
    ensures
        r@ == spec_join(parent@, name@),
{
    let mut r = copy_range(parent, 0, parent.len());
    proof {
        assert(r@ =~= parent@);
    }
    if !(parent.len() > 0 && parent[parent.len() - 1] == SLASH) {
        r.push(SLASH);
    }
    let mut i: usize = 0;
    while i < name.len()
        invariant
            i <= name@.len(),
            r@ == (if parent@.len() > 0 && parent@[parent@.len() - 1] == SLASH {
                parent@ + name@.take(i as int)
            } else {
                parent@ + seq![SLASH] + name@.take(i as int)
            }),
        decreases name@.len() - i,
    {
        r.push(name[i]);
        i = i + 1;
        proof {
            if parent@.len() > 0 && parent@[parent@.len() - 1] == SLASH {
                assert(r@ =~= parent@ + name@.take(i as int));
            } else {
                assert(r@ =~= parent@ + seq![SLASH] + name@.take(i as int));
            }
        }
    }
    proof {
        assert(name@.take(name@.len() as int) =~= name@);
        if parent@.len() > 0 && parent@[parent@.len() - 1] == SLASH {
            assert(r@ =~= parent@ + name@);
        } else {
            assert(r@ =~= parent@ + seq![SLASH] + name@);
        }
    }
    r
}

} // verus!
