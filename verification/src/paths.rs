//! Root confinement and small path algebra over canonical path strings.
//!
//! All functions here take paths that the caller has already canonicalized;
//! confinement is then a matter of components, decided on the characters.

use vstd::prelude::*;
use crate::util::chars_of;
use crate::util::string_from_chars;

verus! {

/// Whether canonical path `p` lies at or below canonical path `root`:
/// equal to it, or extending it at a component boundary.
pub open spec fn is_within(p: Seq<char>, root: Seq<char>) -> bool {
    ||| p == root
    ||| (p.len() > root.len() && p.take(root.len() as int) == root && ((root.len() > 0
        && root.last() == '/') || p[root.len() as int] == '/'))
}

/// Decides confinement of one canonical path under another.
pub fn within_root(root: &str, path: &str) -> (r: bool)
    ensures
        r == is_within(path@, root@),
{
    let rv = chars_of(root);
    let pv = chars_of(path);
    if pv.len() < rv.len() {
        return false;
    }
    let mut i: usize = 0;
    while i < rv.len()
        invariant
            i <= rv.len() <= pv.len(),
            rv@ == root@,
            pv@ == path@,
            forall|k: int| 0 <= k < i ==> pv@[k] == rv@[k],
        decreases rv.len() - i,
    {
        if pv[i] != rv[i] {
            proof {
                assert(path@[i as int] != root@[i as int]);
                assert(path@ != root@);
                assert(path@.len() > root@.len() ==> path@.take(root@.len() as int)[i as int]
                    != root@[i as int]);
            }
            return false;
        }
        i += 1;
    }
    proof {
        assert(pv@.take(rv@.len() as int) =~= rv@);
    }
    if pv.len() == rv.len() {
        proof {
            assert(pv@ =~= rv@);
        }
        true
    } else if rv.len() > 0 && rv[rv.len() - 1] == '/' {
        true
    } else {
        pv[rv.len()] == '/'
    }
}

/// Index of the last `'/'` in `p`, or -1 when there is none.
pub open spec fn last_slash(p: Seq<char>) -> int
    decreases p.len(),
{
    if p.len() == 0 {
        -1
    } else if p.last() == '/' {
        p.len() - 1
    } else {
        last_slash(p.drop_last())
    }
}

/// The parent of a canonical absolute path: the prefix before its last
/// separator, the bare root `/` for top-level entries, nothing for the
/// root itself.
pub open spec fn parent_of(p: Seq<char>) -> Option<Seq<char>> {
    if p.len() <= 1 {
        None
    } else if last_slash(p) < 0 {
        None
    } else if last_slash(p) == 0 {
        Some(p.take(1))
    } else {
        Some(p.take(last_slash(p)))
    }
}

proof fn lemma_last_slash_is(p: Seq<char>, k: int)
    requires
        0 <= k < p.len(),
        p[k] == '/',
        forall|j: int| k < j < p.len() ==> p[j] != '/',
    ensures
        last_slash(p) == k,
    decreases p.len(),
{
    if k < p.len() - 1 {
        lemma_last_slash_is(p.drop_last(), k);
    }
}

proof fn lemma_last_slash_none(p: Seq<char>)
    requires
        forall|j: int| 0 <= j < p.len() ==> p[j] != '/',
    ensures
        last_slash(p) == -1,
    decreases p.len(),
{
    if p.len() > 0 {
        lemma_last_slash_none(p.drop_last());
    }
}

/// The parent of a canonical absolute path, if it has one.
pub fn parent_dir(p: &str) -> (r: Option<String>)
    ensures
        match r {
            Some(s) => parent_of(p@) == Some(s@),
            None => parent_of(p@) == None::<Seq<char>>,
        },
{
    let pv = chars_of(p);
    if pv.len() <= 1 {
        return None;
    }
    let mut i: usize = pv.len();
    while i > 0
        invariant
            i <= pv.len(),
            pv@ == p@,
            pv@.len() > 1,
            forall|j: int| i <= j < pv.len() ==> pv@[j] != '/',
        decreases i,
    {
        i -= 1;
        if pv[i] == '/' {
            proof {
                lemma_last_slash_is(p@, i as int);
            }
            let cut: usize = if i == 0 {
                1
            } else {
                i
            };
            let mut head: Vec<char> = Vec::new();
            let mut j: usize = 0;
            while j < cut
                invariant
                    j <= cut <= pv.len(),
                    pv@ == p@,
                    head@ == p@.take(j as int),
                decreases cut - j,
            {
                head.push(pv[j]);
                proof {
                    assert(p@.take(j + 1) =~= p@.take(j as int).push(p@[j as int]));
                }
                j += 1;
            }
            proof {
                assert(p@.len() > 1);
                assert(last_slash(p@) == i as int);
                assert(head@ == p@.take(cut as int));
                if i == 0 {
                    assert(parent_of(p@) == Some(p@.take(1)));
                } else {
                    assert(parent_of(p@) == Some(p@.take(i as int)));
                }
            }
            return Some(string_from_chars(&head));
        }
    }
    proof {
        lemma_last_slash_none(p@);
    }
    None
}

/// What joining a plain entry name onto a directory path gives: the name
/// appended behind one separator.
pub open spec fn join_of(dir: Seq<char>, name: Seq<char>) -> Seq<char> {
    if dir.len() > 0 && dir.last() == '/' {
        dir + name
    } else {
        dir.push('/') + name
    }
}

/// Joins a plain entry name onto a directory path.
pub fn join_path(dir: &str, name: &str) -> (r: String)
    ensures
        r@ == join_of(dir@, name@),
{
    let dv = chars_of(dir);
    let nv = chars_of(name);
    let mut out: Vec<char> = Vec::new();
    let mut i: usize = 0;
    while i < dv.len()
        invariant
            i <= dv.len(),
            dv@ == dir@,
            out@ == dir@.take(i as int),
        decreases dv.len() - i,
    {
        out.push(dv[i]);
        proof {
            assert(dir@.take(i + 1) =~= dir@.take(i as int).push(dir@[i as int]));
        }
        i += 1;
    }
    proof {
        assert(dir@.take(dir@.len() as int) =~= dir@);
    }
    if dv.len() == 0 || dv[dv.len() - 1] != '/' {
        out.push('/');
    }
    let mut j: usize = 0;
    let ghost base: Seq<char> = out@;
    while j < nv.len()
        invariant
            j <= nv.len(),
            nv@ == name@,
            out@ == base + name@.take(j as int),
        decreases nv.len() - j,
    {
        out.push(nv[j]);
        proof {
            assert(name@.take(j + 1) =~= name@.take(j as int).push(name@[j as int]));
            assert(base + name@.take(j + 1) =~= (base + name@.take(j as int)).push(
                name@[j as int],
            ));
        }
        j += 1;
    }
    proof {
        assert(base + name@.take(name@.len() as int) =~= base + name@);
        assert(out@ =~= join_of(dir@, name@));
    }
    string_from_chars(&out)
}

} // verus!
