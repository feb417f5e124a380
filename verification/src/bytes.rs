//! Helpers on byte strings.  Paths and entry names are byte strings: the
//! core treats a path as opaque and only ever splits it at `/` bytes.

use vstd::prelude::*;

verus! {

/// The `/` byte that separates path components.
pub const SLASH: u8 = 47;

/// An exact copy of a byte string.
pub fn clone_bytes(v: &Vec<u8>) -> (r: Vec<u8>)
    ensures
        r@ == v@,
{
    let mut r: Vec<u8> = Vec::new();
    let mut i: usize = 0;
    while i < v.len()
        invariant
            i <= v.len(),
            r@ == v@.subrange(0, i as int),
        decreases v.len() - i,
    {
        r.push(v[i]);
        assert(r@ == v@.subrange(0, i + 1 as int));
        i = i + 1;
    }
    assert(v@.subrange(0, v@.len() as int) == v@);
    r
}

/// Whether two byte strings hold the same bytes.
pub fn bytes_eq(a: &Vec<u8>, b: &Vec<u8>) -> (r: bool)
    ensures
        r <==> a@ == b@,
{
    if a.len() != b.len() {
        return false;
    }
    let mut i: usize = 0;
    while i < a.len()
        invariant
            i <= a.len(),
            a@.len() == b@.len(),
            forall|j: int| 0 <= j < i ==> a@[j] == b@[j],
        decreases a.len() - i,
    {
        if a[i] != b[i] {
            return false;
        }
        i = i + 1;
    }
    proof {
        assert(a@ =~= b@);
    }
    true
}

/// The index of the last `/` in `p`, or `-1` when `p` holds none.
pub open spec fn last_slash(p: Seq<u8>) -> int
    decreases p.len(),
{
    if p.len() == 0 {
        -1
    } else if p[p.len() - 1] == SLASH {
        p.len() - 1
    } else {
        last_slash(p.drop_last())
    }
}

/// What `last_slash` returns: an index in `[-1, len)`, pointing at a `/`
/// when it is not `-1`, with no `/` anywhere after it.
pub proof fn lemma_last_slash(p: Seq<u8>)
    ensures
        -1 <= last_slash(p) < p.len(),
        last_slash(p) >= 0 ==> p[last_slash(p)] == SLASH,
        forall|j: int| last_slash(p) < j < p.len() ==> p[j] != SLASH,
    decreases p.len(),
{
    if p.len() == 0 {
    } else if p[p.len() - 1] == SLASH {
    } else {
        lemma_last_slash(p.drop_last());
        assert(forall|j: int| 0 <= j < p.len() - 1 ==> p.drop_last()[j] == p[j]);
    }
}

/// `last_slash` is the one index with a `/` at it and none after it.
pub proof fn lemma_last_slash_unique(p: Seq<u8>, k: int)
    requires
        0 <= k < p.len(),
        p[k] == SLASH,
        forall|j: int| k < j < p.len() ==> p[j] != SLASH,
    ensures
        last_slash(p) == k,
    decreases p.len(),
{
    if p.len() == 0 {
    } else if p[p.len() - 1] == SLASH {
        assert(k == p.len() - 1);
    } else {
        assert(k < p.len() - 1);
        assert(forall|j: int| 0 <= j < p.len() - 1 ==> p.drop_last()[j] == p[j]);
        lemma_last_slash_unique(p.drop_last(), k);
    }
}

/// A byte string without any `/` has no last slash.
pub proof fn lemma_no_slash(p: Seq<u8>)
    requires
        forall|j: int| 0 <= j < p.len() ==> p[j] != SLASH,
    ensures
        last_slash(p) == -1,
    decreases p.len(),
{
    if p.len() > 0 {
        assert(forall|j: int| 0 <= j < p.len() - 1 ==> p.drop_last()[j] == p[j]);
        lemma_no_slash(p.drop_last());
    }
}

/// A path with a single trailing `/` removed: a directory named with a
/// trailing separator still has a basename.
pub open spec fn without_trailing_slash(p: Seq<u8>) -> Seq<u8> {
    if p.len() > 0 && p[p.len() - 1] == SLASH {
        p.drop_last()
    } else {
        p
    }
}

/// The basename of a path: everything after the last `/`, a single
/// trailing separator not counting, or the whole path when it holds no
/// `/`.
pub open spec fn basename_of(p: Seq<u8>) -> Seq<u8> {
    let q = without_trailing_slash(p);
    q.subrange(last_slash(q) + 1, q.len() as int)
}

/// The basename of a path, as the backends and the name index use it.
pub fn basename(p: &Vec<u8>) -> (r: Vec<u8>)
    ensures
        r@ == basename_of(p@),
{
    let end: usize = if p.len() > 0 && p[p.len() - 1] == SLASH {
        p.len() - 1
    } else {
        p.len()
    };
    let ghost q = without_trailing_slash(p@);
    proof {
        assert(q =~= p@.subrange(0, end as int));
    }
    let mut start: usize = 0;
    let mut i: usize = 0;
    while i < end
        invariant
            end <= p@.len(),
            q =~= p@.subrange(0, end as int),
            start <= i <= end,
            start > 0 ==> p@[start - 1] == SLASH,
            forall|j: int| start <= j < i ==> p@[j] != SLASH,
        decreases end - i,
    {
        if p[i] == SLASH {
            start = i + 1;
        }
        i = i + 1;
    }
    proof {
        assert(forall|j: int| 0 <= j < q.len() ==> q[j] == p@[j]);
        if start > 0 {
            lemma_last_slash_unique(q, start - 1);
        } else {
            lemma_no_slash(q);
        }
    }
    let mut r: Vec<u8> = Vec::new();
    let mut i: usize = start;
    while i < end
        invariant
            start <= i <= end,
            end <= p@.len(),
            r@ == p@.subrange(start as int, i as int),
        decreases end - i,
    {
        r.push(p[i]);
        assert(r@ == p@.subrange(start as int, i + 1 as int));
        i = i + 1;
    }
    proof {
        assert(r@ =~= q.subrange(start as int, q.len() as int));
    }
    r
}

/// Joining a directory path and an entry name: the name alone when the
/// directory is empty; otherwise the two with a single `/` between them.
pub open spec fn join_of(dir: Seq<u8>, name: Seq<u8>) -> Seq<u8> {
    if dir.len() == 0 {
        name
    } else if dir[dir.len() - 1] == SLASH {
        dir + name
    } else {
        dir + seq![SLASH] + name
    }
}

/// Builds the path of an entry `name` inside the directory `dir`.
pub fn path_join(dir: &Vec<u8>, name: &Vec<u8>) -> (r: Vec<u8>)
    ensures
        r@ == join_of(dir@, name@),
{
    let mut r = clone_bytes(dir);
    if dir.len() > 0 && dir[dir.len() - 1] != SLASH {
        r.push(SLASH);
    }
    let mut i: usize = 0;
    let ghost prefix = r@;
    while i < name.len()
        invariant
            i <= name.len(),
            r@ == prefix + name@.subrange(0, i as int),
        decreases name.len() - i,
    {
        r.push(name[i]);
        assert(r@ == prefix + name@.subrange(0, i + 1 as int));
        i = i + 1;
    }
    proof {
        assert(name@.subrange(0, name@.len() as int) == name@);
        if dir@.len() == 0 {
            assert(r@ =~= join_of(dir@, name@));
        } else if dir@[dir@.len() - 1] == SLASH {
            assert(r@ =~= join_of(dir@, name@));
        } else {
            assert(r@ =~= join_of(dir@, name@));
        }
    }
    r
}

/// A valid entry name: non-empty and free of `/`.
pub open spec fn valid_name(name: Seq<u8>) -> bool {
    &&& name.len() > 0
    &&& forall|j: int| 0 <= j < name.len() ==> name[j] != SLASH
}

/// Checks that a name is non-empty and free of `/`, as the kernel bridge
/// guarantees of the names it sends.
pub fn check_name(name: &Vec<u8>) -> (r: bool)
    ensures
        r <==> valid_name(name@),
{
    if name.len() == 0 {
        return false;
    }
    let mut i: usize = 0;
    while i < name.len()
        invariant
            i <= name.len(),
            forall|j: int| 0 <= j < i ==> name@[j] != SLASH,
        decreases name.len() - i,
    {
        if name[i] == SLASH {
            return false;
        }
        i = i + 1;
    }
    true
}

/// The basename of a joined path is the name that was joined on, for any
/// valid name.
pub proof fn lemma_basename_join(dir: Seq<u8>, name: Seq<u8>)
    requires
        valid_name(name),
    ensures
        basename_of(join_of(dir, name)) == name,
{
    let p = join_of(dir, name);
    assert(p.len() > 0 && p[p.len() - 1] == name[name.len() - 1]);
    assert(without_trailing_slash(p) == p);
    if dir.len() == 0 {
        lemma_no_slash(name);
        assert(basename_of(p) =~= name);
    } else if dir[dir.len() - 1] == SLASH {
        assert(p[dir.len() - 1] == SLASH);
        assert(forall|j: int| dir.len() - 1 < j < p.len() ==> p[j] != SLASH);
        lemma_last_slash_unique(p, dir.len() - 1);
        assert(basename_of(p) =~= name);
    } else {
        assert(p[dir.len() as int] == SLASH);
        assert(forall|j: int| dir.len() < j < p.len() ==> p[j] != SLASH);
        lemma_last_slash_unique(p, dir.len() as int);
        assert(basename_of(p) =~= name);
    }
}

/// Removes `prefix` from the front of `s` when it starts with it, and
/// returns `s` unchanged otherwise.
pub open spec fn trim_prefix_of(s: Seq<u8>, prefix: Seq<u8>) -> Seq<u8> {
    if s.len() >= prefix.len() && s.subrange(0, prefix.len() as int) == prefix {
        s.subrange(prefix.len() as int, s.len() as int)
    } else {
        s
    }
}

/// Strips a prefix from a byte string when it is there.
pub fn trim_prefix(s: &Vec<u8>, prefix: &Vec<u8>) -> (r: Vec<u8>)
    ensures
        r@ == trim_prefix_of(s@, prefix@),
{
    if s.len() < prefix.len() {
        return clone_bytes(s);
    }
    let mut i: usize = 0;
    while i < prefix.len()
        invariant
            i <= prefix.len(),
            prefix.len() <= s.len(),
            forall|j: int| 0 <= j < i ==> s@[j] == prefix@[j],
        decreases prefix.len() - i,
    {
        if s[i] != prefix[i] {
            proof {
                assert(s@.subrange(0, prefix@.len() as int)[i as int] != prefix@[i as int]);
            }
            return clone_bytes(s);
        }
        i = i + 1;
    }
    proof {
        assert(s@.subrange(0, prefix@.len() as int) =~= prefix@);
    }
    let mut r: Vec<u8> = Vec::new();
    let mut k: usize = prefix.len();
    while k < s.len()
        invariant
            prefix.len() <= k <= s.len(),
            r@ == s@.subrange(prefix@.len() as int, k as int),
        decreases s.len() - k,
    {
        r.push(s[k]);
        assert(r@ == s@.subrange(prefix@.len() as int, k + 1 as int));
        k = k + 1;
    }
    r
}

} // verus!
