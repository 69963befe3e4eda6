//! Paths as byte strings with `/` as the separator.
use vstd::prelude::*;

verus! {

/// The separator byte `/`.
pub const SEP: u8 = 47;

/// A path is absolute when it starts with the separator.
pub open spec fn is_absolute_spec(p: Seq<u8>) -> bool {
    p.len() > 0 && p[0] == SEP
}

/// Where the last component of `p` starts: just after its last separator.
pub open spec fn name_start(p: Seq<u8>) -> int
    decreases p.len(),
{
    if p.len() == 0 {
        0
    } else if p.last() == SEP {
        p.len() as int
    } else {
        name_start(p.drop_last())
    }
}

/// The last component of `p`, or `None` when `p` is empty or ends in a separator.
pub open spec fn file_name_spec(p: Seq<u8>) -> Option<Seq<u8>> {
    let s = name_start(p);
    if s < p.len() {
        Some(p.subrange(s, p.len() as int))
    } else {
        None
    }
}

/// `base` followed by `name`, with one separator between them. An empty
/// `name` leaves `base` as it is.
pub open spec fn join_spec(base: Seq<u8>, name: Seq<u8>) -> Seq<u8> {
    if name.len() == 0 {
        base
    } else if base.len() > 0 && base.last() == SEP {
        base + name
    } else {
        base.push(SEP) + name
    }
}

/// `p` is `dir` itself or lies somewhere below it, component by component.
pub open spec fn within_spec(p: Seq<u8>, dir: Seq<u8>) -> bool {
    p == dir || strictly_within_spec(p, dir)
}

/// `p` lies strictly below `dir`.
pub open spec fn strictly_within_spec(p: Seq<u8>, dir: Seq<u8>) -> bool {
    &&& dir.len() < p.len()
    &&& p.subrange(0, dir.len() as int) == dir
    &&& (p[dir.len() as int] == SEP || (dir.len() > 0 && dir.last() == SEP))
}

/// What follows `dir` in a path strictly below it, its leading separator dropped.
pub open spec fn relative_spec(p: Seq<u8>, dir: Seq<u8>) -> Seq<u8> {
    if p[dir.len() as int] == SEP {
        p.subrange(dir.len() as int + 1, p.len() as int)
    } else {
        p.subrange(dir.len() as int, p.len() as int)
    }
}

/// The number of separators in `p`.
pub open spec fn sep_count(p: Seq<u8>) -> nat
    decreases p.len(),
{
    if p.len() == 0 {
        0
    } else {
        sep_count(p.drop_last()) + if p.last() == SEP { 1nat } else { 0nat }
    }
}

/// How many components deep a relative path goes: a plain name is one deep.
pub open spec fn depth_spec(rel: Seq<u8>) -> nat {
    sep_count(rel) + 1
}

/// The side path next to `p` that a link or a restored copy is built at
/// before it is moved over `p`.
pub open spec fn swap_path_spec(p: Seq<u8>) -> Seq<u8> {
    p + seq![46u8, 102u8, 111u8, 114u8, 103u8, 101u8, 45u8, 115u8, 119u8, 97u8, 112u8]
}

pub fn bytes_eq(a: &Vec<u8>, b: &Vec<u8>) -> (r: bool)
    ensures
        r == (a@ == b@),
{
    if a.len() != b.len() {
        return false;
    }
    let mut i: usize = 0;
    while i < a.len()
        invariant
            a.len() == b.len(),
            i <= a.len(),
            a@.subrange(0, i as int) == b@.subrange(0, i as int),
        decreases a.len() - i,
    {
        if a[i] != b[i] {
            assert(a@[i as int] != b@[i as int]);
            return false;
        }
        assert(a@.subrange(0, i + 1) == a@.subrange(0, i as int).push(a@[i as int]));
        assert(b@.subrange(0, i + 1) == b@.subrange(0, i as int).push(b@[i as int]));
        i = i + 1;
    }
    assert(a@ == a@.subrange(0, a.len() as int));
    assert(b@ == b@.subrange(0, b.len() as int));
    true
}

/// A copy of `a`.
pub fn copy_bytes(a: &Vec<u8>) -> (r: Vec<u8>)
    ensures
        r@ == a@,
{
    let mut r: Vec<u8> = Vec::new();
    let mut i: usize = 0;
    while i < a.len()
        invariant
            i <= a.len(),
            r@ == a@.subrange(0, i as int),
        decreases a.len() - i,
    {
        r.push(a[i]);
        i = i + 1;
    }
    assert(a@ == a@.subrange(0, a.len() as int));
    r
}

/// `a` followed by `b[from..]`.
fn append_from(a: &mut Vec<u8>, b: &Vec<u8>, from: usize)
    requires
        from <= b.len(),
    ensures
        final(a)@ == old(a)@ + b@.subrange(from as int, b.len() as int),
{
    let mut i: usize = from;
    while i < b.len()
        invariant
            from <= i <= b.len(),
            a@ == old(a)@ + b@.subrange(from as int, i as int),
        decreases b.len() - i,
    {
        a.push(b[i]);
        assert(b@.subrange(from as int, i + 1) == b@.subrange(from as int, i as int).push(b@[i as int]));
        i = i + 1;
    }
}

pub fn is_absolute(p: &Vec<u8>) -> (r: bool)
    ensures
        r == is_absolute_spec(p@),
{
    p.len() > 0 && p[0] == SEP
}

/// The last component of `p`.
pub fn file_name(p: &Vec<u8>) -> (r: Option<Vec<u8>>)
    ensures
        r matches Some(n) ==> file_name_spec(p@) == Some(n@),
        r is None ==> file_name_spec(p@) is None,
{
    let mut s: usize = p.len();
    assert(p@.subrange(0, s as int) == p@);
    while s > 0 && p[s - 1] != SEP
        invariant
            s <= p.len(),
            name_start(p@) == name_start(p@.subrange(0, s as int)),
        decreases s,
    {
        assert(p@.subrange(0, s - 1) == p@.subrange(0, s as int).drop_last());
        s = s - 1;
    }
    proof {
        if s > 0 {
            assert(p@.subrange(0, s as int).last() == SEP);
        }
        assert(name_start(p@) == s as int);
    }
    if s < p.len() {
        let mut n: Vec<u8> = Vec::new();
        append_from(&mut n, p, s);
        Some(n)
    } else {
        None
    }
}

pub fn join(base: &Vec<u8>, name: &Vec<u8>) -> (r: Vec<u8>)
    ensures
        r@ == join_spec(base@, name@),
{
    let mut r = copy_bytes(base);
    if name.len() == 0 {
        return r;
    }
    if !(base.len() > 0 && base[base.len() - 1] == SEP) {
        r.push(SEP);
    }
    append_from(&mut r, name, 0);
    assert(name@.subrange(0, name.len() as int) == name@);
    r
}

pub fn strictly_within(p: &Vec<u8>, dir: &Vec<u8>) -> (r: bool)
    ensures
        r == strictly_within_spec(p@, dir@),
{
    if dir.len() >= p.len() {
        return false;
    }
    let mut i: usize = 0;
    while i < dir.len()
        invariant
            dir.len() < p.len(),
            i <= dir.len(),
            p@.subrange(0, i as int) == dir@.subrange(0, i as int),
        decreases dir.len() - i,
    {
        if p[i] != dir[i] {
            assert(p@.subrange(0, dir.len() as int)[i as int] != dir@[i as int]);
            return false;
        }
        assert(p@.subrange(0, i + 1) == p@.subrange(0, i as int).push(p@[i as int]));
        assert(dir@.subrange(0, i + 1) == dir@.subrange(0, i as int).push(dir@[i as int]));
        i = i + 1;
    }
    assert(dir@ == dir@.subrange(0, dir.len() as int));
    p[dir.len()] == SEP || (dir.len() > 0 && dir[dir.len() - 1] == SEP)
}

pub fn within(p: &Vec<u8>, dir: &Vec<u8>) -> (r: bool)
    ensures
        r == within_spec(p@, dir@),
{
    bytes_eq(p, dir) || strictly_within(p, dir)
}

/// The part of `p` below `dir`.
pub fn relative(p: &Vec<u8>, dir: &Vec<u8>) -> (r: Vec<u8>)
    requires
        strictly_within_spec(p@, dir@),
    ensures
        r@ == relative_spec(p@, dir@),
{
    let mut r: Vec<u8> = Vec::new();
    assert(dir.len() < p.len());
    if p[dir.len()] == SEP {
        append_from(&mut r, p, dir.len() + 1);
    } else {
        append_from(&mut r, p, dir.len());
    }
    r
}

/// How many components deep `rel` goes, saturating at `usize::MAX`.
pub fn depth(rel: &Vec<u8>) -> (r: usize)
    ensures
        r as nat == if depth_spec(rel@) <= usize::MAX { depth_spec(rel@) } else { usize::MAX as nat },
{
    let mut n: usize = 1;
    let mut i: usize = 0;
    while i < rel.len()
        invariant
            i <= rel.len(),
            n as nat == if sep_count(rel@.subrange(0, i as int)) + 1 <= usize::MAX {
                sep_count(rel@.subrange(0, i as int)) + 1
            } else {
                usize::MAX as nat
            },
        decreases rel.len() - i,
    {
        assert(rel@.subrange(0, i as int) == rel@.subrange(0, i + 1).drop_last());
        if rel[i] == SEP && n < usize::MAX {
            n = n + 1;
        }
        i = i + 1;
    }
    assert(rel@ == rel@.subrange(0, rel.len() as int));
    n
}

pub fn swap_path(p: &Vec<u8>) -> (r: Vec<u8>)
    ensures
        r@ == swap_path_spec(p@),
{
    let mut r = copy_bytes(p);
    r.push(46u8);
    r.push(102u8);
    r.push(111u8);
    r.push(114u8);
    r.push(103u8);
    r.push(101u8);
    r.push(45u8);
    r.push(115u8);
    r.push(119u8);
    r.push(97u8);
    r.push(112u8);
    assert(r@ =~= swap_path_spec(p@));
    r
}

} // verus!
