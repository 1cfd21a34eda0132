//! Paths of documents and workspace roots.
use vstd::prelude::*;

verus! {

broadcast use vstd::string::axiom_spec_iter;

/// The characters of `s`, in order.
pub fn chars_of(s: &str) -> (r: Vec<char>)
    ensures
        r@ == s@,
{
    let mut r: Vec<char> = Vec::new();
    for c in it: s.chars()
        invariant
            it.seq() == s@,
            r@ == it.seq().subrange(0, it.index() as int),
    {
        r.push(c);
    }
    r
}


/// A path is absolute when it starts at the file-system root.
pub open spec fn is_absolute(p: Seq<char>) -> bool {
    p.len() > 0 && p[0] == '/'
}

/// Whether `p` lies inside `root`, comparing whole components: `root`
/// itself, or `root` followed by a separator and more.
pub open spec fn in_root(p: Seq<char>, root: Seq<char>) -> bool {
    ||| root.len() == 0
    ||| (root.len() <= p.len() && p.subrange(0, root.len() as int) == root && (p.len()
        == root.len() || root.last() == '/' || p[root.len() as int] == '/'))
}

/// The name of the empty virtual document that a disabled session compiles.
pub open spec fn detached_name() -> Seq<char> {
    "detached.typ"@
}

/// `name` inside the directory `root`.
pub open spec fn join_path(root: Seq<char>, name: Seq<char>) -> Seq<char> {
    if root.len() > 0 && root.last() == '/' {
        root + name
    } else {
        root + "/"@ + name
    }
}

/// The path of the empty virtual document that a disabled session of the
/// workspace `root` compiles.
pub open spec fn detached_entry(root: Seq<char>) -> Seq<char> {
    join_path(root, detached_name())
}

/// Whether `p` is an absolute path.
pub fn is_absolute_path(p: &String) -> (r: bool)
    ensures
        r == is_absolute(p@),
{
    let c = chars_of(p.as_str());
    c.len() > 0 && c[0] == '/'
}

/// Whether `p` lies inside `root`.
pub fn path_in_root(p: &String, root: &String) -> (r: bool)
    ensures
        r == in_root(p@, root@),
{
    let pc = chars_of(p.as_str());
    let rc = chars_of(root.as_str());
    if rc.len() == 0 {
        return true;
    }
    if rc.len() > pc.len() {
        return false;
    }
    let mut i: usize = 0;
    while i < rc.len()
        invariant
            i <= rc.len() <= pc.len(),
            rc.len() > 0,
            pc@ == p@,
            rc@ == root@,
            pc@.subrange(0, i as int) == rc@.subrange(0, i as int),
        decreases rc.len() - i,
    {
        if pc[i] != rc[i] {
            assert(pc@.subrange(0, rc.len() as int)[i as int] == pc@[i as int]);
            assert(pc@.subrange(0, rc.len() as int) != rc@);

            return false;
        }
        assert(pc@.subrange(0, i + 1) =~= pc@.subrange(0, i as int).push(pc@[i as int]));
        assert(rc@.subrange(0, i + 1) =~= rc@.subrange(0, i as int).push(rc@[i as int]));
        i = i + 1;
    }
    assert(rc@.subrange(0, rc.len() as int) =~= rc@);
    pc.len() == rc.len() || rc[rc.len() - 1] == '/' || pc[rc.len()] == '/'
}

/// The path of the empty virtual document that a disabled session of the
/// workspace `root` compiles.
pub fn detached_entry_path(root: &String) -> (r: String)
    ensures
        r@ == detached_entry(root@),
{
    let c = chars_of(root.as_str());
    let mut r = root.clone();
    if !(c.len() > 0 && c[c.len() - 1] == '/') {
        r.append("/");
    }
    r.append("detached.typ");
    r
}
} // verus!
