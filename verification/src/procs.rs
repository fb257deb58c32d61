//! Process-tree questions asked of a snapshot of the process table: is a
//! process a descendant of another (within a few hops), and which
//! processes make up a process and everything it spawned. The shell reads
//! the table (each process's id and its parent's id) from the OS.

use vstd::prelude::*;

verus! {

/// The parent of `pid` in the table `t` (its first row for `pid`), `None`
/// when `pid` is not in the table or has no parent.
pub open spec fn parent_of(t: Seq<(u32, Option<u32>)>, pid: u32) -> Option<u32>
    decreases t.len(),
{
    if t.len() == 0 {
        None
    } else if t[0].0 == pid {
        t[0].1
    } else {
        parent_of(t.drop_first(), pid)
    }
}

/// Whether `pid` has a row in the table.
pub open spec fn present(t: Seq<(u32, Option<u32>)>, pid: u32) -> bool {
    exists|i: int| 0 <= i < t.len() && t[i].0 == pid
}

/// Whether following parents from `cur` meets `target` within `hops`
/// steps (`cur` itself being the first).
pub open spec fn reaches(t: Seq<(u32, Option<u32>)>, cur: Option<u32>, target: u32, hops: nat) -> bool
    decreases hops,
{
    if hops == 0 {
        false
    } else {
        match cur {
            None => false,
            Some(p) => p == target || reaches(t, parent_of(t, p), target, (hops - 1) as nat),
        }
    }
}

/// How far up the tree a descent check looks.
pub const MAX_HOPS: u32 = 8;

/// The parent of `pid` in `t`.
fn lookup_parent(t: &Vec<(u32, Option<u32>)>, pid: u32) -> (r: Option<u32>)
    ensures
        r == parent_of(t@, pid),
{
    let mut i: usize = 0;
    assert(t@.skip(0) =~= t@);
    while i < t.len()
        invariant
            0 <= i <= t@.len(),
            parent_of(t@, pid) == parent_of(t@.skip(i as int), pid),
        decreases t.len() - i,
    {
        assert(t@.skip(i as int).drop_first() =~= t@.skip(i + 1));
        if t[i].0 == pid {
            return t[i].1;
        }
        i += 1;
    }
    assert(t@.skip(i as int) =~= Seq::<(u32, Option<u32>)>::empty());
    None
}

/// Whether `pid` is `target` or descends from it within `MAX_HOPS` steps
/// up the tree; a longer chain (or a cycle in a corrupt table) counts as
/// no.
pub fn pid_descends_from(t: &Vec<(u32, Option<u32>)>, pid: u32, target: u32) -> (r: bool)
    ensures
        r == reaches(t@, Some(pid), target, MAX_HOPS as nat),
{
    let mut current: Option<u32> = Some(pid);
    let mut n: u32 = 0;
    while n < MAX_HOPS
        invariant
            0 <= n <= MAX_HOPS,
            reaches(t@, Some(pid), target, MAX_HOPS as nat) == reaches(t@, current, target, (MAX_HOPS - n) as nat),
        decreases MAX_HOPS - n,
    {
        let p = match current {
            None => {
                return false;
            },
            Some(p) => p,
        };
        if p == target {
            return true;
        }
        current = lookup_parent(t, p);
        n += 1;
    }
    false
}

/// Whether the parent chain of `pid` meets `root`, looking as many steps
/// up as the table has rows (enough for any chain without a cycle).
pub open spec fn under(t: Seq<(u32, Option<u32>)>, pid: u32, root: u32) -> bool {
    reaches(t, parent_of(t, pid), root, t.len())
}

/// The processes a tree rooted at `root` takes in, in table order: `root`
/// itself first when it is in the table, then every other row whose
/// ancestry meets it.
pub open spec fn tree_rows(t: Seq<(u32, Option<u32>)>, rows: Seq<(u32, Option<u32>)>, root: u32) -> Seq<u32>
    decreases rows.len(),
{
    if rows.len() == 0 {
        Seq::empty()
    } else {
        let before = tree_rows(t, rows.drop_last(), root);
        let (pid, _) = rows.last();
        if pid != root && under(t, pid, root) {
            before.push(pid)
        } else {
            before
        }
    }
}

/// `root` and its descendants.
pub open spec fn tree_of(t: Seq<(u32, Option<u32>)>, root: u32) -> Seq<u32> {
    (if present(t, root) {
        seq![root]
    } else {
        Seq::empty()
    }) + tree_rows(t, t, root)
}

/// Whether the parent chain from `cur` meets `root` within `hops` steps.
fn walk_meets(t: &Vec<(u32, Option<u32>)>, cur: Option<u32>, root: u32, hops: usize) -> (r: bool)
    ensures
        r == reaches(t@, cur, root, hops as nat),
{
    let mut current = cur;
    let mut n: usize = 0;
    while n < hops
        invariant
            0 <= n <= hops,
            reaches(t@, cur, root, hops as nat) == reaches(t@, current, root, (hops - n) as nat),
        decreases hops - n,
    {
        let p = match current {
            None => {
                return false;
            },
            Some(p) => p,
        };
        if p == root {
            return true;
        }
        current = lookup_parent(t, p);
        n += 1;
    }
    false
}

/// The ids of `root` and of every process descended from it. A parent
/// chain is followed at most as many steps as the table has rows.
pub fn descendants_including(t: &Vec<(u32, Option<u32>)>, root: u32) -> (r: Vec<u32>)
    ensures
        r@ == tree_of(t@, root),
{
    let mut out: Vec<u32> = Vec::new();
    let mut found = false;
    let mut i: usize = 0;
    while i < t.len()
        invariant
            0 <= i <= t@.len(),
            found == exists|k: int| 0 <= k < i && t@[k].0 == root,
        decreases t.len() - i,
    {
        if t[i].0 == root {
            found = true;
        }
        i += 1;
    }
    if found {
        out.push(root);
    }
    let ghost head = out@;
    assert(head == (if present(t@, root) {
        seq![root]
    } else {
        Seq::<u32>::empty()
    }));
    let mut j: usize = 0;
    assert(t@.take(0) =~= Seq::<(u32, Option<u32>)>::empty());
    assert(head + tree_rows(t@, t@.take(0), root) =~= head);
    while j < t.len()
        invariant
            0 <= j <= t@.len(),
            out@ == head + tree_rows(t@, t@.take(j as int), root),
        decreases t.len() - j,
    {
        assert(t@.take(j + 1).drop_last() =~= t@.take(j as int));
        assert(t@.take(j + 1).last() == t@[j as int]);
        let pid = t[j].0;
        if pid != root {
            let parent = lookup_parent(t, pid);
            if walk_meets(t, parent, root, t.len()) {
                out.push(pid);
            }
        }
        j += 1;
    }
    assert(t@.take(t@.len() as int) =~= t@);
    out
}

} // verus!
