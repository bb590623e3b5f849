//! The specification model: root resolution over the folder table, composite
//! share keys, access decisions, and the sequence helpers the contracts use.

use vstd::prelude::*;

use crate::types::{FolderModel, ShareDocModel, ErrorKind, PERMISSION_WRITE};

verus! {

/// The step budget of root resolution: a parent walk longer than this fails
/// with [`ErrorKind::CycleOrDepthExceeded`] instead of running on.
pub const MAX_DEPTH: usize = 1024;

/// Outcome of walking the `parent` chain from a node.
pub ghost enum WalkResult {
    /// A self-loop node was reached. `root` is its id; `anchor` is the id of
    /// the last node of the walk before the root (the first-level folder whose
    /// subtree the walk started in), or `root` itself when the walk started at
    /// the root.
    Found { root: Seq<char>, anchor: Seq<char> },
    /// The walk met an id with no node: the start id itself, or a dangling
    /// `parent` of an orphaned node.
    Missing { at: Seq<char> },
    /// The fuel ran out before a self-loop was reached.
    Exhausted,
}

/// Walks the `parent` chain from `id` through `folders`, spending one unit of
/// fuel per step, until it reaches a self-loop root, a missing node, or the
/// end of the fuel.
pub open spec fn walk(folders: Map<Seq<char>, FolderModel>, id: Seq<char>, fuel: nat) -> WalkResult
    decreases fuel,
{
    if !folders.contains_key(id) {
        WalkResult::Missing { at: id }
    } else if folders[id].parent == id {
        WalkResult::Found { root: id, anchor: id }
    } else if fuel == 0 {
        WalkResult::Exhausted
    } else {
        match walk(folders, folders[id].parent, (fuel - 1) as nat) {
            WalkResult::Found { root, anchor } => WalkResult::Found {
                root,
                anchor: if folders[id].parent == root {
                    id
                } else {
                    anchor
                },
            },
            other => other,
        }
    }
}

/// The composite key under which a grant from `owner` to `grantee` over
/// `resource` is stored: the three ids joined by underscores.
pub open spec fn share_key(owner: Seq<char>, grantee: Seq<char>, resource: Seq<char>) -> Seq<char> {
    owner + seq!['_'] + grantee + seq!['_'] + resource
}

/// Whether `caller` may mutate a tree owned by `owner`, when the grants are
/// looked up against `target` (the subtree anchor of the affected tree):
/// the owner always may; anyone else needs a recorded grant with write
/// permission.
pub open spec fn accessible(
    docs: Map<Seq<char>, ShareDocModel>,
    owner: Seq<char>,
    target: Seq<char>,
    caller: Seq<char>,
) -> bool {
    ||| caller == owner
    ||| {
        &&& docs.contains_key(share_key(owner, caller, target))
        &&& docs[share_key(owner, caller, target)].permission == PERMISSION_WRITE
    }
}

/// The exact failure of the access check of [`accessible`], if any: absent
/// grant, or a grant without write permission.
pub open spec fn access_error(
    docs: Map<Seq<char>, ShareDocModel>,
    owner: Seq<char>,
    target: Seq<char>,
    caller: Seq<char>,
) -> Option<ErrorKind> {
    if caller == owner {
        None
    } else if !docs.contains_key(share_key(owner, caller, target)) {
        Some(ErrorKind::NotShared)
    } else if docs[share_key(owner, caller, target)].permission != PERMISSION_WRITE {
        Some(ErrorKind::InsufficientPermission)
    } else {
        None
    }
}

/// A sequence of ids without repetition.
pub open spec fn nodup(s: Seq<Seq<char>>) -> bool {
    forall|i: int, j: int| 0 <= i < j < s.len() ==> s[i] != s[j]
}

/// `s` with its first occurrence of `x` removed; `s` itself if `x` does not
/// occur.
pub open spec fn remove_first(s: Seq<Seq<char>>, x: Seq<char>) -> Seq<Seq<char>>
    decreases s.len(),
{
    if s.len() == 0 {
        s
    } else if s[0] == x {
        s.drop_first()
    } else {
        seq![s[0]] + remove_first(s.drop_first(), x)
    }
}

/// The grantee's reverse index after recording the grant stored under `key`:
/// the key is appended to the grantee's list unless already present, and a
/// fresh one-element list is created for a first-time grantee.
pub open spec fn index_after_grant(
    index: Map<Seq<char>, Seq<Seq<char>>>,
    grantee: Seq<char>,
    key: Seq<char>,
) -> Map<Seq<char>, Seq<Seq<char>>> {
    if index.contains_key(grantee) {
        if index[grantee].contains(key) {
            index
        } else {
            index.insert(grantee, index[grantee].push(key))
        }
    } else {
        index.insert(grantee, seq![key])
    }
}

/// A walk that found a root really found one: the root is a live self-loop
/// node, and the anchor is a live node sitting directly below it (or the root
/// itself, when the walk started there).
pub proof fn lemma_walk_found(folders: Map<Seq<char>, FolderModel>, id: Seq<char>, fuel: nat)
    ensures
        walk(folders, id, fuel) matches WalkResult::Found { root, anchor } ==> {
            &&& folders.contains_key(id)
            &&& folders.contains_key(root)
            &&& folders[root].parent == root
            &&& folders.contains_key(anchor)
            &&& folders[anchor].parent == root
            &&& (anchor == root ==> id == root)
        },
    decreases fuel,
{
    if folders.contains_key(id) && folders[id].parent != id && fuel > 0 {
        lemma_walk_found(folders, folders[id].parent, (fuel - 1) as nat);
    }
}

/// One live, non-root step of a settled walk: when the walk from `id` found
/// a root and `id` is not itself the root, `id`'s parent exists and the walk
/// from it found the same root.
pub proof fn lemma_walk_found_step(folders: Map<Seq<char>, FolderModel>, id: Seq<char>, fuel: nat)
    requires
        walk(folders, id, fuel) is Found,
        folders.contains_key(id),
        folders[id].parent != id,
    ensures
        fuel > 0,
        folders.contains_key(folders[id].parent),
        walk(folders, folders[id].parent, (fuel - 1) as nat) is Found,
        walk(folders, folders[id].parent, (fuel - 1) as nat)->Found_root == walk(
            folders,
            id,
            fuel,
        )->Found_root,
{
    lemma_walk_found(folders, folders[id].parent, (fuel - 1) as nat);
}

/// Extra fuel changes nothing once the walk has settled: a walk that found a
/// root, or stopped at a missing node, gives the same answer with any larger
/// budget.
pub proof fn lemma_walk_fuel_mono(
    folders: Map<Seq<char>, FolderModel>,
    id: Seq<char>,
    f1: nat,
    f2: nat,
)
    requires
        f1 <= f2,
        !(walk(folders, id, f1) is Exhausted),
    ensures
        walk(folders, id, f2) == walk(folders, id, f1),
    decreases f1,
{
    if folders.contains_key(id) && folders[id].parent != id {
        lemma_walk_fuel_mono(folders, folders[id].parent, (f1 - 1) as nat, (f2 - 1) as nat);
    }
}

/// Removing the first occurrence at its known index: when `x` first occurs at
/// position `i`, [`remove_first`] is exactly the removal of position `i`.
pub proof fn lemma_remove_first_at(s: Seq<Seq<char>>, x: Seq<char>, i: int)
    requires
        0 <= i < s.len(),
        s[i] == x,
        forall|j: int| 0 <= j < i ==> s[j] != x,
    ensures
        remove_first(s, x) == s.remove(i),
    decreases i,
{
    if i == 0 {
        assert(remove_first(s, x) =~= s.remove(0));
    } else {
        lemma_remove_first_at(s.drop_first(), x, i - 1);
        assert(remove_first(s, x) =~= s.remove(i));
    }
}

} // verus!
