//! The laws the library obeys, stated and proved over the contracts of the
//! operations in [`crate::contract`].

use vstd::prelude::*;

use crate::contract::{
    create_folder_error, root_folder_model, share_applied, Contract,
};
use crate::model::{
    access_error, lemma_walk_fuel_mono, nodup, share_key, walk, WalkResult, MAX_DEPTH,
};
use crate::types::{ErrorKind, FolderModel, ShareDocModel, PERMISSION_WRITE};

verus! {

/// Immediately after registration, resolving the registered account id finds
/// the account's own fresh root at once: a node that is its own parent.
pub proof fn lemma_registration_resolves_root(
    pre: Contract,
    post: Contract,
    caller: Seq<char>,
    created_at: u64,
    fuel: nat,
)
    requires
        post.folders_view() == pre.folders_view().insert(
            caller,
            root_folder_model(caller, created_at),
        ),
    ensures
        walk(post.folders_view(), caller, fuel) == (WalkResult::Found {
            root: caller,
            anchor: caller,
        }),
        post.folders_view()[caller].parent == caller,
{
}

/// Creating a folder under an id that already names an account or a folder
/// always fails with `AlreadyExists`, whoever calls and wherever the parent
/// lies.
pub proof fn lemma_create_folder_collision(
    pre: Contract,
    caller: Seq<char>,
    id: Seq<char>,
    parent: Seq<char>,
)
    requires
        pre.users_view().contains_key(id) || pre.folders_view().contains_key(id),
    ensures
        create_folder_error(pre, caller, id, parent) == Some(ErrorKind::AlreadyExists),
{
}

/// A parent chain that reaches its self-loop root within the step budget
/// resolves to exactly that root: the bounded walk spends no more fuel than
/// the chain's depth asks, and more budget changes nothing.
pub proof fn lemma_chain_resolves(
    folders: Map<Seq<char>, FolderModel>,
    id: Seq<char>,
    depth: nat,
)
    requires
        depth <= MAX_DEPTH,
        walk(folders, id, depth) is Found,
    ensures
        walk(folders, id, MAX_DEPTH as nat) == walk(folders, id, depth),
{
    lemma_walk_fuel_mono(folders, id, depth, MAX_DEPTH as nat);
}

/// The access decision, case by case: the owner always passes; a grantee
/// holding a write grant on the target passes; a grantee with no grant fails
/// as not shared; a grantee whose grant lacks write permission fails as
/// insufficient.
pub proof fn lemma_access_cases(
    docs: Map<Seq<char>, ShareDocModel>,
    owner: Seq<char>,
    target: Seq<char>,
    caller: Seq<char>,
)
    ensures
        caller == owner ==> access_error(docs, owner, target, caller) is None,
        caller != owner && docs.contains_key(share_key(owner, caller, target)) && docs[share_key(
            owner,
            caller,
            target,
        )].permission == PERMISSION_WRITE ==> access_error(docs, owner, target, caller) is None,
        caller != owner && !docs.contains_key(share_key(owner, caller, target)) ==> access_error(
            docs,
            owner,
            target,
            caller,
        ) == Some(ErrorKind::NotShared),
        caller != owner && docs.contains_key(share_key(owner, caller, target)) && docs[share_key(
            owner,
            caller,
            target,
        )].permission != PERMISSION_WRITE ==> access_error(docs, owner, target, caller) == Some(
            ErrorKind::InsufficientPermission,
        ),
{
}

/// Sharing the same (owner, grantee, resource) triple twice keeps exactly
/// one grant, carrying the later password, permission, kind and stamp; the
/// grant table grows by at most that one key, and the grantee's index lists
/// the key once, without duplicates — the second share adds no index entry
/// at all.
pub proof fn lemma_reshare_upserts(
    c0: Contract,
    c1: Contract,
    c2: Contract,
    owner: Seq<char>,
    grantee: Seq<char>,
    resource: Seq<char>,
    password1: Seq<char>,
    password2: Seq<char>,
    permission1: u8,
    permission2: u8,
    created_at1: u64,
    created_at2: u64,
    doc_type1: u8,
    doc_type2: u8,
)
    requires
        c0.wf(),
        share_applied(
            c0,
            c1,
            owner,
            grantee,
            resource,
            password1,
            permission1,
            created_at1,
            doc_type1,
        ),
        share_applied(
            c1,
            c2,
            owner,
            grantee,
            resource,
            password2,
            permission2,
            created_at2,
            doc_type2,
        ),
    ensures
        c2.docs_view()[share_key(owner, grantee, resource)] == (ShareDocModel {
            doc_id: resource,
            share_password: password2,
            permission: permission2,
            created_at: created_at2,
            doc_type: doc_type2,
        }),
        c2.docs_view().dom() == c0.docs_view().dom().insert(share_key(owner, grantee, resource)),
        c2.index_view().contains_key(grantee),
        c2.index_view()[grantee].contains(share_key(owner, grantee, resource)),
        nodup(c2.index_view()[grantee]),
        c2.index_view() == c1.index_view(),
{
    let key = share_key(owner, grantee, resource);
    assert(c2.docs_view().dom() =~= c0.docs_view().dom().insert(key));
    if c0.index_view().contains_key(grantee) {
        assert(c0.index_view().contains_key(grantee));
        assert(nodup(c0.index_view()[grantee]));
        if c0.index_view()[grantee].contains(key) {
            assert(c1.index_view()[grantee].contains(key));
        } else {
            let s1 = c0.index_view()[grantee].push(key);
            assert(s1[s1.len() - 1] == key);
            assert(c1.index_view()[grantee] == s1);
            assert(nodup(s1));
        }
    } else {
        assert(c1.index_view()[grantee] == seq![key]);
        assert(c1.index_view()[grantee].contains(key)) by {
            assert(c1.index_view()[grantee][0] == key);
        }
    }
    assert(c1.index_view().contains_key(grantee));
    assert(c1.index_view()[grantee].contains(key));
}

/// Removing a folder touches nothing but the removed node and its parent:
/// every other node — the orphaned descendants included — is still
/// fetchable by id, unchanged.
pub proof fn lemma_removal_spares_descendants(
    pre: Map<Seq<char>, FolderModel>,
    post: Map<Seq<char>, FolderModel>,
    removed: Seq<char>,
    parent: Seq<char>,
    kept: Seq<char>,
    parent_after: FolderModel,
)
    requires
        post == pre.remove(removed).insert(parent, parent_after),
        kept != removed,
        kept != parent,
    ensures
        post.contains_key(kept) == pre.contains_key(kept),
        pre.contains_key(kept) ==> post[kept] == pre[kept],
{
}

/// Whether the parent walk from `id`, within `fuel` steps, passes through
/// `node` before settling.
pub open spec fn chain_passes(
    folders: Map<Seq<char>, FolderModel>,
    id: Seq<char>,
    node: Seq<char>,
    fuel: nat,
) -> bool
    decreases fuel,
{
    if id == node {
        true
    } else if !folders.contains_key(id) {
        false
    } else if folders[id].parent == id {
        false
    } else if fuel == 0 {
        false
    } else {
        chain_passes(folders, folders[id].parent, node, (fuel - 1) as nat)
    }
}

/// Orphans resolve nowhere: in a state where `removed` is absent — as after
/// its removal — any node whose parent chain passes through `removed`, at
/// whatever depth, walks into the gap and reaches no root at all.
pub proof fn lemma_orphan_resolves_nowhere(
    folders: Map<Seq<char>, FolderModel>,
    removed: Seq<char>,
    id: Seq<char>,
    fuel: nat,
)
    requires
        !folders.contains_key(removed),
        chain_passes(folders, id, removed, fuel),
    ensures
        walk(folders, id, fuel) == (WalkResult::Missing { at: removed }),
    decreases fuel,
{
    if id != removed {
        lemma_orphan_resolves_nowhere(folders, removed, folders[id].parent, (fuel - 1) as nat);
    }
}

} // verus!
