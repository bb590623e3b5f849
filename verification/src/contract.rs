//! The contract state — five keyed tables — and every operation on it.
//!
//! Mutating operations take the caller's identity as an explicit parameter —
//! the embedding host asserts it — validate first, and only then write: a
//! call that returns an error leaves the state exactly as it was.

use vstd::hash_map::StringHashMap;
use vstd::prelude::*;
use vstd::string::StringExecFns;

use crate::model::{
    access_error, accessible, index_after_grant, lemma_remove_first_at, lemma_walk_found,
    lemma_walk_found_step, nodup, remove_first, share_key, walk, WalkResult, MAX_DEPTH,
};
use crate::types::{
    clone_string_vec, vec_contains_string, vec_index_of_string, ErrorKind, File,
    FileModel, FolderModel, FolderV2, ShareDoc, ShareDocModel, User, UserModel, DOC_TYPE_FILE,
    DOC_TYPE_FOLDER, FOLDER_TYPE_COMMON, FOLDER_TYPE_SHARED, PERMISSION_WRITE,
};

verus! {

/// The whole persistent state: users, folder nodes, file records, grants,
/// and the per-grantee reverse index of grant keys.
pub struct Contract {
    pub folders_v2: StringHashMap<FolderV2>,
    pub users: StringHashMap<User>,
    pub files: StringHashMap<File>,
    pub shared_docs: StringHashMap<ShareDoc>,
    pub shared_doc_of_user: StringHashMap<Vec<String>>,
}

/// Compares two borrowed ids by their characters.
pub fn str_equal(a: &str, b: &str) -> (r: bool)
    ensures
        r == (a@ == b@),
{
    let sa = a.to_owned();
    let sb = b.to_owned();
    sa == sb
}

/// Builds the composite grant key `"{owner}_{grantee}_{resource}"`.
pub fn make_share_key(owner: &str, grantee: &str, resource: &str) -> (res: String)
    ensures
        res@ == share_key(owner@, grantee@, resource@),
{
    let mut key = owner.to_owned();
    key.append("_");
    key.append(grantee);
    key.append("_");
    key.append(resource);
    proof {
        reveal_strlit("_");
        assert(key@ =~= share_key(owner@, grantee@, resource@));
    }
    key
}

impl Contract {
    /// The registered users, as a map from account id to user model.
    pub open spec fn users_view(&self) -> Map<Seq<char>, UserModel> {
        Map::new(|k: Seq<char>| self.users@.contains_key(k), |k: Seq<char>| self.users@[k]@)
    }

    /// The folder tree store, as a map from node id to folder model.
    pub open spec fn folders_view(&self) -> Map<Seq<char>, FolderModel> {
        Map::new(
            |k: Seq<char>| self.folders_v2@.contains_key(k),
            |k: Seq<char>| self.folders_v2@[k]@,
        )
    }

    /// The file registry, as a map from file id to file model.
    pub open spec fn files_view(&self) -> Map<Seq<char>, FileModel> {
        Map::new(|k: Seq<char>| self.files@.contains_key(k), |k: Seq<char>| self.files@[k]@)
    }

    /// The recorded grants, keyed by their composite share key.
    pub open spec fn docs_view(&self) -> Map<Seq<char>, ShareDocModel> {
        Map::new(
            |k: Seq<char>| self.shared_docs@.contains_key(k),
            |k: Seq<char>| self.shared_docs@[k]@,
        )
    }

    /// The reverse index: grantee id to the grant keys shared with it.
    pub open spec fn index_view(&self) -> Map<Seq<char>, Seq<Seq<char>>> {
        Map::new(
            |k: Seq<char>| self.shared_doc_of_user@.contains_key(k),
            |k: Seq<char>| self.shared_doc_of_user@[k].deep_view(),
        )
    }

    /// Well-formedness: no grantee's index list repeats a key. Established by
    /// [`Contract::default`] and preserved by every operation.
    pub open spec fn wf(&self) -> bool {
        forall|g: Seq<char>|
            #[trigger] self.index_view().contains_key(g) ==> nodup(self.index_view()[g])
    }

}

impl Default for Contract {
    /// The empty state: no users, no folders, no files, no grants.
    fn default() -> (res: Self)
        ensures
            res.users_view() == Map::<Seq<char>, UserModel>::empty(),
            res.folders_view() == Map::<Seq<char>, FolderModel>::empty(),
            res.files_view() == Map::<Seq<char>, FileModel>::empty(),
            res.docs_view() == Map::<Seq<char>, ShareDocModel>::empty(),
            res.index_view() == Map::<Seq<char>, Seq<Seq<char>>>::empty(),
            res.wf(),
    {
        let res = Contract {
            folders_v2: StringHashMap::new(),
            users: StringHashMap::new(),
            files: StringHashMap::new(),
            shared_docs: StringHashMap::new(),
            shared_doc_of_user: StringHashMap::new(),
        };
        proof {
            assert(res.users_view() =~= Map::<Seq<char>, UserModel>::empty());
            assert(res.folders_view() =~= Map::<Seq<char>, FolderModel>::empty());
            assert(res.files_view() =~= Map::<Seq<char>, FileModel>::empty());
            assert(res.docs_view() =~= Map::<Seq<char>, ShareDocModel>::empty());
            assert(res.index_view() =~= Map::<Seq<char>, Seq<Seq<char>>>::empty());
        }
        res
    }
}

impl Contract {
    /// Rejects a candidate folder id that collides with a registered account
    /// id or an existing folder id (ids are unique across both namespaces).
    pub fn validate_folder(&self, folder_id: &str) -> (r: Result<(), ErrorKind>)
        ensures
            match r {
                Ok(()) => !self.users_view().contains_key(folder_id@)
                    && !self.folders_view().contains_key(folder_id@),
                Err(e) => e == ErrorKind::AlreadyExists && (self.users_view().contains_key(
                    folder_id@,
                ) || self.folders_view().contains_key(folder_id@)),
            },
    {
        if self.users.contains_key(folder_id) {
            return Err(ErrorKind::AlreadyExists);
        }
        if self.folders_v2.contains_key(folder_id) {
            return Err(ErrorKind::AlreadyExists);
        }
        Ok(())
    }

    /// Requires the caller to be the owner itself: the strict check used by
    /// the removal operations, which accept no delegated grant.
    pub fn validate_user(&self, account_id: &str, owner_id: &str) -> (r: Result<(), ErrorKind>)
        ensures
            match r {
                Ok(()) => account_id@ == owner_id@,
                Err(e) => e == ErrorKind::NotOwner && account_id@ != owner_id@,
            },
    {
        if str_equal(account_id, owner_id) {
            Ok(())
        } else {
            Err(ErrorKind::NotOwner)
        }
    }

    /// Rejects a candidate file id that already names a file record.
    pub fn validate_file(&self, file_id: &str) -> (r: Result<(), ErrorKind>)
        ensures
            match r {
                Ok(()) => !self.files_view().contains_key(file_id@),
                Err(e) => e == ErrorKind::AlreadyExists && self.files_view().contains_key(file_id@),
            },
    {
        if self.files.contains_key(file_id) {
            return Err(ErrorKind::AlreadyExists);
        }
        Ok(())
    }

    /// Requires the resolved folder to carry exactly the expected
    /// classification; an unset classification also fails.
    pub fn validate_folder_type(&self, root_folder: &Option<FolderV2>, folder_type: u8) -> (r:
        Result<(), ErrorKind>)
        ensures
            match r {
                Ok(()) => root_folder matches Some(f) && f.folder_type == Some(folder_type),
                Err(e) => match root_folder {
                    Some(f) => e == ErrorKind::WrongFolderKind && f.folder_type != Some(
                        folder_type,
                    ),
                    None => e == ErrorKind::NotFound,
                },
            },
    {
        match root_folder {
            Some(folder) => match folder.folder_type {
                Some(t) => {
                    if t == folder_type {
                        Ok(())
                    } else {
                        Err(ErrorKind::WrongFolderKind)
                    }
                },
                None => Err(ErrorKind::WrongFolderKind),
            },
            None => Err(ErrorKind::NotFound),
        }
    }

    /// Decides whether `account_id` may mutate the tree whose resolved root
    /// node is `root_folder`, with grants looked up against `folder_id` (the
    /// tree's subtree anchor). The owner — the account named by the root's
    /// `parent` self-loop — always passes; anyone else needs a recorded grant
    /// with write permission on `folder_id`.
    pub fn verify_accessible(
        &self,
        root_folder: &Option<FolderV2>,
        folder_id: &str,
        account_id: &str,
    ) -> (r: Result<(), ErrorKind>)
        ensures
            match r {
                Ok(()) => root_folder matches Some(f) && accessible(
                    self.docs_view(),
                    f.parent@,
                    folder_id@,
                    account_id@,
                ),
                Err(e) => match root_folder {
                    Some(f) => access_error(self.docs_view(), f.parent@, folder_id@, account_id@)
                        == Some(e),
                    None => e == ErrorKind::NotFound,
                },
            },
    {
        match root_folder {
            Some(folder) => {
                if str_equal(account_id, folder.parent.as_str()) {
                    return Ok(());
                }
                let key = make_share_key(folder.parent.as_str(), account_id, folder_id);
                match self.shared_docs.get(key.as_str()) {
                    Some(doc) => {
                        if doc.permission == PERMISSION_WRITE {
                            Ok(())
                        } else {
                            Err(ErrorKind::InsufficientPermission)
                        }
                    },
                    None => Err(ErrorKind::NotShared),
                }
            },
            None => Err(ErrorKind::NotFound),
        }
    }
}

/// The model of the root folder created for `owner` at registration: named
/// "root", empty, classified as neither private nor shared, and its own
/// parent (the self-loop that marks the top of a tree).
pub open spec fn root_folder_model(owner: Seq<char>, created_at: u64) -> FolderModel {
    FolderModel {
        name: "root"@,
        files: Seq::empty(),
        parent: owner,
        children: Seq::empty(),
        folder_type: None,
        folder_password: None,
        created_by: owner,
        created_at,
    }
}

impl Contract {
    /// Follows `parent` links from `folder_id`, spending at most
    /// [`MAX_DEPTH`] steps, and returns the ids of the tree's self-loop root
    /// and of its subtree anchor (the last node of the walk before the root).
    fn walk_ids(&self, folder_id: &str) -> (r: Result<(String, String), ErrorKind>)
        ensures
            match r {
                Ok(p) => walk(self.folders_view(), folder_id@, MAX_DEPTH as nat)
                    == (WalkResult::Found { root: p.0@, anchor: p.1@ }),
                Err(e) => match walk(self.folders_view(), folder_id@, MAX_DEPTH as nat) {
                    WalkResult::Found { .. } => false,
                    WalkResult::Missing { .. } => e == ErrorKind::NotFound,
                    WalkResult::Exhausted => e == ErrorKind::CycleOrDepthExceeded,
                },
            },
    {
        let ghost m = self.folders_view();
        let node0 = match self.folders_v2.get(folder_id) {
            None => {
                return Err(ErrorKind::NotFound);
            },
            Some(n) => n,
        };
        let mut current: String = folder_id.to_owned();
        let mut parent: String = node0.parent.clone();
        let mut cand: String = folder_id.to_owned();
        let mut steps: usize = 0;
        loop
            invariant
                m == self.folders_view(),
                m.contains_key(current@),
                parent@ == m[current@].parent,
                steps <= MAX_DEPTH,
                steps == 0 ==> current@ == folder_id@,
                match walk(m, current@, (MAX_DEPTH - steps) as nat) {
                    WalkResult::Found { root, anchor } => walk(m, folder_id@, MAX_DEPTH as nat)
                        == (WalkResult::Found {
                        root,
                        anchor: if root == current@ && steps > 0 {
                            cand@
                        } else {
                            anchor
                        },
                    }),
                    other => walk(m, folder_id@, MAX_DEPTH as nat) == other,
                },
            decreases MAX_DEPTH - steps,
        {
            if str_equal(current.as_str(), parent.as_str()) {
                let root_id = current.clone();
                let anchor_id = if steps == 0 {
                    current
                } else {
                    cand
                };
                return Ok((root_id, anchor_id));
            }
            if steps == MAX_DEPTH {
                return Err(ErrorKind::CycleOrDepthExceeded);
            }
            match self.folders_v2.get(parent.as_str()) {
                None => {
                    return Err(ErrorKind::NotFound);
                },
                Some(parent_node) => {
                    proof {
                        lemma_walk_found(m, parent@, (MAX_DEPTH - steps - 1) as nat);
                        assert(m[current@].parent != current@);
                    }
                    let next_parent = parent_node.parent.clone();
                    cand = current;
                    current = parent;
                    parent = next_parent;
                    steps = steps + 1;
                },
            }
        }
    }

    /// Resolves the tree root of `folder_id`: walks `parent` links until the
    /// self-loop node is reached, and returns that node together with its id.
    /// The walk is bounded, so a malformed chain fails with
    /// [`ErrorKind::CycleOrDepthExceeded`] instead of running on; a missing
    /// node — the start itself, or a dangling parent of an orphan — fails
    /// with [`ErrorKind::NotFound`].
    pub fn get_root(&self, folder_id: &str) -> (r: Result<(FolderV2, String), ErrorKind>)
        ensures
            match r {
                Ok(p) => {
                    &&& walk(self.folders_view(), folder_id@, MAX_DEPTH as nat)
                        matches WalkResult::Found { root, anchor } && root == p.1@
                    &&& self.folders_view().contains_key(p.1@)
                    &&& p.0@ == self.folders_view()[p.1@]
                    &&& p.0@.parent == p.1@
                },
                Err(e) => match walk(self.folders_view(), folder_id@, MAX_DEPTH as nat) {
                    WalkResult::Found { .. } => false,
                    WalkResult::Missing { .. } => e == ErrorKind::NotFound,
                    WalkResult::Exhausted => e == ErrorKind::CycleOrDepthExceeded,
                },
            },
    {
        let root_id = match self.walk_ids(folder_id) {
            Ok(p) => p.0,
            Err(e) => {
                return Err(e);
            },
        };
        proof {
            lemma_walk_found(self.folders_view(), folder_id@, MAX_DEPTH as nat);
        }
        match self.folders_v2.get(root_id.as_str()) {
            Some(node) => Ok((node.clone(), root_id)),
            None => {
                proof {
                    assert(false);
                }
                Err(ErrorKind::NotFound)
            },
        }
    }

    /// Registers (or re-registers) the calling account: stores its public
    /// key and encrypted credential, and creates the account's root folder —
    /// a self-loop node under the account's own id — atomically with it.
    /// Re-registration overwrites both records.
    pub fn sign_up(
        &mut self,
        caller: &str,
        public_key: String,
        encrypted_token: String,
        created_at: u64,
    )
        ensures
            final(self).users_view() == old(self).users_view().insert(
                caller@,
                (UserModel { public_key: public_key@, encrypted_token: encrypted_token@ }),
            ),
            final(self).folders_view() == old(self).folders_view().insert(
                caller@,
                root_folder_model(caller@, created_at),
            ),
            final(self).files_view() == old(self).files_view(),
            final(self).docs_view() == old(self).docs_view(),
            final(self).index_view() == old(self).index_view(),
            old(self).wf() ==> final(self).wf(),
    {
        let user = User { public_key, encrypted_token };
        self.users.insert(caller.to_owned(), user);
        let root = FolderV2 {
            name: "root".to_owned(),
            files: Vec::new(),
            parent: caller.to_owned(),
            children: Vec::new(),
            folder_password: None,
            created_by: caller.to_owned(),
            created_at,
            folder_type: None,
        };
        let ghost root_model = root@;
        self.folders_v2.insert(caller.to_owned(), root);
        proof {
            assert(self.users_view() =~= old(self).users_view().insert(
                caller@,
                (UserModel { public_key: public_key@, encrypted_token: encrypted_token@ }),
            ));
            assert(root_model.files =~= Seq::<Seq<char>>::empty());
            assert(root_model.children =~= Seq::<Seq<char>>::empty());
            assert(self.folders_view() =~= old(self).folders_view().insert(
                caller@,
                root_folder_model(caller@, created_at),
            ));
            assert(self.files_view() =~= old(self).files_view());
            assert(self.docs_view() =~= old(self).docs_view());
            assert(self.index_view() =~= old(self).index_view());
        }
    }
}

/// The model of a folder freshly created inside `parent`.
pub open spec fn new_folder_model(
    name: Seq<char>,
    parent: Seq<char>,
    folder_type: Option<u8>,
    folder_password: Option<Seq<char>>,
    created_by: Seq<char>,
    created_at: u64,
) -> FolderModel {
    FolderModel {
        name,
        files: Seq::empty(),
        parent,
        children: Seq::empty(),
        folder_type,
        folder_password,
        created_by,
        created_at,
    }
}

/// `f` with its `children` list replaced.
pub open spec fn folder_with_children(f: FolderModel, children: Seq<Seq<char>>) -> FolderModel {
    FolderModel {
        name: f.name,
        files: f.files,
        parent: f.parent,
        children,
        folder_type: f.folder_type,
        folder_password: f.folder_password,
        created_by: f.created_by,
        created_at: f.created_at,
    }
}

/// `f` with its `files` list replaced.
pub open spec fn folder_with_files(f: FolderModel, files: Seq<Seq<char>>) -> FolderModel {
    FolderModel {
        name: f.name,
        files,
        parent: f.parent,
        children: f.children,
        folder_type: f.folder_type,
        folder_password: f.folder_password,
        created_by: f.created_by,
        created_at: f.created_at,
    }
}

/// The classification actually recorded for a new folder: the caller's
/// choice is honored only directly beneath the caller's own root; elsewhere
/// the folder is created unclassified, whatever was asked.
pub open spec fn effective_folder_type(
    parent: Seq<char>,
    caller: Seq<char>,
    folder_type: Option<u8>,
) -> Option<u8> {
    if parent == caller && folder_type is Some {
        folder_type
    } else {
        None
    }
}

/// The secret actually recorded for a new folder: kept only for a dedicated
/// shared-root folder created directly beneath the caller's own root.
pub open spec fn effective_folder_password(
    parent: Seq<char>,
    caller: Seq<char>,
    folder_type: Option<u8>,
    password: Option<Seq<char>>,
) -> Option<Seq<char>> {
    if parent == caller && folder_type == Some(FOLDER_TYPE_SHARED) {
        password
    } else {
        None
    }
}

/// The exact failure of [`Contract::create_folder_v2`], if any, in the order
/// the checks run: id collision first, then — for a parent outside the
/// caller's own root — root resolution and the access check, and last the
/// existence of the parent node itself.
pub open spec fn create_folder_error(
    pre: Contract,
    caller: Seq<char>,
    id: Seq<char>,
    parent: Seq<char>,
) -> Option<ErrorKind> {
    if pre.users_view().contains_key(id) || pre.folders_view().contains_key(id) {
        Some(ErrorKind::AlreadyExists)
    } else if parent != caller {
        match walk(pre.folders_view(), parent, MAX_DEPTH as nat) {
            WalkResult::Missing { .. } => Some(ErrorKind::NotFound),
            WalkResult::Exhausted => Some(ErrorKind::CycleOrDepthExceeded),
            WalkResult::Found { root, anchor } => access_error(
                pre.docs_view(),
                root,
                anchor,
                caller,
            ),
        }
    } else if !pre.folders_view().contains_key(parent) {
        Some(ErrorKind::NotFound)
    } else {
        None
    }
}

impl Contract {
    /// Creates folder `id` under `parent`. The id must collide with no
    /// account or folder id; a caller creating outside its own root must hold
    /// a write grant on the affected subtree; the classification and secret
    /// are honored only directly beneath the caller's own root. On success
    /// the new node is appended to the parent's children and inserted; on any
    /// failure nothing changes.
    pub fn create_folder_v2(
        &mut self,
        caller: &str,
        id: String,
        name: String,
        parent: String,
        password: Option<String>,
        folder_type: Option<u8>,
        created_at: u64,
    ) -> (r: Result<(), ErrorKind>)
        ensures
            match r {
                Ok(()) => {
                    &&& create_folder_error(*old(self), caller@, id@, parent@) is None
                    &&& old(self).folders_view().contains_key(parent@)
                    &&& id@ != parent@
                    &&& final(self).folders_view() == old(self).folders_view().insert(
                        parent@,
                        folder_with_children(
                            old(self).folders_view()[parent@],
                            old(self).folders_view()[parent@].children.push(id@),
                        ),
                    ).insert(
                        id@,
                        new_folder_model(
                            name@,
                            parent@,
                            effective_folder_type(parent@, caller@, folder_type),
                            effective_folder_password(
                                parent@,
                                caller@,
                                folder_type,
                                password.deep_view(),
                            ),
                            caller@,
                            created_at,
                        ),
                    )
                    &&& final(self).users_view() == old(self).users_view()
                    &&& final(self).files_view() == old(self).files_view()
                    &&& final(self).docs_view() == old(self).docs_view()
                    &&& final(self).index_view() == old(self).index_view()
                },
                Err(e) => create_folder_error(*old(self), caller@, id@, parent@) == Some(e)
                    && *final(self) == *old(self),
            },
            old(self).wf() ==> final(self).wf(),
    {
        match self.validate_folder(id.as_str()) {
            Err(e) => {
                return Err(e);
            },
            Ok(()) => {},
        }
        if !str_equal(parent.as_str(), caller) {
            let (root_id, anchor_id) = match self.walk_ids(parent.as_str()) {
                Ok(p) => p,
                Err(e) => {
                    return Err(e);
                },
            };
            proof {
                lemma_walk_found(self.folders_view(), parent@, MAX_DEPTH as nat);
            }
            let root_node = match self.folders_v2.get(root_id.as_str()) {
                Some(n) => n.clone(),
                None => {
                    proof {
                        assert(false);
                    }
                    return Err(ErrorKind::NotFound);
                },
            };
            let root_opt = Some(root_node);
            match self.verify_accessible(&root_opt, anchor_id.as_str(), caller) {
                Err(e) => {
                    return Err(e);
                },
                Ok(()) => {},
            }
        }
        let mut new_password: Option<String> = None;
        let mut new_type: Option<u8> = None;
        if str_equal(parent.as_str(), caller) {
            match folder_type {
                Some(t) => {
                    if t == FOLDER_TYPE_SHARED {
                        new_password = password;
                    }
                    new_type = Some(t);
                },
                None => {},
            }
        }
        let mut updated_parent = match self.folders_v2.get(parent.as_str()) {
            None => {
                return Err(ErrorKind::NotFound);
            },
            Some(n) => n.clone(),
        };
        updated_parent.children.push(id.clone());
        proof {
            assert(updated_parent@ == folder_with_children(
                old(self).folders_view()[parent@],
                old(self).folders_view()[parent@].children.push(id@),
            )) by {
                assert(updated_parent.children.deep_view() =~= old(
                    self,
                ).folders_view()[parent@].children.push(id@));
            }
        }
        self.folders_v2.insert(parent.clone(), updated_parent);
        let new_node = FolderV2 {
            name,
            files: Vec::new(),
            parent: parent.clone(),
            children: Vec::new(),
            folder_password: new_password,
            folder_type: new_type,
            created_by: caller.to_owned(),
            created_at,
        };
        let ghost new_model = new_node@;
        self.folders_v2.insert(id, new_node);
        proof {
            assert(new_model.files =~= Seq::<Seq<char>>::empty());
            assert(new_model.children =~= Seq::<Seq<char>>::empty());
            assert(self.folders_view() =~= old(self).folders_view().insert(
                parent@,
                folder_with_children(
                    old(self).folders_view()[parent@],
                    old(self).folders_view()[parent@].children.push(id@),
                ),
            ).insert(
                id@,
                new_folder_model(
                    name@,
                    parent@,
                    effective_folder_type(parent@, caller@, folder_type),
                    effective_folder_password(parent@, caller@, folder_type, password.deep_view()),
                    caller@,
                    created_at,
                ),
            ));
            assert(self.users_view() =~= old(self).users_view());
            assert(self.files_view() =~= old(self).files_view());
            assert(self.docs_view() =~= old(self).docs_view());
            assert(self.index_view() =~= old(self).index_view());
        }
        Ok(())
    }
}

/// The model of a file record freshly created by `created_by`: the creation
/// and last-update stamps both name the creator and the creation time.
pub open spec fn new_file_model(
    cid: Seq<char>,
    name: Seq<char>,
    encrypted_password: Option<Seq<char>>,
    file_type: Seq<char>,
    created_by: Seq<char>,
    created_at: u64,
) -> FileModel {
    FileModel {
        cid,
        name,
        encrypted_password,
        file_type,
        last_update: created_at,
        update_by: created_by,
        created_at,
        created_by,
    }
}

/// The exact failure of [`Contract::create_file_v2`], if any: a colliding
/// file id first, then root resolution of the target folder, then the access
/// check against the tree's subtree anchor.
pub open spec fn create_file_error(
    pre: Contract,
    caller: Seq<char>,
    folder: Seq<char>,
    file_id: Seq<char>,
) -> Option<ErrorKind> {
    if pre.files_view().contains_key(file_id) {
        Some(ErrorKind::AlreadyExists)
    } else {
        match walk(pre.folders_view(), folder, MAX_DEPTH as nat) {
            WalkResult::Missing { .. } => Some(ErrorKind::NotFound),
            WalkResult::Exhausted => Some(ErrorKind::CycleOrDepthExceeded),
            WalkResult::Found { root, anchor } => access_error(
                pre.docs_view(),
                root,
                anchor,
                caller,
            ),
        }
    }
}

impl Contract {
    /// Creates file record `file_id` inside `folder`. The id must not name an
    /// existing file; the caller must own the folder's tree or hold a write
    /// grant on its subtree anchor. The id is appended to the folder's file
    /// list unless already listed there, and the record is inserted; on any
    /// failure nothing changes.
    pub fn create_file_v2(
        &mut self,
        caller: &str,
        folder: String,
        file_id: String,
        cid: String,
        name: String,
        encrypted_password: Option<String>,
        file_type: String,
        created_at: u64,
    ) -> (r: Result<(), ErrorKind>)
        ensures
            match r {
                Ok(()) => {
                    &&& create_file_error(*old(self), caller@, folder@, file_id@) is None
                    &&& old(self).folders_view().contains_key(folder@)
                    &&& final(self).files_view() == old(self).files_view().insert(
                        file_id@,
                        new_file_model(
                            cid@,
                            name@,
                            encrypted_password.deep_view(),
                            file_type@,
                            caller@,
                            created_at,
                        ),
                    )
                    &&& final(self).folders_view() == old(self).folders_view().insert(
                        folder@,
                        folder_with_files(
                            old(self).folders_view()[folder@],
                            if old(self).folders_view()[folder@].files.contains(file_id@) {
                                old(self).folders_view()[folder@].files
                            } else {
                                old(self).folders_view()[folder@].files.push(file_id@)
                            },
                        ),
                    )
                    &&& final(self).users_view() == old(self).users_view()
                    &&& final(self).docs_view() == old(self).docs_view()
                    &&& final(self).index_view() == old(self).index_view()
                },
                Err(e) => create_file_error(*old(self), caller@, folder@, file_id@) == Some(e)
                    && *final(self) == *old(self),
            },
            old(self).wf() ==> final(self).wf(),
    {
        match self.validate_file(file_id.as_str()) {
            Err(e) => {
                return Err(e);
            },
            Ok(()) => {},
        }
        let (_root_id, anchor_id) = match self.walk_ids(folder.as_str()) {
            Ok(p) => p,
            Err(e) => {
                return Err(e);
            },
        };
        proof {
            lemma_walk_found(self.folders_view(), folder@, MAX_DEPTH as nat);
        }
        let anchor_node = match self.folders_v2.get(anchor_id.as_str()) {
            Some(n) => n.clone(),
            None => {
                proof {
                    assert(false);
                }
                return Err(ErrorKind::NotFound);
            },
        };
        let root_opt = Some(anchor_node);
        match self.verify_accessible(&root_opt, anchor_id.as_str(), caller) {
            Err(e) => {
                return Err(e);
            },
            Ok(()) => {},
        }
        let mut updated_folder = match self.folders_v2.get(folder.as_str()) {
            Some(n) => n.clone(),
            None => {
                proof {
                    assert(false);
                }
                return Err(ErrorKind::NotFound);
            },
        };
        if !vec_contains_string(&updated_folder.files, file_id.as_str()) {
            updated_folder.files.push(file_id.clone());
            proof {
                assert(updated_folder.files.deep_view() =~= old(
                    self,
                ).folders_view()[folder@].files.push(file_id@));
            }
        }
        let new_file = File {
            cid,
            name,
            encrypted_password,
            file_type,
            created_at,
            created_by: caller.to_owned(),
            last_update: created_at,
            update_by: caller.to_owned(),
        };
        self.folders_v2.insert(folder.clone(), updated_folder);
        self.files.insert(file_id, new_file);
        proof {
            assert(self.files_view() =~= old(self).files_view().insert(
                file_id@,
                new_file_model(
                    cid@,
                    name@,
                    encrypted_password.deep_view(),
                    file_type@,
                    caller@,
                    created_at,
                ),
            ));
            assert(self.folders_view() =~= old(self).folders_view().insert(
                folder@,
                folder_with_files(
                    old(self).folders_view()[folder@],
                    if old(self).folders_view()[folder@].files.contains(file_id@) {
                        old(self).folders_view()[folder@].files
                    } else {
                        old(self).folders_view()[folder@].files.push(file_id@)
                    },
                ),
            ));
            assert(self.users_view() =~= old(self).users_view());
            assert(self.docs_view() =~= old(self).docs_view());
            assert(self.index_view() =~= old(self).index_view());
        }
        Ok(())
    }
}

/// The state change common to both successful share operations: the grant is
/// upserted under its composite key — re-sharing the same triple overwrites —
/// and the key is recorded once in the grantee's reverse index. No other
/// table moves.
pub open spec fn share_applied(
    pre: Contract,
    post: Contract,
    owner: Seq<char>,
    grantee: Seq<char>,
    resource: Seq<char>,
    password: Seq<char>,
    permission: u8,
    created_at: u64,
    doc_type: u8,
) -> bool {
    &&& post.docs_view() == pre.docs_view().insert(
        share_key(owner, grantee, resource),
        (ShareDocModel { doc_id: resource, share_password: password, permission, created_at, doc_type }),
    )
    &&& post.index_view() == index_after_grant(
        pre.index_view(),
        grantee,
        share_key(owner, grantee, resource),
    )
    &&& post.users_view() == pre.users_view()
    &&& post.folders_view() == pre.folders_view()
    &&& post.files_view() == pre.files_view()
}

/// The exact failure of [`Contract::share_file_v2`], if any: self-sharing
/// first, then root resolution of the file's folder, the access check, the
/// demand that the subtree anchor be an ordinary private folder, and last
/// that the folder really lists the file.
pub open spec fn share_file_error(
    pre: Contract,
    caller: Seq<char>,
    file_id: Seq<char>,
    share_with: Seq<char>,
    parent_folder: Seq<char>,
) -> Option<ErrorKind> {
    if caller == share_with {
        Some(ErrorKind::SelfShareRejected)
    } else {
        match walk(pre.folders_view(), parent_folder, MAX_DEPTH as nat) {
            WalkResult::Missing { .. } => Some(ErrorKind::NotFound),
            WalkResult::Exhausted => Some(ErrorKind::CycleOrDepthExceeded),
            WalkResult::Found { root, anchor } => if access_error(
                pre.docs_view(),
                root,
                anchor,
                caller,
            ) is Some {
                access_error(pre.docs_view(), root, anchor, caller)
            } else if pre.folders_view()[anchor].folder_type != Some(FOLDER_TYPE_COMMON) {
                Some(ErrorKind::WrongFolderKind)
            } else if !pre.folders_view()[parent_folder].files.contains(file_id) {
                Some(ErrorKind::NotFound)
            } else {
                None
            },
        }
    }
}

/// The exact failure of [`Contract::share_folder_v2`], if any: self-sharing
/// first, then root resolution, the demand that the shared folder be its
/// tree's subtree anchor, the access check, and last the demand that it be a
/// dedicated shared-root folder.
pub open spec fn share_folder_error(
    pre: Contract,
    caller: Seq<char>,
    folder_id: Seq<char>,
    share_with: Seq<char>,
) -> Option<ErrorKind> {
    if caller == share_with {
        Some(ErrorKind::SelfShareRejected)
    } else {
        match walk(pre.folders_view(), folder_id, MAX_DEPTH as nat) {
            WalkResult::Missing { .. } => Some(ErrorKind::NotFound),
            WalkResult::Exhausted => Some(ErrorKind::CycleOrDepthExceeded),
            WalkResult::Found { root, anchor } => if anchor != folder_id {
                Some(ErrorKind::WrongFolderKind)
            } else if access_error(pre.docs_view(), root, folder_id, caller) is Some {
                access_error(pre.docs_view(), root, folder_id, caller)
            } else if pre.folders_view()[folder_id].folder_type != Some(FOLDER_TYPE_SHARED) {
                Some(ErrorKind::WrongFolderKind)
            } else {
                None
            },
        }
    }
}

impl Contract {
    /// Records `key` in `grantee`'s reverse index: appended to the grantee's
    /// list unless already present, in a fresh one-element list for a
    /// first-time grantee.
    fn record_in_index(&mut self, grantee: String, key: &String)
        ensures
            final(self).index_view() == index_after_grant(
                old(self).index_view(),
                grantee@,
                key@,
            ),
            final(self).users_view() == old(self).users_view(),
            final(self).folders_view() == old(self).folders_view(),
            final(self).files_view() == old(self).files_view(),
            final(self).docs_view() == old(self).docs_view(),
            old(self).wf() ==> final(self).wf(),
    {
        let existing = match self.shared_doc_of_user.get(grantee.as_str()) {
            Some(list) => Some(clone_string_vec(list)),
            None => None,
        };
        match existing {
            Some(mut list) => {
                if !vec_contains_string(&list, key.as_str()) {
                    list.push(key.clone());
                    proof {
                        assert(list.deep_view() =~= old(self).index_view()[grantee@].push(key@));
                    }
                    self.shared_doc_of_user.insert(grantee, list);
                    proof {
                        assert(self.index_view() =~= old(self).index_view().insert(
                            grantee@,
                            old(self).index_view()[grantee@].push(key@),
                        ));
                        assert forall|g: Seq<char>|
                            old(self).wf() && #[trigger] self.index_view().contains_key(g) implies nodup(
                            self.index_view()[g],
                        ) by {
                            if g == grantee@ {
                                let s0 = old(self).index_view()[grantee@];
                                assert(old(self).index_view().contains_key(grantee@));
                                assert(nodup(s0));
                                assert(!s0.contains(key@));
                                assert(forall|i: int| 0 <= i < s0.len() ==> s0[i] != key@);
                            }
                        }
                    }
                } else {
                    self.shared_doc_of_user.insert(grantee, list);
                    proof {
                        assert(self.index_view() =~= old(self).index_view());
                    }
                }
            },
            None => {
                let mut list: Vec<String> = Vec::new();
                list.push(key.clone());
                proof {
                    assert(list.deep_view() =~= seq![key@]);
                }
                self.shared_doc_of_user.insert(grantee, list);
                proof {
                    assert(self.index_view() =~= old(self).index_view().insert(
                        grantee@,
                        seq![key@],
                    ));
                }
            },
        }
        proof {
            assert(self.users_view() =~= old(self).users_view());
            assert(self.folders_view() =~= old(self).folders_view());
            assert(self.files_view() =~= old(self).files_view());
            assert(self.docs_view() =~= old(self).docs_view());
        }
    }

    /// Shares file `file_id`, listed in `parent_folder`, with `share_with`.
    /// Self-sharing is rejected; the caller must pass the access check
    /// against the tree's subtree anchor, which must be an ordinary private
    /// folder; the folder must list the file. On success the grant is
    /// upserted and indexed; on any failure nothing changes.
    pub fn share_file_v2(
        &mut self,
        caller: &str,
        file_id: String,
        share_with: String,
        parent_folder: String,
        password: String,
        permission: u8,
        created_at: u64,
    ) -> (r: Result<(), ErrorKind>)
        ensures
            match r {
                Ok(()) => share_file_error(
                    *old(self),
                    caller@,
                    file_id@,
                    share_with@,
                    parent_folder@,
                ) is None && share_applied(
                    *old(self),
                    *final(self),
                    caller@,
                    share_with@,
                    file_id@,
                    password@,
                    permission,
                    created_at,
                    DOC_TYPE_FILE,
                ),
                Err(e) => share_file_error(
                    *old(self),
                    caller@,
                    file_id@,
                    share_with@,
                    parent_folder@,
                ) == Some(e) && *final(self) == *old(self),
            },
            old(self).wf() ==> final(self).wf(),
    {
        if str_equal(caller, share_with.as_str()) {
            return Err(ErrorKind::SelfShareRejected);
        }
        let (_root_id, anchor_id) = match self.walk_ids(parent_folder.as_str()) {
            Ok(p) => p,
            Err(e) => {
                return Err(e);
            },
        };
        proof {
            lemma_walk_found(self.folders_view(), parent_folder@, MAX_DEPTH as nat);
        }
        let anchor_node = match self.folders_v2.get(anchor_id.as_str()) {
            Some(n) => n.clone(),
            None => {
                proof {
                    assert(false);
                }
                return Err(ErrorKind::NotFound);
            },
        };
        let root_opt = Some(anchor_node);
        match self.verify_accessible(&root_opt, anchor_id.as_str(), caller) {
            Err(e) => {
                return Err(e);
            },
            Ok(()) => {},
        }
        match self.validate_folder_type(&root_opt, FOLDER_TYPE_COMMON) {
            Err(e) => {
                return Err(e);
            },
            Ok(()) => {},
        }
        match self.folders_v2.get(parent_folder.as_str()) {
            Some(folder) => {
                if !vec_contains_string(&folder.files, file_id.as_str()) {
                    return Err(ErrorKind::NotFound);
                }
            },
            None => {
                proof {
                    assert(false);
                }
                return Err(ErrorKind::NotFound);
            },
        }
        let key = make_share_key(caller, share_with.as_str(), file_id.as_str());
        let doc = ShareDoc {
            doc_id: file_id,
            share_password: password,
            permission,
            created_at,
            doc_type: DOC_TYPE_FILE,
        };
        self.shared_docs.insert(key.clone(), doc);
        proof {
            assert(self.docs_view() =~= old(self).docs_view().insert(
                key@,
                (ShareDocModel {
                    doc_id: file_id@,
                    share_password: password@,
                    permission,
                    created_at,
                    doc_type: DOC_TYPE_FILE,
                }),
            ));
            assert(self.users_view() =~= old(self).users_view());
            assert(self.folders_view() =~= old(self).folders_view());
            assert(self.files_view() =~= old(self).files_view());
            assert(self.index_view() =~= old(self).index_view());
        }
        self.record_in_index(share_with, &key);
        Ok(())
    }

    /// Shares the whole folder `folder_id` with `share_with`. Self-sharing
    /// is rejected; the folder must be its tree's subtree anchor — only a
    /// dedicated shared subtree may be shared as a unit — and classified as
    /// a shared root; the caller must pass the access check against it. On
    /// success the grant is upserted and indexed; on any failure nothing
    /// changes.
    pub fn share_folder_v2(
        &mut self,
        caller: &str,
        folder_id: String,
        share_with: String,
        password: String,
        permission: u8,
        created_at: u64,
    ) -> (r: Result<(), ErrorKind>)
        ensures
            match r {
                Ok(()) => share_folder_error(*old(self), caller@, folder_id@, share_with@) is None
                    && share_applied(
                    *old(self),
                    *final(self),
                    caller@,
                    share_with@,
                    folder_id@,
                    password@,
                    permission,
                    created_at,
                    DOC_TYPE_FOLDER,
                ),
                Err(e) => share_folder_error(*old(self), caller@, folder_id@, share_with@) == Some(
                    e,
                ) && *final(self) == *old(self),
            },
            old(self).wf() ==> final(self).wf(),
    {
        if str_equal(caller, share_with.as_str()) {
            return Err(ErrorKind::SelfShareRejected);
        }
        let (_root_id, anchor_id) = match self.walk_ids(folder_id.as_str()) {
            Ok(p) => p,
            Err(e) => {
                return Err(e);
            },
        };
        proof {
            lemma_walk_found(self.folders_view(), folder_id@, MAX_DEPTH as nat);
        }
        if !str_equal(anchor_id.as_str(), folder_id.as_str()) {
            return Err(ErrorKind::WrongFolderKind);
        }
        let anchor_node = match self.folders_v2.get(folder_id.as_str()) {
            Some(n) => n.clone(),
            None => {
                proof {
                    assert(false);
                }
                return Err(ErrorKind::NotFound);
            },
        };
        let root_opt = Some(anchor_node);
        match self.verify_accessible(&root_opt, folder_id.as_str(), caller) {
            Err(e) => {
                return Err(e);
            },
            Ok(()) => {},
        }
        match self.validate_folder_type(&root_opt, FOLDER_TYPE_SHARED) {
            Err(e) => {
                return Err(e);
            },
            Ok(()) => {},
        }
        let key = make_share_key(caller, share_with.as_str(), folder_id.as_str());
        let doc = ShareDoc {
            doc_id: folder_id,
            share_password: password,
            permission,
            created_at,
            doc_type: DOC_TYPE_FOLDER,
        };
        self.shared_docs.insert(key.clone(), doc);
        proof {
            assert(self.docs_view() =~= old(self).docs_view().insert(
                key@,
                (ShareDocModel {
                    doc_id: folder_id@,
                    share_password: password@,
                    permission,
                    created_at,
                    doc_type: DOC_TYPE_FOLDER,
                }),
            ));
            assert(self.users_view() =~= old(self).users_view());
            assert(self.folders_view() =~= old(self).folders_view());
            assert(self.files_view() =~= old(self).files_view());
            assert(self.index_view() =~= old(self).index_view());
        }
        self.record_in_index(share_with, &key);
        Ok(())
    }
}

/// The exact failure of [`Contract::remove_file_v2`], if any: root
/// resolution first, then strict ownership — a delegated write grant does
/// not permit removal — and last that the folder really lists the file.
pub open spec fn remove_file_error(
    pre: Contract,
    caller: Seq<char>,
    folder_id: Seq<char>,
    file_id: Seq<char>,
) -> Option<ErrorKind> {
    match walk(pre.folders_view(), folder_id, MAX_DEPTH as nat) {
        WalkResult::Missing { .. } => Some(ErrorKind::NotFound),
        WalkResult::Exhausted => Some(ErrorKind::CycleOrDepthExceeded),
        WalkResult::Found { root, anchor } => if caller != root {
            Some(ErrorKind::NotOwner)
        } else if !pre.folders_view()[folder_id].files.contains(file_id) {
            Some(ErrorKind::NotFound)
        } else {
            None
        },
    }
}

/// The exact failure of [`Contract::remove_folder_v2`], if any: root
/// resolution first, then strict ownership, and last that the node's parent
/// really lists it among its children (an account's root lists itself
/// nowhere, so a root cannot be removed).
pub open spec fn remove_folder_error(
    pre: Contract,
    caller: Seq<char>,
    folder_id: Seq<char>,
) -> Option<ErrorKind> {
    match walk(pre.folders_view(), folder_id, MAX_DEPTH as nat) {
        WalkResult::Missing { .. } => Some(ErrorKind::NotFound),
        WalkResult::Exhausted => Some(ErrorKind::CycleOrDepthExceeded),
        WalkResult::Found { root, anchor } => if caller != root {
            Some(ErrorKind::NotOwner)
        } else if !pre.folders_view()[pre.folders_view()[folder_id].parent].children.contains(
            folder_id,
        ) {
            Some(ErrorKind::NotFound)
        } else {
            None
        },
    }
}

impl Contract {
    /// Removes file `file_id` from `folder_id` and deletes its record. Only
    /// the owner of the folder's tree may remove — delegated write grantees
    /// may not. The first listing of the id leaves the folder's file list;
    /// an id the folder does not list is a hard failure. On any failure
    /// nothing changes.
    pub fn remove_file_v2(&mut self, caller: &str, folder_id: String, file_id: String) -> (r:
        Result<(), ErrorKind>)
        ensures
            match r {
                Ok(()) => {
                    &&& remove_file_error(*old(self), caller@, folder_id@, file_id@) is None
                    &&& old(self).folders_view().contains_key(folder_id@)
                    &&& final(self).folders_view() == old(self).folders_view().insert(
                        folder_id@,
                        folder_with_files(
                            old(self).folders_view()[folder_id@],
                            remove_first(old(self).folders_view()[folder_id@].files, file_id@),
                        ),
                    )
                    &&& final(self).files_view() == old(self).files_view().remove(file_id@)
                    &&& final(self).users_view() == old(self).users_view()
                    &&& final(self).docs_view() == old(self).docs_view()
                    &&& final(self).index_view() == old(self).index_view()
                },
                Err(e) => remove_file_error(*old(self), caller@, folder_id@, file_id@) == Some(e)
                    && *final(self) == *old(self),
            },
            old(self).wf() ==> final(self).wf(),
    {
        let (root_id, _anchor_id) = match self.walk_ids(folder_id.as_str()) {
            Ok(p) => p,
            Err(e) => {
                return Err(e);
            },
        };
        proof {
            lemma_walk_found(self.folders_view(), folder_id@, MAX_DEPTH as nat);
        }
        match self.validate_user(caller, root_id.as_str()) {
            Err(e) => {
                return Err(e);
            },
            Ok(()) => {},
        }
        let mut updated_folder = match self.folders_v2.get(folder_id.as_str()) {
            Some(n) => n.clone(),
            None => {
                proof {
                    assert(false);
                }
                return Err(ErrorKind::NotFound);
            },
        };
        let index = match vec_index_of_string(&updated_folder.files, file_id.as_str()) {
            Some(i) => i,
            None => {
                return Err(ErrorKind::NotFound);
            },
        };
        proof {
            lemma_remove_first_at(
                old(self).folders_view()[folder_id@].files,
                file_id@,
                index as int,
            );
        }
        updated_folder.files.remove(index);
        proof {
            assert(updated_folder.files.deep_view() =~= old(
                self,
            ).folders_view()[folder_id@].files.remove(index as int));
        }
        self.folders_v2.insert(folder_id.clone(), updated_folder);
        self.files.remove(file_id.as_str());
        proof {
            assert(self.folders_view() =~= old(self).folders_view().insert(
                folder_id@,
                folder_with_files(
                    old(self).folders_view()[folder_id@],
                    remove_first(old(self).folders_view()[folder_id@].files, file_id@),
                ),
            ));
            assert(self.files_view() =~= old(self).files_view().remove(file_id@));
            assert(self.users_view() =~= old(self).users_view());
            assert(self.docs_view() =~= old(self).docs_view());
            assert(self.index_view() =~= old(self).index_view());
        }
        Ok(())
    }

    /// Removes folder `folder_id`: detaches it from its parent's children
    /// and deletes the node. Only the owner of the tree may remove. The
    /// node's descendants are not deleted — they become unreachable from any
    /// root but stay individually fetchable by id. On any failure nothing
    /// changes.
    pub fn remove_folder_v2(&mut self, caller: &str, folder_id: String) -> (r: Result<
        (),
        ErrorKind,
    >)
        ensures
            match r {
                Ok(()) => {
                    &&& remove_folder_error(*old(self), caller@, folder_id@) is None
                    &&& old(self).folders_view().contains_key(folder_id@)
                    &&& final(self).folders_view() == old(self).folders_view().remove(
                        folder_id@,
                    ).insert(
                        old(self).folders_view()[folder_id@].parent,
                        folder_with_children(
                            old(self).folders_view()[old(self).folders_view()[folder_id@].parent],
                            remove_first(
                                old(
                                    self,
                                ).folders_view()[old(self).folders_view()[folder_id@].parent].children,
                                folder_id@,
                            ),
                        ),
                    )
                    &&& final(self).users_view() == old(self).users_view()
                    &&& final(self).files_view() == old(self).files_view()
                    &&& final(self).docs_view() == old(self).docs_view()
                    &&& final(self).index_view() == old(self).index_view()
                },
                Err(e) => remove_folder_error(*old(self), caller@, folder_id@) == Some(e)
                    && *final(self) == *old(self),
            },
            old(self).wf() ==> final(self).wf(),
    {
        let (root_id, _anchor_id) = match self.walk_ids(folder_id.as_str()) {
            Ok(p) => p,
            Err(e) => {
                return Err(e);
            },
        };
        proof {
            lemma_walk_found(self.folders_view(), folder_id@, MAX_DEPTH as nat);
        }
        match self.validate_user(caller, root_id.as_str()) {
            Err(e) => {
                return Err(e);
            },
            Ok(()) => {},
        }
        let node = match self.folders_v2.get(folder_id.as_str()) {
            Some(n) => n.clone(),
            None => {
                proof {
                    assert(false);
                }
                return Err(ErrorKind::NotFound);
            },
        };
        proof {
            if node.parent@ != folder_id@ {
                lemma_walk_found_step(self.folders_view(), folder_id@, MAX_DEPTH as nat);
            }
        }
        let mut updated_parent = match self.folders_v2.get(node.parent.as_str()) {
            Some(n) => n.clone(),
            None => {
                proof {
                    assert(false);
                }
                return Err(ErrorKind::NotFound);
            },
        };
        let index = match vec_index_of_string(&updated_parent.children, folder_id.as_str()) {
            Some(i) => i,
            None => {
                return Err(ErrorKind::NotFound);
            },
        };
        proof {
            lemma_remove_first_at(
                old(self).folders_view()[node.parent@].children,
                folder_id@,
                index as int,
            );
        }
        updated_parent.children.remove(index);
        proof {
            assert(updated_parent.children.deep_view() =~= old(
                self,
            ).folders_view()[node.parent@].children.remove(index as int));
        }
        self.folders_v2.remove(folder_id.as_str());
        self.folders_v2.insert(node.parent.clone(), updated_parent);
        proof {
            assert(self.folders_view() =~= old(self).folders_view().remove(folder_id@).insert(
                old(self).folders_view()[folder_id@].parent,
                folder_with_children(
                    old(self).folders_view()[old(self).folders_view()[folder_id@].parent],
                    remove_first(
                        old(
                            self,
                        ).folders_view()[old(self).folders_view()[folder_id@].parent].children,
                        folder_id@,
                    ),
                ),
            ));
            assert(self.users_view() =~= old(self).users_view());
            assert(self.files_view() =~= old(self).files_view());
            assert(self.docs_view() =~= old(self).docs_view());
            assert(self.index_view() =~= old(self).index_view());
        }
        Ok(())
    }
}

impl Contract {
    /// Looks up a registered user by account id. A pure lookup.
    pub fn get_user(&self, account_id: &str) -> (r: Option<User>)
        ensures
            match r {
                Some(u) => self.users_view().contains_key(account_id@)
                    && u@ == self.users_view()[account_id@],
                None => !self.users_view().contains_key(account_id@),
            },
    {
        match self.users.get(account_id) {
            Some(user) => Some(user.clone()),
            None => None,
        }
    }

    /// The grant keys recorded for `account_id` as a grantee: what has been
    /// shared with it. Empty for an account never shared with. A pure
    /// lookup.
    pub fn get_shared_doc_of_user(&self, account_id: &str) -> (r: Vec<String>)
        ensures
            r.deep_view() == if self.index_view().contains_key(account_id@) {
                self.index_view()[account_id@]
            } else {
                Seq::<Seq<char>>::empty()
            },
    {
        match self.shared_doc_of_user.get(account_id) {
            Some(list) => clone_string_vec(list),
            None => {
                let empty: Vec<String> = Vec::new();
                proof {
                    assert(empty.deep_view() =~= Seq::<Seq<char>>::empty());
                }
                empty
            },
        }
    }

    /// Resolves a grant key to the grant itself and to whatever the shared
    /// resource id names — a folder, a file, or both tables miss — handing
    /// the key back alongside. A pure lookup.
    pub fn get_shared_doc_detail(&self, doc_id: &str) -> (r: (
        Option<ShareDoc>,
        Option<FolderV2>,
        Option<File>,
        String,
    ))
        ensures
            match r.0 {
                Some(d) => self.docs_view().contains_key(doc_id@) && d@ == self.docs_view()[doc_id@],
                None => !self.docs_view().contains_key(doc_id@),
            },
            r.0 is Some ==> match r.1 {
                Some(f) => self.folders_view().contains_key(self.docs_view()[doc_id@].doc_id)
                    && f@ == self.folders_view()[self.docs_view()[doc_id@].doc_id],
                None => !self.folders_view().contains_key(self.docs_view()[doc_id@].doc_id),
            },
            r.0 is Some ==> match r.2 {
                Some(f) => self.files_view().contains_key(self.docs_view()[doc_id@].doc_id) && f@
                    == self.files_view()[self.docs_view()[doc_id@].doc_id],
                None => !self.files_view().contains_key(self.docs_view()[doc_id@].doc_id),
            },
            r.0 is None ==> r.1 is None && r.2 is None,
            r.3@ == doc_id@,
    {
        match self.shared_docs.get(doc_id) {
            Some(doc) => {
                let doc = doc.clone();
                let folder = match self.folders_v2.get(doc.doc_id.as_str()) {
                    Some(f) => Some(f.clone()),
                    None => None,
                };
                let file = match self.files.get(doc.doc_id.as_str()) {
                    Some(f) => Some(f.clone()),
                    None => None,
                };
                (Some(doc), folder, file, doc_id.to_owned())
            },
            None => (None, None, None, doc_id.to_owned()),
        }
    }

    /// Looks up a file record by id. A pure lookup; an orphaned file — one
    /// whose folder was removed — is still found here.
    pub fn get_file_info(&self, file_id: &str) -> (r: Option<File>)
        ensures
            match r {
                Some(f) => self.files_view().contains_key(file_id@)
                    && f@ == self.files_view()[file_id@],
                None => !self.files_view().contains_key(file_id@),
            },
    {
        match self.files.get(file_id) {
            Some(file) => Some(file.clone()),
            None => None,
        }
    }

    /// Looks up a folder node by id. A pure lookup; an orphaned folder is
    /// still found here.
    pub fn get_folder_info_v2(&self, folder_id: &str) -> (r: Option<FolderV2>)
        ensures
            match r {
                Some(f) => self.folders_view().contains_key(folder_id@) && f@
                    == self.folders_view()[folder_id@],
                None => !self.folders_view().contains_key(folder_id@),
            },
    {
        match self.folders_v2.get(folder_id) {
            Some(folder) => Some(folder.clone()),
            None => None,
        }
    }
}

} // verus!
