//! The record types stored in the contract's tables, their mathematical
//! models, and the error taxonomy shared by every operation.

use vstd::prelude::*;

verus! {

/// Classification of a first-level folder: an ordinary private subtree,
/// inside which individual files may be shared.
pub const FOLDER_TYPE_COMMON: u8 = 1;

/// Classification of a first-level folder: a dedicated shared-root subtree,
/// which may be shared as a whole.
pub const FOLDER_TYPE_SHARED: u8 = 2;

/// Grant strength: the grantee may only read.
pub const PERMISSION_READ: u8 = 1;

/// Grant strength: the grantee may write.
pub const PERMISSION_WRITE: u8 = 2;

/// Kind of a shared resource: a file record.
pub const DOC_TYPE_FILE: u8 = 1;

/// Kind of a shared resource: a folder subtree.
pub const DOC_TYPE_FOLDER: u8 = 2;

/// Typed failure of an operation. Every validation or access-control failure
/// aborts the whole call with one of these; no call commits partial writes.
#[derive(Clone, Copy, Debug, PartialEq, Eq, Structural)]
pub enum ErrorKind {
    /// An id collides with an existing account, folder, or file id.
    AlreadyExists,
    /// A referenced account, node, file, or grant is absent.
    NotFound,
    /// The caller is not the owner of the affected tree.
    NotOwner,
    /// No grant exists for the caller on the affected resource.
    NotShared,
    /// A grant exists but it does not carry write permission.
    InsufficientPermission,
    /// A folder's classification does not fit the requested operation.
    WrongFolderKind,
    /// An owner tried to share a resource with itself.
    SelfShareRejected,
    /// Root resolution exhausted its step budget without finding a self-loop.
    CycleOrDepthExceeded,
}

/// A registered identity: its public key and an opaque encrypted credential.
pub struct User {
    pub public_key: String,
    pub encrypted_token: String,
}

/// File metadata. The content itself lives in an external content-addressed
/// store; `cid` is the opaque pointer to it.
pub struct File {
    pub cid: String,
    pub name: String,
    pub encrypted_password: Option<String>,
    pub file_type: String,
    pub last_update: u64,
    pub update_by: String,
    pub created_at: u64,
    pub created_by: String,
}

/// A folder node. A root node is one whose own id equals an account id and
/// whose `parent` equals that same id (a self-loop sentinel).
pub struct FolderV2 {
    pub name: String,
    pub files: Vec<String>,
    pub parent: String,
    pub children: Vec<String>,
    pub folder_type: Option<u8>,
    pub folder_password: Option<String>,
    pub created_by: String,
    pub created_at: u64,
}

/// A capability grant from an owner to a grantee over one resource.
pub struct ShareDoc {
    pub doc_id: String,
    pub share_password: String,
    pub permission: u8,
    pub created_at: u64,
    pub doc_type: u8,
}

/// Mathematical model of a [`User`].
pub ghost struct UserModel {
    pub public_key: Seq<char>,
    pub encrypted_token: Seq<char>,
}

/// Mathematical model of a [`File`].
pub ghost struct FileModel {
    pub cid: Seq<char>,
    pub name: Seq<char>,
    pub encrypted_password: Option<Seq<char>>,
    pub file_type: Seq<char>,
    pub last_update: u64,
    pub update_by: Seq<char>,
    pub created_at: u64,
    pub created_by: Seq<char>,
}

/// Mathematical model of a [`FolderV2`].
pub ghost struct FolderModel {
    pub name: Seq<char>,
    pub files: Seq<Seq<char>>,
    pub parent: Seq<char>,
    pub children: Seq<Seq<char>>,
    pub folder_type: Option<u8>,
    pub folder_password: Option<Seq<char>>,
    pub created_by: Seq<char>,
    pub created_at: u64,
}

/// Mathematical model of a [`ShareDoc`].
pub ghost struct ShareDocModel {
    pub doc_id: Seq<char>,
    pub share_password: Seq<char>,
    pub permission: u8,
    pub created_at: u64,
    pub doc_type: u8,
}

impl View for User {
    type V = UserModel;

    open spec fn view(&self) -> UserModel {
        UserModel { public_key: self.public_key@, encrypted_token: self.encrypted_token@ }
    }
}

impl View for File {
    type V = FileModel;

    open spec fn view(&self) -> FileModel {
        FileModel {
            cid: self.cid@,
            name: self.name@,
            encrypted_password: self.encrypted_password.deep_view(),
            file_type: self.file_type@,
            last_update: self.last_update,
            update_by: self.update_by@,
            created_at: self.created_at,
            created_by: self.created_by@,
        }
    }
}

impl View for FolderV2 {
    type V = FolderModel;

    open spec fn view(&self) -> FolderModel {
        FolderModel {
            name: self.name@,
            files: self.files.deep_view(),
            parent: self.parent@,
            children: self.children.deep_view(),
            folder_type: self.folder_type,
            folder_password: self.folder_password.deep_view(),
            created_by: self.created_by@,
            created_at: self.created_at,
        }
    }
}

impl View for ShareDoc {
    type V = ShareDocModel;

    open spec fn view(&self) -> ShareDocModel {
        ShareDocModel {
            doc_id: self.doc_id@,
            share_password: self.share_password@,
            permission: self.permission,
            created_at: self.created_at,
            doc_type: self.doc_type,
        }
    }
}

/// Copies a list of id strings element by element; the copy is view-equal
/// to the source list.
pub fn clone_string_vec(v: &Vec<String>) -> (res: Vec<String>)
    ensures
        res@ == v@,
{
    let mut res: Vec<String> = Vec::new();
    let mut i: usize = 0;
    while i < v.len()
        invariant
            i <= v@.len(),
            res@.len() == i,
            forall|j: int| 0 <= j < i ==> res@[j] == v@[j],
        decreases v@.len() - i,
    {
        res.push(v[i].clone());
        i = i + 1;
    }
    proof {
        assert(res@ =~= v@);
    }
    res
}

/// Whether the list of ids holds `x`.
pub fn vec_contains_string(v: &Vec<String>, x: &str) -> (b: bool)
    ensures
        b == v.deep_view().contains(x@),
{
    match vec_index_of_string(v, x) {
        Some(_) => true,
        None => false,
    }
}

/// The position of the first occurrence of `x` in the list of ids, if any.
pub fn vec_index_of_string(v: &Vec<String>, x: &str) -> (r: Option<usize>)
    ensures
        match r {
            Some(i) => i < v@.len() && v.deep_view()[i as int] == x@ && (forall|j: int|
                0 <= j < i ==> v.deep_view()[j] != x@),
            None => !v.deep_view().contains(x@),
        },
{
    let mut i: usize = 0;
    while i < v.len()
        invariant
            i <= v@.len(),
            forall|j: int| 0 <= j < i ==> v.deep_view()[j] != x@,
        decreases v@.len() - i,
    {
        if crate::contract::str_equal(v[i].as_str(), x) {
            return Some(i);
        }
        i = i + 1;
    }
    proof {
        assert(forall|j: int| 0 <= j < v.deep_view().len() ==> v.deep_view()[j] != x@);
    }
    None
}

/// Copies an optional secret, keeping the value.
pub fn clone_opt_string(v: &Option<String>) -> (res: Option<String>)
    ensures
        res == *v,
{
    match v {
        Some(s) => Some(s.clone()),
        None => None,
    }
}

impl Clone for User {
    fn clone(&self) -> (res: Self)
        ensures
            res == *self,
    {
        User {
            public_key: self.public_key.clone(),
            encrypted_token: self.encrypted_token.clone(),
        }
    }
}

impl Clone for File {
    fn clone(&self) -> (res: Self)
        ensures
            res == *self,
    {
        File {
            cid: self.cid.clone(),
            name: self.name.clone(),
            encrypted_password: clone_opt_string(&self.encrypted_password),
            file_type: self.file_type.clone(),
            last_update: self.last_update,
            update_by: self.update_by.clone(),
            created_at: self.created_at,
            created_by: self.created_by.clone(),
        }
    }
}

impl Clone for ShareDoc {
    fn clone(&self) -> (res: Self)
        ensures
            res == *self,
    {
        ShareDoc {
            doc_id: self.doc_id.clone(),
            share_password: self.share_password.clone(),
            permission: self.permission,
            created_at: self.created_at,
            doc_type: self.doc_type,
        }
    }
}

impl Clone for FolderV2 {
    fn clone(&self) -> (res: Self)
        ensures
            res@ == self@,
            res.parent@ == self.parent@,
    {
        FolderV2 {
            name: self.name.clone(),
            files: clone_string_vec(&self.files),
            parent: self.parent.clone(),
            children: clone_string_vec(&self.children),
            folder_type: self.folder_type,
            folder_password: clone_opt_string(&self.folder_password),
            created_by: self.created_by.clone(),
            created_at: self.created_at,
        }
    }
}

} // verus!
