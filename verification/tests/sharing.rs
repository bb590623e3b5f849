//! Grants: the access check, per-file and per-folder sharing, and the
//! reverse index.

use destorage::types::{
    DOC_TYPE_FILE, DOC_TYPE_FOLDER, FOLDER_TYPE_COMMON, FOLDER_TYPE_SHARED, PERMISSION_READ,
    PERMISSION_WRITE,
};
use destorage::{Contract, ErrorKind};

/// alice with a private folder "f1" holding "file1", and a shared-root
/// folder "sf".
fn populated() -> Contract {
    let mut c = Contract::default();
    c.sign_up("alice", "pk".to_string(), "token".to_string(), 10);
    c.create_folder_v2(
        "alice",
        "f1".to_string(),
        "documents".to_string(),
        "alice".to_string(),
        None,
        Some(FOLDER_TYPE_COMMON),
        100,
    )
    .unwrap();
    c.create_folder_v2(
        "alice",
        "sf".to_string(),
        "team".to_string(),
        "alice".to_string(),
        Some("secret".to_string()),
        Some(FOLDER_TYPE_SHARED),
        100,
    )
    .unwrap();
    c.create_file_v2(
        "alice",
        "f1".to_string(),
        "file1".to_string(),
        "Qm123".to_string(),
        "notes.txt".to_string(),
        None,
        "text".to_string(),
        200,
    )
    .unwrap();
    c
}

#[test]
fn create_file_records_metadata() {
    let c = populated();
    let f1 = c.get_folder_info_v2("f1").unwrap();
    assert_eq!(f1.files, vec!["file1".to_string()]);
    let file = c.get_file_info("file1").unwrap();
    assert_eq!(file.cid, "Qm123");
    assert_eq!(file.name, "notes.txt");
    assert_eq!(file.file_type, "text");
    assert_eq!(file.created_by, "alice");
    assert_eq!(file.update_by, "alice");
    assert_eq!(file.created_at, 200);
    assert_eq!(file.last_update, 200);
}

#[test]
fn file_id_collision_rejected() {
    let mut c = populated();
    let r = c.create_file_v2(
        "alice",
        "sf".to_string(),
        "file1".to_string(),
        "Qm999".to_string(),
        "other".to_string(),
        None,
        "text".to_string(),
        300,
    );
    assert_eq!(r, Err(ErrorKind::AlreadyExists));
}

#[test]
fn share_file_records_grant_and_index() {
    let mut c = populated();
    let r = c.share_file_v2(
        "alice",
        "file1".to_string(),
        "bob".to_string(),
        "f1".to_string(),
        "pw".to_string(),
        PERMISSION_WRITE,
        300,
    );
    assert_eq!(r, Ok(()));
    let (doc, folder, file, key) = c.get_shared_doc_detail("alice_bob_file1");
    assert_eq!(key, "alice_bob_file1");
    let doc = doc.unwrap();
    assert_eq!(doc.doc_id, "file1");
    assert_eq!(doc.permission, PERMISSION_WRITE);
    assert_eq!(doc.doc_type, DOC_TYPE_FILE);
    assert_eq!(doc.share_password, "pw");
    assert_eq!(doc.created_at, 300);
    assert!(folder.is_none());
    assert_eq!(file.unwrap().cid, "Qm123");
    assert_eq!(c.get_shared_doc_of_user("bob"), vec!["alice_bob_file1".to_string()]);
}

#[test]
fn reshare_keeps_one_grant_with_latest_permission() {
    let mut c = populated();
    c.share_file_v2(
        "alice",
        "file1".to_string(),
        "bob".to_string(),
        "f1".to_string(),
        "pw".to_string(),
        PERMISSION_WRITE,
        300,
    )
    .unwrap();
    c.share_file_v2(
        "alice",
        "file1".to_string(),
        "bob".to_string(),
        "f1".to_string(),
        "pw2".to_string(),
        PERMISSION_READ,
        400,
    )
    .unwrap();
    let (doc, _, _, _) = c.get_shared_doc_detail("alice_bob_file1");
    let doc = doc.unwrap();
    assert_eq!(doc.permission, PERMISSION_READ);
    assert_eq!(doc.share_password, "pw2");
    assert_eq!(doc.created_at, 400);
    assert_eq!(c.get_shared_doc_of_user("bob"), vec!["alice_bob_file1".to_string()]);
}

#[test]
fn self_share_rejected() {
    let mut c = populated();
    let file = c.share_file_v2(
        "alice",
        "file1".to_string(),
        "alice".to_string(),
        "f1".to_string(),
        "pw".to_string(),
        PERMISSION_WRITE,
        300,
    );
    assert_eq!(file, Err(ErrorKind::SelfShareRejected));
    let folder = c.share_folder_v2(
        "alice",
        "sf".to_string(),
        "alice".to_string(),
        "pw".to_string(),
        PERMISSION_WRITE,
        300,
    );
    assert_eq!(folder, Err(ErrorKind::SelfShareRejected));
}

#[test]
fn verify_accessible_cases() {
    let mut c = populated();
    c.share_folder_v2(
        "alice",
        "sf".to_string(),
        "bob".to_string(),
        "pw".to_string(),
        PERMISSION_WRITE,
        300,
    )
    .unwrap();
    c.share_folder_v2(
        "alice",
        "sf".to_string(),
        "carol".to_string(),
        "pw".to_string(),
        PERMISSION_READ,
        300,
    )
    .unwrap();
    let sf = c.get_folder_info_v2("sf");
    assert_eq!(c.verify_accessible(&sf, "sf", "alice"), Ok(()));
    assert_eq!(c.verify_accessible(&sf, "sf", "bob"), Ok(()));
    assert_eq!(
        c.verify_accessible(&sf, "sf", "carol"),
        Err(ErrorKind::InsufficientPermission)
    );
    assert_eq!(c.verify_accessible(&sf, "sf", "dave"), Err(ErrorKind::NotShared));
    assert_eq!(c.verify_accessible(&None, "sf", "alice"), Err(ErrorKind::NotFound));
}

#[test]
fn write_grantee_may_create_inside_shared_subtree() {
    let mut c = populated();
    c.share_folder_v2(
        "alice",
        "sf".to_string(),
        "bob".to_string(),
        "pw".to_string(),
        PERMISSION_WRITE,
        300,
    )
    .unwrap();
    c.share_folder_v2(
        "alice",
        "sf".to_string(),
        "carol".to_string(),
        "pw".to_string(),
        PERMISSION_READ,
        300,
    )
    .unwrap();
    let by_bob = c.create_folder_v2(
        "bob",
        "bobs".to_string(),
        "drafts".to_string(),
        "sf".to_string(),
        None,
        None,
        400,
    );
    assert_eq!(by_bob, Ok(()));
    let by_bob_file = c.create_file_v2(
        "bob",
        "bobs".to_string(),
        "file2".to_string(),
        "Qm456".to_string(),
        "draft.txt".to_string(),
        None,
        "text".to_string(),
        500,
    );
    assert_eq!(by_bob_file, Ok(()));
    let by_carol = c.create_folder_v2(
        "carol",
        "carols".to_string(),
        "notes".to_string(),
        "sf".to_string(),
        None,
        None,
        400,
    );
    assert_eq!(by_carol, Err(ErrorKind::InsufficientPermission));
    let by_dave = c.create_file_v2(
        "dave",
        "sf".to_string(),
        "file3".to_string(),
        "Qm789".to_string(),
        "x".to_string(),
        None,
        "text".to_string(),
        400,
    );
    assert_eq!(by_dave, Err(ErrorKind::NotShared));
}

#[test]
fn share_file_demands_common_subtree() {
    let mut c = populated();
    c.create_file_v2(
        "alice",
        "sf".to_string(),
        "file9".to_string(),
        "Qm9".to_string(),
        "x".to_string(),
        None,
        "text".to_string(),
        250,
    )
    .unwrap();
    let in_shared = c.share_file_v2(
        "alice",
        "file9".to_string(),
        "bob".to_string(),
        "sf".to_string(),
        "pw".to_string(),
        PERMISSION_WRITE,
        300,
    );
    assert_eq!(in_shared, Err(ErrorKind::WrongFolderKind));
}

#[test]
fn share_file_demands_listed_file() {
    let mut c = populated();
    let r = c.share_file_v2(
        "alice",
        "ghost".to_string(),
        "bob".to_string(),
        "f1".to_string(),
        "pw".to_string(),
        PERMISSION_WRITE,
        300,
    );
    assert_eq!(r, Err(ErrorKind::NotFound));
}

#[test]
fn share_folder_demands_shared_anchor() {
    let mut c = populated();
    let common = c.share_folder_v2(
        "alice",
        "f1".to_string(),
        "bob".to_string(),
        "pw".to_string(),
        PERMISSION_WRITE,
        300,
    );
    assert_eq!(common, Err(ErrorKind::WrongFolderKind));
    c.create_folder_v2(
        "alice",
        "inner".to_string(),
        "inner".to_string(),
        "sf".to_string(),
        None,
        None,
        350,
    )
    .unwrap();
    let interior = c.share_folder_v2(
        "alice",
        "inner".to_string(),
        "bob".to_string(),
        "pw".to_string(),
        PERMISSION_WRITE,
        400,
    );
    assert_eq!(interior, Err(ErrorKind::WrongFolderKind));
    let own_root = c.share_folder_v2(
        "alice",
        "alice".to_string(),
        "bob".to_string(),
        "pw".to_string(),
        PERMISSION_WRITE,
        400,
    );
    assert_eq!(own_root, Err(ErrorKind::WrongFolderKind));
}

#[test]
fn share_folder_records_grant() {
    let mut c = populated();
    let r = c.share_folder_v2(
        "alice",
        "sf".to_string(),
        "bob".to_string(),
        "pw".to_string(),
        PERMISSION_WRITE,
        300,
    );
    assert_eq!(r, Ok(()));
    let (doc, folder, file, _) = c.get_shared_doc_detail("alice_bob_sf");
    let doc = doc.unwrap();
    assert_eq!(doc.doc_id, "sf");
    assert_eq!(doc.doc_type, DOC_TYPE_FOLDER);
    assert_eq!(folder.unwrap().name, "team");
    assert!(file.is_none());
    assert_eq!(c.get_shared_doc_of_user("bob"), vec!["alice_bob_sf".to_string()]);
}

#[test]
fn shared_doc_detail_missing_key_is_empty() {
    let c = populated();
    let (doc, folder, file, key) = c.get_shared_doc_detail("nothing");
    assert!(doc.is_none());
    assert!(folder.is_none());
    assert!(file.is_none());
    assert_eq!(key, "nothing");
}

#[test]
fn full_scenario_register_create_share_remove() {
    let mut c = Contract::default();
    c.sign_up("alice", "pk".to_string(), "token".to_string(), 10);
    let root = c.get_folder_info_v2("alice").unwrap();
    assert_eq!(root.parent, "alice");
    c.create_folder_v2(
        "alice",
        "f1".to_string(),
        "f1".to_string(),
        "alice".to_string(),
        None,
        Some(FOLDER_TYPE_COMMON),
        100,
    )
    .unwrap();
    assert_eq!(c.get_folder_info_v2("f1").unwrap().parent, "alice");
    assert_eq!(
        c.get_folder_info_v2("alice").unwrap().children,
        vec!["f1".to_string()]
    );
    c.create_file_v2(
        "alice",
        "f1".to_string(),
        "file1".to_string(),
        "Qm123".to_string(),
        "notes".to_string(),
        None,
        "text".to_string(),
        200,
    )
    .unwrap();
    assert!(c.get_file_info("file1").is_some());
    assert_eq!(
        c.get_folder_info_v2("f1").unwrap().files,
        vec!["file1".to_string()]
    );
    c.share_file_v2(
        "alice",
        "file1".to_string(),
        "bob".to_string(),
        "f1".to_string(),
        "pw".to_string(),
        PERMISSION_WRITE,
        300,
    )
    .unwrap();
    let (doc, _, _, _) = c.get_shared_doc_detail("alice_bob_file1");
    assert_eq!(doc.unwrap().permission, PERMISSION_WRITE);
    assert!(c
        .get_shared_doc_of_user("bob")
        .contains(&"alice_bob_file1".to_string()));
    let by_alice = c.remove_file_v2("alice", "f1".to_string(), "file1".to_string());
    assert_eq!(by_alice, Ok(()));
    let by_bob_again = c.remove_file_v2("bob", "f1".to_string(), "file1".to_string());
    assert_eq!(by_bob_again, Err(ErrorKind::NotOwner));
}
