//! Removal: strict ownership, hard failures on absent entries, and the
//! orphan behavior of folder removal.

use destorage::types::{FOLDER_TYPE_COMMON, FOLDER_TYPE_SHARED, PERMISSION_WRITE};
use destorage::{Contract, ErrorKind};

/// alice with the chain alice -> f1 -> f2 -> f3 and "file1" inside f1.
fn with_chain() -> Contract {
    let mut c = Contract::default();
    c.sign_up("alice", "pk".to_string(), "token".to_string(), 10);
    for (id, parent) in [("f1", "alice"), ("f2", "f1"), ("f3", "f2")] {
        c.create_folder_v2(
            "alice",
            id.to_string(),
            id.to_string(),
            parent.to_string(),
            None,
            if parent == "alice" { Some(FOLDER_TYPE_COMMON) } else { None },
            100,
        )
        .unwrap();
    }
    c.create_file_v2(
        "alice",
        "f1".to_string(),
        "file1".to_string(),
        "Qm123".to_string(),
        "notes.txt".to_string(),
        None,
        "text".to_string(),
        200,
    )
    .unwrap();
    c
}

#[test]
fn owner_removes_file() {
    let mut c = with_chain();
    let r = c.remove_file_v2("alice", "f1".to_string(), "file1".to_string());
    assert_eq!(r, Ok(()));
    assert!(c.get_file_info("file1").is_none());
    assert!(c.get_folder_info_v2("f1").unwrap().files.is_empty());
}

#[test]
fn write_grantee_may_not_remove() {
    let mut c = with_chain();
    c.create_folder_v2(
        "alice",
        "sf".to_string(),
        "team".to_string(),
        "alice".to_string(),
        None,
        Some(FOLDER_TYPE_SHARED),
        100,
    )
    .unwrap();
    c.share_folder_v2(
        "alice",
        "sf".to_string(),
        "bob".to_string(),
        "pw".to_string(),
        PERMISSION_WRITE,
        300,
    )
    .unwrap();
    c.create_file_v2(
        "bob",
        "sf".to_string(),
        "file2".to_string(),
        "Qm456".to_string(),
        "draft".to_string(),
        None,
        "text".to_string(),
        400,
    )
    .unwrap();
    let file = c.remove_file_v2("bob", "sf".to_string(), "file2".to_string());
    assert_eq!(file, Err(ErrorKind::NotOwner));
    let folder = c.remove_folder_v2("bob", "sf".to_string());
    assert_eq!(folder, Err(ErrorKind::NotOwner));
    let by_owner = c.remove_file_v2("alice", "sf".to_string(), "file2".to_string());
    assert_eq!(by_owner, Ok(()));
}

#[test]
fn remove_file_absent_is_hard_failure() {
    let mut c = with_chain();
    let unlisted = c.remove_file_v2("alice", "f2".to_string(), "file1".to_string());
    assert_eq!(unlisted, Err(ErrorKind::NotFound));
    let no_folder = c.remove_file_v2("alice", "ghost".to_string(), "file1".to_string());
    assert_eq!(no_folder, Err(ErrorKind::NotFound));
    assert!(c.get_file_info("file1").is_some());
}

#[test]
fn remove_folder_detaches_and_orphans() {
    let mut c = with_chain();
    c.create_folder_v2(
        "alice",
        "f4".to_string(),
        "f4".to_string(),
        "f3".to_string(),
        None,
        None,
        100,
    )
    .unwrap();
    let r = c.remove_folder_v2("alice", "f2".to_string());
    assert_eq!(r, Ok(()));
    assert!(c.get_folder_info_v2("f2").is_none());
    assert!(c.get_folder_info_v2("f1").unwrap().children.is_empty());
    let orphan = c.get_folder_info_v2("f3").unwrap();
    assert_eq!(orphan.parent, "f2");
    assert_eq!(orphan.name, "f3");
    assert_eq!(orphan.children, vec!["f4".to_string()]);
    assert!(matches!(c.get_root("f3"), Err(ErrorKind::NotFound)));
    assert!(matches!(c.get_root("f4"), Err(ErrorKind::NotFound)));
    assert!(c.get_folder_info_v2("f4").is_some());
    assert!(c.get_file_info("file1").is_some());
    let (_, root_id) = c.get_root("f1").unwrap();
    assert_eq!(root_id, "alice");
}

#[test]
fn remove_root_is_rejected() {
    let mut c = with_chain();
    let r = c.remove_folder_v2("alice", "alice".to_string());
    assert_eq!(r, Err(ErrorKind::NotFound));
    assert!(c.get_folder_info_v2("alice").is_some());
}

#[test]
fn remove_folder_by_stranger_is_rejected() {
    let mut c = with_chain();
    let r = c.remove_folder_v2("mallory", "f1".to_string());
    assert_eq!(r, Err(ErrorKind::NotOwner));
    assert!(c.get_folder_info_v2("f1").is_some());
}
