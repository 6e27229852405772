use image_rs::error::DomainError;
use image_rs::store::{read_result, FsImageStore, ReadOutcome};

fn invalid_message(r: Result<String, DomainError>) -> String {
    match r {
        Err(DomainError::InvalidArgument(m)) => m,
        _ => panic!("expected invalid argument"),
    }
}

#[test]
fn keys_are_checked() {
    let s = FsImageStore::new("/srv/images".to_string());
    assert_eq!(invalid_message(s.candidate("")), "empty key");
    assert_eq!(invalid_message(s.candidate("../etc/passwd")), "invalid characters in key");
    assert_eq!(invalid_message(s.candidate("a\0b")), "invalid characters in key");
    assert_eq!(s.candidate("//cats/a.jpg").unwrap(), "/srv/images/cats/a.jpg");
}

#[test]
fn missing_files_are_checked_lexically() {
    let s = FsImageStore::new("/srv/images".to_string());
    assert_eq!(s.safe_join("a.jpg", None, None).unwrap(), "/srv/images/a.jpg");
    let s = FsImageStore::new("images".to_string());
    assert_eq!(s.safe_join("/x/y.png", None, None).unwrap(), "images/x/y.png");
}

#[test]
fn resolved_files_must_stay_under_the_root() {
    let s = FsImageStore::new("./images".to_string());
    let root = Some("/srv/images".to_string());
    assert_eq!(
        s.safe_join("a.jpg", root.clone(), Some("/srv/images/a.jpg".to_string())).unwrap(),
        "/srv/images/a.jpg"
    );
    assert_eq!(
        invalid_message(s.safe_join("link.jpg", root, Some("/etc/passwd".to_string()))),
        "key escapes store root"
    );
}

#[test]
fn containment_is_by_component() {
    assert!(FsImageStore::is_inside("/srv/images/a.jpg", "/srv/images"));
    assert!(!FsImageStore::is_inside("/srv/images2/a.jpg", "/srv/images"));
    assert!(!FsImageStore::is_inside("/srv", "/srv/images"));
}

#[test]
fn read_outcomes_become_errors() {
    assert_eq!(read_result("k", ReadOutcome::Found(vec![1, 2])).unwrap(), vec![1, 2]);
    match read_result("k.jpg", ReadOutcome::NotFound) {
        Err(DomainError::MissingAsset(m)) => assert_eq!(m, "k.jpg"),
        _ => panic!("expected a missing asset"),
    }
    match read_result("k.jpg", ReadOutcome::Failed("denied".to_string())) {
        Err(DomainError::Internal(m)) => assert_eq!(m, "fs read k.jpg: denied"),
        _ => panic!("expected an internal error"),
    }
}
