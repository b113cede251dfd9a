use fingerprint_fhe::bits::bools_to_bytes;
use fingerprint_fhe::database::{Database, TemplateEntry};
use fingerprint_fhe::protocol::{
    RegisterRequest, RegisterResponse, VerifyRequest, VerifyResponse,
};
use fingerprint_fhe::session::register_user;

#[test]
fn test_register_request_new() {
    let req = RegisterRequest::new(
        "alice".to_string(),
        vec![true, false],
        vec![1, 2],
        vec![3, 4],
        Some(vec![5]),
    );
    assert_eq!(req.user_id, "alice");
    assert_eq!(req.ciphertext, vec![true, false]);
    assert_eq!(req.encrypted_key_bytes, vec![1, 2]);
    assert_eq!(req.encrypted_iv_bytes, vec![3, 4]);
    assert_eq!(req.server_key_bytes, Some(vec![5]));
}

#[test]
fn test_register_response_success_and_error() {
    let ok = RegisterResponse::success("bob".to_string());
    assert!(ok.success);
    assert_eq!(ok.user_id, "bob");
    assert_eq!(ok.message, "Fingerprint registered successfully");

    let err = RegisterResponse::error("bob".to_string(), "user not found".to_string());
    assert!(!err.success);
    assert_eq!(err.user_id, "bob");
    assert_eq!(err.message, "user not found");
}

#[test]
fn test_verify_request_new() {
    let req = VerifyRequest::new(
        "carol".to_string(),
        vec![false; 4],
        vec![9],
        vec![8],
        vec![7],
    );
    assert_eq!(req.user_id, "carol");
    assert_eq!(req.ciphertext.len(), 4);
    assert_eq!(req.encrypted_key_bytes, vec![9]);
    assert_eq!(req.encrypted_iv_bytes, vec![8]);
    assert_eq!(req.encrypted_true_bytes, vec![7]);
}

#[test]
fn test_verify_response_success_error_debug() {
    let ok = VerifyResponse::success(vec![1], vec![2, 3]);
    assert!(ok.success);
    assert_eq!(ok.encrypted_match_bytes, vec![1]);
    assert_eq!(ok.encrypted_distance_bytes, vec![2, 3]);
    assert!(ok.debug_server_match.is_none());
    assert!(ok.debug_server_distance.is_none());

    let dbg = ok.with_debug(true, 17);
    assert_eq!(dbg.debug_server_match, Some(true));
    assert_eq!(dbg.debug_server_distance, Some(17));
    assert!(dbg.success);

    let err = VerifyResponse::error("no such user".to_string());
    assert!(!err.success);
    assert!(err.encrypted_match_bytes.is_empty());
    assert!(err.encrypted_distance_bytes.is_empty());
}

#[test]
fn test_template_entry_timestamps_agree() {
    let e = TemplateEntry::new("dave".to_string(), vec![0xAB], vec![1], vec![2]);
    assert_eq!(e.user_id, "dave");
    assert_eq!(e.ciphertext, vec![0xAB]);
    assert_eq!(e.created_at, e.updated_at);
}

#[test]
fn test_database_insert_get_contains() {
    let mut db = Database::empty();
    assert_eq!(db.version, "1.0");
    assert!(!db.contains_user("alice"));
    assert!(db.get("alice").is_none());

    db.insert(TemplateEntry::new("alice".to_string(), vec![1], vec![2], vec![3]));
    db.insert(TemplateEntry::new("bob".to_string(), vec![4], vec![5], vec![6]));
    assert!(db.contains_user("alice"));
    assert!(db.contains_user("bob"));
    assert!(!db.contains_user("carol"));

    let alice = db.get("alice").expect("alice enrolled");
    assert_eq!(alice.ciphertext, vec![1]);
    let bob = db.get("bob").expect("bob enrolled");
    assert_eq!(bob.ciphertext, vec![4]);
}

#[test]
fn test_database_insert_overwrites() {
    let mut db = Database::empty();
    db.insert(TemplateEntry::new("alice".to_string(), vec![1], vec![2], vec![3]));
    db.insert(TemplateEntry::new("alice".to_string(), vec![9], vec![8], vec![7]));
    assert_eq!(db.templates.len(), 1);
    let alice = db.get("alice").expect("alice enrolled");
    assert_eq!(alice.ciphertext, vec![9]);
    assert_eq!(alice.encrypted_key_bytes, vec![8]);
}

#[test]
fn test_register_user_stores_packed_template() {
    let mut db = Database::empty();
    let bits = vec![false, true, false, true, true, false, true, false];
    let resp = register_user(
        &mut db,
        "erin".to_string(),
        bits.clone(),
        vec![11],
        vec![22],
    );
    assert!(resp.success);
    assert_eq!(resp.user_id, "erin");
    assert_eq!(resp.message, "Fingerprint registered successfully");

    let entry = db.get("erin").expect("erin enrolled");
    assert_eq!(entry.ciphertext, bools_to_bytes(&bits));
    assert_eq!(entry.ciphertext, vec![0x5A]);
    assert_eq!(entry.encrypted_key_bytes, vec![11]);
    assert_eq!(entry.encrypted_iv_bytes, vec![22]);
}
