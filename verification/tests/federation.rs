use project_memory::cursor::{
    decode_cursor, decode_federation_cursor, encode_cursor, encode_federation_cursor,
    validate_cursor_revision,
};
use project_memory::domain::{
    FederationPageCursor, MemoryEntityId, MemoryPageCursor, MemoryRevisionId,
};
use project_memory::federation::seeds::repository_only_seeds;
use project_memory::federation::FederatedContextSeed;
use project_memory::query::MemoryQueryError;

#[test]
fn cursor_rejects_a_different_request_fingerprint() {
    let revision = MemoryRevisionId::new("memory:revision").unwrap();
    let cursor = encode_cursor("search", &revision, "one", 2).unwrap();
    assert_eq!(
        decode_cursor(Some(&cursor), "search", &revision, "two"),
        Err(MemoryQueryError::StaleCursor)
    );
    assert_eq!(decode_cursor(Some(&cursor), "search", &revision, "one"), Ok(2));
    assert_eq!(
        decode_cursor(Some(&cursor), "context", &revision, "one"),
        Err(MemoryQueryError::StaleCursor)
    );
    assert_eq!(decode_cursor(None, "search", &revision, "one"), Ok(0));
}

#[test]
fn cursor_is_bound_to_both_domain_revisions() {
    let cursor = encode_federation_cursor("search", "request", "revision-one", 4).unwrap();
    let decoded = decode_federation_cursor(Some(&cursor), "search", "request")
        .unwrap()
        .unwrap();
    assert_eq!(
        validate_cursor_revision(Some(&decoded), "revision-two"),
        Err(MemoryQueryError::StaleCursor)
    );
    assert_eq!(validate_cursor_revision(Some(&decoded), "revision-one"), Ok(()));
}

#[test]
fn explicit_domain_seed_validation_never_broadens_scope() {
    let seed = FederatedContextSeed::MemoryEntity(MemoryEntityId::new("memory-entity").unwrap());
    assert!(repository_only_seeds(&vec![seed]).is_err());
}

fn token(json: &str) -> String {
    let digits: String = json.bytes().map(|byte| format!("{byte:02x}")).collect();
    format!("cursor:{digits}")
}

#[test]
fn cursors_are_read_as_objects_and_as_arrays() {
    let revision = MemoryRevisionId::new("memory:revision").unwrap();
    for (json, expected) in [
        (
            r#"{"offset":7,"fingerprint":"one","revision_id":"memory:revision","operation":"search","version":1}"#,
            Ok(7),
        ),
        (r#"[1,"search","memory:revision","one",7]"#, Ok(7)),
        (
            r#"[2,"search","memory:revision","one",7]"#,
            Err(MemoryQueryError::StaleCursor),
        ),
        (
            r#"[1,"search","memory:revision","one"]"#,
            Err(MemoryQueryError::StaleCursor),
        ),
        (
            r#"{"version":1,"operation":"search","revision_id":"memory:revision","offset":7}"#,
            Err(MemoryQueryError::StaleCursor),
        ),
        (r#""text""#, Err(MemoryQueryError::StaleCursor)),
    ] {
        let cursor = MemoryPageCursor::new(&token(json)).unwrap();
        assert_eq!(
            decode_cursor(Some(&cursor), "search", &revision, "one"),
            expected,
            "{json}"
        );
    }
    let cursor = FederationPageCursor::new(&token(r#"[1,"search","request","key",3]"#)).unwrap();
    let decoded = decode_federation_cursor(Some(&cursor), "search", "request")
        .unwrap()
        .unwrap();
    assert_eq!(decoded.revision_key, "key");
    assert_eq!(decoded.offset, 3);
}

#[test]
fn cursor_members_stand_once() {
    let revision = MemoryRevisionId::new("memory:revision").unwrap();
    let body = r#""version":1,"operation":"search","revision_id":"memory:revision","fingerprint":"one""#;
    for (json, expected) in [
        (format!("{{{body},\"offset\":7}}"), Ok(7)),
        (format!(" {{ {body} ,\n\t\"offset\" : 7 }}\r\n"), Ok(7)),
        (format!("{{{body},\"\\u006fffset\":7}}"), Ok(7)),
        (format!("{{\"x\":[{{}}],\"x\":null,{body},\"offset\":7}}"), Ok(7)),
        (format!("{{{body},\"offset\":7,\"offset\":7}}"), Err(MemoryQueryError::StaleCursor)),
        (format!("{{{body},\"version\":1,\"offset\":7}}"), Err(MemoryQueryError::StaleCursor)),
        (format!("{{{body},\"fingerprint\":\"one\",\"offset\":7}}"), Err(MemoryQueryError::StaleCursor)),
        (format!("{{{body},\"offset\":7.0}}"), Err(MemoryQueryError::StaleCursor)),
        (format!("{{{body},\"offset\":\"7\"}}"), Err(MemoryQueryError::StaleCursor)),
        (format!("{{{body},\"offset\":7,}}"), Err(MemoryQueryError::StaleCursor)),
        (format!("{{{body},\"offset\":7}} x"), Err(MemoryQueryError::StaleCursor)),
        (format!("{{{body},\"offset\":7"), Err(MemoryQueryError::StaleCursor)),
        ("{}".to_string(), Err(MemoryQueryError::StaleCursor)),
    ] {
        let cursor = MemoryPageCursor::new(&token(&json)).unwrap();
        assert_eq!(
            decode_cursor(Some(&cursor), "search", &revision, "one"),
            expected,
            "{json}"
        );
    }
    let repeated = r#"{"version":1,"operation":"search","fingerprint":"request","revision_key":"key","revision_key":"key","offset":3}"#;
    let cursor = FederationPageCursor::new(&token(repeated)).unwrap();
    assert_eq!(
        decode_federation_cursor(Some(&cursor), "search", "request").err(),
        Some(MemoryQueryError::StaleCursor)
    );
}
