use vidio::ident::{extract_video_id, sanitize_video_id, IdError, MAX_VIDEO_ID_LEN};

#[test]
fn allows_expected_characters() {
    let id = sanitize_video_id("abcDEF123-_x").expect("valid ID");
    assert_eq!(id, "abcDEF123-_x");
}

#[test]
fn rejects_empty() {
    assert!(sanitize_video_id("   ").is_err());
}

#[test]
fn rejects_invalid_chars() {
    assert!(sanitize_video_id("abc/../../etc").is_err());
}

#[test]
fn rejects_too_long() {
    let long = "a".repeat(MAX_VIDEO_ID_LEN + 1);
    assert!(sanitize_video_id(&long).is_err());
}

#[test]
fn sanitize_trims_and_names_each_error() {
    assert_eq!(sanitize_video_id("  abc_DEF-123 \n"), Ok("abc_DEF-123".to_string()));
    assert_eq!(sanitize_video_id(""), Err(IdError::Empty));
    assert_eq!(sanitize_video_id(&"b".repeat(MAX_VIDEO_ID_LEN + 1)), Err(IdError::TooLong));
    assert_eq!(sanitize_video_id(&"b".repeat(MAX_VIDEO_ID_LEN)), Ok("b".repeat(MAX_VIDEO_ID_LEN)));
    assert_eq!(sanitize_video_id("a b"), Err(IdError::UnsupportedCharacters));
    assert_eq!(sanitize_video_id("../etc/passwd"), Err(IdError::UnsupportedCharacters));
    assert!(IdError::Empty.message().contains("empty"));
}

#[test]
fn extracts_ids_from_urls() {
    assert_eq!(
        extract_video_id("https://www.youtube.com/watch?v=dQw4w9WgXcQ&t=42"),
        Some("dQw4w9WgXcQ".to_string())
    );
    assert_eq!(extract_video_id("https://youtu.be/abc_123?si=xyz"), Some("abc_123".to_string()));
    assert_eq!(extract_video_id("  plainId-9  "), Some("plainId-9".to_string()));
    assert_eq!(extract_video_id("../etc/passwd"), None);
    assert_eq!(extract_video_id("https://www.youtube.com/watch?v="), None);
    assert_eq!(extract_video_id("watch?v=one&v=two"), Some("one".to_string()));
}
