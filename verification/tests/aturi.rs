use jetfeed::aturi::{did_from_aturi, has_did_part};

#[test]
fn did_of_a_record_uri() {
    assert_eq!(
        did_from_aturi("at://did:plc:cbkjy5n7bk3ax2wplmtjofq2/app.bsky.feed.post/3kv"),
        "did:plc:cbkjy5n7bk3ax2wplmtjofq2"
    );
}

#[test]
fn did_of_a_repository_uri() {
    assert_eq!(did_from_aturi("at://did:web:example.com"), "did:web:example.com");
    assert_eq!(did_from_aturi("at://did:web:example.com/"), "did:web:example.com");
}

#[test]
fn did_of_short_texts_is_empty() {
    assert_eq!(did_from_aturi(""), "");
    assert_eq!(did_from_aturi("at://"), "");
    assert_eq!(did_from_aturi("at:///x"), "");
}

#[test]
fn scheme_is_skipped_by_length() {
    assert_eq!(did_from_aturi("x"), "");
    assert_eq!(did_from_aturi("abcdefg"), "fg");
    assert_eq!(did_from_aturi("http://a/b"), "");
    assert_eq!(did_from_aturi("abcdef"), "f");
}

#[test]
fn did_may_hold_wide_characters() {
    assert_eq!(did_from_aturi("at://d\u{e9}j\u{e0} \u{1f600}/x"), "d\u{e9}j\u{e0} \u{1f600}");
}

#[test]
fn split_characters_are_told() {
    assert!(has_did_part("at://did"));
    assert!(has_did_part("\u{e9}\u{e9}"));
    assert!(!has_did_part("at:/\u{e9}x"));
    assert!(has_did_part("at:\u{e9}x"));
}

#[test]
fn did_holds_no_slash() {
    for text in ["at://a/b/c", "at:////", "/////x/y", "at://did:web:example.com", "at:///"] {
        assert!(!did_from_aturi(text).contains('/'));
    }
    assert_eq!(did_from_aturi("/////x/y"), "x");
}

#[test]
fn path_is_not_read() {
    for text in ["at://", "at://did:plc:a", "at://d\u{e9}", "abc\u{e9}", "at://did:plc:a/x"] {
        for path in ["", "app.bsky.feed.post/3kv", "/", "\u{1f600}"] {
            let full = format!("{}/{}", text, path);
            assert!(has_did_part(&full));
            assert_eq!(did_from_aturi(&full), did_from_aturi(text));
        }
    }
    assert_eq!(did_from_aturi("at:/"), "");
    assert_eq!(did_from_aturi("at://a"), "a");
}

#[test]
fn scheme_alone_has_no_did() {
    for text in ["at://", "abcde", "abc\u{e9}"] {
        assert_eq!(did_from_aturi(text), "");
    }
}
