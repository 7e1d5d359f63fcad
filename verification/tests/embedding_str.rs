use embedding_str::codec::{STR_INNER_SIZE, MAX_EMBEDDED_LEN};
use embedding_str::{EmbeddingStr, EmbeddingStrMode};

#[test]
fn test_lifecycle() {
    assert_eq!(STR_INNER_SIZE, 16);

    let s = EmbeddingStr::from("");
    assert_eq!(s.mode(), EmbeddingStrMode::Embedded);
    assert_eq!(s.as_str(), "");
    let s = EmbeddingStr::from("a");
    assert_eq!(s.mode(), EmbeddingStrMode::Embedded);
    assert_eq!(s.as_str(), "a");
    let s = EmbeddingStr::from("abcdxyz01");
    assert_eq!(s.mode(), EmbeddingStrMode::Embedded);
    assert_eq!(s.as_str(), "abcdxyz01");
    let s = EmbeddingStr::from("123456789012345");
    assert_eq!(s.mode(), EmbeddingStrMode::Embedded);
    assert_eq!(s.as_str(), "123456789012345");
    let s = EmbeddingStr::from("1234567890123456");
    assert_eq!(s.mode(), EmbeddingStrMode::Boxed);
    assert_eq!(s.as_str(), "1234567890123456");
    let slong = EmbeddingStr::from("something longer than 15 byets");
    assert_eq!(slong.mode(), EmbeddingStrMode::Boxed);
    assert_eq!(slong.as_str(), "something longer than 15 byets");
}

#[test]
fn test_format() {
    let s = EmbeddingStr::from("a");
    assert_eq!(s.display_string(), "a".to_owned());
    assert_eq!(s.debug_string(), "Embedded(\"a\")".to_owned());
    let s = EmbeddingStr::from("1234567890123456");
    assert_eq!(s.display_string(), "1234567890123456".to_owned());
    assert_eq!(s.debug_string(), "Boxed(\"1234567890123456\")".to_owned());
}

#[test]
fn test_boundary_modes() {
    // Exactly at the threshold: 0, MAX_EMBEDDED_LEN and one past it.
    assert_eq!(MAX_EMBEDDED_LEN, 15);
    let empty = EmbeddingStr::from("");
    assert_eq!(empty.mode(), EmbeddingStrMode::Embedded);
    assert_eq!(empty.as_str().len(), 0);
    let at = EmbeddingStr::from("123456789012345");
    assert_eq!(at.as_str().len(), 15);
    assert_eq!(at.mode(), EmbeddingStrMode::Embedded);
    let past = EmbeddingStr::from("1234567890123456");
    assert_eq!(past.as_str().len(), 16);
    assert_eq!(past.mode(), EmbeddingStrMode::Boxed);
}

#[test]
fn test_from_string_modes() {
    let short = EmbeddingStr::from_string(String::from("hi"));
    assert_eq!(short.mode(), EmbeddingStrMode::Embedded);
    assert_eq!(short.as_str(), "hi");
    let long = EmbeddingStr::from_string(String::from("an owned string over the limit"));
    assert_eq!(long.mode(), EmbeddingStrMode::Boxed);
    assert_eq!(long.as_str(), "an owned string over the limit");
}

#[test]
fn test_multibyte_threshold() {
    // The threshold counts bytes, not characters: seven two-byte characters
    // fit inline, eight do not.
    let seven = "ééééééé";
    assert_eq!(seven.len(), 14);
    let s = EmbeddingStr::from(seven);
    assert_eq!(s.mode(), EmbeddingStrMode::Embedded);
    assert_eq!(s.as_str(), seven);
    let eight = "éééééééé";
    assert_eq!(eight.len(), 16);
    let s = EmbeddingStr::from(eight);
    assert_eq!(s.mode(), EmbeddingStrMode::Boxed);
    assert_eq!(s.as_str(), eight);
}

#[test]
fn test_repeated_boxed_release() {
    // Each heap-backed value owns its buffer alone and releases it when it
    // goes out of scope; inline values own nothing.
    for i in 0..1000 {
        let text = format!("heap-backed value number {}", i);
        let v = EmbeddingStr::from(text.as_str());
        assert_eq!(v.mode(), EmbeddingStrMode::Boxed);
        assert_eq!(v.as_str(), text.as_str());
        let w = EmbeddingStr::from_string(text.clone());
        assert_eq!(w.as_str(), text.as_str());
    }
}
