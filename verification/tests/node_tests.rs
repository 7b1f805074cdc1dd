use bark::node::{
    as_fixed, display, from_fixed, get, get_username, node_bytes, node_from_bytes, node_stats,
    username_or_uid, NodeStats,
};

#[test]
fn fixed_fields_round_trip() {
    let field = as_fixed("alice");
    assert_eq!(&field[0..5], b"alice");
    assert!(field[5..].iter().all(|b| *b == 0));
    assert_eq!(from_fixed(&field), "alice");
    let full = as_fixed("abcdefghijklmnopqrstuvwxyz012345");
    assert_eq!(from_fixed(&full), "abcdefghijklmnopqrstuvwxyz012345");
}

#[test]
fn fixed_text_stops_at_the_first_zero() {
    let mut field = [0u8; 32];
    field[..7].copy_from_slice(b"ab\0cdef");
    assert_eq!(from_fixed(&field), "ab");
    assert_eq!(from_fixed(&[]), "");
}

#[test]
fn invalid_utf8_reads_as_empty() {
    let mut field = [0u8; 32];
    field[0] = 0xff;
    field[1] = b'a';
    assert_eq!(from_fixed(&field), "");
}

#[test]
fn node_display() {
    let node = NodeStats { username: as_fixed("bob"), hostname: as_fixed("studio") };
    assert_eq!(display(&node), "bob@studio");
}

#[test]
fn node_stats_need_names_that_fit() {
    assert_eq!(
        node_stats("bob", "studio"),
        Some(NodeStats { username: as_fixed("bob"), hostname: as_fixed("studio") })
    );
    assert_eq!(node_stats("bob", &"h".repeat(33)), None);
    assert_eq!(node_stats(&"u".repeat(33), "studio"), None);
}

#[test]
fn node_bytes_round_trip() {
    let node = NodeStats { username: as_fixed("carol"), hostname: as_fixed("den") };
    let bytes = node_bytes(&node);
    assert_eq!(bytes.len(), 64);
    assert_eq!(&bytes[32..35], b"den");
    assert_eq!(node_from_bytes(&bytes), Some(node));
    assert_eq!(node_from_bytes(&bytes[1..]), None);
}

#[test]
fn user_names() {
    assert_eq!(username_or_uid(1000, None), "1000");
    assert_eq!(username_or_uid(0, Some("root".to_string())), "root");
    assert!(!get_username().is_empty());
    let _ = get();
}
