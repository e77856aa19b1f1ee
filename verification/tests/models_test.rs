use tsa::models::{within_online_window, Device};

fn device_with(user: &str, last_seen: String, node_key: &str, lock_error: &str, lock_key: &str) -> Device {
    Device {
        id: "test".to_string(),
        name: "test".to_string(),
        hostname: "test".to_string(),
        tags: vec![],
        os: "linux".to_string(),
        user: user.to_string(),
        last_seen,
        node_key: node_key.to_string(),
        tailnet_lock_error: lock_error.to_string(),
        tailnet_lock_key: lock_key.to_string(),
        blocks_incoming_connections: false,
    }
}

#[test]
fn test_device_is_online_empty_last_seen() {
    let device = device_with("test@example.com", String::new(), "", "", "");
    assert!(device.is_online());
}

#[test]
fn test_device_is_online_recent_timestamp() {
    let now = chrono::Utc::now();
    let recent = now - chrono::Duration::minutes(2);
    let device = device_with("test@example.com", recent.to_rfc3339(), "", "", "");
    assert!(device.is_online());
}

#[test]
fn test_device_is_offline_old_timestamp() {
    let now = chrono::Utc::now();
    let old = now - chrono::Duration::minutes(10);
    let device = device_with("test@example.com", old.to_rfc3339(), "", "", "");
    assert!(!device.is_online());
}

#[test]
fn test_device_is_locked_out() {
    let device = device_with(
        "test@example.com",
        String::new(),
        "nodekey:abc123",
        "signature verification failed",
        "tlpub:def456",
    );
    assert!(device.is_locked_out());
}

#[test]
fn test_device_not_locked_out() {
    let device = device_with("test@example.com", String::new(), "nodekey:abc123", "", "tlpub:def456");
    assert!(!device.is_locked_out());
}

#[test]
fn test_device_has_lock_keys() {
    let device = device_with("test@example.com", String::new(), "nodekey:abc123", "", "tlpub:def456");
    assert!(device.has_lock_keys());
}

#[test]
fn test_device_owner_with_user() {
    let device = device_with("test@example.com", String::new(), "", "", "");
    assert_eq!(device.owner(), "test@example.com");
}

#[test]
fn test_device_owner_without_user() {
    let device = device_with("", String::new(), "", "", "");
    assert_eq!(device.owner(), "-");
}

#[test]
fn unparsable_last_seen_is_offline() {
    let device = device_with("a@b.c", "yesterday".to_string(), "", "", "");
    assert!(!device.is_online());
}

#[test]
fn online_at_fixed_instant_uses_five_minute_window() {
    // 2024-01-01T00:00:00Z is 1704067200 seconds after the epoch.
    let device = device_with("a@b.c", "2024-01-01T00:00:00Z".to_string(), "", "", "");
    assert!(device.is_online_at((1704067200 + 4 * 60 + 59, 0)));
    assert!(!device.is_online_at((1704067200 + 5 * 60, 0)));
    assert!(device.is_online_at((1704067200, 0)));
    // A last-seen time in the future counts as seen just now.
    assert!(device.is_online_at((1704067200 - 3600, 0)));
}

#[test]
fn online_at_honours_time_zone_offsets() {
    // 01:00 at +01:00 is midnight UTC.
    let device = device_with("a@b.c", "2024-01-01T01:00:00+01:00".to_string(), "", "", "");
    assert!(device.is_online_at((1704067200 + 60, 0)));
    assert!(!device.is_online_at((1704067200 + 600, 0)));
}

#[test]
fn locked_out_needs_both_lock_key_and_error() {
    let only_error = device_with("", String::new(), "", "bad signature", "");
    assert!(!only_error.is_locked_out());
    let only_key = device_with("", String::new(), "", "", "tlpub:1");
    assert!(!only_key.is_locked_out());
    let missing_node_key = device_with("", String::new(), "", "", "tlpub:1");
    assert!(!missing_node_key.has_lock_keys());
}

#[test]
fn clone_keeps_every_field() {
    let mut device = device_with("u@x", "2024-01-01T00:00:00Z".to_string(), "nk", "err", "lk");
    device.tags = vec!["tag:a".to_string()];
    device.blocks_incoming_connections = true;
    let copy = device.clone();
    assert_eq!(copy.id, device.id);
    assert_eq!(copy.tags, device.tags);
    assert_eq!(copy.last_seen, device.last_seen);
    assert_eq!(copy.node_key, "nk");
    assert_eq!(copy.tailnet_lock_error, "err");
    assert_eq!(copy.tailnet_lock_key, "lk");
    assert!(copy.blocks_incoming_connections);
}

#[test]
fn online_window_is_under_five_minutes() {
    assert!(within_online_window(Some(4)));
    assert!(within_online_window(Some(-3)));
    assert!(!within_online_window(Some(5)));
    assert!(!within_online_window(None));
}
