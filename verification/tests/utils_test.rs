use tsa::layouts::{build_devices_table, build_devices_with_lock_info};
use tsa::matching::{find_devices_by_pattern, resolve_device_patterns};
use tsa::models::Device;
use tsa::tags::{format_tags, normalize_tag};

fn create_test_device(id: &str, name: &str, hostname: &str) -> Device {
    Device {
        id: id.to_string(),
        name: name.to_string(),
        hostname: hostname.to_string(),
        tags: vec![],
        os: "linux".to_string(),
        user: "test@example.com".to_string(),
        last_seen: String::new(),
        node_key: String::new(),
        tailnet_lock_error: String::new(),
        tailnet_lock_key: String::new(),
        blocks_incoming_connections: false,
    }
}

#[test]
fn test_find_devices_by_pattern_exact_id() {
    let devices = vec![
        create_test_device("123", "device1", "host1"),
        create_test_device("456", "device2", "host2"),
    ];
    let result = find_devices_by_pattern("123", &devices);
    assert_eq!(result.len(), 1);
    assert_eq!(result[0].id, "123");
}

#[test]
fn test_find_devices_by_pattern_exact_name() {
    let devices = vec![
        create_test_device("123", "device1", "host1"),
        create_test_device("456", "device2", "host2"),
    ];
    let result = find_devices_by_pattern("device1", &devices);
    assert_eq!(result.len(), 1);
    assert_eq!(result[0].name, "device1");
}

#[test]
fn test_find_devices_by_pattern_exact_hostname() {
    let devices = vec![
        create_test_device("123", "device1", "host1"),
        create_test_device("456", "device2", "host2"),
    ];
    let result = find_devices_by_pattern("host1", &devices);
    assert_eq!(result.len(), 1);
    assert_eq!(result[0].hostname, "host1");
}

#[test]
fn test_find_devices_by_pattern_case_insensitive() {
    let devices = vec![
        create_test_device("123", "Device1", "Host1"),
        create_test_device("456", "device2", "host2"),
    ];
    let result = find_devices_by_pattern("device1", &devices);
    assert_eq!(result.len(), 1);
    assert_eq!(result[0].name, "Device1");
}

#[test]
fn test_find_devices_by_pattern_partial_match() {
    let devices = vec![
        create_test_device("123", "web-server-1", "host1"),
        create_test_device("456", "web-server-2", "host2"),
        create_test_device("789", "db-server-1", "host3"),
    ];
    let result = find_devices_by_pattern("web", &devices);
    assert_eq!(result.len(), 2);
    assert!(result.iter().any(|d| d.name == "web-server-1"));
    assert!(result.iter().any(|d| d.name == "web-server-2"));
}

#[test]
fn test_find_devices_by_pattern_no_match() {
    let devices = vec![
        create_test_device("123", "device1", "host1"),
        create_test_device("456", "device2", "host2"),
    ];
    let result = find_devices_by_pattern("nonexistent", &devices);
    assert_eq!(result.len(), 0);
}

#[test]
fn test_resolve_device_patterns_single_pattern() {
    let devices = vec![
        create_test_device("123", "device1", "host1"),
        create_test_device("456", "device2", "host2"),
    ];
    let patterns = vec!["device1".to_string()];
    let result = resolve_device_patterns(&patterns, &devices);
    assert_eq!(result.len(), 1);
    assert_eq!(result[0].name, "device1");
}

#[test]
fn test_resolve_device_patterns_multiple_patterns() {
    let devices = vec![
        create_test_device("123", "device1", "host1"),
        create_test_device("456", "device2", "host2"),
        create_test_device("789", "device3", "host3"),
    ];
    let patterns = vec!["device1".to_string(), "device2".to_string()];
    let result = resolve_device_patterns(&patterns, &devices);
    assert_eq!(result.len(), 2);
}

#[test]
fn test_resolve_device_patterns_deduplication() {
    let devices = vec![
        create_test_device("123", "web-server", "host1"),
        create_test_device("456", "device2", "host2"),
    ];
    let patterns = vec!["web-server".to_string(), "host1".to_string()];
    let result = resolve_device_patterns(&patterns, &devices);
    assert_eq!(result.len(), 1);
    assert_eq!(result[0].id, "123");
}

#[test]
fn test_normalize_tag_with_prefix() {
    assert_eq!(normalize_tag("tag:server"), "tag:server");
}

#[test]
fn test_normalize_tag_without_prefix() {
    assert_eq!(normalize_tag("server"), "tag:server");
}

#[test]
fn test_format_tags_empty() {
    let tags: Vec<String> = vec![];
    let result = format_tags(&tags);
    assert!(!result.is_empty());
}

#[test]
fn test_format_tags_single() {
    let tags = vec!["tag:server".to_string()];
    let result = format_tags(&tags);
    assert!(result.contains("tag:server"));
}

#[test]
fn test_find_devices_by_pattern_hyphen_prefix_exact() {
    let devices = vec![
        create_test_device("1", "-gpu-1", "host1"),
        create_test_device("2", "-gpu-2", "host2"),
        create_test_device("3", "gpu-3", "host3"),
    ];
    let result = find_devices_by_pattern("-gpu-1", &devices);
    assert_eq!(result.len(), 1);
    assert_eq!(result[0].name, "-gpu-1");
}

#[test]
fn test_find_devices_by_pattern_hyphen_prefix_partial() {
    let devices = vec![
        create_test_device("1", "-gpu-1", "host1"),
        create_test_device("2", "-gpu-2", "host2"),
        create_test_device("3", "gpu-3", "host3"),
    ];
    let result = find_devices_by_pattern("-gpu", &devices);
    assert_eq!(result.len(), 2);
    assert!(result.iter().any(|d| d.name == "-gpu-1"));
    assert!(result.iter().any(|d| d.name == "-gpu-2"));
}

#[test]
fn test_find_devices_by_pattern_multiple_hyphens() {
    let devices = vec![
        create_test_device("1", "--special-device", "host1"),
        create_test_device("2", "-regular-device", "host2"),
        create_test_device("3", "no-prefix-device", "host3"),
    ];
    let result = find_devices_by_pattern("--special-device", &devices);
    assert_eq!(result.len(), 1);
    assert_eq!(result[0].name, "--special-device");
}

#[test]
fn test_find_devices_by_pattern_hyphen_hostname() {
    let devices = vec![
        create_test_device("1", "device1", "-special-host"),
        create_test_device("2", "device2", "normal-host"),
    ];
    let result = find_devices_by_pattern("-special-host", &devices);
    assert_eq!(result.len(), 1);
    assert_eq!(result[0].hostname, "-special-host");
}

#[test]
fn test_resolve_device_patterns_with_hyphens() {
    let devices = vec![
        create_test_device("1", "-gpu-1", "host1"),
        create_test_device("2", "-gpu-2", "host2"),
        create_test_device("3", "server-01", "host3"),
    ];
    let patterns = vec!["-gpu-1".to_string(), "server-01".to_string()];
    let result = resolve_device_patterns(&patterns, &devices);
    assert_eq!(result.len(), 2);
    assert!(result.iter().any(|d| d.name == "-gpu-1"));
    assert!(result.iter().any(|d| d.name == "server-01"));
}

#[test]
fn test_format_tags_multiple() {
    let tags = vec!["tag:server".to_string(), "tag:prod".to_string()];
    let result = format_tags(&tags);
    assert!(result.contains("tag:server"));
    assert!(result.contains("tag:prod"));
}

#[test]
fn test_build_devices_table_default_columns() {
    let devices = vec![create_test_device("123", "device1", "host1")];
    let table = build_devices_table(&devices, None);
    assert!(table.contains("host1"));
    assert!(table.contains("Hostname"));
}

#[test]
fn test_build_devices_table_custom_columns() {
    let devices = vec![create_test_device("123", "device1", "host1")];
    let columns = vec!["id".to_string(), "name".to_string()];
    let table = build_devices_table(&devices, Some(&columns));
    assert!(table.contains("123"));
    assert!(table.contains("device1"));
    assert!(table.contains("ID"));
    assert!(table.contains("Name"));
}

#[test]
fn test_build_devices_with_lock_info() {
    let mut device = create_test_device("123", "device1", "host1");
    device.node_key = "nodekey:abc123".to_string();
    device.tailnet_lock_key = "tlpub:def456".to_string();

    let devices = vec![device];
    let table = build_devices_with_lock_info(&devices);

    assert!(table.contains("host1"));
    assert!(table.contains("device1"));
    assert!(table.contains("nodekey:abc123"));
    assert!(table.contains("tlpub:def456"));
}
