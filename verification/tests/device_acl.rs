//! Which devices may be offered.

use extender::daemon::config::SecurityConfig;
use extender::daemon::device_acl::{is_device_allowed, DevicePattern};

#[test]
fn test_parse_exact_pattern() {
    let p = DevicePattern::parse("0bda:8153").unwrap();
    assert_eq!(p.vendor_id, Some(0x0bda));
    assert_eq!(p.product_id, Some(0x8153));
}

#[test]
fn test_parse_wildcard_vendor() {
    let p = DevicePattern::parse("*:8153").unwrap();
    assert_eq!(p.vendor_id, None);
    assert_eq!(p.product_id, Some(0x8153));
}

#[test]
fn test_parse_wildcard_product() {
    let p = DevicePattern::parse("0bda:*").unwrap();
    assert_eq!(p.vendor_id, Some(0x0bda));
    assert_eq!(p.product_id, None);
}

#[test]
fn test_parse_full_wildcard() {
    let p = DevicePattern::parse("*:*").unwrap();
    assert_eq!(p.vendor_id, None);
    assert_eq!(p.product_id, None);
}

#[test]
fn test_parse_invalid_pattern() {
    assert!(DevicePattern::parse("invalid").is_none());
    assert!(DevicePattern::parse("0bda:zzzz").is_none());
    assert!(DevicePattern::parse("0bda:8153:extra").is_none());
    assert!(DevicePattern::parse("").is_none());
}

#[test]
fn test_pattern_matches_exact() {
    let p = DevicePattern::parse("0bda:8153").unwrap();
    assert!(p.matches(0x0bda, 0x8153));
    assert!(!p.matches(0x0bda, 0x8154));
    assert!(!p.matches(0x1234, 0x8153));
}

#[test]
fn test_pattern_matches_wildcard_vendor() {
    let p = DevicePattern::parse("*:8153").unwrap();
    assert!(p.matches(0x0bda, 0x8153));
    assert!(p.matches(0x1234, 0x8153));
    assert!(!p.matches(0x0bda, 0x9999));
}

#[test]
fn test_pattern_matches_wildcard_product() {
    let p = DevicePattern::parse("0bda:*").unwrap();
    assert!(p.matches(0x0bda, 0x8153));
    assert!(p.matches(0x0bda, 0x0001));
    assert!(!p.matches(0x1234, 0x8153));
}

#[test]
fn test_empty_lists_allows_all() {
    let config = SecurityConfig {
        allowed_devices: vec![],
        denied_devices: vec![],
    };
    assert!(is_device_allowed(0x0bda, 0x8153, &config));
    assert!(is_device_allowed(0x1234, 0x5678, &config));
}

#[test]
fn test_allow_list_only() {
    let config = SecurityConfig {
        allowed_devices: vec!["0bda:8153".to_string(), "1234:*".to_string()],
        denied_devices: vec![],
    };
    assert!(is_device_allowed(0x0bda, 0x8153, &config));
    assert!(is_device_allowed(0x1234, 0x5678, &config));
    assert!(!is_device_allowed(0xAAAA, 0xBBBB, &config));
}

#[test]
fn test_deny_list_only() {
    let config = SecurityConfig {
        allowed_devices: vec![],
        denied_devices: vec!["0bda:*".to_string()],
    };
    assert!(!is_device_allowed(0x0bda, 0x8153, &config));
    assert!(!is_device_allowed(0x0bda, 0x0001, &config));
    assert!(is_device_allowed(0x1234, 0x5678, &config));
}

#[test]
fn test_deny_overrides_allow() {
    let config = SecurityConfig {
        allowed_devices: vec!["0bda:*".to_string()],
        denied_devices: vec!["0bda:8153".to_string()],
    };
    // 0bda:8153 matches allow but also matches deny — deny wins.
    assert!(!is_device_allowed(0x0bda, 0x8153, &config));
    // 0bda:0001 matches allow and not deny — allowed.
    assert!(is_device_allowed(0x0bda, 0x0001, &config));
    // Other vendor not in allow list — denied.
    assert!(!is_device_allowed(0x1234, 0x5678, &config));
}

#[test]
fn test_full_wildcard_deny_blocks_everything() {
    let config = SecurityConfig {
        allowed_devices: vec!["*:*".to_string()],
        denied_devices: vec!["*:*".to_string()],
    };
    assert!(!is_device_allowed(0x0bda, 0x8153, &config));
}

#[test]
fn test_wildcard_product_in_deny() {
    let config = SecurityConfig {
        allowed_devices: vec![],
        denied_devices: vec!["*:8153".to_string()],
    };
    assert!(!is_device_allowed(0x0bda, 0x8153, &config));
    assert!(!is_device_allowed(0x1234, 0x8153, &config));
    assert!(is_device_allowed(0x0bda, 0x0001, &config));
}

#[test]
fn test_malformed_patterns_are_ignored() {
    let config = SecurityConfig {
        allowed_devices: vec!["invalid".to_string(), "0bda:8153".to_string()],
        denied_devices: vec!["alsobad".to_string()],
    };
    // The valid allow pattern should still work.
    assert!(is_device_allowed(0x0bda, 0x8153, &config));
    // Device not in valid allow patterns is denied.
    assert!(!is_device_allowed(0x1234, 0x5678, &config));
}
