use pleme_providers::ProviderCapabilities;

#[test]
fn test_default_capabilities() {
    let caps = ProviderCapabilities::default();
    assert!(!caps.supports_webhooks);
    assert!(!caps.supports_real_time_updates);
    assert_eq!(caps.rate_limit_per_second, 10);
    assert_eq!(caps.pagination_max_size, 50);
    assert!(caps.requires_authentication);
}

#[test]
fn test_meets_rate_limit() {
    let caps = ProviderCapabilities {
        rate_limit_per_second: 100,
        ..Default::default()
    };

    assert!(caps.meets_rate_limit(50));
    assert!(caps.meets_rate_limit(100));
    assert!(!caps.meets_rate_limit(150));
}

#[test]
fn test_meets_rate_limit_unlimited() {
    let caps = ProviderCapabilities {
        rate_limit_per_second: 0, // Unlimited
        ..Default::default()
    };

    assert!(caps.meets_rate_limit(1000));
    assert!(caps.meets_rate_limit(10000));
}

#[test]
fn test_meets_pagination_size() {
    let caps = ProviderCapabilities {
        pagination_max_size: 100,
        ..Default::default()
    };

    assert!(caps.meets_pagination_size(50));
    assert!(caps.meets_pagination_size(100));
    assert!(!caps.meets_pagination_size(150));
}

#[test]
fn test_recommended_page_size() {
    let caps = ProviderCapabilities {
        pagination_max_size: 100,
        ..Default::default()
    };

    assert_eq!(caps.recommended_page_size(), 100);

    let caps_zero = ProviderCapabilities {
        pagination_max_size: 0,
        ..Default::default()
    };

    assert_eq!(caps_zero.recommended_page_size(), 50);
}

#[test]
fn default_has_no_optional_features() {
    let caps = ProviderCapabilities::default();
    assert!(!caps.supports_batch_operations);
    assert!(!caps.supports_cursor_pagination);
    assert!(!caps.supports_filtering);
    assert!(!caps.supports_sorting);
}

#[test]
fn meeting_a_rate_means_meeting_every_lower_rate() {
    let caps = ProviderCapabilities {
        rate_limit_per_second: 30,
        ..Default::default()
    };
    assert!(caps.meets_rate_limit(30));
    assert!(caps.meets_rate_limit(29));
    assert!(caps.meets_rate_limit(0));
    assert!(!caps.meets_rate_limit(31));
    assert!(!caps.meets_rate_limit(u32::MAX));
}

#[test]
fn unlimited_rate_meets_the_largest_rate() {
    let caps = ProviderCapabilities {
        rate_limit_per_second: 0,
        ..Default::default()
    };
    assert!(caps.meets_rate_limit(u32::MAX));
}

#[test]
fn recommended_size_is_met_and_never_zero() {
    let caps = ProviderCapabilities {
        pagination_max_size: 1,
        ..Default::default()
    };
    assert_eq!(caps.recommended_page_size(), 1);
    assert!(caps.meets_pagination_size(caps.recommended_page_size()));
    let zero = ProviderCapabilities {
        pagination_max_size: 0,
        ..Default::default()
    };
    assert!(zero.recommended_page_size() > 0);
    assert!(!zero.meets_pagination_size(1));
    assert!(zero.meets_pagination_size(0));
}

#[test]
fn capabilities_compare_by_fields() {
    let a = ProviderCapabilities::default();
    let b = a.clone();
    assert_eq!(a, b);
    let c = ProviderCapabilities {
        supports_sorting: true,
        ..Default::default()
    };
    assert_ne!(a, c);
}
