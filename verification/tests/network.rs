use std::time::Duration;

use cursor_server::error::Error;
use cursor_server::network::{
    blocking_client_builder, build_and_store, build_for, client_builder, proxy_plan,
    supports_proxy_settings,
    try_blocking_client_builder, try_build_for, try_client_builder, ClientCache, ClientPurpose,
    HttpClient, ProxySettings,
};

fn settings(custom: bool, address: &str, auth_enabled: bool) -> ProxySettings {
    ProxySettings {
        custom,
        address: address.to_string(),
        auth_enabled,
        username: "user".to_string(),
        password: "secret".to_string(),
    }
}

#[test]
fn only_custom_settings_plan_a_proxy() {
    assert!(proxy_plan(&settings(false, "http://proxy:8080", true)).is_none());
    let plan = proxy_plan(&settings(true, "http://proxy:8080", false)).unwrap();
    assert_eq!(plan.address, "http://proxy:8080");
    assert!(plan.credentials.is_none());
    let plan = proxy_plan(&settings(true, "http://proxy:8080", true)).unwrap();
    assert_eq!(
        plan.credentials,
        Some(("user".to_string(), "secret".to_string()))
    );
}

#[test]
fn builders_accept_proxy_urls_and_refuse_malformed_ones() {
    assert!(client_builder(&settings(false, "", false)).is_ok());
    assert!(client_builder(&settings(true, "http://proxy:8080", true)).is_ok());
    assert!(blocking_client_builder(&settings(true, "http://proxy:8080", false)).is_ok());
    assert!(matches!(
        client_builder(&settings(true, "http://[::1", false)),
        Err(Error::Http(_))
    ));
    assert!(matches!(
        blocking_client_builder(&settings(true, "http://[::1", false)),
        Err(Error::Http(_))
    ));
    assert!(matches!(
        build_for(&settings(true, "http://[::1", false), ClientPurpose::Default, Duration::from_secs(1)),
        Err(Error::Http(_))
    ));
}

#[test]
fn provider_clients_are_reused_only_for_their_timeout() {
    let mut cache: ClientCache<u32> = ClientCache::new();
    let short = Duration::from_secs(5);
    let long = Duration::from_secs(60);
    assert!(cache.cached(ClientPurpose::Provider, &short).is_none());
    cache.store(ClientPurpose::Provider, short, 1);
    assert_eq!(cache.cached(ClientPurpose::Provider, &short), Some(&1));
    assert!(cache.cached(ClientPurpose::Provider, &long).is_none());
    cache.store(ClientPurpose::Provider, long, 2);
    assert!(cache.cached(ClientPurpose::Provider, &short).is_none());
    assert_eq!(cache.cached(ClientPurpose::Provider, &long), Some(&2));
}

#[test]
fn each_purpose_keeps_its_own_client_until_invalidated() {
    let mut cache: ClientCache<&str> = ClientCache::new();
    let timeout = Duration::from_secs(1);
    cache.store(ClientPurpose::Default, timeout, "default");
    cache.store(ClientPurpose::Cursor, timeout, "cursor");
    assert_eq!(cache.cached(ClientPurpose::Default, &timeout), Some(&"default"));
    assert_eq!(cache.cached(ClientPurpose::Cursor, &Duration::from_secs(9)), Some(&"cursor"));
    assert!(cache.cached(ClientPurpose::Provider, &timeout).is_none());
    cache.invalidate();
    assert!(cache.cached(ClientPurpose::Default, &timeout).is_none());
    assert!(cache.cached(ClientPurpose::Cursor, &timeout).is_none());
}

#[test]
fn credentials_are_only_applied_to_proxy_urls_that_carry_them() {
    assert!(supports_proxy_settings(&settings(true, "http://proxy:8080", true)));
    assert!(supports_proxy_settings(&settings(true, "proxy:8080", true)));
    assert!(supports_proxy_settings(&settings(true, "file://example.com", false)));
    assert!(supports_proxy_settings(&settings(false, "file://example.com", true)));
    assert!(!supports_proxy_settings(&settings(true, "file://example.com", true)));
    assert!(try_client_builder(&settings(true, "file://example.com", true)).is_none());
    assert!(try_blocking_client_builder(&settings(true, "file://example.com", true)).is_none());
    assert!(try_build_for(&settings(true, "file://example.com", true), ClientPurpose::Default, Duration::from_secs(1)).is_none());
    assert!(matches!(try_client_builder(&settings(true, "proxy:8080", true)), Some(Ok(_))));
    assert!(matches!(
        try_build_for(&settings(true, "http://[::1", true), ClientPurpose::Provider, Duration::from_secs(1)),
        Some(Err(Error::Http(_)))
    ));
}

#[test]
fn built_clients_are_kept_for_their_purpose() {
    let mut cache: ClientCache<HttpClient> = ClientCache::new();
    let timeout = Duration::from_secs(3);
    assert!(build_and_store(&mut cache, &settings(true, "file://example.com", true), ClientPurpose::Provider, timeout).is_none());
    assert!(cache.cached(ClientPurpose::Provider, &timeout).is_none());
    assert!(matches!(
        build_and_store(&mut cache, &settings(true, "http://[::1", false), ClientPurpose::Provider, timeout),
        Some(Err(Error::Http(_)))
    ));
    assert!(cache.cached(ClientPurpose::Provider, &timeout).is_none());
    assert!(matches!(
        build_and_store(&mut cache, &settings(false, "", false), ClientPurpose::Provider, timeout),
        Some(Ok(_))
    ));
    assert!(cache.cached(ClientPurpose::Provider, &timeout).is_some());
    assert!(cache.cached(ClientPurpose::Provider, &Duration::from_secs(4)).is_none());
    assert!(cache.cached(ClientPurpose::Default, &timeout).is_none());
}
