use std::sync::Arc;

use kf2_server::api::{
    config_username, configured_statuses, ensure_session_exists, finish_configure, finish_unconfigure, list_providers,
    provider_status, registered_provider, ConfigureEnd, Status,
};
use kf2_server::frontend::{proxy_url, spa_mode, trim_trailing_slashes, SpaMode};
use kf2_server::provider::cache::ProviderCache;
use kf2_server::provider::dam::DamProvider;
use kf2_server::provider::error::{ProviderError, StatusCode};
use kf2_server::provider::joysound::JoysoundProvider;
use kf2_server::provider::types::{Capability, ProviderConfig, ProviderId};
use kf2_server::provider::{Provider, ProviderRegistry};
use kf2_server::provider_config::ProviderConfigRow;
use kf2_server::FrontendConfig;

fn alice() -> ProviderConfig {
    ProviderConfig::BasicAuth { username: "alice".into(), password: "hunter2".into() }
}

#[test]
fn configure_success_caches_the_session() {
    let mut cache: ProviderCache<&str> = ProviderCache::new();
    let end = finish_configure(&mut cache, "s", ProviderId::Dam, Ok(Arc::new("session")));
    assert!(matches!(end, ConfigureEnd::Configured));
    assert_eq!(*cache.get("s", ProviderId::Dam).unwrap(), "session");
}

#[test]
fn configure_failure_rolls_back_and_leaves_the_cache_alone() {
    let mut cache: ProviderCache<&str> = ProviderCache::new();
    cache.insert("other", ProviderId::Dam, Arc::new("kept"));
    let end = finish_configure(&mut cache, "s", ProviderId::Dam, Err(ProviderError::AuthFailed("bad password".into())));
    match end {
        ConfigureEnd::RollBack(Status { code, message }) => {
            assert_eq!(code, StatusCode::Unauthenticated);
            assert_eq!(message, "authentication failed: bad password");
        }
        ConfigureEnd::Configured => panic!("a refused login must roll back"),
    }
    assert!(cache.get("s", ProviderId::Dam).is_none());
    assert_eq!(*cache.get("other", ProviderId::Dam).unwrap(), "kept");
}

#[test]
fn unconfigure_evicts_the_cached_session() {
    let mut cache: ProviderCache<u8> = ProviderCache::new();
    cache.insert("s", ProviderId::Dam, Arc::new(1));
    assert!(finish_unconfigure(&mut cache, "s", ProviderId::Dam, true));
    assert!(cache.get("s", ProviderId::Dam).is_none());
    assert!(!finish_unconfigure(&mut cache, "s", ProviderId::Dam, false));
}

#[test]
fn unknown_sessions_and_providers_are_refused() {
    assert!(ensure_session_exists("s", true).is_ok());
    let e = ensure_session_exists("nope", false).unwrap_err();
    assert_eq!((e.code, e.message.as_str()), (StatusCode::NotFound, "session 'nope' not found"));
    let mut reg = ProviderRegistry::new();
    reg.register(Arc::new(Provider::Dam(DamProvider)));
    assert_eq!(registered_provider(&reg, ProviderId::Dam).unwrap().id(), ProviderId::Dam);
    match registered_provider(&reg, ProviderId::Joysound) {
        Err(e) => assert_eq!((e.code, e.message.as_str()), (StatusCode::NotFound, "provider not available on this server")),
        Ok(_) => panic!("joysound was never registered"),
    }
    assert_eq!(Status::internal("db down".into()).code, StatusCode::Internal);
}

#[test]
fn status_reflects_stored_credentials() {
    let s = provider_status(ProviderId::Dam, Some(&alice()));
    assert!(s.is_configured);
    assert_eq!(s.username.as_deref(), Some("alice"));
    let s = provider_status(ProviderId::Dam, None);
    assert!(!s.is_configured && s.username.is_none());
    assert_eq!(config_username(&ProviderConfig::Empty), None);
    let rows = vec![(ProviderId::Joysound, alice()), (ProviderId::YouTube, ProviderConfig::Empty)];
    let st = configured_statuses(&rows);
    assert_eq!(st.len(), 2);
    assert_eq!(st[0].provider, ProviderId::Joysound);
    assert_eq!(st[0].username.as_deref(), Some("alice"));
    assert!(st[1].is_configured && st[1].username.is_none());
}

#[test]
fn listing_reports_each_registered_provider() {
    let mut reg = ProviderRegistry::new();
    reg.register(Arc::new(Provider::Joysound(JoysoundProvider)));
    reg.register(Arc::new(Provider::Dam(DamProvider)));
    let list = list_providers(&reg);
    assert_eq!(list.len(), 2);
    assert_eq!(list[0].provider, ProviderId::Dam);
    assert_eq!(list[0].name, "DAM");
    assert_eq!(list[0].capabilities, vec![Capability::Search, Capability::Scoring]);
    assert_eq!(list[1].provider, ProviderId::Joysound);
}

#[test]
fn stored_rows_read_back() {
    let row = ProviderConfigRow::from_stored("s".into(), "joysound", alice()).unwrap();
    assert_eq!(row.provider_id, ProviderId::Joysound);
    assert_eq!(config_username(row.config()).as_deref(), Some("alice"));
    let copied: ProviderConfig = (&row).into();
    assert!(matches!(copied, ProviderConfig::BasicAuth { username, password } if username == "alice" && password == "hunter2"));
    assert_eq!(
        ProviderConfigRow::from_stored("s".into(), "youtube", alice()).unwrap_err(),
        "provider id parse error: Matching variant not found"
    );
}

#[test]
fn frontends_are_served_from_disk_or_forwarded() {
    let dev = FrontendConfig { root: "http://localhost:5173//".into() };
    assert!(matches!(spa_mode(&dev), SpaMode::DevProxy { base_url } if base_url == "http://localhost:5173"));
    let dist = FrontendConfig { root: "web/dist".into() };
    assert!(matches!(spa_mode(&dist), SpaMode::Static { dist, index } if dist == "web/dist" && index == "web/dist/index.html"));
    assert_eq!(proxy_url("http://localhost:5173", "/projector/index.html?x=1"), "http://localhost:5173/projector/index.html?x=1");
    assert_eq!(trim_trailing_slashes("///"), "");
}
