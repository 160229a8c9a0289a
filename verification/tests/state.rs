//! The shared state.
use synapse_core::state::TenantConfig;
use synapse_core::AppState;

fn config(tenant_id: u128, settings: &str) -> TenantConfig<String> {
    TenantConfig { tenant_id, settings: settings.to_string() }
}

#[test]
fn state_for_tests() {
    let state: AppState<String> = AppState::test_new();
    assert_eq!(state.redis_url, "redis://localhost:6379");
    assert_eq!(state.horizon_url, "https://horizon-testnet.stellar.org");
    assert_eq!(state.broadcast_capacity, 100);
    assert!(!state.batching);
    assert!(state.get_tenant_config(1).is_none());
}

#[test]
fn lookup_after_load() {
    let mut state = AppState::test_new();
    let read: Result<_, String> = Ok(vec![config(1, "one"), config(2, "two"), config(1, "last")]);
    assert_eq!(state.load_tenant_configs(read), Ok(()));
    assert_eq!(state.get_tenant_config(1).unwrap().settings, "last");
    let two = state.get_tenant_config(2).unwrap();
    assert_eq!((two.tenant_id, two.settings.as_str()), (2, "two"));
    assert!(state.get_tenant_config(3).is_none());
}

#[test]
fn load_replaces_what_was_there() {
    let mut state = AppState::test_new();
    let first: Result<_, String> = Ok(vec![config(1, "one")]);
    state.load_tenant_configs(first).unwrap();
    let second: Result<_, String> = Ok(vec![config(2, "two")]);
    state.load_tenant_configs(second).unwrap();
    assert!(state.get_tenant_config(1).is_none());
    assert_eq!(state.get_tenant_config(2).unwrap().settings, "two");
}

#[test]
fn failed_load_keeps_what_was_there() {
    let mut state = AppState::test_new();
    let first: Result<_, String> = Ok(vec![config(1, "one")]);
    state.load_tenant_configs(first).unwrap();
    assert_eq!(state.load_tenant_configs(Err("down".to_string())), Err("down".to_string()));
    assert_eq!(state.get_tenant_config(1).unwrap().settings, "one");
}
