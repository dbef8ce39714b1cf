use dcode::deepseek::check_response;
use dcode::deepseek::create_deepseek_provider;
use dcode::deepseek::deepseek_flash_model;
use dcode::deepseek::endpoint_url;
use dcode::deepseek::is_deepseek_provider;
use dcode::deepseek::list_models;
use dcode::deepseek::resolve_auth_source;
use dcode::deepseek::should_refresh;
use dcode::deepseek::transport_failure;
use dcode::deepseek::AuthSource;
use dcode::deepseek::DeepSeekError;
use dcode::deepseek::DeepSeekModelProvider;
use dcode::deepseek::DeepSeekModels;
use dcode::deepseek::InputModality;
use dcode::deepseek::ProviderAccount;
use dcode::deepseek::RemoteCompactionSupport;
use dcode::deepseek::RefreshReport;
use dcode::deepseek::RefreshStrategy;
use dcode::deepseek::TransportStage;
use dcode::deepseek::DEEPSEEK_DEFAULT_MODEL;

fn message(e: DeepSeekError) -> String {
    match e {
        DeepSeekError::InvalidRequest(m) => format!("invalid: {m}"),
        DeepSeekError::Fatal(m) => format!("fatal: {m}"),
    }
}

#[test]
fn deepseek_provider_is_narrowly_identified() {
    let provider = create_deepseek_provider();
    assert!(is_deepseek_provider(&provider));

    let mut custom = provider;
    custom.env_key_instructions = None;
    assert!(!is_deepseek_provider(&custom));
}

#[test]
fn bundled_model_only_accepts_text() {
    let model = deepseek_flash_model();
    assert_eq!(model.slug, DEEPSEEK_DEFAULT_MODEL);
    assert!(model.input_modalities == vec![InputModality::Text]);
    assert!(model.additional_speed_tiers.is_empty() && model.service_tiers.is_empty());
    assert!(model.default_service_tier.is_none() && model.availability_nux.is_none());
    assert!(model.upgrade.is_none() && model.default_verbosity.is_none());
    assert!(model.comp_hash.is_none());
}

#[test]
fn registration_adds_metadata_and_runtime_provider() {
    let info = create_deepseek_provider();
    assert_eq!(info.base_url.as_deref(), Some("https://api.deepseek.com"));
    assert_eq!(info.env_key.as_deref(), Some("DEEPSEEK_API_KEY"));
    let provider = DeepSeekModelProvider::new(info);
    assert!(provider.capabilities().api_key_login);
    assert!(provider.capabilities().account_balance);
}

#[test]
fn lib_tests_list_models_filters_to_supported_flash_model() {
    let ids = vec!["deepseek-v4-flash".to_string(), "deepseek-v4-pro".to_string()];
    let models = list_models(&ids);
    assert!(models == vec![deepseek_flash_model()]);
}

#[test]
fn deepseek_tests_list_models_filters_to_supported_flash_model() {
    let ids = vec!["deepseek-v4-flash".to_string(), "deepseek-v4-pro".to_string()];
    let models = list_models(&ids);
    assert!(models == vec![deepseek_flash_model()]);
    assert!(list_models(&vec!["deepseek-v4-pro".to_string()]).is_empty());
}

#[test]
fn model_manager_forces_flash_even_when_another_model_is_configured() {
    let manager = DeepSeekModels::new(None);
    assert_eq!(manager.default_model(), "deepseek-v4-flash");
    assert_eq!(manager.remote_models().len(), 1);
    assert_eq!(manager.remote_models()[0].slug, "deepseek-v4-flash");
}

#[test]
fn configured_catalog_entry_is_preferred() {
    let mut configured = deepseek_flash_model();
    configured.priority = 7;
    let mut other = deepseek_flash_model();
    other.slug = "deepseek-v4-pro".to_string();
    let manager = DeepSeekModels::new(Some(vec![other, configured]));
    assert_eq!(manager.remote_models()[0].priority, 7);
}

#[test]
fn refresh_keeps_models_unless_the_supported_one_is_listed() {
    let mut manager = DeepSeekModels::new(None);
    assert!(matches!(manager.refresh(Ok(Vec::new())), RefreshReport::SupportedModelOmitted));
    assert_eq!(manager.remote_models().len(), 1);
    assert!(matches!(manager.refresh(Err("offline".to_string())), RefreshReport::Failed(ref e) if e == "offline"));
    assert_eq!(manager.remote_models().len(), 1);
    let listed = list_models(&vec!["deepseek-v4-flash".to_string(), "deepseek-v4-flash".to_string()]);
    assert!(matches!(manager.refresh(Ok(listed)), RefreshReport::Replaced));
    assert_eq!(manager.remote_models().len(), 2);
    assert!(should_refresh(RefreshStrategy::Online));
    assert!(!should_refresh(RefreshStrategy::Offline));
}

#[test]
fn environment_key_wins_over_cached_credentials() {
    assert!(matches!(resolve_auth_source(Some("sk-1"), true), AuthSource::ApiKey(ref k) if k == "sk-1"));
    assert!(matches!(resolve_auth_source(Some("  \n"), true), AuthSource::Cached));
    assert!(matches!(resolve_auth_source(None, true), AuthSource::Cached));
    assert!(matches!(resolve_auth_source(None, false), AuthSource::Unauthenticated));
}

#[test]
fn endpoint_urls_join_base_and_path() {
    let url = endpoint_url(Some("https://api.deepseek.com//"), "user/balance").ok().unwrap();
    assert_eq!(url, "https://api.deepseek.com/user/balance");
    let url = endpoint_url(Some("http://127.0.0.1:9/v1"), "models").ok().unwrap();
    assert_eq!(url, "http://127.0.0.1:9/v1/models");
    let err = endpoint_url(None, "models").err().unwrap();
    assert_eq!(message(err), "invalid: DeepSeek provider base URL is missing");
}

#[test]
fn failed_responses_quote_status_and_body() {
    let ok = check_response(200, "200 OK", b"{}".to_vec()).ok().unwrap();
    assert_eq!(ok, b"{}".to_vec());
    let err = check_response(401, "401 Unauthorized", b"bad key".to_vec()).err().unwrap();
    assert_eq!(message(err), "invalid: DeepSeek returned HTTP 401 Unauthorized: bad key");
    let mut body = vec![b'x'; 4095];
    body.extend_from_slice("é".as_bytes());
    let err = check_response(500, "500 Internal Server Error", body).err().unwrap();
    let m = message(err);
    assert!(m.ends_with(&"x".repeat(4095)));
    let err = check_response(502, "502 Bad Gateway", vec![0xff, b'a']).err().unwrap();
    assert_eq!(message(err), "invalid: DeepSeek returned HTTP 502 Bad Gateway: \u{fffd}a");
}

#[test]
fn transport_failures_are_fatal() {
    assert_eq!(
        message(transport_failure(TransportStage::Send, "timeout")),
        "fatal: DeepSeek request failed: timeout"
    );
    assert_eq!(
        message(transport_failure(TransportStage::CreateClient, "tls")),
        "fatal: failed to create DeepSeek HTTP client: tls"
    );
    assert_eq!(
        message(transport_failure(TransportStage::ReadBody, "eof")),
        "fatal: failed to read DeepSeek response: eof"
    );
}

#[test]
fn provider_prefers_flash_and_reports_api_key_account() {
    let provider = DeepSeekModelProvider::new(create_deepseek_provider());
    assert_eq!(provider.approval_review_preferred_model(), "deepseek-v4-flash");
    assert_eq!(provider.memory_extraction_preferred_model(), "deepseek-v4-flash");
    assert_eq!(provider.memory_consolidation_preferred_model(), "deepseek-v4-flash");
    let state = provider.account_state();
    assert!(state.account == Some(ProviderAccount::ApiKey));
    assert!(!state.requires_openai_auth);
    let caps = provider.capabilities();
    assert!(caps.namespace_tools && caps.web_search);
    assert!(!caps.image_generation && !caps.external_web_access);
    assert!(caps.remote_compaction == RemoteCompactionSupport::Unsupported);
}
