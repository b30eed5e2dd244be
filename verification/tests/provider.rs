use codex_logic::provider::{
    default_output_image_detail, is_azure_responses_wire_base_url, stores_responses_by_default,
    supports_chatgpt_request_compression, supports_realtime_env_api_key_fallback,
    supports_remote_compaction, ImageDetail, ModelProviderInfo, ProviderRuntime,
};

fn test_provider(name: &str, base_url: Option<&str>) -> ModelProviderInfo {
    ModelProviderInfo {
        name: name.to_string(),
        base_url: base_url.map(|s| s.to_string()),
    }
}

#[test]
fn detects_providers_that_support_chatgpt_request_compression() {
    assert!(supports_chatgpt_request_compression(
        "OpenAI",
        Some("https://api.openai.com/v1")
    ));
    assert!(!supports_chatgpt_request_compression(
        "Azure",
        Some("https://example.com/openai/deployments/test")
    ));
    assert!(!supports_chatgpt_request_compression(
        "gpt-oss",
        Some("https://api.openai.com/v1")
    ));
}

#[test]
fn detects_providers_that_support_realtime_env_api_key_fallback() {
    assert!(supports_realtime_env_api_key_fallback(
        "OpenAI",
        Some("https://api.openai.com/v1")
    ));
    assert!(!supports_realtime_env_api_key_fallback(
        "Azure",
        Some("https://example.com/openai/deployments/test")
    ));
    assert!(!supports_realtime_env_api_key_fallback(
        "gpt-oss",
        Some("https://api.openai.com/v1")
    ));
}

#[test]
fn detects_remote_compaction_providers() {
    assert!(supports_remote_compaction(
        "OpenAI",
        Some("https://api.openai.com/v1")
    ));
    assert!(supports_remote_compaction(
        "test",
        Some("https://foo.openai.azure.com/openai")
    ));
    assert!(!supports_remote_compaction(
        "test",
        Some("https://example.com/openai")
    ));
}

#[test]
fn detects_providers_that_store_responses_by_default() {
    assert!(stores_responses_by_default(
        "Azure",
        Some("https://example.com/openai/deployments/test")
    ));
    assert!(!stores_responses_by_default(
        "OpenAI",
        Some("https://api.openai.com/v1")
    ));
}

#[test]
fn detects_azure_responses_base_urls() {
    let positive_cases = [
        "https://foo.openai.azure.com/openai",
        "https://foo.openai.azure.us/openai/deployments/bar",
        "https://foo.cognitiveservices.azure.cn/openai",
        "https://foo.aoai.azure.com/openai",
        "https://foo.openai.azure-api.net/openai",
        "https://foo.z01.azurefd.net/",
    ];

    for base_url in positive_cases {
        assert!(
            is_azure_responses_wire_base_url("test", Some(base_url)),
            "expected {base_url} to be detected as Azure"
        );
    }

    assert!(is_azure_responses_wire_base_url(
        "Azure",
        Some("https://example.com")
    ));

    let negative_cases = [
        "https://api.openai.com/v1",
        "https://example.com/openai",
        "https://myproxy.azurewebsites.net/openai",
    ];

    for base_url in negative_cases {
        assert!(
            !is_azure_responses_wire_base_url("test", Some(base_url)),
            "expected {base_url} not to be detected as Azure"
        );
    }
}

#[test]
fn maps_openai_and_azure_to_remote_compaction_runtime() {
    let openai = test_provider("OpenAI", Some("https://api.openai.com/v1"));
    let azure = test_provider("Azure", Some("https://example.com/openai/deployments/test"));
    let other = test_provider("test", Some("https://example.com/openai"));

    assert_eq!(
        ProviderRuntime::from_provider(&openai),
        ProviderRuntime::RemoteCompaction
    );
    assert_eq!(
        ProviderRuntime::from_provider(&azure),
        ProviderRuntime::RemoteCompaction
    );
    assert_eq!(
        ProviderRuntime::from_provider(&other),
        ProviderRuntime::Default
    );
}

#[test]
fn original_image_detail_follows_feature_flag_and_model_capability() {
    let provider = test_provider("test", Some("https://example.com/openai"));

    assert_eq!(
        default_output_image_detail(&provider, true, true),
        Some(ImageDetail::Original)
    );
    assert_eq!(default_output_image_detail(&provider, false, true), None);
    assert_eq!(default_output_image_detail(&provider, true, false), None);
}

#[test]
fn azure_detection_ignores_case_and_missing_base_url() {
    assert!(is_azure_responses_wire_base_url(
        "test",
        Some("HTTPS://FOO.OPENAI.AZURE.COM/openai")
    ));
    assert!(!is_azure_responses_wire_base_url("test", None));
    assert!(is_azure_responses_wire_base_url("azure", None));
}

fn provider_with(base_url: &str, params: Option<Vec<(&str, &str)>>) -> codex_logic::provider::Provider {
    codex_logic::provider::Provider {
        name: "test".to_string(),
        base_url: base_url.to_string(),
        query_params: params.map(|ps| {
            ps.into_iter()
                .map(|(k, v)| (k.to_string(), v.to_string()))
                .collect()
        }),
        headers: http::HeaderMap::new(),
        retry: codex_logic::provider::RetryConfig {
            max_attempts: 3,
            base_delay: std::time::Duration::from_millis(10),
            retry_429: true,
            retry_5xx: false,
            retry_transport: true,
        },
        stream_idle_timeout: std::time::Duration::from_secs(5),
    }
}

#[test]
fn url_for_path_joins_with_one_slash_and_appends_query() {
    let p = provider_with("https://api.example.com/v1/", Some(vec![("a", "1"), ("b", "2")]));
    assert_eq!(p.url_for_path("/responses"), "https://api.example.com/v1/responses?a=1&b=2");
    let p = provider_with("https://api.example.com/v1", None);
    assert_eq!(p.url_for_path(""), "https://api.example.com/v1");
    let p = provider_with("https://api.example.com/v1", Some(vec![]));
    assert_eq!(p.url_for_path("models"), "https://api.example.com/v1/models");
}

#[test]
fn websocket_url_switches_web_schemes() {
    let p = provider_with("https://api.example.com/v1", None);
    let url = p.websocket_url_for_path("realtime").expect("url");
    assert_eq!(url.as_str(), "wss://api.example.com/v1/realtime");
    let p = provider_with("http://localhost:8080", None);
    let url = p.websocket_url_for_path("realtime").expect("url");
    assert_eq!(url.as_str(), "ws://localhost:8080/realtime");
    let p = provider_with("not a url", None);
    assert!(p.websocket_url_for_path("x").is_err());
}

#[test]
fn retry_config_maps_to_policy() {
    let p = provider_with("https://api.example.com", None);
    let policy = p.retry.to_policy();
    assert_eq!(policy.max_attempts, 3);
    assert!(policy.retry_on.retry_429);
    assert!(!policy.retry_on.retry_5xx);
    assert!(policy.retry_on.retry_transport);
    let req = p.build_request(http::Method::POST, "responses");
    assert_eq!(req.url, "https://api.example.com/responses");
    assert!(req.body.is_none());
}

#[test]
fn build_request_carries_provider_headers() {
    let mut p = provider_with("https://api.example.com", None);
    p.headers.insert("x-team", http::HeaderValue::from_static("blue"));
    p.headers.append("x-team", http::HeaderValue::from_static("green"));
    let req = p.build_request(http::Method::GET, "models");
    assert_eq!(req.headers, p.headers);
    let values: Vec<_> = req.headers.get_all("x-team").iter().collect();
    assert_eq!(values, vec!["blue", "green"]);
}

#[test]
fn websocket_url_keeps_other_schemes() {
    let p = provider_with("ftp://files.example.com", None);
    let url = p.websocket_url_for_path("x").expect("url");
    assert_eq!(url.as_str(), "ftp://files.example.com/x");
    assert_eq!(url.url.as_str(), url.text);
}
