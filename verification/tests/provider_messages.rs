use ai_application_factory::providers::{language_response_read_error, provider_error_detail};

#[test]
fn language_response_errors_hide_raw_upstream_detail() {
    let error = language_response_read_error("error decoding response body");
    assert!(error.message().contains("内容格式无效"));
    assert!(!error.message().contains("error decoding response body"));
}

#[test]
fn provider_errors_keep_the_upstream_model_compatibility_reason() {
    let detail = provider_error_detail(
        r#"{"error":{"code":"UnsupportedModel","message":"The requested model does not support the agent plan feature."}}"#,
    );
    assert_eq!(
        detail.as_deref(),
        Some("当前模型不支持此功能，请在设置中更换支持该功能的模型后重试。")
    );
}

#[test]
fn other_provider_errors_show_the_upstream_message() {
    assert_eq!(
        provider_error_detail(r#"{"error":{"code":"RateLimited","message":"slow down"}}"#).as_deref(),
        Some("slow down")
    );
    assert_eq!(provider_error_detail("not json"), None);
    assert_eq!(provider_error_detail(r#"{"error":{"message":""}}"#), None);
}
