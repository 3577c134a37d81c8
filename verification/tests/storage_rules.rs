use ai_application_factory::json::Json;
use ai_application_factory::storage::{
    decodable, encode_key, normalise_endpoint, signing_key, urlencoding_decode, StorageConfig,
};

fn t(s: &str) -> Json {
    Json::Text(s.to_owned())
}

fn map(pairs: Vec<(&str, Json)>) -> Vec<(String, Json)> {
    pairs.into_iter().map(|(k, v)| (k.to_owned(), v)).collect()
}

fn cos() -> StorageConfig {
    StorageConfig::from_values(&map(vec![
        ("provider", t("COS")),
        ("endpoint", t(" https://bucket-1.cos.ap-chengdu.myqcloud.com/ ")),
        ("bucket", t("bucket-1")),
        ("secret_id", t("id")),
        ("secret_key", t("key")),
        ("prefix", t("/media/")),
    ]))
    .unwrap()
}

#[test]
fn storage_settings_are_validated_and_normalised() {
    let config = cos();
    assert_eq!(config.provider, "cos");
    assert_eq!(config.endpoint, "https://cos.ap-chengdu.myqcloud.com");
    assert_eq!(config.prefix, "media");
    assert_eq!(config.region(), "us-east-1");
    let local = StorageConfig::from_values(&map(vec![])).unwrap();
    assert_eq!(local.provider, "local");
    assert_eq!(local.prefix, "media");
    assert_eq!(local.endpoint, "");
}

#[test]
fn remote_storage_lists_its_missing_fields() {
    let error = StorageConfig::from_values(&map(vec![("provider", t("tos")), ("bucket", t("b"))]))
        .err()
        .unwrap();
    assert_eq!(error.message(), "tos storage requires: endpoint, secret_id, secret_key");
    let unknown = StorageConfig::from_values(&map(vec![("provider", t("s3"))])).err().unwrap();
    assert_eq!(unknown.message(), "storage provider must be one of: local, tos, cos, oss");
}

#[test]
fn endpoints_are_brought_into_canonical_form() {
    assert_eq!(normalise_endpoint("", "b").unwrap(), "");
    assert_eq!(normalise_endpoint("example.com:9000/path/", "b").unwrap(), "https://example.com:9000/path");
    assert_eq!(normalise_endpoint("http://b.example.com", "b").unwrap(), "http://example.com");
    assert_eq!(
        normalise_endpoint("ftp://example.com", "b").err().unwrap().message(),
        "storage endpoint 必须是有效 HTTP(S) URL"
    );
}

#[test]
fn object_keys_are_encoded_per_segment() {
    assert_eq!(encode_key("media/a b+c/图.png"), "media/a%20b%2Bc/%E5%9B%BE.png");
    assert_eq!(encode_key("a*-._~"), "a*-._%7E");
}

#[test]
fn decoding_reads_percent_escapes_byte_by_byte() {
    assert_eq!(urlencoding_decode("a%20b%2Bc"), "a b+c");
    assert_eq!(urlencoding_decode("%zz%4"), "%zz%4");
    assert_eq!(urlencoding_decode("%+5x"), "\u{5}x");
    assert!(decodable("%41é"));
    assert!(!decodable("%aé"));
}

#[test]
fn objects_have_urls_on_the_bucket_host_or_the_public_base() {
    let config = cos();
    assert_eq!(
        config.object_url("media/a b.png"),
        "https://bucket-1.cos.ap-chengdu.myqcloud.com/media/a%20b.png"
    );
    let mut public = cos();
    public.public_base_url = "https://cdn.example.com".to_owned();
    assert_eq!(public.object_url("media/x.png"), "https://cdn.example.com/media/x.png");
    assert_eq!(public.try_object_url("media/x.png").as_deref(), Some("https://cdn.example.com/media/x.png"));
}

#[test]
fn urls_of_stored_objects_give_back_their_keys() {
    let config = cos();
    assert_eq!(
        config.key_for_url("https://bucket-1.cos.ap-chengdu.myqcloud.com/media/a%20b.png").as_deref(),
        Some("media/a b.png")
    );
    assert_eq!(config.key_for_url("https://other.example.com/media/a.png"), None);
    assert_eq!(config.key_for_url("https://bucket-1.cos.ap-chengdu.myqcloud.com/other/a.png"), None);
    let mut public = cos();
    public.public_base_url = "https://cdn.example.com".to_owned();
    assert_eq!(
        public.key_for_url("https://cdn.example.com/media/x.png?v=2").as_deref(),
        Some("media/x.png")
    );
    assert_eq!(public.try_key_for_url("https://cdn.example.com/media/%aé"), None);
}

#[test]
fn a_stored_object_key_reads_back_from_its_own_url() {
    let config = cos();
    for key in ["media", "media/a b.png", "media/x/y-1_2.3.png"] {
        let url = config.object_url(key);
        assert_eq!(config.key_for_url(&url).as_deref(), Some(key));
        let mut public = cos();
        public.public_base_url = "https://cdn.example.com".to_owned();
        let url = public.object_url(key);
        assert_eq!(public.key_for_url(&url).as_deref(), Some(key));
    }
}

#[test]
fn bucket_hosts_are_matched_without_case() {
    let config = cos();
    assert_eq!(config.bucket_host("BUCKET-1.cos.example.com"), "BUCKET-1.cos.example.com");
    assert_eq!(config.bucket_host("cos.example.com"), "bucket-1.cos.example.com");
}

#[test]
fn signing_keys_follow_signature_version_four() {
    // The key chain of the AWS signature version 4 documentation's example, applied to "hello".
    let signature = signing_key(
        "wJalrXUtnFEMI/K7MDENG+bPxRfiCYEXAMPLEKEY",
        "20120215",
        "us-east-1",
        "iam",
        "hello",
    );
    let hex: String = signature.iter().map(|b| format!("{b:02x}")).collect();
    assert_eq!(hex, "bce4f9ae344703e7c93781b5206338e5fe916ba30964e71e70af62924e39ba09");
}
