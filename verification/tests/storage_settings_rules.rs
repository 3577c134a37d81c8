use ai_application_factory::error::AppError;
use ai_application_factory::json::Json;
use ai_application_factory::settings_store::{public_storage, storage_candidate};

fn t(s: &str) -> Json {
    Json::Text(s.to_owned())
}

fn entries(pairs: Vec<(&str, Json)>) -> Vec<(String, Json)> {
    pairs.into_iter().map(|(k, v)| (k.to_owned(), v)).collect()
}

fn get<'a>(e: &'a [(String, Json)], key: &str) -> Option<&'a Json> {
    e.iter().find(|(k, _)| k == key).map(|(_, v)| v)
}

#[test]
fn a_storage_form_keeps_credentials_it_leaves_blank() {
    let saved = Json::Object(entries(vec![("secret_id", t("AK")), ("secret_key", t("SK")), ("bucket", t("old"))]));
    let form = entries(vec![("provider", t("cos")), ("secret_key", t("")), ("bucket", t("new")), ("secret_id", Json::Null)]);
    let stored = storage_candidate(&form, &saved).unwrap();
    assert!(matches!(get(&stored, "secret_id"), Some(Json::Text(s)) if s == "AK"));
    assert!(matches!(get(&stored, "secret_key"), Some(Json::Text(s)) if s == "SK"));
    assert!(matches!(get(&stored, "bucket"), Some(Json::Text(s)) if s == "new"));
    assert!(matches!(get(&stored, "provider"), Some(Json::Text(s)) if s == "cos"));
    assert!(matches!(get(&stored, "prefix"), Some(Json::Text(s)) if s == "media"));
}

#[test]
fn a_storage_form_replaces_given_credentials_and_refuses_unknown_vendors() {
    let stored = storage_candidate(&entries(vec![("secret_key", t("NEW")), ("prefix", t("p"))]), &Json::Null).unwrap();
    assert!(matches!(get(&stored, "secret_key"), Some(Json::Text(s)) if s == "NEW"));
    assert!(matches!(get(&stored, "provider"), Some(Json::Text(s)) if s == "local"));
    assert!(matches!(get(&stored, "prefix"), Some(Json::Text(s)) if s == "p"));
    match storage_candidate(&entries(vec![("provider", t("s3"))]), &Json::Null) {
        Err(AppError::BadRequest(m)) => assert_eq!(m, "不支持的存储服务商"),
        _ => panic!("expected a refusal"),
    }
}

#[test]
fn the_shown_storage_says_which_credentials_are_set() {
    let shown = public_storage(&Json::Object(entries(vec![("secret_id", t("AK")), ("secret_key", t(""))])));
    assert!(matches!(get(&shown, "provider"), Some(Json::Text(s)) if s == "local"));
    assert!(matches!(get(&shown, "prefix"), Some(Json::Text(s)) if s == "media"));
    assert!(matches!(get(&shown, "secret_id_set"), Some(Json::Bool(true))));
    assert!(matches!(get(&shown, "secret_key_set"), Some(Json::Bool(false))));
}
