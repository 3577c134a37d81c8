use ai_application_factory::settings_models::{candidate_finish, candidate_start};
use ai_application_factory::settings_models::{model_api_key, public_model_config};
use ai_application_factory::error::AppError;
use ai_application_factory::json::Json;
use ai_application_factory::settings_import::{
    imported_concurrency, imported_model, imported_settings, imported_storage, model_label,
    required_object, required_string, settings_source, SettingsSource,
};
use ai_application_factory::settings_models::{
    field, is_secret, mask, migrate_ark_plan_language_model, model_defaults,
    normalize_model_selection, profile, profile_without_index, provider_defaults,
    provider_profiles, public_profile, select_project_models, validate_kind, validate_provider,
};

fn t(s: &str) -> Json {
    Json::Text(s.to_owned())
}

fn map(pairs: Vec<(&str, Json)>) -> Vec<(String, Json)> {
    pairs.into_iter().map(|(k, v)| (k.to_owned(), v)).collect()
}

fn obj(pairs: Vec<(&str, Json)>) -> Json {
    Json::Object(map(pairs))
}

fn get<'a>(entries: &'a [(String, Json)], key: &str) -> &'a Json {
    &entries.iter().find(|(k, _)| k == key).expect("key present").1
}

fn text_of(j: &Json) -> &str {
    match j {
        Json::Text(s) => s.as_str(),
        _ => panic!("text expected"),
    }
}

fn err_message<T>(r: Result<T, AppError>) -> String {
    match r {
        Err(e) => e.message(),
        Ok(_) => panic!("expected an error"),
    }
}

fn model_section(provider: &str, concurrency: Json, model: &str, endpoint: &str) -> Json {
    obj(vec![(
        provider,
        obj(vec![
            ("endpoint", t(endpoint)),
            ("apikey", t("test-key")),
            ("concurrency", concurrency),
            ("模型", t(model)),
        ]),
    )])
}

fn storage_section() -> Json {
    obj(vec![
        ("SecretId", t("test-id")),
        ("SecretKey", t("test-secret")),
        ("endpoint", t("https://bucket.example.com")),
        ("桶", t("bucket-1")),
        ("公开可访问域名", t("https://cdn.example.com")),
    ])
}

#[test]
fn documented_chinese_fields_map_to_internal_model_and_storage_contracts() {
    let root = map(vec![
        ("语言模型", model_section("火山引擎", t("4"), "text-model", "https://example.com/v3")),
        ("视频模型", model_section("火山引擎", Json::Int(2), "video-model", "https://example.com/tasks")),
        ("媒体存储", obj(vec![("存储腾讯云cos", storage_section())])),
    ]);
    let language = imported_model(&root, "语言模型", "language").unwrap();
    let video = imported_model(&root, "视频模型", "video").unwrap();
    let storage = imported_storage(&root).unwrap();

    assert_eq!(text_of(get(&language, "provider")), "ark");
    assert_eq!(text_of(get(&language, "endpoint")), "https://example.com/v3");
    assert!(matches!(get(&language, "generation_concurrency"), Json::Int(4)));
    assert_eq!(text_of(get(&video, "create_url")), "https://example.com/tasks");
    assert_eq!(text_of(get(&video, "query_url")), "https://example.com/tasks/{id}");
    assert!(matches!(get(&video, "generation_concurrency"), Json::Int(2)));
    assert_eq!(text_of(get(&storage, "provider")), "cos");
    assert_eq!(text_of(get(&storage, "bucket")), "bucket-1");
}

#[test]
fn legacy_flat_storage_section_is_rejected() {
    let root = map(vec![("存储腾讯云cos", storage_section())]);
    let error = imported_storage(&root).unwrap_err();
    assert!(error.message().contains("媒体存储"));
}

#[test]
fn model_concurrency_must_be_an_integer_from_one_through_eight() {
    for invalid in [Json::Null, t(""), t("2.5"), Json::Int(0), Json::Int(9)] {
        let root = map(vec![(
            "语言模型",
            model_section("火山引擎", invalid, "text-model", "https://example.com/v3"),
        )]);
        let error = imported_model(&root, "语言模型", "language").unwrap_err();
        assert!(error.message().contains("1 到 8"));
    }
}

#[test]
fn concurrency_text_may_carry_a_sign_and_spaces() {
    let source = map(vec![("concurrency", t(" +8 "))]);
    assert_eq!(imported_concurrency(&source, "语言模型").unwrap(), 8);
    assert_eq!(imported_concurrency(&map(vec![]), "语言模型").unwrap(), 2);
    assert_eq!(
        err_message(imported_concurrency(&map(vec![("concurrency", t("-3"))]), "视频模型")),
        "视频模型的 concurrency 必须是 1 到 8 的整数"
    );
    assert!(imported_concurrency(&map(vec![("concurrency", t("99999999999999999999"))]), "x").is_err());
}

#[test]
fn model_sections_need_exactly_one_known_provider() {
    let two = map(vec![(
        "语言模型",
        obj(vec![("火山引擎", obj(vec![])), ("腾讯云", obj(vec![]))]),
    )]);
    assert_eq!(
        err_message(imported_model(&two, "语言模型", "language")),
        "语言模型必须且只能包含一个服务商"
    );
    let unknown = map(vec![("语言模型", obj(vec![("OpenAI", obj(vec![]))]))]);
    assert_eq!(
        err_message(imported_model(&unknown, "语言模型", "language")),
        "语言模型包含不支持的服务商：OpenAI"
    );
    let not_object = map(vec![("语言模型", obj(vec![("阿里云", t("x"))]))]);
    assert_eq!(
        err_message(imported_model(&not_object, "语言模型", "language")),
        "语言模型的服务商配置必须是对象"
    );
    let missing_key = map(vec![(
        "音频模型",
        obj(vec![("腾讯云", obj(vec![("endpoint", t("https://e"))]))]),
    )]);
    assert_eq!(
        err_message(imported_model(&missing_key, "音频模型", "audio")),
        "音频模型缺少 apikey"
    );
    let dashscope = map(vec![(
        "图像模型",
        model_section("阿里云 DashScope", Json::Int(1), "qwen-image-2.0", "https://d"),
    )]);
    let image = imported_model(&dashscope, "图像模型", "multimodal").unwrap();
    assert_eq!(text_of(get(&image, "provider")), "dashscope");
}

#[test]
fn required_fields_name_their_section() {
    let root = map(vec![("a", t("x"))]);
    assert_eq!(err_message(required_object(&root, "a")), "缺少或无效的“a”配置");
    assert_eq!(err_message(required_string(&root, "b", "节")), "节缺少 b");
    assert_eq!(required_string(&root, "a", "节").unwrap(), "x");
    assert_eq!(model_label("video"), "视频模型");
    assert_eq!(model_label("other"), "模型");
}

#[test]
fn an_import_reads_an_inline_document_or_an_invite_code() {
    match settings_source(&map(vec![("config", obj(vec![]))])).unwrap() {
        SettingsSource::Document(_) => {}
        SettingsSource::Download(_) => panic!("inline document expected"),
    }
    match settings_source(&map(vec![("invite_code", t("Ab12Cd"))])).unwrap() {
        SettingsSource::Download(url) => assert_eq!(
            url,
            "https://monkey-1256112104.cos.ap-chengdu.myqcloud.com/configs/Ab12Cd/config.json"
        ),
        SettingsSource::Document(_) => panic!("download expected"),
    }
    for bad in ["abc", "abc-12", "abcdefg", "äbcdef"] {
        assert_eq!(
            err_message(settings_source(&map(vec![("invite_code", t(bad))]))),
            "邀请码必须是 6 位字母或数字"
        );
    }
}

fn import_section(endpoint: &str, concurrency: Json, model: &str) -> Json {
    obj(vec![(
        "火山引擎",
        obj(vec![
            ("endpoint", t(endpoint)),
            ("apikey", t("mock-key")),
            ("concurrency", concurrency),
            ("模型", t(model)),
        ]),
    )])
}

#[test]
fn missing_one_of_the_five_sections_is_rejected_before_any_setting_is_saved() {
    let base_url = "http://127.0.0.1:1";
    let document = obj(vec![
        ("语言模型", import_section(&format!("{base_url}/api/plan/v3"), t("4"), "text-model")),
        ("图像模型", import_section(&format!("{base_url}/images/generations"), Json::Int(4), "image-model")),
        ("视频模型", import_section(&format!("{base_url}/video/tasks"), t("2"), "video-model")),
        ("音频模型", import_section(&format!("{base_url}/audio"), Json::Int(2), "audio-model")),
    ]);
    assert!(err_message(imported_settings(&document)).contains("媒体存储"));
    assert_eq!(err_message(imported_settings(&t("x"))), "配置 JSON 顶层必须是对象");
}

#[test]
fn kinds_providers_and_secrets_are_recognised() {
    assert!(validate_kind("audio").is_ok());
    assert_eq!(err_message(validate_kind("text")), "不支持的模型类型");
    assert!(validate_provider("tencent").is_ok());
    assert_eq!(err_message(validate_provider("openai")), "不支持的服务商");
    assert!(is_secret("api_key") && is_secret("secret_key") && !is_secret("model"));
}

#[test]
fn credentials_are_masked_by_byte_length() {
    assert_eq!(mask(""), "");
    assert_eq!(mask("abc"), "********");
    assert_eq!(mask("abcdefghij"), "**********");
    assert_eq!(mask(&"k".repeat(40)), "*".repeat(16));
    assert_eq!(mask("密钥密钥"), "************");
}

#[test]
fn model_selection_puts_a_missing_selected_model_first() {
    let mut stored = map(vec![
        ("models", Json::Array(vec![t(" a "), t("b"), t("a"), t(""), Json::Int(3)])),
        ("model", t("c")),
    ]);
    normalize_model_selection(&mut stored).unwrap();
    match get(&stored, "models") {
        Json::Array(items) => {
            let names: Vec<&str> = items.iter().map(text_of).collect();
            assert_eq!(names, vec!["c", "a", "b"]);
        }
        _ => panic!("array expected"),
    }
    assert!(matches!(get(&stored, "generation_concurrency"), Json::Int(2)));
    let mut first = map(vec![("models", Json::Array(vec![t("x"), t("y")]))]);
    normalize_model_selection(&mut first).unwrap();
    assert_eq!(text_of(get(&first, "model")), "x");
}

#[test]
fn model_concurrency_outside_one_to_eight_is_refused() {
    let mut stored = map(vec![("generation_concurrency", Json::Int(9))]);
    assert_eq!(
        err_message(normalize_model_selection(&mut stored)),
        "生成并发数必须在 1 到 8 之间"
    );
}

#[test]
fn public_profiles_hide_credentials() {
    let object = map(vec![
        ("api_key", t("secret-value")),
        ("secret_key", t("s")),
        ("provider", t("dashscope")),
    ]);
    let card = public_profile("video", &object, "seed-tts");
    assert_eq!(text_of(get(&card, "api_key_masked")), "************");
    assert!(matches!(get(&card, "api_key_set"), Json::Bool(true)));
    assert!(matches!(get(&card, "secret_key_set"), Json::Bool(true)));
    assert_eq!(text_of(get(&card, "secret_id_masked")), "");
    assert_eq!(text_of(get(&card, "model")), "doubao-seedance-2.0");
    assert_eq!(text_of(get(&card, "endpoint")), "");
    assert!(matches!(get(&card, "generation_concurrency"), Json::Int(2)));
    assert!(card.iter().all(|(k, _)| k != "api_key"));
}

#[test]
fn defaults_follow_kind_and_provider() {
    let (model, models) = model_defaults("language", "seed-tts");
    assert_eq!(model, "doubao-seed-2.1-turbo");
    assert_eq!(models.len(), 4);
    assert_eq!(model_defaults("audio", "seed-tts").0, "seed-tts");
    let defaults = provider_defaults("video", "tencent", "tts-endpoint", "seed-tts");
    assert_eq!(defaults.len(), 5);
    assert_eq!(defaults[3], ("model".to_owned(), "Hunyuan:1.5".to_owned()));
    assert_eq!(
        provider_defaults("audio", "ark", "tts-endpoint", "seed-tts"),
        vec![("endpoint".to_owned(), "tts-endpoint".to_owned()), ("model".to_owned(), "seed-tts".to_owned())]
    );
    assert!(provider_defaults("audio", "openai", "e", "r").is_empty());
}

#[test]
fn vendor_profiles_are_kept_side_by_side() {
    let config = map(vec![
        ("provider", t("tencent")),
        ("model", t("hunyuan")),
        ("provider_profiles", obj(vec![("ark", obj(vec![("model", t("doubao"))]))])),
    ]);
    let profiles = provider_profiles(&config);
    assert_eq!(profiles.len(), 2);
    let tencent = profile(&profiles, "tencent").unwrap();
    assert_eq!(text_of(get(&tencent, "model")), "hunyuan");
    assert!(tencent.iter().all(|(k, _)| k != "provider_profiles"));
    assert!(profile(&profiles, "dashscope").is_none());
    assert_eq!(profile_without_index(&config).len(), 2);
    assert_eq!(text_of(&field(&config, "missing")), "");
}

#[test]
fn retired_ark_plan_language_model_is_replaced() {
    let mut stored = map(vec![
        ("endpoint", t("https://ark.cn-beijing.volces.com/api/plan/v3")),
        ("model", t("doubao-seed-1-6-250615")),
    ]);
    migrate_ark_plan_language_model(&mut stored, "language", "ark");
    assert_eq!(text_of(get(&stored, "model")), "doubao-seed-2.1-turbo");
    let mut other = map(vec![("model", t("doubao-seed-1-6-250615"))]);
    migrate_ark_plan_language_model(&mut other, "language", "ark");
    assert_eq!(text_of(get(&other, "model")), "doubao-seed-1-6-250615");
}

#[test]
fn new_projects_only_keep_selectable_models() {
    let language = obj(vec![("model", t(" qwen-plus ")), ("models", Json::Array(vec![t("doubao"), t("qwen-plus")]))]);
    let multimodal = obj(vec![("models", Json::Array(vec![t(" img-a "), t("img-b")]))]);
    let video = obj(vec![]);
    let mut values = map(vec![
        ("language_model", t("retired-model")),
        ("multimodal_model", t("img-b")),
        ("video_model", t("anything")),
    ]);
    select_project_models(&mut values, &language, &multimodal, &video);
    assert_eq!(text_of(get(&values, "language_model")), "qwen-plus");
    assert_eq!(text_of(get(&values, "multimodal_model")), "img-b");
    assert_eq!(text_of(get(&values, "video_model")), "anything");
    let mut missing = map(vec![]);
    select_project_models(&mut missing, &obj(vec![]), &multimodal, &video);
    assert_eq!(text_of(get(&missing, "multimodal_model")), "img-a");
}

#[test]
fn a_saved_api_key_is_revealed_only_when_one_is_set() {
    let config = obj(vec![
        ("provider", t("ark")),
        ("api_key", t("k-1")),
        ("provider_profiles", obj(vec![("tencent", obj(vec![("api_key", t("k-2"))]))])),
    ]);
    let shown = model_api_key("language", None, &config).unwrap();
    match &shown {
        Json::Object(e) => {
            assert_eq!(text_of(get(e, "provider")), "ark");
            assert_eq!(text_of(get(e, "api_key")), "k-1");
        }
        _ => panic!("object expected"),
    }
    match model_api_key("language", Some("tencent"), &config).unwrap() {
        Json::Object(e) => assert_eq!(text_of(get(&e, "api_key")), "k-2"),
        _ => panic!("object expected"),
    }
    assert_eq!(err_message(model_api_key("language", Some("dashscope"), &config)), "language 模型尚未配置 API Key");
    assert_eq!(err_message(model_api_key("text", None, &config)), "Unsupported model kind: text");
}

#[test]
fn the_shown_model_settings_mask_every_profile() {
    let config = obj(vec![
        ("provider", t("ark")),
        ("api_key", t("secret-key-1")),
        ("provider_profiles", obj(vec![("tencent", obj(vec![("api_key", t("k2")), ("secret_key", t("s"))]))])),
    ]);
    let shown = public_model_config("video", &config, "seed-tts").unwrap();
    assert!(shown.iter().all(|(k, _)| k != "api_key"));
    assert!(matches!(get(&shown, "api_key_set"), Json::Bool(true)));
    match get(&shown, "provider_profiles") {
        Json::Object(profiles) => {
            assert!(profiles.iter().any(|(k, _)| k == "tencent"));
            for (_, p) in profiles {
                match p {
                    Json::Object(e) => assert!(e.iter().all(|(k, _)| k != "api_key" && k != "secret_key")),
                    _ => panic!("object expected"),
                }
            }
        }
        _ => panic!("object expected"),
    }
    assert_eq!(err_message(public_model_config("text", &config, "seed-tts")), "不支持的模型类型");
}

#[test]
fn a_model_settings_form_keeps_blank_credentials_and_other_vendors() {
    let previous = obj(vec![
        ("provider", t("ark")),
        ("api_key", t("old-key")),
        ("model", t("doubao-seed-1-6-250615")),
        ("provider_profiles", obj(vec![("tencent", obj(vec![("api_key", t("t-key"))]))])),
    ]);
    let form = map(vec![
        ("kind", t("language")),
        ("api_key", t("")),
        ("endpoint", t("https://ark.cn-beijing.volces.com/api/plan/v3")),
        ("provider_profiles", obj(vec![])),
    ]);
    let start = candidate_start(&form, &previous).unwrap();
    assert_eq!(start.kind, "language");
    assert_eq!(start.provider, "ark");
    assert_eq!(text_of(get(&start.stored, "api_key")), "old-key");
    let saved = candidate_finish(&start.kind, &start.provider, start.profiles, start.stored, "tts-endpoint", "tts-resource").unwrap();
    assert_eq!(text_of(get(&saved, "model")), "doubao-seed-2.1-turbo");
    assert_eq!(text_of(get(&saved, "kind")), "language");
    assert!(matches!(get(&saved, "generation_concurrency"), Json::Int(2)));
    match get(&saved, "provider_profiles") {
        Json::Object(p) => {
            assert!(p.iter().any(|(k, _)| k == "tencent"));
            assert!(p.iter().any(|(k, _)| k == "ark"));
        }
        _ => panic!("profiles expected"),
    }
    assert_eq!(err_message(candidate_start(&map(vec![("kind", t("text"))]), &previous)), "不支持的模型类型");
    assert_eq!(
        err_message(candidate_start(&map(vec![("kind", t("video")), ("provider", t("aws"))]), &previous)),
        "不支持的服务商"
    );
    let busy = map(vec![("kind", t("video")), ("generation_concurrency", Json::Int(9))]);
    let start = candidate_start(&busy, &Json::Null).unwrap();
    assert_eq!(
        err_message(candidate_finish(&start.kind, &start.provider, start.profiles, start.stored, "e", "r")),
        "生成并发数必须在 1 到 8 之间"
    );
}
