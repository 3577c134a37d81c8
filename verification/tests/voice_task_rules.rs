use ai_application_factory::error::AppError;
use ai_application_factory::json::Json;
use ai_application_factory::voice_tasks::{
    confirmed_audio_url, new_voice, normalise_voice_id, requested_voice_id, voice_name,
    voice_task_source,
};

fn t(s: &str) -> Json {
    Json::Text(s.to_owned())
}

fn map(pairs: Vec<(&str, Json)>) -> Vec<(String, Json)> {
    pairs.into_iter().map(|(k, v)| (k.to_owned(), v)).collect()
}

fn err<T: std::fmt::Debug>(r: Result<T, AppError>) -> AppError {
    match r {
        Err(e) => e,
        Ok(v) => panic!("expected an error, got {:?}", v),
    }
}

fn field<'a>(json: &'a Json, key: &str) -> &'a Json {
    match json {
        Json::Object(e) => &e.iter().find(|(k, _)| k == key).expect("field").1,
        _ => panic!("object"),
    }
}

#[test]
fn a_preview_names_a_custom_preset_or_describes_a_new_voice() {
    let named = map(vec![("voice_id", t(" custom-1 "))]);
    assert_eq!(requested_voice_id(&named).as_deref(), Some("custom-1"));
    assert_eq!(requested_voice_id(&map(vec![("voice_id", t("  "))])), None);

    let preset = Json::Object(map(vec![("id", t("custom-1")), ("name", t("旁白")), ("prompt", t("低沉"))]));
    let source = voice_task_source(&named, Some(&preset)).unwrap();
    assert!(matches!(field(&source, "voice_id"), Json::Text(id) if id == "custom-1"));
    assert!(matches!(field(&source, "gender"), Json::Text(g) if g == "未标注"));
    assert!(matches!(field(&source, "sample_text"), Json::Text(s) if s == "你好，很高兴在这个故事里与你相遇。"));

    let e = err(voice_task_source(&named, None));
    assert!(matches!(e, AppError::NotFound(_)));
    assert_eq!(e.message(), "Voice preset not found: custom-1");
    assert_eq!(err(voice_task_source(&map(vec![("voice_id", t("none"))]), None)).message(), "“不设置”不能生成音色试听");
    assert_eq!(
        err(voice_task_source(&map(vec![("voice_id", t("cold_boss_male"))]), None)).message(),
        "系统音色已内置试听音源，可直接播放"
    );

    let draft = map(vec![("name", t("少女")), ("gender", t("女")), ("prompt", t("清亮"))]);
    let source = voice_task_source(&draft, None).unwrap();
    assert!(matches!(field(&source, "voice_id"), Json::Null));
    assert!(matches!(field(&source, "name"), Json::Text(n) if n == "少女"));
    assert_eq!(err(voice_task_source(&map(vec![("name", t("少女"))]), None)).message(), "音色名称和音色描述不能为空");
}

#[test]
fn only_a_finished_custom_preview_can_be_kept() {
    let system = Json::Object(map(vec![("voice_id", t("cold_boss_male")), ("status", t("生成成功"))]));
    assert_eq!(err(confirmed_audio_url(&system)).message(), "系统音色无需追加确认");
    let waiting = Json::Object(map(vec![("voice_id", Json::Null), ("status", t("生成中"))]));
    assert_eq!(err(confirmed_audio_url(&waiting)).message(), "请等待音色试听生成成功后再追加");
    let done = Json::Object(map(vec![("status", t("生成成功")), ("audio_url", t("file:///v.mp3")), ("name", t("少女"))]));
    assert_eq!(confirmed_audio_url(&done).unwrap(), "file:///v.mp3");

    assert_eq!(voice_name(&done), "少女");
    let record = new_voice(&done, "file:///v.mp3", false, "abc", 7).unwrap();
    assert!(matches!(field(&record, "id"), Json::Text(id) if id == "custom-abc"));
    assert!(matches!(field(&record, "sort_order"), Json::Int(7)));
    let e = err(new_voice(&done, "file:///v.mp3", true, "abc", 7));
    assert!(matches!(e, AppError::Conflict(_)));
}

#[test]
fn a_character_voice_is_an_enabled_preset_or_none() {
    let enabled = vec!["custom-1".to_owned(), "cold_boss_male".to_owned()];
    assert_eq!(normalise_voice_id(None, &enabled).unwrap(), None);
    assert_eq!(normalise_voice_id(Some(&Json::Null), &enabled).unwrap(), None);
    assert_eq!(normalise_voice_id(Some(&t(" none ")), &enabled).unwrap(), None);
    assert_eq!(normalise_voice_id(Some(&t(" custom-1 ")), &enabled).unwrap().as_deref(), Some("custom-1"));
    assert_eq!(err(normalise_voice_id(Some(&t("custom-9")), &enabled)).message(), "Voice preset not found: custom-9");
    assert_eq!(err(normalise_voice_id(Some(&Json::Int(3)), &enabled)).message(), "voice_id 必须是字符串或 null");
}
