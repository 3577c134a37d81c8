use ai_application_factory::creation::template_form;
use ai_application_factory::creation::asset_form;
use ai_application_factory::creation::{
    available_models, bootstrap_snapshot, drama_draft, game_draft, model_replacement, offered_models,
};
use ai_application_factory::error::AppError;
use ai_application_factory::json::Json;

fn t(s: &str) -> Json {
    Json::Text(s.to_owned())
}

fn entries(pairs: Vec<(&str, Json)>) -> Vec<(String, Json)> {
    pairs.into_iter().map(|(k, v)| (k.to_owned(), v)).collect()
}

fn bad_request(r: Result<impl std::fmt::Debug, AppError>) -> String {
    match r {
        Err(AppError::BadRequest(m)) => m,
        other => panic!("expected a bad request, got {:?}", other),
    }
}

const SCRIPT: &str = "从前有一座山，山里有一座庙，庙里有个老和尚在讲故事。";

#[test]
fn a_drama_form_takes_its_defaults() {
    let d = drama_draft(&entries(vec![("name", t("短剧")), ("script", t(SCRIPT))])).unwrap();
    assert_eq!(d.name, "短剧");
    assert_eq!(d.language_model, "doubao-seed");
    assert_eq!(d.episode_count, 15);
    assert!(!d.enable_web_search);
    assert_eq!(d.expanded_script_min_chars, 5000);
    assert_eq!(d.expanded_script_max_chars, 10000);
    assert_eq!(d.shot_script_max_chars, 400);
}

#[test]
fn a_drama_form_refuses_short_scripts_and_bad_bounds() {
    assert_eq!(bad_request(drama_draft(&entries(vec![("script", t("太短了"))]))), "剧本文本不少于 10 个字");
    assert_eq!(
        bad_request(drama_draft(&entries(vec![("script", t(SCRIPT)), ("episode_count", Json::Int(1))]))),
        "episode_count 必须在 2 到 100 之间"
    );
    assert_eq!(
        bad_request(drama_draft(&entries(vec![("script", t(SCRIPT)), ("enable_web_search", t("yes"))]))),
        "enable_web_search 必须是布尔值"
    );
    assert_eq!(
        bad_request(drama_draft(&entries(vec![
            ("script", t(SCRIPT)),
            ("expanded_script_min_chars", Json::Int(900)),
            ("expanded_script_max_chars", Json::Int(800)),
        ]))),
        "扩写字数最小值不能大于最大值"
    );
}

#[test]
fn the_bootstrap_snapshot_freezes_the_draft() {
    let d = drama_draft(&entries(vec![
        ("script", t(SCRIPT)),
        ("enable_web_search", Json::Bool(true)),
        ("episode_count", Json::Int(3)),
    ]))
    .unwrap();
    match bootstrap_snapshot("d1", &d) {
        Json::Object(e) => {
            let keys: Vec<&str> = e.iter().map(|(k, _)| k.as_str()).collect();
            assert_eq!(
                keys,
                vec![
                    "drama_id",
                    "script",
                    "language_model",
                    "episode_count",
                    "enable_web_search",
                    "expanded_script_min_chars",
                    "expanded_script_max_chars",
                    "shot_script_max_chars"
                ]
            );
            assert!(matches!(e[0].1, Json::Text(ref s) if s == "d1"));
            assert!(matches!(e[3].1, Json::Int(3)));
            assert!(matches!(e[4].1, Json::Bool(true)));
        }
        _ => panic!("expected an object"),
    }
}

#[test]
fn a_game_form_takes_its_defaults() {
    let g = game_draft(&entries(vec![("name", t("冒险")), ("script", t(SCRIPT))])).unwrap();
    assert_eq!(g.platform, "Steam游戏");
    assert_eq!(g.style, "真人风格");
    assert_eq!(g.success_ending_count, 2);
    assert_eq!(g.failure_ending_count, 12);
    assert_eq!((g.branch_min, g.branch_max), (2, 4));
    assert_eq!((g.node_duration_min, g.node_duration_max), (5, 15));
    assert_eq!(g.video_model, "doubao-seedance-2.0");
    assert_eq!(g.resolution, "720p");
    assert!(!g.enable_web_search);
    assert_eq!(g.node_script_max_chars, 400);
}

#[test]
fn a_game_form_checks_its_rules_in_order() {
    assert_eq!(bad_request(game_draft(&entries(vec![("script", t(SCRIPT))]))), "游戏名称长度需在 1 到 120 个字之间");
    assert_eq!(
        bad_request(game_draft(&entries(vec![("name", t("冒险")), ("script", t("不足二十个字的剧本"))]))),
        "剧本文本不少于 20 个字"
    );
    assert_eq!(
        bad_request(game_draft(&entries(vec![
            ("name", t("冒险")),
            ("script", t(SCRIPT)),
            ("failure_ending_count", Json::Int(201)),
        ]))),
        "failure_ending_count 必须在 1 到 200 之间"
    );
}

fn config(model: &str, models: Vec<&str>) -> Json {
    Json::Object(entries(vec![("model", t(model)), ("models", Json::Array(models.into_iter().map(t).collect()))]))
}

#[test]
fn offered_models_are_unique_and_put_the_selected_one_first() {
    assert_eq!(available_models(&config(" b ", vec!["a", " a", "", "c"])), vec!["b", "a", "c"]);
    assert_eq!(available_models(&config("a", vec!["a", "c"])), vec!["a", "c"]);
    assert!(available_models(&Json::Null).is_empty());
}

#[test]
fn an_unoffered_request_falls_back_to_the_selected_model() {
    let values = entries(vec![("language_model", t("gone"))]);
    assert_eq!(model_replacement(&config("b", vec!["a", "b"]), &values, "language_model"), Some("b".to_owned()));
    assert_eq!(model_replacement(&config("", vec!["a", "b"]), &values, "language_model"), Some("a".to_owned()));
    let offered = entries(vec![("language_model", t(" a "))]);
    assert_eq!(model_replacement(&config("b", vec!["a", "b"]), &offered, "language_model"), None);
    assert_eq!(model_replacement(&Json::Null, &values, "language_model"), None);
}

#[test]
fn a_drama_form_names_offered_models_for_every_kind() {
    let values = entries(vec![("script", t(SCRIPT)), ("video_model", t("v-old"))]);
    let out = offered_models(values, &config("l", vec!["l"]), &Json::Null, &config("v", vec!["v", "w"]));
    let get = |k: &str| out.iter().find(|(key, _)| key == k).map(|(_, v)| v);
    assert!(matches!(get("language_model"), Some(Json::Text(s)) if s == "l"));
    assert!(get("multimodal_model").is_none());
    assert!(matches!(get("video_model"), Some(Json::Text(s)) if s == "v"));
}

#[test]
fn a_material_form_needs_a_known_kind_a_name_and_a_known_voice() {
    let enabled = vec!["v1".to_owned()];
    assert_eq!(bad_request(asset_form(&entries(vec![("type", t("monster")), ("name", t("x"))]), &enabled)), "不支持的素材类型");
    assert_eq!(bad_request(asset_form(&entries(vec![("type", t("prop"))]), &enabled)), "素材名称不能为空");
    assert_eq!(
        bad_request(asset_form(&entries(vec![("type", t("prop")), ("name", t("剑")), ("voice_id", t("v2"))]), &enabled)),
        "Voice preset not found: v2"
    );
    let f = asset_form(&entries(vec![("type", t("character")), ("name", t("主角")), ("voice_id", t("v1"))]), &enabled).unwrap();
    assert_eq!(f.voice_id, Some("v1".to_owned()));
    assert_eq!(f.prompt, "");
    assert!(matches!(f.metadata, Json::Object(ref e) if e.is_empty()));
}

#[test]
fn a_template_version_needs_a_name_a_version_and_a_text() {
    let f = template_form(&entries(vec![("name", t("镜头")), ("version", t("v3")), ("template_text", t("{{x}}"))])).unwrap();
    assert_eq!(f.scope, "drama");
    assert!(matches!(f.metadata, Json::Object(ref e) if e.is_empty()));
    assert_eq!(
        bad_request(template_form(&entries(vec![("name", t("镜头")), ("template_text", t("{{x}}"))]))),
        "模板名称、版本和内容不能为空"
    );
}
