use ai_application_factory::error::AppError;
use ai_application_factory::json::Json;
use ai_application_factory::node_edits::{asset_edit, model_edit, new_variant, node_edit, variant_edit};
use ai_application_factory::project_settings::ColumnValue;

fn t(s: &str) -> Json {
    Json::Text(s.to_owned())
}

fn values(pairs: Vec<(&str, Json)>) -> Vec<(String, Json)> {
    pairs.into_iter().map(|(k, v)| (k.to_owned(), v)).collect()
}

fn assets() -> Vec<(String, String)> {
    vec![
        ("hero".to_owned(), "character".to_owned()),
        ("ph".to_owned(), "placeholder".to_owned()),
    ]
}

fn keys(updates: &[(String, ColumnValue)]) -> Vec<&str> {
    updates.iter().map(|(k, _)| k.as_str()).collect()
}

#[test]
fn a_node_edit_stores_each_given_field_in_order() {
    let edit = node_edit(
        &values(vec![
            ("placeholder_asset_id", t(" ph ")),
            ("title", t("开场")),
            ("duration_seconds", Json::Int(8)),
            ("prompt_template_version", t("v2")),
            ("reference_asset_ids", Json::Array(vec![t("hero"), t("hero")])),
        ]),
        &assets(),
        &vec![],
        "n1",
        &vec![],
    );
    assert!(edit.error.is_none());
    assert_eq!(
        keys(&edit.updates),
        vec!["title", "prompt_template_version", "duration_seconds", "reference_asset_ids_json", "placeholder_asset_id"]
    );
    assert!(matches!(&edit.updates[4].1, ColumnValue::Text(s) if s == "ph"));
    match &edit.updates[3].1 {
        ColumnValue::Document(Json::Array(ids)) => assert_eq!(ids.len(), 1),
        _ => panic!("expected the reference list"),
    }
}

#[test]
fn a_node_edit_stops_at_the_first_broken_rule_keeping_what_came_before() {
    let edit = node_edit(
        &values(vec![("title", t("开场")), ("duration_seconds", Json::Int(30)), ("position_x", Json::Int(5))]),
        &assets(),
        &vec![],
        "n1",
        &vec![],
    );
    assert_eq!(keys(&edit.updates), vec!["title"]);
    match edit.error {
        Some(AppError::BadRequest(m)) => assert_eq!(m, "节点视频时长必须在 4 到 15 秒之间"),
        _ => panic!("expected a refusal"),
    }
    let edit = node_edit(&values(vec![("prompt_template_version", t("v3"))]), &assets(), &vec![], "n1", &vec![]);
    assert!(edit.updates.is_empty());
    assert!(matches!(edit.error, Some(AppError::BadRequest(ref m)) if m == "提示词模板仅支持 v1 或 v2"));
}

#[test]
fn a_blank_placeholder_clears_it_and_a_wrong_kind_is_refused() {
    let edit = node_edit(&values(vec![("placeholder_asset_id", t("  "))]), &assets(), &vec![], "n1", &vec![]);
    assert!(matches!(&edit.updates[0].1, ColumnValue::Null));
    let edit = node_edit(&values(vec![("placeholder_asset_id", t("hero"))]), &assets(), &vec![], "n1", &vec![]);
    assert!(edit.updates.is_empty());
    assert!(edit.error.is_some());
}

#[test]
fn a_material_edit_trims_texts_and_marks_configured_images() {
    let edit = asset_edit(
        &values(vec![("name", t(" 勇者 ")), ("image_url", t(" file:///h.png ")), ("voice_id", t("none"))]),
        "character",
        &vec![],
    );
    assert!(edit.error.is_none());
    assert_eq!(keys(&edit.updates), vec!["name", "image_url", "status", "voice_id"]);
    assert!(matches!(&edit.updates[0].1, ColumnValue::Text(s) if s == "勇者"));
    assert!(matches!(&edit.updates[2].1, ColumnValue::Text(s) if s == "已配置"));
    assert!(matches!(&edit.updates[3].1, ColumnValue::Null));

    let cleared = asset_edit(&values(vec![("image_url", t("  "))]), "scene", &vec![]);
    assert!(matches!(&cleared.updates[1].1, ColumnValue::Text(s) if s == "未生成"));
}

#[test]
fn a_material_edit_refuses_blank_names_and_voices_on_non_characters() {
    let edit = asset_edit(&values(vec![("name", t("城堡")), ("prompt", t("  "))]), "scene", &vec![]);
    assert_eq!(keys(&edit.updates), vec!["name"]);
    assert!(matches!(edit.error, Some(AppError::BadRequest(ref m)) if m == "prompt 不能为空"));
    let edit = asset_edit(&values(vec![("voice_id", t("v1"))]), "scene", &vec!["v1".to_owned()]);
    assert!(matches!(edit.error, Some(AppError::BadRequest(ref m)) if m == "只有角色素材可以设置音色"));
}

fn variant(id: &str, name: &str) -> Json {
    Json::Object(values(vec![("id", t(id)), ("name", t(name)), ("prompt", t("旧"))]))
}

#[test]
fn a_variant_edit_changes_only_the_chosen_variant() {
    let (all, edited) = variant_edit(
        vec![variant("a", "少年"), variant("b", "老年")],
        "b",
        &values(vec![("name", t(" 暮年 ")), ("prompt", t("白发"))]),
    )
    .unwrap();
    assert_eq!(all.len(), 2);
    match (&all[1], &edited) {
        (Json::Object(x), Json::Object(y)) => {
            assert!(matches!(&x[1], (k, Json::Text(v)) if k == "name" && v == "暮年"));
            assert!(matches!(&y[2], (k, Json::Text(v)) if k == "prompt" && v == "白发"));
        }
        _ => panic!("expected objects"),
    }
    match &all[0] {
        Json::Object(x) => assert!(matches!(&x[1], (_, Json::Text(v)) if v == "少年")),
        _ => panic!("expected an object"),
    }
    assert!(matches!(variant_edit(vec![variant("a", "x")], "z", &vec![]), Err(AppError::NotFound(ref m)) if m == "Asset variant not found: z"));
    assert!(matches!(variant_edit(vec![variant("a", "x")], "a", &values(vec![("name", t(" "))])), Err(AppError::BadRequest(_))));
}

#[test]
fn a_model_edit_refuses_a_blank_model_after_saving_the_earlier_ones() {
    let edit = model_edit(&values(vec![("video_model", t(" ")), ("language_model", t(" m1 "))]));
    assert_eq!(keys(&edit.updates), vec!["language_model"]);
    assert!(matches!(&edit.updates[0].1, ColumnValue::Text(s) if s == " m1 "));
    assert!(matches!(edit.error, Some(AppError::BadRequest(ref m)) if m == "video_model 不能为空"));
    let edit = model_edit(&values(vec![("multimodal_model", t("img"))]));
    assert!(edit.error.is_none());
    assert_eq!(keys(&edit.updates), vec!["multimodal_model"]);
}

#[test]
fn a_new_variant_needs_a_name_and_a_prompt() {
    let v = new_variant(&values(vec![("name", t(" 战损 ")), ("prompt", t("盔甲破损"))]), "v9", "2024-01-01T00:00:00Z").unwrap();
    match &v {
        Json::Object(e) => {
            assert!(matches!(&e[1], (k, Json::Text(s)) if k == "name" && s == "战损"));
            assert!(matches!(&e[3].1, Json::Null));
            assert!(matches!(&e[5], (k, Json::Text(s)) if k == "status" && s == "未生成"));
        }
        _ => panic!("object expected"),
    }
    assert!(matches!(new_variant(&values(vec![("name", t("x"))]), "v9", "t"), Err(AppError::BadRequest(ref m)) if m == "prompt 不能为空"));
}
