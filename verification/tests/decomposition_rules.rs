use ai_application_factory::decomposition::{decomposed_asset, decomposed_shot, shot_draft};
use ai_application_factory::error::AppError;
use ai_application_factory::json::Json;

fn t(s: &str) -> Json {
    Json::Text(s.to_owned())
}

fn obj(pairs: Vec<(&str, Json)>) -> Json {
    Json::Object(pairs.into_iter().map(|(k, v)| (k.to_owned(), v)).collect())
}

fn field<'a>(v: &'a Json, key: &str) -> Option<&'a Json> {
    match v {
        Json::Object(e) => e.iter().find(|(k, _)| k == key).map(|(_, v)| v),
        _ => None,
    }
}

fn text<'a>(v: &'a Json, key: &str) -> Option<&'a str> {
    match field(v, key) {
        Some(Json::Text(s)) => Some(s.as_str()),
        _ => None,
    }
}

#[test]
fn a_planned_material_keeps_its_named_forms() {
    let source = obj(vec![
        ("id", t("hero")),
        ("type", t("character")),
        ("name", t("主角")),
        ("voice_id", t(" none ")),
        (
            "variants",
            Json::Array(vec![
                obj(vec![("id", t("young")), ("name", t(" 少年 ")), ("episode_numbers", Json::Array(vec![Json::Int(1)]))]),
                obj(vec![("name", t("  "))]),
                obj(vec![("name", t("老年")), ("prompt", t("白发"))]),
            ]),
        ),
    ]);
    let asset = decomposed_asset("d1", 3, &source, "fresh", &vec![]).unwrap();
    assert_eq!(text(&asset, "id"), Some("d1:asset:hero:3"));
    assert_eq!(text(&asset, "type"), Some("character"));
    assert_eq!(text(&asset, "prompt"), Some(""));
    assert!(matches!(field(&asset, "voice_id"), Some(Json::Null)));
    assert_eq!(text(&asset, "status"), Some("未生成"));
    match field(&asset, "variants") {
        Some(Json::Array(v)) => {
            assert_eq!(v.len(), 2);
            assert_eq!(text(&v[0], "id"), Some("d1:asset:hero:3:variant:young:0"));
            assert_eq!(text(&v[0], "name"), Some("少年"));
            assert!(matches!(field(&v[0], "episode_numbers"), Some(Json::Array(_))));
            assert_eq!(text(&v[1], "id"), Some("d1:asset:hero:3:variant:form:2"));
            assert_eq!(text(&v[1], "prompt"), Some("白发"));
            assert!(matches!(field(&v[1], "episode_numbers"), Some(Json::Null)));
        }
        _ => panic!("expected variants"),
    }
}

#[test]
fn a_planned_material_without_id_or_known_voice() {
    let asset = decomposed_asset("d1", 0, &obj(vec![]), "fresh", &vec![]).unwrap();
    assert_eq!(text(&asset, "id"), Some("d1:asset:fresh:0"));
    assert_eq!(text(&asset, "type"), Some("prop"));
    assert_eq!(text(&asset, "name"), Some("素材"));
    match decomposed_asset("d1", 0, &obj(vec![("voice_id", t("v9"))]), "fresh", &vec!["v1".to_owned()]) {
        Err(AppError::BadRequest(m)) => assert_eq!(m, "Voice preset not found: v9"),
        _ => panic!("expected a refusal"),
    }
    let voiced = decomposed_asset("d1", 0, &obj(vec![("voice_id", t(" v1 "))]), "fresh", &vec!["v1".to_owned()]).unwrap();
    assert_eq!(text(&voiced, "voice_id"), Some("v1"));
}

#[test]
fn a_planned_shot_length_is_clamped() {
    let d = |v: Json| match field(&shot_draft(&obj(vec![("duration_seconds", v)])), "duration_seconds") {
        Some(Json::Int(n)) => *n,
        _ => panic!("expected a length"),
    };
    assert_eq!(d(Json::Int(1)), 3);
    assert_eq!(d(Json::Int(99)), 15);
    assert_eq!(d(Json::Int(7)), 7);
    assert_eq!(d(t("7")), 10);
    assert_eq!(text(&shot_draft(&obj(vec![])), "prompt_template_version"), Some("v1"));
}

#[test]
fn a_planned_shot_is_numbered_from_one_and_keeps_its_references() {
    let nodes = vec![
        obj(vec![("type", t("text")), ("text", t("走进"))]),
        obj(vec![("type", t("reference")), ("asset_id", t("d1:asset:hero:0"))]),
        obj(vec![("type", t("reference"))]),
    ];
    let saved = decomposed_shot(
        "d1",
        1,
        0,
        &obj(vec![("name", t("第2集"))]),
        &obj(vec![("original_text", t("他走进来")), ("duration_seconds", Json::Int(20))]),
        &nodes,
        "走进@主角",
    );
    assert_eq!(text(&saved.row, "id"), Some("d1:shot:2:1"));
    assert_eq!(text(&saved.row, "episode_id"), Some("d1:episode:2"));
    assert_eq!(text(&saved.row, "episode_name"), Some("第2集"));
    assert_eq!(text(&saved.row, "title"), Some("分镜"));
    assert!(matches!(field(&saved.row, "duration_seconds"), Some(Json::Int(15))));
    match field(&saved.row, "reference_asset_ids") {
        Some(Json::Array(ids)) => {
            assert_eq!(ids.len(), 1);
            assert!(matches!(&ids[0], Json::Text(s) if s == "d1:asset:hero:0"));
        }
        _ => panic!("expected references"),
    }
    assert!(matches!(field(&saved.record, "title"), Some(Json::Null)));
    assert!(matches!(field(&saved.record, "shot_index"), Some(Json::Int(1))));
    assert_eq!(text(&saved.record, "prompt"), Some("走进@主角"));
}

#[test]
fn shots_at_different_places_get_different_ids() {
    let e = obj(vec![]);
    let s = obj(vec![]);
    let a = decomposed_shot("d1", 0, 10, &e, &s, &vec![], "");
    let b = decomposed_shot("d1", 10, 0, &e, &s, &vec![], "");
    assert_eq!(text(&a.row, "id"), Some("d1:shot:1:11"));
    assert_eq!(text(&b.row, "id"), Some("d1:shot:11:1"));
    assert_ne!(text(&a.row, "id"), text(&b.row, "id"));
}
