use ai_application_factory::projections::{attach_versions, web_search_flag};
use ai_application_factory::game_video::game_video_snapshot;
use ai_application_factory::json::Json;
use ai_application_factory::projections::{
    editor_project, editor_shot, editor_version, project_card_asset, running_count,
    selected_shot_id,
};

fn t(s: &str) -> Json {
    Json::Text(s.to_owned())
}

fn obj(pairs: Vec<(&str, Json)>) -> Json {
    Json::Object(pairs.into_iter().map(|(k, v)| (k.to_owned(), v)).collect())
}

fn field<'a>(json: &'a Json, key: &str) -> &'a Json {
    match json {
        Json::Object(e) => &e.iter().find(|(k, _)| k == key).expect("field").1,
        _ => panic!("object"),
    }
}

fn len(json: &Json) -> usize {
    match json {
        Json::Array(items) => items.len(),
        Json::Object(e) => e.len(),
        _ => panic!("collection"),
    }
}

fn shot(id: &str, text: &str) -> Json {
    obj(vec![
        ("id", t(id)),
        ("original_text", t(text)),
        ("prompt", t("镜头提示词")),
        ("versions", Json::Array(vec![obj(vec![("id", t("v1")), ("video_url", t("file:///v.mp4")), ("secret", t("x"))])])),
    ])
}

#[test]
fn versions_list_only_their_editor_fields() {
    let card = editor_version(&obj(vec![("id", t("v1")), ("secret", t("x"))]));
    assert_eq!(len(&card), 12);
    assert!(matches!(field(&card, "id"), Json::Text(id) if id == "v1"));
    assert!(matches!(field(&card, "completed_at"), Json::Null));
}

#[test]
fn only_the_selected_shot_is_shown_in_full() {
    let full = editor_shot(shot("s1", "短文本"), "s1");
    assert!(matches!(field(&full, "prompt"), Json::Text(p) if p == "镜头提示词"));
    assert_eq!(len(&field(&full, "versions")), 1);
    match field(&full, "versions") {
        Json::Array(v) => assert_eq!(len(&v[0]), 12),
        _ => panic!("versions"),
    }

    let long = "字".repeat(601);
    let summary = editor_shot(shot("s2", &long), "s1");
    assert!(matches!(field(&summary, "prompt"), Json::Text(p) if p.is_empty()));
    match field(&summary, "original_text") {
        Json::Text(p) => {
            assert_eq!(p.chars().count(), 601);
            assert!(p.ends_with('…'));
        }
        _ => panic!("text"),
    }
    let exact = editor_shot(shot("s3", &"字".repeat(600)), "s1");
    assert!(matches!(field(&exact, "original_text"), Json::Text(p) if !p.ends_with('…')));
}

#[test]
fn the_editor_opens_the_requested_shot_or_the_first_one() {
    let shots = vec![shot("s1", "a"), shot("s2", "b")];
    assert_eq!(selected_shot_id(&shots, Some("s2")), "s2");
    assert_eq!(selected_shot_id(&shots, Some("s9")), "s1");
    assert_eq!(selected_shot_id(&Vec::new(), Some("s9")), "");

    let project = vec![("id".to_owned(), t("p1")), ("script".to_owned(), t("原文")), ("shots".to_owned(), Json::Array(shots))];
    let view = editor_project(project, t("扩写"), Some("s2"));
    assert!(matches!(field(&view, "script"), Json::Text(s) if s.is_empty()));
    assert!(matches!(field(&view, "expanded_script"), Json::Text(s) if s == "扩写"));
    match field(&view, "shots") {
        Json::Array(items) => {
            assert!(matches!(field(&items[0], "prompt"), Json::Text(p) if p.is_empty()));
            assert!(matches!(field(&items[1], "prompt"), Json::Text(p) if p == "镜头提示词"));
        }
        _ => panic!("shots"),
    }
}

#[test]
fn project_cards_keep_the_image_history_of_the_cover_only() {
    let cover = project_card_asset(&obj(vec![("id", t("c")), ("type", t("cover")), ("image_history", Json::Array(vec![t("a")]))]));
    assert_eq!(len(field(&cover, "image_history")), 1);
    let scene = project_card_asset(&obj(vec![("id", t("s")), ("type", t("scene")), ("image_history", Json::Array(vec![t("a")]))]));
    assert_eq!(len(field(&scene, "image_history")), 0);
    let tasks = vec![obj(vec![("status", t("生成中"))]), obj(vec![("status", t("生成成功"))]), obj(vec![("status", t("生成中"))])];
    assert_eq!(running_count(&tasks), 2);
}

#[test]
fn a_node_video_task_freezes_its_referenced_materials() {
    let game = obj(vec![(
        "assets",
        Json::Array(vec![
            obj(vec![("id", t("hero")), ("name", t("勇者")), ("secret", t("x"))]),
            obj(vec![("id", t("castle")), ("name", t("城堡"))]),
            obj(vec![("id", t("other"))]),
        ]),
    )]);
    let node = obj(vec![
        ("prompt", t("走进城门")),
        ("reference_asset_ids", Json::Array(vec![t("castle"), t("hero")])),
    ]);
    let snapshot = game_video_snapshot("g1", "n1", &game, &node);
    assert_eq!(len(&snapshot), 10);
    match field(&snapshot, "reference_images") {
        Json::Array(items) => {
            assert_eq!(items.len(), 2);
            assert!(matches!(field(&items[0], "id"), Json::Text(id) if id == "hero"));
            assert_eq!(len(&items[0]), 6);
        }
        _ => panic!("images"),
    }
    assert!(matches!(field(&snapshot, "first_last_frames"), Json::Null));
}

#[test]
fn each_shot_takes_the_versions_stored_for_it() {
    let shots = vec![obj(vec![("id", t("s1"))]), obj(vec![("id", t("s2"))]), obj(vec![("id", t("s1"))])];
    let versions = vec![
        obj(vec![("id", t("v1")), ("shot_id", t("s1"))]),
        obj(vec![("id", t("v2")), ("shot_id", t("s2"))]),
        obj(vec![("id", t("v3")), ("shot_id", t("s1"))]),
        obj(vec![("id", t("v4"))]),
    ];
    let out = attach_versions(shots, &versions);
    assert_eq!(len(field(&out[0], "versions")), 2);
    assert_eq!(len(field(&out[1], "versions")), 1);
    assert_eq!(len(field(&out[2], "versions")), 0);
}

#[test]
fn a_stored_web_search_switch_reads_booleans_and_integers() {
    assert!(web_search_flag(Some(&Json::Bool(true))));
    assert!(web_search_flag(Some(&Json::Int(1))));
    assert!(!web_search_flag(Some(&Json::Int(0))));
    assert!(!web_search_flag(Some(&t("1"))));
    assert!(!web_search_flag(None));
}
