use ai_application_factory::error::AppError;
use ai_application_factory::game_placeholder::{layout_assets_check, layout_scene};
use ai_application_factory::game_placeholder::{
    composite_name, composite_of, composite_record, game_placeholder_plan, next_composite_version,
};
use ai_application_factory::json::Json;
use ai_application_factory::project_queue::{generation_queue, processing_at, queue_fields};

fn t(s: &str) -> Json {
    Json::Text(s.to_owned())
}

fn obj(pairs: Vec<(&str, Json)>) -> Json {
    Json::Object(pairs.into_iter().map(|(k, v)| (k.to_owned(), v)).collect())
}

fn field<'a>(json: &'a Json, key: &str) -> &'a Json {
    match json {
        Json::Object(e) => &e.iter().find(|(k, _)| k == key).expect("field").1,
        _ => panic!("object"),
    }
}

fn texts(json: &Json) -> Vec<String> {
    match json {
        Json::Array(items) => items
            .iter()
            .map(|i| match i {
                Json::Text(s) => s.clone(),
                _ => "?".to_owned(),
            })
            .collect(),
        _ => panic!("array"),
    }
}

fn assets() -> Vec<Json> {
    vec![
        obj(vec![("id", t("castle")), ("type", t("scene")), ("name", t("城堡")), ("image_url", t("file:///c.png"))]),
        obj(vec![("id", t("hero")), ("type", t("character")), ("name", t("勇者")), ("image_url", t("file:///h.png"))]),
        obj(vec![("id", t("ghost")), ("type", t("character")), ("name", t("幽灵"))]),
        obj(vec![("id", t("sword")), ("type", t("prop")), ("name", t("圣剑")), ("image_url", t("file:///s.png"))]),
        obj(vec![("id", t("shield")), ("type", t("prop")), ("name", t("盾牌"))]),
    ]
}

fn node(placements: Vec<&str>, references: Vec<&str>) -> Json {
    obj(vec![
        ("title", t("决战")),
        ("original_text", t("勇者拔出圣剑")),
        ("placeholder_scene_asset_id", t("castle")),
        (
            "placeholder_placements",
            Json::Array(placements.into_iter().map(|id| obj(vec![("asset_id", t(id))])).collect()),
        ),
        ("reference_asset_ids", Json::Array(references.into_iter().map(t).collect())),
    ])
}

fn err_message<T: std::fmt::Debug>(r: Result<T, ai_application_factory::error::AppError>) -> String {
    match r {
        Err(e) => e.message(),
        Ok(v) => panic!("expected an error, got {:?}", v),
    }
}

#[test]
fn a_game_composite_uses_the_scene_the_placed_characters_and_the_mentioned_props() {
    let plan = game_placeholder_plan(&node(vec!["hero", "hero"], vec![]), &assets(), "n1").unwrap();
    assert_eq!(plan.characters.len(), 1);
    assert_eq!(plan.props.len(), 1);
    assert_eq!(texts(field(&plan.metadata, "reference_asset_ids")), vec!["castle", "hero", "sword"]);
    assert!(matches!(field(&plan.metadata, "scene_name"), Json::Text(n) if n == "城堡"));
    match field(&plan.metadata, "placements") {
        Json::Array(p) => assert_eq!(p.len(), 2),
        _ => panic!("placements"),
    }
}

#[test]
fn a_game_composite_refuses_missing_or_unready_materials() {
    let a = assets();
    assert_eq!(err_message(game_placeholder_plan(&obj(vec![]), &a, "n1")), "请选择场景素材");
    assert_eq!(err_message(game_placeholder_plan(&node(vec![], vec![]), &a, "n1")), "请至少添加一个角色到占位图");
    assert_eq!(err_message(game_placeholder_plan(&node(vec!["ghost"], vec![]), &a, "n1")), "角色“幽灵”尚未生成或上传图片");
    assert_eq!(
        err_message(game_placeholder_plan(&node(vec!["castle"], vec![]), &a, "n1")),
        "占位图参考素材不存在或类型不匹配：castle"
    );
    assert_eq!(err_message(game_placeholder_plan(&node(vec!["hero"], vec!["shield"]), &a, "n1")), "道具“盾牌”尚未生成或上传图片");
}

#[test]
fn composite_versions_count_the_node_s_earlier_composites() {
    let stored = vec![
        r#"{"node_id":"n1","render_mode":"generated_composite"}"#.to_owned(),
        r#"{"node_id":"n1","render_mode":"upload"}"#.to_owned(),
        r#"{"node_id":"n2","render_mode":"generated_composite"}"#.to_owned(),
        "not json".to_owned(),
        r#"{"node_id":"n1","render_mode":"generated_composite"}"#.to_owned(),
    ];
    assert_eq!(next_composite_version(&stored, "n1"), 3);
    assert_eq!(next_composite_version(&Vec::new(), "n1"), 1);
    assert!(composite_of(&obj(vec![("node_id", t("n1")), ("render_mode", t("generated_composite"))]), "n1"));

    let record = composite_record(&obj(vec![("node_id", t("n1"))]), 3);
    assert!(matches!(field(&record, "version"), Json::Int(3)));
    assert!(matches!(field(&record, "render_mode"), Json::Text(m) if m == "generated_composite"));
    assert_eq!(composite_name("决战", 3), "决战 · 占位图 3");
}

#[test]
fn waiting_projects_are_numbered_and_marked_when_their_turn_began() {
    let now = (1_700_000_000, 0);
    let tasks = vec![
        obj(vec![("drama_id", t("p1")), ("poll_lease_until", t("2100-01-01T00:00:00Z"))]),
        obj(vec![("drama_id", t("p2")), ("poll_lease_until", t("2000-01-01T00:00:00+08:00"))]),
        obj(vec![("drama_id", t("p3")), ("progress", Json::Int(5))]),
        obj(vec![("drama_id", t("p4")), ("stage", t("  "))]),
        obj(vec![("drama_id", t("p5")), ("stage", t("拆解中")), ("poll_lease_until", t("soon"))]),
    ];
    let queue = generation_queue(&tasks, now);
    let states: Vec<(String, i64, bool)> = queue.iter().map(|e| (e.project_id.clone(), e.position, e.processing)).collect();
    assert_eq!(
        states,
        vec![
            ("p1".to_owned(), 1, true),
            ("p2".to_owned(), 2, false),
            ("p3".to_owned(), 3, true),
            ("p4".to_owned(), 4, false),
            ("p5".to_owned(), 5, true),
        ]
    );
    let fields = queue_fields(&queue, "p4").unwrap();
    assert!(matches!(field(&fields, "queue_position"), Json::Int(4)));
    assert!(matches!(field(&fields, "queue_state"), Json::Text(s) if s == "queued"));
    assert!(queue_fields(&queue, "p9").is_none());
    assert!(processing_at(&obj(vec![]), Some((10, 5)), (10, 4)));
    assert!(!processing_at(&obj(vec![]), Some((10, 4)), (10, 4)));
}

#[test]
fn a_layout_names_its_own_node_a_scene_and_placed_characters() {
    let form = vec![("node_id".to_owned(), Json::Text("n2".to_owned())), ("scene_asset_id".to_owned(), Json::Text("s".to_owned()))];
    assert!(matches!(layout_scene(&form, "n1"), Err(AppError::BadRequest(ref m)) if m == "请求节点与地址不匹配"));
    assert_eq!(layout_scene(&form, "n2").unwrap(), "s");
    let no_scene = vec![("scene_asset_id".to_owned(), Json::Text("  ".to_owned()))];
    assert!(matches!(layout_scene(&no_scene, "n1"), Err(AppError::BadRequest(ref m)) if m == "请选择场景素材"));

    let assets = vec![
        ("s".to_owned(), "scene".to_owned()),
        ("hero".to_owned(), "character".to_owned()),
        ("sword".to_owned(), "prop".to_owned()),
    ];
    assert!(layout_assets_check(&assets, "s", &vec!["hero".to_owned()]).is_ok());
    assert!(matches!(
        layout_assets_check(&assets, "hero", &vec![]),
        Err(AppError::BadRequest(ref m)) if m == "素材类型不匹配：hero"
    ));
    assert!(matches!(
        layout_assets_check(&assets, "s", &vec!["hero".to_owned(), "ghost".to_owned(), "sword".to_owned()]),
        Err(AppError::BadRequest(ref m)) if m == "素材不存在：ghost"
    ));
}
