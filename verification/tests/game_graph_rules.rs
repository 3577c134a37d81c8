use ai_application_factory::game_graph::graph_task_check;
use ai_application_factory::game_graph::node_prompt_input;
use ai_application_factory::game_graph::{
    graph_edge, graph_material, graph_material_ids, graph_node, graph_node_ids, node_draft,
    prompt_context, requested_material_list,
};
use ai_application_factory::json::Json;

fn t(s: &str) -> Json {
    Json::Text(s.to_owned())
}

fn obj(pairs: Vec<(&str, Json)>) -> Json {
    Json::Object(pairs.into_iter().map(|(k, v)| (k.to_owned(), v)).collect())
}

fn field<'a>(json: &'a Json, key: &str) -> &'a Json {
    match json {
        Json::Object(e) => &e.iter().find(|(k, _)| k == key).expect("field").1,
        _ => panic!("object"),
    }
}

fn text(json: &Json) -> &str {
    match json {
        Json::Text(s) => s,
        other => panic!("expected a text, got {:?}", other),
    }
}

#[test]
fn planned_materials_are_found_by_id_and_by_name() {
    let materials = vec![
        obj(vec![("id", t("hero")), ("name", t("勇者")), ("type", t("character"))]),
        obj(vec![("name", t("城堡")), ("type", t("scene"))]),
        obj(vec![("id", t("hero")), ("name", t("勇者"))]),
    ];
    let fresh = vec!["f0".to_owned(), "f1".to_owned(), "f2".to_owned()];
    let ids = graph_material_ids("g", &materials, &fresh);
    let get = |key: &str| ids.iter().find(|(k, _)| k == key).map(|(_, v)| v.clone());
    assert_eq!(get("hero").as_deref(), Some("g:asset:hero:2"));
    assert_eq!(get("勇者").as_deref(), Some("g:asset:hero:0"));
    assert_eq!(get("f1").as_deref(), Some("g:asset:f1:1"));
    assert_eq!(get("城堡").as_deref(), Some("g:asset:f1:1"));
}

#[test]
fn saved_materials_keep_only_enabled_voices() {
    let enabled = vec!["custom-1".to_owned()];
    let hero = obj(vec![("id", t("hero")), ("type", t("character")), ("voice_id", t("custom-1"))]);
    let record = graph_material("g", 0, &hero, "f", &enabled).unwrap();
    assert_eq!(text(field(&record, "id")), "g:asset:hero:0");
    assert_eq!(text(field(&record, "voice_id")), "custom-1");
    assert_eq!(text(field(&record, "name")), "素材");
    assert_eq!(text(field(&record, "status")), "未生成");
    let prop = obj(vec![("voice_id", t("custom-9"))]);
    let record = graph_material("g", 1, &prop, "f", &enabled).unwrap();
    assert_eq!(text(field(&record, "type")), "prop");
    assert!(matches!(field(&record, "voice_id"), Json::Null));
    let stranger = obj(vec![("type", t("character")), ("voice_id", t("custom-9"))]);
    match graph_material("g", 2, &stranger, "f", &enabled) {
        Err(e) => assert_eq!(e.message(), "Voice preset not found: custom-9"),
        Ok(_) => panic!("unknown voices are refused"),
    }
}

#[test]
fn saved_nodes_and_edges_use_the_stored_ids() {
    let nodes = vec![obj(vec![("id", t("n1"))]), obj(vec![("id", t("n2")), ("duration_seconds", Json::Int(30))])];
    let node_ids = graph_node_ids("g", &nodes);
    assert_eq!(node_ids, vec![("n1".to_owned(), "g:node:n1:0".to_owned()), ("n2".to_owned(), "g:node:n2:1".to_owned())]);

    let materials = vec![("hero".to_owned(), "g:asset:hero:0".to_owned())];
    let rich = vec![obj(vec![("type", t("reference")), ("asset_id", t("g:asset:hero:0"))]), obj(vec![("type", t("text"))])];
    let saved = graph_node("g", 5, &obj(vec![("id", t("n2")), ("duration_seconds", Json::Int(30)), ("placeholder_asset_id", t("hero"))]), &materials, &rich, "提示词");
    assert_eq!(text(field(&saved.row, "id")), "g:node:n2:5");
    assert!(matches!(field(&saved.row, "duration_seconds"), Json::Int(15)));
    assert!(matches!(field(&saved.row, "position_x"), Json::Int(360)));
    assert!(matches!(field(&saved.row, "position_y"), Json::Int(270)));
    assert_eq!(text(field(&saved.row, "title")), "节点");
    assert_eq!(text(field(&saved.record, "placeholder_asset_id")), "g:asset:hero:0");
    match field(&saved.record, "reference_asset_ids") {
        Json::Array(ids) => assert_eq!(ids.len(), 1),
        _ => panic!("ids"),
    }
    assert!(matches!(field(&saved.record, "title"), Json::Null));

    let draft = node_draft(&obj(vec![("duration_seconds", Json::Int(2))]));
    assert!(matches!(field(&draft, "duration_seconds"), Json::Int(4)));
    assert_eq!(text(field(&draft, "prompt_template_version")), "v1");

    let edge = graph_edge("g", 0, &obj(vec![("source_node_id", t("n1")), ("target_node_id", t("n9"))]), "fe", &node_ids);
    assert_eq!(text(field(&edge.row, "id")), "g:edge:fe:0");
    assert_eq!(text(field(&edge.row, "source_node_id")), "g:node:n1:0");
    assert_eq!(text(field(&edge.row, "target_node_id")), "");
    assert_eq!(text(field(&edge.row, "option_text")), "继续");
    assert!(matches!(field(&edge.row, "sort_order"), Json::Int(1)));
    assert!(matches!(field(&edge.record, "option_text"), Json::Null));
}

#[test]
fn node_prompts_know_the_game_and_the_requested_materials() {
    let context = prompt_context(&obj(vec![("platform", t("Steam游戏")), ("style", t("动漫"))]));
    assert_eq!(text(field(&context, "ratio")), "16:9");
    let saved = vec![obj(vec![("id", t("g:asset:hero:0")), ("type", t("character")), ("name", t("勇者"))])];
    let requested = requested_material_list(&Json::Array(vec![t("g:asset:hero:0"), t("missing")]), &saved);
    assert_eq!(requested.len(), 1);
    assert_eq!(text(field(&requested[0], "asset_name")), "勇者");
}

#[test]
fn a_node_prompt_task_freezes_the_template_version() {
    match node_prompt_input("g1", "n1", "v2") {
        Json::Object(e) => {
            let keys: Vec<&str> = e.iter().map(|(k, _)| k.as_str()).collect();
            assert_eq!(keys, vec!["game_id", "node_id", "prompt_template_version"]);
            assert!(matches!(&e[2].1, Json::Text(v) if v == "v2"));
        }
        _ => panic!("object expected"),
    }
}

#[test]
fn a_generated_graph_is_refused_once_its_task_stopped() {
    let task = |status: &str| {
        obj(vec![
            ("id", t("task-1")),
            ("game_id", t("g1")),
            ("type", t("game_graph_decomposition")),
            ("status", t(status)),
        ])
    };
    assert!(graph_task_check(None, None, "g1").is_ok());
    assert!(graph_task_check(Some("task-1"), Some(&task("生成中")), "g1").is_ok());
    for refused in [
        graph_task_check(Some("task-1"), Some(&task("已取消")), "g1"),
        graph_task_check(Some("task-1"), Some(&task("生成中")), "g2"),
        graph_task_check(Some("task-2"), Some(&task("生成中")), "g1"),
        graph_task_check(Some("task-1"), None, "g1"),
    ] {
        assert_eq!(refused.unwrap_err().message(), "游戏图谱生成已停止");
    }
}
