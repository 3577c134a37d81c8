use ai_application_factory::composites::{
    game_composite_prompt, marked_task, reused_composite_task, shot_composite_input, shot_composite_name,
    shot_composite_prompt, shot_composite_record,
};
use ai_application_factory::json::Json;
use ai_application_factory::placeholder::PlaceholderPlan;

fn t(s: &str) -> Json {
    Json::Text(s.to_owned())
}

fn obj(pairs: Vec<(&str, Json)>) -> Json {
    Json::Object(pairs.into_iter().map(|(k, v)| (k.to_owned(), v)).collect())
}

fn field<'a>(json: &'a Json, key: &str) -> &'a Json {
    match json {
        Json::Object(e) => &e.iter().find(|(k, _)| k == key).expect("field").1,
        _ => panic!("expected an object"),
    }
}

fn texts(json: &Json) -> Vec<String> {
    match json {
        Json::Array(items) => items
            .iter()
            .map(|item| match item {
                Json::Text(s) => s.clone(),
                other => panic!("expected a text, got {:?}", other),
            })
            .collect(),
        _ => panic!("expected an array"),
    }
}

#[test]
fn a_shot_composite_prompt_lists_scene_style_positions_and_props_in_order() {
    let project = obj(vec![("style", t("动画")), ("theme", t("雨夜"))]);
    let scene = obj(vec![("name", t("车站")), ("prompt", t("老站台"))]);
    let props = vec![obj(vec![("name", t("雨伞")), ("prompt", t("黑色长柄伞"))]), obj(vec![])];
    let positions = vec!["参考图2中的角色“阿青”位于画面左侧前景".to_owned()];
    let prompt = shot_composite_prompt(&project, &scene, &props, &positions);
    let lines: Vec<&str> = prompt.split('\n').collect();
    assert_eq!(lines.len(), 9);
    assert_eq!(lines[0], "生成一张干净、完整、可直接提供给视频生成模型的镜头构图参考图。");
    assert_eq!(lines[1], "场景：车站；场景提示词：老站台");
    assert_eq!(lines[2], "风格：动画；背景主题：雨夜；画幅：9:16");
    assert_eq!(lines[4], "参考图2中的角色“阿青”位于画面左侧前景");
    assert_eq!(lines[5], "道具“雨伞”：黑色长柄伞");
    assert_eq!(lines[6], "道具“”：");
    assert!(lines[8].starts_with("输出必须是无编辑痕迹的成片参考图"));
}

#[test]
fn a_game_composite_prompt_names_the_node_and_is_wide_for_steam_games() {
    let node = obj(vec![("title", t("岔路")), ("original_text", t("向左还是向右"))]);
    let steam = obj(vec![("platform", t("Steam游戏"))]);
    let prompt = game_composite_prompt(&steam, &node, &obj(vec![]), &Vec::new(), &Vec::new());
    let lines: Vec<&str> = prompt.split('\n').collect();
    assert_eq!(lines.len(), 7);
    assert_eq!(lines[0], "生成一张干净、完整、可直接提供给视频生成模型的互动游戏节点构图参考图。");
    assert_eq!(lines[1], "节点：岔路；节点文本：向左还是向右");
    assert_eq!(lines[2], "场景：未命名场景；场景提示词：");
    assert_eq!(lines[3], "风格：真人风格；画幅：16:9");
    let phone = obj(vec![("platform", t("抖音小游戏")), ("style", t("水墨"))]);
    let prompt = game_composite_prompt(&phone, &obj(vec![]), &obj(vec![]), &Vec::new(), &Vec::new());
    assert_eq!(prompt.split('\n').nth(1), Some("节点：未命名节点；节点文本："));
    assert_eq!(prompt.split('\n').nth(3), Some("风格：水墨；画幅：9:16"));
}

#[test]
fn a_shot_composite_is_recorded_with_its_materials_scene_first() {
    let plan = PlaceholderPlan {
        characters: vec![obj(vec![("id", t("hero"))])],
        props: vec![obj(vec![("id", t("umbrella"))])],
        reference_ids: vec!["scene".to_owned(), "hero".to_owned(), "umbrella".to_owned()],
        version: 3,
    };
    let scene = obj(vec![("id", t("scene")), ("name", t("车站"))]);
    let placements = vec![obj(vec![("asset_id", t("hero"))])];
    let record = shot_composite_record("s1", "scene", &scene, &placements, &plan);
    assert!(matches!(field(&record, "shot_id"), Json::Text(s) if s == "s1"));
    assert!(matches!(field(&record, "scene_name"), Json::Text(s) if s == "车站"));
    assert!(matches!(field(&record, "version"), Json::Int(3)));
    assert!(matches!(field(&record, "render_mode"), Json::Text(s) if s == "generated_composite"));
    assert_eq!(texts(field(&record, "character_asset_ids")), vec!["hero"]);
    assert_eq!(texts(field(&record, "prop_asset_ids")), vec!["umbrella"]);
    assert_eq!(texts(field(&record, "reference_asset_ids")), vec!["scene", "hero", "umbrella"]);
    assert_eq!(shot_composite_name(&obj(vec![("title", t("开场"))]), 3), "开场 · 占位图 3");
    assert_eq!(shot_composite_name(&obj(vec![]), 1), "分镜 · 占位图 1");
    let input = shot_composite_input("p1", "s1", &t("a9"), "scene", &placements, &plan.reference_ids);
    assert!(matches!(field(&input, "asset_id"), Json::Text(s) if s == "a9"));
    assert!(matches!(field(&input, "type"), Json::Text(s) if s == "placeholder_image"));
    assert_eq!(texts(field(&input, "reference_asset_ids")), vec!["scene", "hero", "umbrella"]);
}

#[test]
fn a_running_composite_task_is_handed_back_marked_reused() {
    let running = obj(vec![("id", t("task-1")), ("status", t("生成中"))]);
    let reused = reused_composite_task(Some(running)).unwrap();
    assert!(matches!(field(&reused, "_reused"), Json::Bool(true)));
    assert!(matches!(field(&reused, "id"), Json::Text(s) if s == "task-1"));
    assert!(reused_composite_task(None).is_none());
    let fresh = marked_task(obj(vec![("id", t("task-2"))]), false);
    assert!(matches!(field(&fresh, "_reused"), Json::Bool(false)));
}
