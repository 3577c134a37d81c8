use ai_application_factory::game_materials::{
    complete_materials, dedupe, mapped_asset_id, mapped_frames, mapped_references,
    prompt_rich_nodes, prompt_template_version, prompt_template_version_value, reference_ids,
    require_asset,
};
use ai_application_factory::json::Json;

fn t(s: &str) -> Json {
    Json::Text(s.to_owned())
}

fn obj(pairs: Vec<(&str, Json)>) -> Json {
    Json::Object(pairs.into_iter().map(|(k, v)| (k.to_owned(), v)).collect())
}

fn pairs(items: &[(&str, &str)]) -> Vec<(String, String)> {
    items.iter().map(|(a, b)| (a.to_string(), b.to_string())).collect()
}

fn kinds(items: &[Json]) -> Vec<String> {
    items
        .iter()
        .map(|item| match item {
            Json::Object(e) => match &e.iter().find(|(k, _)| k == "type").unwrap().1 {
                Json::Text(s) => s.clone(),
                _ => String::new(),
            },
            _ => String::new(),
        })
        .collect()
}

#[test]
fn every_game_gets_a_placeholder_and_a_cover() {
    let planned = vec![obj(vec![("id", t("hero")), ("type", t("character"))])];
    let materials = complete_materials(&planned);
    assert_eq!(kinds(&materials), vec!["character", "placeholder", "cover"]);
    let complete = complete_materials(&materials);
    assert_eq!(complete.len(), 3);
}

#[test]
fn planned_ids_map_to_stored_ids() {
    let ids = pairs(&[("hero", "g:asset:hero:0"), ("英雄", "g:asset:hero:0"), ("tower", "g:asset:tower:1")]);
    assert_eq!(mapped_asset_id(Some("tower"), &ids).as_deref(), Some("g:asset:tower:1"));
    assert_eq!(mapped_asset_id(Some("ghost"), &ids), None);
    assert_eq!(mapped_asset_id(None, &ids), None);
    let node = obj(vec![(
        "reference_asset_ids",
        Json::Array(vec![t("hero"), t("ghost"), t("英雄"), t("tower")]),
    )]);
    match mapped_references(&node, &ids) {
        Json::Array(items) => {
            let texts: Vec<&str> = items.iter().map(|i| match i { Json::Text(s) => s.as_str(), _ => "" }).collect();
            assert_eq!(texts, vec!["g:asset:hero:0", "g:asset:tower:1"]);
        }
        _ => panic!("array expected"),
    }
    let frames = obj(vec![(
        "first_last_frames",
        obj(vec![("last", obj(vec![("asset_id", t("tower"))])), ("first", obj(vec![("asset_id", t("ghost"))]))]),
    )]);
    match mapped_frames(&frames, &ids) {
        Json::Object(e) => {
            assert_eq!(e.len(), 1);
            assert_eq!(e[0].0, "last");
        }
        _ => panic!("object expected"),
    }
}

#[test]
fn repeated_ids_are_dropped() {
    let v = vec!["a".to_owned(), "b".to_owned(), "a".to_owned(), "c".to_owned(), "b".to_owned()];
    assert_eq!(dedupe(v), vec!["a".to_owned(), "b".to_owned(), "c".to_owned()]);
}

#[test]
fn prompt_templates_are_v1_or_v2() {
    assert_eq!(prompt_template_version(&obj(vec![("prompt_template_version", t("v2"))])), "v2");
    assert_eq!(prompt_template_version(&obj(vec![("prompt_template_version", t("v3"))])), "v1");
    assert_eq!(prompt_template_version(&obj(vec![])), "v1");
    assert_eq!(prompt_template_version_value("v2").unwrap(), "v2");
    assert_eq!(prompt_template_version_value("v9").unwrap_err().message(), "提示词模板仅支持 v1 或 v2");
}

#[test]
fn references_must_name_materials_of_the_game() {
    let assets = pairs(&[("scene-1", "scene"), ("hero", "character")]);
    assert!(require_asset(&assets, "hero", Some("character")).is_ok());
    assert_eq!(require_asset(&assets, "hero", Some("scene")).unwrap_err().message(), "素材类型不匹配：hero");
    assert_eq!(require_asset(&assets, "x", None).unwrap_err().message(), "素材不存在：x");
    let ids = reference_ids(&Json::Array(vec![t(" hero "), t(""), Json::Int(1), t("hero"), t("scene-1")]), &assets).unwrap();
    assert_eq!(ids, vec!["hero".to_owned(), "scene-1".to_owned()]);
    assert_eq!(reference_ids(&t("hero"), &assets).unwrap_err().message(), "reference_asset_ids 必须是数组");
    assert_eq!(
        reference_ids(&Json::Array(vec![t("ghost")]), &assets).unwrap_err().message(),
        "素材不存在：ghost"
    );
}

#[test]
fn rich_prompts_keep_text_and_checked_references() {
    let assets = pairs(&[("scene-1", "scene")]);
    let rich = Json::Array(vec![
        obj(vec![("type", t("text")), ("text", t("场景："))]),
        obj(vec![("type", t("reference")), ("asset_id", t(" scene-1 ")), ("mention_number", Json::Int(1))]),
    ]);
    let nodes = prompt_rich_nodes(&rich, &assets).unwrap();
    assert_eq!(nodes.len(), 2);
    match &nodes[1] {
        Json::Object(e) => {
            let keys: Vec<&str> = e.iter().map(|(k, _)| k.as_str()).collect();
            assert_eq!(keys, vec!["asset_id", "asset_type", "image_url", "label", "mention_number", "type"]);
            assert!(matches!(&e[0].1, Json::Text(s) if s == "scene-1"));
            assert!(matches!(&e[1].1, Json::Text(s) if s == "placeholder"));
            assert!(matches!(&e[2].1, Json::Null));
            assert!(matches!(&e[3].1, Json::Text(s) if s == "占位图"));
        }
        _ => panic!("object expected"),
    }
    assert_eq!(
        prompt_rich_nodes(&Json::Array(vec![obj(vec![])]), &assets).unwrap_err().message(),
        "prompt_rich 节点缺少 type"
    );
    assert_eq!(
        prompt_rich_nodes(&Json::Array(vec![obj(vec![("type", t("image"))])]), &assets).unwrap_err().message(),
        "prompt_rich 仅支持 text 或 reference 节点"
    );
    assert_eq!(
        prompt_rich_nodes(&Json::Array(vec![obj(vec![("type", t("reference"))])]), &assets).unwrap_err().message(),
        "参考图缺少 asset_id"
    );
    assert_eq!(prompt_rich_nodes(&obj(vec![]), &assets).unwrap_err().message(), "prompt_rich 必须是数组");
}
