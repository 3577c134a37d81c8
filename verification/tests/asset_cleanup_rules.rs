use ai_application_factory::asset_cleanup::{released_materials, released_shot};
use ai_application_factory::json::Json;

fn asset_of(v: &Json) -> Option<&str> {
    match v {
        Json::Object(e) => e.iter().find(|(k, _)| k == "asset_id").and_then(|(_, v)| match v {
            Json::Text(s) => Some(s.as_str()),
            _ => None,
        }),
        _ => None,
    }
}

#[test]
fn a_deleted_material_leaves_every_node_control() {
    let m = released_materials(
        r#"[{"type":"text","text":"走"},{"type":"asset","asset_id":"hero"},{"type":"asset","asset_id":"castle"}]"#,
        r#"["hero","castle","hero"]"#,
        r#"{"first":{"asset_id":"hero"},"last":{"asset_id":"castle"}}"#,
        Some("hero".to_owned()),
        Some("castle".to_owned()),
        r#"[{"asset_id":"hero","x":1},{"asset_id":"door"}]"#,
        "hero",
    );
    assert_eq!(m.prompt_rich.len(), 2);
    assert_eq!(asset_of(&m.prompt_rich[1]), Some("castle"));
    assert_eq!(m.reference_asset_ids, vec!["castle"]);
    let sides: Vec<&str> = m.first_last_frames.iter().map(|(k, _)| k.as_str()).collect();
    assert_eq!(sides, vec!["last"]);
    assert_eq!(m.placeholder_asset_id, None);
    assert_eq!(m.placeholder_scene_asset_id, Some("castle".to_owned()));
    assert_eq!(m.placeholder_placements.len(), 1);
    assert_eq!(asset_of(&m.placeholder_placements[0]), Some("door"));
}

#[test]
fn unreadable_node_fields_count_as_empty() {
    let m = released_materials("oops", r#"["a",1]"#, "[]", None, None, "{}", "a");
    assert!(m.prompt_rich.is_empty());
    assert!(m.reference_asset_ids.is_empty());
    assert!(m.first_last_frames.is_empty());
    assert!(m.placeholder_placements.is_empty());
}

#[test]
fn a_deleted_drama_material_leaves_shot_references_and_chips() {
    let (refs, chips) = released_shot(
        r#"["hero","castle",3]"#,
        r#"[{"type":"reference","asset_id":"hero"},{"type":"text","text":"走"}]"#,
        "hero",
    );
    assert_eq!(refs.len(), 2);
    assert!(matches!(&refs[0], Json::Text(s) if s == "castle"));
    assert!(matches!(&refs[1], Json::Int(3)));
    assert_eq!(chips.len(), 1);
    let (refs, chips) = released_shot("nope", "{}", "hero");
    assert!(refs.is_empty() && chips.is_empty());
}
