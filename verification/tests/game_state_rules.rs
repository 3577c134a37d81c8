use ai_application_factory::edge_edits::edge_form;
use ai_application_factory::project_settings::ColumnValue;
use ai_application_factory::edge_edits::edge_edit;
use ai_application_factory::game_state::{
    apply_state_changes, conditions_match, normalize_edge_conditions, session_state,
    valid_state_key, valid_state_value,
};
use ai_application_factory::json::Json;

fn t(s: &str) -> Json {
    Json::Text(s.to_owned())
}

fn obj(pairs: Vec<(&str, Json)>) -> Json {
    Json::Object(pairs.into_iter().map(|(k, v)| (k.to_owned(), v)).collect())
}

fn message(r: Result<Json, ai_application_factory::error::AppError>) -> String {
    match r {
        Err(e) => e.message(),
        Ok(_) => panic!("expected an error"),
    }
}

#[test]
fn state_keys_are_short_snake_case() {
    assert!(valid_state_key("evidence_secured"));
    assert!(valid_state_key("a1"));
    assert!(!valid_state_key(""));
    assert!(!valid_state_key("Evidence"));
    assert!(!valid_state_key("has-dash"));
    assert!(!valid_state_key(&"a".repeat(65)));
    assert!(valid_state_key(&"a".repeat(64)));
}

#[test]
fn state_values_are_scalars() {
    assert!(valid_state_value(&t("x")));
    assert!(valid_state_value(&Json::Int(3)));
    assert!(valid_state_value(&Json::Bool(true)));
    assert!(!valid_state_value(&Json::Null));
    assert!(!valid_state_value(&Json::Array(vec![])));
}

#[test]
fn missing_conditions_become_an_empty_object() {
    let r = normalize_edge_conditions(None).unwrap();
    assert!(matches!(r, Json::Object(ref e) if e.is_empty()));
}

#[test]
fn condition_errors_name_the_broken_rule() {
    assert_eq!(message(normalize_edge_conditions(Some(&t("x")))), "conditions 必须是对象");
    assert_eq!(
        message(normalize_edge_conditions(Some(&obj(vec![("other", obj(vec![]))])))),
        "conditions 仅支持 requires 和 set"
    );
    assert_eq!(
        message(normalize_edge_conditions(Some(&obj(vec![("requires", t("x"))])))),
        "conditions.requires 必须是对象"
    );
    assert_eq!(
        message(normalize_edge_conditions(Some(&obj(vec![("set", Json::Int(1))])))),
        "conditions.set 必须是对象"
    );
    assert_eq!(
        message(normalize_edge_conditions(Some(&obj(vec![(
            "set",
            obj(vec![("BadKey", Json::Bool(true))])
        )])))),
        "状态键须为 snake_case，状态值须为字符串、数字或布尔值"
    );
}

#[test]
fn valid_conditions_are_kept() {
    let conditions = obj(vec![
        ("requires", obj(vec![("evidence_secured", Json::Bool(true))])),
        ("set", obj(vec![("door", t("open"))])),
    ]);
    let kept = normalize_edge_conditions(Some(&conditions)).unwrap();
    match kept {
        Json::Object(entries) => assert_eq!(entries.len(), 2),
        _ => panic!("object expected"),
    }
}

#[test]
fn early_choice_state_opens_a_later_edge_after_paths_merge() {
    let mut state = obj(vec![]);
    let keep = obj(vec![("set", obj(vec![("evidence_secured", Json::Bool(true))]))]);
    let win = obj(vec![("requires", obj(vec![("evidence_secured", Json::Bool(true))]))]);
    let lose = obj(vec![("requires", obj(vec![("evidence_secured", Json::Bool(false))]))]);
    assert!(!conditions_match(&state, &win));
    apply_state_changes(&mut state, &keep);
    assert!(conditions_match(&state, &win));
    assert!(!conditions_match(&state, &lose));
    assert!(conditions_match(&state, &obj(vec![])));
}

#[test]
fn applying_a_set_overwrites_and_keeps_other_keys() {
    let mut state = obj(vec![("a", Json::Int(1)), ("b", Json::Int(2))]);
    apply_state_changes(&mut state, &obj(vec![("set", obj(vec![("a", Json::Int(5))]))]));
    assert!(conditions_match(
        &state,
        &obj(vec![("requires", obj(vec![("a", Json::Int(5)), ("b", Json::Int(2))]))])
    ));
}

#[test]
fn a_non_object_requires_never_matches() {
    assert!(!conditions_match(&obj(vec![]), &obj(vec![("requires", t("x"))])));
}

#[test]
fn session_state_reads_the_recorded_json() {
    let session = obj(vec![("state_json", t("{\"door\":\"open\"}"))]);
    let state = session_state(&session);
    assert!(conditions_match(&state, &obj(vec![("requires", obj(vec![("door", t("open"))]))])));
    let legacy = session_state(&obj(vec![]));
    assert!(matches!(legacy, Json::Object(ref e) if e.is_empty()));
    let broken = session_state(&obj(vec![("state_json", t("[1,2]"))]));
    assert!(matches!(broken, Json::Object(ref e) if e.is_empty()));
}

#[test]
fn an_edge_edit_keeps_the_current_route_unless_it_moves_the_edge() {
    let current = Json::Object(vec![
        ("source_node_id".to_owned(), Json::Text("a".to_owned())),
        ("target_node_id".to_owned(), Json::Text("b".to_owned())),
    ]);
    let values = vec![
        ("option_text".to_owned(), Json::Text("开门".to_owned())),
        ("sort_order".to_owned(), Json::Int(2)),
    ];
    let edit = edge_edit(&current, &values).unwrap();
    assert_eq!((edit.source.as_str(), edit.target.as_str(), edit.changes_route), ("a", "b", false));
    assert_eq!(edit.updates.len(), 2);
    assert!(matches!(&edit.updates[0], (k, ColumnValue::Text(v)) if k == "option_text" && v == "开门"));
    assert!(matches!(&edit.updates[1], (k, ColumnValue::Integer(2)) if k == "sort_order"));

    let moved = vec![
        ("target_node_id".to_owned(), Json::Text("c".to_owned())),
        ("conditions".to_owned(), Json::Object(vec![])),
    ];
    let edit = edge_edit(&current, &moved).unwrap();
    assert_eq!((edit.source.as_str(), edit.target.as_str(), edit.changes_route), ("a", "c", true));
    assert!(matches!(&edit.updates[1], (k, ColumnValue::Document(_)) if k == "conditions_json"));

    let bad = vec![("conditions".to_owned(), Json::Object(vec![("other".to_owned(), Json::Object(vec![]))]))];
    assert!(edge_edit(&current, &bad).is_err());
}

#[test]
fn a_new_edge_needs_both_ends_and_an_option_text() {
    let form = edge_form(&vec![
        ("source_node_id".to_owned(), t("a")),
        ("target_node_id".to_owned(), t("b")),
        ("option_text".to_owned(), t("开门")),
    ])
    .unwrap();
    assert_eq!(form.sort_order, 1);
    assert!(matches!(form.conditions, Json::Object(ref e) if e.is_empty()));
    assert_eq!(
        message(edge_form(&vec![("source_node_id".to_owned(), t("a"))]).map(|f| f.conditions)),
        "请选择节点并填写选项文案"
    );
}
