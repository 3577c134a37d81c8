use ai_application_factory::error::AppError;
use ai_application_factory::json::Json;
use ai_application_factory::sessions::{choice_state, extended_path, session_status_after};

fn t(s: &str) -> Json {
    Json::Text(s.to_owned())
}

fn obj(pairs: Vec<(&str, Json)>) -> Json {
    Json::Object(pairs.into_iter().map(|(k, v)| (k.to_owned(), v)).collect())
}

fn field<'a>(v: &'a Json, key: &str) -> Option<&'a Json> {
    match v {
        Json::Object(e) => e.iter().find(|(k, _)| k == key).map(|(_, v)| v),
        _ => None,
    }
}

fn session(status: &str, state: &str, path: &str) -> Json {
    obj(vec![
        ("status", t(status)),
        ("current_node_id", t("n1")),
        ("state_json", t(state)),
        ("path_json", t(path)),
    ])
}

fn edge(source: &str, conditions: Json) -> Json {
    obj(vec![
        ("source_node_id", t(source)),
        ("target_node_id", t("n2")),
        ("option_text", t("开门")),
        ("conditions", conditions),
    ])
}

#[test]
fn a_finished_session_takes_no_choice() {
    let e = edge("n1", Json::Null);
    match choice_state(&session("completed", "{}", "[]"), Some(&e), "e1") {
        Err(AppError::Conflict(m)) => assert_eq!(m, "Game session has already reached an ending"),
        _ => panic!("expected a conflict"),
    }
}

#[test]
fn a_missing_or_foreign_edge_is_refused() {
    match choice_state(&session("active", "{}", "[]"), None, "e9") {
        Err(AppError::NotFound(m)) => assert_eq!(m, "Game edge not found: e9"),
        _ => panic!("expected not found"),
    }
    let e = edge("n7", Json::Null);
    match choice_state(&session("active", "{}", "[]"), Some(&e), "e1") {
        Err(AppError::Conflict(m)) => assert_eq!(m, "The selected edge is not available from the current node"),
        _ => panic!("expected a conflict"),
    }
}

#[test]
fn a_choice_needs_its_requirements_and_records_its_changes() {
    let guarded = edge("n1", obj(vec![("requires", obj(vec![("key", Json::Bool(true))]))]));
    match choice_state(&session("active", "{}", "[]"), Some(&guarded), "e1") {
        Err(AppError::Conflict(m)) => assert_eq!(m, "此前选择导致此选项不可用"),
        _ => panic!("expected a conflict"),
    }
    let state = choice_state(&session("active", "{\"key\":true}", "[]"), Some(&guarded), "e1").unwrap();
    assert!(matches!(field(&state, "key"), Some(Json::Bool(true))));

    let setter = edge("n1", obj(vec![("set", obj(vec![("met_guard", Json::Bool(true))]))]));
    let state = choice_state(&session("active", "not json", "[]"), Some(&setter), "e1").unwrap();
    assert!(matches!(field(&state, "met_guard"), Some(Json::Bool(true))));
}

#[test]
fn a_choice_extends_the_recorded_path() {
    let setter = edge("n1", obj(vec![("set", obj(vec![("x", Json::Int(1))]))]));
    let target = obj(vec![("id", t("n2")), ("node_type", t("normal"))]);
    let path = extended_path(&session("active", "{}", "[{\"edge_id\":\"e0\"}]"), &setter, "e1", &target, "2024-05-01T00:00:00Z");
    assert_eq!(path.len(), 2);
    let step = &path[1];
    assert!(matches!(field(step, "edge_id"), Some(Json::Text(s)) if s == "e1"));
    assert!(matches!(field(step, "source_node_id"), Some(Json::Text(s)) if s == "n1"));
    assert!(matches!(field(step, "target_node_id"), Some(Json::Text(s)) if s == "n2"));
    assert!(matches!(field(step, "option_text"), Some(Json::Text(s)) if s == "开门"));
    assert!(matches!(field(step, "state_changes"), Some(Json::Object(_))));
    let fresh = extended_path(&session("active", "{}", "oops"), &setter, "e1", &target, "t");
    assert_eq!(fresh.len(), 1);
}

#[test]
fn only_ending_nodes_complete_a_session() {
    assert_eq!(session_status_after(&obj(vec![("node_type", t("success"))])), "completed");
    assert_eq!(session_status_after(&obj(vec![("node_type", t("failure"))])), "completed");
    assert_eq!(session_status_after(&obj(vec![("node_type", t("normal"))])), "active");
    assert_eq!(session_status_after(&obj(vec![])), "active");
}
