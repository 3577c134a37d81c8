//! Playing an interactive game: whether a session may take a choice, and
//! where the choice leads it.

use vstd::prelude::*;

use crate::error::{AppError, AppErrorView};
use crate::game_state::{applied_state, apply_state_changes, conditions_match, recorded_state, requirements_hold, session_state};
use crate::json::{parse_json, parsed_json, view_items, Json, JsonView};
use crate::placeholder::{at, value_at};

verus! {

/// The node a session stands on, or an empty id.
pub open spec fn current_of(session: JsonView) -> Seq<char> {
    match session.get("current_node_id"@) {
        Some(JsonView::Text(id)) => id,
        _ => Seq::empty(),
    }
}

/// Whether a session still plays: its status is `active`.
pub open spec fn session_active(session: JsonView) -> bool {
    session.get("status"@) == Some(JsonView::Text("active"@))
}

/// The state a session holds after taking `edge`, or why it cannot take it:
/// a session that reached an ending takes none, the edge must exist and
/// leave the current node, and its requirements must hold.
pub open spec fn choice_of(session: JsonView, edge: Option<JsonView>, edge_id: Seq<char>) -> Result<JsonView, AppErrorView> {
    if !session_active(session) {
        Err(AppErrorView::Conflict("Game session has already reached an ending"@))
    } else {
        match edge {
            None => Err(AppErrorView::NotFound("Game edge not found: "@ + edge_id)),
            Some(e) => if e.get("source_node_id"@) != Some(JsonView::Text(current_of(session))) {
                Err(AppErrorView::Conflict("The selected edge is not available from the current node"@))
            } else if !requirements_hold(recorded_state(session), at(e, "conditions"@)) {
                Err(AppErrorView::Conflict("此前选择导致此选项不可用"@))
            } else {
                Ok(applied_state(recorded_state(session), at(e, "conditions"@)))
            },
        }
    }
}

/// Check that a session may take `edge` (`None` when the game has no such
/// edge) and give the state it holds afterwards.
pub fn choice_state(session: &Json, edge: Option<&Json>, edge_id: &str) -> (r: Result<Json, AppError>)
    ensures
        crate::frame_references::json_result(r) == choice_of(session@, crate::game_state::opt_ref_json(edge), edge_id@),
{
    let active = match session.get("status") {
        Some(Json::Text(s)) => crate::json::str_eq(s.as_str(), "active"),
        other => {
            proof {
                match other {
                    Some(v) => crate::json::lemma_view_variant(*v),
                    None => {},
                }
            }
            false
        },
    };
    if !active {
        return Err(AppError::Conflict("Game session has already reached an ending".to_owned()));
    }
    let e = match edge {
        None => return Err(AppError::NotFound(crate::text::concat("Game edge not found: ", edge_id))),
        Some(e) => e,
    };
    let current = current_node(session);
    let leaves = match e.get("source_node_id") {
        Some(Json::Text(s)) => crate::json::str_eq(s.as_str(), current.as_str()),
        other => {
            proof {
                match other {
                    Some(v) => crate::json::lemma_view_variant(*v),
                    None => {},
                }
            }
            false
        },
    };
    if !leaves {
        return Err(AppError::Conflict("The selected edge is not available from the current node".to_owned()));
    }
    let conditions = value_at(e, "conditions");
    let mut state = session_state(session);
    if !conditions_match(&state, &conditions) {
        return Err(AppError::Conflict("此前选择导致此选项不可用".to_owned()));
    }
    apply_state_changes(&mut state, &conditions);
    Ok(state)
}

fn current_node(session: &Json) -> (r: String)
    ensures
        r@ == current_of(session@),
{
    match session.get("current_node_id") {
        Some(Json::Text(id)) => id.clone(),
        other => {
            proof {
                match other {
                    Some(v) => crate::json::lemma_view_variant(*v),
                    None => {},
                }
            }
            String::new()
        },
    }
}

/// A target node ends the session when it is a success or failure ending;
/// a node without a type is a normal one.
pub open spec fn status_after(target: JsonView) -> Seq<char> {
    let kind = match target.get("node_type"@) {
        Some(JsonView::Text(k)) => k,
        _ => "normal"@,
    };
    if kind == "success"@ || kind == "failure"@ {
        "completed"@
    } else {
        "active"@
    }
}

/// The status a session takes when it reaches `target`.
pub fn session_status_after(target: &Json) -> (r: &'static str)
    ensures
        r@ == status_after(target@),
{
    let ending = match target.get("node_type") {
        Some(Json::Text(k)) => crate::json::str_eq(k.as_str(), "success") || crate::json::str_eq(k.as_str(), "failure"),
        other => {
            proof {
                match other {
                    Some(v) => crate::json::lemma_view_variant(*v),
                    None => {},
                }
            }
            false
        },
    };
    proof {
        reveal_strlit("normal");
        reveal_strlit("success");
        reveal_strlit("failure");
        reveal_strlit("active");
        reveal_strlit("completed");
        assert("normal"@.len() == 6 && "success"@.len() == 7 && "failure"@.len() == 7);
    }
    if ending {
        "completed"
    } else {
        "active"
    }
}

/// The choices a session recorded (`path_json`), or none when it holds no list.
pub open spec fn recorded_path(session: JsonView) -> Seq<JsonView> {
    let text = match session.get("path_json"@) {
        Some(JsonView::Text(s)) => s,
        _ => "[]"@,
    };
    match parsed_json(text) {
        Some(JsonView::Array(items)) => items,
        _ => Seq::empty(),
    }
}

/// The record a choice adds to a session's path.
pub open spec fn path_step(session: JsonView, edge: JsonView, edge_id: Seq<char>, target: JsonView, selected_at: Seq<char>) -> JsonView {
    JsonView::Object(seq![
        ("edge_id"@, JsonView::Text(edge_id)),
        ("source_node_id"@, JsonView::Text(current_of(session))),
        ("target_node_id"@, at(target, "id"@)),
        ("option_text"@, at(edge, "option_text"@)),
        ("state_changes"@, at(at(edge, "conditions"@), "set"@)),
        ("selected_at"@, JsonView::Text(selected_at)),
    ])
}

/// A session's path after it takes `edge` to `target` at `selected_at`.
pub fn extended_path(session: &Json, edge: &Json, edge_id: &str, target: &Json, selected_at: &str) -> (r: Vec<Json>)
    ensures
        view_items(r@) == recorded_path(session@).push(path_step(session@, edge@, edge_id@, target@, selected_at@)),
{
    let text = match session.get("path_json") {
        Some(Json::Text(s)) => s.as_str(),
        other => {
            proof {
                match other {
                    Some(v) => crate::json::lemma_view_variant(*v),
                    None => {},
                }
            }
            "[]"
        },
    };
    let mut path: Vec<Json> = match parse_json(text) {
        Some(Json::Array(items)) => items,
        other => {
            proof {
                match other {
                    Some(v) => crate::json::lemma_view_variant(v),
                    None => {},
                }
            }
            let empty: Vec<Json> = Vec::new();
            proof {
                crate::json::lemma_view_items(empty@);
            }
            empty
        },
    };
    let conditions = value_at(edge, "conditions");
    let entries: Vec<(String, Json)> = vec![
        ("edge_id".to_owned(), Json::Text(edge_id.to_owned())),
        ("source_node_id".to_owned(), Json::Text(current_node(session))),
        ("target_node_id".to_owned(), value_at(target, "id")),
        ("option_text".to_owned(), value_at(edge, "option_text")),
        ("state_changes".to_owned(), value_at(&conditions, "set")),
        ("selected_at".to_owned(), Json::Text(selected_at.to_owned())),
    ];
    proof {
        crate::json::lemma_view_entries(entries@);
        assert(crate::json::view_entries(entries@) =~= path_step(session@, edge@, edge_id@, target@, selected_at@)->Object_0);
    }
    let step = Json::Object(entries);
    proof {
        crate::json::lemma_view_items_push(path@, step);
    }
    path.push(step);
    path
}

/// A session that took a choice keeps playing exactly when the choice led
/// to a node that is no ending.
pub proof fn lemma_only_endings_complete_a_session(target: JsonView)
    ensures
        status_after(target) == "active"@ <==> !(target.get("node_type"@) == Some(JsonView::Text("success"@))
            || target.get("node_type"@) == Some(JsonView::Text("failure"@))),
{
    reveal_strlit("active");
    reveal_strlit("completed");
    reveal_strlit("normal");
    reveal_strlit("success");
    reveal_strlit("failure");
    assert("active"@.len() == 6 && "completed"@.len() == 9);
    assert("normal"@.len() == 6 && "success"@.len() == 7 && "failure"@.len() == 7);
}

} // verus!
