//! Adding or editing a choice edge of an interactive game: what a new edge
//! holds, the route an edited edge takes and the fields an edit stores.

use vstd::prelude::*;

use crate::error::{AppError, AppErrorView};
use crate::game_state::{checked_conditions, normalize_edge_conditions};
use crate::json::{entry_get, lookup, text_or, view_entries, Entries, Json, JsonView};
use crate::project_settings::{ColumnValue, ColumnValueView};

verus! {

/// What an edit of an edge does: the route the edge takes afterwards,
/// whether the edit moves it, and the fields it stores, in order.
#[derive(Debug)]
pub struct EdgeEdit {
    pub source: String,
    pub target: String,
    pub changes_route: bool,
    pub updates: Vec<(String, ColumnValue)>,
}

pub struct EdgeEditView {
    pub source: Seq<char>,
    pub target: Seq<char>,
    pub changes_route: bool,
    pub updates: Seq<(Seq<char>, ColumnValueView)>,
}

/// The text an edit gives a field, as a stored field.
pub open spec fn text_update(values: Entries, key: Seq<char>) -> Seq<(Seq<char>, ColumnValueView)> {
    match lookup(values, key) {
        Some(JsonView::Text(s)) => seq![(key, ColumnValueView::Text(s))],
        _ => Seq::empty(),
    }
}

/// The fields an edit of an edge stores: its texts, its order, and its
/// checked conditions when it gives any.
pub open spec fn edge_updates_of(values: Entries, conditions: Option<JsonView>) -> Seq<(Seq<char>, ColumnValueView)> {
    text_update(values, "source_node_id"@) + text_update(values, "target_node_id"@)
        + text_update(values, "option_text"@) + match lookup(values, "sort_order"@) {
        Some(JsonView::Int(i)) => seq![("sort_order"@, ColumnValueView::Integer(i))],
        _ => Seq::empty(),
    } + match conditions {
        Some(c) => seq![("conditions_json"@, ColumnValueView::Document(c))],
        None => Seq::empty(),
    }
}

/// The end of an edge after an edit: the one the edit gives, else the current one.
pub open spec fn route_end(current: JsonView, values: Entries, key: Seq<char>) -> Seq<char> {
    match lookup(values, key) {
        Some(JsonView::Text(s)) => s,
        _ => text_or(current, key, ""@),
    }
}

/// What an edit of the edge `current` does, or why its conditions are refused.
pub open spec fn edge_edit_of(current: JsonView, values: Entries) -> Result<EdgeEditView, AppErrorView> {
    let conditions = match lookup(values, "conditions"@) {
        Some(v) => match checked_conditions(Some(v)) {
            Err(e) => Err(e),
            Ok(c) => Ok(Some(c)),
        },
        None => Ok(None),
    };
    match conditions {
        Err(e) => Err(e),
        Ok(c) => Ok(EdgeEditView {
            source: route_end(current, values, "source_node_id"@),
            target: route_end(current, values, "target_node_id"@),
            changes_route: lookup(values, "source_node_id"@) is Some || lookup(values, "target_node_id"@) is Some,
            updates: edge_updates_of(values, c),
        }),
    }
}

pub open spec fn edge_edit_result(r: Result<EdgeEdit, AppError>) -> Result<EdgeEditView, AppErrorView> {
    match r {
        Ok(e) => Ok(EdgeEditView {
            source: e.source@,
            target: e.target@,
            changes_route: e.changes_route,
            updates: crate::project_settings::updates_view(e.updates@),
        }),
        Err(e) => Err(e@),
    }
}

fn push_text_update(updates: &mut Vec<(String, ColumnValue)>, values: &Vec<(String, Json)>, key: &str)
    ensures
        crate::project_settings::updates_view(final(updates)@)
            == crate::project_settings::updates_view(old(updates)@) + text_update(view_entries(values@), key@),
{
    let ghost before = crate::project_settings::updates_view(updates@);
    match entry_get(values, key) {
        Some(Json::Text(s)) => {
            updates.push((key.to_owned(), ColumnValue::Text(s.clone())));
            proof {
                assert(crate::project_settings::updates_view(updates@) =~= before + text_update(view_entries(values@), key@));
            }
        },
        other => {
            proof {
                match other {
                    Some(v) => crate::json::lemma_view_variant(*v),
                    None => {},
                }
                assert(before + text_update(view_entries(values@), key@) =~= before);
            }
        },
    }
}

fn route_end_of(current: &Json, values: &Vec<(String, Json)>, key: &str) -> (r: String)
    ensures
        r@ == route_end(current@, view_entries(values@), key@),
{
    match entry_get(values, key) {
        Some(Json::Text(s)) => s.clone(),
        other => {
            proof {
                match other {
                    Some(v) => crate::json::lemma_view_variant(*v),
                    None => {},
                }
            }
            current.text_or(key, "")
        },
    }
}

/// Read an edit of the edge `current`.
pub fn edge_edit(current: &Json, values: &Vec<(String, Json)>) -> (r: Result<EdgeEdit, AppError>)
    ensures
        edge_edit_result(r) == edge_edit_of(current@, view_entries(values@)),
{
    let conditions = match entry_get(values, "conditions") {
        Some(v) => Some(normalize_edge_conditions(Some(v))?),
        None => None,
    };
    let mut updates: Vec<(String, ColumnValue)> = Vec::new();
    proof {
        assert(crate::project_settings::updates_view(updates@) =~= Seq::<(Seq<char>, ColumnValueView)>::empty());
    }
    push_text_update(&mut updates, values, "source_node_id");
    push_text_update(&mut updates, values, "target_node_id");
    push_text_update(&mut updates, values, "option_text");
    let ghost texts = crate::project_settings::updates_view(updates@);
    match entry_get(values, "sort_order") {
        Some(Json::Int(i)) => {
            updates.push(("sort_order".to_owned(), ColumnValue::Integer(*i)));
            proof {
                assert(crate::project_settings::updates_view(updates@) =~= texts + seq![("sort_order"@, ColumnValueView::Integer(*i))]);
            }
        },
        other => {
            proof {
                match other {
                    Some(v) => crate::json::lemma_view_variant(*v),
                    None => {},
                }
            }
        },
    }
    let ghost ordered = crate::project_settings::updates_view(updates@);
    match conditions {
        Some(c) => {
            let ghost cv = c@;
            updates.push(("conditions_json".to_owned(), ColumnValue::Document(c)));
            proof {
                assert(crate::project_settings::updates_view(updates@) =~= ordered + seq![("conditions_json"@, ColumnValueView::Document(cv))]);
            }
        },
        None => {},
    }
    proof {
        assert(crate::project_settings::updates_view(updates@) =~= edge_updates_of(
            view_entries(values@),
            match lookup(view_entries(values@), "conditions"@) {
                Some(v) => Some(checked_conditions(Some(v))->Ok_0),
                None => None,
            },
        ));
    }
    let changes_route = entry_get(values, "source_node_id").is_some() || entry_get(values, "target_node_id").is_some();
    Ok(EdgeEdit {
        source: route_end_of(current, values, "source_node_id"),
        target: route_end_of(current, values, "target_node_id"),
        changes_route,
        updates,
    })
}

/// A new choice edge as a creator submits it.
#[derive(Debug)]
pub struct EdgeForm {
    pub source: String,
    pub target: String,
    pub option_text: String,
    pub sort_order: i64,
    pub conditions: Json,
}

pub struct EdgeFormView {
    pub source: Seq<char>,
    pub target: Seq<char>,
    pub option_text: Seq<char>,
    pub sort_order: i64,
    pub conditions: JsonView,
}

/// A new choice edge, or why it is refused: its conditions must pass their
/// check, and it needs both ends and an option text; its order is 1 unless given.
pub open spec fn edge_form_of(values: Entries) -> Result<EdgeFormView, AppErrorView> {
    let source = crate::forms::text_at(values, "source_node_id"@, ""@);
    let target = crate::forms::text_at(values, "target_node_id"@, ""@);
    let option = crate::forms::text_at(values, "option_text"@, ""@);
    match checked_conditions(lookup(values, "conditions"@)) {
        Err(e) => Err(e),
        Ok(c) => if source.len() == 0 || target.len() == 0 || option.len() == 0 {
            Err(AppErrorView::BadRequest("请选择节点并填写选项文案"@))
        } else {
            Ok(EdgeFormView {
                source,
                target,
                option_text: option,
                sort_order: match lookup(values, "sort_order"@) {
                    Some(JsonView::Int(i)) => i,
                    _ => 1,
                },
                conditions: c,
            })
        },
    }
}

pub open spec fn edge_form_result(r: Result<EdgeForm, AppError>) -> Result<EdgeFormView, AppErrorView> {
    match r {
        Ok(f) => Ok(EdgeFormView {
            source: f.source@,
            target: f.target@,
            option_text: f.option_text@,
            sort_order: f.sort_order,
            conditions: f.conditions@,
        }),
        Err(e) => Err(e@),
    }
}

/// Read a new choice edge.
pub fn edge_form(values: &Vec<(String, Json)>) -> (r: Result<EdgeForm, AppError>)
    ensures
        edge_form_result(r) == edge_form_of(view_entries(values@)),
{
    let source = crate::forms::text_value(values, "source_node_id", "");
    let target = crate::forms::text_value(values, "target_node_id", "");
    let option_text = crate::forms::text_value(values, "option_text", "");
    let conditions = normalize_edge_conditions(entry_get(values, "conditions"))?;
    if crate::forms::char_count(source.as_str()) == 0 || crate::forms::char_count(target.as_str()) == 0
        || crate::forms::char_count(option_text.as_str()) == 0 {
        return Err(AppError::bad_request("请选择节点并填写选项文案"));
    }
    let sort_order = match entry_get(values, "sort_order") {
        Some(Json::Int(i)) => *i,
        other => {
            proof {
                match other {
                    Some(v) => crate::json::lemma_view_variant(*v),
                    None => {},
                }
            }
            1
        },
    };
    Ok(EdgeForm { source, target, option_text, sort_order, conditions })
}

} // verus!
