//! Choice state of an interactive-game session: the `requires` an edge asks
//! of the state, and the `set` changes a chosen edge records, so that a
//! decision still counts after two video paths merge.

use vstd::prelude::*;

use crate::error::{AppError, AppErrorView};
use crate::json::{
    duplicate, entry_get, entry_insert, insert_entry, json_eq, lookup, parse_json, parsed_json,
    str_eq, view_entries, Entries, Json, JsonView,
};
use crate::text::chars_of;

verus! {

/// A state key character: lower-case ASCII letter, ASCII digit or `_`.
pub open spec fn state_char(c: char) -> bool {
    ('a' <= c && c <= 'z') || ('0' <= c && c <= '9') || c == '_'
}

/// A snake_case state key of 1 to 64 characters.
pub open spec fn is_state_key(key: Seq<char>) -> bool {
    &&& 0 < key.len() <= 64
    &&& forall|i: int| 0 <= i < key.len() ==> #[trigger] state_char(key[i])
}

/// A state entry: a state key with a text, number or boolean value.
pub open spec fn state_entry(entry: (Seq<char>, JsonView)) -> bool {
    is_state_key(entry.0) && entry.1.is_scalar()
}

/// Every entry is a state entry.
pub open spec fn valid_entries(entries: Entries) -> bool {
    forall|i: int| 0 <= i < entries.len() ==> #[trigger] state_entry(entries[i])
}

/// A key that a conditions object may hold.
pub open spec fn condition_key(key: Seq<char>) -> bool {
    key == "requires"@ || key == "set"@
}

/// Every key is `requires` or `set`.
pub open spec fn condition_keys_only(entries: Entries) -> bool {
    forall|i: int| 0 <= i < entries.len() ==> #[trigger] condition_key(entries[i].0)
}

/// The error for one part (`requires` or `set`) of a conditions object, if any.
pub open spec fn part_error(part: Option<JsonView>, not_object: Seq<char>) -> Option<AppErrorView> {
    match part {
        None => None,
        Some(JsonView::Object(entries)) => if valid_entries(entries) {
            None
        } else {
            Some(AppErrorView::BadRequest("状态键须为 snake_case，状态值须为字符串、数字或布尔值"@))
        },
        Some(_) => Some(AppErrorView::BadRequest(not_object)),
    }
}

/// What saving an edge's conditions answers: the conditions unchanged (an
/// empty object when there are none), or the first rule they break.
pub open spec fn checked_conditions(value: Option<JsonView>) -> Result<JsonView, AppErrorView> {
    match value {
        None => Ok(JsonView::Object(Seq::empty())),
        Some(JsonView::Object(entries)) => if !condition_keys_only(entries) {
            Err(AppErrorView::BadRequest("conditions 仅支持 requires 和 set"@))
        } else {
            match part_error(lookup(entries, "requires"@), "conditions.requires 必须是对象"@) {
                Some(e) => Err(e),
                None => match part_error(lookup(entries, "set"@), "conditions.set 必须是对象"@) {
                    Some(e) => Err(e),
                    None => Ok(JsonView::Object(entries)),
                },
            }
        },
        Some(_) => Err(AppErrorView::BadRequest("conditions 必须是对象"@)),
    }
}

pub open spec fn json_result(r: Result<Json, AppError>) -> Result<JsonView, AppErrorView> {
    match r {
        Ok(j) => Ok(j@),
        Err(e) => Err(e@),
    }
}

pub open spec fn opt_ref_json(o: Option<&Json>) -> Option<JsonView> {
    match o {
        Some(j) => Some(j@),
        None => None,
    }
}

/// Whether every requirement of an edge holds in the session state.
pub open spec fn requirements_hold(state: JsonView, conditions: JsonView) -> bool {
    match conditions.get("requires"@) {
        None => true,
        Some(JsonView::Object(rules)) => forall|i: int|
            0 <= i < rules.len() ==> #[trigger] state.get(rules[i].0) == Some(rules[i].1),
        Some(_) => false,
    }
}

/// Entries after storing each change in turn.
pub open spec fn apply_changes(entries: Entries, changes: Entries) -> Entries
    decreases changes.len(),
{
    if changes.len() == 0 {
        entries
    } else {
        insert_entry(apply_changes(entries, changes.drop_last()), changes.last().0, changes.last().1)
    }
}

/// The session state after a chosen edge records its `set` changes.
pub open spec fn applied_state(state: JsonView, conditions: JsonView) -> JsonView {
    match conditions.get("set"@) {
        Some(JsonView::Object(changes)) => match state {
            JsonView::Object(entries) => JsonView::Object(apply_changes(entries, changes)),
            _ => state,
        },
        _ => state,
    }
}

/// No key occurs twice.
pub open spec fn distinct_keys(entries: Entries) -> bool {
    forall|i: int, j: int| 0 <= i < j < entries.len() ==> entries[i].0 != entries[j].0
}

/// A key that no change names keeps its value.
pub proof fn lemma_untouched_key_keeps_value(entries: Entries, changes: Entries, key: Seq<char>)
    requires
        forall|i: int| 0 <= i < changes.len() ==> #[trigger] changes[i].0 != key,
    ensures
        lookup(apply_changes(entries, changes), key) == lookup(entries, key),
    decreases changes.len(),
{
    if changes.len() > 0 {
        let rest = changes.drop_last();
        assert forall|i: int| 0 <= i < rest.len() implies #[trigger] rest[i].0 != key by {
            assert(rest[i] == changes[i]);
        }
        lemma_untouched_key_keeps_value(entries, rest, key);
        crate::json::lemma_insert_entry(apply_changes(entries, rest), changes.last().0, changes.last().1);
        assert(changes[changes.len() - 1].0 != key);
    }
}

/// Every change reads back the value it stored, when the changes name distinct keys.
pub proof fn lemma_changed_key_reads_back(entries: Entries, changes: Entries, i: int)
    requires
        distinct_keys(changes),
        0 <= i < changes.len(),
    ensures
        lookup(apply_changes(entries, changes), changes[i].0) == Some(changes[i].1),
    decreases changes.len(),
{
    let rest = changes.drop_last();
    let last = changes.len() - 1;
    crate::json::lemma_insert_entry(apply_changes(entries, rest), changes[last].0, changes[last].1);
    if i < last {
        assert(rest[i] == changes[i]);
        assert(changes[i].0 != changes[last].0);
        assert forall|a: int, b: int| 0 <= a < b < rest.len() implies rest[a].0 != rest[b].0 by {
            assert(rest[a] == changes[a] && rest[b] == changes[b]);
        }
        lemma_changed_key_reads_back(entries, rest, i);
    }
}

/// After a choice records its `set` changes, an edge that requires exactly
/// those values is open: a decision is still seen after the paths merge.
pub proof fn lemma_recorded_choice_satisfies_same_requirements(
    state: JsonView,
    conditions: JsonView,
    changes: Entries,
)
    requires
        state is Object,
        conditions.get("set"@) == Some(JsonView::Object(changes)),
        distinct_keys(changes),
    ensures
        requirements_hold(
            applied_state(state, conditions),
            JsonView::Object(seq![("requires"@, JsonView::Object(changes))]),
        ),
{
    let entries = state->Object_0;
    let req = JsonView::Object(seq![("requires"@, JsonView::Object(changes))]);
    assert(req.get("requires"@) == Some(JsonView::Object(changes)));
    assert forall|i: int| 0 <= i < changes.len() implies #[trigger] applied_state(state, conditions).get(changes[i].0) == Some(changes[i].1) by {
        lemma_changed_key_reads_back(entries, changes, i);
    }
}

/// Whether `key` is a snake_case state key: non-empty, at most 64 long, and
/// made of lower-case ASCII letters, digits and `_`.
pub fn valid_state_key(value: &str) -> (r: bool)
    ensures
        r == is_state_key(value@),
{
    let chars = chars_of(value);
    if chars.len() == 0 || chars.len() > 64 {
        return false;
    }
    let mut i: usize = 0;
    while i < chars.len()
        invariant
            i <= chars.len(),
            chars@ == value@,
            forall|j: int| 0 <= j < i ==> #[trigger] state_char(chars@[j]),
        decreases chars.len() - i,
    {
        let c = chars[i];
        if !(('a' <= c && c <= 'z') || ('0' <= c && c <= '9') || c == '_') {
            assert(!state_char(value@[i as int]));
            return false;
        }
        i += 1;
    }
    true
}

/// Whether a state value is a text, a number or a boolean.
pub fn valid_state_value(value: &Json) -> (r: bool)
    ensures
        r == value@.is_scalar(),
{
    proof {
        crate::json::lemma_view_variant(*value);
    }
    match value {
        Json::Text(_) | Json::Int(_) | Json::Number(_) | Json::Bool(_) => true,
        _ => false,
    }
}

fn valid_state_entries(entries: &Vec<(String, Json)>) -> (r: bool)
    ensures
        r == valid_entries(view_entries(entries@)),
{
    proof {
        crate::json::lemma_view_entries(entries@);
    }
    let ghost e = view_entries(entries@);
    let mut i: usize = 0;
    while i < entries.len()
        invariant
            i <= entries.len(),
            e == view_entries(entries@),
            e.len() == entries.len(),
            forall|k: int| 0 <= k < entries.len() ==> #[trigger] e[k] == (entries@[k].0@, entries@[k].1@),
            forall|k: int| 0 <= k < i ==> #[trigger] state_entry(e[k]),
        decreases entries.len() - i,
    {
        if !valid_state_key(entries[i].0.as_str()) || !valid_state_value(&entries[i].1) {
            assert(!state_entry(e[i as int]));
            return false;
        }
        i += 1;
    }
    true
}

fn check_part(part: Option<&Json>, not_object: &str) -> (r: Option<AppError>)
    ensures
        match r {
            Some(e) => part_error(opt_ref_json(part), not_object@) == Some(e@),
            None => part_error(opt_ref_json(part), not_object@) is None,
        },
{
    match part {
        None => None,
        Some(value) => {
            proof {
                crate::json::lemma_view_variant(*value);
            }
            match value {
                Json::Object(entries) => if valid_state_entries(entries) {
                    None
                } else {
                    Some(AppError::bad_request("状态键须为 snake_case，状态值须为字符串、数字或布尔值"))
                },
                _ => Some(AppError::bad_request(not_object)),
            }
        },
    }
}

/// Check the state contract of an edge before a creator saves it: at most
/// the keys `requires` and `set`, each an object of snake_case keys with
/// text, number or boolean values. Missing conditions are an empty object.
pub fn normalize_edge_conditions(value: Option<&Json>) -> (r: Result<Json, AppError>)
    ensures
        json_result(r) == checked_conditions(opt_ref_json(value)),
{
    let doc = match value {
        None => {
            let empty: Vec<(String, Json)> = Vec::new();
            proof {
                assert(view_entries(empty@) =~= Seq::empty());
            }
            return Ok(Json::Object(empty));
        },
        Some(v) => v,
    };
    proof {
        crate::json::lemma_view_variant(*doc);
    }
    let entries = match doc {
        Json::Object(entries) => entries,
        _ => {
            return Err(AppError::bad_request("conditions 必须是对象"));
        },
    };
    proof {
        crate::json::lemma_view_entries(entries@);
    }
    let ghost e = view_entries(entries@);
    let mut i: usize = 0;
    while i < entries.len()
        invariant
            i <= entries.len(),
            e == view_entries(entries@),
            e.len() == entries.len(),
            value == Some(doc),
            doc@ == JsonView::Object(e),
            forall|k: int| 0 <= k < entries.len() ==> #[trigger] e[k] == (entries@[k].0@, entries@[k].1@),
            forall|k: int| 0 <= k < i ==> #[trigger] condition_key(e[k].0),
        decreases entries.len() - i,
    {
        let key = entries[i].0.as_str();
        if !str_eq(key, "requires") && !str_eq(key, "set") {
            assert(!condition_key(e[i as int].0));
            return Err(AppError::bad_request("conditions 仅支持 requires 和 set"));
        }
        i += 1;
    }
    if let Some(error) = check_part(entry_get(entries, "requires"), "conditions.requires 必须是对象") {
        return Err(error);
    }
    if let Some(error) = check_part(entry_get(entries, "set"), "conditions.set 必须是对象") {
        return Err(error);
    }
    Ok(duplicate(doc))
}

/// Whether every requirement that an edge attaches holds in the session state.
pub fn conditions_match(state: &Json, conditions: &Json) -> (r: bool)
    ensures
        r == requirements_hold(state@, conditions@),
{
    let rule_object = match conditions.get("requires") {
        None => {
            return true;
        },
        Some(r) => r,
    };
    proof {
        crate::json::lemma_view_variant(*rule_object);
    }
    let rules = match rule_object {
        Json::Object(rules) => rules,
        _ => {
            return false;
        },
    };
    proof {
        crate::json::lemma_view_entries(rules@);
    }
    let ghost e = view_entries(rules@);
    let mut i: usize = 0;
    while i < rules.len()
        invariant
            i <= rules.len(),
            e == view_entries(rules@),
            e.len() == rules.len(),
            conditions@.get("requires"@) == Some(JsonView::Object(e)),
            forall|k: int| 0 <= k < rules.len() ==> #[trigger] e[k] == (rules@[k].0@, rules@[k].1@),
            forall|k: int| 0 <= k < i ==> #[trigger] state@.get(e[k].0) == Some(e[k].1),
        decreases rules.len() - i,
    {
        let holds = match state.get(rules[i].0.as_str()) {
            Some(current) => json_eq(current, &rules[i].1),
            None => false,
        };
        if !holds {
            assert(state@.get(e[i as int].0) != Some(e[i as int].1));
            return false;
        }
        i += 1;
    }
    true
}

/// Record the `set` changes of a chosen edge in the session state.
pub fn apply_state_changes(state: &mut Json, conditions: &Json)
    requires
        old(state)@ is Object,
    ensures
        final(state)@ == applied_state(old(state)@, conditions@),
{
    let changes = match conditions.get("set") {
        Some(Json::Object(changes)) => changes,
        other => {
            proof {
                match other {
                    Some(v) => crate::json::lemma_view_variant(*v),
                    None => {},
                }
            }
            return;
        },
    };
    proof {
        crate::json::lemma_view_entries(changes@);
    }
    let ghost ch = view_entries(changes@);
    match state {
        Json::Object(entries) => {
            let ghost start = view_entries(entries@);
            let mut i: usize = 0;
            while i < changes.len()
                invariant
                    i <= changes.len(),
                    ch == view_entries(changes@),
                    ch.len() == changes.len(),
                    forall|k: int| 0 <= k < changes.len() ==> #[trigger] ch[k] == (changes@[k].0@, changes@[k].1@),
                    view_entries(entries@) == apply_changes(start, ch.subrange(0, i as int)),
                decreases changes.len() - i,
            {
                let value = duplicate(&changes[i].1);
                entry_insert(entries, changes[i].0.clone(), value);
                proof {
                    let next = ch.subrange(0, i + 1);
                    assert(next.drop_last() =~= ch.subrange(0, i as int));
                    assert(next.last() == ch[i as int]);
                }
                i += 1;
            }
            proof {
                assert(ch.subrange(0, changes.len() as int) =~= ch);
            }
        },
        _ => {},
    }
}

/// The state that previous choices recorded in a session (`state_json`),
/// or an empty object for a session that recorded none or holds no object.
pub open spec fn recorded_state(session: JsonView) -> JsonView {
    let text = match session.get("state_json"@) {
        Some(JsonView::Text(s)) => s,
        _ => "{}"@,
    };
    match parsed_json(text) {
        Some(JsonView::Object(entries)) => JsonView::Object(entries),
        _ => JsonView::Object(Seq::empty()),
    }
}

/// Recover the state that previous choices recorded in a session.
pub fn session_state(session: &Json) -> (r: Json)
    ensures
        r@ == recorded_state(session@),
{
    let text = match session.get("state_json") {
        Some(Json::Text(s)) => s.as_str(),
        other => {
            proof {
                match other {
                    Some(v) => crate::json::lemma_view_variant(*v),
                    None => {},
                }
            }
            "{}"
        },
    };
    match parse_json(text) {
        Some(Json::Object(entries)) => Json::Object(entries),
        other => {
            proof {
                match other {
                    Some(v) => crate::json::lemma_view_variant(v),
                    None => {},
                }
            }
            let empty: Vec<(String, Json)> = Vec::new();
            proof {
                assert(view_entries(empty@) =~= Seq::empty());
            }
            Json::Object(empty)
        },
    }
}

} // verus!
