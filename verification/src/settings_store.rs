//! Object-storage settings as they are saved and shown: a saved form keeps
//! credentials the form leaves blank, and the shown settings say which
//! credentials are set.

use vstd::prelude::*;

use crate::error::{AppError, AppErrorView};
use crate::forms::{text_at, text_value};
use crate::json::{copy_entries, duplicate, entry_get, entry_insert, insert_entry, lookup, view_entries, Entries, Json, JsonView};

verus! {

/// The entries of an object, or none for any other value.
pub open spec fn entries_of(value: JsonView) -> Entries {
    match value {
        JsonView::Object(e) => e,
        _ => Seq::empty(),
    }
}

/// Whether a submitted field is saved: a credential that is blank or not a
/// text is left as it was.
pub open spec fn saved_field(entry: (Seq<char>, JsonView)) -> bool {
    !((entry.0 == "secret_id"@ || entry.0 == "secret_key"@) && match entry.1 {
        JsonView::Text(s) => s.len() == 0,
        _ => true,
    })
}

/// The saved settings with the submitted fields stored over them, in turn.
pub open spec fn merged(stored: Entries, values: Entries) -> Entries
    decreases values.len(),
{
    if values.len() == 0 {
        stored
    } else {
        let before = merged(stored, values.drop_last());
        let e = values.last();
        if saved_field(e) {
            insert_entry(before, e.0, e.1)
        } else {
            before
        }
    }
}

/// The settings with `value` under `key` when they hold nothing there.
pub open spec fn with_default(entries: Entries, key: Seq<char>, value: JsonView) -> Entries {
    if lookup(entries, key) is Some {
        entries
    } else {
        insert_entry(entries, key, value)
    }
}

/// The storage vendors a creator can choose.
pub open spec fn storage_provider(p: Seq<char>) -> bool {
    p == "local"@ || p == "tos"@ || p == "cos"@ || p == "oss"@
}

/// The storage settings a form saves over `previous`, or why it is refused.
pub open spec fn storage_candidate_of(values: Entries, previous: JsonView) -> Result<Entries, AppErrorView> {
    let provider = text_at(values, "provider"@, "local"@);
    if !storage_provider(provider) {
        Err(AppErrorView::BadRequest("不支持的存储服务商"@))
    } else {
        Ok(with_default(
            insert_entry(merged(entries_of(previous), values), "provider"@, JsonView::Text(provider)),
            "prefix"@,
            JsonView::Text("media"@),
        ))
    }
}

fn set_default(entries: &mut Vec<(String, Json)>, key: &str, value: Json)
    ensures
        view_entries(final(entries)@) == with_default(view_entries(old(entries)@), key@, value@),
{
    if entry_get(entries, key).is_none() {
        entry_insert(entries, key.to_owned(), value);
    }
}

fn object_entries(value: &Json) -> (r: Vec<(String, Json)>)
    ensures
        view_entries(r@) == entries_of(value@),
{
    match value {
        Json::Object(e) => copy_entries(e),
        _ => {
            let empty: Vec<(String, Json)> = Vec::new();
            proof {
                crate::json::lemma_view_entries(empty@);
                assert(view_entries(empty@) =~= Seq::<(Seq<char>, JsonView)>::empty());
            }
            empty
        },
    }
}

/// The storage settings a form saves over the saved ones (`previous`).
pub fn storage_candidate(values: &Vec<(String, Json)>, previous: &Json) -> (r: Result<Vec<(String, Json)>, AppError>)
    ensures
        crate::settings_import::entries_result(r) == storage_candidate_of(view_entries(values@), previous@),
{
    let provider = text_value(values, "provider", "local");
    let p = provider.as_str();
    if !(crate::json::str_eq(p, "local") || crate::json::str_eq(p, "tos") || crate::json::str_eq(p, "cos") || crate::json::str_eq(p, "oss")) {
        return Err(AppError::bad_request("不支持的存储服务商"));
    }
    let mut stored = object_entries(previous);
    proof {
        crate::json::lemma_view_entries(values@);
    }
    let ghost vs = view_entries(values@);
    let ghost start = view_entries(stored@);
    let mut i: usize = 0;
    proof {
        assert(vs.subrange(0, 0) =~= Seq::<(Seq<char>, JsonView)>::empty());
    }
    while i < values.len()
        invariant
            i <= values.len(),
            vs == view_entries(values@),
            vs.len() == values.len(),
            forall|k: int| 0 <= k < values.len() ==> #[trigger] vs[k] == (values@[k].0@, values@[k].1@),
            view_entries(stored@) == merged(start, vs.subrange(0, i as int)),
        decreases values.len() - i,
    {
        proof {
            let next = vs.subrange(0, i + 1);
            assert(next.drop_last() =~= vs.subrange(0, i as int));
            assert(next.last() == vs[i as int]);
            crate::json::lemma_view_variant(values@[i as int].1);
        }
        let key = values[i].0.as_str();
        let secret = crate::json::str_eq(key, "secret_id") || crate::json::str_eq(key, "secret_key");
        let blank = match &values[i].1 {
            Json::Text(s) => crate::forms::char_count(s.as_str()) == 0,
            _ => true,
        };
        if !(secret && blank) {
            entry_insert(&mut stored, values[i].0.clone(), duplicate(&values[i].1));
        }
        i += 1;
    }
    proof {
        assert(vs.subrange(0, values.len() as int) =~= vs);
    }
    entry_insert(&mut stored, "provider".to_owned(), Json::Text(provider));
    set_default(&mut stored, "prefix", Json::Text("media".to_owned()));
    Ok(stored)
}

/// Whether a credential holds a text that is not empty.
pub open spec fn configured(entries: Entries, key: Seq<char>) -> bool {
    match lookup(entries, key) {
        Some(JsonView::Text(s)) => s.len() > 0,
        _ => false,
    }
}

/// The storage settings as they are shown: the saved settings with the
/// local vendor and the `media` prefix when none is saved, and whether each
/// credential is set.
pub open spec fn public_storage_of(config: JsonView) -> Entries {
    let shown = with_default(with_default(entries_of(config), "provider"@, JsonView::Text("local"@)), "prefix"@, JsonView::Text("media"@));
    let flagged = insert_entry(shown, "secret_id_set"@, JsonView::Bool(configured(shown, "secret_id"@)));
    insert_entry(flagged, "secret_key_set"@, JsonView::Bool(configured(flagged, "secret_key"@)))
}

fn credential_set(entries: &Vec<(String, Json)>, key: &str) -> (r: bool)
    ensures
        r == configured(view_entries(entries@), key@),
{
    match entry_get(entries, key) {
        Some(Json::Text(s)) => crate::forms::char_count(s.as_str()) > 0,
        other => {
            proof {
                match other {
                    Some(v) => crate::json::lemma_view_variant(*v),
                    None => {},
                }
            }
            false
        },
    }
}

/// The storage settings as the settings page shows them.
pub fn public_storage(config: &Json) -> (r: Vec<(String, Json)>)
    ensures
        view_entries(r@) == public_storage_of(config@),
{
    let mut shown = object_entries(config);
    set_default(&mut shown, "provider", Json::Text("local".to_owned()));
    set_default(&mut shown, "prefix", Json::Text("media".to_owned()));
    let id_set = credential_set(&shown, "secret_id");
    entry_insert(&mut shown, "secret_id_set".to_owned(), Json::Bool(id_set));
    let key_set = credential_set(&shown, "secret_key");
    entry_insert(&mut shown, "secret_key_set".to_owned(), Json::Bool(key_set));
    shown
}

proof fn lemma_unsaved_key_kept(stored: Entries, values: Entries, key: Seq<char>)
    requires
        forall|i: int| 0 <= i < values.len() && #[trigger] values[i].0 == key ==> !saved_field(values[i]),
    ensures
        lookup(merged(stored, values), key) == lookup(stored, key),
    decreases values.len(),
{
    if values.len() > 0 {
        let init = values.drop_last();
        assert forall|i: int| 0 <= i < init.len() && #[trigger] init[i].0 == key implies !saved_field(init[i]) by {
            assert(init[i] == values[i]);
        }
        lemma_unsaved_key_kept(stored, init, key);
        let e = values.last();
        if saved_field(e) {
            assert(values[values.len() - 1] == e);
            crate::json::lemma_insert_entry(merged(stored, init), e.0, e.1);
        }
    }
}

/// A storage form that leaves a credential blank (or gives none) keeps the
/// saved credential.
pub proof fn lemma_blank_credentials_are_kept(values: Entries, previous: JsonView, key: Seq<char>)
    requires
        key == "secret_id"@ || key == "secret_key"@,
        storage_provider(text_at(values, "provider"@, "local"@)),
        forall|i: int| 0 <= i < values.len() && #[trigger] values[i].0 == key ==> !saved_field(values[i]),
    ensures
        storage_candidate_of(values, previous) matches Ok(c) && lookup(c, key) == lookup(entries_of(previous), key),
{
    reveal_strlit("secret_id");
    reveal_strlit("secret_key");
    reveal_strlit("provider");
    reveal_strlit("prefix");
    lemma_unsaved_key_kept(entries_of(previous), values, key);
    let provider = text_at(values, "provider"@, "local"@);
    let m = merged(entries_of(previous), values);
    crate::json::lemma_insert_entry(m, "provider"@, JsonView::Text(provider));
    let p = insert_entry(m, "provider"@, JsonView::Text(provider));
    assert("secret_id"@.len() == 9 && "secret_key"@.len() == 10);
    assert("provider"@.len() == 8 && "prefix"@.len() == 6);
    assert(key != "provider"@);
    assert(key != "prefix"@);
    crate::json::lemma_insert_entry(p, "prefix"@, JsonView::Text("media"@));
}

} // verus!
