//! The compact records the editor and the project library show: shots with
//! their versions, the selected shot in full, and project cards.

use vstd::prelude::*;

use crate::json::{entry_insert, insert_entry, view_entries, view_items, Entries, Json, JsonView};
use crate::placeholder::{at, has_text, value_at};
use crate::text::chars_of;

verus! {

/// The fields of a video version that the editor lists.
pub open spec fn version_keys() -> Seq<Seq<char>> {
    seq![
        "id"@,
        "version_no"@,
        "task_id"@,
        "status"@,
        "provider_task_id"@,
        "progress"@,
        "refinement_prompt"@,
        "video_url"@,
        "error_message"@,
        "is_selected_for_export"@,
        "created_at"@,
        "completed_at"@,
    ]
}

/// A version as the editor lists it: each listed field, `null` when missing.
pub open spec fn version_card(version: JsonView) -> JsonView {
    JsonView::Object(Seq::new(version_keys().len(), |i: int| (version_keys()[i], at(version, version_keys()[i]))))
}

/// A version as the editor lists it.
pub fn editor_version(version: &Json) -> (r: Json)
    ensures
        r@ == version_card(version@),
{
    let keys = vec![
        "id",
        "version_no",
        "task_id",
        "status",
        "provider_task_id",
        "progress",
        "refinement_prompt",
        "video_url",
        "error_message",
        "is_selected_for_export",
        "created_at",
        "completed_at",
    ];
    proof {
        assert(crate::skills::strs_view(keys@) =~= version_keys());
    }
    let mut entries: Vec<(String, Json)> = Vec::new();
    let mut i: usize = 0;
    while i < keys.len()
        invariant
            i <= keys.len(),
            crate::skills::strs_view(keys@) == version_keys(),
            view_entries(entries@) == version_card(version@)->Object_0.subrange(0, i as int),
        decreases keys.len() - i,
    {
        let key = keys[i];
        let value = value_at(version, key);
        let ghost before = entries@;
        let pair = (key.to_owned(), value);
        proof {
            assert(key@ == version_keys()[i as int]);
            crate::json::lemma_view_entries_push(before, pair);
        }
        entries.push(pair);
        proof {
            assert(view_entries(entries@) =~= version_card(version@)->Object_0.subrange(0, i + 1));
        }
        i += 1;
    }
    proof {
        assert(version_card(version@)->Object_0.subrange(0, 12) =~= version_card(version@)->Object_0);
    }
    Json::Object(entries)
}

/// The versions of a shot as the editor lists them.
pub open spec fn version_cards(shot: JsonView) -> Seq<JsonView> {
    let versions = crate::game_materials::array_at(shot, "versions"@);
    Seq::new(versions.len(), |i: int| version_card(versions[i]))
}

/// The original text shown for a shot that is not selected: its first 600
/// characters, with an ellipsis when there are more.
pub open spec fn text_preview(text: Seq<char>) -> Seq<char> {
    if text.len() > 600 {
        text.take(600) + "…"@
    } else {
        text
    }
}

/// A shot as the editor shows it: the selected shot in full with its listed
/// versions, any other shot as a summary.
pub open spec fn editor_card(shot: JsonView, selected: Seq<char>) -> JsonView {
    if shot.get("id"@) == Some(JsonView::Text(selected)) {
        JsonView::Object(insert_entry(shot->Object_0, "versions"@, JsonView::Array(version_cards(shot))))
    } else {
        JsonView::Object(seq![
            ("id"@, at(shot, "id"@)),
            ("episode_id"@, at(shot, "episode_id"@)),
            ("episode_name"@, at(shot, "episode_name"@)),
            ("episode_sort_order"@, at(shot, "episode_sort_order"@)),
            ("shot_index"@, at(shot, "shot_index"@)),
            ("title"@, at(shot, "title"@)),
            ("duration_seconds"@, at(shot, "duration_seconds"@)),
            ("status"@, at(shot, "status"@)),
            ("quality_status"@, at(shot, "quality_status"@)),
            ("original_text"@, JsonView::Text(text_preview(crate::json::text_or(shot, "original_text"@, Seq::empty())))),
            ("prompt"@, JsonView::Text(Seq::empty())),
            ("prompt_rich"@, JsonView::Array(Seq::empty())),
            ("historical_videos"@, JsonView::Array(Seq::empty())),
            ("versions"@, JsonView::Array(version_cards(shot))),
        ])
    }
}

fn listed_versions(shot: &Json) -> (r: Vec<Json>)
    ensures
        view_items(r@) == version_cards(shot@),
{
    let empty: Vec<Json> = Vec::new();
    let versions = crate::game_materials::items_at(shot, "versions", &empty);
    proof {
        crate::json::lemma_view_items(versions@);
    }
    let mut out: Vec<Json> = Vec::new();
    let mut i: usize = 0;
    proof {
        crate::json::lemma_view_items(out@);
    }
    while i < versions.len()
        invariant
            i <= versions.len(),
            view_items(versions@) == crate::game_materials::array_at(shot@, "versions"@),
            view_items(versions@).len() == versions.len(),
            forall|k: int| 0 <= k < versions.len() ==> #[trigger] view_items(versions@)[k] == versions@[k]@,
            view_items(out@) == version_cards(shot@).subrange(0, i as int),
        decreases versions.len() - i,
    {
        let card = editor_version(&versions[i]);
        let ghost before = out@;
        proof {
            crate::json::lemma_view_items_push(before, card);
        }
        out.push(card);
        proof {
            assert(view_items(out@) =~= version_cards(shot@).subrange(0, i + 1));
        }
        i += 1;
    }
    proof {
        assert(version_cards(shot@).subrange(0, versions.len() as int) =~= version_cards(shot@));
    }
    out
}

fn preview_of(text: &str) -> (r: String)
    ensures
        r@ == text_preview(text@),
{
    let chars = chars_of(text);
    if chars.len() > 600 {
        let head = crate::text::slice_chars(&chars, 0, 600);
        let mut out = head;
        out.push('…');
        proof {
            reveal_strlit("…");
            assert(out@ =~= text@.take(600) + "…"@);
        }
        crate::text::string_of(out.as_slice())
    } else {
        text.to_owned()
    }
}

/// A shot as the editor shows it.
pub fn editor_shot(shot: Json, selected: &str) -> (r: Json)
    ensures
        r@ == editor_card(shot@, selected@),
{
    let versions = listed_versions(&shot);
    if has_text(shot.get("id"), selected) {
        if let Json::Object(mut entries) = shot {
            entry_insert(&mut entries, "versions".to_owned(), Json::Array(versions));
            return Json::Object(entries);
        }
        proof {
            assert(false);
        }
        return Json::Null;
    }
    proof {
        reveal_strlit("");
        assert(""@ =~= Seq::<char>::empty());
    }
    let text = shot.text_or("original_text", "");
    let entries: Vec<(String, Json)> = vec![
        ("id".to_owned(), value_at(&shot, "id")),
        ("episode_id".to_owned(), value_at(&shot, "episode_id")),
        ("episode_name".to_owned(), value_at(&shot, "episode_name")),
        ("episode_sort_order".to_owned(), value_at(&shot, "episode_sort_order")),
        ("shot_index".to_owned(), value_at(&shot, "shot_index")),
        ("title".to_owned(), value_at(&shot, "title")),
        ("duration_seconds".to_owned(), value_at(&shot, "duration_seconds")),
        ("status".to_owned(), value_at(&shot, "status")),
        ("quality_status".to_owned(), value_at(&shot, "quality_status")),
        ("original_text".to_owned(), Json::Text(preview_of(text.as_str()))),
        ("prompt".to_owned(), Json::Text(String::new())),
        ("prompt_rich".to_owned(), Json::Array(Vec::new())),
        ("historical_videos".to_owned(), Json::Array(Vec::new())),
        ("versions".to_owned(), Json::Array(versions)),
    ];
    proof {
        crate::json::lemma_view_entries(entries@);
        crate::json::lemma_view_items(Seq::<Json>::empty());
        assert(view_items(Seq::<Json>::empty()) =~= Seq::<JsonView>::empty());
        assert(view_entries(entries@) =~= editor_card(shot@, selected@)->Object_0);
    }
    Json::Object(entries)
}

/// The shot the editor opens: the requested one when the project has it,
/// else the first shot with an id, else none (empty).
pub open spec fn selected_shot(shots: Seq<JsonView>, requested: Option<Seq<char>>) -> Seq<char> {
    if requested is Some && exists|k: int| 0 <= k < shots.len() && #[trigger] shots[k].get("id"@) == Some(JsonView::Text(requested->0)) {
        requested->0
    } else if shots.len() > 0 {
        match shots[0].get("id"@) {
            Some(JsonView::Text(id)) => id,
            _ => Seq::empty(),
        }
    } else {
        Seq::empty()
    }
}

/// The shot the editor opens.
pub fn selected_shot_id(shots: &Vec<Json>, requested: Option<&str>) -> (r: String)
    ensures
        r@ == selected_shot(view_items(shots@), crate::graph::opt_text(requested)),
{
    proof {
        crate::json::lemma_view_items(shots@);
    }
    if let Some(id) = requested {
        let mut i: usize = 0;
        while i < shots.len()
            invariant
                i <= shots.len(),
                requested == Some(id),
                view_items(shots@).len() == shots.len(),
                forall|k: int| 0 <= k < shots.len() ==> #[trigger] view_items(shots@)[k] == shots@[k]@,
                forall|k: int| 0 <= k < i ==> #[trigger] view_items(shots@)[k].get("id"@) != Some(JsonView::Text(id@)),
            decreases shots.len() - i,
        {
            if has_text(shots[i].get("id"), id) {
                proof {
                    assert(view_items(shots@)[i as int].get("id"@) == Some(JsonView::Text(id@)));
                }
                return id.to_owned();
            }
            i += 1;
        }
    }
    if shots.len() > 0 {
        match shots[0].get("id") {
            Some(Json::Text(first)) => first.clone(),
            other => {
                proof {
                    match other {
                        Some(v) => crate::json::lemma_view_variant(*v),
                        None => {},
                    }
                }
                String::new()
            },
        }
    } else {
        String::new()
    }
}

/// A project card's material: its id, type, image and creation time, and the
/// image history only for the cover.
pub open spec fn card_asset(asset: JsonView) -> JsonView {
    JsonView::Object(seq![
        ("id"@, at(asset, "id"@)),
        ("type"@, at(asset, "type"@)),
        ("image_url"@, at(asset, "image_url"@)),
        ("image_history"@, if at(asset, "type"@) == JsonView::Text("cover"@) {
            at(asset, "image_history"@)
        } else {
            JsonView::Array(Seq::empty())
        }),
        ("created_at"@, at(asset, "created_at"@)),
    ])
}

/// A material as a project card shows it.
pub fn project_card_asset(asset: &Json) -> (r: Json)
    ensures
        r@ == card_asset(asset@),
{
    let history = if has_text(asset.get("type"), "cover") {
        value_at(asset, "image_history")
    } else {
        Json::Array(Vec::new())
    };
    let entries: Vec<(String, Json)> = vec![
        ("id".to_owned(), value_at(asset, "id")),
        ("type".to_owned(), value_at(asset, "type")),
        ("image_url".to_owned(), value_at(asset, "image_url")),
        ("image_history".to_owned(), history),
        ("created_at".to_owned(), value_at(asset, "created_at")),
    ];
    proof {
        crate::json::lemma_view_entries(entries@);
        crate::json::lemma_view_items(Seq::<Json>::empty());
        assert(view_items(Seq::<Json>::empty()) =~= Seq::<JsonView>::empty());
        if at(asset@, "type"@) == JsonView::Text("cover"@) {
            assert(asset@.get("type"@) == Some(JsonView::Text("cover"@)));
        }
        assert(view_entries(entries@) =~= card_asset(asset@)->Object_0);
    }
    Json::Object(entries)
}

/// The number of a project's tasks that are still generating.
pub open spec fn running_tasks(tasks: Seq<JsonView>) -> nat
    decreases tasks.len(),
{
    if tasks.len() == 0 {
        0
    } else {
        running_tasks(tasks.drop_last()) + if at(tasks.last(), "status"@) == JsonView::Text("生成中"@) {
            1nat
        } else {
            0nat
        }
    }
}

/// How many of a project's tasks are still generating.
pub fn running_count(tasks: &Vec<Json>) -> (r: usize)
    ensures
        r == running_tasks(view_items(tasks@)),
{
    proof {
        crate::json::lemma_view_items(tasks@);
    }
    let ghost all = view_items(tasks@);
    let mut count: usize = 0;
    let mut i: usize = 0;
    proof {
        assert(all.subrange(0, 0) =~= Seq::<JsonView>::empty());
    }
    while i < tasks.len()
        invariant
            i <= tasks.len(),
            all == view_items(tasks@),
            all.len() == tasks.len(),
            forall|k: int| 0 <= k < tasks.len() ==> #[trigger] all[k] == tasks@[k]@,
            count == running_tasks(all.subrange(0, i as int)),
            count <= i,
        decreases tasks.len() - i,
    {
        proof {
            let next = all.subrange(0, i + 1);
            assert(next.drop_last() =~= all.subrange(0, i as int));
            assert(next.last() == tasks@[i as int]@);
        }
        if has_text(tasks[i].get("status"), "生成中") {
            count += 1;
        }
        i += 1;
    }
    proof {
        assert(all.subrange(0, tasks.len() as int) =~= all);
    }
    count
}

/// The shots of a project as the editor shows them, with `selected` in full.
pub open spec fn editor_cards(shots: Seq<JsonView>, selected: Seq<char>) -> Seq<JsonView> {
    Seq::new(shots.len(), |i: int| editor_card(shots[i], selected))
}

/// A project as the editor opens it: no script text, the expanded screenplay,
/// no historical videos, and its shots with the opened one in full.
pub open spec fn editor_view(project: Entries, expanded: JsonView, requested: Option<Seq<char>>) -> JsonView {
    let shots = crate::game_materials::array_at(JsonView::Object(project), "shots"@);
    let selected = selected_shot(shots, requested);
    JsonView::Object(insert_entry(
        insert_entry(
            insert_entry(
                insert_entry(project, "script"@, JsonView::Text(Seq::empty())),
                "expanded_script"@,
                expanded,
            ),
            "historical_videos"@,
            JsonView::Array(Seq::empty()),
        ),
        "shots"@,
        JsonView::Array(editor_cards(shots, selected)),
    ))
}

/// A project as the editor opens it, with `requested` as the shot to open.
pub fn editor_project(project: Vec<(String, Json)>, expanded_script: Json, requested: Option<&str>) -> (r: Json)
    ensures
        r@ == editor_view(view_entries(project@), expanded_script@, crate::graph::opt_text(requested)),
{
    let ghost start = view_entries(project@);
    let empty: Vec<Json> = Vec::new();
    let whole = Json::Object(project);
    let shots = crate::game_materials::items_at(&whole, "shots", &empty);
    proof {
        crate::json::lemma_view_items(shots@);
    }
    let selected = selected_shot_id(shots, requested);
    let mut cards: Vec<Json> = Vec::new();
    let mut i: usize = 0;
    proof {
        crate::json::lemma_view_items(cards@);
    }
    while i < shots.len()
        invariant
            i <= shots.len(),
            view_items(shots@).len() == shots.len(),
            forall|k: int| 0 <= k < shots.len() ==> #[trigger] view_items(shots@)[k] == shots@[k]@,
            view_items(cards@) == editor_cards(view_items(shots@), selected@).subrange(0, i as int),
        decreases shots.len() - i,
    {
        let card = editor_shot(crate::json::duplicate(&shots[i]), selected.as_str());
        let ghost before = cards@;
        proof {
            crate::json::lemma_view_items_push(before, card);
        }
        cards.push(card);
        proof {
            assert(view_items(cards@) =~= editor_cards(view_items(shots@), selected@).subrange(0, i + 1));
        }
        i += 1;
    }
    proof {
        assert(editor_cards(view_items(shots@), selected@).subrange(0, shots.len() as int) =~= editor_cards(view_items(shots@), selected@));
    }
    let mut entries = match whole {
        Json::Object(e) => e,
        _ => Vec::new(),
    };
    proof {
        reveal_strlit("");
        assert(""@ =~= Seq::<char>::empty());
        assert(view_entries(entries@) == start);
        crate::json::lemma_view_items(Seq::<Json>::empty());
        assert(view_items(Seq::<Json>::empty()) =~= Seq::<JsonView>::empty());
    }
    entry_insert(&mut entries, "script".to_owned(), Json::Text(String::new()));
    entry_insert(&mut entries, "expanded_script".to_owned(), expanded_script);
    entry_insert(&mut entries, "historical_videos".to_owned(), Json::Array(Vec::new()));
    entry_insert(&mut entries, "shots".to_owned(), Json::Array(cards));
    Json::Object(entries)
}

/// The shot a stored video version belongs to (empty when it names none).
pub open spec fn version_shot(version: JsonView) -> Seq<char> {
    crate::json::text_or(version, "shot_id"@, ""@)
}

/// Whether a version belongs to the shot `shot_id`.
pub open spec fn of_shot(shot_id: Seq<char>) -> spec_fn(JsonView) -> bool {
    |v: JsonView| version_shot(v) == shot_id
}

/// Whether an earlier shot has the same id (and so took its versions).
pub open spec fn claimed_before(shots: Seq<JsonView>, i: int) -> bool {
    exists|j: int| 0 <= j < i && #[trigger] crate::json::text_or(shots[j], "id"@, ""@) == crate::json::text_or(shots[i], "id"@, ""@)
}

/// The shots with their versions attached, in stored order: each shot takes
/// the versions of its id, unless an earlier shot with that id took them.
pub open spec fn with_versions(shots: Seq<JsonView>, versions: Seq<JsonView>) -> Seq<JsonView> {
    Seq::new(shots.len(), |i: int| JsonView::Object(insert_entry(
        shots[i]->Object_0,
        "versions"@,
        JsonView::Array(if claimed_before(shots, i) {
            Seq::empty()
        } else {
            versions.filter(of_shot(crate::json::text_or(shots[i], "id"@, ""@)))
        }),
    )))
}

fn versions_for(versions: &Vec<Json>, shot_id: &str) -> (r: Vec<Json>)
    ensures
        view_items(r@) == view_items(versions@).filter(of_shot(shot_id@)),
{
    proof {
        crate::json::lemma_view_items(versions@);
    }
    let ghost all = view_items(versions@);
    let mut out: Vec<Json> = Vec::new();
    let mut i: usize = 0;
    proof {
        reveal(Seq::filter);
        crate::json::lemma_view_items(out@);
        assert(all.subrange(0, 0) =~= Seq::<JsonView>::empty());
        assert(view_items(out@) =~= all.subrange(0, 0).filter(of_shot(shot_id@)));
    }
    while i < versions.len()
        invariant
            i <= versions.len(),
            all == view_items(versions@),
            all.len() == versions.len(),
            forall|k: int| 0 <= k < versions.len() ==> #[trigger] all[k] == versions@[k]@,
            view_items(out@) == all.subrange(0, i as int).filter(of_shot(shot_id@)),
        decreases versions.len() - i,
    {
        proof {
            reveal(Seq::filter);
            let next = all.subrange(0, i + 1);
            assert(next.drop_last() =~= all.subrange(0, i as int));
            assert(next.last() == versions@[i as int]@);
        }
        let owner = versions[i].text_or("shot_id", "");
        if crate::json::str_eq(owner.as_str(), shot_id) {
            let copy = crate::json::duplicate(&versions[i]);
            proof {
                crate::json::lemma_view_items_push(out@, copy);
            }
            out.push(copy);
        }
        i += 1;
    }
    proof {
        assert(all.subrange(0, versions.len() as int) =~= all);
    }
    out
}

/// Attach to each shot the versions stored for it.
pub fn attach_versions(shots: Vec<Json>, versions: &Vec<Json>) -> (r: Vec<Json>)
    requires
        forall|i: int| 0 <= i < shots.len() ==> #[trigger] shots@[i]@ is Object,
    ensures
        view_items(r@) == with_versions(view_items(shots@), view_items(versions@)),
{
    proof {
        crate::json::lemma_view_items(shots@);
    }
    let ghost all = view_items(shots@);
    let mut out: Vec<Json> = Vec::new();
    let mut i: usize = 0;
    while i < shots.len()
        invariant
            i <= shots.len(),
            all == view_items(shots@),
            all.len() == shots.len(),
            forall|k: int| 0 <= k < shots.len() ==> #[trigger] all[k] == shots@[k]@,
            forall|k: int| 0 <= k < shots.len() ==> #[trigger] shots@[k]@ is Object,
            out.len() == i,
            forall|k: int| 0 <= k < i ==> #[trigger] out@[k]@ == with_versions(all, view_items(versions@))[k],
        decreases shots.len() - i,
    {
        let id = shots[i].text_or("id", "");
        let mut claimed = false;
        let mut j: usize = 0;
        while j < i
            invariant
                j <= i,
                i < shots.len(),
                all == view_items(shots@),
                all.len() == shots.len(),
                forall|k: int| 0 <= k < shots.len() ==> #[trigger] all[k] == shots@[k]@,
                id@ == crate::json::text_or(all[i as int], "id"@, ""@),
                claimed == exists|k: int| 0 <= k < j && #[trigger] crate::json::text_or(all[k], "id"@, ""@) == id@,
            decreases i - j,
        {
            let other = shots[j].text_or("id", "");
            proof {
                assert(all[j as int] == shots@[j as int]@);
                assert(other@ == crate::json::text_or(all[j as int], "id"@, ""@));
            }
            if crate::json::str_eq(other.as_str(), id.as_str()) {
                claimed = true;
            }
            j += 1;
        }
        let attached = if claimed {
            let empty: Vec<Json> = Vec::new();
            proof {
                crate::json::lemma_view_items(empty@);
            }
            empty
        } else {
            versions_for(versions, id.as_str())
        };
        proof {
            crate::json::lemma_view_items(attached@);
            crate::json::lemma_view_variant(shots@[i as int]);
        }
        let mut entries = match &shots[i] {
            Json::Object(e) => crate::json::copy_entries(e),
            _ => Vec::new(),
        };
        entry_insert(&mut entries, "versions".to_owned(), Json::Array(attached));
        proof {
            if claimed {
                assert(claimed_before(all, i as int));
                assert(view_items(attached@) =~= Seq::<JsonView>::empty());
            } else {
                assert(!claimed_before(all, i as int));
            }
        }
        out.push(Json::Object(entries));
        i += 1;
    }
    proof {
        crate::json::lemma_view_items(out@);
        assert forall|k: int| 0 <= k < out.len() implies #[trigger] view_items(out@)[k] == with_versions(all, view_items(versions@))[k] by {
            assert(view_items(out@)[k] == out@[k]@);
        }
        assert(view_items(out@) =~= with_versions(all, view_items(versions@)));
    }
    out
}

/// A game's web-search switch as stored: a boolean, or an integer that is
/// on when it is not 0; off when it is missing or anything else.
pub open spec fn web_search_of(value: Option<JsonView>) -> bool {
    match value {
        Some(JsonView::Bool(b)) => b,
        Some(JsonView::Int(i)) => i != 0,
        _ => false,
    }
}

/// Read a game's stored web-search switch.
pub fn web_search_flag(value: Option<&Json>) -> (r: bool)
    ensures
        r == web_search_of(crate::game_state::opt_ref_json(value)),
{
    match value {
        Some(Json::Bool(b)) => *b,
        Some(Json::Int(i)) => *i != 0,
        other => {
            proof {
                match other {
                    Some(v) => crate::json::lemma_view_variant(*v),
                    None => {},
                }
            }
            false
        },
    }
}

} // verus!
