//! Saving a short drama's decomposition: the materials and shots a finished
//! plan becomes, with ids derived from the drama and the plan's positions.

use vstd::prelude::*;

use crate::error::{AppError, AppErrorView};
use crate::forms::texts_view;
use crate::game_graph::{not_generated, source_id, source_of, stored_id, stored_id_text, SavedItem};
use crate::json::{text_or, view_entries, view_items, Json, JsonView};
use crate::placeholder::{at, value_at};
use crate::text::{concat, decimal, decimal_text, trim, trimmed};
use crate::voice_tasks::{normalise_voice_id, voice_choice};

verus! {

/// The form a planned material variant is saved as: it needs a name that is
/// not blank, and starts with no image.
pub open spec fn variant_record(asset_id: Seq<char>, index: int, variant: JsonView) -> Option<JsonView> {
    match variant.get("name"@) {
        Some(JsonView::Text(n)) => if trimmed(n).len() > 0 {
            Some(JsonView::Object(seq![
                ("id"@, JsonView::Text(asset_id + ":variant:"@ + text_or(variant, "id"@, "form"@) + ":"@ + decimal(index))),
                ("name"@, JsonView::Text(trimmed(n))),
                ("prompt"@, JsonView::Text(text_or(variant, "prompt"@, ""@))),
                ("episode_numbers"@, at(variant, "episode_numbers"@)),
                ("image_url"@, JsonView::Null),
                ("image_history"@, JsonView::Array(Seq::empty())),
                ("status"@, JsonView::Text(not_generated())),
            ]))
        } else {
            None
        },
        _ => None,
    }
}

/// The forms of a planned material, each numbered by its place in the plan.
pub open spec fn variant_records(asset_id: Seq<char>, variants: Seq<JsonView>) -> Seq<JsonView>
    decreases variants.len(),
{
    if variants.len() == 0 {
        Seq::empty()
    } else {
        let before = variant_records(asset_id, variants.drop_last());
        match variant_record(asset_id, variants.len() - 1, variants.last()) {
            Some(v) => before.push(v),
            None => before,
        }
    }
}

/// The record a planned material is saved as, or why its voice is refused.
/// `enabled` are the ids of the enabled voice presets.
pub open spec fn asset_record(
    drama_id: Seq<char>,
    index: int,
    source: JsonView,
    fresh: Seq<char>,
    enabled: Seq<Seq<char>>,
) -> Result<JsonView, AppErrorView> {
    let id = stored_id(drama_id, "asset"@, source_id(source, fresh), index);
    match voice_choice(source.get("voice_id"@), enabled) {
        Err(e) => Err(e),
        Ok(voice) => Ok(JsonView::Object(seq![
            ("id"@, JsonView::Text(id)),
            ("type"@, JsonView::Text(text_or(source, "type"@, "prop"@))),
            ("name"@, JsonView::Text(text_or(source, "name"@, "素材"@))),
            ("prompt"@, JsonView::Text(text_or(source, "prompt"@, ""@))),
            ("voice_id"@, match voice {
                Some(v) => JsonView::Text(v),
                None => JsonView::Null,
            }),
            ("variants"@, JsonView::Array(match source.get("variants"@) {
                Some(JsonView::Array(items)) => variant_records(id, items),
                _ => Seq::empty(),
            })),
            ("status"@, JsonView::Text(not_generated())),
        ])),
    }
}

fn variant_of(asset_id: &str, index: usize, variant: &Json) -> (r: Option<Json>)
    ensures
        crate::json::opt_json(r) == variant_record(asset_id@, index as int, variant@),
{
    let name = match variant.get("name") {
        Some(Json::Text(n)) => trim(n.as_str()),
        other => {
            proof {
                match other {
                    Some(v) => crate::json::lemma_view_variant(*v),
                    None => {},
                }
            }
            return None;
        },
    };
    if crate::forms::char_count(name.as_str()) == 0 {
        return None;
    }
    let a = concat(asset_id, ":variant:");
    let b = concat(a.as_str(), variant.text_or("id", "form").as_str());
    let c = concat(b.as_str(), ":");
    let id = concat(c.as_str(), crate::text::count_text(index).as_str());
    let entries: Vec<(String, Json)> = vec![
        ("id".to_owned(), Json::Text(id)),
        ("name".to_owned(), Json::Text(name)),
        ("prompt".to_owned(), Json::Text(variant.text_or("prompt", ""))),
        ("episode_numbers".to_owned(), value_at(variant, "episode_numbers")),
        ("image_url".to_owned(), Json::Null),
        ("image_history".to_owned(), Json::Array(Vec::new())),
        ("status".to_owned(), Json::Text("未生成".to_owned())),
    ];
    proof {
        crate::json::lemma_view_entries(entries@);
        crate::json::lemma_view_items(Seq::<Json>::empty());
        assert(view_items(Seq::<Json>::empty()) =~= Seq::<JsonView>::empty());
        assert(view_entries(entries@) =~= variant_record(asset_id@, index as int, variant@)->Some_0->Object_0);
    }
    Some(Json::Object(entries))
}

fn variants_of(asset_id: &str, source: &Json) -> (r: Vec<Json>)
    ensures
        view_items(r@) == match source@.get("variants"@) {
            Some(JsonView::Array(items)) => variant_records(asset_id@, items),
            _ => Seq::<JsonView>::empty(),
        },
{
    let empty: Vec<Json> = Vec::new();
    proof {
        crate::json::lemma_view_items(empty@);
    }
    let items = match source.get("variants") {
        Some(Json::Array(items)) => items,
        other => {
            proof {
                match other {
                    Some(v) => crate::json::lemma_view_variant(*v),
                    None => {},
                }
            }
            return empty;
        },
    };
    proof {
        crate::json::lemma_view_items(items@);
    }
    let ghost all = view_items(items@);
    let mut out: Vec<Json> = Vec::new();
    let mut i: usize = 0;
    proof {
        crate::json::lemma_view_items(out@);
        assert(all.subrange(0, 0) =~= Seq::<JsonView>::empty());
    }
    while i < items.len()
        invariant
            i <= items.len(),
            all == view_items(items@),
            all.len() == items.len(),
            forall|k: int| 0 <= k < items.len() ==> #[trigger] all[k] == items@[k]@,
            view_items(out@) == variant_records(asset_id@, all.subrange(0, i as int)),
        decreases items.len() - i,
    {
        proof {
            let next = all.subrange(0, i + 1);
            assert(next.drop_last() =~= all.subrange(0, i as int));
            assert(next.last() == items@[i as int]@);
        }
        match variant_of(asset_id, i, &items[i]) {
            Some(v) => {
                proof {
                    crate::json::lemma_view_items_push(out@, v);
                }
                out.push(v);
            },
            None => {},
        }
        i += 1;
    }
    proof {
        assert(all.subrange(0, items.len() as int) =~= all);
    }
    out
}

/// Save a planned material of a drama: `index` is its place in the plan,
/// `fresh_id` the id it is known by when the plan gave it none, and
/// `enabled_voice_ids` the ids of the enabled voice presets.
pub fn decomposed_asset(
    drama_id: &str,
    index: usize,
    source: &Json,
    fresh_id: &str,
    enabled_voice_ids: &Vec<String>,
) -> (r: Result<Json, AppError>)
    requires
        index <= i64::MAX,
    ensures
        crate::frame_references::json_result(r) == asset_record(drama_id@, index as int, source@, fresh_id@, texts_view(enabled_voice_ids@)),
{
    let origin = source_of(source, fresh_id);
    let id = stored_id_text(drama_id, "asset", origin.as_str(), index);
    let voice = normalise_voice_id(source.get("voice_id"), enabled_voice_ids)?;
    let variants = variants_of(id.as_str(), source);
    let entries: Vec<(String, Json)> = vec![
        ("id".to_owned(), Json::Text(id)),
        ("type".to_owned(), Json::Text(source.text_or("type", "prop"))),
        ("name".to_owned(), Json::Text(source.text_or("name", "素材"))),
        ("prompt".to_owned(), Json::Text(source.text_or("prompt", ""))),
        ("voice_id".to_owned(), match voice {
            Some(v) => Json::Text(v),
            None => Json::Null,
        }),
        ("variants".to_owned(), Json::Array(variants)),
        ("status".to_owned(), Json::Text("未生成".to_owned())),
    ];
    proof {
        crate::json::lemma_view_entries(entries@);
        assert(view_entries(entries@) =~= asset_record(drama_id@, index as int, source@, fresh_id@, texts_view(enabled_voice_ids@))->Ok_0->Object_0);
    }
    Ok(Json::Object(entries))
}

/// A planned shot's length: its seconds clamped to 3..=15, 10 when it gives none.
pub open spec fn shot_duration(source: JsonView) -> i64 {
    match source.get("duration_seconds"@) {
        Some(JsonView::Int(d)) => if d < 3 {
            3
        } else if d > 15 {
            15
        } else {
            d
        },
        _ => 10,
    }
}

/// What the prompt planner is handed for a planned shot.
pub open spec fn shot_draft_of(source: JsonView) -> JsonView {
    JsonView::Object(seq![
        ("original_text"@, JsonView::Text(text_or(source, "original_text"@, ""@))),
        ("duration_seconds"@, JsonView::Int(shot_duration(source))),
        ("prompt_template_version"@, JsonView::Text("v1"@)),
    ])
}

fn duration_of(source: &Json) -> (r: i64)
    ensures
        r == shot_duration(source@),
{
    match source.get("duration_seconds") {
        Some(Json::Int(d)) => if *d < 3 {
            3
        } else if *d > 15 {
            15
        } else {
            *d
        },
        other => {
            proof {
                match other {
                    Some(v) => crate::json::lemma_view_variant(*v),
                    None => {},
                }
            }
            10
        },
    }
}

/// The draft the prompt planner is handed for a planned shot.
pub fn shot_draft(source: &Json) -> (r: Json)
    ensures
        r@ == shot_draft_of(source@),
{
    let entries: Vec<(String, Json)> = vec![
        ("original_text".to_owned(), Json::Text(source.text_or("original_text", ""))),
        ("duration_seconds".to_owned(), Json::Int(duration_of(source))),
        ("prompt_template_version".to_owned(), Json::Text("v1".to_owned())),
    ];
    proof {
        crate::json::lemma_view_entries(entries@);
        assert(view_entries(entries@) =~= shot_draft_of(source@)->Object_0);
    }
    Json::Object(entries)
}

/// The materials a rich prompt refers to, in order: the `asset_id` of each
/// `reference` chip that has one.
pub open spec fn chip_references(nodes: Seq<JsonView>) -> Seq<Seq<char>>
    decreases nodes.len(),
{
    if nodes.len() == 0 {
        Seq::empty()
    } else {
        let before = chip_references(nodes.drop_last());
        let chip = nodes.last();
        if chip.get("type"@) == Some(JsonView::Text("reference"@)) {
            match chip.get("asset_id"@) {
                Some(JsonView::Text(id)) => before.push(id),
                _ => before,
            }
        } else {
            before
        }
    }
}

fn references_of(nodes: &Vec<Json>) -> (r: Vec<String>)
    ensures
        texts_view(r@) == chip_references(view_items(nodes@)),
{
    proof {
        crate::json::lemma_view_items(nodes@);
    }
    let ghost all = view_items(nodes@);
    let mut out: Vec<String> = Vec::new();
    let mut i: usize = 0;
    proof {
        assert(all.subrange(0, 0) =~= Seq::<JsonView>::empty());
        assert(texts_view(out@) =~= Seq::<Seq<char>>::empty());
    }
    while i < nodes.len()
        invariant
            i <= nodes.len(),
            all == view_items(nodes@),
            all.len() == nodes.len(),
            forall|k: int| 0 <= k < nodes.len() ==> #[trigger] all[k] == nodes@[k]@,
            texts_view(out@) == chip_references(all.subrange(0, i as int)),
        decreases nodes.len() - i,
    {
        proof {
            let next = all.subrange(0, i + 1);
            assert(next.drop_last() =~= all.subrange(0, i as int));
            assert(next.last() == nodes@[i as int]@);
        }
        if crate::placeholder::has_text(nodes[i].get("type"), "reference") {
            match nodes[i].get("asset_id") {
                Some(Json::Text(id)) => {
                    let ghost before = out@;
                    out.push(id.clone());
                    proof {
                        assert(texts_view(out@) =~= texts_view(before).push(id@));
                    }
                },
                other => {
                    proof {
                        match other {
                            Some(v) => crate::json::lemma_view_variant(*v),
                            None => {},
                        }
                    }
                },
            }
        }
        i += 1;
    }
    proof {
        assert(all.subrange(0, nodes.len() as int) =~= all);
    }
    out
}

/// The stored id of a drama's episode: `"{drama}:episode:{number}"`.
pub open spec fn episode_id_of(drama_id: Seq<char>, episode_index: int) -> Seq<char> {
    drama_id + ":episode:"@ + decimal(episode_index + 1)
}

/// The stored id of a drama's shot: `"{drama}:shot:{episode}:{shot}"`, both numbered from 1.
pub open spec fn shot_id_of(drama_id: Seq<char>, episode_index: int, shot_index: int) -> Seq<char> {
    drama_id + ":shot:"@ + decimal(episode_index + 1) + ":"@ + decimal(shot_index + 1)
}

/// The row a planned shot is stored as.
pub open spec fn shot_row(
    drama_id: Seq<char>,
    episode_index: int,
    shot_index: int,
    episode: JsonView,
    source: JsonView,
    nodes: Seq<JsonView>,
    prompt: Seq<char>,
) -> JsonView {
    JsonView::Object(seq![
        ("id"@, JsonView::Text(shot_id_of(drama_id, episode_index, shot_index))),
        ("episode_id"@, JsonView::Text(episode_id_of(drama_id, episode_index))),
        ("episode_name"@, JsonView::Text(text_or(episode, "name"@, "第1集"@))),
        ("episode_sort_order"@, JsonView::Int((episode_index + 1) as i64)),
        ("shot_index"@, JsonView::Int((shot_index + 1) as i64)),
        ("title"@, JsonView::Text(text_or(source, "title"@, "分镜"@))),
        ("original_text"@, JsonView::Text(text_or(source, "original_text"@, ""@))),
        ("duration_seconds"@, JsonView::Int(shot_duration(source))),
        ("prompt"@, JsonView::Text(prompt)),
        ("prompt_rich"@, JsonView::Array(nodes)),
        ("reference_asset_ids"@, JsonView::Array(crate::settings_models::text_items(chip_references(nodes)))),
        ("status"@, JsonView::Text(not_generated())),
    ])
}

/// The record the drama keeps of a planned shot.
pub open spec fn shot_summary(
    drama_id: Seq<char>,
    episode_index: int,
    shot_index: int,
    episode: JsonView,
    source: JsonView,
    prompt: Seq<char>,
) -> JsonView {
    JsonView::Object(seq![
        ("id"@, JsonView::Text(shot_id_of(drama_id, episode_index, shot_index))),
        ("episode_id"@, JsonView::Text(episode_id_of(drama_id, episode_index))),
        ("episode_name"@, JsonView::Text(text_or(episode, "name"@, "第1集"@))),
        ("episode_sort_order"@, JsonView::Int((episode_index + 1) as i64)),
        ("shot_index"@, JsonView::Int((shot_index + 1) as i64)),
        ("title"@, at(source, "title"@)),
        ("original_text"@, JsonView::Text(text_or(source, "original_text"@, ""@))),
        ("duration_seconds"@, JsonView::Int(shot_duration(source))),
        ("prompt"@, JsonView::Text(prompt)),
    ])
}

/// Save a planned shot: its place in the plan, its episode, the planned shot
/// itself, and the rich prompt and prompt text the planner wrote for it.
pub fn decomposed_shot(
    drama_id: &str,
    episode_index: usize,
    shot_index: usize,
    episode: &Json,
    source: &Json,
    nodes: &Vec<Json>,
    prompt: &str,
) -> (r: SavedItem)
    requires
        episode_index < i64::MAX,
        shot_index < i64::MAX,
    ensures
        r.row@ == shot_row(drama_id@, episode_index as int, shot_index as int, episode@, source@, view_items(nodes@), prompt@),
        r.record@ == shot_summary(drama_id@, episode_index as int, shot_index as int, episode@, source@, prompt@),
{
    let episode_order: i64 = episode_index as i64 + 1;
    let shot_order: i64 = shot_index as i64 + 1;
    let episode_number = decimal_text(episode_order);
    let shot_number = decimal_text(shot_order);
    let a = concat(drama_id, ":shot:");
    let b = concat(a.as_str(), episode_number.as_str());
    let c = concat(b.as_str(), ":");
    let id = concat(c.as_str(), shot_number.as_str());
    let d = concat(drama_id, ":episode:");
    let episode_id = concat(d.as_str(), episode_number.as_str());
    let episode_name = episode.text_or("name", "第1集");
    let original = source.text_or("original_text", "");
    let duration = duration_of(source);
    let refs = references_of(nodes);
    let mut ref_items: Vec<Json> = Vec::new();
    let mut k: usize = 0;
    while k < refs.len()
        invariant
            k <= refs.len(),
            ref_items.len() == k,
            forall|j: int| 0 <= j < k ==> #[trigger] ref_items@[j]@ == JsonView::Text(refs@[j]@),
        decreases refs.len() - k,
    {
        ref_items.push(Json::Text(refs[k].clone()));
        k += 1;
    }
    proof {
        crate::json::lemma_view_items(ref_items@);
        assert forall|j: int| 0 <= j < ref_items.len() implies #[trigger] view_items(ref_items@)[j] == crate::settings_models::text_items(texts_view(refs@))[j] by {
            assert(ref_items@[j]@ == JsonView::Text(refs@[j]@));
        }
        assert(view_items(ref_items@) =~= crate::settings_models::text_items(texts_view(refs@)));
        crate::json::lemma_view_items(nodes@);
    }
    let row_entries: Vec<(String, Json)> = vec![
        ("id".to_owned(), Json::Text(id.clone())),
        ("episode_id".to_owned(), Json::Text(episode_id.clone())),
        ("episode_name".to_owned(), Json::Text(episode_name.clone())),
        ("episode_sort_order".to_owned(), Json::Int(episode_order)),
        ("shot_index".to_owned(), Json::Int(shot_order)),
        ("title".to_owned(), Json::Text(source.text_or("title", "分镜"))),
        ("original_text".to_owned(), Json::Text(original.clone())),
        ("duration_seconds".to_owned(), Json::Int(duration)),
        ("prompt".to_owned(), Json::Text(prompt.to_owned())),
        ("prompt_rich".to_owned(), Json::Array(crate::json::copy_items(nodes))),
        ("reference_asset_ids".to_owned(), Json::Array(ref_items)),
        ("status".to_owned(), Json::Text("未生成".to_owned())),
    ];
    let record_entries: Vec<(String, Json)> = vec![
        ("id".to_owned(), Json::Text(id)),
        ("episode_id".to_owned(), Json::Text(episode_id)),
        ("episode_name".to_owned(), Json::Text(episode_name)),
        ("episode_sort_order".to_owned(), Json::Int(episode_order)),
        ("shot_index".to_owned(), Json::Int(shot_order)),
        ("title".to_owned(), value_at(source, "title")),
        ("original_text".to_owned(), Json::Text(original)),
        ("duration_seconds".to_owned(), Json::Int(duration)),
        ("prompt".to_owned(), Json::Text(prompt.to_owned())),
    ];
    proof {
        crate::json::lemma_view_entries(row_entries@);
        crate::json::lemma_view_entries(record_entries@);
        assert(view_entries(row_entries@) =~= shot_row(drama_id@, episode_index as int, shot_index as int, episode@, source@, view_items(nodes@), prompt@)->Object_0);
        assert(view_entries(record_entries@) =~= shot_summary(drama_id@, episode_index as int, shot_index as int, episode@, source@, prompt@)->Object_0);
    }
    SavedItem { row: Json::Object(row_entries), record: Json::Object(record_entries) }
}

/// Each planned shot of a drama gets its own stored id: two places in the
/// plan that give the same id are the same place.
pub proof fn lemma_shot_ids_are_unique(drama_id: Seq<char>, e1: int, s1: int, e2: int, s2: int)
    requires
        0 <= e1 && 0 <= s1 && 0 <= e2 && 0 <= s2,
        shot_id_of(drama_id, e1, s1) == shot_id_of(drama_id, e2, s2),
    ensures
        e1 == e2 && s1 == s2,
{
    reveal_strlit(":");
    let prefix = drama_id + ":shot:"@;
    let a1 = crate::text::digits((e1 + 1) as nat);
    let b1 = crate::text::digits((s1 + 1) as nat);
    let a2 = crate::text::digits((e2 + 1) as nat);
    let b2 = crate::text::digits((s2 + 1) as nat);
    assert(decimal(e1 + 1) == a1);
    assert(decimal(s1 + 1) == b1);
    assert(decimal(e2 + 1) == a2);
    assert(decimal(s2 + 1) == b2);
    assert(":"@ =~= seq![':']);
    let id1 = shot_id_of(drama_id, e1, s1);
    let id2 = shot_id_of(drama_id, e2, s2);
    let rest1 = a1 + seq![':'] + b1;
    let rest2 = a2 + seq![':'] + b2;
    assert(id1 =~= prefix + rest1);
    assert(id2 =~= prefix + rest2);
    assert(rest1 =~= id1.subrange(prefix.len() as int, id1.len() as int));
    assert(rest2 =~= id2.subrange(prefix.len() as int, id2.len() as int));
    crate::text::lemma_digits_shape((e1 + 1) as nat);
    crate::text::lemma_digits_shape((e2 + 1) as nat);
    crate::text::lemma_split_at_colon(a1, b1, a2, b2);
    crate::text::lemma_digits_injective((e1 + 1) as nat, (e2 + 1) as nat);
    crate::text::lemma_digits_injective((s1 + 1) as nat, (s2 + 1) as nat);
}

/// The integer stored under `key`, if any.
pub open spec fn int_at(v: JsonView, key: Seq<char>) -> Option<int> {
    match v.get(key) {
        Some(JsonView::Int(n)) => Some(n as int),
        _ => None,
    }
}

/// A saved shot is numbered by its place in the plan: its episode sort order
/// is the episode's position (from 1), the same for every shot of that
/// episode, and its shot index is its position within the episode (from 1),
/// in the stored row and in the drama's record alike.
pub proof fn lemma_saved_shot_is_numbered_by_its_place(
    drama_id: Seq<char>,
    episode_index: int,
    shot_index: int,
    episode: JsonView,
    source: JsonView,
    nodes: Seq<JsonView>,
    prompt: Seq<char>,
)
    requires
        0 <= episode_index < i64::MAX,
        0 <= shot_index < i64::MAX,
    ensures
        int_at(shot_row(drama_id, episode_index, shot_index, episode, source, nodes, prompt), "episode_sort_order"@) == Some(episode_index + 1),
        int_at(shot_summary(drama_id, episode_index, shot_index, episode, source, prompt), "episode_sort_order"@) == Some(episode_index + 1),
        int_at(shot_row(drama_id, episode_index, shot_index, episode, source, nodes, prompt), "shot_index"@) == Some(shot_index + 1),
        int_at(shot_summary(drama_id, episode_index, shot_index, episode, source, prompt), "shot_index"@) == Some(shot_index + 1),
{
    reveal_strlit("id");
    reveal_strlit("episode_id");
    reveal_strlit("episode_name");
    reveal_strlit("episode_sort_order");
    reveal_strlit("shot_index");
    let row = shot_row(drama_id, episode_index, shot_index, episode, source, nodes, prompt)->Object_0;
    let rec = shot_summary(drama_id, episode_index, shot_index, episode, source, prompt)->Object_0;
    let order = "episode_sort_order"@;
    let number = "shot_index"@;
    assert forall|j: int| 0 <= j < 3 implies #[trigger] row[j].0 != order && rec[j].0 != order by {
        assert(row[j].0.len() != order.len() && rec[j].0.len() != order.len());
    }
    crate::json::lemma_lookup_found(row, order, 3);
    crate::json::lemma_lookup_found(rec, order, 3);
    assert forall|j: int| 0 <= j < 4 implies #[trigger] row[j].0 != number && rec[j].0 != number by {
        assert(row[j].0.len() != number.len() || row[j].0[0] != number[0]);
        assert(rec[j].0.len() != number.len() || rec[j].0[0] != number[0]);
    }
    crate::json::lemma_lookup_found(row, number, 4);
    crate::json::lemma_lookup_found(rec, number, 4);
}

/// Shots sort by episode first: two shots of the same episode share its sort
/// order whatever their own numbers, and a shot of a later episode sorts
/// after every shot of an earlier one.
pub proof fn lemma_shots_sort_by_episode(
    drama_id: Seq<char>,
    e1: int,
    s1: int,
    e2: int,
    s2: int,
    episode1: JsonView,
    episode2: JsonView,
    source1: JsonView,
    source2: JsonView,
    nodes1: Seq<JsonView>,
    nodes2: Seq<JsonView>,
    prompt1: Seq<char>,
    prompt2: Seq<char>,
)
    requires
        0 <= e1 < i64::MAX,
        0 <= s1 < i64::MAX,
        0 <= e2 < i64::MAX,
        0 <= s2 < i64::MAX,
    ensures
        ({
            let o1 = int_at(shot_row(drama_id, e1, s1, episode1, source1, nodes1, prompt1), "episode_sort_order"@);
            let o2 = int_at(shot_row(drama_id, e2, s2, episode2, source2, nodes2, prompt2), "episode_sort_order"@);
            &&& o1 is Some && o2 is Some
            &&& e1 == e2 ==> o1 == o2
            &&& e1 < e2 ==> o1->Some_0 < o2->Some_0
        }),
{
    lemma_saved_shot_is_numbered_by_its_place(drama_id, e1, s1, episode1, source1, nodes1, prompt1);
    lemma_saved_shot_is_numbered_by_its_place(drama_id, e2, s2, episode2, source2, nodes2, prompt2);
}

} // verus!
