//! Saving a planned game graph: the stored ids of its materials, nodes and
//! choice edges, and the records each is saved as.

use vstd::prelude::*;

use crate::error::{AppError, AppErrorView};
use crate::forms::texts_view;
use crate::game_materials::{pair_get, pair_views};
use crate::json::{entry_get, entry_insert, insert_entry, lookup, view_entries, view_items, Entries, Json, JsonView};
use crate::placeholder::{at, value_at};
use crate::text::{concat, decimal, decimal_text};
use crate::voice_tasks::{normalise_voice_id, voice_choice};

verus! {

/// The status of a material or node nothing has been generated for yet.
pub open spec fn not_generated() -> Seq<char> {
    "未生成"@
}

/// The stored id of a saved graph item: `"{game}:{kind}:{source}:{index}"`.
pub open spec fn stored_id(game_id: Seq<char>, kind: Seq<char>, source: Seq<char>, index: int) -> Seq<char> {
    game_id + ":"@ + kind + ":"@ + source + ":"@ + decimal(index)
}

pub(crate) fn stored_id_text(game_id: &str, kind: &str, source: &str, index: usize) -> (r: String)
    requires
        index <= i64::MAX,
    ensures
        r@ == stored_id(game_id@, kind@, source@, index as int),
{
    let a = concat(game_id, ":");
    let b = concat(a.as_str(), kind);
    let c = concat(b.as_str(), ":");
    let d = concat(c.as_str(), source);
    let e = concat(d.as_str(), ":");
    let n = decimal_text(index as i64);
    concat(e.as_str(), n.as_str())
}

/// The id a planned material is known by: its own text id, else a fresh one.
pub open spec fn source_id(item: JsonView, fresh: Seq<char>) -> Seq<char> {
    match item.get("id"@) {
        Some(JsonView::Text(s)) => s,
        _ => fresh,
    }
}

/// The texts of an id map, as pairs.
pub open spec fn text_pairs(m: Entries) -> Seq<(Seq<char>, Seq<char>)> {
    Seq::new(m.len(), |i: int| (m[i].0, match m[i].1 {
        JsonView::Text(s) => s,
        _ => Seq::empty(),
    }))
}

/// Where the planned materials were saved: each planned id names its stored
/// id (a later material with the same id wins), and each material's name
/// names it too unless that name is already taken.
pub open spec fn material_map(game_id: Seq<char>, materials: Seq<JsonView>, fresh: Seq<Seq<char>>) -> Entries
    decreases materials.len(),
{
    if materials.len() == 0 {
        Seq::empty()
    } else {
        let i = materials.len() - 1;
        let m = material_map(game_id, materials.drop_last(), fresh);
        let source = source_id(materials.last(), fresh[i]);
        let id = JsonView::Text(stored_id(game_id, "asset"@, source, i));
        let name = crate::json::text_or(materials.last(), "name"@, "素材"@);
        let with_source = insert_entry(m, source, id);
        if lookup(with_source, name) is Some {
            with_source
        } else {
            insert_entry(with_source, name, id)
        }
    }
}

pub(crate) fn source_of(item: &Json, fresh: &str) -> (r: String)
    ensures
        r@ == source_id(item@, fresh@),
{
    match item.get("id") {
        Some(Json::Text(s)) => s.clone(),
        other => {
            proof {
                match other {
                    Some(v) => crate::json::lemma_view_variant(*v),
                    None => {},
                }
            }
            fresh.to_owned()
        },
    }
}

fn to_pairs(m: &Vec<(String, Json)>) -> (r: Vec<(String, String)>)
    ensures
        pair_views(r@) == text_pairs(view_entries(m@)),
{
    proof {
        crate::json::lemma_view_entries(m@);
    }
    let mut out: Vec<(String, String)> = Vec::new();
    let mut i: usize = 0;
    while i < m.len()
        invariant
            i <= m.len(),
            view_entries(m@).len() == m.len(),
            forall|k: int| 0 <= k < m.len() ==> #[trigger] view_entries(m@)[k] == (m@[k].0@, m@[k].1@),
            pair_views(out@) == text_pairs(view_entries(m@)).subrange(0, i as int),
        decreases m.len() - i,
    {
        proof {
            reveal_strlit("");
            assert(""@ =~= Seq::<char>::empty());
        }
        let value = match &m[i].1 {
            Json::Text(s) => s.clone(),
            other => {
                proof {
                    crate::json::lemma_view_variant(*other);
                }
                String::new()
            },
        };
        let ghost before = pair_views(out@);
        let pair = (m[i].0.clone(), value);
        proof {
            assert(pair.0@ == text_pairs(view_entries(m@))[i as int].0);
            assert(pair.1@ == text_pairs(view_entries(m@))[i as int].1);
        }
        out.push(pair);
        proof {
            assert(pair_views(out@) =~= before.push((pair.0@, pair.1@)));
            assert(pair_views(out@) =~= text_pairs(view_entries(m@)).subrange(0, i + 1));
        }
        i += 1;
    }
    proof {
        assert(text_pairs(view_entries(m@)).subrange(0, m.len() as int) =~= text_pairs(view_entries(m@)));
    }
    out
}

/// Where each planned material was saved. `fresh_ids` holds one fresh id per
/// material, used for a material without an id of its own.
pub fn graph_material_ids(game_id: &str, materials: &Vec<Json>, fresh_ids: &Vec<String>) -> (r: Vec<(String, String)>)
    requires
        fresh_ids.len() >= materials.len(),
        materials.len() <= i64::MAX,
    ensures
        pair_views(r@) == text_pairs(material_map(game_id@, view_items(materials@), texts_view(fresh_ids@))),
{
    proof {
        crate::json::lemma_view_items(materials@);
    }
    let ghost all = view_items(materials@);
    let ghost fresh = texts_view(fresh_ids@);
    let mut m: Vec<(String, Json)> = Vec::new();
    let mut i: usize = 0;
    proof {
        assert(all.subrange(0, 0) =~= Seq::<JsonView>::empty());
        assert(view_entries(m@) =~= Seq::<(Seq<char>, JsonView)>::empty());
    }
    while i < materials.len()
        invariant
            i <= materials.len(),
            materials.len() <= i64::MAX,
            fresh_ids.len() >= materials.len(),
            all == view_items(materials@),
            fresh == texts_view(fresh_ids@),
            all.len() == materials.len(),
            forall|k: int| 0 <= k < materials.len() ==> #[trigger] all[k] == materials@[k]@,
            view_entries(m@) == material_map(game_id@, all.subrange(0, i as int), fresh),
        decreases materials.len() - i,
    {
        proof {
            let next = all.subrange(0, i + 1);
            assert(next.drop_last() =~= all.subrange(0, i as int));
            assert(next.last() == materials@[i as int]@);
        }
        let source = source_of(&materials[i], fresh_ids[i].as_str());
        let id = stored_id_text(game_id, "asset", source.as_str(), i);
        let name = materials[i].text_or("name", "素材");
        entry_insert(&mut m, source, Json::Text(id.clone()));
        if entry_get(&m, name.as_str()).is_none() {
            entry_insert(&mut m, name, Json::Text(id));
        }
        i += 1;
    }
    proof {
        assert(all.subrange(0, materials.len() as int) =~= all);
    }
    to_pairs(&m)
}

/// The record a planned material is saved as, or why its voice is refused.
/// `enabled` are the ids of the enabled voice presets.
pub open spec fn material_record(
    game_id: Seq<char>,
    index: int,
    material: JsonView,
    fresh: Seq<char>,
    enabled: Seq<Seq<char>>,
) -> Result<JsonView, AppErrorView> {
    let kind = crate::json::text_or(material, "type"@, "prop"@);
    let voice = if kind == "character"@ {
        voice_choice(material.get("voice_id"@), enabled)
    } else {
        Ok(None)
    };
    match voice {
        Err(e) => Err(e),
        Ok(v) => Ok(JsonView::Object(seq![
            ("id"@, JsonView::Text(stored_id(game_id, "asset"@, source_id(material, fresh), index))),
            ("type"@, JsonView::Text(kind)),
            ("name"@, JsonView::Text(crate::json::text_or(material, "name"@, "素材"@))),
            ("prompt"@, at(material, "prompt"@)),
            ("voice_id"@, match v {
                Some(id) => JsonView::Text(id),
                None => JsonView::Null,
            }),
            ("image_url"@, at(material, "image_url"@)),
            ("status"@, JsonView::Text(crate::json::text_or(material, "status"@, not_generated()))),
        ])),
    }
}

/// The record a planned material is saved as.
pub fn graph_material(
    game_id: &str,
    index: usize,
    material: &Json,
    fresh_id: &str,
    enabled_voice_ids: &Vec<String>,
) -> (r: Result<Json, AppError>)
    requires
        index <= i64::MAX,
    ensures
        crate::frame_references::json_result(r) == material_record(game_id@, index as int, material@, fresh_id@, texts_view(enabled_voice_ids@)),
{
    let kind = material.text_or("type", "prop");
    let voice = if crate::json::str_eq(kind.as_str(), "character") {
        normalise_voice_id(material.get("voice_id"), enabled_voice_ids)?
    } else {
        None
    };
    let source = source_of(material, fresh_id);
    let entries: Vec<(String, Json)> = vec![
        ("id".to_owned(), Json::Text(stored_id_text(game_id, "asset", source.as_str(), index))),
        ("type".to_owned(), Json::Text(kind)),
        ("name".to_owned(), Json::Text(material.text_or("name", "素材"))),
        ("prompt".to_owned(), value_at(material, "prompt")),
        ("voice_id".to_owned(), match voice {
            Some(id) => Json::Text(id),
            None => Json::Null,
        }),
        ("image_url".to_owned(), value_at(material, "image_url")),
        ("status".to_owned(), Json::Text(material.text_or("status", "未生成"))),
    ];
    proof {
        crate::json::lemma_view_entries(entries@);
        assert(view_entries(entries@) =~= material_record(game_id@, index as int, material@, fresh_id@, texts_view(enabled_voice_ids@))->Ok_0->Object_0);
    }
    Ok(Json::Object(entries))
}

/// Where the planned nodes were saved: each planned node id (empty when
/// missing) names its stored id, a later node with the same id winning.
pub open spec fn node_map(game_id: Seq<char>, nodes: Seq<JsonView>) -> Entries
    decreases nodes.len(),
{
    if nodes.len() == 0 {
        Seq::empty()
    } else {
        let i = nodes.len() - 1;
        let source = crate::json::text_or(nodes.last(), "id"@, Seq::empty());
        insert_entry(node_map(game_id, nodes.drop_last()), source, JsonView::Text(stored_id(game_id, "node"@, source, i)))
    }
}

/// Where each planned node was saved.
pub fn graph_node_ids(game_id: &str, nodes: &Vec<Json>) -> (r: Vec<(String, String)>)
    requires
        nodes.len() <= i64::MAX,
    ensures
        pair_views(r@) == text_pairs(node_map(game_id@, view_items(nodes@))),
{
    proof {
        crate::json::lemma_view_items(nodes@);
        reveal_strlit("");
        assert(""@ =~= Seq::<char>::empty());
    }
    let ghost all = view_items(nodes@);
    let mut m: Vec<(String, Json)> = Vec::new();
    let mut i: usize = 0;
    proof {
        assert(all.subrange(0, 0) =~= Seq::<JsonView>::empty());
        assert(view_entries(m@) =~= Seq::<(Seq<char>, JsonView)>::empty());
    }
    while i < nodes.len()
        invariant
            i <= nodes.len(),
            nodes.len() <= i64::MAX,
            all == view_items(nodes@),
            all.len() == nodes.len(),
            forall|k: int| 0 <= k < nodes.len() ==> #[trigger] all[k] == nodes@[k]@,
            ""@ == Seq::<char>::empty(),
            view_entries(m@) == node_map(game_id@, all.subrange(0, i as int)),
        decreases nodes.len() - i,
    {
        proof {
            let next = all.subrange(0, i + 1);
            assert(next.drop_last() =~= all.subrange(0, i as int));
            assert(next.last() == nodes@[i as int]@);
        }
        let source = nodes[i].text_or("id", "");
        let id = stored_id_text(game_id, "node", source.as_str(), i);
        entry_insert(&mut m, source, Json::Text(id));
        i += 1;
    }
    proof {
        assert(all.subrange(0, nodes.len() as int) =~= all);
    }
    to_pairs(&m)
}

/// The type and name of each saved material a node refers to, in reference order.
pub open spec fn requested_materials(references: Seq<JsonView>, saved: Seq<JsonView>) -> Seq<JsonView>
    decreases references.len(),
{
    if references.len() == 0 {
        Seq::empty()
    } else {
        let before = requested_materials(references.drop_last(), saved);
        match references.last() {
            JsonView::Text(id) => match crate::placeholder::asset_with_id(saved, id) {
                Some(a) => before.push(JsonView::Object(seq![("asset_type"@, at(a, "type"@)), ("asset_name"@, at(a, "name"@))])),
                None => before,
            },
            _ => before,
        }
    }
}

/// The type and name of each saved material that `references` (a node's
/// mapped reference list) names.
pub fn requested_material_list(references: &Json, saved: &Vec<Json>) -> (r: Vec<Json>)
    ensures
        view_items(r@) == requested_materials(match references@ {
            JsonView::Array(items) => items,
            _ => Seq::empty(),
        }, view_items(saved@)),
{
    let empty: Vec<Json> = Vec::new();
    let items: &Vec<Json> = match references {
        Json::Array(items) => items,
        _ => {
            proof {
                crate::json::lemma_view_items(empty@);
                assert(view_items(empty@) =~= Seq::<JsonView>::empty());
            }
            &empty
        },
    };
    proof {
        crate::json::lemma_view_items(items@);
    }
    let ghost all = view_items(items@);
    let mut out: Vec<Json> = Vec::new();
    let mut i: usize = 0;
    proof {
        assert(all.subrange(0, 0) =~= Seq::<JsonView>::empty());
        crate::json::lemma_view_items(out@);
    }
    while i < items.len()
        invariant
            i <= items.len(),
            all == view_items(items@),
            all.len() == items.len(),
            forall|k: int| 0 <= k < items.len() ==> #[trigger] all[k] == items@[k]@,
            view_items(out@) == requested_materials(all.subrange(0, i as int), view_items(saved@)),
        decreases items.len() - i,
    {
        proof {
            let next = all.subrange(0, i + 1);
            assert(next.drop_last() =~= all.subrange(0, i as int));
            assert(next.last() == items@[i as int]@);
        }
        match &items[i] {
            Json::Text(id) => {
                if let Some(a) = crate::placeholder::find_asset(saved, id.as_str()) {
                    let entries: Vec<(String, Json)> = vec![
                        ("asset_type".to_owned(), value_at(a, "type")),
                        ("asset_name".to_owned(), value_at(a, "name")),
                    ];
                    proof {
                        crate::json::lemma_view_entries(entries@);
                        assert(view_entries(entries@) =~= seq![("asset_type"@, at(a@, "type"@)), ("asset_name"@, at(a@, "name"@))]);
                    }
                    let item = Json::Object(entries);
                    let ghost before = out@;
                    proof {
                        crate::json::lemma_view_items_push(before, item);
                    }
                    out.push(item);
                }
            },
            other => {
                proof {
                    crate::json::lemma_view_variant(*other);
                }
            },
        }
        i += 1;
    }
    proof {
        assert(all.subrange(0, items.len() as int) =~= all);
    }
    out
}

/// A node's video length: its integer length (10 when it has none) brought
/// into 4 to 15 seconds.
pub open spec fn node_duration(node: JsonView) -> i64 {
    let d = match node.get("duration_seconds"@) {
        Some(JsonView::Int(d)) => d,
        _ => 10,
    };
    if d < 4 {
        4
    } else if d > 15 {
        15
    } else {
        d
    }
}

fn duration_of(node: &Json) -> (r: i64)
    ensures
        r == node_duration(node@),
{
    let d: i64 = match node.get("duration_seconds") {
        Some(Json::Int(d)) => *d,
        other => {
            proof {
                match other {
                    Some(v) => crate::json::lemma_view_variant(*v),
                    None => {},
                }
            }
            10
        },
    };
    if d < 4 {
        4
    } else if d > 15 {
        15
    } else {
        d
    }
}

/// What the planner writes a node's prompt from: its text, length and template.
pub open spec fn draft_of(node: JsonView) -> JsonView {
    JsonView::Object(seq![
        ("original_text"@, at(node, "original_text"@)),
        ("duration_seconds"@, JsonView::Int(node_duration(node))),
        ("prompt_template_version"@, JsonView::Text(crate::game_materials::template_version(node))),
    ])
}

/// What the planner writes a node's prompt from.
pub fn node_draft(node: &Json) -> (r: Json)
    ensures
        r@ == draft_of(node@),
{
    let entries: Vec<(String, Json)> = vec![
        ("original_text".to_owned(), value_at(node, "original_text")),
        ("duration_seconds".to_owned(), Json::Int(duration_of(node))),
        ("prompt_template_version".to_owned(), Json::Text(crate::game_materials::prompt_template_version(node))),
    ];
    proof {
        crate::json::lemma_view_entries(entries@);
        assert(view_entries(entries@) =~= draft_of(node@)->Object_0);
    }
    Json::Object(entries)
}

/// The game settings every node prompt of the game is written for.
pub open spec fn game_prompt_context(game: JsonView) -> JsonView {
    JsonView::Object(seq![
        ("style"@, at(game, "style"@)),
        ("ratio"@, JsonView::Text(if game.get("platform"@) == Some(JsonView::Text("Steam游戏"@)) { "16:9"@ } else { "9:16"@ })),
        ("resolution"@, at(game, "resolution"@)),
        ("shot_constraints"@, JsonView::Object(seq![("subtitles"@, JsonView::Bool(false)), ("background_music"@, JsonView::Bool(false))])),
    ])
}

/// The game settings every node prompt of the game is written for.
pub fn prompt_context(game: &Json) -> (r: Json)
    ensures
        r@ == game_prompt_context(game@),
{
    let ratio = crate::forms::game_cover_ratio(game);
    let constraints: Vec<(String, Json)> = vec![
        ("subtitles".to_owned(), Json::Bool(false)),
        ("background_music".to_owned(), Json::Bool(false)),
    ];
    proof {
        crate::json::lemma_view_entries(constraints@);
        assert(view_entries(constraints@) =~= seq![("subtitles"@, JsonView::Bool(false)), ("background_music"@, JsonView::Bool(false))]);
    }
    let entries: Vec<(String, Json)> = vec![
        ("style".to_owned(), value_at(game, "style")),
        ("ratio".to_owned(), Json::Text(ratio.to_owned())),
        ("resolution".to_owned(), value_at(game, "resolution")),
        ("shot_constraints".to_owned(), Json::Object(constraints)),
    ];
    proof {
        crate::json::lemma_view_entries(entries@);
        assert(view_entries(entries@) =~= game_prompt_context(game@)->Object_0);
    }
    Json::Object(entries)
}

/// An optional text as a JSON value: the text, or `null`.
pub open spec fn text_or_null(o: Option<Seq<char>>) -> JsonView {
    match o {
        Some(s) => JsonView::Text(s),
        None => JsonView::Null,
    }
}

fn text_or_null_json(o: Option<String>) -> (r: Json)
    ensures
        r@ == text_or_null(crate::storage::opt_text_view(o)),
{
    match o {
        Some(s) => Json::Text(s),
        None => Json::Null,
    }
}

/// The stored material a planned node field names, when the field is a text
/// naming a saved material.
pub open spec fn mapped_field(node: JsonView, key: Seq<char>, materials: Seq<(Seq<char>, Seq<char>)>) -> Option<Seq<char>> {
    match node.get(key) {
        Some(JsonView::Text(s)) => pair_get(materials, s),
        _ => None,
    }
}

/// A stored value of a node, or `default` when the node has none.
pub open spec fn value_or(node: JsonView, key: Seq<char>, default: JsonView) -> JsonView {
    match node.get(key) {
        Some(v) => v,
        None => default,
    }
}

/// A planned node's place on the canvas when it has none: four to a row.
pub open spec fn position_of(node: JsonView, key: Seq<char>, fallback: int) -> i64 {
    match node.get(key) {
        Some(JsonView::Int(p)) => p,
        _ => fallback as i64,
    }
}

/// The stored row of a planned node, given the planner's rich prompt and prompt text for it.
pub open spec fn node_row(
    game_id: Seq<char>,
    index: int,
    node: JsonView,
    materials: Seq<(Seq<char>, Seq<char>)>,
    rich: Seq<JsonView>,
    prompt: Seq<char>,
) -> JsonView {
    JsonView::Object(seq![
        ("id"@, JsonView::Text(stored_id(game_id, "node"@, crate::json::text_or(node, "id"@, Seq::empty()), index))),
        ("node_type"@, JsonView::Text(crate::json::text_or(node, "node_type"@, "normal"@))),
        ("title"@, JsonView::Text(crate::json::text_or(node, "title"@, "节点"@))),
        ("original_text"@, JsonView::Text(crate::json::text_or(node, "original_text"@, Seq::empty()))),
        ("prompt"@, JsonView::Text(prompt)),
        ("prompt_rich"@, JsonView::Array(rich)),
        ("prompt_template_version"@, JsonView::Text(crate::game_materials::template_version(node))),
        ("video_url"@, match node.get("video_url"@) {
            Some(JsonView::Text(u)) => JsonView::Text(u),
            _ => JsonView::Null,
        }),
        ("duration_seconds"@, JsonView::Int(node_duration(node))),
        ("status"@, JsonView::Text(crate::json::text_or(node, "status"@, not_generated()))),
        ("position_x"@, JsonView::Int(position_of(node, "position_x"@, 80 + (index % 4) * 280))),
        ("position_y"@, JsonView::Int(position_of(node, "position_y"@, 80 + (index / 4) * 190))),
        ("reference_asset_ids"@, JsonView::Array(crate::serial_batch::text_values(crate::game_materials::rich_ref_ids(rich)))),
        ("first_last_frames"@, crate::game_materials::mapped_frame_object(node, materials)),
        ("placeholder_asset_id"@, text_or_null(mapped_field(node, "placeholder_asset_id"@, materials))),
        ("placeholder_scene_asset_id"@, text_or_null(mapped_field(node, "placeholder_scene_asset_id"@, materials))),
        ("placeholder_placements"@, value_or(node, "placeholder_placements"@, JsonView::Array(Seq::empty()))),
        ("video_history"@, value_or(node, "video_history"@, JsonView::Array(Seq::empty()))),
    ])
}

/// The record a planned node is kept as in the game's graph.
pub open spec fn node_record(
    game_id: Seq<char>,
    index: int,
    node: JsonView,
    materials: Seq<(Seq<char>, Seq<char>)>,
    rich: Seq<JsonView>,
    prompt: Seq<char>,
) -> JsonView {
    JsonView::Object(seq![
        ("id"@, JsonView::Text(stored_id(game_id, "node"@, crate::json::text_or(node, "id"@, Seq::empty()), index))),
        ("node_type"@, at(node, "node_type"@)),
        ("title"@, at(node, "title"@)),
        ("original_text"@, at(node, "original_text"@)),
        ("prompt"@, JsonView::Text(prompt)),
        ("prompt_rich"@, JsonView::Array(rich)),
        ("prompt_template_version"@, JsonView::Text(crate::game_materials::template_version(node))),
        ("reference_asset_ids"@, JsonView::Array(crate::serial_batch::text_values(crate::game_materials::rich_ref_ids(rich)))),
        ("first_last_frames"@, crate::game_materials::mapped_frame_object(node, materials)),
        ("placeholder_asset_id"@, text_or_null(mapped_field(node, "placeholder_asset_id"@, materials))),
        ("placeholder_scene_asset_id"@, text_or_null(mapped_field(node, "placeholder_scene_asset_id"@, materials))),
        ("placeholder_placements"@, value_or(node, "placeholder_placements"@, JsonView::Array(Seq::empty()))),
        ("duration_seconds"@, JsonView::Int(node_duration(node))),
        ("status"@, JsonView::Text(crate::json::text_or(node, "status"@, not_generated()))),
    ])
}

/// A saved graph item: its stored row, and the record the game keeps of it.
#[derive(Debug)]
pub struct SavedItem {
    pub row: Json,
    pub record: Json,
}

fn mapped_field_of(node: &Json, key: &str, materials: &Vec<(String, String)>) -> (r: Option<String>)
    ensures
        crate::storage::opt_text_view(r) == mapped_field(node@, key@, pair_views(materials@)),
{
    match node.get(key) {
        Some(Json::Text(s)) => crate::game_materials::mapped_asset_id(Some(s.as_str()), materials),
        other => {
            proof {
                match other {
                    Some(v) => crate::json::lemma_view_variant(*v),
                    None => {},
                }
            }
            None
        },
    }
}

fn value_or_empty_list(node: &Json, key: &str) -> (r: Json)
    ensures
        r@ == value_or(node@, key@, JsonView::Array(Seq::empty())),
{
    match node.get(key) {
        Some(v) => crate::json::duplicate(v),
        None => {
            proof {
                crate::json::lemma_view_items(Seq::<Json>::empty());
                assert(view_items(Seq::<Json>::empty()) =~= Seq::<JsonView>::empty());
            }
            Json::Array(Vec::new())
        },
    }
}

fn position(node: &Json, key: &str, fallback: i64) -> (r: i64)
    ensures
        r == position_of(node@, key@, fallback as int),
{
    match node.get(key) {
        Some(Json::Int(p)) => *p,
        other => {
            proof {
                match other {
                    Some(v) => crate::json::lemma_view_variant(*v),
                    None => {},
                }
            }
            fallback
        },
    }
}

/// Save a planned node. `rich` and `prompt` are the rich prompt and prompt
/// text the planner wrote for it; `materials` says where each planned
/// material was saved.
pub fn graph_node(
    game_id: &str,
    index: usize,
    node: &Json,
    materials: &Vec<(String, String)>,
    rich: &Vec<Json>,
    prompt: &str,
) -> (r: SavedItem)
    requires
        index <= 1_000_000_000_000,
    ensures
        r.row@ == node_row(game_id@, index as int, node@, pair_views(materials@), view_items(rich@), prompt@),
        r.record@ == node_record(game_id@, index as int, node@, pair_views(materials@), view_items(rich@), prompt@),
{
    proof {
        reveal_strlit("");
        assert(""@ =~= Seq::<char>::empty());
    }
    let source = node.text_or("id", "");
    let id = stored_id_text(game_id, "node", source.as_str(), index);
    let mut refs: Vec<String> = Vec::new();
    proof {
        assert(texts_view(refs@) =~= Seq::<Seq<char>>::empty());
    }
    crate::game_materials::push_rich_refs(rich, &mut refs);
    proof {
        assert(Seq::<Seq<char>>::empty() + crate::game_materials::rich_ref_ids(view_items(rich@)) =~= crate::game_materials::rich_ref_ids(view_items(rich@)));
    }
    let frames = crate::game_materials::mapped_frames(node, materials);
    let placeholder = mapped_field_of(node, "placeholder_asset_id", materials);
    let scene = mapped_field_of(node, "placeholder_scene_asset_id", materials);
    let version = crate::game_materials::prompt_template_version(node);
    let duration = duration_of(node);
    let status = node.text_or("status", "未生成");
    let i = index as i64;
    let px = position(node, "position_x", 80 + (i % 4) * 280);
    let py = position(node, "position_y", 80 + (i / 4) * 190);
    let video_url = match node.get("video_url") {
        Some(Json::Text(u)) => Json::Text(u.clone()),
        other => {
            proof {
                match other {
                    Some(v) => crate::json::lemma_view_variant(*v),
                    None => {},
                }
            }
            Json::Null
        },
    };
    let row_entries: Vec<(String, Json)> = vec![
        ("id".to_owned(), Json::Text(id.clone())),
        ("node_type".to_owned(), Json::Text(node.text_or("node_type", "normal"))),
        ("title".to_owned(), Json::Text(node.text_or("title", "节点"))),
        ("original_text".to_owned(), Json::Text(node.text_or("original_text", ""))),
        ("prompt".to_owned(), Json::Text(prompt.to_owned())),
        ("prompt_rich".to_owned(), Json::Array(crate::json::copy_items(rich))),
        ("prompt_template_version".to_owned(), Json::Text(version.clone())),
        ("video_url".to_owned(), video_url),
        ("duration_seconds".to_owned(), Json::Int(duration)),
        ("status".to_owned(), Json::Text(status.clone())),
        ("position_x".to_owned(), Json::Int(px)),
        ("position_y".to_owned(), Json::Int(py)),
        ("reference_asset_ids".to_owned(), Json::Array(crate::game_placeholder::texts_values_of(&refs))),
        ("first_last_frames".to_owned(), crate::json::duplicate(&frames)),
        ("placeholder_asset_id".to_owned(), text_or_null_json(placeholder.clone())),
        ("placeholder_scene_asset_id".to_owned(), text_or_null_json(scene.clone())),
        ("placeholder_placements".to_owned(), value_or_empty_list(node, "placeholder_placements")),
        ("video_history".to_owned(), value_or_empty_list(node, "video_history")),
    ];
    proof {
        crate::json::lemma_view_entries(row_entries@);
        assert(view_entries(row_entries@) =~= node_row(game_id@, index as int, node@, pair_views(materials@), view_items(rich@), prompt@)->Object_0);
    }
    let record_entries: Vec<(String, Json)> = vec![
        ("id".to_owned(), Json::Text(id)),
        ("node_type".to_owned(), value_at(node, "node_type")),
        ("title".to_owned(), value_at(node, "title")),
        ("original_text".to_owned(), value_at(node, "original_text")),
        ("prompt".to_owned(), Json::Text(prompt.to_owned())),
        ("prompt_rich".to_owned(), Json::Array(crate::json::copy_items(rich))),
        ("prompt_template_version".to_owned(), Json::Text(version)),
        ("reference_asset_ids".to_owned(), Json::Array(crate::game_placeholder::texts_values_of(&refs))),
        ("first_last_frames".to_owned(), frames),
        ("placeholder_asset_id".to_owned(), text_or_null_json(placeholder)),
        ("placeholder_scene_asset_id".to_owned(), text_or_null_json(scene)),
        ("placeholder_placements".to_owned(), value_or_empty_list(node, "placeholder_placements")),
        ("duration_seconds".to_owned(), Json::Int(duration)),
        ("status".to_owned(), Json::Text(status)),
    ];
    proof {
        crate::json::lemma_view_entries(record_entries@);
        assert(view_entries(record_entries@) =~= node_record(game_id@, index as int, node@, pair_views(materials@), view_items(rich@), prompt@)->Object_0);
    }
    SavedItem { row: Json::Object(row_entries), record: Json::Object(record_entries) }
}

/// The stored row and record of a planned choice edge. Its ends are the
/// stored ids of the planned nodes it joins (empty when unknown).
pub open spec fn edge_row(game_id: Seq<char>, index: int, edge: JsonView, fresh: Seq<char>, nodes: Seq<(Seq<char>, Seq<char>)>) -> JsonView {
    JsonView::Object(seq![
        ("id"@, JsonView::Text(stored_id(game_id, "edge"@, source_id(edge, fresh), index))),
        ("source_node_id"@, JsonView::Text(edge_end(edge, "source_node_id"@, nodes))),
        ("target_node_id"@, JsonView::Text(edge_end(edge, "target_node_id"@, nodes))),
        ("option_text"@, JsonView::Text(crate::json::text_or(edge, "option_text"@, "继续"@))),
        ("sort_order"@, JsonView::Int(match edge.get("sort_order"@) {
            Some(JsonView::Int(s)) => s,
            _ => (index + 1) as i64,
        })),
        ("conditions"@, value_or(edge, "conditions"@, JsonView::Object(Seq::empty()))),
    ])
}

pub open spec fn edge_record(game_id: Seq<char>, index: int, edge: JsonView, fresh: Seq<char>, nodes: Seq<(Seq<char>, Seq<char>)>) -> JsonView {
    JsonView::Object(seq![
        ("id"@, JsonView::Text(stored_id(game_id, "edge"@, source_id(edge, fresh), index))),
        ("source_node_id"@, JsonView::Text(edge_end(edge, "source_node_id"@, nodes))),
        ("target_node_id"@, JsonView::Text(edge_end(edge, "target_node_id"@, nodes))),
        ("option_text"@, at(edge, "option_text"@)),
        ("sort_order"@, at(edge, "sort_order"@)),
        ("conditions"@, value_or(edge, "conditions"@, JsonView::Object(Seq::empty()))),
    ])
}

/// The stored node an end of a planned edge names, or empty.
pub open spec fn edge_end(edge: JsonView, key: Seq<char>, nodes: Seq<(Seq<char>, Seq<char>)>) -> Seq<char> {
    match pair_get(nodes, crate::json::text_or(edge, key, Seq::empty())) {
        Some(id) => id,
        None => Seq::empty(),
    }
}

fn end_of(edge: &Json, key: &str, nodes: &Vec<(String, String)>) -> (r: String)
    ensures
        r@ == edge_end(edge@, key@, pair_views(nodes@)),
{
    proof {
        reveal_strlit("");
        assert(""@ =~= Seq::<char>::empty());
    }
    let planned = edge.text_or(key, "");
    match crate::game_materials::mapped_asset_id(Some(planned.as_str()), nodes) {
        Some(id) => id,
        None => String::new(),
    }
}

fn conditions_of(edge: &Json) -> (r: Json)
    ensures
        r@ == value_or(edge@, "conditions"@, JsonView::Object(Seq::empty())),
{
    match edge.get("conditions") {
        Some(v) => crate::json::duplicate(v),
        None => {
            proof {
                crate::json::lemma_view_entries(Seq::<(String, Json)>::empty());
                assert(view_entries(Seq::<(String, Json)>::empty()) =~= Seq::<(Seq<char>, JsonView)>::empty());
            }
            Json::Object(Vec::new())
        },
    }
}

/// Save a planned choice edge. `fresh_id` names an edge without an id of its
/// own; `nodes` says where each planned node was saved.
pub fn graph_edge(game_id: &str, index: usize, edge: &Json, fresh_id: &str, nodes: &Vec<(String, String)>) -> (r: SavedItem)
    requires
        index < i64::MAX,
    ensures
        r.row@ == edge_row(game_id@, index as int, edge@, fresh_id@, pair_views(nodes@)),
        r.record@ == edge_record(game_id@, index as int, edge@, fresh_id@, pair_views(nodes@)),
{
    let source = end_of(edge, "source_node_id", nodes);
    let target = end_of(edge, "target_node_id", nodes);
    let planned = source_of(edge, fresh_id);
    let id = stored_id_text(game_id, "edge", planned.as_str(), index);
    let sort_order: i64 = match edge.get("sort_order") {
        Some(Json::Int(s)) => *s,
        other => {
            proof {
                match other {
                    Some(v) => crate::json::lemma_view_variant(*v),
                    None => {},
                }
            }
            (index as i64) + 1
        },
    };
    let row_entries: Vec<(String, Json)> = vec![
        ("id".to_owned(), Json::Text(id.clone())),
        ("source_node_id".to_owned(), Json::Text(source.clone())),
        ("target_node_id".to_owned(), Json::Text(target.clone())),
        ("option_text".to_owned(), Json::Text(edge.text_or("option_text", "继续"))),
        ("sort_order".to_owned(), Json::Int(sort_order)),
        ("conditions".to_owned(), conditions_of(edge)),
    ];
    proof {
        crate::json::lemma_view_entries(row_entries@);
        assert(view_entries(row_entries@) =~= edge_row(game_id@, index as int, edge@, fresh_id@, pair_views(nodes@))->Object_0);
    }
    let record_entries: Vec<(String, Json)> = vec![
        ("id".to_owned(), Json::Text(id)),
        ("source_node_id".to_owned(), Json::Text(source)),
        ("target_node_id".to_owned(), Json::Text(target)),
        ("option_text".to_owned(), value_at(edge, "option_text")),
        ("sort_order".to_owned(), value_at(edge, "sort_order")),
        ("conditions".to_owned(), conditions_of(edge)),
    ];
    proof {
        crate::json::lemma_view_entries(record_entries@);
        assert(view_entries(record_entries@) =~= edge_record(game_id@, index as int, edge@, fresh_id@, pair_views(nodes@))->Object_0);
    }
    SavedItem { row: Json::Object(row_entries), record: Json::Object(record_entries) }
}

/// What a node-prompt task freezes: the game, the node and the node's template version.
pub open spec fn node_prompt_input_of(game_id: Seq<char>, node_id: Seq<char>, version: Seq<char>) -> JsonView {
    JsonView::Object(seq![
        ("game_id"@, JsonView::Text(game_id)),
        ("node_id"@, JsonView::Text(node_id)),
        ("prompt_template_version"@, JsonView::Text(version)),
    ])
}

/// The input of a task that writes a node's prompt.
pub fn node_prompt_input(game_id: &str, node_id: &str, version: &str) -> (r: Json)
    ensures
        r@ == node_prompt_input_of(game_id@, node_id@, version@),
{
    let entries: Vec<(String, Json)> = vec![
        ("game_id".to_owned(), Json::Text(game_id.to_owned())),
        ("node_id".to_owned(), Json::Text(node_id.to_owned())),
        ("prompt_template_version".to_owned(), Json::Text(version.to_owned())),
    ];
    proof {
        crate::json::lemma_view_entries(entries@);
        assert(view_entries(entries@) =~= node_prompt_input_of(game_id@, node_id@, version@)->Object_0);
    }
    Json::Object(entries)
}

/// Whether a generated graph may still be saved: a graph produced by a
/// decomposition task is refused once that task is no longer the game's
/// running graph decomposition. `task` is the stored task with that id.
pub open spec fn graph_save_check(expected_task_id: Option<Seq<char>>, task: Option<JsonView>, game_id: Seq<char>) -> Result<(), AppErrorView> {
    match expected_task_id {
        None => Ok(()),
        Some(id) => if task matches Some(t) && t.get("id"@) == Some(JsonView::Text(id))
            && t.get("game_id"@) == Some(JsonView::Text(game_id))
            && t.get("type"@) == Some(JsonView::Text("game_graph_decomposition"@))
            && t.get("status"@) == Some(JsonView::Text("生成中"@)) {
            Ok(())
        } else {
            Err(AppErrorView::BadRequest("游戏图谱生成已停止"@))
        },
    }
}

/// Check that a generated graph may still be saved.
pub fn graph_task_check(expected_task_id: Option<&str>, task: Option<&Json>, game_id: &str) -> (r: Result<(), AppError>)
    ensures
        crate::error::unit_result(r) == graph_save_check(
            crate::graph::opt_text(expected_task_id),
            crate::game_state::opt_ref_json(task),
            game_id@,
        ),
{
    match expected_task_id {
        None => Ok(()),
        Some(id) => {
            let running = match task {
                Some(t) => crate::placeholder::has_text(t.get("id"), id) && crate::placeholder::has_text(t.get("game_id"), game_id)
                    && crate::placeholder::has_text(t.get("type"), "game_graph_decomposition")
                    && crate::placeholder::has_text(t.get("status"), "生成中"),
                None => false,
            };
            if running {
                Ok(())
            } else {
                Err(AppError::bad_request("游戏图谱生成已停止"))
            }
        },
    }
}

/// What a saved video length must be for the length a planned node asks
/// for: an integer length from 4 to 15 seconds is kept as it is, a shorter
/// one becomes 4, a longer one 15, and a node without an integer length
/// gets 10.
pub open spec fn keeps_requested_length(node: JsonView, saved: Option<JsonView>) -> bool {
    match node.get("duration_seconds"@) {
        Some(JsonView::Int(d)) => {
            &&& (4 <= d && d <= 15 ==> saved == Some(JsonView::Int(d)))
            &&& (d < 4 ==> saved == Some(JsonView::Int(4)))
            &&& (d > 15 ==> saved == Some(JsonView::Int(15)))
        },
        _ => saved == Some(JsonView::Int(10)),
    }
}

/// A saved node keeps the video length it asked for, brought into 4 to 15
/// seconds (10 when it asked for none): in its stored row, in the record the
/// game keeps, and in what its prompt is written from.
pub proof fn lemma_saved_node_keeps_its_length(
    game_id: Seq<char>,
    index: int,
    node: JsonView,
    materials: Seq<(Seq<char>, Seq<char>)>,
    rich: Seq<JsonView>,
    prompt: Seq<char>,
)
    ensures
        keeps_requested_length(node, node_row(game_id, index, node, materials, rich, prompt).get("duration_seconds"@)),
        keeps_requested_length(node, node_record(game_id, index, node, materials, rich, prompt).get("duration_seconds"@)),
        keeps_requested_length(node, draft_of(node).get("duration_seconds"@)),
{
    reveal_strlit("duration_seconds");
    reveal_strlit("id");
    reveal_strlit("node_type");
    reveal_strlit("title");
    reveal_strlit("original_text");
    reveal_strlit("prompt");
    reveal_strlit("prompt_rich");
    reveal_strlit("prompt_template_version");
    reveal_strlit("video_url");
    reveal_strlit("reference_asset_ids");
    reveal_strlit("first_last_frames");
    reveal_strlit("placeholder_asset_id");
    reveal_strlit("placeholder_scene_asset_id");
    reveal_strlit("placeholder_placements");
    let key = "duration_seconds"@;
    let row = node_row(game_id, index, node, materials, rich, prompt)->Object_0;
    assert forall|j: int| 0 <= j < 8 implies #[trigger] row[j].0 != key by {
        assert(row[j].0.len() != key.len());
    }
    crate::json::lemma_lookup_found(row, key, 8);
    let record = node_record(game_id, index, node, materials, rich, prompt)->Object_0;
    assert forall|j: int| 0 <= j < 12 implies #[trigger] record[j].0 != key by {
        assert(record[j].0.len() != key.len());
    }
    crate::json::lemma_lookup_found(record, key, 12);
    let draft = draft_of(node)->Object_0;
    assert(draft[0].0.len() != key.len());
    crate::json::lemma_lookup_found(draft, key, 1);
}

} // verus!
