//! Materials of an interactive game: the default materials every game has,
//! the mapping from planned ids to stored ids, and the rich prompt and
//! reference lists a node may name.

use vstd::prelude::*;

use crate::error::{unit_result, AppError, AppErrorView};
use crate::json::{duplicate, str_eq, text, text_or, view_entries, view_items, Entries, Json, JsonView};
use crate::text::{chars_of, concat, trim, trimmed};

verus! {

pub open spec fn pair_views(v: Seq<(String, String)>) -> Seq<(Seq<char>, Seq<char>)> {
    crate::skills::pairs_view(v)
}

/// The value stored under `key` (its first entry).
pub open spec fn pair_get(m: Seq<(Seq<char>, Seq<char>)>, key: Seq<char>) -> Option<Seq<char>> {
    crate::skills::meta_get(m, key)
}

/// The stored id of a planned material id.
pub fn mapped_asset_id(source: Option<&str>, assets: &Vec<(String, String)>) -> (r: Option<String>)
    ensures
        crate::storage::opt_text_view(r) == match source {
            Some(id) => pair_get(pair_views(assets@), id@),
            None => None,
        },
{
    match source {
        Some(id) => {
            let ghost all = pair_views(assets@);
            let mut i: usize = 0;
            proof {
                assert(all.subrange(0, all.len() as int) =~= all);
            }
            while i < assets.len()
                invariant
                    i <= assets.len(),
                    source == Some(id),
                    all == pair_views(assets@),
                    pair_get(all, id@) == pair_get(all.subrange(i as int, all.len() as int), id@),
                decreases assets.len() - i,
            {
                let ghost rest = all.subrange(i as int, all.len() as int);
                proof {
                    assert(rest[0] == (assets@[i as int].0@, assets@[i as int].1@));
                }
                if str_eq(assets[i].0.as_str(), id) {
                    return Some(assets[i].1.clone());
                }
                proof {
                    assert(rest.drop_first() =~= all.subrange(i + 1, all.len() as int));
                }
                i += 1;
            }
            proof {
                assert(all.subrange(i as int, all.len() as int) =~= Seq::<(Seq<char>, Seq<char>)>::empty());
            }
            None
        },
        None => None,
    }
}

/// Texts without repeats, each kept where it first appears.
pub open spec fn deduped(values: Seq<Seq<char>>) -> Seq<Seq<char>>
    decreases values.len(),
{
    if values.len() == 0 {
        values
    } else {
        let before = deduped(values.drop_last());
        if before.contains(values.last()) {
            before
        } else {
            before.push(values.last())
        }
    }
}

/// Keep the first occurrence of every text.
pub fn dedupe(values: Vec<String>) -> (r: Vec<String>)
    ensures
        crate::forms::texts_view(r@) == deduped(crate::forms::texts_view(values@)),
{
    let ghost all = crate::forms::texts_view(values@);
    let mut unique: Vec<String> = Vec::new();
    let mut i: usize = 0;
    proof {
        assert(all.subrange(0, 0) =~= Seq::<Seq<char>>::empty());
        assert(crate::forms::texts_view(unique@) =~= Seq::<Seq<char>>::empty());
    }
    while i < values.len()
        invariant
            i <= values.len(),
            all == crate::forms::texts_view(values@),
            crate::forms::texts_view(unique@) == deduped(all.subrange(0, i as int)),
        decreases values.len() - i,
    {
        proof {
            let next = all.subrange(0, i + 1);
            assert(next.drop_last() =~= all.subrange(0, i as int));
            assert(next.last() == values@[i as int]@);
        }
        let mut seen = false;
        let mut j: usize = 0;
        while j < unique.len()
            invariant
                i < values.len(),
                j <= unique.len(),
                seen == exists|k: int| 0 <= k < j && unique@[k]@ == values@[i as int]@,
            decreases unique.len() - j,
        {
            if str_eq(unique[j].as_str(), values[i].as_str()) {
                seen = true;
            }
            j += 1;
        }
        proof {
            let tv = crate::forms::texts_view(unique@);
            if seen {
                let k = choose|k: int| 0 <= k < unique.len() && unique@[k]@ == values@[i as int]@;
                assert(tv[k] == values@[i as int]@);
            } else {
                assert forall|k: int| 0 <= k < tv.len() implies tv[k] != values@[i as int]@ by {
                    assert(tv[k] == unique@[k]@);
                }
            }
        }
        if !seen {
            let ghost before = crate::forms::texts_view(unique@);
            unique.push(values[i].clone());
            proof {
                assert(crate::forms::texts_view(unique@) =~= before.push(values@[i as int]@));
            }
        }
        i += 1;
    }
    proof {
        assert(all.subrange(0, values.len() as int) =~= all);
    }
    unique
}

/// The prompt template of a node: `v1` or `v2`, `v1` when unset or unknown.
pub open spec fn template_version(node: JsonView) -> Seq<char> {
    match node.get("prompt_template_version"@) {
        Some(JsonView::Text(v)) => if v == "v1"@ || v == "v2"@ {
            v
        } else {
            "v1"@
        },
        _ => "v1"@,
    }
}

/// The prompt template version of a node.
pub fn prompt_template_version(node: &Json) -> (r: String)
    ensures
        r@ == template_version(node@),
{
    match node.get("prompt_template_version") {
        Some(Json::Text(v)) => if str_eq(v.as_str(), "v1") || str_eq(v.as_str(), "v2") {
            v.clone()
        } else {
            "v1".to_owned()
        },
        other => {
            proof {
                match other {
                    Some(v) => crate::json::lemma_view_variant(*v),
                    None => {},
                }
            }
            "v1".to_owned()
        },
    }
}

/// Accept a requested prompt template version: `v1` or `v2`.
pub fn prompt_template_version_value(value: &str) -> (r: Result<String, AppError>)
    ensures
        crate::forms::text_result(r) == if value@ == "v1"@ || value@ == "v2"@ {
            Ok::<Seq<char>, AppErrorView>(value@)
        } else {
            Err(AppErrorView::BadRequest("提示词模板仅支持 v1 或 v2"@))
        },
{
    if str_eq(value, "v1") || str_eq(value, "v2") {
        Ok(value.to_owned())
    } else {
        Err(AppError::bad_request("提示词模板仅支持 v1 或 v2"))
    }
}

/// Whether some item is an object whose `type` is `kind`.
pub open spec fn has_type(items: Seq<JsonView>, kind: Seq<char>) -> bool {
    exists|i: int| 0 <= i < items.len() && #[trigger] items[i].get("type"@) == Some(JsonView::Text(kind))
}

/// The default node placeholder material.
pub open spec fn default_placeholder() -> JsonView {
    JsonView::Object(seq![
        ("id"@, JsonView::Text("placeholder_default"@)),
        ("name"@, JsonView::Text("节点占位图"@)),
        ("prompt"@, JsonView::Text("互动游戏节点构图与站位占位图，清晰标注人物、场景和镜头留白。"@)),
        ("status"@, JsonView::Text("未生成"@)),
        ("type"@, JsonView::Text("placeholder"@)),
    ])
}

/// The default cover material.
pub open spec fn default_cover() -> JsonView {
    JsonView::Object(seq![
        ("id"@, JsonView::Text("cover_default"@)),
        ("name"@, JsonView::Text("互动游戏封面"@)),
        ("prompt"@, JsonView::Text("互动游戏封面视觉提示词；突出主角、核心场景与分支抉择氛围。"@)),
        ("status"@, JsonView::Text("未生成"@)),
        ("type"@, JsonView::Text("cover"@)),
    ])
}

/// The materials of a game: the planned ones, then a node placeholder and
/// a cover for whichever of the two kinds is missing.
pub open spec fn completed_materials(assets: Seq<JsonView>) -> Seq<JsonView> {
    let with_placeholder = if has_type(assets, "placeholder"@) {
        assets
    } else {
        assets.push(default_placeholder())
    };
    if has_type(with_placeholder, "cover"@) {
        with_placeholder
    } else {
        with_placeholder.push(default_cover())
    }
}

fn any_of_type(items: &Vec<Json>, kind: &str) -> (r: bool)
    ensures
        r == has_type(view_items(items@), kind@),
{
    proof {
        crate::json::lemma_view_items(items@);
    }
    let ghost iv = view_items(items@);
    let mut i: usize = 0;
    while i < items.len()
        invariant
            i <= items.len(),
            iv == view_items(items@),
            iv.len() == items.len(),
            forall|k: int| 0 <= k < items.len() ==> #[trigger] iv[k] == items@[k]@,
            forall|k: int| 0 <= k < i ==> #[trigger] iv[k].get("type"@) != Some(JsonView::Text(kind@)),
        decreases items.len() - i,
    {
        let matches = match items[i].get("type") {
            Some(Json::Text(t)) => str_eq(t.as_str(), kind),
            other => {
                proof {
                    match other {
                        Some(v) => crate::json::lemma_view_variant(*v),
                        None => {},
                    }
                }
                false
            },
        };
        if matches {
            assert(iv[i as int].get("type"@) == Some(JsonView::Text(kind@)));
            return true;
        }
        i += 1;
    }
    false
}

fn material(id: &str, name: &str, prompt: &str, kind: &str) -> (r: Json)
    ensures
        r@ == JsonView::Object(seq![
            ("id"@, JsonView::Text(id@)),
            ("name"@, JsonView::Text(name@)),
            ("prompt"@, JsonView::Text(prompt@)),
            ("status"@, JsonView::Text("未生成"@)),
            ("type"@, JsonView::Text(kind@)),
        ]),
{
    let mut e: Vec<(String, Json)> = Vec::new();
    e.push(("id".to_owned(), text(id)));
    e.push(("name".to_owned(), text(name)));
    e.push(("prompt".to_owned(), text(prompt)));
    e.push(("status".to_owned(), text("未生成")));
    e.push(("type".to_owned(), text(kind)));
    proof {
        crate::json::lemma_view_entries(e@);
        assert(view_entries(e@) =~= seq![
            ("id"@, JsonView::Text(id@)),
            ("name"@, JsonView::Text(name@)),
            ("prompt"@, JsonView::Text(prompt@)),
            ("status"@, JsonView::Text("未生成"@)),
            ("type"@, JsonView::Text(kind@)),
        ]);
    }
    Json::Object(e)
}

/// Add the default placeholder and cover materials a game lacks.
pub fn complete_materials(assets: &Vec<Json>) -> (r: Vec<Json>)
    ensures
        view_items(r@) == completed_materials(view_items(assets@)),
{
    let mut materials = crate::json::copy_items(assets);
    if !any_of_type(&materials, "placeholder") {
        let item = material(
            "placeholder_default",
            "节点占位图",
            "互动游戏节点构图与站位占位图，清晰标注人物、场景和镜头留白。",
            "placeholder",
        );
        proof {
            crate::json::lemma_view_items_push(materials@, item);
        }
        materials.push(item);
    }
    if !any_of_type(&materials, "cover") {
        let item = material(
            "cover_default",
            "互动游戏封面",
            "互动游戏封面视觉提示词；突出主角、核心场景与分支抉择氛围。",
            "cover",
        );
        proof {
            crate::json::lemma_view_items_push(materials@, item);
        }
        materials.push(item);
    }
    materials
}

/// The stored type of a game material, looked up by id.
pub open spec fn asset_check(assets: Seq<(Seq<char>, Seq<char>)>, asset_id: Seq<char>, kind: Option<Seq<char>>) -> Result<(), AppErrorView> {
    match pair_get(assets, asset_id) {
        Some(found) => if kind is None || kind == Some(found) {
            Ok(())
        } else {
            Err(AppErrorView::BadRequest("素材类型不匹配："@ + asset_id))
        },
        None => Err(AppErrorView::BadRequest("素材不存在："@ + asset_id)),
    }
}

/// Require that a game holds a material with this id (and of this kind, when one is named).
/// `assets` lists the game's materials as (id, type) pairs.
pub fn require_asset(assets: &Vec<(String, String)>, asset_id: &str, kind: Option<&str>) -> (r: Result<(), AppError>)
    ensures
        unit_result(r) == asset_check(pair_views(assets@), asset_id@, crate::graph::opt_text(kind)),
{
    match mapped_asset_id(Some(asset_id), assets) {
        Some(found) => {
            let ok = match kind {
                None => true,
                Some(k) => str_eq(k, found.as_str()),
            };
            if ok {
                Ok(())
            } else {
                Err(AppError::BadRequest(concat("素材类型不匹配：", asset_id)))
            }
        },
        None => Err(AppError::BadRequest(concat("素材不存在：", asset_id))),
    }
}

/// One rich prompt node after checking: text nodes keep their text,
/// reference nodes name an existing material of the game.
pub open spec fn rich_node(node: JsonView, assets: Seq<(Seq<char>, Seq<char>)>) -> Result<JsonView, AppErrorView> {
    match node.get("type"@) {
        Some(JsonView::Text(kind)) => if kind == "text"@ {
            Ok(JsonView::Object(seq![
                ("text"@, JsonView::Text(text_or(node, "text"@, ""@))),
                ("type"@, JsonView::Text("text"@)),
            ]))
        } else if kind != "reference"@ {
            Err(AppErrorView::BadRequest("prompt_rich 仅支持 text 或 reference 节点"@))
        } else {
            let id = match node.get("asset_id"@) {
                Some(JsonView::Text(s)) => trimmed(s),
                _ => Seq::empty(),
            };
            if id.len() == 0 {
                Err(AppErrorView::BadRequest("参考图缺少 asset_id"@))
            } else {
                match asset_check(assets, id, None) {
                    Err(e) => Err(e),
                    Ok(()) => Ok(JsonView::Object(seq![
                        ("asset_id"@, JsonView::Text(id)),
                        ("asset_type"@, JsonView::Text(text_or(node, "asset_type"@, "placeholder"@))),
                        ("image_url"@, match node.get("image_url"@) {
                            Some(v) => v,
                            None => JsonView::Null,
                        }),
                        ("label"@, JsonView::Text(text_or(node, "label"@, "占位图"@))),
                        ("mention_number"@, match node.get("mention_number"@) {
                            Some(v) => v,
                            None => JsonView::Null,
                        }),
                        ("type"@, JsonView::Text("reference"@)),
                    ])),
                }
            }
        },
        _ => Err(AppErrorView::BadRequest("prompt_rich 节点缺少 type"@)),
    }
}

/// Checked rich prompt nodes, in order, stopping at the first refused node.
pub open spec fn rich_nodes(nodes: Seq<JsonView>, assets: Seq<(Seq<char>, Seq<char>)>) -> Result<Seq<JsonView>, AppErrorView>
    decreases nodes.len(),
{
    if nodes.len() == 0 {
        Ok(Seq::empty())
    } else {
        match rich_nodes(nodes.drop_last(), assets) {
            Err(e) => Err(e),
            Ok(done) => match rich_node(nodes.last(), assets) {
                Err(e) => Err(e),
                Ok(n) => Ok(done.push(n)),
            },
        }
    }
}

proof fn lemma_rich_nodes_error(nodes: Seq<JsonView>, assets: Seq<(Seq<char>, Seq<char>)>, k: int)
    requires
        0 <= k <= nodes.len(),
        rich_nodes(nodes.subrange(0, k), assets) is Err,
    ensures
        rich_nodes(nodes, assets) == rich_nodes(nodes.subrange(0, k), assets),
    decreases nodes.len() - k,
{
    if k < nodes.len() {
        assert(nodes.drop_last().subrange(0, k) =~= nodes.subrange(0, k));
        lemma_rich_nodes_error(nodes.drop_last(), assets, k);
    } else {
        assert(nodes.subrange(0, k) =~= nodes);
    }
}

fn check_rich_node(node: &Json, assets: &Vec<(String, String)>) -> (r: Result<Json, AppError>)
    ensures
        crate::game_state::json_result(r) == rich_node(node@, pair_views(assets@)),
{
    let kind = match node.get("type") {
        Some(Json::Text(k)) => k,
        other => {
            proof {
                match other {
                    Some(v) => crate::json::lemma_view_variant(*v),
                    None => {},
                }
            }
            return Err(AppError::bad_request("prompt_rich 节点缺少 type"));
        },
    };
    if str_eq(kind.as_str(), "text") {
        let mut e: Vec<(String, Json)> = Vec::new();
        e.push(("text".to_owned(), Json::Text(node.text_or("text", ""))));
        e.push(("type".to_owned(), text("text")));
        proof {
            crate::json::lemma_view_entries(e@);
            assert(view_entries(e@) =~= seq![
                ("text"@, JsonView::Text(text_or(node@, "text"@, ""@))),
                ("type"@, JsonView::Text("text"@)),
            ]);
        }
        return Ok(Json::Object(e));
    }
    if !str_eq(kind.as_str(), "reference") {
        return Err(AppError::bad_request("prompt_rich 仅支持 text 或 reference 节点"));
    }
    let id = match node.get("asset_id") {
        Some(Json::Text(s)) => trim(s.as_str()),
        other => {
            proof {
                match other {
                    Some(v) => crate::json::lemma_view_variant(*v),
                    None => {},
                }
            }
            String::new()
        },
    };
    if chars_of(id.as_str()).len() == 0 {
        return Err(AppError::bad_request("参考图缺少 asset_id"));
    }
    if let Err(e) = require_asset(assets, id.as_str(), None) {
        return Err(e);
    }
    let image_url = match node.get("image_url") {
        Some(v) => duplicate(v),
        None => Json::Null,
    };
    let mention = match node.get("mention_number") {
        Some(v) => duplicate(v),
        None => Json::Null,
    };
    let mut e: Vec<(String, Json)> = Vec::new();
    e.push(("asset_id".to_owned(), Json::Text(id)));
    e.push(("asset_type".to_owned(), Json::Text(node.text_or("asset_type", "placeholder"))));
    e.push(("image_url".to_owned(), image_url));
    e.push(("label".to_owned(), Json::Text(node.text_or("label", "占位图"))));
    e.push(("mention_number".to_owned(), mention));
    e.push(("type".to_owned(), text("reference")));
    proof {
        crate::json::lemma_view_entries(e@);
    }
    let r = Json::Object(e);
    proof {
        assert(r@ == rich_node(node@, pair_views(assets@))->Ok_0) by {
            assert(view_entries(e@) =~= rich_node(node@, pair_views(assets@))->Ok_0->Object_0);
        }
    }
    Ok(r)
}

/// Check a node's rich prompt: an array of text and reference nodes whose
/// references name materials of the game (`assets`, as (id, type) pairs).
pub fn prompt_rich_nodes(value: &Json, assets: &Vec<(String, String)>) -> (r: Result<Vec<Json>, AppError>)
    ensures
        match r {
            Ok(v) => value@ is Array && rich_nodes(value@->Array_0, pair_views(assets@)) == Ok::<Seq<JsonView>, AppErrorView>(view_items(v@)),
            Err(e) => if value@ is Array {
                rich_nodes(value@->Array_0, pair_views(assets@)) == Err::<Seq<JsonView>, AppErrorView>(e@)
            } else {
                e@ == AppErrorView::BadRequest("prompt_rich 必须是数组"@)
            },
        },
{
    proof {
        crate::json::lemma_view_variant(*value);
    }
    let nodes = match value {
        Json::Array(nodes) => nodes,
        _ => {
            return Err(AppError::bad_request("prompt_rich 必须是数组"));
        },
    };
    proof {
        crate::json::lemma_view_items(nodes@);
    }
    let ghost nv = view_items(nodes@);
    let mut normalized: Vec<Json> = Vec::new();
    let mut i: usize = 0;
    proof {
        assert(nv.subrange(0, 0) =~= Seq::<JsonView>::empty());
        assert(view_items(normalized@) =~= Seq::<JsonView>::empty());
    }
    while i < nodes.len()
        invariant
            i <= nodes.len(),
            nv == view_items(nodes@),
            nv.len() == nodes.len(),
            value@ == JsonView::Array(nv),
            forall|k: int| 0 <= k < nodes.len() ==> #[trigger] nv[k] == nodes@[k]@,
            rich_nodes(nv.subrange(0, i as int), pair_views(assets@)) == Ok::<Seq<JsonView>, AppErrorView>(view_items(normalized@)),
        decreases nodes.len() - i,
    {
        proof {
            let next = nv.subrange(0, i + 1);
            assert(next.drop_last() =~= nv.subrange(0, i as int));
            assert(next.last() == nodes@[i as int]@);
        }
        let node = match check_rich_node(&nodes[i], assets) {
            Ok(n) => n,
            Err(e) => {
                proof {
                    lemma_rich_nodes_error(nv, pair_views(assets@), i + 1);
                    assert(nv.subrange(0, nv.len() as int) =~= nv);
                }
                return Err(e);
            },
        };
        proof {
            crate::json::lemma_view_items_push(normalized@, node);
        }
        normalized.push(node);
        i += 1;
    }
    proof {
        assert(nv.subrange(0, nodes.len() as int) =~= nv);
    }
    Ok(normalized)
}

/// The trimmed non-empty ids of a reference list, each checked against the
/// game's materials, without repeats.
pub open spec fn checked_ids(items: Seq<JsonView>, assets: Seq<(Seq<char>, Seq<char>)>) -> Result<Seq<Seq<char>>, AppErrorView>
    decreases items.len(),
{
    if items.len() == 0 {
        Ok(Seq::empty())
    } else {
        match checked_ids(items.drop_last(), assets) {
            Err(e) => Err(e),
            Ok(ids) => match items.last() {
                JsonView::Text(s) => if trimmed(s).len() == 0 {
                    Ok(ids)
                } else {
                    match asset_check(assets, trimmed(s), None) {
                        Err(e) => Err(e),
                        Ok(()) => Ok(ids.push(trimmed(s))),
                    }
                },
                _ => Ok(ids),
            },
        }
    }
}

proof fn lemma_checked_ids_error(items: Seq<JsonView>, assets: Seq<(Seq<char>, Seq<char>)>, k: int)
    requires
        0 <= k <= items.len(),
        checked_ids(items.subrange(0, k), assets) is Err,
    ensures
        checked_ids(items, assets) == checked_ids(items.subrange(0, k), assets),
    decreases items.len() - k,
{
    if k < items.len() {
        assert(items.drop_last().subrange(0, k) =~= items.subrange(0, k));
        lemma_checked_ids_error(items.drop_last(), assets, k);
    } else {
        assert(items.subrange(0, k) =~= items);
    }
}

/// Check a node's reference list against the game's materials.
pub fn reference_ids(value: &Json, assets: &Vec<(String, String)>) -> (r: Result<Vec<String>, AppError>)
    ensures
        match r {
            Ok(v) => value@ is Array && (checked_ids(value@->Array_0, pair_views(assets@)) matches Ok(ids)
                && crate::forms::texts_view(v@) == deduped(ids)),
            Err(e) => if value@ is Array {
                checked_ids(value@->Array_0, pair_views(assets@)) == Err::<Seq<Seq<char>>, AppErrorView>(e@)
            } else {
                e@ == AppErrorView::BadRequest("reference_asset_ids 必须是数组"@)
            },
        },
{
    proof {
        crate::json::lemma_view_variant(*value);
    }
    let items = match value {
        Json::Array(items) => items,
        _ => {
            return Err(AppError::bad_request("reference_asset_ids 必须是数组"));
        },
    };
    proof {
        crate::json::lemma_view_items(items@);
    }
    let ghost iv = view_items(items@);
    let mut ids: Vec<String> = Vec::new();
    let mut i: usize = 0;
    proof {
        assert(iv.subrange(0, 0) =~= Seq::<JsonView>::empty());
        assert(crate::forms::texts_view(ids@) =~= Seq::<Seq<char>>::empty());
    }
    while i < items.len()
        invariant
            i <= items.len(),
            iv == view_items(items@),
            iv.len() == items.len(),
            value@ == JsonView::Array(iv),
            forall|k: int| 0 <= k < items.len() ==> #[trigger] iv[k] == items@[k]@,
            checked_ids(iv.subrange(0, i as int), pair_views(assets@)) == Ok::<Seq<Seq<char>>, AppErrorView>(crate::forms::texts_view(ids@)),
        decreases items.len() - i,
    {
        proof {
            let next = iv.subrange(0, i + 1);
            assert(next.drop_last() =~= iv.subrange(0, i as int));
            assert(next.last() == items@[i as int]@);
            crate::json::lemma_view_variant(items@[i as int]);
        }
        if let Json::Text(raw) = &items[i] {
            let id = trim(raw.as_str());
            if chars_of(id.as_str()).len() > 0 {
                if let Err(e) = require_asset(assets, id.as_str(), None) {
                    proof {
                        lemma_checked_ids_error(iv, pair_views(assets@), i + 1);
                        assert(iv.subrange(0, iv.len() as int) =~= iv);
                    }
                    return Err(e);
                }
                let ghost before = crate::forms::texts_view(ids@);
                ids.push(id);
                proof {
                    assert(crate::forms::texts_view(ids@) =~= before.push(trimmed(raw@)));
                }
            }
        }
        i += 1;
    }
    proof {
        assert(iv.subrange(0, items.len() as int) =~= iv);
    }
    Ok(dedupe(ids))
}

/// The stored ids of the planned ids a list names, in order (unmapped ids dropped).
pub open spec fn mapped_ids(items: Seq<JsonView>, assets: Seq<(Seq<char>, Seq<char>)>) -> Seq<Seq<char>>
    decreases items.len(),
{
    if items.len() == 0 {
        Seq::empty()
    } else {
        let before = mapped_ids(items.drop_last(), assets);
        match items.last() {
            JsonView::Text(s) => match pair_get(assets, s) {
                Some(id) => before.push(id),
                None => before,
            },
            _ => before,
        }
    }
}

/// A node's references, mapped to stored ids, without repeats.
pub open spec fn mapped_reference_list(node: JsonView, assets: Seq<(Seq<char>, Seq<char>)>) -> JsonView {
    let items = match node.get("reference_asset_ids"@) {
        Some(JsonView::Array(items)) => items,
        _ => Seq::empty(),
    };
    JsonView::Array(crate::settings_models::text_items(deduped(mapped_ids(items, assets))))
}

/// Map a planned node's references to the stored material ids.
pub fn mapped_references(node: &Json, assets: &Vec<(String, String)>) -> (r: Json)
    ensures
        r@ == mapped_reference_list(node@, pair_views(assets@)),
{
    let empty: Vec<Json> = Vec::new();
    let items: &Vec<Json> = match node.get("reference_asset_ids") {
        Some(Json::Array(items)) => items,
        other => {
            proof {
                match other {
                    Some(v) => crate::json::lemma_view_variant(*v),
                    None => {},
                }
                crate::json::lemma_view_items(empty@);
                assert(view_items(empty@) =~= Seq::<JsonView>::empty());
            }
            &empty
        },
    };
    proof {
        crate::json::lemma_view_items(items@);
    }
    let ghost iv = view_items(items@);
    let mut ids: Vec<String> = Vec::new();
    let mut i: usize = 0;
    proof {
        assert(iv.subrange(0, 0) =~= Seq::<JsonView>::empty());
        assert(crate::forms::texts_view(ids@) =~= Seq::<Seq<char>>::empty());
    }
    while i < items.len()
        invariant
            i <= items.len(),
            iv == view_items(items@),
            iv.len() == items.len(),
            forall|k: int| 0 <= k < items.len() ==> #[trigger] iv[k] == items@[k]@,
            crate::forms::texts_view(ids@) == mapped_ids(iv.subrange(0, i as int), pair_views(assets@)),
        decreases items.len() - i,
    {
        proof {
            let next = iv.subrange(0, i + 1);
            assert(next.drop_last() =~= iv.subrange(0, i as int));
            assert(next.last() == items@[i as int]@);
            crate::json::lemma_view_variant(items@[i as int]);
        }
        if let Json::Text(raw) = &items[i] {
            if let Some(id) = mapped_asset_id(Some(raw.as_str()), assets) {
                let ghost before = crate::forms::texts_view(ids@);
                ids.push(id);
                proof {
                    assert(crate::forms::texts_view(ids@) =~= before.push(ids@[ids.len() - 1]@));
                }
            }
        }
        i += 1;
    }
    proof {
        assert(iv.subrange(0, items.len() as int) =~= iv);
    }
    let unique = dedupe(ids);
    let mut list: Vec<Json> = Vec::new();
    let mut j: usize = 0;
    while j < unique.len()
        invariant
            j <= unique.len(),
            list.len() == j,
            forall|k: int| 0 <= k < j ==> #[trigger] list@[k]@ == JsonView::Text(unique@[k]@),
        decreases unique.len() - j,
    {
        list.push(text(unique[j].as_str()));
        j += 1;
    }
    proof {
        crate::json::lemma_view_items(list@);
        let tv = crate::forms::texts_view(unique@);
        assert forall|k: int| 0 <= k < list.len() implies view_items(list@)[k] == crate::settings_models::text_items(tv)[k] by {
            assert(tv[k] == unique@[k]@);
            assert(list@[k]@ == JsonView::Text(unique@[k]@));
        }
        assert(view_items(list@) =~= crate::settings_models::text_items(tv));
    }
    Json::Array(list)
}

/// The stored material id a planned frame reference names, if any.
pub open spec fn frame_id(node: JsonView, side: Seq<char>, assets: Seq<(Seq<char>, Seq<char>)>) -> Option<Seq<char>> {
    match crate::json::get_in(crate::json::get_in(node.get("first_last_frames"@), side), "asset_id"@) {
        Some(JsonView::Text(id)) => pair_get(assets, id),
        _ => None,
    }
}

/// The frame object stored for one side.
pub open spec fn frame_entry(side: Seq<char>, id: Option<Seq<char>>) -> Entries {
    match id {
        Some(i) => seq![(side, JsonView::Object(seq![("asset_id"@, JsonView::Text(i))]))],
        None => Seq::empty(),
    }
}

/// A node's first and last frame references, mapped to stored material ids.
pub open spec fn mapped_frame_object(node: JsonView, assets: Seq<(Seq<char>, Seq<char>)>) -> JsonView {
    JsonView::Object(frame_entry("first"@, frame_id(node, "first"@, assets)) + frame_entry("last"@, frame_id(node, "last"@, assets)))
}

fn frame_of(node: &Json, side: &str, assets: &Vec<(String, String)>) -> (r: Option<String>)
    ensures
        crate::storage::opt_text_view(r) == frame_id(node@, side@, pair_views(assets@)),
{
    let frames = match node.get("first_last_frames") {
        Some(f) => f,
        None => {
            return None;
        },
    };
    let chosen = match frames.get(side) {
        Some(c) => c,
        None => {
            return None;
        },
    };
    match chosen.get("asset_id") {
        Some(Json::Text(id)) => mapped_asset_id(Some(id.as_str()), assets),
        other => {
            proof {
                match other {
                    Some(v) => crate::json::lemma_view_variant(*v),
                    None => {},
                }
            }
            None
        },
    }
}

/// Map a planned node's first and last frame references to stored ids.
pub fn mapped_frames(node: &Json, assets: &Vec<(String, String)>) -> (r: Json)
    ensures
        r@ == mapped_frame_object(node@, pair_views(assets@)),
{
    let mut result: Vec<(String, Json)> = Vec::new();
    let first = frame_of(node, "first", assets);
    let last = frame_of(node, "last", assets);
    let ghost f = frame_id(node@, "first"@, pair_views(assets@));
    let ghost l = frame_id(node@, "last"@, pair_views(assets@));
    proof {
        assert(view_entries(result@) =~= Seq::<(Seq<char>, JsonView)>::empty());
    }
    if let Some(id) = first {
        let ghost idv = id@;
        let mut inner: Vec<(String, Json)> = Vec::new();
        inner.push(("asset_id".to_owned(), Json::Text(id)));
        proof {
            crate::json::lemma_view_entries(inner@);
            assert(view_entries(inner@) =~= seq![("asset_id"@, JsonView::Text(idv))]);
        }
        let pair = ("first".to_owned(), Json::Object(inner));
        proof {
            crate::json::lemma_view_entries_push(result@, pair);
        }
        result.push(pair);
    }
    proof {
        assert(view_entries(result@) =~= frame_entry("first"@, f));
    }
    let ghost after_first = view_entries(result@);
    if let Some(id) = last {
        let ghost idv = id@;
        let mut inner: Vec<(String, Json)> = Vec::new();
        inner.push(("asset_id".to_owned(), Json::Text(id)));
        proof {
            crate::json::lemma_view_entries(inner@);
            assert(view_entries(inner@) =~= seq![("asset_id"@, JsonView::Text(idv))]);
        }
        let pair = ("last".to_owned(), Json::Object(inner));
        proof {
            crate::json::lemma_view_entries_push(result@, pair);
        }
        result.push(pair);
    }
    proof {
        assert(view_entries(result@) =~= after_first + frame_entry("last"@, l));
    }
    Json::Object(result)
}

/// Removing repeats keeps every text once and keeps nothing else.
pub proof fn lemma_dedupe_keeps_each_text_once(values: Seq<Seq<char>>)
    ensures
        deduped(values).no_duplicates(),
        forall|x: Seq<char>| deduped(values).contains(x) <==> values.contains(x),
    decreases values.len(),
{
    if values.len() > 0 {
        let rest = values.drop_last();
        lemma_dedupe_keeps_each_text_once(rest);
        let before = deduped(rest);
        assert forall|x: Seq<char>| values.contains(x) <==> rest.contains(x) || x == values.last() by {
            if values.contains(x) {
                let k = choose|k: int| 0 <= k < values.len() && values[k] == x;
                if k < rest.len() {
                    assert(rest[k] == x);
                }
            }
            if rest.contains(x) {
                let k = choose|k: int| 0 <= k < rest.len() && rest[k] == x;
                assert(values[k] == x);
            }
            if x == values.last() {
                assert(values[values.len() - 1] == x);
            }
        }
        if !before.contains(values.last()) {
            let after = before.push(values.last());
            assert forall|i: int, j: int| 0 <= i < after.len() && 0 <= j < after.len() && i != j implies after[i] != after[j] by {
                if i == before.len() {
                    assert(after[j] == before[j]);
                } else if j == before.len() {
                    assert(after[i] == before[i]);
                } else {
                    assert(after[i] == before[i] && after[j] == before[j]);
                }
            }
            assert forall|x: Seq<char>| after.contains(x) <==> before.contains(x) || x == values.last() by {
                if after.contains(x) {
                    let k = choose|k: int| 0 <= k < after.len() && after[k] == x;
                    if k < before.len() {
                        assert(before[k] == x);
                    }
                }
                if before.contains(x) {
                    let k = choose|k: int| 0 <= k < before.len() && before[k] == x;
                    assert(after[k] == x);
                }
                if x == values.last() {
                    assert(after[before.len() as int] == x);
                }
            }
        }
    }
}

/// Texts with each run of equal neighbours kept once, as `Vec::dedup` leaves them.
pub open spec fn dedup_runs(values: Seq<Seq<char>>) -> Seq<Seq<char>>
    decreases values.len(),
{
    if values.len() == 0 {
        values
    } else {
        let before = dedup_runs(values.drop_last());
        if before.len() > 0 && before.last() == values.last() {
            before
        } else {
            before.push(values.last())
        }
    }
}

/// The text `asset_id`s of a rich prompt's reference nodes.
pub open spec fn rich_ref_ids(nodes: Seq<JsonView>) -> Seq<Seq<char>>
    decreases nodes.len(),
{
    if nodes.len() == 0 {
        Seq::empty()
    } else {
        let before = rich_ref_ids(nodes.drop_last());
        let node = nodes.last();
        if crate::placeholder::at(node, "type"@) == JsonView::Text("reference"@) {
            match node.get("asset_id"@) {
                Some(JsonView::Text(id)) => before.push(id),
                _ => before,
            }
        } else {
            before
        }
    }
}

/// The texts of a list.
pub open spec fn list_texts(items: Seq<JsonView>) -> Seq<Seq<char>>
    decreases items.len(),
{
    if items.len() == 0 {
        Seq::empty()
    } else {
        let before = list_texts(items.drop_last());
        match items.last() {
            JsonView::Text(s) => before.push(s),
            _ => before,
        }
    }
}

/// Texts without the empty ones.
pub open spec fn non_empty(values: Seq<Seq<char>>) -> Seq<Seq<char>>
    decreases values.len(),
{
    if values.len() == 0 {
        values
    } else if values.last().len() == 0 {
        non_empty(values.drop_last())
    } else {
        non_empty(values.drop_last()).push(values.last())
    }
}

pub open spec fn array_at(node: JsonView, key: Seq<char>) -> Seq<JsonView> {
    match node.get(key) {
        Some(JsonView::Array(items)) => items,
        _ => Seq::empty(),
    }
}

/// The materials a node's video is generated from: the rich prompt's
/// references, or the saved reference list when the prompt has none; empty
/// ids dropped and neighbouring repeats merged.
pub open spec fn video_reference_ids(node: JsonView) -> Seq<Seq<char>> {
    let rich = rich_ref_ids(array_at(node, "prompt_rich"@));
    let ids = if rich.len() == 0 {
        list_texts(array_at(node, "reference_asset_ids"@))
    } else {
        rich
    };
    dedup_runs(non_empty(ids))
}

/// The materials a node refers to: the rich prompt's references followed
/// by the saved reference list, neighbouring repeats merged.
pub open spec fn node_reference_ids(node: JsonView) -> Seq<Seq<char>> {
    dedup_runs(rich_ref_ids(array_at(node, "prompt_rich"@)) + list_texts(array_at(node, "reference_asset_ids"@)))
}

pub(crate) fn items_at<'a>(node: &'a Json, key: &str, empty: &'a Vec<Json>) -> (r: &'a Vec<Json>)
    requires
        empty@.len() == 0,
    ensures
        view_items(r@) == array_at(node@, key@),
{
    match node.get(key) {
        Some(Json::Array(items)) => items,
        other => {
            proof {
                match other {
                    Some(v) => crate::json::lemma_view_variant(*v),
                    None => {},
                }
                crate::json::lemma_view_items(empty@);
                assert(view_items(empty@) =~= Seq::<JsonView>::empty());
            }
            empty
        },
    }
}

pub(crate) fn push_rich_refs(nodes: &Vec<Json>, ids: &mut Vec<String>)
    ensures
        crate::forms::texts_view(final(ids)@) == crate::forms::texts_view(old(ids)@) + rich_ref_ids(view_items(nodes@)),
{
    proof {
        crate::json::lemma_view_items(nodes@);
    }
    let ghost nv = view_items(nodes@);
    let ghost start = crate::forms::texts_view(ids@);
    let mut i: usize = 0;
    proof {
        assert(nv.subrange(0, 0) =~= Seq::<JsonView>::empty());
        assert(start + Seq::<Seq<char>>::empty() =~= start);
    }
    while i < nodes.len()
        invariant
            i <= nodes.len(),
            nv == view_items(nodes@),
            nv.len() == nodes.len(),
            forall|k: int| 0 <= k < nodes.len() ==> #[trigger] nv[k] == nodes@[k]@,
            crate::forms::texts_view(ids@) == start + rich_ref_ids(nv.subrange(0, i as int)),
        decreases nodes.len() - i,
    {
        proof {
            let next = nv.subrange(0, i + 1);
            assert(next.drop_last() =~= nv.subrange(0, i as int));
            assert(next.last() == nodes@[i as int]@);
        }
        let kind = match nodes[i].get("type") {
            Some(v) => duplicate(v),
            None => Json::Null,
        };
        let reference = text("reference");
        if crate::json::json_eq(&kind, &reference) {
            match nodes[i].get("asset_id") {
                Some(Json::Text(id)) => {
                    let ghost before = crate::forms::texts_view(ids@);
                    ids.push(id.clone());
                    proof {
                        assert(crate::forms::texts_view(ids@) =~= before.push(id@));
                    }
                },
                other => {
                    proof {
                        match other {
                            Some(v) => crate::json::lemma_view_variant(*v),
                            None => {},
                        }
                    }
                },
            }
        }
        i += 1;
    }
    proof {
        assert(nv.subrange(0, nodes.len() as int) =~= nv);
    }
}

pub(crate) fn push_texts(items: &Vec<Json>, ids: &mut Vec<String>)
    ensures
        crate::forms::texts_view(final(ids)@) == crate::forms::texts_view(old(ids)@) + list_texts(view_items(items@)),
{
    proof {
        crate::json::lemma_view_items(items@);
    }
    let ghost iv = view_items(items@);
    let ghost start = crate::forms::texts_view(ids@);
    let mut i: usize = 0;
    proof {
        assert(iv.subrange(0, 0) =~= Seq::<JsonView>::empty());
        assert(start + Seq::<Seq<char>>::empty() =~= start);
    }
    while i < items.len()
        invariant
            i <= items.len(),
            iv == view_items(items@),
            iv.len() == items.len(),
            forall|k: int| 0 <= k < items.len() ==> #[trigger] iv[k] == items@[k]@,
            crate::forms::texts_view(ids@) == start + list_texts(iv.subrange(0, i as int)),
        decreases items.len() - i,
    {
        proof {
            let next = iv.subrange(0, i + 1);
            assert(next.drop_last() =~= iv.subrange(0, i as int));
            assert(next.last() == items@[i as int]@);
            crate::json::lemma_view_variant(items@[i as int]);
        }
        if let Json::Text(s) = &items[i] {
            let ghost before = crate::forms::texts_view(ids@);
            ids.push(s.clone());
            proof {
                assert(crate::forms::texts_view(ids@) =~= before.push(s@));
            }
        }
        i += 1;
    }
    proof {
        assert(iv.subrange(0, items.len() as int) =~= iv);
    }
}

fn keep_non_empty(values: &Vec<String>) -> (r: Vec<String>)
    ensures
        crate::forms::texts_view(r@) == non_empty(crate::forms::texts_view(values@)),
{
    let ghost all = crate::forms::texts_view(values@);
    let mut out: Vec<String> = Vec::new();
    let mut i: usize = 0;
    proof {
        assert(all.subrange(0, 0) =~= Seq::<Seq<char>>::empty());
        assert(crate::forms::texts_view(out@) =~= Seq::<Seq<char>>::empty());
    }
    while i < values.len()
        invariant
            i <= values.len(),
            all == crate::forms::texts_view(values@),
            crate::forms::texts_view(out@) == non_empty(all.subrange(0, i as int)),
        decreases values.len() - i,
    {
        proof {
            let next = all.subrange(0, i + 1);
            assert(next.drop_last() =~= all.subrange(0, i as int));
            assert(next.last() == values@[i as int]@);
        }
        if chars_of(values[i].as_str()).len() > 0 {
            let ghost before = crate::forms::texts_view(out@);
            out.push(values[i].clone());
            proof {
                assert(crate::forms::texts_view(out@) =~= before.push(values@[i as int]@));
            }
        }
        i += 1;
    }
    proof {
        assert(all.subrange(0, values.len() as int) =~= all);
    }
    out
}

fn merge_runs(values: &Vec<String>) -> (r: Vec<String>)
    ensures
        crate::forms::texts_view(r@) == dedup_runs(crate::forms::texts_view(values@)),
{
    let ghost all = crate::forms::texts_view(values@);
    let mut out: Vec<String> = Vec::new();
    let mut i: usize = 0;
    proof {
        assert(all.subrange(0, 0) =~= Seq::<Seq<char>>::empty());
        assert(crate::forms::texts_view(out@) =~= Seq::<Seq<char>>::empty());
    }
    while i < values.len()
        invariant
            i <= values.len(),
            all == crate::forms::texts_view(values@),
            crate::forms::texts_view(out@) == dedup_runs(all.subrange(0, i as int)),
        decreases values.len() - i,
    {
        let ghost before = crate::forms::texts_view(out@);
        proof {
            let next = all.subrange(0, i + 1);
            assert(next.drop_last() =~= all.subrange(0, i as int));
            assert(next.last() == values@[i as int]@);
            if out.len() > 0 {
                assert(before.last() == out@[out.len() - 1]@);
            }
        }
        if out.len() == 0 || !str_eq(out[out.len() - 1].as_str(), values[i].as_str()) {
            out.push(values[i].clone());
            proof {
                assert(crate::forms::texts_view(out@) =~= before.push(values@[i as int]@));
            }
        }
        i += 1;
    }
    proof {
        assert(all.subrange(0, values.len() as int) =~= all);
    }
    out
}

/// The materials a node's video is generated from.
pub fn game_video_reference_ids(node: &Json) -> (r: Vec<String>)
    ensures
        crate::forms::texts_view(r@) == video_reference_ids(node@),
{
    let empty: Vec<Json> = Vec::new();
    let mut ids: Vec<String> = Vec::new();
    proof {
        assert(crate::forms::texts_view(ids@) =~= Seq::<Seq<char>>::empty());
    }
    push_rich_refs(items_at(node, "prompt_rich", &empty), &mut ids);
    proof {
        assert(Seq::<Seq<char>>::empty() + rich_ref_ids(array_at(node@, "prompt_rich"@)) =~= rich_ref_ids(array_at(node@, "prompt_rich"@)));
    }
    if ids.len() == 0 {
        push_texts(items_at(node, "reference_asset_ids", &empty), &mut ids);
        proof {
            assert(Seq::<Seq<char>>::empty() + list_texts(array_at(node@, "reference_asset_ids"@)) =~= list_texts(array_at(node@, "reference_asset_ids"@)));
        }
    }
    let kept = keep_non_empty(&ids);
    merge_runs(&kept)
}

/// The materials a node refers to, for its reference images.
pub fn node_reference_asset_ids(node: &Json) -> (r: Vec<String>)
    ensures
        crate::forms::texts_view(r@) == node_reference_ids(node@),
{
    let empty: Vec<Json> = Vec::new();
    let mut ids: Vec<String> = Vec::new();
    proof {
        assert(crate::forms::texts_view(ids@) =~= Seq::<Seq<char>>::empty());
    }
    push_rich_refs(items_at(node, "prompt_rich", &empty), &mut ids);
    push_texts(items_at(node, "reference_asset_ids", &empty), &mut ids);
    proof {
        assert(Seq::<Seq<char>>::empty() + rich_ref_ids(array_at(node@, "prompt_rich"@)) + list_texts(array_at(node@, "reference_asset_ids"@))
            =~= rich_ref_ids(array_at(node@, "prompt_rich"@)) + list_texts(array_at(node@, "reference_asset_ids"@)));
    }
    merge_runs(&ids)
}

/// A node's accepted reference list names only materials of its own game.
pub proof fn lemma_accepted_references_belong_to_the_game(items: Seq<JsonView>, assets: Seq<(Seq<char>, Seq<char>)>)
    ensures
        checked_ids(items, assets) matches Ok(ids) ==> forall|i: int| 0 <= i < ids.len() ==> #[trigger] pair_get(assets, ids[i]) is Some,
    decreases items.len(),
{
    if items.len() > 0 {
        lemma_accepted_references_belong_to_the_game(items.drop_last(), assets);
        match checked_ids(items.drop_last(), assets) {
            Ok(before) => {
                match checked_ids(items, assets) {
                    Ok(ids) => {
                        assert forall|i: int| 0 <= i < ids.len() implies #[trigger] pair_get(assets, ids[i]) is Some by {
                            if i < before.len() {
                                assert(ids[i] == before[i]);
                            }
                        }
                    },
                    Err(_) => {},
                }
            },
            Err(_) => {},
        }
    }
}

/// Whether an accepted rich-prompt chip refers to a material of the game.
pub open spec fn chip_names_game_material(chip: JsonView, assets: Seq<(Seq<char>, Seq<char>)>) -> bool {
    chip.get("type"@) == Some(JsonView::Text("reference"@)) ==> match chip.get("asset_id"@) {
        Some(JsonView::Text(id)) => pair_get(assets, id) is Some,
        _ => false,
    }
}

proof fn lemma_rich_node_names_game_material(node: JsonView, assets: Seq<(Seq<char>, Seq<char>)>)
    ensures
        rich_node(node, assets) matches Ok(chip) ==> chip_names_game_material(chip, assets),
{
    reveal_strlit("text");
    reveal_strlit("reference");
    reveal_strlit("type");
    reveal_strlit("asset_id");
    assert("text"@ != "reference"@) by {
        assert("text"@.len() != "reference"@.len());
    }
    assert("type"@ != "text"@) by {
        assert("type"@[1] != "text"@[1]);
    }
    match rich_node(node, assets) {
        Ok(chip) => {
            let e = chip->Object_0;
            if e.len() == 2 {
                crate::json::lemma_lookup_found(e, "type"@, 1);
                assert(e[0].0 == "text"@);
                assert(e[1].0 == "type"@);
            } else {
                crate::json::lemma_lookup_found(e, "asset_id"@, 0);
            }
        },
        Err(_) => {},
    }
}

/// An accepted rich prompt refers only to materials of its own game.
pub proof fn lemma_rich_prompt_refers_to_game_materials(nodes: Seq<JsonView>, assets: Seq<(Seq<char>, Seq<char>)>)
    ensures
        rich_nodes(nodes, assets) matches Ok(chips) ==> forall|i: int| 0 <= i < chips.len() ==> #[trigger] chip_names_game_material(chips[i], assets),
    decreases nodes.len(),
{
    if nodes.len() > 0 {
        lemma_rich_prompt_refers_to_game_materials(nodes.drop_last(), assets);
        lemma_rich_node_names_game_material(nodes.last(), assets);
        match rich_nodes(nodes.drop_last(), assets) {
            Ok(done) => match rich_nodes(nodes, assets) {
                Ok(chips) => {
                    assert forall|i: int| 0 <= i < chips.len() implies #[trigger] chip_names_game_material(chips[i], assets) by {
                        if i < done.len() {
                            assert(chips[i] == done[i]);
                        }
                    }
                },
                Err(_) => {},
            },
            Err(_) => {},
        }
    }
}

} // verus!
