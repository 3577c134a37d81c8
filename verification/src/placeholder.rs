//! What a generated placeholder composite of a shot is made from: the scene,
//! the characters placed on it, and the props the shot selects or mentions.

use vstd::prelude::*;

use crate::error::{unit_result, AppError, AppErrorView};
use crate::json::{duplicate, json_eq, str_eq, text, view_items, Json, JsonView};
use crate::text::{chars_of, concat, concat3, contains, contains_text};

verus! {

/// Whether a value is missing, not a text, or an empty text.
pub open spec fn blank(v: Option<JsonView>) -> bool {
    match v {
        Some(JsonView::Text(s)) => s.len() == 0,
        _ => true,
    }
}

/// A value read by index: the stored value, or `null` when there is none.
pub open spec fn at(v: JsonView, key: Seq<char>) -> JsonView {
    match v.get(key) {
        Some(x) => x,
        None => JsonView::Null,
    }
}

/// The name of a material, or `default`.
pub open spec fn name_or(asset: JsonView, default: Seq<char>) -> Seq<char> {
    crate::json::text_or(asset, "name"@, default)
}

pub(crate) fn is_blank(v: Option<&Json>) -> (r: bool)
    ensures
        r == blank(crate::game_state::opt_ref_json(v)),
{
    match v {
        Some(Json::Text(s)) => chars_of(s.as_str()).len() == 0,
        other => {
            proof {
                match other {
                    Some(x) => crate::json::lemma_view_variant(*x),
                    None => {},
                }
            }
            true
        },
    }
}

pub(crate) fn has_text(v: Option<&Json>, expected: &str) -> (r: bool)
    ensures
        r == (crate::game_state::opt_ref_json(v) == Some(JsonView::Text(expected@))),
{
    match v {
        Some(Json::Text(s)) => str_eq(s.as_str(), expected),
        other => {
            proof {
                match other {
                    Some(x) => crate::json::lemma_view_variant(*x),
                    None => {},
                }
            }
            false
        },
    }
}

/// The scene of a placeholder must be a scene material that already has an image.
pub open spec fn scene_check(scene: JsonView) -> Result<(), AppErrorView> {
    if scene.get("type"@) != Some(JsonView::Text("scene"@)) {
        Err(AppErrorView::BadRequest("占位图必须使用场景素材作为背景"@))
    } else if blank(scene.get("image_url"@)) {
        Err(AppErrorView::BadRequest("请先生成场景图片，再创建占位图"@))
    } else {
        Ok(())
    }
}

/// Check the scene of a placeholder composite.
pub fn check_placeholder_scene(scene: &Json) -> (r: Result<(), AppError>)
    ensures
        unit_result(r) == scene_check(scene@),
{
    if !has_text(scene.get("type"), "scene") {
        return Err(AppError::bad_request("占位图必须使用场景素材作为背景"));
    }
    if is_blank(scene.get("image_url")) {
        return Err(AppError::bad_request("请先生成场景图片，再创建占位图"));
    }
    Ok(())
}

/// The first material whose id is `id`.
pub open spec fn asset_with_id(assets: Seq<JsonView>, id: Seq<char>) -> Option<JsonView>
    decreases assets.len(),
{
    if assets.len() == 0 {
        None
    } else if assets[0].get("id"@) == Some(JsonView::Text(id)) {
        Some(assets[0])
    } else {
        asset_with_id(assets.drop_first(), id)
    }
}

/// Whether some listed material has the same `id` value as `asset`.
pub open spec fn listed(items: Seq<JsonView>, asset: JsonView) -> bool {
    exists|k: int| 0 <= k < items.len() && #[trigger] at(items[k], "id"@) == at(asset, "id"@)
}

/// The characters placed on the scene, in placement order without repeats,
/// or the first placement that names no usable character.
pub open spec fn placed_characters(assets: Seq<JsonView>, ids: Seq<Seq<char>>) -> Result<Seq<JsonView>, AppErrorView>
    decreases ids.len(),
{
    if ids.len() == 0 {
        Ok(Seq::empty())
    } else {
        match placed_characters(assets, ids.drop_last()) {
            Err(e) => Err(e),
            Ok(done) => {
                let id = ids.last();
                match asset_with_id(assets, id) {
                    None => Err(AppErrorView::NotFound("Asset not found: "@ + id)),
                    Some(asset) => if asset.get("type"@) != Some(JsonView::Text("character"@)) {
                        Err(AppErrorView::BadRequest("占位图只能放置角色素材"@))
                    } else if blank(asset.get("image_url"@)) {
                        Err(AppErrorView::BadRequest("角色“"@ + name_or(asset, "未命名"@) + "”尚未生成图片"@))
                    } else if listed(done, asset) {
                        Ok(done)
                    } else {
                        Ok(done.push(asset))
                    },
                }
            },
        }
    }
}

/// The texts of a shot that props may be mentioned in: its title, original
/// text and prompt, those that are texts, joined by newlines.
pub open spec fn shot_context(shot: JsonView) -> Seq<char> {
    let parts = (match shot.get("title"@) {
        Some(JsonView::Text(s)) => seq![s],
        _ => Seq::empty(),
    }) + (match shot.get("original_text"@) {
        Some(JsonView::Text(s)) => seq![s],
        _ => Seq::empty(),
    }) + (match shot.get("prompt"@) {
        Some(JsonView::Text(s)) => seq![s],
        _ => Seq::empty(),
    });
    crate::text::joined_lines(parts)
}

/// The materials a shot selects explicitly: its reference list, then the
/// materials its rich prompt references.
pub open spec fn explicit_refs(shot: JsonView) -> Seq<JsonView> {
    let listed_refs = match shot.get("reference_asset_ids"@) {
        Some(JsonView::Array(items)) => items,
        _ => Seq::empty(),
    };
    let rich = match shot.get("prompt_rich"@) {
        Some(JsonView::Array(items)) => rich_refs(items),
        _ => Seq::empty(),
    };
    listed_refs + rich
}

/// The `asset_id` values of the reference nodes of a rich prompt.
pub open spec fn rich_refs(nodes: Seq<JsonView>) -> Seq<JsonView>
    decreases nodes.len(),
{
    if nodes.len() == 0 {
        Seq::empty()
    } else {
        let before = rich_refs(nodes.drop_last());
        if at(nodes.last(), "type"@) == JsonView::Text("reference"@) {
            before.push(at(nodes.last(), "asset_id"@))
        } else {
            before
        }
    }
}

/// The props of a placeholder: each prop the shot selects or whose name its
/// text mentions, when it has an image; a selected prop without an image is refused.
pub open spec fn chosen_props(assets: Seq<JsonView>, explicit: Seq<JsonView>, context: Seq<char>, missing: Seq<char>) -> Result<Seq<JsonView>, AppErrorView>
    decreases assets.len(),
{
    if assets.len() == 0 {
        Ok(Seq::empty())
    } else {
        match chosen_props(assets.drop_last(), explicit, context, missing) {
            Err(e) => Err(e),
            Ok(done) => {
                let asset = assets.last();
                let selected = explicit.contains(at(asset, "id"@));
                let mentioned = match asset.get("name"@) {
                    Some(JsonView::Text(n)) => contains_text(context, n),
                    _ => false,
                };
                if asset.get("type"@) != Some(JsonView::Text("prop"@)) || !(selected || mentioned) {
                    Ok(done)
                } else if blank(asset.get("image_url"@)) {
                    if selected {
                        Err(AppErrorView::BadRequest("道具“"@ + name_or(asset, "未命名"@) + missing))
                    } else {
                        Ok(done)
                    }
                } else {
                    Ok(done.push(asset))
                }
            },
        }
    }
}

/// The number of earlier generated composites of the shot, plus one.
pub open spec fn composite_version(assets: Seq<JsonView>, shot_id: Seq<char>) -> nat
    decreases assets.len(),
{
    if assets.len() == 0 {
        1
    } else {
        let a = assets.last();
        composite_version(assets.drop_last(), shot_id) + if at(a, "type"@) == JsonView::Text("placeholder"@)
            && at(at(a, "metadata"@), "shot_id"@) == JsonView::Text(shot_id)
            && at(at(a, "metadata"@), "render_mode"@) == JsonView::Text("generated_composite"@) {
            1nat
        } else {
            0nat
        }
    }
}

/// The text ids of a list of materials.
pub open spec fn text_ids(items: Seq<JsonView>) -> Seq<Seq<char>>
    decreases items.len(),
{
    if items.len() == 0 {
        Seq::empty()
    } else {
        let before = text_ids(items.drop_last());
        match items.last().get("id"@) {
            Some(JsonView::Text(id)) => before.push(id),
            _ => before,
        }
    }
}

/// What a placeholder composite is made from.
#[derive(Debug)]
pub struct PlaceholderPlan {
    pub characters: Vec<Json>,
    pub props: Vec<Json>,
    pub reference_ids: Vec<String>,
    pub version: usize,
}

/// The plan of a placeholder composite: the placed characters, the chosen
/// props, the scene-first reference ids and the version number.
pub open spec fn placeholder_plan_of(
    assets: Seq<JsonView>,
    shot: JsonView,
    scene: JsonView,
    placement_ids: Seq<Seq<char>>,
    shot_id: Seq<char>,
) -> Result<(Seq<JsonView>, Seq<JsonView>, Seq<Seq<char>>, nat), AppErrorView> {
    match placed_characters(assets, placement_ids) {
        Err(e) => Err(e),
        Ok(characters) => match chosen_props(assets, explicit_refs(shot), shot_context(shot), "”尚未生成图片"@) {
            Err(e) => Err(e),
            Ok(props) => Ok((
                characters,
                props,
                text_ids(seq![scene] + characters + props),
                composite_version(assets, shot_id),
            )),
        },
    }
}

pub(crate) fn value_at(v: &Json, key: &str) -> (r: Json)
    ensures
        r@ == at(v@, key@),
{
    match v.get(key) {
        Some(x) => duplicate(x),
        None => Json::Null,
    }
}

pub(crate) fn find_asset<'a>(assets: &'a Vec<Json>, id: &str) -> (r: Option<&'a Json>)
    ensures
        match r {
            Some(a) => asset_with_id(view_items(assets@), id@) == Some(a@),
            None => asset_with_id(view_items(assets@), id@) is None,
        },
{
    proof {
        crate::json::lemma_view_items(assets@);
    }
    let ghost all = view_items(assets@);
    let mut i: usize = 0;
    proof {
        assert(all.subrange(0, all.len() as int) =~= all);
    }
    while i < assets.len()
        invariant
            i <= assets.len(),
            all == view_items(assets@),
            all.len() == assets.len(),
            forall|k: int| 0 <= k < assets.len() ==> #[trigger] all[k] == assets@[k]@,
            asset_with_id(all, id@) == asset_with_id(all.subrange(i as int, all.len() as int), id@),
        decreases assets.len() - i,
    {
        let ghost rest = all.subrange(i as int, all.len() as int);
        proof {
            assert(rest[0] == assets@[i as int]@);
        }
        if has_text(assets[i].get("id"), id) {
            return Some(&assets[i]);
        }
        proof {
            assert(rest.drop_first() =~= all.subrange(i + 1, all.len() as int));
        }
        i += 1;
    }
    proof {
        assert(all.subrange(i as int, all.len() as int) =~= Seq::<JsonView>::empty());
    }
    None
}

pub(crate) fn is_listed(items: &Vec<Json>, asset: &Json) -> (r: bool)
    ensures
        r == listed(view_items(items@), asset@),
{
    proof {
        crate::json::lemma_view_items(items@);
    }
    let ghost all = view_items(items@);
    let id = value_at(asset, "id");
    let mut i: usize = 0;
    while i < items.len()
        invariant
            i <= items.len(),
            all == view_items(items@),
            all.len() == items.len(),
            id@ == at(asset@, "id"@),
            forall|k: int| 0 <= k < items.len() ==> #[trigger] all[k] == items@[k]@,
            forall|k: int| 0 <= k < i ==> #[trigger] at(all[k], "id"@) != at(asset@, "id"@),
        decreases items.len() - i,
    {
        let other = value_at(&items[i], "id");
        if json_eq(&other, &id) {
            assert(at(all[i as int], "id"@) == at(asset@, "id"@));
            return true;
        }
        i += 1;
    }
    false
}

proof fn lemma_placed_error(assets: Seq<JsonView>, ids: Seq<Seq<char>>, k: int)
    requires
        0 <= k <= ids.len(),
        placed_characters(assets, ids.subrange(0, k)) is Err,
    ensures
        placed_characters(assets, ids) == placed_characters(assets, ids.subrange(0, k)),
    decreases ids.len() - k,
{
    if k < ids.len() {
        assert(ids.drop_last().subrange(0, k) =~= ids.subrange(0, k));
        lemma_placed_error(assets, ids.drop_last(), k);
    } else {
        assert(ids.subrange(0, k) =~= ids);
    }
}

proof fn lemma_props_error(assets: Seq<JsonView>, explicit: Seq<JsonView>, context: Seq<char>, missing: Seq<char>, k: int)
    requires
        0 <= k <= assets.len(),
        chosen_props(assets.subrange(0, k), explicit, context, missing) is Err,
    ensures
        chosen_props(assets, explicit, context, missing) == chosen_props(assets.subrange(0, k), explicit, context, missing),
    decreases assets.len() - k,
{
    if k < assets.len() {
        assert(assets.drop_last().subrange(0, k) =~= assets.subrange(0, k));
        lemma_props_error(assets.drop_last(), explicit, context, missing, k);
    } else {
        assert(assets.subrange(0, k) =~= assets);
    }
}

fn placed(assets: &Vec<Json>, placement_ids: &Vec<String>) -> (r: Result<Vec<Json>, AppError>)
    ensures
        match r {
            Ok(v) => placed_characters(view_items(assets@), crate::forms::texts_view(placement_ids@)) == Ok::<Seq<JsonView>, AppErrorView>(view_items(v@)),
            Err(e) => placed_characters(view_items(assets@), crate::forms::texts_view(placement_ids@)) == Err::<Seq<JsonView>, AppErrorView>(e@),
        },
{
    let ghost av = view_items(assets@);
    let ghost ids = crate::forms::texts_view(placement_ids@);
    let mut characters: Vec<Json> = Vec::new();
    let mut i: usize = 0;
    proof {
        assert(ids.subrange(0, 0) =~= Seq::<Seq<char>>::empty());
        crate::json::lemma_view_items(characters@);
        assert(view_items(characters@) =~= Seq::<JsonView>::empty());
    }
    while i < placement_ids.len()
        invariant
            i <= placement_ids.len(),
            av == view_items(assets@),
            ids == crate::forms::texts_view(placement_ids@),
            placed_characters(av, ids.subrange(0, i as int)) == Ok::<Seq<JsonView>, AppErrorView>(view_items(characters@)),
        decreases placement_ids.len() - i,
    {
        let id = placement_ids[i].as_str();
        proof {
            let next = ids.subrange(0, i + 1);
            assert(next.drop_last() =~= ids.subrange(0, i as int));
            assert(next.last() == id@);
        }
        let asset = match find_asset(assets, id) {
            Some(a) => a,
            None => {
                proof {
                    lemma_placed_error(av, ids, i + 1);
                    assert(ids.subrange(0, ids.len() as int) =~= ids);
                }
                return Err(AppError::NotFound(concat("Asset not found: ", id)));
            },
        };
        if !has_text(asset.get("type"), "character") {
            proof {
                lemma_placed_error(av, ids, i + 1);
                assert(ids.subrange(0, ids.len() as int) =~= ids);
            }
            return Err(AppError::bad_request("占位图只能放置角色素材"));
        }
        if is_blank(asset.get("image_url")) {
            let name = asset.text_or("name", "未命名");
            proof {
                lemma_placed_error(av, ids, i + 1);
                assert(ids.subrange(0, ids.len() as int) =~= ids);
            }
            return Err(AppError::BadRequest(concat3("角色“", name.as_str(), "”尚未生成图片")));
        }
        if !is_listed(&characters, asset) {
            let copy = duplicate(asset);
            proof {
                crate::json::lemma_view_items_push(characters@, copy);
            }
            characters.push(copy);
        }
        i += 1;
    }
    proof {
        assert(ids.subrange(0, placement_ids.len() as int) =~= ids);
    }
    Ok(characters)
}

pub(crate) fn context_of(shot: &Json) -> (r: String)
    ensures
        r@ == shot_context(shot@),
{
    let mut parts: Vec<String> = Vec::new();
    match shot.get("title") {
        Some(Json::Text(s)) => parts.push(s.clone()),
        other => {
            proof {
                match other {
                    Some(v) => crate::json::lemma_view_variant(*v),
                    None => {},
                }
            }
        },
    }
    match shot.get("original_text") {
        Some(Json::Text(s)) => parts.push(s.clone()),
        other => {
            proof {
                match other {
                    Some(v) => crate::json::lemma_view_variant(*v),
                    None => {},
                }
            }
        },
    }
    match shot.get("prompt") {
        Some(Json::Text(s)) => parts.push(s.clone()),
        other => {
            proof {
                match other {
                    Some(v) => crate::json::lemma_view_variant(*v),
                    None => {},
                }
            }
        },
    }
    let joined = crate::text::join_lines(&parts);
    proof {
        let t = match shot@.get("title"@) { Some(JsonView::Text(s)) => seq![s], _ => Seq::<Seq<char>>::empty() };
        let o = match shot@.get("original_text"@) { Some(JsonView::Text(s)) => seq![s], _ => Seq::<Seq<char>>::empty() };
        let p = match shot@.get("prompt"@) { Some(JsonView::Text(s)) => seq![s], _ => Seq::<Seq<char>>::empty() };
        assert(Seq::new(parts.len() as nat, |i: int| parts@[i]@) =~= t + o + p);
    }
    joined
}

fn explicit_of(shot: &Json) -> (r: Vec<Json>)
    ensures
        view_items(r@) == explicit_refs(shot@),
{
    let mut refs: Vec<Json> = match shot.get("reference_asset_ids") {
        Some(Json::Array(items)) => crate::json::copy_items(items),
        other => {
            proof {
                match other {
                    Some(v) => crate::json::lemma_view_variant(*v),
                    None => {},
                }
            }
            let empty: Vec<Json> = Vec::new();
            proof {
                crate::json::lemma_view_items(empty@);
                assert(view_items(empty@) =~= Seq::<JsonView>::empty());
            }
            empty
        },
    };
    let ghost listed_part = view_items(refs@);
    match shot.get("prompt_rich") {
        Some(Json::Array(nodes)) => {
            proof {
                crate::json::lemma_view_items(nodes@);
            }
            let ghost nv = view_items(nodes@);
            let mut i: usize = 0;
            proof {
                assert(nv.subrange(0, 0) =~= Seq::<JsonView>::empty());
                assert(view_items(refs@) =~= listed_part + rich_refs(nv.subrange(0, 0)));
            }
            while i < nodes.len()
                invariant
                    i <= nodes.len(),
                    nv == view_items(nodes@),
                    nv.len() == nodes.len(),
                    forall|k: int| 0 <= k < nodes.len() ==> #[trigger] nv[k] == nodes@[k]@,
                    view_items(refs@) == listed_part + rich_refs(nv.subrange(0, i as int)),
                decreases nodes.len() - i,
            {
                proof {
                    let next = nv.subrange(0, i + 1);
                    assert(next.drop_last() =~= nv.subrange(0, i as int));
                    assert(next.last() == nodes@[i as int]@);
                }
                let kind = value_at(&nodes[i], "type");
                let reference = text("reference");
                if json_eq(&kind, &reference) {
                    let id = value_at(&nodes[i], "asset_id");
                    let ghost before = view_items(refs@);
                    proof {
                        crate::json::lemma_view_items_push(refs@, id);
                    }
                    refs.push(id);
                    proof {
                        assert(view_items(refs@) =~= listed_part + rich_refs(nv.subrange(0, i + 1)));
                    }
                }
                i += 1;
            }
            proof {
                assert(nv.subrange(0, nodes.len() as int) =~= nv);
            }
        },
        other => {
            proof {
                match other {
                    Some(v) => crate::json::lemma_view_variant(*v),
                    None => {},
                }
                assert(listed_part + Seq::<JsonView>::empty() =~= listed_part);
            }
        },
    }
    refs
}

pub(crate) fn contains_value(items: &Vec<Json>, value: &Json) -> (r: bool)
    ensures
        r == view_items(items@).contains(value@),
{
    proof {
        crate::json::lemma_view_items(items@);
    }
    let ghost all = view_items(items@);
    let mut i: usize = 0;
    while i < items.len()
        invariant
            i <= items.len(),
            all == view_items(items@),
            all.len() == items.len(),
            forall|k: int| 0 <= k < items.len() ==> #[trigger] all[k] == items@[k]@,
            forall|k: int| 0 <= k < i ==> all[k] != value@,
        decreases items.len() - i,
    {
        if json_eq(&items[i], value) {
            assert(all[i as int] == value@);
            return true;
        }
        i += 1;
    }
    false
}

pub(crate) fn props_of(assets: &Vec<Json>, explicit: &Vec<Json>, context: &str, missing: &str) -> (r: Result<Vec<Json>, AppError>)
    ensures
        match r {
            Ok(v) => chosen_props(view_items(assets@), view_items(explicit@), context@, missing@) == Ok::<Seq<JsonView>, AppErrorView>(view_items(v@)),
            Err(e) => chosen_props(view_items(assets@), view_items(explicit@), context@, missing@) == Err::<Seq<JsonView>, AppErrorView>(e@),
        },
{
    proof {
        crate::json::lemma_view_items(assets@);
    }
    let ghost av = view_items(assets@);
    let ghost ev = view_items(explicit@);
    let mut props: Vec<Json> = Vec::new();
    let mut i: usize = 0;
    proof {
        assert(av.subrange(0, 0) =~= Seq::<JsonView>::empty());
        crate::json::lemma_view_items(props@);
        assert(view_items(props@) =~= Seq::<JsonView>::empty());
    }
    while i < assets.len()
        invariant
            i <= assets.len(),
            av == view_items(assets@),
            ev == view_items(explicit@),
            av.len() == assets.len(),
            forall|k: int| 0 <= k < assets.len() ==> #[trigger] av[k] == assets@[k]@,
            chosen_props(av.subrange(0, i as int), ev, context@, missing@) == Ok::<Seq<JsonView>, AppErrorView>(view_items(props@)),
        decreases assets.len() - i,
    {
        let asset = &assets[i];
        proof {
            let next = av.subrange(0, i + 1);
            assert(next.drop_last() =~= av.subrange(0, i as int));
            assert(next.last() == asset@);
        }
        let id = value_at(asset, "id");
        let selected = contains_value(explicit, &id);
        let mentioned = match asset.get("name") {
            Some(Json::Text(n)) => contains(context, n.as_str()),
            other => {
                proof {
                    match other {
                        Some(v) => crate::json::lemma_view_variant(*v),
                        None => {},
                    }
                }
                false
            },
        };
        if has_text(asset.get("type"), "prop") && (selected || mentioned) {
            if is_blank(asset.get("image_url")) {
                if selected {
                    let name = asset.text_or("name", "未命名");
                    proof {
                        lemma_props_error(av, ev, context@, missing@, i + 1);
                        assert(av.subrange(0, av.len() as int) =~= av);
                    }
                    return Err(AppError::BadRequest(concat3("道具“", name.as_str(), missing)));
                }
            } else {
                let copy = duplicate(asset);
                proof {
                    crate::json::lemma_view_items_push(props@, copy);
                }
                props.push(copy);
            }
        }
        i += 1;
    }
    proof {
        assert(av.subrange(0, assets.len() as int) =~= av);
    }
    Ok(props)
}

fn version_of(assets: &Vec<Json>, shot_id: &str) -> (r: usize)
    requires
        assets.len() < usize::MAX,
    ensures
        r == composite_version(view_items(assets@), shot_id@),
{
    proof {
        crate::json::lemma_view_items(assets@);
    }
    let ghost av = view_items(assets@);
    let mut count: usize = 1;
    let mut i: usize = 0;
    proof {
        assert(av.subrange(0, 0) =~= Seq::<JsonView>::empty());
    }
    while i < assets.len()
        invariant
            i <= assets.len(),
            av == view_items(assets@),
            av.len() == assets.len(),
            forall|k: int| 0 <= k < assets.len() ==> #[trigger] av[k] == assets@[k]@,
            count == composite_version(av.subrange(0, i as int), shot_id@),
            count <= i + 1,
            assets.len() < usize::MAX,
        decreases assets.len() - i,
    {
        let a = &assets[i];
        proof {
            let next = av.subrange(0, i + 1);
            assert(next.drop_last() =~= av.subrange(0, i as int));
            assert(next.last() == a@);
        }
        let metadata = value_at(a, "metadata");
        let kind = value_at(a, "type");
        let shot = value_at(&metadata, "shot_id");
        let mode = value_at(&metadata, "render_mode");
        let placeholder = text("placeholder");
        let this_shot = text(shot_id);
        let composite = text("generated_composite");
        if json_eq(&kind, &placeholder) && json_eq(&shot, &this_shot) && json_eq(&mode, &composite) {
            count = count + 1;
        }
        i += 1;
    }
    proof {
        assert(av.subrange(0, assets.len() as int) =~= av);
    }
    count
}

pub(crate) fn push_ids(items: &Vec<Json>, ids: &mut Vec<String>)
    ensures
        crate::forms::texts_view(final(ids)@) == crate::forms::texts_view(old(ids)@) + text_ids(view_items(items@)),
{
    proof {
        crate::json::lemma_view_items(items@);
    }
    let ghost iv = view_items(items@);
    let ghost start = crate::forms::texts_view(ids@);
    let mut i: usize = 0;
    proof {
        assert(iv.subrange(0, 0) =~= Seq::<JsonView>::empty());
        assert(start + text_ids(Seq::<JsonView>::empty()) =~= start);
    }
    while i < items.len()
        invariant
            i <= items.len(),
            iv == view_items(items@),
            iv.len() == items.len(),
            forall|k: int| 0 <= k < items.len() ==> #[trigger] iv[k] == items@[k]@,
            crate::forms::texts_view(ids@) == start + text_ids(iv.subrange(0, i as int)),
        decreases items.len() - i,
    {
        proof {
            let next = iv.subrange(0, i + 1);
            assert(next.drop_last() =~= iv.subrange(0, i as int));
            assert(next.last() == items@[i as int]@);
        }
        match items[i].get("id") {
            Some(Json::Text(id)) => {
                let ghost before = crate::forms::texts_view(ids@);
                ids.push(id.clone());
                proof {
                    assert(crate::forms::texts_view(ids@) =~= before.push(id@));
                }
            },
            other => {
                proof {
                    match other {
                        Some(v) => crate::json::lemma_view_variant(*v),
                        None => {},
                    }
                }
            },
        }
        i += 1;
    }
    proof {
        assert(iv.subrange(0, items.len() as int) =~= iv);
    }
}

pub(crate) proof fn lemma_text_ids_concat(a: Seq<JsonView>, b: Seq<JsonView>)
    ensures
        text_ids(a + b) == text_ids(a) + text_ids(b),
    decreases b.len(),
{
    if b.len() == 0 {
        assert(a + b =~= a);
        assert(text_ids(a) + text_ids(b) =~= text_ids(a));
    } else {
        assert((a + b).drop_last() =~= a + b.drop_last());
        lemma_text_ids_concat(a, b.drop_last());
        assert((a + b).last() == b.last());
        match b.last().get("id"@) {
            Some(JsonView::Text(id)) => {
                assert(text_ids(a) + text_ids(b) =~= (text_ids(a) + text_ids(b.drop_last())).push(id));
            },
            _ => {},
        }
    }
}

pub open spec fn plan_view(p: PlaceholderPlan) -> (Seq<JsonView>, Seq<JsonView>, Seq<Seq<char>>, nat) {
    (view_items(p.characters@), view_items(p.props@), crate::forms::texts_view(p.reference_ids@), p.version as nat)
}

/// Plan a generated placeholder composite of a shot from the project's
/// materials, the shot, its scene and the material ids of the placements,
/// in the order the checks are made.
pub fn placeholder_plan(
    assets: &Vec<Json>,
    shot: &Json,
    scene: &Json,
    placement_ids: &Vec<String>,
    shot_id: &str,
) -> (r: Result<PlaceholderPlan, AppError>)
    requires
        assets.len() < usize::MAX,
    ensures
        match r {
            Ok(p) => placeholder_plan_of(view_items(assets@), shot@, scene@, crate::forms::texts_view(placement_ids@), shot_id@) == Ok::<(Seq<JsonView>, Seq<JsonView>, Seq<Seq<char>>, nat), AppErrorView>(plan_view(p)),
            Err(e) => placeholder_plan_of(view_items(assets@), shot@, scene@, crate::forms::texts_view(placement_ids@), shot_id@) == Err::<(Seq<JsonView>, Seq<JsonView>, Seq<Seq<char>>, nat), AppErrorView>(e@),
        },
{
    let characters = match placed(assets, placement_ids) {
        Ok(c) => c,
        Err(e) => {
            return Err(e);
        },
    };
    let context = context_of(shot);
    let explicit = explicit_of(shot);
    let props = match props_of(assets, &explicit, context.as_str(), "”尚未生成图片") {
        Ok(p) => p,
        Err(e) => {
            return Err(e);
        },
    };
    let mut scene_list: Vec<Json> = Vec::new();
    scene_list.push(duplicate(scene));
    let mut reference_ids: Vec<String> = Vec::new();
    proof {
        assert(crate::forms::texts_view(reference_ids@) =~= Seq::<Seq<char>>::empty());
    }
    push_ids(&scene_list, &mut reference_ids);
    push_ids(&characters, &mut reference_ids);
    push_ids(&props, &mut reference_ids);
    let version = version_of(assets, shot_id);
    proof {
        crate::json::lemma_view_items(scene_list@);
        assert(view_items(scene_list@) =~= seq![scene@]);
        lemma_text_ids_concat(seq![scene@], view_items(characters@));
        lemma_text_ids_concat(seq![scene@] + view_items(characters@), view_items(props@));
        assert(Seq::<Seq<char>>::empty() + text_ids(seq![scene@]) + text_ids(view_items(characters@)) + text_ids(view_items(props@))
            =~= text_ids(seq![scene@] + view_items(characters@) + view_items(props@)));
    }
    Ok(PlaceholderPlan { characters, props, reference_ids, version })
}

proof fn lemma_contains_within(x: Seq<char>, a: Seq<char>, y: Seq<char>, n: Seq<char>)
    requires
        contains_text(a, n),
    ensures
        contains_text(x + a + y, n),
{
    let at = choose|at: int| crate::text::occurs_at(a, n, at);
    let whole = x + a + y;
    assert(whole.subrange(x.len() + at, x.len() + at + n.len()) =~= a.subrange(at, at + n.len()));
    assert(crate::text::occurs_at(whole, n, x.len() + at));
}

proof fn lemma_joined_contains(parts: Seq<Seq<char>>, i: int, n: Seq<char>)
    requires
        0 <= i < parts.len(),
        contains_text(parts[i], n),
    ensures
        contains_text(crate::text::joined_lines(parts), n),
    decreases parts.len(),
{
    if parts.len() == 1 {
    } else {
        let before = crate::text::joined_lines(parts.drop_last());
        assert(crate::text::joined_lines(parts) == before + seq!['\n'] + parts.last());
        if i == parts.len() - 1 {
            lemma_contains_within(before + seq!['\n'], parts.last(), Seq::empty(), n);
            assert(before + seq!['\n'] + parts.last() + Seq::<char>::empty() =~= crate::text::joined_lines(parts));
        } else {
            assert(parts.drop_last()[i] == parts[i]);
            lemma_joined_contains(parts.drop_last(), i, n);
            lemma_contains_within(Seq::empty(), before, seq!['\n'] + parts.last(), n);
            assert(Seq::<char>::empty() + before + (seq!['\n'] + parts.last()) =~= crate::text::joined_lines(parts));
        }
    }
}

/// Whether a shot's title, original text or prompt mentions `name`.
pub open spec fn mentioned_in_shot(shot: JsonView, name: Seq<char>) -> bool {
    ||| contains_text(crate::json::text_or(shot, "title"@, Seq::empty()), name)
    ||| contains_text(crate::json::text_or(shot, "original_text"@, Seq::empty()), name)
    ||| contains_text(crate::json::text_or(shot, "prompt"@, Seq::empty()), name)
}

proof fn lemma_mention_in_context(shot: JsonView, name: Seq<char>)
    requires
        mentioned_in_shot(shot, name),
    ensures
        contains_text(shot_context(shot), name),
{
    let t = match shot.get("title"@) { Some(JsonView::Text(s)) => seq![s], _ => Seq::<Seq<char>>::empty() };
    let o = match shot.get("original_text"@) { Some(JsonView::Text(s)) => seq![s], _ => Seq::<Seq<char>>::empty() };
    let p = match shot.get("prompt"@) { Some(JsonView::Text(s)) => seq![s], _ => Seq::<Seq<char>>::empty() };
    let parts = t + o + p;
    if name.len() == 0 {
        assert(shot_context(shot).subrange(0, 0) =~= name);
        assert(crate::text::occurs_at(shot_context(shot), name, 0));
    } else if contains_text(crate::json::text_or(shot, "title"@, Seq::empty()), name) {
        assert(t.len() == 1) by {
            if !(shot.get("title"@) matches Some(JsonView::Text(_))) {
                let at = choose|at: int| crate::text::occurs_at(Seq::<char>::empty(), name, at);
            }
        }
        assert(parts[0] == t[0]);
        lemma_joined_contains(parts, 0, name);
    } else if contains_text(crate::json::text_or(shot, "original_text"@, Seq::empty()), name) {
        assert(o.len() == 1) by {
            if !(shot.get("original_text"@) matches Some(JsonView::Text(_))) {
                let at = choose|at: int| crate::text::occurs_at(Seq::<char>::empty(), name, at);
            }
        }
        assert(parts[t.len() as int] == o[0]);
        lemma_joined_contains(parts, t.len() as int, name);
    } else {
        assert(p.len() == 1) by {
            if !(shot.get("prompt"@) matches Some(JsonView::Text(_))) {
                let at = choose|at: int| crate::text::occurs_at(Seq::<char>::empty(), name, at);
            }
        }
        assert(parts[(t.len() + o.len()) as int] == p[0]);
        lemma_joined_contains(parts, (t.len() + o.len()) as int, name);
    }
}

/// A prop with an image whose name occurs in the context is among the chosen props.
proof fn lemma_mentioned_prop_chosen(assets: Seq<JsonView>, explicit: Seq<JsonView>, context: Seq<char>, missing: Seq<char>, k: int)
    requires
        0 <= k < assets.len(),
        assets[k].get("type"@) == Some(JsonView::Text("prop"@)),
        !blank(assets[k].get("image_url"@)),
        assets[k].get("name"@) matches Some(JsonView::Text(n)) && contains_text(context, n),
        chosen_props(assets, explicit, context, missing) is Ok,
    ensures
        chosen_props(assets, explicit, context, missing)->Ok_0.contains(assets[k]),
    decreases assets.len(),
{
    let prev = chosen_props(assets.drop_last(), explicit, context, missing);
    assert(prev is Ok);
    let done = prev->Ok_0;
    if k == assets.len() - 1 {
        let out = chosen_props(assets, explicit, context, missing)->Ok_0;
        assert(out == done.push(assets.last()));
        assert(out[out.len() - 1] == assets[k]);
    } else {
        assert(assets.drop_last()[k] == assets[k]);
        lemma_mentioned_prop_chosen(assets.drop_last(), explicit, context, missing, k);
        let w = choose|w: int| 0 <= w < done.len() && done[w] == assets[k];
        let out = chosen_props(assets, explicit, context, missing)->Ok_0;
        assert(out[w] == done[w]);
    }
}

/// A planned composite uses every prop with an image that the shot talks
/// about: a prop whose name occurs in the shot's title, original text or
/// prompt is among the plan's props, and so among its references.
pub proof fn lemma_mentioned_props_are_used(
    assets: Seq<JsonView>,
    shot: JsonView,
    scene: JsonView,
    placement_ids: Seq<Seq<char>>,
    shot_id: Seq<char>,
    k: int,
)
    requires
        0 <= k < assets.len(),
        assets[k].get("type"@) == Some(JsonView::Text("prop"@)),
        !blank(assets[k].get("image_url"@)),
        assets[k].get("name"@) matches Some(JsonView::Text(n)) && mentioned_in_shot(shot, n),
        placeholder_plan_of(assets, shot, scene, placement_ids, shot_id) is Ok,
    ensures
        placeholder_plan_of(assets, shot, scene, placement_ids, shot_id)->Ok_0.1.contains(assets[k]),
{
    let n = assets[k].get("name"@)->Some_0->Text_0;
    lemma_mention_in_context(shot, n);
    lemma_mentioned_prop_chosen(assets, explicit_refs(shot), shot_context(shot), "”尚未生成图片"@, k);
}

} // verus!
