//! What a game node's placeholder composite is made from: the layout a
//! creator saves (a scene and the characters placed on it), the props the
//! node selects or mentions, and the record the composite is stored under.

use vstd::prelude::*;

use crate::error::{AppError, AppErrorView};
use crate::game_materials::{array_at, items_at};
use crate::json::{copy_items, duplicate, entry_insert, insert_entry, parse_json, parsed_json, view_entries, view_items, Entries, Json, JsonView};
use crate::placeholder::{asset_with_id, at, blank, chosen_props, context_of, find_asset, has_text, is_blank, is_listed, listed, name_or, props_of, push_ids, shot_context, text_ids, value_at};
use crate::serial_batch::text_values;
use crate::text::{concat, concat3, decimal, decimal_text};

verus! {

/// The material with this id, when it has the expected type.
pub open spec fn typed_asset(assets: Seq<JsonView>, id: Seq<char>, kind: Seq<char>) -> Result<JsonView, AppErrorView> {
    match asset_with_id(assets, id) {
        Some(a) => if a.get("type"@) == Some(JsonView::Text(kind)) {
            Ok(a)
        } else {
            Err(AppErrorView::BadRequest("占位图参考素材不存在或类型不匹配："@ + id))
        },
        None => Err(AppErrorView::BadRequest("占位图参考素材不存在或类型不匹配："@ + id)),
    }
}

/// The characters placed on the scene, in placement order without repeats,
/// or the first placement that names no character with an image.
pub open spec fn chosen_characters(assets: Seq<JsonView>, placements: Seq<JsonView>) -> Result<Seq<JsonView>, AppErrorView>
    decreases placements.len(),
{
    if placements.len() == 0 {
        Ok(Seq::empty())
    } else {
        match chosen_characters(assets, placements.drop_last()) {
            Err(e) => Err(e),
            Ok(done) => {
                let id = crate::json::text_or(placements.last(), "asset_id"@, Seq::empty());
                match typed_asset(assets, id, "character"@) {
                    Err(e) => Err(e),
                    Ok(c) => if blank(c.get("image_url"@)) {
                        Err(AppErrorView::BadRequest("角色“"@ + name_or(c, "未命名"@) + "”尚未生成或上传图片"@))
                    } else if listed(done, c) {
                        Ok(done)
                    } else {
                        Ok(done.push(c))
                    },
                }
            },
        }
    }
}

/// The `id` values of a list of materials.
pub open spec fn id_values(items: Seq<JsonView>) -> Seq<JsonView> {
    Seq::new(items.len(), |i: int| at(items[i], "id"@))
}

/// The description of a composite: the node, its scene, the placements and
/// the materials it is made from, scene first.
pub open spec fn composite_metadata(
    node_id: Seq<char>,
    scene_id: Seq<char>,
    scene: JsonView,
    placements: Seq<JsonView>,
    characters: Seq<JsonView>,
    props: Seq<JsonView>,
) -> JsonView {
    JsonView::Object(seq![
        ("node_id"@, JsonView::Text(node_id)),
        ("scene_asset_id"@, JsonView::Text(scene_id)),
        ("scene_name"@, at(scene, "name"@)),
        ("placements"@, JsonView::Array(placements)),
        ("character_asset_ids"@, JsonView::Array(id_values(characters))),
        ("prop_asset_ids"@, JsonView::Array(id_values(props))),
        ("reference_asset_ids"@, JsonView::Array(text_values(seq![scene_id] + text_ids(characters) + text_ids(props)))),
    ])
}

/// The plan of a node's composite: scene, characters, props and description,
/// or the first check that fails.
pub open spec fn game_plan_of(node: JsonView, assets: Seq<JsonView>, node_id: Seq<char>) -> Result<(JsonView, Seq<JsonView>, Seq<JsonView>, JsonView), AppErrorView> {
    match node.get("placeholder_scene_asset_id"@) {
        Some(JsonView::Text(scene_id)) => {
            let placements = array_at(node, "placeholder_placements"@);
            if placements.len() == 0 {
                Err(AppErrorView::BadRequest("请至少添加一个角色到占位图"@))
            } else {
                match typed_asset(assets, scene_id, "scene"@) {
                    Err(e) => Err(e),
                    Ok(scene) => if blank(scene.get("image_url"@)) {
                        Err(AppErrorView::BadRequest("请先生成或上传场景图片，再创建占位图"@))
                    } else {
                        match chosen_characters(assets, placements) {
                            Err(e) => Err(e),
                            Ok(characters) => match chosen_props(
                                assets,
                                array_at(node, "reference_asset_ids"@),
                                shot_context(node),
                                "”尚未生成或上传图片"@,
                            ) {
                                Err(e) => Err(e),
                                Ok(props) => Ok((
                                    scene,
                                    characters,
                                    props,
                                    composite_metadata(node_id, scene_id, scene, placements, characters, props),
                                )),
                            },
                        }
                    },
                }
            }
        },
        _ => Err(AppErrorView::BadRequest("请选择场景素材"@)),
    }
}

/// What a node's composite is made from.
#[derive(Debug)]
pub struct GamePlaceholderPlan {
    pub scene: Json,
    pub characters: Vec<Json>,
    pub props: Vec<Json>,
    pub metadata: Json,
}

pub open spec fn game_plan_view(p: GamePlaceholderPlan) -> (JsonView, Seq<JsonView>, Seq<JsonView>, JsonView) {
    (p.scene@, view_items(p.characters@), view_items(p.props@), p.metadata@)
}

fn typed<'a>(assets: &'a Vec<Json>, id: &str, kind: &str) -> (r: Result<&'a Json, AppError>)
    ensures
        match r {
            Ok(a) => typed_asset(view_items(assets@), id@, kind@) == Ok::<JsonView, AppErrorView>(a@),
            Err(e) => typed_asset(view_items(assets@), id@, kind@) == Err::<JsonView, AppErrorView>(e@),
        },
{
    match find_asset(assets, id) {
        Some(a) => if has_text(a.get("type"), kind) {
            Ok(a)
        } else {
            Err(AppError::BadRequest(concat("占位图参考素材不存在或类型不匹配：", id)))
        },
        None => Err(AppError::BadRequest(concat("占位图参考素材不存在或类型不匹配：", id))),
    }
}

proof fn lemma_characters_error(assets: Seq<JsonView>, placements: Seq<JsonView>, k: int)
    requires
        0 <= k <= placements.len(),
        chosen_characters(assets, placements.subrange(0, k)) is Err,
    ensures
        chosen_characters(assets, placements) == chosen_characters(assets, placements.subrange(0, k)),
    decreases placements.len() - k,
{
    if k < placements.len() {
        assert(placements.drop_last().subrange(0, k) =~= placements.subrange(0, k));
        lemma_characters_error(assets, placements.drop_last(), k);
    } else {
        assert(placements.subrange(0, k) =~= placements);
    }
}

fn characters_of(assets: &Vec<Json>, placements: &Vec<Json>) -> (r: Result<Vec<Json>, AppError>)
    ensures
        match r {
            Ok(v) => chosen_characters(view_items(assets@), view_items(placements@)) == Ok::<Seq<JsonView>, AppErrorView>(view_items(v@)),
            Err(e) => chosen_characters(view_items(assets@), view_items(placements@)) == Err::<Seq<JsonView>, AppErrorView>(e@),
        },
{
    proof {
        crate::json::lemma_view_items(placements@);
        reveal_strlit("");
        assert(""@ =~= Seq::<char>::empty());
    }
    let ghost pv = view_items(placements@);
    let mut characters: Vec<Json> = Vec::new();
    let mut i: usize = 0;
    proof {
        assert(pv.subrange(0, 0) =~= Seq::<JsonView>::empty());
        crate::json::lemma_view_items(characters@);
        assert(view_items(characters@) =~= Seq::<JsonView>::empty());
    }
    while i < placements.len()
        invariant
            i <= placements.len(),
            pv == view_items(placements@),
            pv.len() == placements.len(),
            forall|k: int| 0 <= k < placements.len() ==> #[trigger] pv[k] == placements@[k]@,
            ""@ == Seq::<char>::empty(),
            chosen_characters(view_items(assets@), pv.subrange(0, i as int)) == Ok::<Seq<JsonView>, AppErrorView>(view_items(characters@)),
        decreases placements.len() - i,
    {
        proof {
            let next = pv.subrange(0, i + 1);
            assert(next.drop_last() =~= pv.subrange(0, i as int));
            assert(next.last() == placements@[i as int]@);
        }
        let id = placements[i].text_or("asset_id", "");
        let character = match typed(assets, id.as_str(), "character") {
            Ok(c) => c,
            Err(e) => {
                proof {
                    lemma_characters_error(view_items(assets@), pv, i + 1);
                }
                return Err(e);
            },
        };
        if is_blank(character.get("image_url")) {
            let name = character.text_or("name", "未命名");
            proof {
                lemma_characters_error(view_items(assets@), pv, i + 1);
            }
            return Err(AppError::BadRequest(concat3("角色“", name.as_str(), "”尚未生成或上传图片")));
        }
        if !is_listed(&characters, character) {
            let copy = duplicate(character);
            proof {
                crate::json::lemma_view_items_push(characters@, copy);
            }
            characters.push(copy);
        }
        i += 1;
    }
    proof {
        assert(pv.subrange(0, placements.len() as int) =~= pv);
    }
    Ok(characters)
}

pub(crate) fn ids_of(items: &Vec<Json>) -> (r: Vec<Json>)
    ensures
        view_items(r@) == id_values(view_items(items@)),
{
    proof {
        crate::json::lemma_view_items(items@);
    }
    let mut out: Vec<Json> = Vec::new();
    let mut i: usize = 0;
    while i < items.len()
        invariant
            i <= items.len(),
            view_items(out@) == id_values(view_items(items@)).subrange(0, i as int),
            view_items(items@).len() == items.len(),
            forall|k: int| 0 <= k < items.len() ==> #[trigger] view_items(items@)[k] == items@[k]@,
        decreases items.len() - i,
    {
        let id = value_at(&items[i], "id");
        let ghost before = out@;
        proof {
            crate::json::lemma_view_items_push(before, id);
        }
        out.push(id);
        proof {
            assert(view_items(out@) =~= id_values(view_items(items@)).subrange(0, i + 1));
        }
        i += 1;
    }
    proof {
        assert(id_values(view_items(items@)).subrange(0, items.len() as int) =~= id_values(view_items(items@)));
    }
    out
}

pub(crate) fn texts_values_of(texts: &Vec<String>) -> (r: Vec<Json>)
    ensures
        view_items(r@) == text_values(crate::forms::texts_view(texts@)),
{
    let mut out: Vec<Json> = Vec::new();
    let mut i: usize = 0;
    proof {
        crate::json::lemma_view_items(out@);
    }
    while i < texts.len()
        invariant
            i <= texts.len(),
            view_items(out@) == text_values(crate::forms::texts_view(texts@)).subrange(0, i as int),
        decreases texts.len() - i,
    {
        let item = Json::Text(texts[i].clone());
        let ghost before = out@;
        proof {
            crate::json::lemma_view_items_push(before, item);
        }
        out.push(item);
        proof {
            assert(view_items(out@) =~= text_values(crate::forms::texts_view(texts@)).subrange(0, i + 1));
        }
        i += 1;
    }
    proof {
        assert(text_values(crate::forms::texts_view(texts@)).subrange(0, texts.len() as int) =~= text_values(crate::forms::texts_view(texts@)));
    }
    out
}

pub open spec fn plan_result(r: Result<GamePlaceholderPlan, AppError>) -> Result<(JsonView, Seq<JsonView>, Seq<JsonView>, JsonView), AppErrorView> {
    match r {
        Ok(p) => Ok(game_plan_view(p)),
        Err(e) => Err(e@),
    }
}

/// Plan the composite of node `node_id` from its saved layout and the game's materials.
pub fn game_placeholder_plan(node: &Json, assets: &Vec<Json>, node_id: &str) -> (r: Result<GamePlaceholderPlan, AppError>)
    ensures
        plan_result(r) == game_plan_of(node@, view_items(assets@), node_id@),
{
    let scene_id = match node.get("placeholder_scene_asset_id") {
        Some(Json::Text(id)) => id,
        other => {
            proof {
                match other {
                    Some(v) => crate::json::lemma_view_variant(*v),
                    None => {},
                }
            }
            return Err(AppError::bad_request("请选择场景素材"));
        },
    };
    let empty: Vec<Json> = Vec::new();
    let placements = items_at(node, "placeholder_placements", &empty);
    if placements.len() == 0 {
        return Err(AppError::bad_request("请至少添加一个角色到占位图"));
    }
    let scene = typed(assets, scene_id.as_str(), "scene")?;
    if is_blank(scene.get("image_url")) {
        return Err(AppError::bad_request("请先生成或上传场景图片，再创建占位图"));
    }
    let characters = characters_of(assets, placements)?;
    let references = items_at(node, "reference_asset_ids", &empty);
    let context = context_of(node);
    let props = props_of(assets, references, context.as_str(), "”尚未生成或上传图片")?;
    let mut reference_ids: Vec<String> = Vec::new();
    reference_ids.push(scene_id.clone());
    proof {
        assert(crate::forms::texts_view(reference_ids@) =~= seq![scene_id@]);
    }
    push_ids(&characters, &mut reference_ids);
    push_ids(&props, &mut reference_ids);
    let entries: Vec<(String, Json)> = vec![
        ("node_id".to_owned(), Json::Text(node_id.to_owned())),
        ("scene_asset_id".to_owned(), Json::Text(scene_id.clone())),
        ("scene_name".to_owned(), value_at(scene, "name")),
        ("placements".to_owned(), Json::Array(copy_items(placements))),
        ("character_asset_ids".to_owned(), Json::Array(ids_of(&characters))),
        ("prop_asset_ids".to_owned(), Json::Array(ids_of(&props))),
        ("reference_asset_ids".to_owned(), Json::Array(texts_values_of(&reference_ids))),
    ];
    proof {
        crate::json::lemma_view_entries(entries@);
        assert(crate::forms::texts_view(reference_ids@) =~= seq![scene_id@] + text_ids(view_items(characters@)) + text_ids(view_items(props@)));
        assert(view_entries(entries@) =~= composite_metadata(
            node_id@,
            scene_id@,
            scene@,
            view_items(placements@),
            view_items(characters@),
            view_items(props@),
        )->Object_0);
    }
    let metadata = Json::Object(entries);
    Ok(GamePlaceholderPlan { scene: duplicate(scene), characters, props, metadata })
}

/// Whether a stored material description is a generated composite of `node_id`.
pub open spec fn is_composite_of(metadata: JsonView, node_id: Seq<char>) -> bool {
    metadata.get("node_id"@) == Some(JsonView::Text(node_id))
        && metadata.get("render_mode"@) == Some(JsonView::Text("generated_composite"@))
}

/// Whether a stored material description is a generated composite of `node_id`.
pub fn composite_of(metadata: &Json, node_id: &str) -> (r: bool)
    ensures
        r == is_composite_of(metadata@, node_id@),
{
    has_text(metadata.get("node_id"), node_id) && has_text(metadata.get("render_mode"), "generated_composite")
}

/// The number of stored placeholder descriptions, kept as JSON text, that
/// `serde_json` reads as generated composites of `node_id`.
pub open spec fn composite_count(texts: Seq<Seq<char>>, node_id: Seq<char>) -> nat
    decreases texts.len(),
{
    if texts.len() == 0 {
        0
    } else {
        composite_count(texts.drop_last(), node_id) + match parsed_json(texts.last()) {
            Some(m) => if is_composite_of(m, node_id) {
                1nat
            } else {
                0nat
            },
            None => 0nat,
        }
    }
}

/// The version of a node's next composite: one more than the composites
/// stored for it. `metadata_texts` are the stored descriptions of the game's placeholders.
pub fn next_composite_version(metadata_texts: &Vec<String>, node_id: &str) -> (r: usize)
    requires
        metadata_texts.len() < usize::MAX,
    ensures
        r == composite_count(crate::forms::texts_view(metadata_texts@), node_id@) + 1,
{
    let ghost all = crate::forms::texts_view(metadata_texts@);
    let mut count: usize = 0;
    let mut i: usize = 0;
    proof {
        assert(all.subrange(0, 0) =~= Seq::<Seq<char>>::empty());
    }
    while i < metadata_texts.len()
        invariant
            i <= metadata_texts.len(),
            metadata_texts.len() < usize::MAX,
            all == crate::forms::texts_view(metadata_texts@),
            count == composite_count(all.subrange(0, i as int), node_id@),
            count <= i,
        decreases metadata_texts.len() - i,
    {
        proof {
            let next = all.subrange(0, i + 1);
            assert(next.drop_last() =~= all.subrange(0, i as int));
            assert(next.last() == metadata_texts@[i as int]@);
        }
        let parsed = parse_json(metadata_texts[i].as_str());
        let counted = match &parsed {
            Some(m) => composite_of(m, node_id),
            None => false,
        };
        if counted {
            count += 1;
        }
        i += 1;
    }
    proof {
        assert(all.subrange(0, metadata_texts.len() as int) =~= all);
    }
    count + 1
}

/// The stored description of a new composite: the plan's description with its version and render mode.
pub open spec fn versioned_metadata(metadata: JsonView, version: int) -> JsonView {
    let base: Entries = match metadata {
        JsonView::Object(e) => e,
        _ => Seq::empty(),
    };
    JsonView::Object(insert_entry(
        insert_entry(base, "version"@, JsonView::Int(version as i64)),
        "render_mode"@,
        JsonView::Text("generated_composite"@),
    ))
}

/// Add the version and render mode to a composite's description.
pub fn composite_record(metadata: &Json, version: usize) -> (r: Json)
    requires
        version <= i64::MAX,
    ensures
        r@ == versioned_metadata(metadata@, version as int),
{
    let mut entries: Vec<(String, Json)> = match metadata {
        Json::Object(e) => crate::json::copy_entries(e),
        _ => Vec::new(),
    };
    proof {
        if !(metadata@ is Object) {
            assert(view_entries(entries@) =~= Seq::<(Seq<char>, JsonView)>::empty());
        }
    }
    entry_insert(&mut entries, "version".to_owned(), Json::Int(version as i64));
    entry_insert(&mut entries, "render_mode".to_owned(), Json::Text("generated_composite".to_owned()));
    Json::Object(entries)
}

/// The name a composite is stored under: `"{title} · 占位图 {version}"`.
pub fn composite_name(title: &str, version: i64) -> (r: String)
    ensures
        r@ == title@ + " · 占位图 "@ + decimal(version as int),
{
    let number = decimal_text(version);
    concat3(title, " · 占位图 ", number.as_str())
}

/// The scene of a placeholder layout a creator saves for `node_id`, or why
/// the request is refused: it must not name another node, and needs a scene.
pub open spec fn layout_scene_of(values: Entries, node_id: Seq<char>) -> Result<Seq<char>, AppErrorView> {
    match crate::json::lookup(values, "node_id"@) {
        Some(JsonView::Text(id)) if id != node_id => Err(AppErrorView::BadRequest("请求节点与地址不匹配"@)),
        _ => {
            let scene = crate::forms::trimmed_field(values, "scene_asset_id"@);
            if scene.len() == 0 {
                Err(AppErrorView::BadRequest("请选择场景素材"@))
            } else {
                Ok(scene)
            }
        },
    }
}

/// Read the scene of a placeholder layout a creator saves for `node_id`.
pub fn layout_scene(values: &Vec<(String, Json)>, node_id: &str) -> (r: Result<String, AppError>)
    ensures
        crate::forms::text_result(r) == layout_scene_of(view_entries(values@), node_id@),
{
    match crate::json::entry_get(values, "node_id") {
        Some(Json::Text(id)) => {
            if !crate::json::str_eq(id.as_str(), node_id) {
                return Err(AppError::bad_request("请求节点与地址不匹配"));
            }
        },
        other => {
            proof {
                match other {
                    Some(v) => crate::json::lemma_view_variant(*v),
                    None => {},
                }
            }
        },
    }
    crate::forms::required_id(values, "scene_asset_id", "请选择场景素材")
}

/// A layout material must be one of the game's materials, of the expected kind.
pub open spec fn typed_asset_check(assets: Seq<(Seq<char>, Seq<char>)>, asset_id: Seq<char>, expected: Seq<char>) -> Result<(), AppErrorView> {
    match crate::game_materials::pair_get(assets, asset_id) {
        None => Err(AppErrorView::BadRequest("素材不存在："@ + asset_id)),
        Some(kind) => if kind == expected {
            Ok(())
        } else {
            Err(AppErrorView::BadRequest("素材类型不匹配："@ + asset_id))
        },
    }
}

/// The first layout material that is missing or of the wrong kind: the
/// scene must be a scene, each placed material a character.
pub open spec fn layout_assets_check_of(assets: Seq<(Seq<char>, Seq<char>)>, scene_id: Seq<char>, placed: Seq<Seq<char>>) -> Result<(), AppErrorView>
    decreases placed.len(),
{
    if placed.len() == 0 {
        typed_asset_check(assets, scene_id, "scene"@)
    } else {
        match layout_assets_check_of(assets, scene_id, placed.drop_last()) {
            Err(e) => Err(e),
            Ok(_) => typed_asset_check(assets, placed.last(), "character"@),
        }
    }
}

fn layout_asset(assets: &Vec<(String, String)>, asset_id: &str, expected: &str) -> (r: Result<(), AppError>)
    ensures
        crate::error::unit_result(r) == typed_asset_check(crate::game_materials::pair_views(assets@), asset_id@, expected@),
{
    match crate::game_materials::mapped_asset_id(Some(asset_id), assets) {
        None => Err(AppError::BadRequest(concat("素材不存在：", asset_id))),
        Some(kind) => if crate::json::str_eq(kind.as_str(), expected) {
            Ok(())
        } else {
            Err(AppError::BadRequest(concat("素材类型不匹配：", asset_id)))
        },
    }
}

/// Check the materials of a placeholder layout against the game's
/// materials (id and kind): the scene, then each placed character.
pub fn layout_assets_check(assets: &Vec<(String, String)>, scene_id: &str, placed: &Vec<String>) -> (r: Result<(), AppError>)
    ensures
        crate::error::unit_result(r) == layout_assets_check_of(crate::game_materials::pair_views(assets@), scene_id@, crate::forms::texts_view(placed@)),
{
    let ghost pv = crate::forms::texts_view(placed@);
    let mut i: usize = 0;
    proof {
        assert(pv.subrange(0, 0) =~= Seq::<Seq<char>>::empty());
    }
    let scene = layout_asset(assets, scene_id, "scene");
    if scene.is_err() {
        proof {
            lemma_layout_check_errs_on(crate::game_materials::pair_views(assets@), scene_id@, pv, 0);
        }
        return scene;
    }
    while i < placed.len()
        invariant
            i <= placed.len(),
            pv == crate::forms::texts_view(placed@),
            layout_assets_check_of(crate::game_materials::pair_views(assets@), scene_id@, pv.subrange(0, i as int)) is Ok,
        decreases placed.len() - i,
    {
        proof {
            let next = pv.subrange(0, i + 1);
            assert(next.drop_last() =~= pv.subrange(0, i as int));
            assert(next.last() == placed@[i as int]@);
        }
        let checked = layout_asset(assets, placed[i].as_str(), "character");
        if checked.is_err() {
            proof {
                lemma_layout_check_stops(crate::game_materials::pair_views(assets@), scene_id@, pv, i as int);
            }
            return checked;
        }
        i += 1;
    }
    proof {
        assert(pv.subrange(0, placed.len() as int) =~= pv);
    }
    Ok(())
}

proof fn lemma_layout_check_stops(assets: Seq<(Seq<char>, Seq<char>)>, scene_id: Seq<char>, placed: Seq<Seq<char>>, i: int)
    requires
        0 <= i < placed.len(),
        layout_assets_check_of(assets, scene_id, placed.subrange(0, i)) is Ok,
        typed_asset_check(assets, placed[i], "character"@) is Err,
    ensures
        layout_assets_check_of(assets, scene_id, placed) == typed_asset_check(assets, placed[i], "character"@),
    decreases placed.len() - i,
{
    let next = placed.subrange(0, i + 1);
    assert(next.drop_last() =~= placed.subrange(0, i));
    assert(next.last() == placed[i]);
    if i + 1 == placed.len() {
        assert(next =~= placed);
    } else {
        lemma_layout_check_errs_on(assets, scene_id, placed, i + 1);
    }
}

proof fn lemma_layout_check_errs_on(assets: Seq<(Seq<char>, Seq<char>)>, scene_id: Seq<char>, placed: Seq<Seq<char>>, k: int)
    requires
        0 <= k <= placed.len(),
        layout_assets_check_of(assets, scene_id, placed.subrange(0, k)) is Err,
    ensures
        layout_assets_check_of(assets, scene_id, placed) == layout_assets_check_of(assets, scene_id, placed.subrange(0, k)),
    decreases placed.len() - k,
{
    if k < placed.len() {
        let next = placed.subrange(0, k + 1);
        assert(next.drop_last() =~= placed.subrange(0, k));
        lemma_layout_check_errs_on(assets, scene_id, placed, k + 1);
    } else {
        assert(placed.subrange(0, k) =~= placed);
    }
}

} // verus!
