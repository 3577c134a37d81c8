//! Cover image requests of projects and games: the cover's name and prompt,
//! its aspect ratio and image count, and the materials it is drawn from.

use vstd::prelude::*;

use crate::error::{AppError, AppErrorView};
use crate::forms::{optional_text, optional_text_field, required_text, required_text_field, texts_view, unique_ids, unique_texts};
use crate::json::{entry_get, lookup, view_entries, view_items, Entries, Json, JsonView};
use crate::placeholder::{asset_with_id, blank, find_asset, has_text, is_blank};
use crate::serial_batch::text_values;
use crate::text::concat;

verus! {

/// The aspect ratios a cover can have.
pub open spec fn cover_ratio_allowed(ratio: Seq<char>) -> bool {
    ratio == "9:16"@ || ratio == "16:9"@ || ratio == "1:1"@ || ratio == "3:4"@ || ratio == "4:3"@
}

/// The ids listed in an optional array field, each once.
pub open spec fn listed_ids(values: Entries, field: Seq<char>) -> Seq<Seq<char>> {
    match lookup(values, field) {
        Some(JsonView::Array(items)) => unique_texts(items),
        _ => Seq::empty(),
    }
}

/// The first listed reference that is not a material of this kind with an image.
pub open spec fn reference_check(assets: Seq<JsonView>, ids: Seq<Seq<char>>, kind: Seq<char>) -> Result<(), AppErrorView>
    decreases ids.len(),
{
    if ids.len() == 0 {
        Ok(())
    } else {
        match reference_check(assets, ids.drop_last(), kind) {
            Err(e) => Err(e),
            Ok(()) => {
                let id = ids.last();
                match asset_with_id(assets, id) {
                    Some(a) => if a.get("type"@) != Some(JsonView::Text(kind)) {
                        Err(AppErrorView::BadRequest("封面参考素材不存在或类型不匹配："@ + id))
                    } else if blank(a.get("image_url"@)) {
                        Err(AppErrorView::BadRequest("请先生成或上传以下封面参考图："@ + crate::json::text_or(a, "name"@, id)))
                    } else {
                        Ok(())
                    },
                    None => Err(AppErrorView::BadRequest("封面参考素材不存在或类型不匹配："@ + id)),
                }
            },
        }
    }
}

/// A checked cover request.
#[derive(Debug)]
pub struct CoverRequest {
    pub name: String,
    pub prompt: String,
    pub ratio: String,
    pub count: i64,
    /// The listed characters, scenes and extra references, the ratio, the
    /// count, and every reference in that order.
    pub metadata: Json,
}

pub struct CoverRequestView {
    pub name: Seq<char>,
    pub prompt: Seq<char>,
    pub ratio: Seq<char>,
    pub count: i64,
    pub metadata: JsonView,
}

/// The checked cover request, or the first problem with it. A request
/// without a ratio uses `default_ratio`; `assets` are the owner's materials.
pub open spec fn cover_request_of(values: Entries, assets: Seq<JsonView>, default_ratio: Seq<char>) -> Result<CoverRequestView, AppErrorView> {
    match required_text_field(values, "name"@, 200) {
        Err(e) => Err(e),
        Ok(name) => match optional_text_field(values, "prompt"@, 10_000) {
            Err(e) => Err(e),
            Ok(prompt) => {
                let ratio = match lookup(values, "ratio"@) {
                    Some(JsonView::Text(r)) => r,
                    _ => default_ratio,
                };
                let count: Result<i64, AppErrorView> = match lookup(values, "count"@) {
                    None => Ok(1),
                    Some(JsonView::Int(c)) => Ok(c),
                    Some(_) => Err(AppErrorView::BadRequest("封面数量必须是整数"@)),
                };
                let characters = listed_ids(values, "character_asset_ids"@);
                let scenes = listed_ids(values, "scene_asset_ids"@);
                let extras = listed_ids(values, "extra_reference_asset_ids"@);
                if !cover_ratio_allowed(ratio) {
                    Err(AppErrorView::BadRequest("不支持的封面比例"@))
                } else {
                    match count {
                        Err(e) => Err(e),
                        Ok(c) => if !(1 <= c && c <= 8) {
                            Err(AppErrorView::BadRequest("封面数量必须在 1 到 8 之间"@))
                        } else {
                            match reference_check(assets, characters, "character"@) {
                                Err(e) => Err(e),
                                Ok(()) => match reference_check(assets, scenes, "scene"@) {
                                    Err(e) => Err(e),
                                    Ok(()) => match reference_check(assets, extras, "cover_reference"@) {
                                        Err(e) => Err(e),
                                        Ok(()) => Ok(CoverRequestView {
                                            name,
                                            prompt,
                                            ratio,
                                            count: c,
                                            metadata: JsonView::Object(seq![
                                                ("character_asset_ids"@, JsonView::Array(text_values(characters))),
                                                ("scene_asset_ids"@, JsonView::Array(text_values(scenes))),
                                                ("extra_reference_asset_ids"@, JsonView::Array(text_values(extras))),
                                                ("ratio"@, JsonView::Text(ratio)),
                                                ("count"@, JsonView::Int(c)),
                                                ("reference_asset_ids"@, JsonView::Array(text_values(characters + scenes + extras))),
                                            ]),
                                        }),
                                    },
                                },
                            }
                        },
                    }
                }
            },
        },
    }
}

pub open spec fn request_result(r: Result<CoverRequest, AppError>) -> Result<CoverRequestView, AppErrorView> {
    match r {
        Ok(c) => Ok(CoverRequestView { name: c.name@, prompt: c.prompt@, ratio: c.ratio@, count: c.count, metadata: c.metadata@ }),
        Err(e) => Err(e@),
    }
}

proof fn lemma_reference_error(assets: Seq<JsonView>, ids: Seq<Seq<char>>, kind: Seq<char>, k: int)
    requires
        0 <= k <= ids.len(),
        reference_check(assets, ids.subrange(0, k), kind) is Err,
    ensures
        reference_check(assets, ids, kind) == reference_check(assets, ids.subrange(0, k), kind),
    decreases ids.len() - k,
{
    if k < ids.len() {
        assert(ids.drop_last().subrange(0, k) =~= ids.subrange(0, k));
        lemma_reference_error(assets, ids.drop_last(), kind, k);
    } else {
        assert(ids.subrange(0, k) =~= ids);
    }
}

fn check_references(assets: &Vec<Json>, ids: &Vec<String>, kind: &str) -> (r: Result<(), AppError>)
    ensures
        crate::error::unit_result(r) == reference_check(view_items(assets@), texts_view(ids@), kind@),
{
    let ghost all = texts_view(ids@);
    let mut i: usize = 0;
    proof {
        assert(all.subrange(0, 0) =~= Seq::<Seq<char>>::empty());
    }
    while i < ids.len()
        invariant
            i <= ids.len(),
            all == texts_view(ids@),
            reference_check(view_items(assets@), all.subrange(0, i as int), kind@) == Ok::<(), AppErrorView>(()),
        decreases ids.len() - i,
    {
        proof {
            let next = all.subrange(0, i + 1);
            assert(next.drop_last() =~= all.subrange(0, i as int));
            assert(next.last() == ids@[i as int]@);
        }
        let id = ids[i].as_str();
        match find_asset(assets, id) {
            Some(a) => {
                if !has_text(a.get("type"), kind) {
                    proof {
                        lemma_reference_error(view_items(assets@), all, kind@, i + 1);
                    }
                    return Err(AppError::BadRequest(concat("封面参考素材不存在或类型不匹配：", id)));
                }
                if is_blank(a.get("image_url")) {
                    let name = a.text_or("name", id);
                    proof {
                        lemma_reference_error(view_items(assets@), all, kind@, i + 1);
                    }
                    return Err(AppError::BadRequest(concat("请先生成或上传以下封面参考图：", name.as_str())));
                }
            },
            None => {
                proof {
                    lemma_reference_error(view_items(assets@), all, kind@, i + 1);
                }
                return Err(AppError::BadRequest(concat("封面参考素材不存在或类型不匹配：", id)));
            },
        }
        i += 1;
    }
    proof {
        assert(all.subrange(0, ids.len() as int) =~= all);
    }
    Ok(())
}

fn append_all(out: &mut Vec<String>, more: &Vec<String>)
    ensures
        texts_view(final(out)@) == texts_view(old(out)@) + texts_view(more@),
{
    let ghost start = texts_view(out@);
    let mut i: usize = 0;
    while i < more.len()
        invariant
            i <= more.len(),
            texts_view(out@) == start + texts_view(more@).subrange(0, i as int),
        decreases more.len() - i,
    {
        let ghost before = texts_view(out@);
        out.push(more[i].clone());
        proof {
            assert(texts_view(out@) =~= before.push(more@[i as int]@));
            assert(texts_view(out@) =~= start + texts_view(more@).subrange(0, i + 1));
        }
        i += 1;
    }
    proof {
        assert(texts_view(more@).subrange(0, more.len() as int) =~= texts_view(more@));
    }
}

fn ratio_allowed(ratio: &str) -> (r: bool)
    ensures
        r == cover_ratio_allowed(ratio@),
{
    crate::json::str_eq(ratio, "9:16") || crate::json::str_eq(ratio, "16:9") || crate::json::str_eq(ratio, "1:1")
        || crate::json::str_eq(ratio, "3:4") || crate::json::str_eq(ratio, "4:3")
}

/// Check a cover request against the owner's materials. `default_ratio` is
/// the ratio of a request that names none: `9:16` for a project, the game's
/// own cover ratio for a game.
pub fn cover_request(values: &Vec<(String, Json)>, assets: &Vec<Json>, default_ratio: &str) -> (r: Result<CoverRequest, AppError>)
    ensures
        request_result(r) == cover_request_of(view_entries(values@), view_items(assets@), default_ratio@),
{
    let name = required_text(values, "name", 200)?;
    let prompt = optional_text(values, "prompt", 10_000)?;
    let ratio = match entry_get(values, "ratio") {
        Some(Json::Text(r)) => r.clone(),
        other => {
            proof {
                match other {
                    Some(v) => crate::json::lemma_view_variant(*v),
                    None => {},
                }
            }
            default_ratio.to_owned()
        },
    };
    if !ratio_allowed(ratio.as_str()) {
        return Err(AppError::bad_request("不支持的封面比例"));
    }
    let count: i64 = match entry_get(values, "count") {
        None => 1,
        Some(Json::Int(c)) => *c,
        Some(other) => {
            proof {
                crate::json::lemma_view_variant(*other);
            }
            return Err(AppError::bad_request("封面数量必须是整数"));
        },
    };
    if !(1 <= count && count <= 8) {
        return Err(AppError::bad_request("封面数量必须在 1 到 8 之间"));
    }
    let characters = unique_ids(entry_get(values, "character_asset_ids"));
    check_references(assets, &characters, "character")?;
    let scenes = unique_ids(entry_get(values, "scene_asset_ids"));
    check_references(assets, &scenes, "scene")?;
    let extras = unique_ids(entry_get(values, "extra_reference_asset_ids"));
    check_references(assets, &extras, "cover_reference")?;
    let mut references: Vec<String> = Vec::new();
    proof {
        assert(texts_view(references@) =~= Seq::<Seq<char>>::empty());
    }
    append_all(&mut references, &characters);
    append_all(&mut references, &scenes);
    append_all(&mut references, &extras);
    proof {
        assert(Seq::<Seq<char>>::empty() + texts_view(characters@) + texts_view(scenes@) + texts_view(extras@)
            =~= texts_view(characters@) + texts_view(scenes@) + texts_view(extras@));
    }
    let entries: Vec<(String, Json)> = vec![
        ("character_asset_ids".to_owned(), Json::Array(crate::game_placeholder::texts_values_of(&characters))),
        ("scene_asset_ids".to_owned(), Json::Array(crate::game_placeholder::texts_values_of(&scenes))),
        ("extra_reference_asset_ids".to_owned(), Json::Array(crate::game_placeholder::texts_values_of(&extras))),
        ("ratio".to_owned(), Json::Text(ratio.clone())),
        ("count".to_owned(), Json::Int(count)),
        ("reference_asset_ids".to_owned(), Json::Array(crate::game_placeholder::texts_values_of(&references))),
    ];
    proof {
        crate::json::lemma_view_entries(entries@);
        let v = view_entries(values@);
        assert(texts_view(characters@) == listed_ids(v, "character_asset_ids"@));
        assert(texts_view(scenes@) == listed_ids(v, "scene_asset_ids"@));
        assert(texts_view(extras@) == listed_ids(v, "extra_reference_asset_ids"@));
        assert(view_entries(entries@) =~= seq![
            ("character_asset_ids"@, JsonView::Array(text_values(listed_ids(v, "character_asset_ids"@)))),
            ("scene_asset_ids"@, JsonView::Array(text_values(listed_ids(v, "scene_asset_ids"@)))),
            ("extra_reference_asset_ids"@, JsonView::Array(text_values(listed_ids(v, "extra_reference_asset_ids"@)))),
            ("ratio"@, JsonView::Text(ratio@)),
            ("count"@, JsonView::Int(count)),
            ("reference_asset_ids"@, JsonView::Array(text_values(listed_ids(v, "character_asset_ids"@) + listed_ids(v, "scene_asset_ids"@) + listed_ids(v, "extra_reference_asset_ids"@)))),
        ]);
    }
    let metadata = Json::Object(entries);
    Ok(CoverRequest { name, prompt, ratio, count, metadata })
}

/// What a cover image task freezes of its request.
pub open spec fn cover_task_input(owner_key: Seq<char>, owner_id: Seq<char>, cover_id: Seq<char>, metadata: JsonView) -> JsonView {
    JsonView::Object(seq![
        (owner_key, JsonView::Text(owner_id)),
        ("cover_asset_id"@, JsonView::Text(cover_id)),
        ("ratio"@, crate::placeholder::at(metadata, "ratio"@)),
        ("count"@, crate::placeholder::at(metadata, "count"@)),
        ("reference_asset_ids"@, crate::placeholder::at(metadata, "reference_asset_ids"@)),
    ])
}

/// The input of a cover image task: `owner_key` is `project_id` for a
/// project's cover and `game_id` for a game's.
pub fn cover_task_snapshot(owner_key: &str, owner_id: &str, cover_id: &str, metadata: &Json) -> (r: Json)
    ensures
        r@ == cover_task_input(owner_key@, owner_id@, cover_id@, metadata@),
{
    let entries: Vec<(String, Json)> = vec![
        (owner_key.to_owned(), Json::Text(owner_id.to_owned())),
        ("cover_asset_id".to_owned(), Json::Text(cover_id.to_owned())),
        ("ratio".to_owned(), crate::placeholder::value_at(metadata, "ratio")),
        ("count".to_owned(), crate::placeholder::value_at(metadata, "count")),
        ("reference_asset_ids".to_owned(), crate::placeholder::value_at(metadata, "reference_asset_ids")),
    ];
    proof {
        crate::json::lemma_view_entries(entries@);
        assert(view_entries(entries@) =~= cover_task_input(owner_key@, owner_id@, cover_id@, metadata@)->Object_0);
    }
    Json::Object(entries)
}

} // verus!
