//! The checks a game node passes before its video is generated.

use vstd::prelude::*;

use crate::error::{unit_result, AppError, AppErrorView};
use crate::game_materials::{array_at, game_video_reference_ids, items_at, video_reference_ids};
use crate::json::{view_items, Json, JsonView};
use crate::placeholder::{asset_with_id, find_asset, has_text};
use crate::text::{chars_of, concat, join_with, joined, trim, trimmed};

verus! {

/// The status of a material whose image is still being generated.
pub open spec fn generating_status() -> Seq<char> {
    "生成中"@
}

/// The status of a material whose image generation failed.
pub open spec fn failed_status() -> Seq<char> {
    "生成失败"@
}

/// Why a referenced material cannot go into a node's video, if it cannot.
/// `sendable` lists the image URLs that can be handed to a video model.
pub open spec fn reference_issue(assets: Seq<JsonView>, id: Seq<char>, sendable: Seq<Seq<char>>) -> Option<Seq<char>> {
    match asset_with_id(assets, id) {
        None => Some(id + "（素材不存在）"@),
        Some(asset) => {
            let name = crate::json::text_or(asset, "name"@, id);
            if asset.get("status"@) == Some(JsonView::Text(generating_status())) {
                Some(name + "（图片仍在生成）"@)
            } else if asset.get("status"@) == Some(JsonView::Text(failed_status())) {
                Some(name + "（图片生成失败）"@)
            } else if match asset.get("image_url"@) {
                Some(JsonView::Text(url)) => !sendable.contains(url),
                _ => true,
            } {
                Some(name + "（图片未生成、未上传或无法发送给视频模型）"@)
            } else {
                None
            }
        },
    }
}

/// The issues of each referenced material, in reference order.
pub open spec fn reference_issues(assets: Seq<JsonView>, ids: Seq<Seq<char>>, sendable: Seq<Seq<char>>) -> Seq<Seq<char>>
    decreases ids.len(),
{
    if ids.len() == 0 {
        Seq::empty()
    } else {
        let before = reference_issues(assets, ids.drop_last(), sendable);
        match reference_issue(assets, ids.last(), sendable) {
            Some(issue) => before.push(issue),
            None => before,
        }
    }
}

/// Whether a node has no saved video prompt.
pub open spec fn prompt_missing(node: JsonView) -> bool {
    match node.get("prompt"@) {
        Some(JsonView::Text(p)) => trimmed(p).len() == 0,
        _ => true,
    }
}

/// A node's video length in seconds, 0 when it is not an integer.
pub open spec fn duration_of(node: JsonView) -> i64 {
    match node.get("duration_seconds"@) {
        Some(JsonView::Int(d)) => d,
        _ => 0,
    }
}

/// Every reason a node's video cannot be generated yet, in the order they are reported.
pub open spec fn node_video_issues(game: JsonView, node: JsonView, sendable: Seq<Seq<char>>) -> Seq<Seq<char>> {
    let prompt: Seq<Seq<char>> = if prompt_missing(node) {
        seq!["请先填写并保存视频提示词"@]
    } else {
        Seq::empty()
    };
    let duration: Seq<Seq<char>> = if 4 <= duration_of(node) && duration_of(node) <= 15 {
        Seq::empty()
    } else {
        seq!["节点视频时长必须在 4 到 15 秒之间"@]
    };
    prompt + duration + reference_issues(array_at(game, "assets"@), video_reference_ids(node), sendable)
}

/// Whether a node's video may be queued: yes when nothing is wrong, else every issue joined with `；`.
pub open spec fn node_video_preflight(game: JsonView, node: JsonView, sendable: Seq<Seq<char>>) -> Result<(), AppErrorView> {
    let issues = node_video_issues(game, node, sendable);
    if issues.len() == 0 {
        Ok(())
    } else {
        Err(AppErrorView::BadRequest(joined(issues, "；"@)))
    }
}

pub open spec fn texts_of(v: Seq<String>) -> Seq<Seq<char>> {
    Seq::new(v.len() as nat, |i: int| v[i]@)
}

pub(crate) fn listed_url(urls: &Vec<String>, url: &str) -> (r: bool)
    ensures
        r == texts_of(urls@).contains(url@),
{
    let ghost all = texts_of(urls@);
    let mut i: usize = 0;
    while i < urls.len()
        invariant
            i <= urls.len(),
            all == texts_of(urls@),
            forall|k: int| 0 <= k < i ==> all[k] != url@,
        decreases urls.len() - i,
    {
        if crate::json::str_eq(urls[i].as_str(), url) {
            proof {
                assert(all[i as int] == url@);
            }
            return true;
        }
        i += 1;
    }
    false
}

fn issue_of(assets: &Vec<Json>, id: &str, sendable: &Vec<String>) -> (r: Option<String>)
    ensures
        crate::storage::opt_text_view(r) == reference_issue(view_items(assets@), id@, texts_of(sendable@)),
{
    match find_asset(assets, id) {
        None => Some(concat(id, "（素材不存在）")),
        Some(asset) => {
            let name = asset.text_or("name", id);
            if has_text(asset.get("status"), "生成中") {
                Some(concat(name.as_str(), "（图片仍在生成）"))
            } else if has_text(asset.get("status"), "生成失败") {
                Some(concat(name.as_str(), "（图片生成失败）"))
            } else {
                let unusable = match asset.get("image_url") {
                    Some(Json::Text(url)) => !listed_url(sendable, url.as_str()),
                    other => {
                        proof {
                            match other {
                                Some(v) => crate::json::lemma_view_variant(*v),
                                None => {},
                            }
                        }
                        true
                    },
                };
                if unusable {
                    Some(concat(name.as_str(), "（图片未生成、未上传或无法发送给视频模型）"))
                } else {
                    None
                }
            }
        },
    }
}

/// Check a node before its video is generated. `sendable_urls` are the image
/// URLs that the media store can hand to a video model.
pub fn validate_game_node_video_preflight(game: &Json, node: &Json, sendable_urls: &Vec<String>) -> (r: Result<(), AppError>)
    ensures
        unit_result(r) == node_video_preflight(game@, node@, texts_of(sendable_urls@)),
{
    let ghost sendable = texts_of(sendable_urls@);
    let mut issues: Vec<String> = Vec::new();
    let prompt_blank = match node.get("prompt") {
        Some(Json::Text(p)) => chars_of(trim(p.as_str()).as_str()).len() == 0,
        other => {
            proof {
                match other {
                    Some(v) => crate::json::lemma_view_variant(*v),
                    None => {},
                }
            }
            true
        },
    };
    if prompt_blank {
        issues.push("请先填写并保存视频提示词".to_owned());
    }
    let duration: i64 = match node.get("duration_seconds") {
        Some(Json::Int(d)) => *d,
        other => {
            proof {
                match other {
                    Some(v) => crate::json::lemma_view_variant(*v),
                    None => {},
                }
            }
            0
        },
    };
    if !(4 <= duration && duration <= 15) {
        issues.push("节点视频时长必须在 4 到 15 秒之间".to_owned());
    }
    let ghost head = texts_of(issues@);
    proof {
        let p: Seq<Seq<char>> = if prompt_missing(node@) { seq!["请先填写并保存视频提示词"@] } else { Seq::empty() };
        let d: Seq<Seq<char>> = if 4 <= duration_of(node@) && duration_of(node@) <= 15 { Seq::empty() } else { seq!["节点视频时长必须在 4 到 15 秒之间"@] };
        assert(head =~= p + d);
    }
    let empty: Vec<Json> = Vec::new();
    let assets = items_at(game, "assets", &empty);
    let ids = game_video_reference_ids(node);
    let ghost idv = crate::forms::texts_view(ids@);
    let mut i: usize = 0;
    proof {
        assert(idv.subrange(0, 0) =~= Seq::<Seq<char>>::empty());
        assert(texts_of(issues@) =~= head + Seq::<Seq<char>>::empty());
    }
    while i < ids.len()
        invariant
            i <= ids.len(),
            idv == crate::forms::texts_view(ids@),
            idv == video_reference_ids(node@),
            view_items(assets@) == array_at(game@, "assets"@),
            sendable == texts_of(sendable_urls@),
            texts_of(issues@) == head + reference_issues(view_items(assets@), idv.subrange(0, i as int), sendable),
        decreases ids.len() - i,
    {
        proof {
            let next = idv.subrange(0, i + 1);
            assert(next.drop_last() =~= idv.subrange(0, i as int));
            assert(next.last() == ids@[i as int]@);
        }
        let found = issue_of(assets, ids[i].as_str(), sendable_urls);
        if let Some(issue) = found {
            let ghost before = texts_of(issues@);
            issues.push(issue);
            proof {
                assert(texts_of(issues@) =~= before.push(issues@[issues.len() - 1]@));
            }
        }
        i += 1;
    }
    proof {
        assert(idv.subrange(0, ids.len() as int) =~= idv);
        assert(texts_of(issues@) =~= node_video_issues(game@, node@, sendable));
    }
    if issues.len() == 0 {
        Ok(())
    } else {
        let message = join_with(&issues, "；");
        proof {
            assert(Seq::new(issues.len() as nat, |i: int| issues@[i]@) =~= texts_of(issues@));
        }
        Err(AppError::BadRequest(message))
    }
}

/// A material as a node's video task records it.
pub open spec fn reference_card(asset: JsonView) -> JsonView {
    JsonView::Object(seq![
        ("id"@, crate::placeholder::at(asset, "id"@)),
        ("name"@, crate::placeholder::at(asset, "name"@)),
        ("type"@, crate::placeholder::at(asset, "type"@)),
        ("image_url"@, crate::placeholder::at(asset, "image_url"@)),
        ("prompt"@, crate::placeholder::at(asset, "prompt"@)),
        ("voice_id"@, crate::placeholder::at(asset, "voice_id"@)),
    ])
}

/// The materials among `assets` whose id is referenced, in material order.
pub open spec fn reference_cards(assets: Seq<JsonView>, ids: Seq<Seq<char>>) -> Seq<JsonView>
    decreases assets.len(),
{
    if assets.len() == 0 {
        Seq::empty()
    } else {
        let before = reference_cards(assets.drop_last(), ids);
        match assets.last().get("id"@) {
            Some(JsonView::Text(id)) => if ids.contains(id) {
                before.push(reference_card(assets.last()))
            } else {
                before
            },
            _ => before,
        }
    }
}

/// What a node's video task freezes: the node's prompt, its references and
/// their materials, its frames and its placeholder layout.
pub open spec fn video_snapshot(game_id: Seq<char>, node_id: Seq<char>, game: JsonView, node: JsonView) -> JsonView {
    let ids = video_reference_ids(node);
    JsonView::Object(seq![
        ("game_id"@, JsonView::Text(game_id)),
        ("node_id"@, JsonView::Text(node_id)),
        ("prompt"@, crate::placeholder::at(node, "prompt"@)),
        ("prompt_rich"@, crate::placeholder::at(node, "prompt_rich"@)),
        ("reference_asset_ids"@, JsonView::Array(crate::serial_batch::text_values(ids))),
        ("reference_images"@, JsonView::Array(reference_cards(array_at(game, "assets"@), ids))),
        ("first_last_frames"@, crate::placeholder::at(node, "first_last_frames"@)),
        ("placeholder_asset_id"@, crate::placeholder::at(node, "placeholder_asset_id"@)),
        ("placeholder_scene_asset_id"@, crate::placeholder::at(node, "placeholder_scene_asset_id"@)),
        ("placeholder_placements"@, crate::placeholder::at(node, "placeholder_placements"@)),
    ])
}

fn card_of(asset: &Json) -> (r: Json)
    ensures
        r@ == reference_card(asset@),
{
    let entries: Vec<(String, Json)> = vec![
        ("id".to_owned(), crate::placeholder::value_at(asset, "id")),
        ("name".to_owned(), crate::placeholder::value_at(asset, "name")),
        ("type".to_owned(), crate::placeholder::value_at(asset, "type")),
        ("image_url".to_owned(), crate::placeholder::value_at(asset, "image_url")),
        ("prompt".to_owned(), crate::placeholder::value_at(asset, "prompt")),
        ("voice_id".to_owned(), crate::placeholder::value_at(asset, "voice_id")),
    ];
    proof {
        crate::json::lemma_view_entries(entries@);
        assert(crate::json::view_entries(entries@) =~= reference_card(asset@)->Object_0);
    }
    Json::Object(entries)
}

/// The task input of a node's video.
pub fn game_video_snapshot(game_id: &str, node_id: &str, game: &Json, node: &Json) -> (r: Json)
    ensures
        r@ == video_snapshot(game_id@, node_id@, game@, node@),
{
    let ids = game_video_reference_ids(node);
    let ghost idv = crate::forms::texts_view(ids@);
    let empty: Vec<Json> = Vec::new();
    let assets = items_at(game, "assets", &empty);
    proof {
        crate::json::lemma_view_items(assets@);
    }
    let ghost av = view_items(assets@);
    let mut cards: Vec<Json> = Vec::new();
    let mut i: usize = 0;
    proof {
        assert(av.subrange(0, 0) =~= Seq::<JsonView>::empty());
        crate::json::lemma_view_items(cards@);
    }
    while i < assets.len()
        invariant
            i <= assets.len(),
            av == view_items(assets@),
            av.len() == assets.len(),
            forall|k: int| 0 <= k < assets.len() ==> #[trigger] av[k] == assets@[k]@,
            idv == crate::forms::texts_view(ids@),
            view_items(cards@) == reference_cards(av.subrange(0, i as int), idv),
        decreases assets.len() - i,
    {
        proof {
            let next = av.subrange(0, i + 1);
            assert(next.drop_last() =~= av.subrange(0, i as int));
            assert(next.last() == assets@[i as int]@);
        }
        match assets[i].get("id") {
            Some(Json::Text(id)) => {
                if listed_url(&ids, id.as_str()) {
                    proof {
                        assert(texts_of(ids@) =~= idv);
                    }
                    let card = card_of(&assets[i]);
                    let ghost before = cards@;
                    proof {
                        crate::json::lemma_view_items_push(before, card);
                    }
                    cards.push(card);
                } else {
                    proof {
                        assert(texts_of(ids@) =~= idv);
                    }
                }
            },
            other => {
                proof {
                    match other {
                        Some(v) => crate::json::lemma_view_variant(*v),
                        None => {},
                    }
                }
            },
        }
        i += 1;
    }
    proof {
        assert(av.subrange(0, assets.len() as int) =~= av);
    }
    let id_values = crate::game_placeholder::texts_values_of(&ids);
    let entries: Vec<(String, Json)> = vec![
        ("game_id".to_owned(), Json::Text(game_id.to_owned())),
        ("node_id".to_owned(), Json::Text(node_id.to_owned())),
        ("prompt".to_owned(), crate::placeholder::value_at(node, "prompt")),
        ("prompt_rich".to_owned(), crate::placeholder::value_at(node, "prompt_rich")),
        ("reference_asset_ids".to_owned(), Json::Array(id_values)),
        ("reference_images".to_owned(), Json::Array(cards)),
        ("first_last_frames".to_owned(), crate::placeholder::value_at(node, "first_last_frames")),
        ("placeholder_asset_id".to_owned(), crate::placeholder::value_at(node, "placeholder_asset_id")),
        ("placeholder_scene_asset_id".to_owned(), crate::placeholder::value_at(node, "placeholder_scene_asset_id")),
        ("placeholder_placements".to_owned(), crate::placeholder::value_at(node, "placeholder_placements")),
    ];
    proof {
        crate::json::lemma_view_entries(entries@);
        assert(crate::json::view_entries(entries@) =~= video_snapshot(game_id@, node_id@, game@, node@)->Object_0);
    }
    Json::Object(entries)
}

} // verus!
