//! The first and last frames a game node's video starts and ends on: a
//! material image, an uploaded image, or a frame of a related node's video.

use vstd::prelude::*;

use crate::error::{unit_result, AppError, AppErrorView};
use crate::forms::{required_frame_field, trimmed_field};
use crate::game_materials::{asset_check, pair_views, require_asset};
use crate::graph::{edge_step, links, opt_text, reaches, reaches_node, GraphEdge};
use crate::json::{entry_get, lookup, parse_json, parsed_json, str_eq, view_entries, view_items, Entries, Json, JsonView};
use crate::text::{concat3, has_prefix, starts_with, trim};
use crate::video_history::{playable_entry, playable_history_video};

verus! {

/// `to` follows `from` along at least one edge.
pub open spec fn strictly_reaches(step: spec_fn(Seq<char>, Seq<char>) -> bool, from: Seq<char>, to: Seq<char>) -> bool {
    exists|mid: Seq<char>| #[trigger] step(from, mid) && reaches(step, mid, to)
}

/// Two nodes are related when one lies upstream or downstream of the other.
pub open spec fn related(edges: Seq<GraphEdge>, node_id: Seq<char>, other: Seq<char>) -> bool {
    strictly_reaches(edge_step(edges, None), other, node_id) || strictly_reaches(edge_step(edges, None), node_id, other)
}

/// Whether `goal` follows `from` along at least one edge of the game.
pub fn strictly_reaches_node(edges: &Vec<GraphEdge>, from: &str, goal: &str) -> (r: bool)
    ensures
        r == strictly_reaches(edge_step(edges@, None), from@, goal@),
{
    let ghost step = edge_step(edges@, None);
    let mut i: usize = 0;
    while i < edges.len()
        invariant
            i <= edges.len(),
            step == edge_step(edges@, None),
            forall|k: int| 0 <= k < i && #[trigger] edges@[k].source_node_id@ == from@ ==> !reaches(step, edges@[k].target_node_id@, goal@),
        decreases edges.len() - i,
    {
        if str_eq(edges[i].source_node_id.as_str(), from) && reaches_node(edges, None, edges[i].target_node_id.as_str(), goal) {
            proof {
                assert(links(edges@[i as int], None, from@, edges@[i as int].target_node_id@));
                assert(step(from@, edges@[i as int].target_node_id@));
            }
            return true;
        }
        i += 1;
    }
    proof {
        assert forall|mid: Seq<char>| #[trigger] step(from@, mid) implies !reaches(step, mid, goal@) by {
            let k = choose|k: int| 0 <= k < edges@.len() && #[trigger] links(edges@[k], None, from@, mid);
            assert(edges@[k].source_node_id@ == from@);
        }
    }
    false
}

/// The stored video state of a game node: its id, its video history as
/// stored JSON text, and its current video URL.
#[derive(Debug)]
pub struct NodeVideoRecord {
    pub id: String,
    pub video_history_json: String,
    pub video_url: Option<String>,
}

/// The first record with this node id.
pub open spec fn record_with_id(records: Seq<NodeVideoRecord>, id: Seq<char>) -> Option<NodeVideoRecord>
    decreases records.len(),
{
    if records.len() == 0 {
        None
    } else if records[0].id@ == id {
        Some(records[0])
    } else {
        record_with_id(records.drop_first(), id)
    }
}

/// The video history stored as `text`: its entries when it is a JSON array, else none.
pub open spec fn history_items(text: Seq<char>) -> Seq<JsonView> {
    match parsed_json(text) {
        Some(JsonView::Array(items)) => items,
        _ => Seq::empty(),
    }
}

/// A related node's video can be used when the history holds it finished,
/// or when the node's current video is asked for and it has one.
pub open spec fn video_available(history: Seq<JsonView>, video_id: Seq<char>, current_url: Option<Seq<char>>) -> bool {
    playable_entry(history, video_id) is Some || (video_id == "current"@ && (current_url matches Some(u) && u.len() > 0))
}

/// Whether a related node's video can supply a frame.
pub fn related_video_available(history: &Vec<Json>, video_id: &str, current_video_url: Option<&str>) -> (r: bool)
    ensures
        r == video_available(view_items(history@), video_id@, opt_text(current_video_url)),
{
    if playable_history_video(history, video_id).is_some() {
        return true;
    }
    str_eq(video_id, "current") && match current_video_url {
        Some(url) => crate::text::chars_of(url).len() > 0,
        None => false,
    }
}

/// What checking a related video answers.
pub open spec fn related_video_check(
    edges: Seq<GraphEdge>,
    node_id: Seq<char>,
    source_node_id: Seq<char>,
    video_id: Seq<char>,
    records: Seq<NodeVideoRecord>,
) -> Result<(), AppErrorView> {
    if !related(edges, node_id, source_node_id) {
        Err(AppErrorView::BadRequest("只能选择当前节点的上游或下游视频帧"@))
    } else {
        match record_with_id(records, source_node_id) {
            None => Err(AppErrorView::BadRequest("关联视频节点不存在"@)),
            Some(record) => if video_available(
                history_items(record.video_history_json@),
                video_id,
                match record.video_url {
                    Some(u) => Some(u@),
                    None => None,
                },
            ) {
                Ok(())
            } else {
                Err(AppErrorView::BadRequest("所选关联视频版本不可用"@))
            },
        }
    }
}

fn find_record<'a>(records: &'a Vec<NodeVideoRecord>, id: &str) -> (r: Option<&'a NodeVideoRecord>)
    ensures
        match r {
            Some(x) => record_with_id(records@, id@) == Some(*x),
            None => record_with_id(records@, id@) is None,
        },
{
    let mut i: usize = 0;
    proof {
        assert(records@.subrange(0, records@.len() as int) =~= records@);
    }
    while i < records.len()
        invariant
            i <= records.len(),
            record_with_id(records@, id@) == record_with_id(records@.subrange(i as int, records@.len() as int), id@),
        decreases records.len() - i,
    {
        let ghost rest = records@.subrange(i as int, records@.len() as int);
        if str_eq(records[i].id.as_str(), id) {
            proof {
                assert(rest[0] == records@[i as int]);
            }
            return Some(&records[i]);
        }
        proof {
            assert(rest[0] == records@[i as int]);
            assert(rest.drop_first() =~= records@.subrange(i + 1, records@.len() as int));
        }
        i += 1;
    }
    proof {
        assert(records@.subrange(i as int, records@.len() as int) =~= Seq::<NodeVideoRecord>::empty());
    }
    None
}

/// Check that `video_id` of `source_node_id` may supply a frame to `node_id`:
/// the nodes are related along the game's edges, and the video can be played.
/// `records` are the stored video states of the game's nodes.
pub fn verify_related_video(
    edges: &Vec<GraphEdge>,
    node_id: &str,
    source_node_id: &str,
    video_id: &str,
    records: &Vec<NodeVideoRecord>,
) -> (r: Result<(), AppError>)
    ensures
        unit_result(r) == related_video_check(edges@, node_id@, source_node_id@, video_id@, records@),
{
    let upstream = strictly_reaches_node(edges, source_node_id, node_id);
    let linked = upstream || strictly_reaches_node(edges, node_id, source_node_id);
    if !linked {
        return Err(AppError::bad_request("只能选择当前节点的上游或下游视频帧"));
    }
    let record = match find_record(records, source_node_id) {
        Some(record) => record,
        None => return Err(AppError::bad_request("关联视频节点不存在")),
    };
    let empty: Vec<Json> = Vec::new();
    let parsed = parse_json(record.video_history_json.as_str());
    let history: &Vec<Json> = match &parsed {
        Some(Json::Array(items)) => items,
        other => {
            proof {
                match other {
                    Some(v) => crate::json::lemma_view_variant(*v),
                    None => {},
                }
                crate::json::lemma_view_items(empty@);
                assert(view_items(empty@) =~= Seq::<JsonView>::empty());
            }
            &empty
        },
    };
    let current = match &record.video_url {
        Some(u) => Some(u.as_str()),
        None => None,
    };
    if related_video_available(history, video_id, current) {
        Ok(())
    } else {
        Err(AppError::bad_request("所选关联视频版本不可用"))
    }
}

/// One frame after checking, or nothing when the side is not given.
pub open spec fn frame_side(
    frames: Entries,
    side: Seq<char>,
    assets: Seq<(Seq<char>, Seq<char>)>,
    edges: Seq<GraphEdge>,
    node_id: Seq<char>,
    records: Seq<NodeVideoRecord>,
) -> Result<Option<JsonView>, AppErrorView> {
    match lookup(frames, side) {
        Some(JsonView::Object(frame)) => {
            let asset_id = trimmed_field(frame, "asset_id"@);
            if asset_id.len() > 0 {
                match asset_check(assets, asset_id, None) {
                    Err(e) => Err(e),
                    Ok(()) => Ok(Some(JsonView::Object(seq![("asset_id"@, JsonView::Text(asset_id))]))),
                }
            } else {
                match lookup(frame, "url"@) {
                    Some(JsonView::Text(url)) if has_prefix(url, "data:image/"@) => {
                        if lookup(frame, "source"@) == Some(JsonView::Text("upload"@)) {
                            Ok(Some(JsonView::Object(seq![("url"@, JsonView::Text(url)), ("source"@, JsonView::Text("upload"@))])))
                        } else {
                            let source_node_id = trimmed_field(frame, "node_id"@);
                            let video_id = trimmed_field(frame, "video_id"@);
                            if source_node_id.len() == 0 {
                                Err(AppErrorView::BadRequest("输入"@ + side + "帧缺少"@ + "node_id"@))
                            } else if video_id.len() == 0 {
                                Err(AppErrorView::BadRequest("输入"@ + side + "帧缺少"@ + "video_id"@))
                            } else {
                                match lookup(frame, "position"@) {
                                    Some(JsonView::Text(position)) if position == "first"@ || position == "last"@ => {
                                        match related_video_check(edges, node_id, source_node_id, video_id, records) {
                                            Err(e) => Err(e),
                                            Ok(()) => Ok(Some(JsonView::Object(seq![
                                                ("url"@, JsonView::Text(url)),
                                                ("source"@, JsonView::Text("related_video"@)),
                                                ("node_id"@, JsonView::Text(source_node_id)),
                                                ("video_id"@, JsonView::Text(video_id)),
                                                ("position"@, JsonView::Text(position)),
                                            ]))),
                                        }
                                    },
                                    _ => Err(AppErrorView::BadRequest("输入"@ + side + "帧缺少有效视频位置"@)),
                                }
                            }
                        }
                    },
                    _ => Err(AppErrorView::BadRequest("输入"@ + side + "帧必须选择素材图、上传图片或关联视频帧"@)),
                }
            }
        },
        _ => Ok(None),
    }
}

/// The entry a checked side contributes.
pub open spec fn side_entries(side: Seq<char>, frame: Option<JsonView>) -> Entries {
    match frame {
        Some(f) => seq![(side, f)],
        None => Seq::empty(),
    }
}

/// The checked first and last frames of a node.
pub open spec fn frames_check(
    value: JsonView,
    assets: Seq<(Seq<char>, Seq<char>)>,
    edges: Seq<GraphEdge>,
    node_id: Seq<char>,
    records: Seq<NodeVideoRecord>,
) -> Result<JsonView, AppErrorView> {
    match value {
        JsonView::Object(frames) => match frame_side(frames, "first"@, assets, edges, node_id, records) {
            Err(e) => Err(e),
            Ok(first) => match frame_side(frames, "last"@, assets, edges, node_id, records) {
                Err(e) => Err(e),
                Ok(last) => Ok(JsonView::Object(side_entries("first"@, first) + side_entries("last"@, last))),
            },
        },
        _ => Err(AppErrorView::BadRequest("first_last_frames 必须是对象"@)),
    }
}

pub open spec fn json_result(r: Result<Json, AppError>) -> Result<JsonView, AppErrorView> {
    match r {
        Ok(v) => Ok(v@),
        Err(e) => Err(e@),
    }
}

pub open spec fn side_result(r: Result<Option<Json>, AppError>) -> Result<Option<JsonView>, AppErrorView> {
    match r {
        Ok(Some(v)) => Ok(Some(v@)),
        Ok(None) => Ok(None),
        Err(e) => Err(e@),
    }
}

fn text_entry(key: &str, value: String) -> (r: (String, Json))
    ensures
        r.0@ == key@,
        r.1@ == JsonView::Text(value@),
{
    (key.to_owned(), Json::Text(value))
}

fn object_of(entries: Vec<(String, Json)>) -> (r: Json)
    ensures
        r@ == JsonView::Object(view_entries(entries@)),
{
    Json::Object(entries)
}

fn checked_side(
    frames: &Vec<(String, Json)>,
    side: &str,
    assets: &Vec<(String, String)>,
    edges: &Vec<GraphEdge>,
    node_id: &str,
    records: &Vec<NodeVideoRecord>,
) -> (r: Result<Option<Json>, AppError>)
    ensures
        side_result(r) == frame_side(view_entries(frames@), side@, pair_views(assets@), edges@, node_id@, records@),
{
    let frame = match entry_get(frames, side) {
        Some(Json::Object(frame)) => frame,
        other => {
            proof {
                match other {
                    Some(v) => crate::json::lemma_view_variant(*v),
                    None => {},
                }
            }
            return Ok(None);
        },
    };
    let asset_id = match entry_get(frame, "asset_id") {
        Some(Json::Text(a)) => trim(a.as_str()),
        other => {
            proof {
                match other {
                    Some(v) => crate::json::lemma_view_variant(*v),
                    None => {},
                }
            }
            String::new()
        },
    };
    if crate::forms::char_count(asset_id.as_str()) > 0 {
        require_asset(assets, asset_id.as_str(), None)?;
        let entries = vec![text_entry("asset_id", asset_id)];
        proof {
            crate::json::lemma_view_entries(entries@);
        }
        let r = object_of(entries);
        proof {
            assert(view_entries(entries@) =~= seq![("asset_id"@, JsonView::Text(trimmed_field(view_entries(frame@), "asset_id"@)))]);
        }
        return Ok(Some(r));
    }
    let url = match entry_get(frame, "url") {
        Some(Json::Text(u)) => if starts_with(u.as_str(), "data:image/") {
            u.clone()
        } else {
            return Err(AppError::BadRequest(concat3("输入", side, "帧必须选择素材图、上传图片或关联视频帧")));
        },
        other => {
            proof {
                match other {
                    Some(v) => crate::json::lemma_view_variant(*v),
                    None => {},
                }
            }
            return Err(AppError::BadRequest(concat3("输入", side, "帧必须选择素材图、上传图片或关联视频帧")));
        },
    };
    let uploaded = match entry_get(frame, "source") {
        Some(Json::Text(s)) => str_eq(s.as_str(), "upload"),
        other => {
            proof {
                match other {
                    Some(v) => crate::json::lemma_view_variant(*v),
                    None => {},
                }
            }
            false
        },
    };
    if uploaded {
        let entries = vec![text_entry("url", url), text_entry("source", "upload".to_owned())];
        proof {
            crate::json::lemma_view_entries(entries@);
        }
        let r = object_of(entries);
        proof {
            assert(view_entries(entries@) =~= seq![("url"@, entries@[0].1@), ("source"@, JsonView::Text("upload"@))]);
        }
        return Ok(Some(r));
    }
    let source_node_id = required_frame_field(frame, "node_id", side)?;
    let video_id = required_frame_field(frame, "video_id", side)?;
    let position = match entry_get(frame, "position") {
        Some(Json::Text(p)) => if str_eq(p.as_str(), "first") || str_eq(p.as_str(), "last") {
            p.clone()
        } else {
            return Err(AppError::BadRequest(concat3("输入", side, "帧缺少有效视频位置")));
        },
        other => {
            proof {
                match other {
                    Some(v) => crate::json::lemma_view_variant(*v),
                    None => {},
                }
            }
            return Err(AppError::BadRequest(concat3("输入", side, "帧缺少有效视频位置")));
        },
    };
    verify_related_video(edges, node_id, source_node_id.as_str(), video_id.as_str(), records)?;
    let entries = vec![
        text_entry("url", url),
        text_entry("source", "related_video".to_owned()),
        text_entry("node_id", source_node_id),
        text_entry("video_id", video_id),
        text_entry("position", position),
    ];
    proof {
        crate::json::lemma_view_entries(entries@);
    }
    let r = object_of(entries);
    proof {
        assert(view_entries(entries@) =~= seq![
            ("url"@, entries@[0].1@),
            ("source"@, JsonView::Text("related_video"@)),
            ("node_id"@, entries@[2].1@),
            ("video_id"@, entries@[3].1@),
            ("position"@, entries@[4].1@),
        ]);
    }
    Ok(Some(r))
}

/// Check the first and last frames a creator chose for node `node_id`.
/// `assets` lists the game's materials as (id, type) pairs, `edges` the
/// game's choice edges and `records` the stored videos of its nodes.
pub fn frame_references(
    value: &Json,
    assets: &Vec<(String, String)>,
    edges: &Vec<GraphEdge>,
    node_id: &str,
    records: &Vec<NodeVideoRecord>,
) -> (r: Result<Json, AppError>)
    ensures
        json_result(r) == frames_check(value@, pair_views(assets@), edges@, node_id@, records@),
{
    let frames = match value {
        Json::Object(frames) => frames,
        _ => return Err(AppError::bad_request("first_last_frames 必须是对象")),
    };
    let first = checked_side(frames, "first", assets, edges, node_id, records)?;
    let last = checked_side(frames, "last", assets, edges, node_id, records)?;
    let mut result: Vec<(String, Json)> = Vec::new();
    let ghost fv = match &first {
        Some(f) => Some(f@),
        None => None,
    };
    let ghost lv = match &last {
        Some(f) => Some(f@),
        None => None,
    };
    if let Some(f) = first {
        result.push(("first".to_owned(), f));
    }
    if let Some(l) = last {
        result.push(("last".to_owned(), l));
    }
    proof {
        crate::json::lemma_view_entries(result@);
        assert(view_entries(result@) =~= side_entries("first"@, fv) + side_entries("last"@, lv));
    }
    Ok(object_of(result))
}

} // verus!
