//! Editing a node, a material or the models of an interactive game, and a
//! material variant: each field an edit gives is checked and stored in turn,
//! so an edit that breaks a rule keeps what it stored before that rule.

use vstd::prelude::*;

use crate::edge_edits::text_update;
use crate::error::{AppError, AppErrorView};
use crate::frame_references::{frames_check, frame_references, NodeVideoRecord};
use crate::game_materials::{asset_check, checked_ids, deduped, pair_views, prompt_rich_nodes, reference_ids, require_asset, rich_nodes};
use crate::graph::GraphEdge;
use crate::json::{entry_get, lookup, view_entries, view_items, Entries, Json, JsonView};
use crate::project_settings::{updates_view, ColumnValue, ColumnValueView};
use crate::text::{chars_of, trim, trimmed};

verus! {

pub type Updates = Seq<(Seq<char>, ColumnValueView)>;

/// What each step of a node edit stores, or the rule it breaks.
pub type Step = Result<Updates, AppErrorView>;

/// The fields an edit stores and the rule that stopped it, if any: each
/// step in turn, up to the first that breaks a rule.
pub open spec fn applied(steps: Seq<Step>) -> (Updates, Option<AppErrorView>)
    decreases steps.len(),
{
    if steps.len() == 0 {
        (Seq::empty(), None)
    } else {
        match steps[0] {
            Err(e) => (Seq::empty(), Some(e)),
            Ok(u) => {
                let rest = applied(steps.drop_first());
                (u + rest.0, rest.1)
            },
        }
    }
}

/// The template version an edit gives: `v1` or `v2`.
pub open spec fn version_step(values: Entries) -> Step {
    match lookup(values, "prompt_template_version"@) {
        Some(JsonView::Text(v)) => if v == "v1"@ || v == "v2"@ {
            Ok(seq![("prompt_template_version"@, ColumnValueView::Text(v))])
        } else {
            Err(AppErrorView::BadRequest("提示词模板仅支持 v1 或 v2"@))
        },
        _ => Ok(Seq::empty()),
    }
}

/// The rich prompt an edit gives, checked against the game's materials.
pub open spec fn rich_step(values: Entries, assets: Seq<(Seq<char>, Seq<char>)>) -> Step {
    match lookup(values, "prompt_rich"@) {
        None => Ok(Seq::empty()),
        Some(JsonView::Array(items)) => match rich_nodes(items, assets) {
            Ok(nodes) => Ok(seq![("prompt_rich_json"@, ColumnValueView::Document(JsonView::Array(nodes)))]),
            Err(e) => Err(e),
        },
        Some(_) => Err(AppErrorView::BadRequest("prompt_rich 必须是数组"@)),
    }
}

/// A whole number an edit gives; a node's video lasts 4 to 15 seconds.
pub open spec fn number_step(values: Entries, key: Seq<char>) -> Step {
    match lookup(values, key) {
        Some(JsonView::Int(i)) => if key == "duration_seconds"@ && !(4 <= i && i <= 15) {
            Err(AppErrorView::BadRequest("节点视频时长必须在 4 到 15 秒之间"@))
        } else {
            Ok(seq![(key, ColumnValueView::Integer(i))])
        },
        _ => Ok(Seq::empty()),
    }
}

/// The reference materials an edit gives, each once.
pub open spec fn references_step(values: Entries, assets: Seq<(Seq<char>, Seq<char>)>) -> Step {
    match lookup(values, "reference_asset_ids"@) {
        None => Ok(Seq::empty()),
        Some(JsonView::Array(items)) => match checked_ids(items, assets) {
            Ok(ids) => Ok(seq![("reference_asset_ids_json"@, ColumnValueView::Document(JsonView::Array(crate::settings_models::text_items(deduped(ids)))))]),
            Err(e) => Err(e),
        },
        Some(_) => Err(AppErrorView::BadRequest("reference_asset_ids 必须是数组"@)),
    }
}

/// The first and last frames an edit gives.
pub open spec fn frames_step(
    values: Entries,
    assets: Seq<(Seq<char>, Seq<char>)>,
    edges: Seq<GraphEdge>,
    node_id: Seq<char>,
    records: Seq<NodeVideoRecord>,
) -> Step {
    match lookup(values, "first_last_frames"@) {
        None => Ok(Seq::empty()),
        Some(v) => match frames_check(v, assets, edges, node_id, records) {
            Ok(f) => Ok(seq![("first_last_frames_json"@, ColumnValueView::Document(f))]),
            Err(e) => Err(e),
        },
    }
}

/// The placeholder an edit gives: a placeholder material, or none when the
/// edit gives a blank or no text.
pub open spec fn placeholder_step(values: Entries, assets: Seq<(Seq<char>, Seq<char>)>) -> Step {
    match lookup(values, "placeholder_asset_id"@) {
        None => Ok(Seq::empty()),
        Some(v) => {
            let chosen = match v {
                JsonView::Text(s) => if trimmed(s).len() > 0 {
                    Some(trimmed(s))
                } else {
                    None
                },
                _ => None,
            };
            match chosen {
                Some(id) => match asset_check(assets, id, Some("placeholder"@)) {
                    Err(e) => Err(e),
                    Ok(_) => Ok(seq![("placeholder_asset_id"@, ColumnValueView::Text(id))]),
                },
                None => Ok(seq![("placeholder_asset_id"@, ColumnValueView::Null)]),
            }
        },
    }
}

/// The steps of a node edit, in the order they are checked and stored.
pub open spec fn node_edit_steps(
    values: Entries,
    assets: Seq<(Seq<char>, Seq<char>)>,
    edges: Seq<GraphEdge>,
    node_id: Seq<char>,
    records: Seq<NodeVideoRecord>,
) -> Seq<Step> {
    seq![
        Ok(text_update(values, "title"@)),
        Ok(text_update(values, "original_text"@)),
        Ok(text_update(values, "prompt"@)),
        Ok(text_update(values, "video_url"@)),
        Ok(text_update(values, "status"@)),
        version_step(values),
        rich_step(values, assets),
        number_step(values, "duration_seconds"@),
        number_step(values, "position_x"@),
        number_step(values, "position_y"@),
        references_step(values, assets),
        frames_step(values, assets, edges, node_id, records),
        placeholder_step(values, assets),
    ]
}

/// What a node edit stores, and the rule that stopped it, if one did.
#[derive(Debug)]
pub struct NodeEdit {
    pub updates: Vec<(String, ColumnValue)>,
    pub error: Option<AppError>,
}

pub open spec fn opt_error(e: Option<AppError>) -> Option<AppErrorView> {
    match e {
        Some(x) => Some(x@),
        None => None,
    }
}

/// The fields of all steps, each of which stored something.
pub open spec fn stored(steps: Seq<Step>) -> Updates
    decreases steps.len(),
{
    if steps.len() == 0 {
        Seq::empty()
    } else {
        stored(steps.drop_last()) + steps.last()->Ok_0
    }
}

pub open spec fn all_ok(steps: Seq<Step>) -> bool {
    forall|i: int| 0 <= i < steps.len() ==> #[trigger] steps[i] is Ok
}

proof fn lemma_applied_after_ok(done: Seq<Step>, rest: Seq<Step>)
    requires
        all_ok(done),
    ensures
        applied(done + rest) == (stored(done) + applied(rest).0, applied(rest).1),
    decreases done.len(),
{
    if done.len() == 0 {
        assert(done + rest =~= rest);
        assert(stored(done) + applied(rest).0 =~= applied(rest).0);
    } else {
        let first = done[0];
        let tail = done.drop_first();
        assert(all_ok(tail)) by {
            assert forall|i: int| 0 <= i < tail.len() implies #[trigger] tail[i] is Ok by {
                assert(tail[i] == done[i + 1]);
            }
        }
        lemma_applied_after_ok(tail, rest);
        assert((done + rest).drop_first() =~= tail + rest);
        assert((done + rest)[0] == first);
        lemma_stored_first(done);
        assert(first->Ok_0 + (stored(tail) + applied(rest).0) =~= (first->Ok_0 + stored(tail)) + applied(rest).0);
    }
}

proof fn lemma_stored_first(steps: Seq<Step>)
    requires
        steps.len() > 0,
        all_ok(steps),
    ensures
        stored(steps) == steps[0]->Ok_0 + stored(steps.drop_first()),
    decreases steps.len(),
{
    if steps.len() == 1 {
        assert(steps.drop_last() =~= Seq::<Step>::empty());
        assert(steps.drop_first() =~= Seq::<Step>::empty());
        assert(steps[0]->Ok_0 + Seq::<(Seq<char>, ColumnValueView)>::empty() =~= steps[0]->Ok_0);
        assert(Seq::<(Seq<char>, ColumnValueView)>::empty() + steps[0]->Ok_0 =~= steps[0]->Ok_0);
    } else {
        let init = steps.drop_last();
        assert(all_ok(init)) by {
            assert forall|i: int| 0 <= i < init.len() implies #[trigger] init[i] is Ok by {
                assert(init[i] == steps[i]);
            }
        }
        lemma_stored_first(init);
        assert(init.drop_first() =~= steps.drop_first().drop_last());
        assert(steps.drop_first().last() == steps.last());
        assert(init[0] == steps[0]);
        assert(steps[steps.len() - 1] is Ok);
        assert(steps.last() is Ok);
    }
}

proof fn lemma_stored_push(done: Seq<Step>, u: Updates)
    ensures
        stored(done.push(Ok(u))) == stored(done) + u,
{
    assert(done.push(Ok(u)).drop_last() =~= done);
}

proof fn lemma_all_ok_push(done: Seq<Step>, u: Updates)
    requires
        all_ok(done),
    ensures
        all_ok(done.push(Ok(u))),
{
    assert forall|i: int| 0 <= i < done.push(Ok(u)).len() implies #[trigger] done.push(Ok(u))[i] is Ok by {
        if i < done.len() {
            assert(done.push(Ok(u))[i] == done[i]);
        }
    }
}

fn text_step_of(values: &Vec<(String, Json)>, key: &str) -> (r: Vec<(String, ColumnValue)>)
    ensures
        updates_view(r@) == text_update(view_entries(values@), key@),
{
    let mut out: Vec<(String, ColumnValue)> = Vec::new();
    match entry_get(values, key) {
        Some(Json::Text(s)) => {
            out.push((key.to_owned(), ColumnValue::Text(s.clone())));
            proof {
                assert(updates_view(out@) =~= text_update(view_entries(values@), key@));
            }
        },
        other => {
            proof {
                match other {
                    Some(v) => crate::json::lemma_view_variant(*v),
                    None => {},
                }
                assert(updates_view(out@) =~= text_update(view_entries(values@), key@));
            }
        },
    }
    out
}

pub open spec fn step_result(r: Result<Vec<(String, ColumnValue)>, AppError>) -> Step {
    match r {
        Ok(u) => Ok(updates_view(u@)),
        Err(e) => Err(e@),
    }
}

fn one(key: &str, value: ColumnValue) -> (r: Vec<(String, ColumnValue)>)
    ensures
        updates_view(r@) == seq![(key@, value@)],
{
    let mut out: Vec<(String, ColumnValue)> = Vec::new();
    let ghost v = value@;
    out.push((key.to_owned(), value));
    proof {
        assert(updates_view(out@) =~= seq![(key@, v)]);
    }
    out
}

fn none_stored() -> (r: Vec<(String, ColumnValue)>)
    ensures
        updates_view(r@) == Seq::<(Seq<char>, ColumnValueView)>::empty(),
{
    let out: Vec<(String, ColumnValue)> = Vec::new();
    proof {
        assert(updates_view(out@) =~= Seq::<(Seq<char>, ColumnValueView)>::empty());
    }
    out
}

fn version_step_of(values: &Vec<(String, Json)>) -> (r: Result<Vec<(String, ColumnValue)>, AppError>)
    ensures
        step_result(r) == version_step(view_entries(values@)),
{
    match entry_get(values, "prompt_template_version") {
        Some(Json::Text(v)) => {
            let checked = crate::game_materials::prompt_template_version_value(v.as_str())?;
            Ok(one("prompt_template_version", ColumnValue::Text(checked)))
        },
        other => {
            proof {
                match other {
                    Some(x) => crate::json::lemma_view_variant(*x),
                    None => {},
                }
            }
            Ok(none_stored())
        },
    }
}

fn rich_step_of(values: &Vec<(String, Json)>, assets: &Vec<(String, String)>) -> (r: Result<Vec<(String, ColumnValue)>, AppError>)
    ensures
        step_result(r) == rich_step(view_entries(values@), pair_views(assets@)),
{
    match entry_get(values, "prompt_rich") {
        None => Ok(none_stored()),
        Some(v) => {
            let nodes = prompt_rich_nodes(v, assets)?;
            proof {
                crate::json::lemma_view_items(nodes@);
            }
            Ok(one("prompt_rich_json", ColumnValue::Document(Json::Array(nodes))))
        },
    }
}

fn number_step_of(values: &Vec<(String, Json)>, key: &str) -> (r: Result<Vec<(String, ColumnValue)>, AppError>)
    ensures
        step_result(r) == number_step(view_entries(values@), key@),
{
    match entry_get(values, key) {
        Some(Json::Int(i)) => {
            if crate::json::str_eq(key, "duration_seconds") && !(4 <= *i && *i <= 15) {
                return Err(AppError::bad_request("节点视频时长必须在 4 到 15 秒之间"));
            }
            Ok(one(key, ColumnValue::Integer(*i)))
        },
        other => {
            proof {
                match other {
                    Some(x) => crate::json::lemma_view_variant(*x),
                    None => {},
                }
            }
            Ok(none_stored())
        },
    }
}

fn references_step_of(values: &Vec<(String, Json)>, assets: &Vec<(String, String)>) -> (r: Result<Vec<(String, ColumnValue)>, AppError>)
    ensures
        step_result(r) == references_step(view_entries(values@), pair_views(assets@)),
{
    match entry_get(values, "reference_asset_ids") {
        None => Ok(none_stored()),
        Some(v) => {
            let ids = reference_ids(v, assets)?;
            let mut items: Vec<Json> = Vec::new();
            let mut k: usize = 0;
            while k < ids.len()
                invariant
                    k <= ids.len(),
                    items.len() == k,
                    forall|j: int| 0 <= j < k ==> #[trigger] items@[j]@ == JsonView::Text(ids@[j]@),
                decreases ids.len() - k,
            {
                items.push(Json::Text(ids[k].clone()));
                k += 1;
            }
            proof {
                crate::json::lemma_view_items(items@);
                assert forall|j: int| 0 <= j < items.len() implies #[trigger] view_items(items@)[j] == crate::settings_models::text_items(crate::forms::texts_view(ids@))[j] by {
                    assert(items@[j]@ == JsonView::Text(ids@[j]@));
                }
                assert(view_items(items@) =~= crate::settings_models::text_items(crate::forms::texts_view(ids@)));
            }
            Ok(one("reference_asset_ids_json", ColumnValue::Document(Json::Array(items))))
        },
    }
}

fn frames_step_of(
    values: &Vec<(String, Json)>,
    assets: &Vec<(String, String)>,
    edges: &Vec<GraphEdge>,
    node_id: &str,
    records: &Vec<NodeVideoRecord>,
) -> (r: Result<Vec<(String, ColumnValue)>, AppError>)
    ensures
        step_result(r) == frames_step(view_entries(values@), pair_views(assets@), edges@, node_id@, records@),
{
    match entry_get(values, "first_last_frames") {
        None => Ok(none_stored()),
        Some(v) => {
            let frames = frame_references(v, assets, edges, node_id, records)?;
            Ok(one("first_last_frames_json", ColumnValue::Document(frames)))
        },
    }
}

fn placeholder_step_of(values: &Vec<(String, Json)>, assets: &Vec<(String, String)>) -> (r: Result<Vec<(String, ColumnValue)>, AppError>)
    ensures
        step_result(r) == placeholder_step(view_entries(values@), pair_views(assets@)),
{
    match entry_get(values, "placeholder_asset_id") {
        None => Ok(none_stored()),
        Some(v) => {
            proof {
                crate::json::lemma_view_variant(*v);
            }
            let chosen: Option<String> = match v {
                Json::Text(s) => {
                    let t = trim(s.as_str());
                    if chars_of(t.as_str()).len() > 0 {
                        Some(t)
                    } else {
                        None
                    }
                },
                _ => None,
            };
            match chosen {
                Some(id) => {
                    require_asset(assets, id.as_str(), Some("placeholder"))?;
                    Ok(one("placeholder_asset_id", ColumnValue::Text(id)))
                },
                None => Ok(one("placeholder_asset_id", ColumnValue::Null)),
            }
        },
    }
}

/// Read an edit of the node `node_id`: `assets` are the game's materials
/// (id and kind), `edges` its choice edges and `records` its nodes' video
/// histories, against which frame references are checked.
pub fn node_edit(
    values: &Vec<(String, Json)>,
    assets: &Vec<(String, String)>,
    edges: &Vec<GraphEdge>,
    node_id: &str,
    records: &Vec<NodeVideoRecord>,
) -> (r: NodeEdit)
    ensures
        (updates_view(r.updates@), opt_error(r.error)) == applied(
            node_edit_steps(view_entries(values@), pair_views(assets@), edges@, node_id@, records@),
        ),
{
    let ghost steps = node_edit_steps(view_entries(values@), pair_views(assets@), edges@, node_id@, records@);
    let mut updates: Vec<(String, ColumnValue)> = Vec::new();
    let ghost mut done: Seq<Step> = Seq::empty();
    proof {
        assert(updates_view(updates@) =~= stored(done));
    }
    let mut k: usize = 0;
    while k < 13
        invariant
            k <= 13,
            steps == node_edit_steps(view_entries(values@), pair_views(assets@), edges@, node_id@, records@),
            steps.len() == 13,
            done == steps.subrange(0, k as int),
            all_ok(done),
            updates_view(updates@) == stored(done),
        decreases 13 - k,
    {
        let outcome = if k == 0 {
            Ok(text_step_of(values, "title"))
        } else if k == 1 {
            Ok(text_step_of(values, "original_text"))
        } else if k == 2 {
            Ok(text_step_of(values, "prompt"))
        } else if k == 3 {
            Ok(text_step_of(values, "video_url"))
        } else if k == 4 {
            Ok(text_step_of(values, "status"))
        } else if k == 5 {
            version_step_of(values)
        } else if k == 6 {
            rich_step_of(values, assets)
        } else if k == 7 {
            number_step_of(values, "duration_seconds")
        } else if k == 8 {
            number_step_of(values, "position_x")
        } else if k == 9 {
            number_step_of(values, "position_y")
        } else if k == 10 {
            references_step_of(values, assets)
        } else if k == 11 {
            frames_step_of(values, assets, edges, node_id, records)
        } else {
            placeholder_step_of(values, assets)
        };
        proof {
            assert(step_result(outcome) == steps[k as int]);
        }
        match outcome {
            Err(e) => {
                proof {
                    let rest = steps.subrange(k as int, 13);
                    assert(steps =~= done + rest);
                    lemma_applied_after_ok(done, rest);
                    assert(rest[0] == steps[k as int]);
                    assert(updates_view(updates@) + Seq::<(Seq<char>, ColumnValueView)>::empty() =~= updates_view(updates@));
                }
                return NodeEdit { updates, error: Some(e) };
            },
            Ok(more) => {
                let ghost before = updates_view(updates@);
                let ghost added = updates_view(more@);
                let mut more = more;
                updates.append(&mut more);
                proof {
                    assert(updates_view(updates@) =~= before + added);
                    lemma_stored_push(done, added);
                    lemma_all_ok_push(done, added);
                    done = done.push(Ok(added));
                    assert(done =~= steps.subrange(0, k + 1));
                }
            },
        }
        k += 1;
    }
    proof {
        assert(done =~= steps);
        lemma_applied_after_ok(done, Seq::empty());
        assert(done + Seq::<Step>::empty() =~= done);
        assert(stored(done) + Seq::<(Seq<char>, ColumnValueView)>::empty() =~= stored(done));
    }
    NodeEdit { updates, error: None }
}

/// A text an edit gives a material, trimmed; it must not be blank.
pub open spec fn trimmed_step(values: Entries, key: Seq<char>) -> Step {
    match lookup(values, key) {
        Some(JsonView::Text(v)) => if trimmed(v).len() == 0 {
            Err(AppErrorView::BadRequest(key + " 不能为空"@))
        } else {
            Ok(seq![(key, ColumnValueView::Text(trimmed(v)))])
        },
        _ => Ok(Seq::empty()),
    }
}

/// The image an edit gives a material: a blank one means none has been
/// generated, any other is a configured image.
pub open spec fn image_step(values: Entries) -> Step {
    match lookup(values, "image_url"@) {
        Some(JsonView::Text(url)) => Ok(seq![
            ("image_url"@, ColumnValueView::Text(trimmed(url))),
            ("status"@, ColumnValueView::Text(if trimmed(url).len() == 0 {
                "未生成"@
            } else {
                "已配置"@
            })),
        ]),
        _ => Ok(Seq::empty()),
    }
}

/// The voice an edit gives a material: only characters have one, and it
/// must be an enabled preset (or none).
pub open spec fn voice_step(values: Entries, kind: Seq<char>, enabled: Seq<Seq<char>>) -> Step {
    match lookup(values, "voice_id"@) {
        None => Ok(Seq::empty()),
        Some(v) => if kind != "character"@ {
            Err(AppErrorView::BadRequest("只有角色素材可以设置音色"@))
        } else {
            match crate::voice_tasks::voice_choice(Some(v), enabled) {
                Err(e) => Err(e),
                Ok(Some(id)) => Ok(seq![("voice_id"@, ColumnValueView::Text(id))]),
                Ok(None) => Ok(seq![("voice_id"@, ColumnValueView::Null)]),
            }
        },
    }
}

/// The steps of an edit of a game material of kind `kind`.
pub open spec fn asset_edit_steps(values: Entries, kind: Seq<char>, enabled: Seq<Seq<char>>) -> Seq<Step> {
    seq![
        trimmed_step(values, "name"@),
        trimmed_step(values, "prompt"@),
        image_step(values),
        voice_step(values, kind, enabled),
    ]
}

fn trimmed_step_of(values: &Vec<(String, Json)>, key: &str) -> (r: Result<Vec<(String, ColumnValue)>, AppError>)
    ensures
        step_result(r) == trimmed_step(view_entries(values@), key@),
{
    match entry_get(values, key) {
        Some(Json::Text(v)) => {
            let t = trim(v.as_str());
            if chars_of(t.as_str()).len() == 0 {
                return Err(AppError::BadRequest(crate::text::concat(key, " 不能为空")));
            }
            Ok(one(key, ColumnValue::Text(t)))
        },
        other => {
            proof {
                match other {
                    Some(x) => crate::json::lemma_view_variant(*x),
                    None => {},
                }
            }
            Ok(none_stored())
        },
    }
}

fn image_step_of(values: &Vec<(String, Json)>) -> (r: Result<Vec<(String, ColumnValue)>, AppError>)
    ensures
        step_result(r) == image_step(view_entries(values@)),
{
    match entry_get(values, "image_url") {
        Some(Json::Text(url)) => {
            let t = trim(url.as_str());
            let status = if chars_of(t.as_str()).len() == 0 {
                "未生成"
            } else {
                "已配置"
            };
            let ghost tv = t@;
            let mut out = one("image_url", ColumnValue::Text(t));
            proof {
                assert(updates_view(out@).len() == 1);
                assert(out@.len() == 1);
                assert((out@[0].0@, out@[0].1@) == updates_view(out@)[0]);
            }
            let status_text = status.to_owned();
            proof {
                assert(status_text@ == if tv.len() == 0 { "未生成"@ } else { "已配置"@ });
            }
            let ghost sv = status_text@;
            out.push(("status".to_owned(), ColumnValue::Text(status_text)));
            proof {
                assert(updates_view(out@)[0] == ("image_url"@, ColumnValueView::Text(tv)));
                assert(updates_view(out@)[1] == ("status"@, ColumnValueView::Text(sv)));
                assert(updates_view(out@) =~= image_step(view_entries(values@))->Ok_0);
            }
            Ok(out)
        },
        other => {
            proof {
                match other {
                    Some(x) => crate::json::lemma_view_variant(*x),
                    None => {},
                }
            }
            Ok(none_stored())
        },
    }
}

fn voice_step_of(values: &Vec<(String, Json)>, kind: &str, enabled: &Vec<String>) -> (r: Result<Vec<(String, ColumnValue)>, AppError>)
    ensures
        step_result(r) == voice_step(view_entries(values@), kind@, crate::forms::texts_view(enabled@)),
{
    match entry_get(values, "voice_id") {
        None => Ok(none_stored()),
        Some(v) => {
            if !crate::json::str_eq(kind, "character") {
                return Err(AppError::bad_request("只有角色素材可以设置音色"));
            }
            match crate::voice_tasks::normalise_voice_id(Some(v), enabled)? {
                Some(id) => Ok(one("voice_id", ColumnValue::Text(id))),
                None => Ok(one("voice_id", ColumnValue::Null)),
            }
        },
    }
}

/// Read an edit of a game material of kind `kind`; `enabled_voice_ids` are
/// the ids of the enabled voice presets.
pub fn asset_edit(values: &Vec<(String, Json)>, kind: &str, enabled_voice_ids: &Vec<String>) -> (r: NodeEdit)
    ensures
        (updates_view(r.updates@), opt_error(r.error)) == applied(
            asset_edit_steps(view_entries(values@), kind@, crate::forms::texts_view(enabled_voice_ids@)),
        ),
{
    let ghost steps = asset_edit_steps(view_entries(values@), kind@, crate::forms::texts_view(enabled_voice_ids@));
    let mut updates: Vec<(String, ColumnValue)> = Vec::new();
    let ghost mut done: Seq<Step> = Seq::empty();
    proof {
        assert(updates_view(updates@) =~= stored(done));
    }
    let mut k: usize = 0;
    while k < 4
        invariant
            k <= 4,
            steps == asset_edit_steps(view_entries(values@), kind@, crate::forms::texts_view(enabled_voice_ids@)),
            steps.len() == 4,
            done == steps.subrange(0, k as int),
            all_ok(done),
            updates_view(updates@) == stored(done),
        decreases 4 - k,
    {
        let outcome = if k == 0 {
            trimmed_step_of(values, "name")
        } else if k == 1 {
            trimmed_step_of(values, "prompt")
        } else if k == 2 {
            image_step_of(values)
        } else {
            voice_step_of(values, kind, enabled_voice_ids)
        };
        proof {
            assert(step_result(outcome) == steps[k as int]);
        }
        match outcome {
            Err(e) => {
                proof {
                    let rest = steps.subrange(k as int, 4);
                    assert(steps =~= done + rest);
                    lemma_applied_after_ok(done, rest);
                    assert(rest[0] == steps[k as int]);
                    assert(updates_view(updates@) + Seq::<(Seq<char>, ColumnValueView)>::empty() =~= updates_view(updates@));
                }
                return NodeEdit { updates, error: Some(e) };
            },
            Ok(more) => {
                let ghost before = updates_view(updates@);
                let ghost added = updates_view(more@);
                let mut more = more;
                updates.append(&mut more);
                proof {
                    assert(updates_view(updates@) =~= before + added);
                    lemma_stored_push(done, added);
                    lemma_all_ok_push(done, added);
                    done = done.push(Ok(added));
                    assert(done =~= steps.subrange(0, k + 1));
                }
            },
        }
        k += 1;
    }
    proof {
        assert(done =~= steps);
        lemma_applied_after_ok(done, Seq::empty());
        assert(done + Seq::<Step>::empty() =~= done);
        assert(stored(done) + Seq::<(Seq<char>, ColumnValueView)>::empty() =~= stored(done));
    }
    NodeEdit { updates, error: None }
}

/// The place of the first variant with this id.
pub open spec fn variant_position(variants: Seq<JsonView>, variant_id: Seq<char>) -> Option<int>
    decreases variants.len(),
{
    if variants.len() == 0 {
        None
    } else if variants[0].get("id"@) == Some(JsonView::Text(variant_id)) {
        Some(0)
    } else {
        match variant_position(variants.drop_first(), variant_id) {
            Some(k) => Some(k + 1),
            None => None,
        }
    }
}

/// A variant after an edit renames it (to a name that is not blank, trimmed)
/// or changes its prompt.
pub open spec fn edited_variant(variant: Entries, values: Entries) -> Result<Entries, AppErrorView> {
    let named = match lookup(values, "name"@) {
        Some(JsonView::Text(n)) => if trimmed(n).len() == 0 {
            Err(AppErrorView::BadRequest("形态名称不能为空"@))
        } else {
            Ok(crate::json::insert_entry(variant, "name"@, JsonView::Text(trimmed(n))))
        },
        _ => Ok(variant),
    };
    match named {
        Err(e) => Err(e),
        Ok(w) => Ok(match lookup(values, "prompt"@) {
            Some(JsonView::Text(p)) => crate::json::insert_entry(w, "prompt"@, JsonView::Text(p)),
            _ => w,
        }),
    }
}

/// A material's variants after an edit of the variant `variant_id`, with
/// the edited variant, or why the edit is refused.
pub open spec fn variant_edit_of(variants: Seq<JsonView>, variant_id: Seq<char>, values: Entries) -> Result<(Seq<JsonView>, JsonView), AppErrorView> {
    match variant_position(variants, variant_id) {
        None => Err(AppErrorView::NotFound("Asset variant not found: "@ + variant_id)),
        Some(i) => match edited_variant(variants[i]->Object_0, values) {
            Err(e) => Err(e),
            Ok(w) => Ok((variants.update(i, JsonView::Object(w)), JsonView::Object(w))),
        },
    }
}

proof fn lemma_variant_position(variants: Seq<JsonView>, variant_id: Seq<char>)
    ensures
        match variant_position(variants, variant_id) {
            Some(i) => 0 <= i < variants.len() && variants[i].get("id"@) == Some(JsonView::Text(variant_id))
                && forall|k: int| 0 <= k < i ==> #[trigger] variants[k].get("id"@) != Some(JsonView::Text(variant_id)),
            None => forall|k: int| 0 <= k < variants.len() ==> #[trigger] variants[k].get("id"@) != Some(JsonView::Text(variant_id)),
        },
    decreases variants.len(),
{
    if variants.len() > 0 {
        lemma_variant_position(variants.drop_first(), variant_id);
        assert forall|k: int| 1 <= k < variants.len() implies variants[k] == variants.drop_first()[k - 1] by {}
    }
}

pub open spec fn variant_edit_result(r: Result<(Vec<Json>, Json), AppError>) -> Result<(Seq<JsonView>, JsonView), AppErrorView> {
    match r {
        Ok((v, e)) => Ok((view_items(v@), e@)),
        Err(e) => Err(e@),
    }
}

/// Edit the variant `variant_id` among a material's variants.
pub fn variant_edit(variants: Vec<Json>, variant_id: &str, values: &Vec<(String, Json)>) -> (r: Result<(Vec<Json>, Json), AppError>)
    ensures
        variant_edit_result(r) == variant_edit_of(view_items(variants@), variant_id@, view_entries(values@)),
{
    proof {
        crate::json::lemma_view_items(variants@);
        lemma_variant_position(view_items(variants@), variant_id@);
    }
    let ghost all = view_items(variants@);
    let mut i: usize = 0;
    while i < variants.len()
        invariant
            i <= variants.len(),
            all == view_items(variants@),
            all.len() == variants.len(),
            forall|k: int| 0 <= k < variants.len() ==> #[trigger] all[k] == variants@[k]@,
            forall|k: int| 0 <= k < i ==> #[trigger] all[k].get("id"@) != Some(JsonView::Text(variant_id@)),
        ensures
            i <= variants.len(),
            forall|k: int| 0 <= k < i ==> #[trigger] all[k].get("id"@) != Some(JsonView::Text(variant_id@)),
            i < variants.len() ==> all[i as int].get("id"@) == Some(JsonView::Text(variant_id@)),
        decreases variants.len() - i,
    {
        if crate::placeholder::has_text(variants[i].get("id"), variant_id) {
            break;
        }
        i += 1;
    }
    if i == variants.len() {
        return Err(AppError::NotFound(crate::text::concat("Asset variant not found: ", variant_id)));
    }
    proof {
        assert(all[i as int].get("id"@) == Some(JsonView::Text(variant_id@)));
        assert(variant_position(all, variant_id@) == Some(i as int));
    }
    let mut entries = match &variants[i] {
        Json::Object(e) => crate::json::copy_entries(e),
        _ => {
            proof {
                crate::json::lemma_view_variant(variants@[i as int]);
            }
            return Err(AppError::NotFound(crate::text::concat("Asset variant not found: ", variant_id)));
        },
    };
    match entry_get(values, "name") {
        Some(Json::Text(n)) => {
            let t = trim(n.as_str());
            if chars_of(t.as_str()).len() == 0 {
                return Err(AppError::bad_request("形态名称不能为空"));
            }
            crate::json::entry_insert(&mut entries, "name".to_owned(), Json::Text(t));
        },
        other => {
            proof {
                match other {
                    Some(x) => crate::json::lemma_view_variant(*x),
                    None => {},
                }
            }
        },
    }
    match entry_get(values, "prompt") {
        Some(Json::Text(p)) => {
            crate::json::entry_insert(&mut entries, "prompt".to_owned(), Json::Text(p.clone()));
        },
        other => {
            proof {
                match other {
                    Some(x) => crate::json::lemma_view_variant(*x),
                    None => {},
                }
            }
        },
    }
    let edited = Json::Object(crate::json::copy_entries(&entries));
    let replacement = Json::Object(entries);
    let mut variants = variants;
    let ghost before = variants@;
    variants.set(i, replacement);
    proof {
        crate::json::lemma_view_items(variants@);
        assert(view_items(variants@) =~= all.update(i as int, edited@));
    }
    Ok((variants, edited))
}

/// A model an edit chooses for a game: as given, but not blank.
pub open spec fn model_step(values: Entries, key: Seq<char>) -> Step {
    match lookup(values, key) {
        Some(JsonView::Text(v)) => if trimmed(v).len() == 0 {
            Err(AppErrorView::BadRequest(key + " 不能为空"@))
        } else {
            Ok(seq![(key, ColumnValueView::Text(v))])
        },
        _ => Ok(Seq::empty()),
    }
}

/// The steps of an edit of a game's models.
pub open spec fn model_edit_steps(values: Entries) -> Seq<Step> {
    seq![
        model_step(values, "language_model"@),
        model_step(values, "multimodal_model"@),
        model_step(values, "video_model"@),
    ]
}

fn model_step_of(values: &Vec<(String, Json)>, key: &str) -> (r: Result<Vec<(String, ColumnValue)>, AppError>)
    ensures
        step_result(r) == model_step(view_entries(values@), key@),
{
    match entry_get(values, key) {
        Some(Json::Text(v)) => {
            if chars_of(trim(v.as_str()).as_str()).len() == 0 {
                return Err(AppError::BadRequest(crate::text::concat(key, " 不能为空")));
            }
            Ok(one(key, ColumnValue::Text(v.clone())))
        },
        other => {
            proof {
                match other {
                    Some(x) => crate::json::lemma_view_variant(*x),
                    None => {},
                }
            }
            Ok(none_stored())
        },
    }
}

/// Read an edit of a game's language, image and video models.
pub fn model_edit(values: &Vec<(String, Json)>) -> (r: NodeEdit)
    ensures
        (updates_view(r.updates@), opt_error(r.error)) == applied(model_edit_steps(view_entries(values@))),
{
    let ghost steps = model_edit_steps(view_entries(values@));
    let mut updates: Vec<(String, ColumnValue)> = Vec::new();
    let ghost mut done: Seq<Step> = Seq::empty();
    proof {
        assert(updates_view(updates@) =~= stored(done));
    }
    let mut k: usize = 0;
    while k < 3
        invariant
            k <= 3,
            steps == model_edit_steps(view_entries(values@)),
            steps.len() == 3,
            done == steps.subrange(0, k as int),
            all_ok(done),
            updates_view(updates@) == stored(done),
        decreases 3 - k,
    {
        let outcome = if k == 0 {
            model_step_of(values, "language_model")
        } else if k == 1 {
            model_step_of(values, "multimodal_model")
        } else {
            model_step_of(values, "video_model")
        };
        proof {
            assert(step_result(outcome) == steps[k as int]);
        }
        match outcome {
            Err(e) => {
                proof {
                    let rest = steps.subrange(k as int, 3);
                    assert(steps =~= done + rest);
                    lemma_applied_after_ok(done, rest);
                    assert(rest[0] == steps[k as int]);
                    assert(updates_view(updates@) + Seq::<(Seq<char>, ColumnValueView)>::empty() =~= updates_view(updates@));
                }
                return NodeEdit { updates, error: Some(e) };
            },
            Ok(more) => {
                let ghost before = updates_view(updates@);
                let ghost added = updates_view(more@);
                let mut more = more;
                updates.append(&mut more);
                proof {
                    assert(updates_view(updates@) =~= before + added);
                    lemma_stored_push(done, added);
                    lemma_all_ok_push(done, added);
                    done = done.push(Ok(added));
                    assert(done =~= steps.subrange(0, k + 1));
                }
            },
        }
        k += 1;
    }
    proof {
        assert(done =~= steps);
        lemma_applied_after_ok(done, Seq::empty());
        assert(done + Seq::<Step>::empty() =~= done);
        assert(stored(done) + Seq::<(Seq<char>, ColumnValueView)>::empty() =~= stored(done));
    }
    NodeEdit { updates, error: None }
}

/// A text a new variant needs: given, and not blank once trimmed.
pub open spec fn required_trimmed(values: Entries, key: Seq<char>) -> Result<Seq<char>, AppErrorView> {
    let v = match lookup(values, key) {
        Some(JsonView::Text(s)) => trimmed(s),
        _ => Seq::empty(),
    };
    if v.len() == 0 {
        Err(AppErrorView::BadRequest(key + " 不能为空"@))
    } else {
        Ok(v)
    }
}

/// A new variant of a game material, or why the form is refused: it needs a
/// name and a prompt, and starts with no image.
pub open spec fn new_variant_of(values: Entries, id: Seq<char>, at_time: Seq<char>) -> Result<JsonView, AppErrorView> {
    match required_trimmed(values, "name"@) {
        Err(e) => Err(e),
        Ok(name) => match required_trimmed(values, "prompt"@) {
            Err(e) => Err(e),
            Ok(prompt) => Ok(JsonView::Object(seq![
                ("id"@, JsonView::Text(id)),
                ("name"@, JsonView::Text(name)),
                ("prompt"@, JsonView::Text(prompt)),
                ("image_url"@, JsonView::Null),
                ("image_history"@, JsonView::Array(Seq::empty())),
                ("status"@, JsonView::Text("未生成"@)),
                ("created_at"@, JsonView::Text(at_time)),
                ("updated_at"@, JsonView::Text(at_time)),
            ])),
        },
    }
}

fn required_trimmed_of(values: &Vec<(String, Json)>, key: &str) -> (r: Result<String, AppError>)
    ensures
        crate::forms::text_result(r) == required_trimmed(view_entries(values@), key@),
{
    let v = match entry_get(values, key) {
        Some(Json::Text(s)) => trim(s.as_str()),
        other => {
            proof {
                match other {
                    Some(x) => crate::json::lemma_view_variant(*x),
                    None => {},
                }
            }
            String::new()
        },
    };
    if chars_of(v.as_str()).len() == 0 {
        Err(AppError::BadRequest(crate::text::concat(key, " 不能为空")))
    } else {
        Ok(v)
    }
}

/// Read a new variant of a game material; `id` is its new id and
/// `created_at` the time it is added.
pub fn new_variant(values: &Vec<(String, Json)>, id: &str, created_at: &str) -> (r: Result<Json, AppError>)
    ensures
        crate::frame_references::json_result(r) == new_variant_of(view_entries(values@), id@, created_at@),
{
    let name = required_trimmed_of(values, "name")?;
    let prompt = required_trimmed_of(values, "prompt")?;
    let empty: Vec<Json> = Vec::new();
    proof {
        crate::json::lemma_view_items(empty@);
        assert(view_items(empty@) =~= Seq::<JsonView>::empty());
    }
    let entries: Vec<(String, Json)> = vec![
        ("id".to_owned(), Json::Text(id.to_owned())),
        ("name".to_owned(), Json::Text(name)),
        ("prompt".to_owned(), Json::Text(prompt)),
        ("image_url".to_owned(), Json::Null),
        ("image_history".to_owned(), Json::Array(empty)),
        ("status".to_owned(), Json::Text("未生成".to_owned())),
        ("created_at".to_owned(), Json::Text(created_at.to_owned())),
        ("updated_at".to_owned(), Json::Text(created_at.to_owned())),
    ];
    proof {
        crate::json::lemma_view_entries(entries@);
        assert(view_entries(entries@) =~= new_variant_of(view_entries(values@), id@, created_at@)->Ok_0->Object_0);
    }
    Ok(Json::Object(entries))
}

} // verus!
