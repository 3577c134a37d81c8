//! Which tasks a cancellation stops, and what it reports: image tasks of one
//! kind of material, and the video tasks of a shot or a whole project.

use vstd::prelude::*;

use crate::error::{AppError, AppErrorView};
use crate::forms::texts_view;
use crate::game_materials::array_at;
use crate::json::{entry_insert, insert_entry, str_eq, view_entries, view_items, Entries, Json, JsonView};
use crate::placeholder::{at, has_text, value_at};
use crate::text::{chars_of, concat};

verus! {

/// The status a cancelled task, material or shot takes.
pub open spec fn cancelled_status() -> Seq<char> {
    "已取消"@
}

/// The name of a material kind whose images can be cancelled.
pub open spec fn kind_label(kind: Seq<char>) -> Option<Seq<char>> {
    if kind == "character"@ {
        Some("角色"@)
    } else if kind == "scene"@ {
        Some("场景"@)
    } else if kind == "prop"@ {
        Some("道具"@)
    } else {
        None
    }
}

/// The message a cancelled image task of this kind keeps, or why the kind cannot be cancelled.
pub open spec fn image_cancel_text(kind: Seq<char>) -> Result<Seq<char>, AppErrorView> {
    match kind_label(kind) {
        Some(label) => Ok(label + "图片生成已取消"@),
        None => Err(AppErrorView::BadRequest("只支持取消角色、场景或道具的图片任务"@)),
    }
}

/// The message of the image tasks of one material kind that are cancelled.
pub fn image_cancel_message(kind: &str) -> (r: Result<String, AppError>)
    ensures
        crate::forms::text_result(r) == image_cancel_text(kind@),
{
    let label = if str_eq(kind, "character") {
        "角色"
    } else if str_eq(kind, "scene") {
        "场景"
    } else if str_eq(kind, "prop") {
        "道具"
    } else {
        return Err(AppError::bad_request("只支持取消角色、场景或道具的图片任务"));
    };
    Ok(concat(label, "图片生成已取消"))
}

/// The materials of a project of one kind.
pub open spec fn kind_assets(assets: Seq<JsonView>, kind: Seq<char>) -> Seq<JsonView>
    decreases assets.len(),
{
    if assets.len() == 0 {
        Seq::empty()
    } else {
        let before = kind_assets(assets.drop_last(), kind);
        if assets.last().get("type"@) == Some(JsonView::Text(kind)) {
            before.push(assets.last())
        } else {
            before
        }
    }
}

/// The text ids of some materials.
pub open spec fn text_ids(items: Seq<JsonView>) -> Seq<Seq<char>> {
    crate::placeholder::text_ids(items)
}

/// The variants of some materials, as (variant id, material id) pairs; a
/// material without a text id is named by the empty text.
pub open spec fn variant_pairs(assets: Seq<JsonView>) -> Seq<(Seq<char>, Seq<char>)>
    decreases assets.len(),
{
    if assets.len() == 0 {
        Seq::empty()
    } else {
        variant_pairs(assets.drop_last()) + variants_of(assets.last())
    }
}

/// The variants of one material.
pub open spec fn variants_of(asset: JsonView) -> Seq<(Seq<char>, Seq<char>)> {
    let owner = crate::json::text_or(asset, "id"@, Seq::empty());
    let ids = crate::placeholder::text_ids(array_at(asset, "variants"@));
    Seq::new(ids.len(), |i: int| (ids[i], owner))
}

/// The materials of one kind in a project, with their ids and their variants.
pub struct KindMaterials {
    pub asset_ids: Vec<String>,
    pub variants: Vec<(String, String)>,
}

fn kind_list(project: &Json, kind: &str) -> (r: Vec<Json>)
    ensures
        view_items(r@) == kind_assets(array_at(project@, "assets"@), kind@),
{
    let empty: Vec<Json> = Vec::new();
    let assets = crate::game_materials::items_at(project, "assets", &empty);
    proof {
        crate::json::lemma_view_items(assets@);
    }
    let ghost all = view_items(assets@);
    let mut out: Vec<Json> = Vec::new();
    let mut i: usize = 0;
    proof {
        assert(all.subrange(0, 0) =~= Seq::<JsonView>::empty());
        crate::json::lemma_view_items(out@);
    }
    while i < assets.len()
        invariant
            i <= assets.len(),
            all == view_items(assets@),
            all == array_at(project@, "assets"@),
            all.len() == assets.len(),
            forall|k: int| 0 <= k < assets.len() ==> #[trigger] all[k] == assets@[k]@,
            view_items(out@) == kind_assets(all.subrange(0, i as int), kind@),
        decreases assets.len() - i,
    {
        proof {
            let next = all.subrange(0, i + 1);
            assert(next.drop_last() =~= all.subrange(0, i as int));
            assert(next.last() == assets@[i as int]@);
        }
        if has_text(assets[i].get("type"), kind) {
            let copy = crate::json::duplicate(&assets[i]);
            let ghost before = out@;
            proof {
                crate::json::lemma_view_items_push(before, copy);
            }
            out.push(copy);
        }
        i += 1;
    }
    proof {
        assert(all.subrange(0, assets.len() as int) =~= all);
    }
    out
}

/// The materials of one kind in a project: their text ids, and their variants.
pub fn kind_materials(project: &Json, kind: &str) -> (r: KindMaterials)
    ensures
        texts_view(r.asset_ids@) == text_ids(kind_assets(array_at(project@, "assets"@), kind@)),
        crate::game_materials::pair_views(r.variants@) == variant_pairs(kind_assets(array_at(project@, "assets"@), kind@)),
{
    proof {
        reveal_strlit("");
        assert(""@ =~= Seq::<char>::empty());
    }
    let assets = kind_list(project, kind);
    let mut asset_ids: Vec<String> = Vec::new();
    proof {
        assert(texts_view(asset_ids@) =~= Seq::<Seq<char>>::empty());
    }
    crate::placeholder::push_ids(&assets, &mut asset_ids);
    proof {
        assert(Seq::<Seq<char>>::empty() + crate::placeholder::text_ids(view_items(assets@)) =~= crate::placeholder::text_ids(view_items(assets@)));
        crate::json::lemma_view_items(assets@);
    }
    let ghost av = view_items(assets@);
    let mut variants: Vec<(String, String)> = Vec::new();
    let mut i: usize = 0;
    proof {
        assert(av.subrange(0, 0) =~= Seq::<JsonView>::empty());
        assert(crate::game_materials::pair_views(variants@) =~= Seq::<(Seq<char>, Seq<char>)>::empty());
    }
    while i < assets.len()
        invariant
            i <= assets.len(),
            av == view_items(assets@),
            av.len() == assets.len(),
            forall|k: int| 0 <= k < assets.len() ==> #[trigger] av[k] == assets@[k]@,
            ""@ == Seq::<char>::empty(),
            crate::game_materials::pair_views(variants@) == variant_pairs(av.subrange(0, i as int)),
        decreases assets.len() - i,
    {
        proof {
            let next = av.subrange(0, i + 1);
            assert(next.drop_last() =~= av.subrange(0, i as int));
            assert(next.last() == assets@[i as int]@);
        }
        let owner = assets[i].text_or("id", "");
        let empty: Vec<Json> = Vec::new();
        let items = crate::game_materials::items_at(&assets[i], "variants", &empty);
        let mut ids: Vec<String> = Vec::new();
        proof {
            assert(texts_view(ids@) =~= Seq::<Seq<char>>::empty());
        }
        crate::placeholder::push_ids(items, &mut ids);
        proof {
            assert(Seq::<Seq<char>>::empty() + crate::placeholder::text_ids(view_items(items@)) =~= crate::placeholder::text_ids(view_items(items@)));
        }
        let ghost before = crate::game_materials::pair_views(variants@);
        let mut j: usize = 0;
        while j < ids.len()
            invariant
                j <= ids.len(),
                crate::game_materials::pair_views(variants@) == before + Seq::new(j as nat, |x: int| (texts_view(ids@)[x], owner@)),
            decreases ids.len() - j,
        {
            let ghost prev = variants@;
            let pair = (ids[j].clone(), owner.clone());
            proof {
                assert(pair.0@ == texts_view(ids@)[j as int]);
                assert(pair.1@ == owner@);
            }
            variants.push(pair);
            proof {
                assert(variants@ == prev.push(pair));
                assert(crate::game_materials::pair_views(variants@) =~= crate::game_materials::pair_views(prev).push((pair.0@, pair.1@)));
                assert(crate::game_materials::pair_views(variants@) =~= before + Seq::new((j + 1) as nat, |x: int| (texts_view(ids@)[x], owner@)));
            }
            j += 1;
        }
        proof {
            assert(Seq::new(ids.len() as nat, |x: int| (texts_view(ids@)[x], owner@)) =~= variants_of(assets@[i as int]@));
        }
        i += 1;
    }
    proof {
        assert(av.subrange(0, assets.len() as int) =~= av);
    }
    KindMaterials { asset_ids, variants }
}

/// The ids (empty when missing) of the tasks working on this resource.
pub open spec fn tasks_for_resource(tasks: Seq<JsonView>, resource: Seq<char>) -> Seq<Seq<char>>
    decreases tasks.len(),
{
    if tasks.len() == 0 {
        Seq::empty()
    } else {
        let before = tasks_for_resource(tasks.drop_last(), resource);
        if tasks.last().get("resource_id"@) == Some(JsonView::Text(resource)) {
            before.push(crate::json::text_or(tasks.last(), "id"@, Seq::empty()))
        } else {
            before
        }
    }
}

/// The batch image tasks of one kind that a cancellation stops.
pub fn batch_tasks_to_cancel(tasks: &Vec<Json>, kind: &str) -> (r: Vec<String>)
    ensures
        texts_view(r@) == tasks_for_resource(view_items(tasks@), kind@),
{
    proof {
        crate::json::lemma_view_items(tasks@);
        reveal_strlit("");
        assert(""@ =~= Seq::<char>::empty());
    }
    let ghost all = view_items(tasks@);
    let mut out: Vec<String> = Vec::new();
    let mut i: usize = 0;
    proof {
        assert(all.subrange(0, 0) =~= Seq::<JsonView>::empty());
        assert(texts_view(out@) =~= Seq::<Seq<char>>::empty());
    }
    while i < tasks.len()
        invariant
            i <= tasks.len(),
            all == view_items(tasks@),
            all.len() == tasks.len(),
            forall|k: int| 0 <= k < tasks.len() ==> #[trigger] all[k] == tasks@[k]@,
            ""@ == Seq::<char>::empty(),
            texts_view(out@) == tasks_for_resource(all.subrange(0, i as int), kind@),
        decreases tasks.len() - i,
    {
        proof {
            let next = all.subrange(0, i + 1);
            assert(next.drop_last() =~= all.subrange(0, i as int));
            assert(next.last() == tasks@[i as int]@);
        }
        if has_text(tasks[i].get("resource_id"), kind) {
            let ghost before = texts_view(out@);
            out.push(tasks[i].text_or("id", ""));
            proof {
                assert(texts_view(out@) =~= before.push(out@[out.len() - 1]@));
            }
        }
        i += 1;
    }
    proof {
        assert(all.subrange(0, tasks.len() as int) =~= all);
    }
    out
}

/// The (task id, resource) pairs of the tasks whose resource is listed, in task order.
pub open spec fn tasks_on_listed(tasks: Seq<JsonView>, listed: Seq<Seq<char>>) -> Seq<(Seq<char>, Seq<char>)>
    decreases tasks.len(),
{
    if tasks.len() == 0 {
        Seq::empty()
    } else {
        let before = tasks_on_listed(tasks.drop_last(), listed);
        match tasks.last().get("resource_id"@) {
            Some(JsonView::Text(r)) => if listed.contains(r) {
                before.push((crate::json::text_or(tasks.last(), "id"@, Seq::empty()), r))
            } else {
                before
            },
            _ => before,
        }
    }
}

/// Whether a task works on one of the listed materials.
pub open spec fn on_listed(listed: Seq<Seq<char>>, task: JsonView) -> bool {
    match task.get("resource_id"@) {
        Some(JsonView::Text(r)) => listed.contains(r),
        _ => false,
    }
}

/// A task as (task id, material id).
pub open spec fn task_pair(task: JsonView) -> (Seq<char>, Seq<char>) {
    (crate::json::text_or(task, "id"@, Seq::empty()), crate::json::text_or(task, "resource_id"@, Seq::empty()))
}

/// A cancellation stops exactly the tasks on the listed materials: the
/// result is the tasks working on a listed material, every one of them, in
/// task order, each as (task id, material id); whether a task is stopped
/// does not depend on the tasks before it.
pub proof fn lemma_every_task_on_a_listed_material_is_stopped(tasks: Seq<JsonView>, listed: Seq<Seq<char>>)
    ensures
        tasks_on_listed(tasks, listed) == tasks.filter(|t: JsonView| on_listed(listed, t)).map_values(|t: JsonView| task_pair(t)),
        forall|k: int| 0 <= k < tasks.len() && on_listed(listed, #[trigger] tasks[k])
            ==> tasks_on_listed(tasks, listed).contains(task_pair(tasks[k])),
    decreases tasks.len(),
{
    let pick = |t: JsonView| on_listed(listed, t);
    let pair = |t: JsonView| task_pair(t);
    reveal(Seq::filter);
    if tasks.len() > 0 {
        lemma_every_task_on_a_listed_material_is_stopped(tasks.drop_last(), listed);
        let before = tasks.drop_last().filter(pick);
        assert(tasks.filter(pick) == if pick(tasks.last()) { before.push(tasks.last()) } else { before });
        if pick(tasks.last()) {
            assert(before.push(tasks.last()).map_values(pair) =~= before.map_values(pair).push(pair(tasks.last())));
        }
        assert forall|k: int| 0 <= k < tasks.len() && on_listed(listed, #[trigger] tasks[k])
            implies tasks_on_listed(tasks, listed).contains(task_pair(tasks[k])) by {
            let prev = tasks_on_listed(tasks.drop_last(), listed);
            if k < tasks.len() - 1 {
                assert(tasks.drop_last()[k] == tasks[k]);
                let w = choose|w: int| 0 <= w < prev.len() && prev[w] == task_pair(tasks[k]);
                assert(tasks_on_listed(tasks, listed)[w] == prev[w]);
            } else {
                let out = tasks_on_listed(tasks, listed);
                assert(out[out.len() - 1] == task_pair(tasks[k]));
            }
        }
    }
}

/// The single-image tasks a cancellation stops, as (task id, material id):
/// those working on one of `asset_ids`.
pub fn image_tasks_to_cancel(tasks: &Vec<Json>, asset_ids: &Vec<String>) -> (r: Vec<(String, String)>)
    ensures
        crate::game_materials::pair_views(r@) == tasks_on_listed(view_items(tasks@), texts_view(asset_ids@)),
{
    proof {
        crate::json::lemma_view_items(tasks@);
        reveal_strlit("");
        assert(""@ =~= Seq::<char>::empty());
    }
    let ghost all = view_items(tasks@);
    let mut out: Vec<(String, String)> = Vec::new();
    let mut i: usize = 0;
    proof {
        assert(all.subrange(0, 0) =~= Seq::<JsonView>::empty());
        assert(crate::game_materials::pair_views(out@) =~= Seq::<(Seq<char>, Seq<char>)>::empty());
    }
    while i < tasks.len()
        invariant
            i <= tasks.len(),
            all == view_items(tasks@),
            all.len() == tasks.len(),
            forall|k: int| 0 <= k < tasks.len() ==> #[trigger] all[k] == tasks@[k]@,
            ""@ == Seq::<char>::empty(),
            crate::game_materials::pair_views(out@) == tasks_on_listed(all.subrange(0, i as int), texts_view(asset_ids@)),
        decreases tasks.len() - i,
    {
        proof {
            let next = all.subrange(0, i + 1);
            assert(next.drop_last() =~= all.subrange(0, i as int));
            assert(next.last() == tasks@[i as int]@);
        }
        match tasks[i].get("resource_id") {
            Some(Json::Text(r)) => {
                if crate::game_video::listed_url(asset_ids, r.as_str()) {
                    proof {
                        assert(crate::game_video::texts_of(asset_ids@) =~= texts_view(asset_ids@));
                    }
                    let ghost before = crate::game_materials::pair_views(out@);
                    out.push((tasks[i].text_or("id", ""), r.clone()));
                    proof {
                        assert(crate::game_materials::pair_views(out@) =~= before.push((out@[out.len() - 1].0@, out@[out.len() - 1].1@)));
                    }
                } else {
                    proof {
                        assert(crate::game_video::texts_of(asset_ids@) =~= texts_view(asset_ids@));
                    }
                }
            },
            other => {
                proof {
                    match other {
                        Some(v) => crate::json::lemma_view_variant(*v),
                        None => {},
                    }
                }
            },
        }
        i += 1;
    }
    proof {
        assert(all.subrange(0, tasks.len() as int) =~= all);
    }
    out
}

/// A variant task to stop: its id, the material and the variant.
pub open spec fn variant_stops(tasks: Seq<JsonView>, variants: Seq<(Seq<char>, Seq<char>)>) -> Seq<(Seq<char>, Seq<char>, Seq<char>)>
    decreases tasks.len(),
{
    if tasks.len() == 0 {
        Seq::empty()
    } else {
        let before = variant_stops(tasks.drop_last(), variants);
        match tasks.last().get("resource_id"@) {
            Some(JsonView::Text(v)) => match crate::game_materials::pair_get(variants, v) {
                Some(asset_id) => before.push((crate::json::text_or(tasks.last(), "id"@, Seq::empty()), asset_id, v)),
                None => before,
            },
            _ => before,
        }
    }
}

pub open spec fn triples_view(v: Seq<(String, String, String)>) -> Seq<(Seq<char>, Seq<char>, Seq<char>)> {
    Seq::new(v.len(), |i: int| (v[i].0@, v[i].1@, v[i].2@))
}

/// The variant image tasks a cancellation stops, as (task id, material id,
/// variant id): those working on one of `variants` (variant id, material id).
pub fn variant_tasks_to_cancel(tasks: &Vec<Json>, variants: &Vec<(String, String)>) -> (r: Vec<(String, String, String)>)
    ensures
        triples_view(r@) == variant_stops(view_items(tasks@), crate::game_materials::pair_views(variants@)),
{
    proof {
        crate::json::lemma_view_items(tasks@);
        reveal_strlit("");
        assert(""@ =~= Seq::<char>::empty());
    }
    let ghost all = view_items(tasks@);
    let mut out: Vec<(String, String, String)> = Vec::new();
    let mut i: usize = 0;
    proof {
        assert(all.subrange(0, 0) =~= Seq::<JsonView>::empty());
        assert(triples_view(out@) =~= Seq::<(Seq<char>, Seq<char>, Seq<char>)>::empty());
    }
    while i < tasks.len()
        invariant
            i <= tasks.len(),
            all == view_items(tasks@),
            all.len() == tasks.len(),
            forall|k: int| 0 <= k < tasks.len() ==> #[trigger] all[k] == tasks@[k]@,
            ""@ == Seq::<char>::empty(),
            triples_view(out@) == variant_stops(all.subrange(0, i as int), crate::game_materials::pair_views(variants@)),
        decreases tasks.len() - i,
    {
        proof {
            let next = all.subrange(0, i + 1);
            assert(next.drop_last() =~= all.subrange(0, i as int));
            assert(next.last() == tasks@[i as int]@);
        }
        match tasks[i].get("resource_id") {
            Some(Json::Text(v)) => {
                if let Some(asset_id) = crate::game_materials::mapped_asset_id(Some(v.as_str()), variants) {
                    let ghost before = triples_view(out@);
                    out.push((tasks[i].text_or("id", ""), asset_id, v.clone()));
                    proof {
                        assert(triples_view(out@) =~= before.push((out@[out.len() - 1].0@, out@[out.len() - 1].1@, out@[out.len() - 1].2@)));
                    }
                }
            },
            other => {
                proof {
                    match other {
                        Some(x) => crate::json::lemma_view_variant(*x),
                        None => {},
                    }
                }
            },
        }
        i += 1;
    }
    proof {
        assert(all.subrange(0, tasks.len() as int) =~= all);
    }
    out
}

/// A serial video batch stopped with the videos of `shot_id`: every batch
/// when all videos stop, else the batches currently working on that shot.
pub open spec fn stops_batch(batch: JsonView, shot_id: Option<Seq<char>>) -> bool {
    match shot_id {
        None => true,
        Some(shot) => at(at(batch, "input_snapshot"@), "current_shot_id"@) == JsonView::Text(shot),
    }
}

/// The ids (empty when missing) of the serial batches to stop, in order.
pub open spec fn batches_to_stop(batches: Seq<JsonView>, shot_id: Option<Seq<char>>) -> Seq<Seq<char>>
    decreases batches.len(),
{
    if batches.len() == 0 {
        Seq::empty()
    } else {
        let before = batches_to_stop(batches.drop_last(), shot_id);
        if stops_batch(batches.last(), shot_id) {
            before.push(crate::json::text_or(batches.last(), "id"@, Seq::empty()))
        } else {
            before
        }
    }
}

/// What stopping the videos of a shot, or of every shot, leaves to do: the
/// serial batches to stop, or a refusal when nothing is generating.
pub open spec fn video_stop_plan(video_tasks: Seq<JsonView>, batches: Seq<JsonView>, shot_id: Option<Seq<char>>) -> Result<Seq<Seq<char>>, AppErrorView> {
    let stopped = batches_to_stop(batches, shot_id);
    if video_tasks.len() == 0 && stopped.len() == 0 {
        Err(AppErrorView::BadRequest("当前分镜没有正在生成的视频任务"@))
    } else {
        Ok(stopped)
    }
}

pub open spec fn texts_result(r: Result<Vec<String>, AppError>) -> Result<Seq<Seq<char>>, AppErrorView> {
    match r {
        Ok(v) => Ok(texts_view(v@)),
        Err(e) => Err(e@),
    }
}

/// Decide which serial batches stop with the videos of `shot_id` (all
/// videos when `None`); `video_tasks` are the active video tasks concerned.
pub fn video_stops(video_tasks: &Vec<Json>, batches: &Vec<Json>, shot_id: Option<&str>) -> (r: Result<Vec<String>, AppError>)
    ensures
        texts_result(r) == video_stop_plan(view_items(video_tasks@), view_items(batches@), crate::graph::opt_text(shot_id)),
{
    proof {
        crate::json::lemma_view_items(batches@);
        crate::json::lemma_view_items(video_tasks@);
        reveal_strlit("");
        assert(""@ =~= Seq::<char>::empty());
    }
    let ghost all = view_items(batches@);
    let mut out: Vec<String> = Vec::new();
    let mut i: usize = 0;
    proof {
        assert(all.subrange(0, 0) =~= Seq::<JsonView>::empty());
        assert(texts_view(out@) =~= Seq::<Seq<char>>::empty());
    }
    while i < batches.len()
        invariant
            i <= batches.len(),
            all == view_items(batches@),
            all.len() == batches.len(),
            forall|k: int| 0 <= k < batches.len() ==> #[trigger] all[k] == batches@[k]@,
            ""@ == Seq::<char>::empty(),
            texts_view(out@) == batches_to_stop(all.subrange(0, i as int), crate::graph::opt_text(shot_id)),
        decreases batches.len() - i,
    {
        proof {
            let next = all.subrange(0, i + 1);
            assert(next.drop_last() =~= all.subrange(0, i as int));
            assert(next.last() == batches@[i as int]@);
        }
        let stops = match shot_id {
            None => true,
            Some(shot) => {
                let snapshot = value_at(&batches[i], "input_snapshot");
                let current = value_at(&snapshot, "current_shot_id");
                match &current {
                    Json::Text(c) => str_eq(c.as_str(), shot),
                    _ => false,
                }
            },
        };
        if stops {
            let ghost before = texts_view(out@);
            out.push(batches[i].text_or("id", ""));
            proof {
                assert(texts_view(out@) =~= before.push(out@[out.len() - 1]@));
            }
        }
        i += 1;
    }
    proof {
        assert(all.subrange(0, batches.len() as int) =~= all);
    }
    if video_tasks.len() == 0 && out.len() == 0 {
        return Err(AppError::bad_request("当前分镜没有正在生成的视频任务"));
    }
    Ok(out)
}

/// The version a stopped video task was making, when it names one.
pub open spec fn task_version(task: JsonView) -> Option<Seq<char>> {
    match at(at(task, "input_snapshot"@), "version_id"@) {
        JsonView::Text(v) => if v.len() > 0 {
            Some(v)
        } else {
            None
        },
        _ => None,
    }
}

/// The version a stopped video task was making, when it names one.
pub fn stopped_version(task: &Json) -> (r: Option<String>)
    ensures
        crate::storage::opt_text_view(r) == task_version(task@),
{
    let snapshot = value_at(task, "input_snapshot");
    match value_at(&snapshot, "version_id") {
        Json::Text(v) => if chars_of(v.as_str()).len() > 0 {
            Some(v)
        } else {
            None
        },
        _ => None,
    }
}

/// How the video service answered the request to stop a task: not asked
/// (the task had no service id), stopped, or refused with a message.
#[derive(Debug)]
pub enum ProviderStop {
    NotAsked,
    Stopped,
    Failed(String),
}

pub open spec fn provider_stop_view(p: ProviderStop) -> Option<Result<(), Seq<char>>> {
    match p {
        ProviderStop::NotAsked => None,
        ProviderStop::Stopped => Some(Ok(())),
        ProviderStop::Failed(m) => Some(Err(m@)),
    }
}

/// What the cancellation reports of one stopped video task, and the error
/// it lists when the video service refused to stop it.
pub open spec fn stop_report(project_id: Seq<char>, task: JsonView, outcome: Option<Result<(), Seq<char>>>) -> (JsonView, Option<JsonView>) {
    let id = crate::json::text_or(task, "id"@, Seq::empty());
    let base: Seq<(Seq<char>, JsonView)> = seq![
        ("id"@, JsonView::Text(id)),
        ("project_id"@, JsonView::Text(project_id)),
        ("resource_id"@, JsonView::Text(crate::json::text_or(task, "resource_id"@, Seq::empty()))),
        ("status"@, JsonView::Text(cancelled_status())),
    ];
    match outcome {
        None => (JsonView::Object(base.push(("provider_cancelled"@, JsonView::Bool(false)))), None),
        Some(Ok(())) => (JsonView::Object(base.push(("provider_cancelled"@, JsonView::Bool(true)))), None),
        Some(Err(m)) => (
            JsonView::Object(base.push(("provider_cancelled"@, JsonView::Bool(false))).push(("provider_cancel_error"@, JsonView::Text(m)))),
            Some(JsonView::Object(seq![("task_id"@, JsonView::Text(id)), ("error"@, JsonView::Text(m))])),
        ),
    }
}

/// Report one stopped video task.
pub fn stopped_video_report(project_id: &str, task: &Json, outcome: ProviderStop) -> (r: (Json, Option<Json>))
    ensures
        (r.0@, crate::json::opt_json(r.1)) == stop_report(project_id@, task@, provider_stop_view(outcome)),
{
    proof {
        reveal_strlit("");
        assert(""@ =~= Seq::<char>::empty());
    }
    let ghost ov = provider_stop_view(outcome);
    let id = task.text_or("id", "");
    let mut entries: Vec<(String, Json)> = vec![
        ("id".to_owned(), Json::Text(id.clone())),
        ("project_id".to_owned(), Json::Text(project_id.to_owned())),
        ("resource_id".to_owned(), Json::Text(task.text_or("resource_id", ""))),
        ("status".to_owned(), Json::Text("已取消".to_owned())),
    ];
    let (cancelled, error) = match outcome {
        ProviderStop::NotAsked => (false, None),
        ProviderStop::Stopped => (true, None),
        ProviderStop::Failed(m) => (false, Some(m)),
    };
    entries.push(("provider_cancelled".to_owned(), Json::Bool(cancelled)));
    match error {
        None => {
            proof {
                crate::json::lemma_view_entries(entries@);
                assert(view_entries(entries@) =~= stop_report(project_id@, task@, ov).0->Object_0);
            }
            (Json::Object(entries), None)
        },
        Some(m) => {
            entries.push(("provider_cancel_error".to_owned(), Json::Text(m.clone())));
            let listed: Vec<(String, Json)> = vec![("task_id".to_owned(), Json::Text(id)), ("error".to_owned(), Json::Text(m))];
            proof {
                crate::json::lemma_view_entries(entries@);
                crate::json::lemma_view_entries(listed@);
                assert(view_entries(entries@) =~= stop_report(project_id@, task@, ov).0->Object_0);
                assert(view_entries(listed@) =~= stop_report(project_id@, task@, ov).1->Some_0->Object_0);
            }
            (Json::Object(entries), Some(Json::Object(listed)))
        },
    }
}

/// The service id of a stopped task, when it has one to ask the video service to stop.
pub open spec fn provider_task_of(task: JsonView) -> Option<Seq<char>> {
    let id = crate::json::text_or(task, "provider_task_id"@, ""@);
    if id.len() == 0 {
        None
    } else {
        Some(id)
    }
}

/// The service id of a stopped task, when the video service must be asked to stop it.
pub fn provider_task_to_stop(task: &Json) -> (r: Option<String>)
    ensures
        crate::storage::opt_text_view(r) == provider_task_of(task@),
{
    let id = task.text_or("provider_task_id", "");
    if crate::forms::char_count(id.as_str()) == 0 {
        None
    } else {
        Some(id)
    }
}

/// What cancelling a game node's video reports: the stopped task with the
/// game, the node, one cancelled task, its id, and the video service's
/// refusal when it refused to stop it.
pub open spec fn node_cancel_report_of(task: Entries, game_id: Seq<char>, node_id: Seq<char>, outcome: Option<Result<(), Seq<char>>>) -> Entries {
    let task_id = crate::json::text_or(JsonView::Object(task), "id"@, ""@);
    let base = insert_entry(
        insert_entry(insert_entry(task, "cancelled_count"@, JsonView::Int(1)), "game_id"@, JsonView::Text(game_id)),
        "node_id"@,
        JsonView::Text(node_id),
    );
    let noted = match outcome {
        Some(Err(m)) => insert_entry(base, "provider_cancel_error"@, JsonView::Text(m)),
        _ => base,
    };
    insert_entry(noted, "cancelled_task_id"@, JsonView::Text(task_id))
}

/// Report the cancellation of a game node's video task.
pub fn node_cancel_report(task: Json, game_id: &str, node_id: &str, outcome: ProviderStop) -> (r: Json)
    requires
        task@ is Object,
    ensures
        r@ == JsonView::Object(node_cancel_report_of(task@->Object_0, game_id@, node_id@, provider_stop_view(outcome))),
{
    let task_id = task.text_or("id", "");
    let ghost start = task@;
    proof {
        crate::json::lemma_view_variant(task);
    }
    let mut entries = match task {
        Json::Object(e) => e,
        _ => Vec::new(),
    };
    proof {
        assert(view_entries(entries@) == start->Object_0);
    }
    entry_insert(&mut entries, "cancelled_count".to_owned(), Json::Int(1));
    entry_insert(&mut entries, "game_id".to_owned(), Json::Text(game_id.to_owned()));
    entry_insert(&mut entries, "node_id".to_owned(), Json::Text(node_id.to_owned()));
    match outcome {
        ProviderStop::Failed(m) => entry_insert(&mut entries, "provider_cancel_error".to_owned(), Json::Text(m)),
        _ => {},
    }
    entry_insert(&mut entries, "cancelled_task_id".to_owned(), Json::Text(task_id));
    Json::Object(entries)
}

/// Cancelling every node video of a game needs a running video or batch.
pub fn any_node_video_running(videos: usize, batches: usize) -> (r: Result<(), AppError>)
    ensures
        crate::error::unit_result(r) == if videos > 0 || batches > 0 {
            Ok::<(), AppErrorView>(())
        } else {
            Err(AppErrorView::BadRequest("当前没有正在生成的视频任务"@))
        },
{
    if videos > 0 || batches > 0 {
        Ok(())
    } else {
        Err(AppError::bad_request("当前没有正在生成的视频任务"))
    }
}

/// The error listed for a task the video service refused to stop.
pub open spec fn refusal_of(task: JsonView, message: Seq<char>) -> JsonView {
    JsonView::Object(seq![("task_id"@, at(task, "id"@)), ("error"@, JsonView::Text(message))])
}

/// The error listed for a task the video service refused to stop.
pub fn provider_refusal(task: &Json, message: &str) -> (r: Json)
    ensures
        r@ == refusal_of(task@, message@),
{
    let entries: Vec<(String, Json)> = vec![
        ("task_id".to_owned(), value_at(task, "id")),
        ("error".to_owned(), Json::Text(message.to_owned())),
    ];
    proof {
        crate::json::lemma_view_entries(entries@);
        assert(view_entries(entries@) =~= refusal_of(task@, message@)->Object_0);
    }
    Json::Object(entries)
}

/// What cancelling every node video of a game reports.
pub open spec fn all_videos_report_of(game_id: Seq<char>, cancelled: Seq<JsonView>, refusals: Seq<JsonView>) -> JsonView {
    JsonView::Object(seq![
        ("game_id"@, JsonView::Text(game_id)),
        ("cancelled_count"@, JsonView::Int(cancelled.len() as i64)),
        ("cancelled_tasks"@, JsonView::Array(cancelled)),
        ("provider_cancel_errors"@, JsonView::Array(refusals)),
        ("status"@, JsonView::Text(cancelled_status())),
    ])
}

/// Report the cancellation of every node video of a game.
pub fn all_videos_report(game_id: &str, cancelled: Vec<Json>, refusals: Vec<Json>) -> (r: Json)
    requires
        cancelled.len() <= i64::MAX,
    ensures
        r@ == all_videos_report_of(game_id@, view_items(cancelled@), view_items(refusals@)),
{
    let count = cancelled.len() as i64;
    proof {
        crate::json::lemma_view_items(cancelled@);
        crate::json::lemma_view_items(refusals@);
    }
    let ghost cv = view_items(cancelled@);
    let ghost rv = view_items(refusals@);
    let entries: Vec<(String, Json)> = vec![
        ("game_id".to_owned(), Json::Text(game_id.to_owned())),
        ("cancelled_count".to_owned(), Json::Int(count)),
        ("cancelled_tasks".to_owned(), Json::Array(cancelled)),
        ("provider_cancel_errors".to_owned(), Json::Array(refusals)),
        ("status".to_owned(), Json::Text("已取消".to_owned())),
    ];
    proof {
        crate::json::lemma_view_entries(entries@);
        assert(view_entries(entries@) =~= all_videos_report_of(game_id@, cv, rv)->Object_0);
    }
    Json::Object(entries)
}

} // verus!
