//! Generating the images of several materials at once: which materials a
//! request selects, and the image jobs of the batch.

use vstd::prelude::*;

use crate::error::{AppError, AppErrorView};
use crate::game_materials::array_at;
use crate::json::{entry_get, json_eq, lookup, view_entries, view_items, Entries, Json, JsonView};
use crate::placeholder::{at, contains_value, value_at};

verus! {

/// The values of a list, each kept once, in first-seen order.
pub open spec fn distinct_values(items: Seq<JsonView>) -> Seq<JsonView>
    decreases items.len(),
{
    if items.len() == 0 {
        Seq::empty()
    } else {
        let before = distinct_values(items.drop_last());
        if before.contains(items.last()) {
            before
        } else {
            before.push(items.last())
        }
    }
}

/// The first material whose `id` value equals `id`.
pub open spec fn material_with_id(assets: Seq<JsonView>, id: JsonView) -> Option<JsonView>
    decreases assets.len(),
{
    if assets.len() == 0 {
        None
    } else if at(assets[0], "id"@) == id {
        Some(assets[0])
    } else {
        material_with_id(assets.drop_first(), id)
    }
}

/// The materials found for the requested ids, in request order.
pub open spec fn found_materials(assets: Seq<JsonView>, ids: Seq<JsonView>) -> Seq<JsonView>
    decreases ids.len(),
{
    if ids.len() == 0 {
        Seq::empty()
    } else {
        let before = found_materials(assets, ids.drop_last());
        match material_with_id(assets, ids.last()) {
            Some(a) => before.push(a),
            None => before,
        }
    }
}

/// The image jobs of one material: its own image, then each variant with an id.
pub open spec fn material_jobs(asset: JsonView) -> Seq<JsonView> {
    let variants = crate::placeholder::text_ids(array_at(asset, "variants"@));
    seq![JsonView::Object(seq![("type"@, JsonView::Text("asset_image"@)), ("asset_id"@, at(asset, "id"@))])]
        + Seq::new(variants.len(), |i: int| JsonView::Object(seq![
            ("type"@, JsonView::Text("asset_variant_image"@)),
            ("asset_id"@, at(asset, "id"@)),
            ("variant_id"@, JsonView::Text(variants[i])),
        ]))
}

/// The image jobs of some materials, in order.
pub open spec fn batch_jobs(selected: Seq<JsonView>) -> Seq<JsonView>
    decreases selected.len(),
{
    if selected.len() == 0 {
        Seq::empty()
    } else {
        batch_jobs(selected.drop_last()) + material_jobs(selected.last())
    }
}

/// Whether a material kind has images generated in batches.
pub open spec fn batch_kind(kind: Seq<char>) -> bool {
    kind == "character"@ || kind == "scene"@ || kind == "prop"@
}

/// Whether every material has this kind.
pub open spec fn all_of_kind(selected: Seq<JsonView>, kind: Seq<char>) -> bool {
    forall|k: int| 0 <= k < selected.len() ==> #[trigger] selected[k].get("type"@) == Some(JsonView::Text(kind))
}

/// The image batch a request asks for: the selected materials' kind and
/// the batch task's input, or why the request is refused.
pub open spec fn asset_batch_of(project_id: Seq<char>, values: Entries, assets: Seq<JsonView>) -> Result<(Seq<char>, JsonView), AppErrorView> {
    let requested = distinct_values(match lookup(values, "asset_ids"@) {
        Some(JsonView::Array(items)) => items,
        _ => Seq::empty(),
    });
    let selected = found_materials(assets, requested);
    if requested.len() == 0 {
        Err(AppErrorView::BadRequest("请至少选择一个素材"@))
    } else if selected.len() != requested.len() {
        Err(AppErrorView::NotFound("素材不存在或不属于当前项目"@))
    } else {
        let kind = crate::json::text_or(selected[0], "type"@, Seq::empty());
        if !batch_kind(kind) || !all_of_kind(selected, kind) {
            Err(AppErrorView::BadRequest("生成全部图片时只能选择同一类素材"@))
        } else {
            Ok((kind, JsonView::Object(seq![
                ("project_id"@, JsonView::Text(project_id)),
                ("asset_type"@, JsonView::Text(kind)),
                ("asset_ids"@, JsonView::Array(requested)),
                ("jobs"@, JsonView::Array(batch_jobs(selected))),
                ("batch_size"@, JsonView::Int(5)),
                ("next_index"@, JsonView::Int(0)),
                ("active_task_ids"@, JsonView::Array(Seq::empty())),
                ("completed_count"@, JsonView::Int(0)),
                ("failed_count"@, JsonView::Int(0)),
                ("cancelled_count"@, JsonView::Int(0)),
                ("type"@, JsonView::Text("asset_image_batch"@)),
            ])))
        }
    }
}

pub open spec fn batch_result(r: Result<(String, Json), AppError>) -> Result<(Seq<char>, JsonView), AppErrorView> {
    match r {
        Ok((k, j)) => Ok((k@, j@)),
        Err(e) => Err(e@),
    }
}

fn distinct_of(items: &Vec<Json>) -> (r: Vec<Json>)
    ensures
        view_items(r@) == distinct_values(view_items(items@)),
{
    proof {
        crate::json::lemma_view_items(items@);
    }
    let ghost all = view_items(items@);
    let mut out: Vec<Json> = Vec::new();
    let mut i: usize = 0;
    proof {
        assert(all.subrange(0, 0) =~= Seq::<JsonView>::empty());
        crate::json::lemma_view_items(out@);
    }
    while i < items.len()
        invariant
            i <= items.len(),
            all == view_items(items@),
            all.len() == items.len(),
            forall|k: int| 0 <= k < items.len() ==> #[trigger] all[k] == items@[k]@,
            view_items(out@) == distinct_values(all.subrange(0, i as int)),
        decreases items.len() - i,
    {
        proof {
            let next = all.subrange(0, i + 1);
            assert(next.drop_last() =~= all.subrange(0, i as int));
            assert(next.last() == items@[i as int]@);
        }
        if !contains_value(&out, &items[i]) {
            let copy = crate::json::duplicate(&items[i]);
            let ghost before = out@;
            proof {
                crate::json::lemma_view_items_push(before, copy);
            }
            out.push(copy);
        }
        i += 1;
    }
    proof {
        assert(all.subrange(0, items.len() as int) =~= all);
    }
    out
}

fn material_for<'a>(assets: &'a Vec<Json>, id: &Json) -> (r: Option<&'a Json>)
    ensures
        match r {
            Some(a) => material_with_id(view_items(assets@), id@) == Some(a@),
            None => material_with_id(view_items(assets@), id@) is None,
        },
{
    proof {
        crate::json::lemma_view_items(assets@);
    }
    let ghost all = view_items(assets@);
    let mut i: usize = 0;
    proof {
        assert(all.subrange(0, all.len() as int) =~= all);
    }
    while i < assets.len()
        invariant
            i <= assets.len(),
            all == view_items(assets@),
            all.len() == assets.len(),
            forall|k: int| 0 <= k < assets.len() ==> #[trigger] all[k] == assets@[k]@,
            material_with_id(all, id@) == material_with_id(all.subrange(i as int, all.len() as int), id@),
        decreases assets.len() - i,
    {
        let ghost rest = all.subrange(i as int, all.len() as int);
        proof {
            assert(rest[0] == assets@[i as int]@);
        }
        let own = value_at(&assets[i], "id");
        if json_eq(&own, id) {
            return Some(&assets[i]);
        }
        proof {
            assert(rest.drop_first() =~= all.subrange(i + 1, all.len() as int));
        }
        i += 1;
    }
    proof {
        assert(all.subrange(i as int, all.len() as int) =~= Seq::<JsonView>::empty());
    }
    None
}

fn jobs_of(asset: &Json, jobs: &mut Vec<Json>)
    ensures
        view_items(final(jobs)@) == view_items(old(jobs)@) + material_jobs(asset@),
{
    let empty: Vec<Json> = Vec::new();
    let variants = crate::game_materials::items_at(asset, "variants", &empty);
    let mut ids: Vec<String> = Vec::new();
    proof {
        assert(crate::forms::texts_view(ids@) =~= Seq::<Seq<char>>::empty());
    }
    crate::placeholder::push_ids(variants, &mut ids);
    proof {
        assert(Seq::<Seq<char>>::empty() + crate::placeholder::text_ids(view_items(variants@)) =~= crate::placeholder::text_ids(view_items(variants@)));
    }
    let ghost start = view_items(jobs@);
    let own_entries: Vec<(String, Json)> = vec![
        ("type".to_owned(), Json::Text("asset_image".to_owned())),
        ("asset_id".to_owned(), value_at(asset, "id")),
    ];
    proof {
        crate::json::lemma_view_entries(own_entries@);
        assert(view_entries(own_entries@) =~= seq![("type"@, JsonView::Text("asset_image"@)), ("asset_id"@, at(asset@, "id"@))]);
    }
    let own = Json::Object(own_entries);
    proof {
        crate::json::lemma_view_items_push(jobs@, own);
    }
    jobs.push(own);
    let ghost variant_jobs = material_jobs(asset@);
    let mut i: usize = 0;
    while i < ids.len()
        invariant
            i <= ids.len(),
            crate::forms::texts_view(ids@) == crate::placeholder::text_ids(array_at(asset@, "variants"@)),
            variant_jobs == material_jobs(asset@),
            view_items(jobs@) == start + variant_jobs.subrange(0, i + 1),
        decreases ids.len() - i,
    {
        let entries: Vec<(String, Json)> = vec![
            ("type".to_owned(), Json::Text("asset_variant_image".to_owned())),
            ("asset_id".to_owned(), value_at(asset, "id")),
            ("variant_id".to_owned(), Json::Text(ids[i].clone())),
        ];
        proof {
            crate::json::lemma_view_entries(entries@);
            assert(view_entries(entries@) =~= variant_jobs[i + 1]->Object_0);
        }
        let job = Json::Object(entries);
        let ghost before = jobs@;
        proof {
            crate::json::lemma_view_items_push(before, job);
        }
        jobs.push(job);
        proof {
            assert(view_items(jobs@) =~= start + variant_jobs.subrange(0, i + 2));
        }
        i += 1;
    }
    proof {
        assert(variant_jobs.subrange(0, ids.len() + 1) =~= variant_jobs);
    }
}

fn kind_allowed(kind: &str) -> (r: bool)
    ensures
        r == batch_kind(kind@),
{
    crate::json::str_eq(kind, "character") || crate::json::str_eq(kind, "scene") || crate::json::str_eq(kind, "prop")
}

/// Plan an image batch over the requested materials of a project.
pub fn asset_batch(project_id: &str, values: &Vec<(String, Json)>, assets: &Vec<Json>) -> (r: Result<(String, Json), AppError>)
    ensures
        batch_result(r) == asset_batch_of(project_id@, view_entries(values@), view_items(assets@)),
{
    let empty: Vec<Json> = Vec::new();
    let listed: &Vec<Json> = match entry_get(values, "asset_ids") {
        Some(Json::Array(items)) => items,
        other => {
            proof {
                match other {
                    Some(v) => crate::json::lemma_view_variant(*v),
                    None => {},
                }
                crate::json::lemma_view_items(empty@);
                assert(view_items(empty@) =~= Seq::<JsonView>::empty());
            }
            &empty
        },
    };
    let requested = distinct_of(listed);
    proof {
        crate::json::lemma_view_items(requested@);
    }
    let ghost rv = view_items(requested@);
    let mut selected: Vec<&Json> = Vec::new();
    let mut i: usize = 0;
    proof {
        assert(rv.subrange(0, 0) =~= Seq::<JsonView>::empty());
    }
    while i < requested.len()
        invariant
            i <= requested.len(),
            rv == view_items(requested@),
            rv.len() == requested.len(),
            forall|k: int| 0 <= k < requested.len() ==> #[trigger] rv[k] == requested@[k]@,
            Seq::new(selected@.len(), |k: int| selected@[k]@) == found_materials(view_items(assets@), rv.subrange(0, i as int)),
            selected.len() <= i,
        decreases requested.len() - i,
    {
        proof {
            let next = rv.subrange(0, i + 1);
            assert(next.drop_last() =~= rv.subrange(0, i as int));
            assert(next.last() == requested@[i as int]@);
        }
        let ghost before = selected@;
        if let Some(a) = material_for(assets, &requested[i]) {
            selected.push(a);
            proof {
                assert(Seq::new(selected@.len(), |k: int| selected@[k]@) =~= Seq::new(before.len(), |k: int| before[k]@).push(a@));
            }
        }
        i += 1;
    }
    proof {
        assert(rv.subrange(0, requested.len() as int) =~= rv);
    }
    let ghost sv = Seq::new(selected@.len(), |k: int| selected@[k]@);
    if requested.len() == 0 {
        return Err(AppError::bad_request("请至少选择一个素材"));
    }
    if selected.len() != requested.len() {
        return Err(AppError::NotFound("素材不存在或不属于当前项目".to_owned()));
    }
    proof {
        reveal_strlit("");
        assert(""@ =~= Seq::<char>::empty());
    }
    let kind = selected[0].text_or("type", "");
    if !kind_allowed(kind.as_str()) {
        return Err(AppError::bad_request("生成全部图片时只能选择同一类素材"));
    }
    let ghost wanted = distinct_values(match lookup(view_entries(values@), "asset_ids"@) {
        Some(JsonView::Array(items)) => items,
        _ => Seq::empty(),
    });
    proof {
        assert(rv == wanted);
        assert(sv == found_materials(view_items(assets@), rv));
    }
    let mut j: usize = 0;
    while j < selected.len()
        invariant
            j <= selected.len(),
            sv == Seq::new(selected@.len(), |k: int| selected@[k]@),
            rv == wanted,
            rv.len() > 0,
            sv.len() == rv.len(),
            sv == found_materials(view_items(assets@), rv),
            kind@ == crate::json::text_or(sv[0], "type"@, Seq::empty()),
            batch_kind(kind@),
            wanted == distinct_values(match lookup(view_entries(values@), "asset_ids"@) {
                Some(JsonView::Array(items)) => items,
                _ => Seq::empty(),
            }),
            forall|k: int| 0 <= k < j ==> #[trigger] sv[k].get("type"@) == Some(JsonView::Text(kind@)),
        decreases selected.len() - j,
    {
        if !crate::placeholder::has_text(selected[j].get("type"), kind.as_str()) {
            proof {
                assert(sv[j as int].get("type"@) != Some(JsonView::Text(kind@)));
                assert(!all_of_kind(sv, kind@));
            }
            return Err(AppError::bad_request("生成全部图片时只能选择同一类素材"));
        }
        j += 1;
    }
    let mut jobs: Vec<Json> = Vec::new();
    let mut s: usize = 0;
    proof {
        crate::json::lemma_view_items(jobs@);
        assert(sv.subrange(0, 0) =~= Seq::<JsonView>::empty());
    }
    while s < selected.len()
        invariant
            s <= selected.len(),
            sv == Seq::new(selected@.len(), |k: int| selected@[k]@),
            view_items(jobs@) == batch_jobs(sv.subrange(0, s as int)),
        decreases selected.len() - s,
    {
        proof {
            let next = sv.subrange(0, s + 1);
            assert(next.drop_last() =~= sv.subrange(0, s as int));
            assert(next.last() == selected@[s as int]@);
        }
        jobs_of(selected[s], &mut jobs);
        s += 1;
    }
    proof {
        assert(sv.subrange(0, selected.len() as int) =~= sv);
    }
    let entries: Vec<(String, Json)> = vec![
        ("project_id".to_owned(), Json::Text(project_id.to_owned())),
        ("asset_type".to_owned(), Json::Text(kind.clone())),
        ("asset_ids".to_owned(), Json::Array(requested)),
        ("jobs".to_owned(), Json::Array(jobs)),
        ("batch_size".to_owned(), Json::Int(5)),
        ("next_index".to_owned(), Json::Int(0)),
        ("active_task_ids".to_owned(), Json::Array(Vec::new())),
        ("completed_count".to_owned(), Json::Int(0)),
        ("failed_count".to_owned(), Json::Int(0)),
        ("cancelled_count".to_owned(), Json::Int(0)),
        ("type".to_owned(), Json::Text("asset_image_batch".to_owned())),
    ];
    proof {
        crate::json::lemma_view_entries(entries@);
        crate::json::lemma_view_items(Seq::<Json>::empty());
        assert(view_items(Seq::<Json>::empty()) =~= Seq::<JsonView>::empty());
        assert(view_entries(entries@) =~= asset_batch_of(project_id@, view_entries(values@), view_items(assets@))->Ok_0.1->Object_0);
    }
    Ok((kind, Json::Object(entries)))
}

/// Whether a node's reference can have its image generated in one click:
/// a character, scene or prop that has no image yet.
pub open spec fn needs_image(asset: JsonView) -> bool {
    let has_image = match asset.get("image_url"@) {
        Some(JsonView::Text(u)) => crate::text::trimmed(u).len() > 0,
        _ => false,
    };
    let kind = crate::json::text_or(asset, "type"@, ""@);
    !has_image && (kind == "character"@ || kind == "scene"@ || kind == "prop"@)
}

/// Whether a node's reference material still needs its image generated.
pub fn reference_needs_image(asset: &Json) -> (r: bool)
    ensures
        r == needs_image(asset@),
{
    let has_image = match asset.get("image_url") {
        Some(Json::Text(u)) => crate::text::chars_of(crate::text::trim(u.as_str()).as_str()).len() > 0,
        other => {
            proof {
                match other {
                    Some(v) => crate::json::lemma_view_variant(*v),
                    None => {},
                }
            }
            false
        },
    };
    let kind = asset.text_or("type", "");
    let k = kind.as_str();
    !has_image && (crate::json::str_eq(k, "character") || crate::json::str_eq(k, "scene") || crate::json::str_eq(k, "prop"))
}

/// The running image tasks among those a one-click request started, each task once.
pub open spec fn running_tasks(tasks: Seq<JsonView>) -> Seq<JsonView>
    decreases tasks.len(),
{
    if tasks.len() == 0 {
        Seq::empty()
    } else {
        let before = running_tasks(tasks.drop_last());
        let t = tasks.last();
        if at(t, "status"@) == JsonView::Text("生成中"@)
            && !(exists|j: int| 0 <= j < before.len() && #[trigger] at(before[j], "id"@) == at(t, "id"@)) {
            before.push(t)
        } else {
            before
        }
    }
}

/// The outcome of a one-click request for a node's reference images: the
/// running tasks it started, or a refusal when it started none.
pub open spec fn reference_images_outcome(tasks: Seq<JsonView>) -> Result<Seq<JsonView>, AppErrorView> {
    if running_tasks(tasks).len() == 0 {
        Err(AppErrorView::BadRequest("当前已选参考图均已就绪，或没有可一键生成的素材"@))
    } else {
        Ok(running_tasks(tasks))
    }
}

pub open spec fn items_result(r: Result<Vec<Json>, AppError>) -> Result<Seq<JsonView>, AppErrorView> {
    match r {
        Ok(v) => Ok(view_items(v@)),
        Err(e) => Err(e@),
    }
}

/// Gather the tasks a one-click request for a node's reference images started.
pub fn started_reference_tasks(tasks: Vec<Json>) -> (r: Result<Vec<Json>, AppError>)
    ensures
        items_result(r) == reference_images_outcome(view_items(tasks@)),
{
    proof {
        crate::json::lemma_view_items(tasks@);
    }
    let ghost all = view_items(tasks@);
    let mut kept: Vec<Json> = Vec::new();
    let mut i: usize = 0;
    proof {
        crate::json::lemma_view_items(kept@);
        assert(all.subrange(0, 0) =~= Seq::<JsonView>::empty());
    }
    while i < tasks.len()
        invariant
            i <= tasks.len(),
            all == view_items(tasks@),
            all.len() == tasks.len(),
            forall|k: int| 0 <= k < tasks.len() ==> #[trigger] all[k] == tasks@[k]@,
            view_items(kept@) == running_tasks(all.subrange(0, i as int)),
        decreases tasks.len() - i,
    {
        proof {
            let next = all.subrange(0, i + 1);
            assert(next.drop_last() =~= all.subrange(0, i as int));
            assert(next.last() == tasks@[i as int]@);
            crate::json::lemma_view_items(kept@);
        }
        let t = &tasks[i];
        let running = crate::placeholder::has_text(t.get("status"), "生成中");
        proof {
            assert(running == (at(t@, "status"@) == JsonView::Text("生成中"@)));
        }
        if running {
            let id = value_at(t, "id");
            let mut seen = false;
            let mut j: usize = 0;
            while j < kept.len()
                invariant
                    j <= kept.len(),
                    id@ == at(t@, "id"@),
                    seen == exists|k: int| 0 <= k < j && #[trigger] at(kept@[k]@, "id"@) == id@,
                decreases kept.len() - j,
            {
                let other = value_at(&kept[j], "id");
                if json_eq(&other, &id) {
                    seen = true;
                }
                j += 1;
            }
            proof {
                let kv = view_items(kept@);
                assert forall|k: int| 0 <= k < kv.len() implies kv[k] == kept@[k]@ by {}
                if seen {
                    let k = choose|k: int| 0 <= k < kept.len() && #[trigger] at(kept@[k]@, "id"@) == id@;
                    assert(at(kv[k], "id"@) == at(t@, "id"@));
                } else {
                    assert forall|k: int| 0 <= k < kv.len() implies #[trigger] at(kv[k], "id"@) != at(t@, "id"@) by {
                        assert(kv[k] == kept@[k]@);
                    }
                }
            }
            if !seen {
                let copy = crate::json::duplicate(t);
                proof {
                    crate::json::lemma_view_items_push(kept@, copy);
                }
                kept.push(copy);
            }
        }
        i += 1;
    }
    proof {
        assert(all.subrange(0, tasks.len() as int) =~= all);
        crate::json::lemma_view_items(kept@);
    }
    if kept.len() == 0 {
        return Err(AppError::bad_request("当前已选参考图均已就绪，或没有可一键生成的素材"));
    }
    Ok(kept)
}

/// A one-click request reports each running task once, and only running ones.
pub proof fn lemma_reported_tasks_run_once(tasks: Seq<JsonView>)
    ensures
        ({
            let r = running_tasks(tasks);
            &&& forall|i: int| 0 <= i < r.len() ==> #[trigger] at(r[i], "status"@) == JsonView::Text("生成中"@)
            &&& forall|i: int, j: int| 0 <= i < j < r.len() ==> #[trigger] at(r[i], "id"@) != #[trigger] at(r[j], "id"@)
        }),
    decreases tasks.len(),
{
    if tasks.len() > 0 {
        lemma_reported_tasks_run_once(tasks.drop_last());
        let before = running_tasks(tasks.drop_last());
        let t = tasks.last();
        let r = running_tasks(tasks);
        if r.len() > before.len() {
            assert(r == before.push(t));
            assert forall|i: int, j: int| 0 <= i < j < r.len() implies #[trigger] at(r[i], "id"@) != #[trigger] at(r[j], "id"@) by {
                if j == before.len() {
                    assert(r[i] == before[i]);
                    assert(!(at(before[i], "id"@) == at(t, "id"@)));
                } else {
                    assert(r[i] == before[i] && r[j] == before[j]);
                }
            }
            assert forall|i: int| 0 <= i < r.len() implies #[trigger] at(r[i], "status"@) == JsonView::Text("生成中"@) by {
                if i < before.len() {
                    assert(r[i] == before[i]);
                }
            }
        }
    }
}

} // verus!
