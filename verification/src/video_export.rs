//! Video exports: which version of each shot goes into an export, what the
//! export freezes of them, and which finished exports can be downloaded again.

use vstd::prelude::*;

use crate::error::{AppError, AppErrorView};
use crate::game_materials::{pair_get, pair_views};
use crate::json::{entry_get, lookup, view_entries, view_items, Entries, Json, JsonView};
use crate::placeholder::{at, has_text, value_at};
use crate::text::{chars_of, concat3, has_prefix, starts_with, trim, trimmed};

verus! {

/// Whether a shot id already has a chosen version.
pub open spec fn has_shot(pairs: Seq<(Seq<char>, Seq<char>)>, shot: Seq<char>) -> bool {
    exists|k: int| 0 <= k < pairs.len() && #[trigger] pairs[k].0 == shot
}

/// The chosen (shot, version) pairs of the export dialog, in the order given;
/// a selection without a version is skipped.
pub open spec fn selection_pairs(items: Seq<JsonView>) -> Result<Seq<(Seq<char>, Seq<char>)>, AppErrorView>
    decreases items.len(),
{
    if items.len() == 0 {
        Ok(Seq::empty())
    } else {
        match selection_pairs(items.drop_last()) {
            Err(e) => Err(e),
            Ok(done) => {
                let shot = trimmed(crate::json::text_or(items.last(), "shot_id"@, Seq::empty()));
                let version = trimmed(crate::json::text_or(items.last(), "version_id"@, Seq::empty()));
                if shot.len() == 0 {
                    Err(AppErrorView::BadRequest("分镜标识不能为空"@))
                } else if version.len() == 0 {
                    Ok(done)
                } else if has_shot(done, shot) {
                    Err(AppErrorView::BadRequest("同一分镜只能选择一个视频版本"@))
                } else {
                    Ok(done.push((shot, version)))
                }
            },
        }
    }
}

/// The versions the export dialog chose: at least one, at most one per shot.
pub open spec fn export_choice(values: Entries) -> Result<Seq<(Seq<char>, Seq<char>)>, AppErrorView> {
    match lookup(values, "selections"@) {
        Some(JsonView::Array(items)) => match selection_pairs(items) {
            Err(e) => Err(e),
            Ok(pairs) => if pairs.len() == 0 {
                Err(AppErrorView::BadRequest("请至少选择一个已生成的视频版本"@))
            } else {
                Ok(pairs)
            },
        },
        _ => Err(AppErrorView::BadRequest("请至少选择一个已生成的视频版本"@)),
    }
}

pub open spec fn pairs_result(r: Result<Vec<(String, String)>, AppError>) -> Result<Seq<(Seq<char>, Seq<char>)>, AppErrorView> {
    match r {
        Ok(v) => Ok(pair_views(v@)),
        Err(e) => Err(e@),
    }
}

proof fn lemma_selection_error(items: Seq<JsonView>, k: int)
    requires
        0 <= k <= items.len(),
        selection_pairs(items.subrange(0, k)) is Err,
    ensures
        selection_pairs(items) == selection_pairs(items.subrange(0, k)),
    decreases items.len() - k,
{
    if k < items.len() {
        assert(items.drop_last().subrange(0, k) =~= items.subrange(0, k));
        lemma_selection_error(items.drop_last(), k);
    } else {
        assert(items.subrange(0, k) =~= items);
    }
}

fn trimmed_text(item: &Json, key: &str) -> (r: String)
    ensures
        r@ == trimmed(crate::json::text_or(item@, key@, Seq::empty())),
{
    proof {
        reveal_strlit("");
        assert(""@ =~= Seq::<char>::empty());
    }
    let text = item.text_or(key, "");
    trim(text.as_str())
}

fn already_chosen(pairs: &Vec<(String, String)>, shot: &str) -> (r: bool)
    ensures
        r == has_shot(pair_views(pairs@), shot@),
{
    let mut j: usize = 0;
    while j < pairs.len()
        invariant
            j <= pairs.len(),
            forall|k: int| 0 <= k < j ==> #[trigger] pair_views(pairs@)[k].0 != shot@,
        decreases pairs.len() - j,
    {
        if crate::json::str_eq(pairs[j].0.as_str(), shot) {
            proof {
                assert(pair_views(pairs@)[j as int].0 == shot@);
            }
            return true;
        }
        j += 1;
    }
    false
}

/// Read the versions the export dialog chose.
pub fn export_selections(values: &Vec<(String, Json)>) -> (r: Result<Vec<(String, String)>, AppError>)
    ensures
        pairs_result(r) == export_choice(view_entries(values@)),
{
    let items = match entry_get(values, "selections") {
        Some(Json::Array(items)) => items,
        other => {
            proof {
                match other {
                    Some(v) => crate::json::lemma_view_variant(*v),
                    None => {},
                }
            }
            return Err(AppError::bad_request("请至少选择一个已生成的视频版本"));
        },
    };
    proof {
        crate::json::lemma_view_items(items@);
    }
    let ghost all = view_items(items@);
    let mut pairs: Vec<(String, String)> = Vec::new();
    let mut i: usize = 0;
    proof {
        assert(all.subrange(0, 0) =~= Seq::<JsonView>::empty());
        assert(pair_views(pairs@) =~= Seq::<(Seq<char>, Seq<char>)>::empty());
    }
    while i < items.len()
        invariant
            i <= items.len(),
            all == view_items(items@),
            lookup(view_entries(values@), "selections"@) == Some(JsonView::Array(all)),
            all.len() == items.len(),
            forall|k: int| 0 <= k < items.len() ==> #[trigger] all[k] == items@[k]@,
            selection_pairs(all.subrange(0, i as int)) == Ok::<Seq<(Seq<char>, Seq<char>)>, AppErrorView>(pair_views(pairs@)),
        decreases items.len() - i,
    {
        proof {
            let next = all.subrange(0, i + 1);
            assert(next.drop_last() =~= all.subrange(0, i as int));
            assert(next.last() == items@[i as int]@);
        }
        let shot = trimmed_text(&items[i], "shot_id");
        let version = trimmed_text(&items[i], "version_id");
        if chars_of(shot.as_str()).len() == 0 {
            proof {
                lemma_selection_error(all, i + 1);
            }
            return Err(AppError::bad_request("分镜标识不能为空"));
        }
        if chars_of(version.as_str()).len() > 0 {
            if already_chosen(&pairs, shot.as_str()) {
                proof {
                    lemma_selection_error(all, i + 1);
                }
                return Err(AppError::bad_request("同一分镜只能选择一个视频版本"));
            }
            let ghost before = pair_views(pairs@);
            pairs.push((shot, version));
            proof {
                assert(pair_views(pairs@) =~= before.push((pairs@[pairs.len() - 1].0@, pairs@[pairs.len() - 1].1@)));
            }
        }
        i += 1;
    }
    proof {
        assert(all.subrange(0, items.len() as int) =~= all);
    }
    if pairs.len() == 0 {
        return Err(AppError::bad_request("请至少选择一个已生成的视频版本"));
    }
    Ok(pairs)
}

/// A shot of the project, as the export reads it.
#[derive(Debug)]
pub struct ExportShot {
    pub id: String,
    pub episode_id: String,
    pub episode_name: String,
    pub episode_sort_order: i64,
    pub shot_index: i64,
    pub title: String,
}

pub open spec fn shot_ids(shots: Seq<ExportShot>) -> Seq<Seq<char>> {
    Seq::new(shots.len(), |i: int| shots[i].id@)
}

/// The chosen version of each shot, in the project's shot order, as
/// (position among the shots, version id); refused when the project has no
/// shots or a choice names a shot of another project.
pub open spec fn export_order(
    pairs: Seq<(Seq<char>, Seq<char>)>,
    shots: Seq<ExportShot>,
) -> Result<Seq<(int, Seq<char>)>, AppErrorView> {
    if shots.len() == 0 {
        Err(AppErrorView::BadRequest("当前项目没有可导出的视频分镜"@))
    } else if exists|k: int| 0 <= k < pairs.len() && !shot_ids(shots).contains(#[trigger] pairs[k].0) {
        Err(AppErrorView::BadRequest("选择中包含不属于当前项目的分镜"@))
    } else {
        Ok(chosen_in_order(pairs, shots, shots.len() as int))
    }
}

/// The chosen shots among the first `n`, in order.
pub open spec fn chosen_in_order(pairs: Seq<(Seq<char>, Seq<char>)>, shots: Seq<ExportShot>, n: int) -> Seq<(int, Seq<char>)>
    decreases n,
{
    if n <= 0 {
        Seq::empty()
    } else {
        let before = chosen_in_order(pairs, shots, n - 1);
        match pair_get(pairs, shots[n - 1].id@) {
            Some(v) => before.push((n - 1, v)),
            None => before,
        }
    }
}

pub open spec fn order_result(r: Result<Vec<(usize, String)>, AppError>) -> Result<Seq<(int, Seq<char>)>, AppErrorView> {
    match r {
        Ok(v) => Ok(Seq::new(v@.len(), |i: int| (v@[i].0 as int, v@[i].1@))),
        Err(e) => Err(e@),
    }
}

fn lookup_pair(pairs: &Vec<(String, String)>, key: &str) -> (r: Option<String>)
    ensures
        crate::storage::opt_text_view(r) == pair_get(pair_views(pairs@), key@),
{
    crate::game_materials::mapped_asset_id(Some(key), pairs)
}

/// Put the chosen versions in the project's shot order.
pub fn export_plan(pairs: &Vec<(String, String)>, shots: &Vec<ExportShot>) -> (r: Result<Vec<(usize, String)>, AppError>)
    ensures
        order_result(r) == export_order(pair_views(pairs@), shots@),
{
    if shots.len() == 0 {
        return Err(AppError::bad_request("当前项目没有可导出的视频分镜"));
    }
    let mut k: usize = 0;
    while k < pairs.len()
        invariant
            k <= pairs.len(),
            shots.len() > 0,
            forall|x: int| 0 <= x < k ==> shot_ids(shots@).contains(#[trigger] pair_views(pairs@)[x].0),
        decreases pairs.len() - k,
    {
        let mut found = false;
        let mut s: usize = 0;
        while s < shots.len()
            invariant
                s <= shots.len(),
                k < pairs.len(),
                found ==> shot_ids(shots@).contains(pair_views(pairs@)[k as int].0),
                !found ==> forall|y: int| 0 <= y < s ==> #[trigger] shot_ids(shots@)[y] != pair_views(pairs@)[k as int].0,
            decreases shots.len() - s,
        {
            if !found && crate::json::str_eq(shots[s].id.as_str(), pairs[k].0.as_str()) {
                proof {
                    assert(shot_ids(shots@)[s as int] == pair_views(pairs@)[k as int].0);
                }
                found = true;
            }
            s += 1;
        }
        if !found {
            proof {
                assert(shot_ids(shots@).len() == shots.len());
                assert(!shot_ids(shots@).contains(pair_views(pairs@)[k as int].0));
                assert(exists|x: int| 0 <= x < pair_views(pairs@).len() && !shot_ids(shots@).contains(#[trigger] pair_views(pairs@)[x].0));
            }
            return Err(AppError::bad_request("选择中包含不属于当前项目的分镜"));
        }
        k += 1;
    }
    let mut order: Vec<(usize, String)> = Vec::new();
    let mut i: usize = 0;
    while i < shots.len()
        invariant
            i <= shots.len(),
            Seq::new(order@.len(), |j: int| (order@[j].0 as int, order@[j].1@)) == chosen_in_order(pair_views(pairs@), shots@, i as int),
        decreases shots.len() - i,
    {
        let ghost before = order@;
        if let Some(v) = lookup_pair(pairs, shots[i].id.as_str()) {
            order.push((i, v));
            proof {
                assert(Seq::new(order@.len(), |j: int| (order@[j].0 as int, order@[j].1@)) =~= Seq::new(before.len(), |j: int| (before[j].0 as int, before[j].1@)).push((i as int, order@[order.len() - 1].1@)));
            }
        } else {
            proof {
                assert(Seq::new(order@.len(), |j: int| (order@[j].0 as int, order@[j].1@)) =~= Seq::new(before.len(), |j: int| (before[j].0 as int, before[j].1@)));
            }
        }
        i += 1;
    }
    Ok(order)
}

/// A version that can be exported or marked for export: finished, with a video.
pub open spec fn exportable(version: JsonView) -> bool {
    &&& version.get("status"@) == Some(JsonView::Text("生成成功"@))
    &&& match version.get("video_url"@) {
        Some(JsonView::Text(url)) => url.len() > 0,
        _ => false,
    }
}

/// Whether a stored version can be exported.
pub fn exportable_version(version: &Json) -> (r: bool)
    ensures
        r == exportable(version@),
{
    has_text(version.get("status"), "生成成功") && match version.get("video_url") {
        Some(Json::Text(url)) => chars_of(url.as_str()).len() > 0,
        other => {
            proof {
                match other {
                    Some(v) => crate::json::lemma_view_variant(*v),
                    None => {},
                }
            }
            false
        },
    }
}

/// What an export freezes of one shot and its chosen version, or why the
/// version cannot be exported. `version` is the stored version of that shot
/// with the chosen id.
pub open spec fn export_item(shot: ExportShot, version: Option<JsonView>) -> Result<JsonView, AppErrorView> {
    match version {
        Some(v) => if exportable(v) {
            Ok(JsonView::Object(seq![
                ("shot_id"@, JsonView::Text(shot.id@)),
                ("shot_title"@, JsonView::Text(shot.title@)),
                ("shot_index"@, JsonView::Int(shot.shot_index)),
                ("episode_id"@, JsonView::Text(shot.episode_id@)),
                ("episode_name"@, JsonView::Text(shot.episode_name@)),
                ("episode_sort_order"@, JsonView::Int(shot.episode_sort_order)),
                ("version_id"@, at(v, "id"@)),
                ("version_no"@, at(v, "version_no"@)),
                ("video_url"@, at(v, "video_url"@)),
            ]))
        } else {
            Err(AppErrorView::BadRequest("分镜「"@ + shot.title@ + "」选择的视频不可导出"@))
        },
        None => Err(AppErrorView::BadRequest("分镜「"@ + shot.title@ + "」选择的视频不可导出"@)),
    }
}

/// Freeze one shot's chosen version into the export.
pub fn export_entry(shot: &ExportShot, version: Option<&Json>) -> (r: Result<Json, AppError>)
    ensures
        crate::frame_references::json_result(r) == export_item(*shot, crate::game_state::opt_ref_json(version)),
{
    let v = match version {
        Some(v) => if exportable_version(v) {
            v
        } else {
            return Err(AppError::BadRequest(concat3("分镜「", shot.title.as_str(), "」选择的视频不可导出")));
        },
        None => return Err(AppError::BadRequest(concat3("分镜「", shot.title.as_str(), "」选择的视频不可导出"))),
    };
    let entries: Vec<(String, Json)> = vec![
        ("shot_id".to_owned(), Json::Text(shot.id.clone())),
        ("shot_title".to_owned(), Json::Text(shot.title.clone())),
        ("shot_index".to_owned(), Json::Int(shot.shot_index)),
        ("episode_id".to_owned(), Json::Text(shot.episode_id.clone())),
        ("episode_name".to_owned(), Json::Text(shot.episode_name.clone())),
        ("episode_sort_order".to_owned(), Json::Int(shot.episode_sort_order)),
        ("version_id".to_owned(), value_at(v, "id")),
        ("version_no".to_owned(), value_at(v, "version_no")),
        ("video_url".to_owned(), value_at(v, "video_url")),
    ];
    proof {
        crate::json::lemma_view_entries(entries@);
        assert(view_entries(entries@) =~= export_item(*shot, Some(v@))->Ok_0->Object_0);
    }
    Ok(Json::Object(entries))
}

/// A finished export listed for download again: one kept in the cloud, or
/// one of older exports whose archive URL is a web address.
pub open spec fn history_item(task: JsonView) -> Option<JsonView> {
    let destination = at(at(task, "input_snapshot"@), "destination"@);
    let result = at(task, "result"@);
    let kept = destination == JsonView::Text("cloud"@) || (destination == JsonView::Null && match at(result, "url"@) {
        JsonView::Text(u) => has_prefix(u, "http://"@) || has_prefix(u, "https://"@),
        _ => false,
    });
    match at(result, "url"@) {
        JsonView::Text(url) => if kept {
            Some(JsonView::Object(seq![
                ("task_id"@, at(task, "id"@)),
                ("url"@, JsonView::Text(url)),
                ("file_name"@, at(result, "file_name"@)),
                ("created_at"@, at(task, "created_at"@)),
                ("completed_at"@, at(task, "completed_at"@)),
            ]))
        } else {
            None
        },
        _ => None,
    }
}

/// The downloadable exports among finished export tasks, in the given order.
pub open spec fn history_items(tasks: Seq<JsonView>) -> Seq<JsonView>
    decreases tasks.len(),
{
    if tasks.len() == 0 {
        Seq::empty()
    } else {
        let before = history_items(tasks.drop_last());
        match history_item(tasks.last()) {
            Some(item) => before.push(item),
            None => before,
        }
    }
}

fn history_entry(task: &Json) -> (r: Option<Json>)
    ensures
        crate::json::opt_json(r) == history_item(task@),
{
    let snapshot = value_at(task, "input_snapshot");
    let destination = value_at(&snapshot, "destination");
    let result = value_at(task, "result");
    let url = value_at(&result, "url");
    let web = match &url {
        Json::Text(u) => starts_with(u.as_str(), "http://") || starts_with(u.as_str(), "https://"),
        _ => false,
    };
    let cloud = match &destination {
        Json::Text(d) => crate::json::str_eq(d.as_str(), "cloud"),
        _ => false,
    };
    let kept = cloud || (destination.is_null() && web);
    match url {
        Json::Text(u) => if kept {
            let entries: Vec<(String, Json)> = vec![
                ("task_id".to_owned(), value_at(task, "id")),
                ("url".to_owned(), Json::Text(u)),
                ("file_name".to_owned(), value_at(&result, "file_name")),
                ("created_at".to_owned(), value_at(task, "created_at")),
                ("completed_at".to_owned(), value_at(task, "completed_at")),
            ];
            proof {
                crate::json::lemma_view_entries(entries@);
                assert(view_entries(entries@) =~= history_item(task@)->Some_0->Object_0);
            }
            Some(Json::Object(entries))
        } else {
            None
        },
        _ => None,
    }
}

/// The exports a project can download again, from its finished export tasks (newest first).
pub fn export_history(tasks: &Vec<Json>) -> (r: Vec<Json>)
    ensures
        view_items(r@) == history_items(view_items(tasks@)),
{
    proof {
        crate::json::lemma_view_items(tasks@);
    }
    let ghost all = view_items(tasks@);
    let mut out: Vec<Json> = Vec::new();
    let mut i: usize = 0;
    proof {
        assert(all.subrange(0, 0) =~= Seq::<JsonView>::empty());
        crate::json::lemma_view_items(out@);
    }
    while i < tasks.len()
        invariant
            i <= tasks.len(),
            all == view_items(tasks@),
            all.len() == tasks.len(),
            forall|k: int| 0 <= k < tasks.len() ==> #[trigger] all[k] == tasks@[k]@,
            view_items(out@) == history_items(all.subrange(0, i as int)),
        decreases tasks.len() - i,
    {
        proof {
            let next = all.subrange(0, i + 1);
            assert(next.drop_last() =~= all.subrange(0, i as int));
            assert(next.last() == tasks@[i as int]@);
        }
        if let Some(item) = history_entry(&tasks[i]) {
            let ghost before = out@;
            proof {
                crate::json::lemma_view_items_push(before, item);
            }
            out.push(item);
        }
        i += 1;
    }
    proof {
        assert(all.subrange(0, tasks.len() as int) =~= all);
    }
    out
}

/// Whether a stored version of a shot has this id.
pub open spec fn has_version_id(version: JsonView, version_id: Seq<char>) -> bool {
    version.get("id"@) == Some(JsonView::Text(version_id))
}

/// Marking one version of a shot for export: the flag every stored version
/// of the shot then carries (only the marked one is set), or a refusal when
/// the shot has no finished version with a video under that id.
pub open spec fn export_marks(versions: Seq<JsonView>, version_id: Seq<char>) -> Result<Seq<bool>, AppErrorView> {
    if exists|k: int| 0 <= k < versions.len() && has_version_id(#[trigger] versions[k], version_id) && exportable(versions[k]) {
        Ok(Seq::new(versions.len(), |k: int| has_version_id(versions[k], version_id)))
    } else {
        Err(AppErrorView::BadRequest("只能标记已生成完成的视频版本"@))
    }
}

pub open spec fn marks_result(r: Result<Vec<bool>, AppError>) -> Result<Seq<bool>, AppErrorView> {
    match r {
        Ok(m) => Ok(m@),
        Err(e) => Err(e@),
    }
}

/// Mark one version of a shot for export, given the shot's stored versions.
pub fn mark_for_export(versions: &Vec<Json>, version_id: &str) -> (r: Result<Vec<bool>, AppError>)
    ensures
        marks_result(r) == export_marks(view_items(versions@), version_id@),
{
    proof {
        crate::json::lemma_view_items(versions@);
    }
    let ghost all = view_items(versions@);
    let mut marks: Vec<bool> = Vec::new();
    let mut found = false;
    let mut i: usize = 0;
    while i < versions.len()
        invariant
            i <= versions.len(),
            all.len() == versions.len(),
            forall|k: int| 0 <= k < versions.len() ==> #[trigger] all[k] == versions@[k]@,
            marks@ =~= Seq::new(i as nat, |k: int| has_version_id(all[k], version_id@)),
            found == exists|k: int| 0 <= k < i && has_version_id(#[trigger] all[k], version_id@) && exportable(all[k]),
        decreases versions.len() - i,
    {
        let same = has_text(versions[i].get("id"), version_id);
        if same && exportable_version(&versions[i]) {
            found = true;
        }
        marks.push(same);
        proof {
            if found && !(same && exportable(all[i as int])) {
                let w = choose|k: int| 0 <= k < i && has_version_id(#[trigger] all[k], version_id@) && exportable(all[k]);
                assert(0 <= w < i + 1 && has_version_id(all[w], version_id@) && exportable(all[w]));
            }
            if same && exportable(all[i as int]) {
                assert(has_version_id(all[i as int], version_id@));
            }
        }
        i += 1;
    }
    if found {
        Ok(marks)
    } else {
        Err(AppError::bad_request("只能标记已生成完成的视频版本"))
    }
}

/// Marking a version for export flags exactly that version of the shot:
/// when the shot's versions have distinct ids, a mark that succeeds sets one
/// flag, on a finished version with a video, and clears all others; a mark
/// that is refused names no such version, and changes no flag.
pub proof fn lemma_one_version_is_marked(versions: Seq<JsonView>, version_id: Seq<char>)
    requires
        forall|i: int, j: int| 0 <= i < j < versions.len() ==> versions[i].get("id"@) != versions[j].get("id"@),
    ensures
        export_marks(versions, version_id) matches Ok(m) ==> {
            &&& m.len() == versions.len()
            &&& exists|k: int| #![trigger m[k]] 0 <= k < m.len() && m[k] && exportable(versions[k]) && has_version_id(versions[k], version_id)
                && forall|j: int| 0 <= j < m.len() && m[j] ==> j == k
        },
        export_marks(versions, version_id) is Err ==> forall|k: int|
            0 <= k < versions.len() && #[trigger] has_version_id(versions[k], version_id) ==> !exportable(versions[k]),
{
    if export_marks(versions, version_id) is Ok {
        let m = export_marks(versions, version_id)->Ok_0;
        let k = choose|k: int| 0 <= k < versions.len() && has_version_id(#[trigger] versions[k], version_id) && exportable(versions[k]);
        assert(m[k]);
        assert forall|j: int| 0 <= j < m.len() && m[j] implies j == k by {
            if j < k {
                assert(versions[j].get("id"@) != versions[k].get("id"@));
            } else if j > k {
                assert(versions[k].get("id"@) != versions[j].get("id"@));
            }
        }
    }
}

/// An export entry freezes its shot and chosen version field by field: it
/// exists exactly when a version is chosen that finished with a video, and
/// then its shot id, title, shot index, episode id, episode name and episode
/// sort order are the shot's own, and its version id, number and video URL
/// are the version's.
pub proof fn lemma_export_entry_carries_its_shot(shot: ExportShot, version: Option<JsonView>)
    ensures
        export_item(shot, version) is Ok <==> (version matches Some(v) && exportable(v)),
        export_item(shot, version) matches Ok(e) ==> {
            let v = version->Some_0;
            &&& e.get("shot_id"@) == Some(JsonView::Text(shot.id@))
            &&& e.get("shot_title"@) == Some(JsonView::Text(shot.title@))
            &&& e.get("shot_index"@) == Some(JsonView::Int(shot.shot_index))
            &&& e.get("episode_id"@) == Some(JsonView::Text(shot.episode_id@))
            &&& e.get("episode_name"@) == Some(JsonView::Text(shot.episode_name@))
            &&& e.get("episode_sort_order"@) == Some(JsonView::Int(shot.episode_sort_order))
            &&& e.get("version_id"@) == Some(at(v, "id"@))
            &&& e.get("version_no"@) == Some(at(v, "version_no"@))
            &&& e.get("video_url"@) == Some(at(v, "video_url"@))
        },
{
    reveal_strlit("shot_id");
    reveal_strlit("shot_title");
    reveal_strlit("shot_index");
    reveal_strlit("episode_id");
    reveal_strlit("episode_name");
    reveal_strlit("episode_sort_order");
    reveal_strlit("version_id");
    reveal_strlit("version_no");
    reveal_strlit("video_url");
    if export_item(shot, version) is Ok {
        let e = export_item(shot, version)->Ok_0->Object_0;
        assert forall|i: int, j: int| 0 <= j < i < 9 implies #[trigger] e[j].0 != #[trigger] e[i].0 by {
            assert(e[j].0.len() != e[i].0.len() || e[j].0[0] != e[i].0[0] || e[j].0[5] != e[i].0[5] || e[j].0[8] != e[i].0[8]);
        }
        assert forall|i: int| 0 <= i < 9 implies crate::json::lookup(e, #[trigger] e[i].0) == Some(e[i].1) by {
            assert forall|j: int| 0 <= j < i implies e[j].0 != e[i].0 by {
                assert(e[j].0 != e[i].0);
            }
            crate::json::lemma_lookup_found(e, e[i].0, i);
        }
        assert(crate::json::lookup(e, e[0].0) == Some(e[0].1));
        assert(crate::json::lookup(e, e[1].0) == Some(e[1].1));
        assert(crate::json::lookup(e, e[2].0) == Some(e[2].1));
        assert(crate::json::lookup(e, e[3].0) == Some(e[3].1));
        assert(crate::json::lookup(e, e[4].0) == Some(e[4].1));
        assert(crate::json::lookup(e, e[5].0) == Some(e[5].1));
        assert(crate::json::lookup(e, e[6].0) == Some(e[6].1));
        assert(crate::json::lookup(e, e[7].0) == Some(e[7].1));
        assert(crate::json::lookup(e, e[8].0) == Some(e[8].1));
    }
}

/// An export task belongs to the project and is an export.
pub open spec fn export_task_owned(task: JsonView, project_id: Seq<char>) -> bool {
    task.get("project_id"@) == Some(JsonView::Text(project_id)) && task.get("type"@) == Some(JsonView::Text("drama_video_export"@))
}

/// Check that a task is an export of this project.
pub fn check_export_task(task: &Json, project_id: &str) -> (r: Result<(), AppError>)
    ensures
        crate::error::unit_result(r) == if export_task_owned(task@, project_id@) {
            Ok::<(), AppErrorView>(())
        } else {
            Err(AppErrorView::NotFound("视频导出任务不存在"@))
        },
{
    if has_text(task.get("project_id"), project_id) && has_text(task.get("type"), "drama_video_export") {
        Ok(())
    } else {
        Err(AppError::NotFound("视频导出任务不存在".to_owned()))
    }
}

proof fn lemma_selection_pairs_distinct(items: Seq<JsonView>)
    ensures
        selection_pairs(items) is Ok ==> {
            let p = selection_pairs(items)->Ok_0;
            &&& forall|i: int, j: int| 0 <= i < j < p.len() ==> p[i].0 != p[j].0
            &&& forall|i: int| 0 <= i < p.len() ==> p[i].0.len() > 0 && p[i].1.len() > 0
        },
    decreases items.len(),
{
    if items.len() > 0 {
        lemma_selection_pairs_distinct(items.drop_last());
        if selection_pairs(items) is Ok {
            let done = selection_pairs(items.drop_last())->Ok_0;
            let p = selection_pairs(items)->Ok_0;
            assert forall|i: int, j: int| 0 <= i < j < p.len() implies p[i].0 != p[j].0 by {
                if j == done.len() {
                    assert(done[i].0 == p[i].0);
                }
            }
        }
    }
}

/// An export takes at most one version of each shot, and every choice names
/// a shot and a version.
pub proof fn lemma_export_takes_one_version_per_shot(values: Entries)
    requires
        export_choice(values) is Ok,
    ensures
        ({
            let p = export_choice(values)->Ok_0;
            &&& p.len() > 0
            &&& forall|i: int, j: int| 0 <= i < j < p.len() ==> p[i].0 != p[j].0
            &&& forall|i: int| 0 <= i < p.len() ==> p[i].0.len() > 0 && p[i].1.len() > 0
        }),
{
    if let Some(JsonView::Array(items)) = lookup(values, "selections"@) {
        lemma_selection_pairs_distinct(items);
    }
}

} // verus!
