//! The video history of a game node: which generated video plays, and which
//! selection survives when the history changes.

use vstd::prelude::*;

use crate::error::{AppError, AppErrorView};
use crate::json::{view_items, Json, JsonView};

verus! {

/// The task status of a finished generation.
pub open spec fn succeeded() -> Seq<char> {
    "生成成功"@
}

/// A history entry that finished and holds a video URL.
pub open spec fn finished_video(item: JsonView) -> bool {
    &&& item.get("status"@) == Some(JsonView::Text(succeeded()))
    &&& match item.get("url"@) {
        Some(JsonView::Text(u)) => u.len() > 0,
        _ => false,
    }
}

/// A finished video with the given id.
pub open spec fn playable(item: JsonView, video_id: Seq<char>) -> bool {
    item.get("id"@) == Some(JsonView::Text(video_id)) && finished_video(item)
}

/// The first playable history entry with this id.
pub open spec fn playable_entry(history: Seq<JsonView>, video_id: Seq<char>) -> Option<JsonView>
    decreases history.len(),
{
    if history.len() == 0 {
        None
    } else if playable(history[0], video_id) {
        Some(history[0])
    } else {
        playable_entry(history.drop_first(), video_id)
    }
}

/// The latest finished video of a history.
pub open spec fn latest_finished(history: Seq<JsonView>) -> Option<JsonView>
    decreases history.len(),
{
    if history.len() == 0 {
        None
    } else if finished_video(history.last()) {
        Some(history.last())
    } else {
        latest_finished(history.drop_last())
    }
}

fn is_finished(item: &Json) -> (r: bool)
    ensures
        r == finished_video(item@),
{
    let done = match item.get("status") {
        Some(Json::Text(s)) => crate::json::str_eq(s.as_str(), "生成成功"),
        other => {
            proof {
                match other {
                    Some(v) => crate::json::lemma_view_variant(*v),
                    None => {},
                }
            }
            false
        },
    };
    let has_url = match item.get("url") {
        Some(Json::Text(u)) => crate::text::chars_of(u.as_str()).len() > 0,
        other => {
            proof {
                match other {
                    Some(v) => crate::json::lemma_view_variant(*v),
                    None => {},
                }
            }
            false
        },
    };
    done && has_url
}

pub open spec fn opt_ref(o: Option<&Json>) -> Option<JsonView> {
    crate::game_state::opt_ref_json(o)
}

/// The history entry of a video that can be played.
pub fn playable_history_video<'a>(history: &'a Vec<Json>, video_id: &str) -> (r: Option<&'a Json>)
    ensures
        opt_ref(r) == playable_entry(view_items(history@), video_id@),
{
    proof {
        crate::json::lemma_view_items(history@);
    }
    let ghost all = view_items(history@);
    let mut i: usize = 0;
    proof {
        assert(all.subrange(0, all.len() as int) =~= all);
    }
    while i < history.len()
        invariant
            i <= history.len(),
            all == view_items(history@),
            all.len() == history.len(),
            forall|k: int| 0 <= k < history.len() ==> #[trigger] all[k] == history@[k]@,
            playable_entry(all, video_id@) == playable_entry(all.subrange(i as int, all.len() as int), video_id@),
        decreases history.len() - i,
    {
        let ghost rest = all.subrange(i as int, all.len() as int);
        proof {
            assert(rest[0] == history@[i as int]@);
        }
        let same_id = match history[i].get("id") {
            Some(Json::Text(id)) => crate::json::str_eq(id.as_str(), video_id),
            other => {
                proof {
                    match other {
                        Some(v) => crate::json::lemma_view_variant(*v),
                        None => {},
                    }
                }
                false
            },
        };
        if same_id && is_finished(&history[i]) {
            return Some(&history[i]);
        }
        proof {
            assert(rest.drop_first() =~= all.subrange(i + 1, all.len() as int));
        }
        i += 1;
    }
    proof {
        assert(all.subrange(i as int, all.len() as int) =~= Seq::<JsonView>::empty());
    }
    None
}

/// Keep a selected video only while it can still be played.
pub fn retained_selected_video_id(history: &Vec<Json>, selected_video_id: Option<String>) -> (r: Option<String>)
    ensures
        crate::storage::opt_text_view(r) == match selected_video_id {
            Some(id) => if playable_entry(view_items(history@), id@) is Some {
                Some(id@)
            } else {
                None
            },
            None => None,
        },
{
    match selected_video_id {
        Some(id) => if playable_history_video(history, id.as_str()).is_some() {
            Some(id)
        } else {
            None
        },
        None => None,
    }
}

/// The video a node plays: the selected one when it can be played, else the latest finished one.
pub open spec fn current_video(history: Seq<JsonView>, selected: Option<Seq<char>>) -> Option<JsonView> {
    match selected {
        Some(id) => match playable_entry(history, id) {
            Some(v) => Some(v),
            None => latest_finished(history),
        },
        None => latest_finished(history),
    }
}

/// The video a node plays.
pub fn current_history_video<'a>(history: &'a Vec<Json>, selected_video_id: Option<&str>) -> (r: Option<&'a Json>)
    ensures
        opt_ref(r) == current_video(view_items(history@), crate::graph::opt_text(selected_video_id)),
{
    if let Some(id) = selected_video_id {
        if let Some(v) = playable_history_video(history, id) {
            return Some(v);
        }
    }
    proof {
        crate::json::lemma_view_items(history@);
    }
    let ghost all = view_items(history@);
    let mut i = history.len();
    proof {
        assert(all.subrange(0, all.len() as int) =~= all);
    }
    while i > 0
        invariant
            i <= history.len(),
            all == view_items(history@),
            all.len() == history.len(),
            forall|k: int| 0 <= k < history.len() ==> #[trigger] all[k] == history@[k]@,
            latest_finished(all) == latest_finished(all.subrange(0, i as int)),
            current_video(all, crate::graph::opt_text(selected_video_id)) == latest_finished(all),
        decreases i,
    {
        let ghost prefix = all.subrange(0, i as int);
        proof {
            assert(prefix.last() == history@[i - 1]@);
        }
        if is_finished(&history[i - 1]) {
            return Some(&history[i - 1]);
        }
        proof {
            assert(prefix.drop_last() =~= all.subrange(0, i - 1));
        }
        i -= 1;
    }
    proof {
        assert(all.subrange(0, 0) =~= Seq::<JsonView>::empty());
    }
    None
}

/// The video history stored as JSON text: its entries when it is an array, else none.
pub fn stored_history(raw: &str) -> (r: Vec<Json>)
    ensures
        view_items(r@) == crate::frame_references::history_items(raw@),
{
    match crate::json::parse_json(raw) {
        Some(Json::Array(items)) => items,
        other => {
            proof {
                match other {
                    Some(v) => crate::json::lemma_view_variant(v),
                    None => {},
                }
                crate::json::lemma_view_items(Seq::<Json>::empty());
                assert(view_items(Seq::<Json>::empty()) =~= Seq::<JsonView>::empty());
            }
            Vec::new()
        },
    }
}

/// The history entry with this id.
pub open spec fn entry_with_id(history: Seq<JsonView>, video_id: Seq<char>) -> Option<JsonView>
    decreases history.len(),
{
    if history.len() == 0 {
        None
    } else if history[0].get("id"@) == Some(JsonView::Text(video_id)) {
        Some(history[0])
    } else {
        entry_with_id(history.drop_first(), video_id)
    }
}

/// The history without the entries with this id.
pub open spec fn without_id(history: Seq<JsonView>, video_id: Seq<char>) -> Seq<JsonView>
    decreases history.len(),
{
    if history.len() == 0 {
        Seq::empty()
    } else {
        let before = without_id(history.drop_last(), video_id);
        if history.last().get("id"@) == Some(JsonView::Text(video_id)) {
            before
        } else {
            before.push(history.last())
        }
    }
}

/// The selection a history keeps: the selected id while it can still be played.
pub open spec fn kept_selection(history: Seq<JsonView>, selected: Option<Seq<char>>) -> Option<Seq<char>> {
    match selected {
        Some(id) => if playable_entry(history, id) is Some {
            Some(id)
        } else {
            None
        },
        None => None,
    }
}

/// The URL a node plays after its history changes.
pub open spec fn playing_url(history: Seq<JsonView>, selected: Option<Seq<char>>) -> Option<Seq<char>> {
    match current_video(history, kept_selection(history, selected)) {
        Some(v) => match v.get("url"@) {
            Some(JsonView::Text(u)) => Some(u),
            _ => None,
        },
        None => None,
    }
}

/// A node's stored video state after its history changes.
#[derive(Debug)]
pub struct NodeVideoState {
    pub history: Vec<Json>,
    pub selected_video_id: Option<String>,
    pub video_url: Option<String>,
}

pub struct NodeVideoStateView {
    pub history: Seq<JsonView>,
    pub selected_video_id: Option<Seq<char>>,
    pub video_url: Option<Seq<char>>,
}

pub open spec fn state_view(s: NodeVideoState) -> NodeVideoStateView {
    NodeVideoStateView {
        history: view_items(s.history@),
        selected_video_id: crate::storage::opt_text_view(s.selected_video_id),
        video_url: crate::storage::opt_text_view(s.video_url),
    }
}

/// The state of a node whose history is now `history`.
pub open spec fn state_after(history: Seq<JsonView>, selected: Option<Seq<char>>) -> NodeVideoStateView {
    NodeVideoStateView {
        history,
        selected_video_id: kept_selection(history, selected),
        video_url: playing_url(history, selected),
    }
}

fn settle(history: Vec<Json>, selected: Option<String>) -> (r: NodeVideoState)
    ensures
        state_view(r) == state_after(view_items(history@), crate::storage::opt_text_view(selected)),
{
    let kept = retained_selected_video_id(&history, selected);
    let url = {
        let playing = match &kept {
            Some(id) => current_history_video(&history, Some(id.as_str())),
            None => current_history_video(&history, None),
        };
        match playing {
            Some(v) => match v.get("url") {
                Some(Json::Text(u)) => Some(u.clone()),
                other => {
                    proof {
                        match other {
                            Some(x) => crate::json::lemma_view_variant(*x),
                            None => {},
                        }
                    }
                    None
                },
            },
            None => None,
        }
    };
    NodeVideoState { history, selected_video_id: kept, video_url: url }
}

/// Deleting a history video: the deleted entry's URL and the node's new
/// state, or a refusal when the history has no video with that id.
pub open spec fn deletion_of(history: Seq<JsonView>, selected: Option<Seq<char>>, video_id: Seq<char>) -> Result<(JsonView, NodeVideoStateView), AppErrorView> {
    match entry_with_id(history, video_id) {
        None => Err(AppErrorView::NotFound("Game video history not found: "@ + video_id)),
        Some(removed) => Ok((
            crate::placeholder::at(removed, "url"@),
            state_after(without_id(history, video_id), selected),
        )),
    }
}

pub open spec fn deletion_result(r: Result<(Json, NodeVideoState), AppError>) -> Result<(JsonView, NodeVideoStateView), AppErrorView> {
    match r {
        Ok((u, s)) => Ok((u@, state_view(s))),
        Err(e) => Err(e@),
    }
}

fn find_entry<'a>(history: &'a Vec<Json>, video_id: &str) -> (r: Option<&'a Json>)
    ensures
        match r {
            Some(v) => entry_with_id(view_items(history@), video_id@) == Some(v@),
            None => entry_with_id(view_items(history@), video_id@) is None,
        },
{
    proof {
        crate::json::lemma_view_items(history@);
    }
    let ghost all = view_items(history@);
    let mut i: usize = 0;
    proof {
        assert(all.subrange(0, all.len() as int) =~= all);
    }
    while i < history.len()
        invariant
            i <= history.len(),
            all == view_items(history@),
            all.len() == history.len(),
            forall|k: int| 0 <= k < history.len() ==> #[trigger] all[k] == history@[k]@,
            entry_with_id(all, video_id@) == entry_with_id(all.subrange(i as int, all.len() as int), video_id@),
        decreases history.len() - i,
    {
        let ghost rest = all.subrange(i as int, all.len() as int);
        proof {
            assert(rest[0] == history@[i as int]@);
        }
        if crate::placeholder::has_text(history[i].get("id"), video_id) {
            return Some(&history[i]);
        }
        proof {
            assert(rest.drop_first() =~= all.subrange(i + 1, all.len() as int));
        }
        i += 1;
    }
    proof {
        assert(all.subrange(i as int, all.len() as int) =~= Seq::<JsonView>::empty());
    }
    None
}

/// Delete one video from a node's history.
pub fn delete_history_video(history: Vec<Json>, selected: Option<String>, video_id: &str) -> (r: Result<(Json, NodeVideoState), AppError>)
    ensures
        deletion_result(r) == deletion_of(view_items(history@), crate::storage::opt_text_view(selected), video_id@),
{
    let removed_url = match find_entry(&history, video_id) {
        Some(v) => crate::placeholder::value_at(v, "url"),
        None => return Err(AppError::NotFound(crate::text::concat("Game video history not found: ", video_id))),
    };
    proof {
        crate::json::lemma_view_items(history@);
    }
    let ghost all = view_items(history@);
    let mut kept: Vec<Json> = Vec::new();
    let mut i: usize = 0;
    proof {
        assert(all.subrange(0, 0) =~= Seq::<JsonView>::empty());
        crate::json::lemma_view_items(kept@);
    }
    while i < history.len()
        invariant
            i <= history.len(),
            all == view_items(history@),
            all.len() == history.len(),
            forall|k: int| 0 <= k < history.len() ==> #[trigger] all[k] == history@[k]@,
            view_items(kept@) == without_id(all.subrange(0, i as int), video_id@),
        decreases history.len() - i,
    {
        proof {
            let next = all.subrange(0, i + 1);
            assert(next.drop_last() =~= all.subrange(0, i as int));
            assert(next.last() == history@[i as int]@);
        }
        if !crate::placeholder::has_text(history[i].get("id"), video_id) {
            let copy = crate::json::duplicate(&history[i]);
            let ghost before = kept@;
            proof {
                crate::json::lemma_view_items_push(before, copy);
            }
            kept.push(copy);
        }
        i += 1;
    }
    proof {
        assert(all.subrange(0, history.len() as int) =~= all);
    }
    Ok((removed_url, settle(kept, selected)))
}

/// The status a node takes after a deletion: finished while it still plays a video.
pub fn status_after_deletion(state: &NodeVideoState) -> (r: &'static str)
    ensures
        r@ == if state.video_url is Some {
            "生成成功"@
        } else {
            "未生成"@
        },
{
    if state.video_url.is_some() {
        "生成成功"
    } else {
        "未生成"
    }
}

/// Whether a finished video task still updates its node: not when the task
/// already ended with a different status.
pub open spec fn finish_applies(task_status: Option<Seq<char>>, status: Seq<char>) -> bool {
    match task_status {
        Some(current) => current == "生成中"@ || current == status,
        None => true,
    }
}

/// Whether a finished video task still updates its node, given the status
/// its task record holds (`None` when the record is gone).
pub fn video_finish_applies(task_status: Option<&str>, status: &str) -> (r: bool)
    ensures
        r == finish_applies(crate::graph::opt_text(task_status), status@),
{
    match task_status {
        Some(current) => crate::text::same_text(current, "生成中") || crate::text::same_text(current, status),
        None => true,
    }
}

/// The history entry a finished video task adds: its result and what its
/// task froze (`snapshot`: prompt, references and refinement).
pub open spec fn finished_entry(
    task_id: Seq<char>,
    url: Option<Seq<char>>,
    generated_at: Seq<char>,
    status: Seq<char>,
    error: Option<Seq<char>>,
    snapshot: JsonView,
) -> JsonView {
    let refinement = crate::placeholder::at(snapshot, "refinement"@);
    JsonView::Object(seq![
        ("id"@, JsonView::Text(task_id)),
        ("url"@, crate::game_graph::text_or_null(url)),
        ("generated_at"@, JsonView::Text(generated_at)),
        ("task_id"@, JsonView::Text(task_id)),
        ("status"@, JsonView::Text(status)),
        ("error_message"@, crate::game_graph::text_or_null(error)),
        ("prompt"@, crate::placeholder::at(snapshot, "prompt"@)),
        ("prompt_rich"@, crate::placeholder::at(snapshot, "prompt_rich"@)),
        ("reference_images"@, crate::placeholder::at(snapshot, "reference_images"@)),
        ("reference_asset_ids"@, crate::placeholder::at(snapshot, "reference_asset_ids"@)),
        ("refinement_prompt"@, crate::placeholder::at(refinement, "prompt"@)),
        ("source_video_id"@, crate::placeholder::at(refinement, "source_video_id"@)),
    ])
}

/// A node's state after a video task finishes: the task's entry is added
/// unless the history already has it.
pub open spec fn finish_of(
    history: Seq<JsonView>,
    selected: Option<Seq<char>>,
    task_id: Seq<char>,
    url: Option<Seq<char>>,
    generated_at: Seq<char>,
    status: Seq<char>,
    error: Option<Seq<char>>,
    snapshot: JsonView,
) -> NodeVideoStateView {
    let with_entry = if entry_with_id(history, task_id) is Some {
        history
    } else {
        history.push(finished_entry(task_id, url, generated_at, status, error, snapshot))
    };
    state_after(with_entry, selected)
}

/// Record a finished video task in its node's history. `snapshot` is what
/// the task froze, `generated_at` the time it finished.
pub fn finish_history_video(
    history: Vec<Json>,
    selected: Option<String>,
    task_id: &str,
    url: Option<&str>,
    generated_at: &str,
    status: &str,
    error: Option<&str>,
    snapshot: &Json,
) -> (r: NodeVideoState)
    ensures
        state_view(r) == finish_of(
            view_items(history@),
            crate::storage::opt_text_view(selected),
            task_id@,
            crate::graph::opt_text(url),
            generated_at@,
            status@,
            crate::graph::opt_text(error),
            snapshot@,
        ),
{
    let mut history = history;
    if find_entry(&history, task_id).is_none() {
        let refinement = crate::placeholder::value_at(snapshot, "refinement");
        let url_value = match url {
            Some(u) => Json::Text(u.to_owned()),
            None => Json::Null,
        };
        let error_value = match error {
            Some(e) => Json::Text(e.to_owned()),
            None => Json::Null,
        };
        let entries: Vec<(String, Json)> = vec![
            ("id".to_owned(), Json::Text(task_id.to_owned())),
            ("url".to_owned(), url_value),
            ("generated_at".to_owned(), Json::Text(generated_at.to_owned())),
            ("task_id".to_owned(), Json::Text(task_id.to_owned())),
            ("status".to_owned(), Json::Text(status.to_owned())),
            ("error_message".to_owned(), error_value),
            ("prompt".to_owned(), crate::placeholder::value_at(snapshot, "prompt")),
            ("prompt_rich".to_owned(), crate::placeholder::value_at(snapshot, "prompt_rich")),
            ("reference_images".to_owned(), crate::placeholder::value_at(snapshot, "reference_images")),
            ("reference_asset_ids".to_owned(), crate::placeholder::value_at(snapshot, "reference_asset_ids")),
            ("refinement_prompt".to_owned(), crate::placeholder::value_at(&refinement, "prompt")),
            ("source_video_id".to_owned(), crate::placeholder::value_at(&refinement, "source_video_id")),
        ];
        proof {
            crate::json::lemma_view_entries(entries@);
            assert(crate::json::view_entries(entries@) =~= finished_entry(
                task_id@,
                crate::graph::opt_text(url),
                generated_at@,
                status@,
                crate::graph::opt_text(error),
                snapshot@,
            )->Object_0);
        }
        let entry = Json::Object(entries);
        proof {
            crate::json::lemma_view_items_push(history@, entry);
        }
        history.push(entry);
    }
    settle(history, selected)
}

/// A node after a video task finishes, given the status the task's record
/// holds: the new state, or `None` when the task already ended with another
/// status and the node is left as it was.
pub open spec fn node_finish(
    task_status: Option<Seq<char>>,
    history: Seq<JsonView>,
    selected: Option<Seq<char>>,
    task_id: Seq<char>,
    url: Option<Seq<char>>,
    generated_at: Seq<char>,
    status: Seq<char>,
    error: Option<Seq<char>>,
    snapshot: JsonView,
) -> Option<NodeVideoStateView> {
    if finish_applies(task_status, status) {
        Some(finish_of(history, selected, task_id, url, generated_at, status, error, snapshot))
    } else {
        None
    }
}

/// Record a finished video task in its node, unless the task's record shows
/// it already ended with another status (`None`: nothing is written). The
/// node's status becomes `status` whenever a state is returned.
pub fn finish_node_video(
    task_status: Option<&str>,
    history: Vec<Json>,
    selected: Option<String>,
    task_id: &str,
    url: Option<&str>,
    generated_at: &str,
    status: &str,
    error: Option<&str>,
    snapshot: &Json,
) -> (r: Option<NodeVideoState>)
    ensures
        match r {
            Some(s) => node_finish(
                crate::graph::opt_text(task_status),
                view_items(history@),
                crate::storage::opt_text_view(selected),
                task_id@,
                crate::graph::opt_text(url),
                generated_at@,
                status@,
                crate::graph::opt_text(error),
                snapshot@,
            ) == Some(state_view(s)),
            None => node_finish(
                crate::graph::opt_text(task_status),
                view_items(history@),
                crate::storage::opt_text_view(selected),
                task_id@,
                crate::graph::opt_text(url),
                generated_at@,
                status@,
                crate::graph::opt_text(error),
                snapshot@,
            ) is None,
        },
{
    if !video_finish_applies(task_status, status) {
        return None;
    }
    Some(finish_history_video(history, selected, task_id, url, generated_at, status, error, snapshot))
}

/// The URL of a history video a creator chooses to use, or why it cannot be used.
pub open spec fn selection_of(history: Seq<JsonView>, video_id: Seq<char>) -> Result<Seq<char>, AppErrorView> {
    match playable_entry(history, video_id) {
        Some(v) => match v.get("url"@) {
            Some(JsonView::Text(u)) => Ok(u),
            _ => Err(AppErrorView::BadRequest("只能设为已生成完成的视频版本"@)),
        },
        None => Err(AppErrorView::BadRequest("只能设为已生成完成的视频版本"@)),
    }
}

/// The URL of the history video a creator chooses to use.
pub fn chosen_video_url(history: &Vec<Json>, video_id: &str) -> (r: Result<String, AppError>)
    ensures
        crate::forms::text_result(r) == selection_of(view_items(history@), video_id@),
{
    match playable_history_video(history, video_id) {
        Some(v) => match v.get("url") {
            Some(Json::Text(u)) => Ok(u.clone()),
            other => {
                proof {
                    match other {
                        Some(x) => crate::json::lemma_view_variant(*x),
                        None => {},
                    }
                }
                Err(AppError::bad_request("只能设为已生成完成的视频版本"))
            },
        },
        None => Err(AppError::bad_request("只能设为已生成完成的视频版本")),
    }
}

/// A node after a creator chooses a history video: the chosen version is
/// selected and its URL plays, or the choice is refused.
pub open spec fn chosen_state_of(history: Seq<JsonView>, video_id: Seq<char>) -> Result<NodeVideoStateView, AppErrorView> {
    match selection_of(history, video_id) {
        Ok(u) => Ok(NodeVideoStateView { history, selected_video_id: Some(video_id), video_url: Some(u) }),
        Err(e) => Err(e),
    }
}

/// Choose a history video of a node for use.
pub fn chosen_node_video(history: Vec<Json>, video_id: &str) -> (r: Result<NodeVideoState, AppError>)
    ensures
        match r {
            Ok(s) => chosen_state_of(view_items(history@), video_id@) == Ok::<NodeVideoStateView, AppErrorView>(state_view(s)),
            Err(e) => chosen_state_of(view_items(history@), video_id@) == Err::<NodeVideoStateView, AppErrorView>(e@),
        },
{
    match chosen_video_url(&history, video_id) {
        Ok(url) => Ok(NodeVideoState { history, selected_video_id: Some(video_id.to_owned()), video_url: Some(url) }),
        Err(e) => Err(e),
    }
}

/// A node's history entry with this id.
pub fn history_record(node: &Json, video_id: &str) -> (r: Result<Json, AppError>)
    ensures
        crate::frame_references::json_result(r) == match entry_with_id(crate::game_materials::array_at(node@, "video_history"@), video_id@) {
            Some(v) => Ok::<JsonView, AppErrorView>(v),
            None => Err(AppErrorView::NotFound("Game video history not found: "@ + video_id@)),
        },
{
    let empty: Vec<Json> = Vec::new();
    let history = crate::game_materials::items_at(node, "video_history", &empty);
    match find_entry(history, video_id) {
        Some(v) => Ok(crate::json::duplicate(v)),
        None => Err(AppError::NotFound(crate::text::concat("Game video history not found: ", video_id))),
    }
}

/// The entry a cancelled video task leaves in its node's history.
pub open spec fn cancelled_entry(task_id: Seq<char>, cancelled_at: Seq<char>) -> JsonView {
    JsonView::Object(seq![
        ("id"@, JsonView::Text(task_id)),
        ("url"@, JsonView::Null),
        ("generated_at"@, JsonView::Text(cancelled_at)),
        ("task_id"@, JsonView::Text(task_id)),
        ("status"@, JsonView::Text("已取消"@)),
        ("error_message"@, JsonView::Text("节点视频生成已取消"@)),
    ])
}

/// Cancelling a node's running video task: the task's id and the history
/// with the cancellation recorded, or a refusal when no task is running.
pub open spec fn cancellation_of(task: Option<JsonView>, history: Seq<JsonView>, cancelled_at: Seq<char>) -> Result<(Seq<char>, Seq<JsonView>), AppErrorView> {
    match task {
        None => Err(AppErrorView::BadRequest("当前节点没有正在生成的视频任务"@)),
        Some(t) => {
            let id = crate::json::text_or(t, "id"@, ""@);
            Ok((id, history.push(cancelled_entry(id, cancelled_at))))
        },
    }
}

pub open spec fn cancellation_result(r: Result<(String, Vec<Json>), AppError>) -> Result<(Seq<char>, Seq<JsonView>), AppErrorView> {
    match r {
        Ok((id, h)) => Ok((id@, view_items(h@))),
        Err(e) => Err(e@),
    }
}

/// Cancel a node's running video task (`None` when none runs), recording the
/// cancellation at `cancelled_at` in the node's history.
pub fn cancel_node_video(task: Option<&Json>, history: Vec<Json>, cancelled_at: &str) -> (r: Result<(String, Vec<Json>), AppError>)
    ensures
        cancellation_result(r) == cancellation_of(crate::game_state::opt_ref_json(task), view_items(history@), cancelled_at@),
{
    let t = match task {
        None => return Err(AppError::bad_request("当前节点没有正在生成的视频任务")),
        Some(t) => t,
    };
    let id = t.text_or("id", "");
    let entries: Vec<(String, Json)> = vec![
        ("id".to_owned(), Json::Text(id.clone())),
        ("url".to_owned(), Json::Null),
        ("generated_at".to_owned(), Json::Text(cancelled_at.to_owned())),
        ("task_id".to_owned(), Json::Text(id.clone())),
        ("status".to_owned(), Json::Text("已取消".to_owned())),
        ("error_message".to_owned(), Json::Text("节点视频生成已取消".to_owned())),
    ];
    proof {
        crate::json::lemma_view_entries(entries@);
        assert(crate::json::view_entries(entries@) =~= cancelled_entry(id@, cancelled_at@)->Object_0);
    }
    let entry = Json::Object(entries);
    let mut history = history;
    proof {
        crate::json::lemma_view_items_push(history@, entry);
    }
    history.push(entry);
    Ok((id, history))
}

/// Deleting a video leaves no entry with its id in the node's history.
pub proof fn lemma_deleted_video_is_gone(history: Seq<JsonView>, video_id: Seq<char>)
    ensures
        entry_with_id(without_id(history, video_id), video_id) is None,
    decreases history.len(),
{
    if history.len() > 0 {
        lemma_deleted_video_is_gone(history.drop_last(), video_id);
        let before = without_id(history.drop_last(), video_id);
        if history.last().get("id"@) != Some(JsonView::Text(video_id)) {
            lemma_entry_after_push(before, history.last(), video_id);
        }
    }
}

proof fn lemma_entry_after_push(history: Seq<JsonView>, item: JsonView, video_id: Seq<char>)
    ensures
        entry_with_id(history.push(item), video_id) == if entry_with_id(history, video_id) is Some {
            entry_with_id(history, video_id)
        } else if item.get("id"@) == Some(JsonView::Text(video_id)) {
            Some(item)
        } else {
            None
        },
    decreases history.len(),
{
    if history.len() > 0 {
        assert(history.push(item)[0] == history[0]);
        assert(history.push(item).drop_first() =~= history.drop_first().push(item));
        lemma_entry_after_push(history.drop_first(), item, video_id);
    } else {
        assert(history.push(item)[0] == item);
        assert(history.push(item).drop_first() =~= Seq::<JsonView>::empty());
        assert(entry_with_id(Seq::<JsonView>::empty(), video_id) is None);
    }
}

/// How many history entries carry this id.
pub open spec fn id_count(history: Seq<JsonView>, video_id: Seq<char>) -> nat
    decreases history.len(),
{
    if history.len() == 0 {
        0
    } else {
        id_count(history.drop_last(), video_id) + if history.last().get("id"@) == Some(JsonView::Text(video_id)) {
            1nat
        } else {
            0nat
        }
    }
}

proof fn lemma_id_count_first(history: Seq<JsonView>, video_id: Seq<char>)
    ensures
        (entry_with_id(history, video_id) is Some) <==> id_count(history, video_id) > 0,
    decreases history.len(),
{
    if history.len() > 0 {
        let rest = history.drop_first();
        lemma_id_count_first(rest, video_id);
        lemma_id_count_first(history.drop_last(), video_id);
        if history.len() > 1 {
            lemma_id_count_first(rest.drop_last(), video_id);
            assert(rest.drop_last() =~= history.drop_last().drop_first());
            assert(rest.last() == history.last());
            lemma_id_count_first(history.drop_last().drop_first(), video_id);
            lemma_id_count_drop_first(history.drop_last(), video_id);
        } else {
            assert(history.drop_last() =~= Seq::<JsonView>::empty());
            assert(rest =~= Seq::<JsonView>::empty());
        }
        lemma_id_count_drop_first(history, video_id);
    }
}

proof fn lemma_id_count_drop_first(history: Seq<JsonView>, video_id: Seq<char>)
    requires
        history.len() > 0,
    ensures
        id_count(history, video_id) == id_count(history.drop_first(), video_id) + if history[0].get("id"@) == Some(JsonView::Text(video_id)) {
            1nat
        } else {
            0nat
        },
    decreases history.len(),
{
    if history.len() == 1 {
        assert(history.drop_last() =~= Seq::<JsonView>::empty());
        assert(history.drop_first() =~= Seq::<JsonView>::empty());
    } else {
        lemma_id_count_drop_first(history.drop_last(), video_id);
        assert(history.drop_first().drop_last() =~= history.drop_last().drop_first());
        assert(history.drop_first().last() == history.last());
        assert(history.drop_last()[0] == history[0]);
    }
}

/// Recording the same finished task once or twice leaves the node the same:
/// the history then holds exactly one entry for the task (when it held at
/// most one before), and the node plays the chosen version while it can be
/// played, else the latest finished one.
pub proof fn lemma_finishing_twice_adds_one_entry(
    history: Seq<JsonView>,
    selected: Option<Seq<char>>,
    task_id: Seq<char>,
    url: Option<Seq<char>>,
    generated_at: Seq<char>,
    later: Seq<char>,
    status: Seq<char>,
    error: Option<Seq<char>>,
    snapshot: JsonView,
)
    ensures
        ({
            let once = finish_of(history, selected, task_id, url, generated_at, status, error, snapshot);
            let twice = finish_of(once.history, once.selected_video_id, task_id, url, later, status, error, snapshot);
            &&& twice == once
            &&& entry_with_id(once.history, task_id) is Some
            &&& id_count(history, task_id) <= 1 ==> id_count(once.history, task_id) == 1
            &&& once.selected_video_id == kept_selection(once.history, selected)
            &&& once.video_url == match current_video(once.history, kept_selection(once.history, selected)) {
                Some(v) => match v.get("url"@) {
                    Some(JsonView::Text(u)) => Some(u),
                    _ => None,
                },
                None => None,
            }
        }),
{
    let once = finish_of(history, selected, task_id, url, generated_at, status, error, snapshot);
    lemma_id_count_first(history, task_id);
    if entry_with_id(history, task_id) is None {
        let entry = finished_entry(task_id, url, generated_at, status, error, snapshot);
        let pushed = history.push(entry);
        assert(entry.get("id"@) == Some(JsonView::Text(task_id)));
        lemma_entry_after_push(history, entry, task_id);
        assert(pushed.drop_last() =~= history);
    }
    let h = once.history;
    assert(kept_selection(h, kept_selection(h, selected)) == kept_selection(h, selected));
    let twice = finish_of(h, once.selected_video_id, task_id, url, later, status, error, snapshot);
    assert(twice.history == h);
}

proof fn lemma_playable_after_push(history: Seq<JsonView>, item: JsonView, video_id: Seq<char>)
    requires
        playable_entry(history, video_id) is Some,
    ensures
        playable_entry(history.push(item), video_id) == playable_entry(history, video_id),
    decreases history.len(),
{
    assert(history.push(item)[0] == history[0]);
    if !playable(history[0], video_id) {
        assert(history.push(item).drop_first() =~= history.drop_first().push(item));
        lemma_playable_after_push(history.drop_first(), item, video_id);
    }
}

/// A finished generation does not replace the version a creator chose:
/// choosing a playable version selects it and plays its URL, and a task that
/// finishes later leaves that choice and that URL in place. A version that
/// cannot be played is refused.
pub proof fn lemma_chosen_version_survives_a_new_video(
    history: Seq<JsonView>,
    chosen: Seq<char>,
    task_id: Seq<char>,
    url: Option<Seq<char>>,
    generated_at: Seq<char>,
    status: Seq<char>,
    error: Option<Seq<char>>,
    snapshot: JsonView,
)
    ensures
        playable_entry(history, chosen) is None ==> selection_of(history, chosen) == Err::<Seq<char>, AppErrorView>(
            AppErrorView::BadRequest("只能设为已生成完成的视频版本"@),
        ),
        selection_of(history, chosen) matches Ok(u) ==> ({
            let picked = state_after(history, Some(chosen));
            let after = finish_of(history, Some(chosen), task_id, url, generated_at, status, error, snapshot);
            &&& picked.selected_video_id == Some(chosen)
            &&& picked.video_url == Some(u)
            &&& after.selected_video_id == Some(chosen)
            &&& after.video_url == Some(u)
        }),
        playable_entry(history, chosen) is Some ==> ({
            let after = finish_of(history, Some(chosen), task_id, url, generated_at, status, error, snapshot);
            &&& after.selected_video_id == Some(chosen)
            &&& after.video_url == match playable_entry(history, chosen)->Some_0.get("url"@) {
                Some(JsonView::Text(u)) => Some(u),
                _ => None,
            }
        }),
{
    if playable_entry(history, chosen) is Some && entry_with_id(history, task_id) is None {
        lemma_playable_after_push(history, finished_entry(task_id, url, generated_at, status, error, snapshot), chosen);
    }
}

/// A finished video task is recorded once: a task whose record still says
/// it runs (or already holds this status, or is gone) updates the node; one
/// that ended with another status leaves the node as it was; and a second
/// report of the same finish, once the task holds its status, changes
/// nothing more.
pub proof fn lemma_a_node_video_is_finished_once(
    task_status: Option<Seq<char>>,
    history: Seq<JsonView>,
    selected: Option<Seq<char>>,
    task_id: Seq<char>,
    url: Option<Seq<char>>,
    generated_at: Seq<char>,
    later: Seq<char>,
    status: Seq<char>,
    error: Option<Seq<char>>,
    snapshot: JsonView,
)
    ensures
        (task_status is None || task_status == Some("生成中"@) || task_status == Some(status))
            <==> node_finish(task_status, history, selected, task_id, url, generated_at, status, error, snapshot) is Some,
        node_finish(task_status, history, selected, task_id, url, generated_at, status, error, snapshot) matches Some(once) ==> {
            &&& node_finish(Some(status), once.history, once.selected_video_id, task_id, url, later, status, error, snapshot) == Some(once)
            &&& entry_with_id(once.history, task_id) is Some
            &&& id_count(history, task_id) <= 1 ==> id_count(once.history, task_id) == 1
        },
{
    lemma_finishing_twice_adds_one_entry(history, selected, task_id, url, generated_at, later, status, error, snapshot);
}

/// Choosing a history video selects it and plays its URL, and a video that
/// finishes later does not replace the choice; a version that cannot be
/// played is refused and the node keeps its state.
pub proof fn lemma_chosen_video_stays_chosen(
    history: Seq<JsonView>,
    chosen: Seq<char>,
    task_id: Seq<char>,
    url: Option<Seq<char>>,
    generated_at: Seq<char>,
    status: Seq<char>,
    error: Option<Seq<char>>,
    snapshot: JsonView,
)
    ensures
        chosen_state_of(history, chosen) matches Ok(picked) ==> {
            let after = finish_of(picked.history, picked.selected_video_id, task_id, url, generated_at, status, error, snapshot);
            &&& picked == state_after(history, Some(chosen))
            &&& after.selected_video_id == Some(chosen)
            &&& after.video_url == picked.video_url
        },
        playable_entry(history, chosen) is None ==> chosen_state_of(history, chosen) == Err::<NodeVideoStateView, AppErrorView>(
            AppErrorView::BadRequest("只能设为已生成完成的视频版本"@),
        ),
{
    lemma_chosen_version_survives_a_new_video(history, chosen, task_id, url, generated_at, status, error, snapshot);
}

} // verus!
