//! Serial video batches: one coordinator that queues the videos of a game's
//! nodes, or of a project's shots, one after another, each starting from the
//! previous video's last frame.
//!
//! The coordinator's decisions live here; reading and writing tasks, saving
//! frames and queueing videos are left to the caller, which hands back what
//! it read.

use vstd::prelude::*;

use crate::error::{AppError, AppErrorView};
use crate::forms::texts_view;
use crate::game_materials::{array_at, list_texts, push_texts};
use crate::json::{
    copy_entries, entry_get, entry_insert, insert_entry, lookup, str_eq, view_entries, view_items,
    Entries, Json, JsonView,
};
use crate::text::{has_prefix, starts_with};

verus! {

/// What a serial batch runs through: a game's nodes or a project's shots.
#[derive(Clone, Copy, Debug)]
pub enum BatchKind {
    GameNodes,
    Shots,
}

/// The status of the video task a batch waits for.
#[derive(Clone, Copy, Debug)]
pub enum ChildStatus {
    Generating,
    Succeeded,
    Failed,
    Cancelled,
    Other,
}

/// How a batch ends.
#[derive(Clone, Copy, Debug)]
pub enum BatchOutcome {
    Succeeded,
    Failed,
    Cancelled,
}

/// What a batch does after one look at its state.
#[derive(Debug)]
pub enum BatchStep {
    /// Nothing to do yet: the batch stays as it is.
    Unchanged,
    /// The batch ends with this outcome, counts and error message.
    Finish { outcome: BatchOutcome, total_count: i64, completed_count: i64, error: Option<String> },
    /// Queue the video of the item at `index`, starting from `first_frame` when there is one.
    Start { index: usize, item_id: String, first_frame: Option<String> },
}

pub enum BatchStepView {
    Unchanged,
    Finish { outcome: BatchOutcome, total_count: i64, completed_count: i64, error: Option<Seq<char>> },
    Start { index: int, item_id: Seq<char>, first_frame: Option<Seq<char>> },
}

impl View for BatchStep {
    type V = BatchStepView;

    open spec fn view(&self) -> BatchStepView {
        match self {
            BatchStep::Unchanged => BatchStepView::Unchanged,
            BatchStep::Finish { outcome, total_count, completed_count, error } => BatchStepView::Finish {
                outcome: *outcome,
                total_count: *total_count,
                completed_count: *completed_count,
                error: crate::storage::opt_text_view(*error),
            },
            BatchStep::Start { index, item_id, first_frame } => BatchStepView::Start {
                index: *index as int,
                item_id: item_id@,
                first_frame: crate::storage::opt_text_view(*first_frame),
            },
        }
    }
}

pub open spec fn task_type_text(kind: BatchKind) -> Seq<char> {
    match kind {
        BatchKind::GameNodes => "serial_game_node_video_batch"@,
        BatchKind::Shots => "serial_shot_video_batch"@,
    }
}

/// The field of a batch task that names its owner.
pub open spec fn owner_key(kind: BatchKind) -> Seq<char> {
    match kind {
        BatchKind::GameNodes => "game_id"@,
        BatchKind::Shots => "drama_id"@,
    }
}

/// The field of a batch's own record that names its owner.
pub open spec fn snapshot_owner_key(kind: BatchKind) -> Seq<char> {
    match kind {
        BatchKind::GameNodes => "game_id"@,
        BatchKind::Shots => "project_id"@,
    }
}

pub open spec fn items_key(kind: BatchKind) -> Seq<char> {
    match kind {
        BatchKind::GameNodes => "node_ids"@,
        BatchKind::Shots => "shot_ids"@,
    }
}

pub open spec fn current_item_key(kind: BatchKind) -> Seq<char> {
    match kind {
        BatchKind::GameNodes => "current_node_id"@,
        BatchKind::Shots => "current_shot_id"@,
    }
}

pub open spec fn not_found_text(kind: BatchKind) -> Seq<char> {
    match kind {
        BatchKind::GameNodes => "串行节点视频批次不存在"@,
        BatchKind::Shots => "串行视频批次不存在"@,
    }
}

pub open spec fn missing_data_text(kind: BatchKind) -> Seq<char> {
    match kind {
        BatchKind::GameNodes => "串行节点视频批次缺少任务数据"@,
        BatchKind::Shots => "串行视频批次缺少任务数据"@,
    }
}

pub open spec fn failed_text(kind: BatchKind) -> Seq<char> {
    match kind {
        BatchKind::GameNodes => "上一节点视频生成失败，串行生成已停止"@,
        BatchKind::Shots => "上一分镜视频生成失败，串行生成已停止"@,
    }
}

pub open spec fn cancelled_text(kind: BatchKind) -> Seq<char> {
    match kind {
        BatchKind::GameNodes => "上一节点视频已取消，串行生成已停止"@,
        BatchKind::Shots => "上一分镜视频已取消，串行生成已停止"@,
    }
}

pub open spec fn frame_text(kind: BatchKind) -> Seq<char> {
    match kind {
        BatchKind::GameNodes => "请先提取上一节点视频的尾帧，再继续串行生成"@,
        BatchKind::Shots => "请先提取上一分镜视频的尾帧，再继续串行生成"@,
    }
}

pub open spec fn empty_text(kind: BatchKind) -> Seq<char> {
    match kind {
        BatchKind::GameNodes => "当前游戏没有可生成视频的节点"@,
        BatchKind::Shots => "当前项目没有可生成视频的分镜"@,
    }
}

impl BatchKind {
    /// The task type of the coordinator.
    pub fn task_type(&self) -> (r: &'static str)
        ensures
            r@ == task_type_text(*self),
    {
        match self {
            BatchKind::GameNodes => "serial_game_node_video_batch",
            BatchKind::Shots => "serial_shot_video_batch",
        }
    }

    /// The task type of one item's video.
    pub fn item_task_type(&self) -> (r: &'static str)
        ensures
            r@ == match self {
                BatchKind::GameNodes => "node_video_generation"@,
                BatchKind::Shots => "shot_video"@,
            },
    {
        match self {
            BatchKind::GameNodes => "node_video_generation",
            BatchKind::Shots => "shot_video",
        }
    }

    /// The resource a coordinator is registered under: every item.
    pub fn all_items(&self) -> (r: &'static str)
        ensures
            r@ == "all"@,
    {
        "all"
    }

    fn owner_field(&self) -> (r: &'static str)
        ensures
            r@ == owner_key(*self),
    {
        match self {
            BatchKind::GameNodes => "game_id",
            BatchKind::Shots => "drama_id",
        }
    }

    fn snapshot_owner_field(&self) -> (r: &'static str)
        ensures
            r@ == snapshot_owner_key(*self),
    {
        match self {
            BatchKind::GameNodes => "game_id",
            BatchKind::Shots => "project_id",
        }
    }

    fn items_field(&self) -> (r: &'static str)
        ensures
            r@ == items_key(*self),
    {
        match self {
            BatchKind::GameNodes => "node_ids",
            BatchKind::Shots => "shot_ids",
        }
    }

    fn current_item_field(&self) -> (r: &'static str)
        ensures
            r@ == current_item_key(*self),
    {
        match self {
            BatchKind::GameNodes => "current_node_id",
            BatchKind::Shots => "current_shot_id",
        }
    }

    /// The refusal when an item already has a video in progress before a batch starts.
    pub fn items_busy_message(&self) -> (r: &'static str)
        ensures
            r@ == match self {
                BatchKind::GameNodes => "存在正在生成的节点视频，请完成或取消后再串行生成"@,
                BatchKind::Shots => "存在正在生成的视频，请完成或取消后再串行生成"@,
            },
    {
        match self {
            BatchKind::GameNodes => "存在正在生成的节点视频，请完成或取消后再串行生成",
            BatchKind::Shots => "存在正在生成的视频，请完成或取消后再串行生成",
        }
    }

    /// The refusal when the next item already has a video in progress.
    pub fn next_item_busy_message(&self) -> (r: &'static str)
        ensures
            r@ == match self {
                BatchKind::GameNodes => "下一节点已有正在生成的视频，无法继续串行生成"@,
                BatchKind::Shots => "下一分镜已有正在生成的视频，无法继续串行生成"@,
            },
    {
        match self {
            BatchKind::GameNodes => "下一节点已有正在生成的视频，无法继续串行生成",
            BatchKind::Shots => "下一分镜已有正在生成的视频，无法继续串行生成",
        }
    }

    /// The progress stage while a batch waits for its current video.
    pub fn waiting_stage(&self) -> (r: &'static str)
        ensures
            r@ == match self {
                BatchKind::GameNodes => "正在等待当前节点视频"@,
                BatchKind::Shots => "正在等待当前分镜视频"@,
            },
    {
        match self {
            BatchKind::GameNodes => "正在等待当前节点视频",
            BatchKind::Shots => "正在等待当前分镜视频",
        }
    }
}

pub open spec fn status_of_text(s: Seq<char>) -> ChildStatus {
    if s == "生成中"@ {
        ChildStatus::Generating
    } else if s == "生成成功"@ {
        ChildStatus::Succeeded
    } else if s == "生成失败"@ {
        ChildStatus::Failed
    } else if s == "已取消"@ {
        ChildStatus::Cancelled
    } else {
        ChildStatus::Other
    }
}

impl ChildStatus {
    /// Read a task status.
    pub fn from_status(s: &str) -> (r: ChildStatus)
        ensures
            r == status_of_text(s@),
    {
        if str_eq(s, "生成中") {
            ChildStatus::Generating
        } else if str_eq(s, "生成成功") {
            ChildStatus::Succeeded
        } else if str_eq(s, "生成失败") {
            ChildStatus::Failed
        } else if str_eq(s, "已取消") {
            ChildStatus::Cancelled
        } else {
            ChildStatus::Other
        }
    }
}

impl BatchOutcome {
    /// The task status a batch ends with.
    pub fn status(&self) -> (r: &'static str)
        ensures
            r@ == match self {
                BatchOutcome::Succeeded => "生成成功"@,
                BatchOutcome::Failed => "生成失败"@,
                BatchOutcome::Cancelled => "已取消"@,
            },
    {
        match self {
            BatchOutcome::Succeeded => "生成成功",
            BatchOutcome::Failed => "生成失败",
            BatchOutcome::Cancelled => "已取消",
        }
    }
}

/// The ids of the items that have a text id, in order.
pub open spec fn item_ids(items: Seq<JsonView>) -> Seq<Seq<char>>
    decreases items.len(),
{
    if items.len() == 0 {
        Seq::empty()
    } else {
        let before = item_ids(items.drop_last());
        match items.last().get("id"@) {
            Some(JsonView::Text(id)) => before.push(id),
            _ => before,
        }
    }
}

pub open spec fn text_values(ids: Seq<Seq<char>>) -> Seq<JsonView> {
    Seq::new(ids.len(), |i: int| JsonView::Text(ids[i]))
}

/// The record a new batch starts from.
pub open spec fn initial_record(kind: BatchKind, owner_id: Seq<char>, items: Seq<JsonView>) -> JsonView {
    JsonView::Object(seq![
        (snapshot_owner_key(kind), JsonView::Text(owner_id)),
        ("mode"@, JsonView::Text("serial"@)),
        (items_key(kind), JsonView::Array(text_values(item_ids(items)))),
        ("total_count"@, JsonView::Int(items.len() as i64)),
        ("next_index"@, JsonView::Int(0)),
        ("completed_count"@, JsonView::Int(0)),
        ("current_task_id"@, JsonView::Null),
        (current_item_key(kind), JsonView::Null),
    ])
}

/// The record of a new batch over `items`; a batch needs at least one item.
pub fn initial_snapshot(kind: BatchKind, owner_id: &str, items: &Vec<Json>) -> (r: Result<Json, AppError>)
    requires
        items.len() <= i64::MAX,
    ensures
        match r {
            Ok(s) => items.len() > 0 && s@ == initial_record(kind, owner_id@, view_items(items@)),
            Err(e) => items.len() == 0 && e@ == AppErrorView::BadRequest(empty_text(kind)),
        },
{
    if items.len() == 0 {
        let message = match kind {
            BatchKind::GameNodes => "当前游戏没有可生成视频的节点",
            BatchKind::Shots => "当前项目没有可生成视频的分镜",
        };
        return Err(AppError::bad_request(message));
    }
    proof {
        crate::json::lemma_view_items(items@);
    }
    let ghost all = view_items(items@);
    let mut ids: Vec<Json> = Vec::new();
    let mut i: usize = 0;
    proof {
        assert(all.subrange(0, 0) =~= Seq::<JsonView>::empty());
        assert(view_items(ids@) =~= text_values(item_ids(Seq::<JsonView>::empty())));
    }
    while i < items.len()
        invariant
            i <= items.len(),
            all == view_items(items@),
            all.len() == items.len(),
            forall|k: int| 0 <= k < items.len() ==> #[trigger] all[k] == items@[k]@,
            view_items(ids@) == text_values(item_ids(all.subrange(0, i as int))),
        decreases items.len() - i,
    {
        proof {
            let next = all.subrange(0, i + 1);
            assert(next.drop_last() =~= all.subrange(0, i as int));
            assert(next.last() == items@[i as int]@);
        }
        match items[i].get("id") {
            Some(Json::Text(id)) => {
                let ghost before = ids@;
                ids.push(Json::Text(id.clone()));
                proof {
                    crate::json::lemma_view_items_push(before, ids@[ids.len() - 1]);
                    assert(ids@ == before.push(ids@[ids.len() - 1]));
                    let next = all.subrange(0, i + 1);
                    assert(text_values(item_ids(next)) =~= text_values(item_ids(all.subrange(0, i as int))).push(JsonView::Text(id@)));
                }
            },
            other => {
                proof {
                    match other {
                        Some(v) => crate::json::lemma_view_variant(*v),
                        None => {},
                    }
                }
            },
        }
        i += 1;
    }
    proof {
        assert(all.subrange(0, items.len() as int) =~= all);
    }
    let total = items.len() as i64;
    let entries: Vec<(String, Json)> = vec![
        (kind.snapshot_owner_field().to_owned(), Json::Text(owner_id.to_owned())),
        ("mode".to_owned(), Json::Text("serial".to_owned())),
        (kind.items_field().to_owned(), Json::Array(ids)),
        ("total_count".to_owned(), Json::Int(total)),
        ("next_index".to_owned(), Json::Int(0)),
        ("completed_count".to_owned(), Json::Int(0)),
        ("current_task_id".to_owned(), Json::Null),
        (kind.current_item_field().to_owned(), Json::Null),
    ];
    let r = Json::Object(entries);
    proof {
        crate::json::lemma_view_entries(entries@);
        assert(view_entries(entries@) =~= initial_record(kind, owner_id@, all)->Object_0);
    }
    Ok(r)
}

/// The state a running batch keeps, or why the task is not such a batch.
/// `Ok(None)` when the batch no longer runs: it is then left as it is.
pub open spec fn batch_state(kind: BatchKind, batch: JsonView, owner_id: Seq<char>) -> Result<Option<Entries>, AppErrorView> {
    if batch.get(owner_key(kind)) != Some(JsonView::Text(owner_id)) || batch.get("type"@) != Some(JsonView::Text(task_type_text(kind))) {
        Err(AppErrorView::NotFound(not_found_text(kind)))
    } else if batch.get("status"@) != Some(JsonView::Text("生成中"@)) {
        Ok(None)
    } else {
        match batch.get("input_snapshot"@) {
            Some(JsonView::Object(entries)) => Ok(Some(entries)),
            _ => Err(AppErrorView::BadRequest(missing_data_text(kind))),
        }
    }
}

pub open spec fn state_view(r: Result<Option<Vec<(String, Json)>>, AppError>) -> Result<Option<Entries>, AppErrorView> {
    match r {
        Ok(Some(e)) => Ok(Some(view_entries(e@))),
        Ok(None) => Ok(None),
        Err(e) => Err(e@),
    }
}

/// Read the state of a batch task that `owner_id` runs.
pub fn running_state(kind: BatchKind, batch: &Json, owner_id: &str) -> (r: Result<Option<Vec<(String, Json)>>, AppError>)
    ensures
        state_view(r) == batch_state(kind, batch@, owner_id@),
{
    let owned = crate::placeholder::has_text(batch.get(kind.owner_field()), owner_id);
    let typed = crate::placeholder::has_text(batch.get("type"), kind.task_type());
    if !owned || !typed {
        let message = match kind {
            BatchKind::GameNodes => "串行节点视频批次不存在",
            BatchKind::Shots => "串行视频批次不存在",
        };
        return Err(AppError::NotFound(message.to_owned()));
    }
    if !crate::placeholder::has_text(batch.get("status"), "生成中") {
        return Ok(None);
    }
    match batch.get("input_snapshot") {
        Some(Json::Object(entries)) => Ok(Some(copy_entries(entries))),
        other => {
            proof {
                match other {
                    Some(v) => crate::json::lemma_view_variant(*v),
                    None => {},
                }
            }
            let message = match kind {
                BatchKind::GameNodes => "串行节点视频批次缺少任务数据",
                BatchKind::Shots => "串行视频批次缺少任务数据",
            };
            Err(AppError::bad_request(message))
        },
    }
}

/// The task the batch waits for: its id, or empty when none.
pub open spec fn current_task_text(state: Entries) -> Seq<char> {
    match lookup(state, "current_task_id"@) {
        Some(JsonView::Text(id)) => id,
        _ => Seq::empty(),
    }
}

/// The id of the task a batch waits for, empty when it waits for none.
pub fn current_task_id(state: &Vec<(String, Json)>) -> (r: String)
    ensures
        r@ == current_task_text(view_entries(state@)),
{
    match entry_get(state, "current_task_id") {
        Some(Json::Text(id)) => id.clone(),
        other => {
            proof {
                match other {
                    Some(v) => crate::json::lemma_view_variant(*v),
                    None => {},
                }
            }
            String::new()
        },
    }
}

/// An integer field of the state, 0 when it is not an integer.
pub open spec fn count_at(state: Entries, key: Seq<char>) -> i64 {
    match lookup(state, key) {
        Some(JsonView::Int(n)) => n,
        _ => 0,
    }
}

/// Whether a text is a non-empty run of decimal digits.
pub open spec fn all_digits(s: Seq<char>) -> bool {
    s.len() > 0 && forall|k: int| 0 <= k < s.len() ==> '0' <= #[trigger] s[k] && s[k] <= '9'
}

/// The position of the next item: a non-negative integer, `None` for a
/// whole number above `i64::MAX` (past every list), 0 for anything else.
pub open spec fn next_index_of(state: Entries) -> Option<int> {
    match lookup(state, "next_index"@) {
        Some(JsonView::Int(n)) => if n >= 0 {
            Some(n as int)
        } else {
            Some(0)
        },
        Some(JsonView::Number(s)) => if all_digits(s) {
            None
        } else {
            Some(0)
        },
        _ => Some(0),
    }
}

/// The state after the awaited task is seen to succeed: one more video done,
/// and for game batches the current task and node cleared.
pub open spec fn settled(kind: BatchKind, state: Entries, child: Option<ChildStatus>) -> Entries {
    if child == Some(ChildStatus::Succeeded) {
        let counted = insert_entry(state, "completed_count"@, JsonView::Int((count_at(state, "completed_count"@) + 1) as i64));
        match kind {
            BatchKind::GameNodes => insert_entry(
                insert_entry(counted, "current_task_id"@, JsonView::Null),
                current_item_key(kind),
                JsonView::Null,
            ),
            BatchKind::Shots => counted,
        }
    } else {
        state
    }
}

/// The item ids of a batch.
pub open spec fn batch_items(kind: BatchKind, state: Entries) -> Seq<Seq<char>> {
    list_texts(array_at(JsonView::Object(state), items_key(kind)))
}

/// The end of a batch, with the counts its state holds.
pub open spec fn finish(outcome: BatchOutcome, state: Entries, error: Option<Seq<char>>) -> BatchStepView {
    BatchStepView::Finish {
        outcome,
        total_count: count_at(state, "total_count"@),
        completed_count: count_at(state, "completed_count"@),
        error,
    }
}

/// One step of a serial batch. `child` is the status of the awaited task,
/// read only when the state names one; `last_frame` is the previous video's
/// last frame as a data URL, which every item after the first starts from.
pub open spec fn serial_step(
    kind: BatchKind,
    state: Entries,
    child: Option<ChildStatus>,
    last_frame: Option<Seq<char>>,
) -> Result<BatchStepView, AppErrorView> {
    match child {
        Some(ChildStatus::Generating) => Ok(BatchStepView::Unchanged),
        Some(ChildStatus::Other) => Ok(BatchStepView::Unchanged),
        Some(ChildStatus::Failed) => Ok(finish(BatchOutcome::Failed, state, Some(failed_text(kind)))),
        Some(ChildStatus::Cancelled) => Ok(finish(BatchOutcome::Cancelled, state, Some(cancelled_text(kind)))),
        _ => {
            let s = settled(kind, state, child);
            let ids = batch_items(kind, s);
            match next_index_of(s) {
                None => Ok(finish(BatchOutcome::Succeeded, s, None)),
                Some(next) => if next >= ids.len() {
                    Ok(finish(BatchOutcome::Succeeded, s, None))
                } else if next > 0 && !(last_frame matches Some(f) && has_prefix(f, "data:image/"@)) {
                    Err(AppErrorView::BadRequest(frame_text(kind)))
                } else {
                    Ok(BatchStepView::Start {
                        index: next,
                        item_id: ids[next],
                        first_frame: if next > 0 { last_frame } else { None },
                    })
                },
            }
        },
    }
}

pub open spec fn step_view(r: Result<BatchStep, AppError>) -> Result<BatchStepView, AppErrorView> {
    match r {
        Ok(s) => Ok(s@),
        Err(e) => Err(e@),
    }
}

fn digits_only(s: &str) -> (r: bool)
    ensures
        r == all_digits(s@),
{
    let chars = crate::text::chars_of(s);
    if chars.len() == 0 {
        return false;
    }
    let mut i: usize = 0;
    while i < chars.len()
        invariant
            i <= chars.len(),
            chars@ == s@,
            forall|k: int| 0 <= k < i ==> '0' <= #[trigger] chars@[k] && chars@[k] <= '9',
        decreases chars.len() - i,
    {
        if !('0' <= chars[i] && chars[i] <= '9') {
            return false;
        }
        i += 1;
    }
    true
}

fn count_of(state: &Vec<(String, Json)>, key: &str) -> (r: i64)
    ensures
        r == count_at(view_entries(state@), key@),
{
    match entry_get(state, key) {
        Some(Json::Int(n)) => *n,
        other => {
            proof {
                match other {
                    Some(v) => crate::json::lemma_view_variant(*v),
                    None => {},
                }
            }
            0
        },
    }
}

fn finished(outcome: BatchOutcome, state: &Vec<(String, Json)>, error: Option<&str>) -> (r: BatchStep)
    ensures
        r@ == finish(outcome, view_entries(state@), match error {
            Some(e) => Some(e@),
            None => None,
        }),
{
    BatchStep::Finish {
        outcome,
        total_count: count_of(state, "total_count"),
        completed_count: count_of(state, "completed_count"),
        error: match error {
            Some(e) => Some(e.to_owned()),
            None => None,
        },
    }
}

/// Settling the awaited task touches neither the item list nor the position.
proof fn lemma_settled_keeps_plan(kind: BatchKind, state: Entries, child: Option<ChildStatus>)
    ensures
        batch_items(kind, settled(kind, state, child)) == batch_items(kind, state),
        next_index_of(settled(kind, state, child)) == next_index_of(state),
{
    reveal_strlit("completed_count");
    reveal_strlit("current_task_id");
    reveal_strlit("current_node_id");
    reveal_strlit("current_shot_id");
    reveal_strlit("node_ids");
    reveal_strlit("shot_ids");
    reveal_strlit("next_index");
    assert(items_key(kind).len() == 8);
    assert(current_item_key(kind).len() == 15);
    assert("completed_count"@.len() == 15 && "current_task_id"@.len() == 15 && "next_index"@.len() == 10);
    assert("completed_count"@ != items_key(kind) && "completed_count"@ != "next_index"@);
    assert("current_task_id"@ != items_key(kind) && "current_task_id"@ != "next_index"@);
    assert(current_item_key(kind) != items_key(kind) && current_item_key(kind) != "next_index"@);
    if child == Some(ChildStatus::Succeeded) {
        let counted = insert_entry(state, "completed_count"@, JsonView::Int((count_at(state, "completed_count"@) + 1) as i64));
        crate::json::lemma_insert_entry(state, "completed_count"@, JsonView::Int((count_at(state, "completed_count"@) + 1) as i64));
        assert(lookup(counted, items_key(kind)) == lookup(state, items_key(kind)));
        assert(lookup(counted, "next_index"@) == lookup(state, "next_index"@));
        match kind {
            BatchKind::GameNodes => {
                let cleared = insert_entry(counted, "current_task_id"@, JsonView::Null);
                crate::json::lemma_insert_entry(counted, "current_task_id"@, JsonView::Null);
                crate::json::lemma_insert_entry(cleared, current_item_key(kind), JsonView::Null);
                assert(lookup(cleared, items_key(kind)) == lookup(state, items_key(kind)));
                assert(lookup(cleared, "next_index"@) == lookup(state, "next_index"@));
                let done = insert_entry(cleared, current_item_key(kind), JsonView::Null);
                assert(lookup(done, items_key(kind)) == lookup(state, items_key(kind)));
                assert(lookup(done, "next_index"@) == lookup(state, "next_index"@));
            },
            BatchKind::Shots => {},
        }
    }
}

/// Count the awaited task as done when it succeeded.
fn settle(kind: BatchKind, state: &mut Vec<(String, Json)>, child: Option<ChildStatus>)
    requires
        child == Some(ChildStatus::Succeeded) ==> count_at(view_entries(old(state)@), "completed_count"@) < i64::MAX,
    ensures
        view_entries(final(state)@) == settled(kind, view_entries(old(state)@), child),
{
    if let Some(ChildStatus::Succeeded) = child {
        let completed = count_of(state, "completed_count") + 1;
        entry_insert(state, "completed_count".to_owned(), Json::Int(completed));
        if let BatchKind::GameNodes = kind {
            entry_insert(state, "current_task_id".to_owned(), Json::Null);
            entry_insert(state, kind.current_item_field().to_owned(), Json::Null);
        }
    }
}

/// Take one step of a running batch, updating its state in place. A step
/// that is refused for want of the previous video's last frame leaves the
/// state as it was, so the finished video is counted once.
pub fn advance(
    kind: BatchKind,
    state: &mut Vec<(String, Json)>,
    child: Option<ChildStatus>,
    last_frame: Option<&str>,
) -> (r: Result<BatchStep, AppError>)
    requires
        (child is Some) == (current_task_text(view_entries(old(state)@)).len() > 0),
        child == Some(ChildStatus::Succeeded) ==> count_at(view_entries(old(state)@), "completed_count"@) < i64::MAX,
    ensures
        r is Ok ==> view_entries(final(state)@) == settled(kind, view_entries(old(state)@), child),
        r is Err ==> view_entries(final(state)@) == view_entries(old(state)@),
        step_view(r) == serial_step(kind, view_entries(old(state)@), child, match last_frame {
            Some(f) => Some(f@),
            None => None,
        }),
{
    let ghost start = view_entries(state@);
    match child {
        Some(ChildStatus::Generating) => return Ok(BatchStep::Unchanged),
        Some(ChildStatus::Other) => return Ok(BatchStep::Unchanged),
        Some(ChildStatus::Failed) => {
            let message = match kind {
                BatchKind::GameNodes => "上一节点视频生成失败，串行生成已停止",
                BatchKind::Shots => "上一分镜视频生成失败，串行生成已停止",
            };
            return Ok(finished(BatchOutcome::Failed, state, Some(message)));
        },
        Some(ChildStatus::Cancelled) => {
            let message = match kind {
                BatchKind::GameNodes => "上一节点视频已取消，串行生成已停止",
                BatchKind::Shots => "上一分镜视频已取消，串行生成已停止",
            };
            return Ok(finished(BatchOutcome::Cancelled, state, Some(message)));
        },
        _ => {},
    }
    proof {
        lemma_settled_keeps_plan(kind, start, child);
    }
    let empty: Vec<Json> = Vec::new();
    let mut ids: Vec<String> = Vec::new();
    match entry_get(state, kind.items_field()) {
        Some(Json::Array(items)) => push_texts(items, &mut ids),
        other => {
            proof {
                match other {
                    Some(v) => crate::json::lemma_view_variant(*v),
                    None => {},
                }
                crate::json::lemma_view_items(empty@);
            }
            push_texts(&empty, &mut ids);
        },
    }
    proof {
        assert(texts_view(ids@) =~= batch_items(kind, start));
    }
    let position: Option<usize> = match entry_get(state, "next_index") {
        Some(Json::Int(n)) => {
            if *n < 0 {
                Some(0)
            } else if (*n as u64) >= (ids.len() as u64) {
                None
            } else {
                Some(*n as usize)
            }
        },
        Some(Json::Number(text)) => if digits_only(text.as_str()) {
            None
        } else {
            Some(0)
        },
        other => {
            proof {
                match other {
                    Some(v) => crate::json::lemma_view_variant(*v),
                    None => {},
                }
            }
            Some(0)
        },
    };
    let next = match position {
        None => {
            settle(kind, state, child);
            return Ok(finished(BatchOutcome::Succeeded, state, None));
        },
        Some(n) => n,
    };
    if next >= ids.len() {
        settle(kind, state, child);
        return Ok(finished(BatchOutcome::Succeeded, state, None));
    }
    let first_frame = if next == 0 {
        None
    } else {
        match last_frame {
            Some(frame) => if starts_with(frame, "data:image/") {
                Some(frame.to_owned())
            } else {
                return Err(AppError::bad_request(match kind {
                    BatchKind::GameNodes => "请先提取上一节点视频的尾帧，再继续串行生成",
                    BatchKind::Shots => "请先提取上一分镜视频的尾帧，再继续串行生成",
                }));
            },
            None => {
                return Err(AppError::bad_request(match kind {
                    BatchKind::GameNodes => "请先提取上一节点视频的尾帧，再继续串行生成",
                    BatchKind::Shots => "请先提取上一分镜视频的尾帧，再继续串行生成",
                }));
            },
        }
    };
    settle(kind, state, child);
    let item_id = ids[next].clone();
    proof {
        assert(item_id@ == texts_view(ids@)[next as int]);
    }
    Ok(BatchStep::Start { index: next, item_id, first_frame })
}

/// The state after the item at `index` was queued as `task_id`.
pub open spec fn started(kind: BatchKind, state: Entries, index: int, task_id: JsonView, item_id: Seq<char>) -> Entries {
    insert_entry(
        insert_entry(insert_entry(state, "next_index"@, JsonView::Int((index + 1) as i64)), "current_task_id"@, task_id),
        current_item_key(kind),
        JsonView::Text(item_id),
    )
}

/// Record that the item at `index` was queued as `task_id`.
pub fn record_started(kind: BatchKind, state: &mut Vec<(String, Json)>, index: usize, task_id: Json, item_id: &str)
    requires
        index < i64::MAX,
    ensures
        view_entries(final(state)@) == started(kind, view_entries(old(state)@), index as int, task_id@, item_id@),
{
    let following: i64 = (index as i64) + 1;
    entry_insert(state, "next_index".to_owned(), Json::Int(following));
    entry_insert(state, "current_task_id".to_owned(), task_id);
    entry_insert(state, kind.current_item_field().to_owned(), Json::Text(item_id.to_owned()));
}

/// A batch queues a new item only when it awaits no video or the awaited video succeeded.
pub proof fn lemma_batch_starts_only_after_success(
    kind: BatchKind,
    state: Entries,
    child: Option<ChildStatus>,
    last_frame: Option<Seq<char>>,
)
    ensures
        serial_step(kind, state, child, last_frame) is Ok && serial_step(kind, state, child, last_frame)->Ok_0 is Start
            ==> child is None || child == Some(ChildStatus::Succeeded),
{
}

/// Once the item at `index` was queued and its video succeeded, the batch
/// moves to the item right after it, starting from the supplied last frame,
/// or ends successfully after the last item.
pub proof fn lemma_batch_moves_to_the_following_item(
    kind: BatchKind,
    state: Entries,
    index: int,
    task_id: Seq<char>,
    item_id: Seq<char>,
    last_frame: Seq<char>,
)
    requires
        0 <= index < batch_items(kind, state).len(),
        index < i64::MAX,
        has_prefix(last_frame, "data:image/"@),
    ensures
        ({
            let queued = started(kind, state, index, JsonView::Text(task_id), item_id);
            let ids = batch_items(kind, state);
            let s = settled(kind, queued, Some(ChildStatus::Succeeded));
            serial_step(kind, queued, Some(ChildStatus::Succeeded), Some(last_frame)) == if index + 1 < ids.len() {
                Ok::<BatchStepView, AppErrorView>(BatchStepView::Start { index: index + 1, item_id: ids[index + 1], first_frame: Some(last_frame) })
            } else {
                Ok::<BatchStepView, AppErrorView>(finish(BatchOutcome::Succeeded, s, None))
            }
        }),
{
    let a = insert_entry(state, "next_index"@, JsonView::Int((index + 1) as i64));
    let b = insert_entry(a, "current_task_id"@, JsonView::Text(task_id));
    let queued = insert_entry(b, current_item_key(kind), JsonView::Text(item_id));
    crate::json::lemma_insert_entry(state, "next_index"@, JsonView::Int((index + 1) as i64));
    crate::json::lemma_insert_entry(a, "current_task_id"@, JsonView::Text(task_id));
    crate::json::lemma_insert_entry(b, current_item_key(kind), JsonView::Text(item_id));
    let c = insert_entry(queued, "completed_count"@, JsonView::Int((count_at(queued, "completed_count"@) + 1) as i64));
    crate::json::lemma_insert_entry(queued, "completed_count"@, JsonView::Int((count_at(queued, "completed_count"@) + 1) as i64));
    let s = settled(kind, queued, Some(ChildStatus::Succeeded));
    match kind {
        BatchKind::GameNodes => {
            let d = insert_entry(c, "current_task_id"@, JsonView::Null);
            crate::json::lemma_insert_entry(c, "current_task_id"@, JsonView::Null);
            crate::json::lemma_insert_entry(d, current_item_key(kind), JsonView::Null);
        },
        BatchKind::Shots => {},
    }
    reveal_strlit("node_ids");
    reveal_strlit("shot_ids");
    reveal_strlit("next_index");
    reveal_strlit("current_task_id");
    reveal_strlit("completed_count");
    reveal_strlit("current_node_id");
    reveal_strlit("current_shot_id");
    assert(items_key(kind).len() != "next_index"@.len());
    assert(items_key(kind).len() != "current_task_id"@.len());
    assert(items_key(kind).len() != "completed_count"@.len());
    assert(items_key(kind).len() != current_item_key(kind).len());
    assert(current_item_key(kind)[8] != "current_task_id"@[8]);
    assert(current_item_key(kind)[2] != "completed_count"@[2]);
    assert(items_key(kind) != "next_index"@);
    assert(items_key(kind) != "current_task_id"@);
    assert(items_key(kind) != "completed_count"@);
    assert(items_key(kind) != current_item_key(kind));
    assert(current_item_key(kind) != "next_index"@);
    assert(lookup(s, items_key(kind)) == lookup(state, items_key(kind)));
    assert(lookup(s, "next_index"@) == Some(JsonView::Int((index + 1) as i64)));
    assert(batch_items(kind, s) == batch_items(kind, state));
    assert(current_task_text(queued) == task_id);
}

} // verus!
