//! The screenplay of an interactive game: its name and the texts an edit or
//! a fresh start keeps, and what continuing, stopping or retrying its
//! generation does.

use vstd::prelude::*;

use crate::error::{AppError, AppErrorView};
use crate::json::{entry_get, lookup, view_entries, Entries, Json, JsonView};
use crate::placeholder::has_text;
use crate::text::{chars_of, trim, trimmed};

verus! {

/// A game screenplay is at least 20 characters long.
pub open spec fn long_enough(script: Seq<char>) -> bool {
    script.len() >= 20
}

/// The trimmed text a request gives under `key`, empty when it gives none.
pub open spec fn trimmed_text_at(values: Entries, key: Seq<char>) -> Seq<char> {
    match lookup(values, key) {
        Some(JsonView::Text(s)) => trimmed(s),
        _ => Seq::empty(),
    }
}

fn trimmed_of(values: &Vec<(String, Json)>, key: &str) -> (r: String)
    ensures
        r@ == trimmed_text_at(view_entries(values@), key@),
{
    match entry_get(values, key) {
        Some(Json::Text(s)) => trim(s.as_str()),
        other => {
            proof {
                match other {
                    Some(v) => crate::json::lemma_view_variant(*v),
                    None => {},
                }
            }
            String::new()
        },
    }
}

/// The screenplay a fresh start replaces the saved one with: none when the
/// request gives no text; refused when it is too short.
pub open spec fn replacement_of(values: Entries) -> Result<Option<Seq<char>>, AppErrorView> {
    let text = trimmed_text_at(values, "script"@);
    if text.len() == 0 {
        Ok(None)
    } else if !long_enough(text) {
        Err(AppErrorView::BadRequest("剧本文本不少于 20 个字"@))
    } else {
        Ok(Some(text))
    }
}

pub open spec fn option_result(r: Result<Option<String>, AppError>) -> Result<Option<Seq<char>>, AppErrorView> {
    match r {
        Ok(Some(s)) => Ok(Some(s@)),
        Ok(None) => Ok(None),
        Err(e) => Err(e@),
    }
}

/// The screenplay a fresh start of a game replaces the saved one with.
pub fn replacement_script(values: &Vec<(String, Json)>) -> (r: Result<Option<String>, AppError>)
    ensures
        option_result(r) == replacement_of(view_entries(values@)),
{
    let text = trimmed_of(values, "script");
    let n = chars_of(text.as_str()).len();
    if n == 0 {
        Ok(None)
    } else if n < 20 {
        Err(AppError::bad_request("剧本文本不少于 20 个字"))
    } else {
        Ok(Some(text))
    }
}

/// The screenplay a fresh start generates from: the replacement, else the saved one.
pub open spec fn regeneration_of(replacement: Option<Seq<char>>, saved: Seq<char>) -> Result<Seq<char>, AppErrorView> {
    let script = match replacement {
        Some(s) => s,
        None => saved,
    };
    if long_enough(script) {
        Ok(script)
    } else {
        Err(AppErrorView::BadRequest("剧本文本不少于 20 个字"@))
    }
}

/// The screenplay a fresh start generates from.
pub fn regeneration_script(replacement: Option<&str>, saved: &str) -> (r: Result<String, AppError>)
    ensures
        crate::forms::text_result(r) == regeneration_of(crate::graph::opt_text(replacement), saved@),
{
    let script = match replacement {
        Some(s) => s,
        None => saved,
    };
    if chars_of(script).len() >= 20 {
        Ok(script.to_owned())
    } else {
        Err(AppError::bad_request("剧本文本不少于 20 个字"))
    }
}

/// The screenplay and expanded screenplay an edit saves, both trimmed.
pub open spec fn edited_of(values: Entries) -> Result<(Seq<char>, Seq<char>), AppErrorView> {
    let script = trimmed_text_at(values, "script"@);
    if !long_enough(script) {
        Err(AppErrorView::BadRequest("剧本文本不少于 20 个字"@))
    } else {
        Ok((script, trimmed_text_at(values, "expanded_script"@)))
    }
}

/// Read the screenplay and expanded screenplay an edit saves.
pub fn edited_screenplay(values: &Vec<(String, Json)>) -> (r: Result<(String, String), AppError>)
    ensures
        match r {
            Ok((a, b)) => edited_of(view_entries(values@)) == Ok::<(Seq<char>, Seq<char>), AppErrorView>((a@, b@)),
            Err(e) => edited_of(view_entries(values@)) == Err::<(Seq<char>, Seq<char>), AppErrorView>(e@),
        },
{
    let script = trimmed_of(values, "script");
    if chars_of(script.as_str()).len() < 20 {
        return Err(AppError::bad_request("剧本文本不少于 20 个字"));
    }
    let expanded = trimmed_of(values, "expanded_script");
    Ok((script, expanded))
}

/// What stopping a game's generation does.
#[derive(Debug)]
pub enum GenerationStop {
    /// The latest task was already cancelled: it is shown as it is.
    Keep,
    /// The running task stops at this stage, keeping what it wrote.
    Stop { task_id: String, stage: String },
}

pub enum GenerationStopView {
    Keep,
    Stop { task_id: Seq<char>, stage: Seq<char> },
}

pub open spec fn stop_view(r: Result<GenerationStop, AppError>) -> Result<GenerationStopView, AppErrorView> {
    match r {
        Ok(GenerationStop::Keep) => Ok(GenerationStopView::Keep),
        Ok(GenerationStop::Stop { task_id, stage }) => Ok(GenerationStopView::Stop { task_id: task_id@, stage: stage@ }),
        Err(e) => Err(e@),
    }
}

/// What stopping does, given the latest screenplay or graph task of the game.
pub open spec fn stop_of(latest: Option<JsonView>) -> Result<GenerationStopView, AppErrorView> {
    match latest {
        None => Err(AppErrorView::BadRequest("未找到可停止的生成任务"@)),
        Some(t) => if t.get("status"@) == Some(JsonView::Text("已取消"@)) {
            Ok(GenerationStopView::Keep)
        } else if t.get("status"@) == Some(JsonView::Text("生成中"@)) {
            Ok(GenerationStopView::Stop {
                task_id: crate::json::text_or(t, "id"@, Seq::empty()),
                stage: if t.get("type"@) == Some(JsonView::Text("game_graph_decomposition"@)) {
                    "图谱生成已停止，当前进度已保存"@
                } else {
                    "剧本扩写已停止，当前进度已保存"@
                },
            })
        } else {
            Err(AppErrorView::BadRequest("生成任务已完成，无法停止"@))
        },
    }
}

/// Decide what stopping a game's screenplay or graph generation does.
pub fn generation_stop(latest: Option<&Json>) -> (r: Result<GenerationStop, AppError>)
    ensures
        stop_view(r) == stop_of(crate::game_state::opt_ref_json(latest)),
{
    proof {
        reveal_strlit("");
        assert(""@ =~= Seq::<char>::empty());
    }
    match latest {
        None => Err(AppError::bad_request("未找到可停止的生成任务")),
        Some(t) => if has_text(t.get("status"), "已取消") {
            Ok(GenerationStop::Keep)
        } else if has_text(t.get("status"), "生成中") {
            let stage = if has_text(t.get("type"), "game_graph_decomposition") {
                "图谱生成已停止，当前进度已保存"
            } else {
                "剧本扩写已停止，当前进度已保存"
            };
            Ok(GenerationStop::Stop { task_id: t.text_or("id", ""), stage: stage.to_owned() })
        } else {
            Err(AppError::bad_request("生成任务已完成，无法停止"))
        },
    }
}

/// The stage a retried generation task waits in.
pub fn retry_stage(kind: &str) -> (r: &'static str)
    ensures
        r@ == if kind@ == "game_script_expansion"@ {
            "等待重试剧本扩写"@
        } else {
            "等待重试图谱生成"@
        },
{
    if crate::json::str_eq(kind, "game_script_expansion") {
        "等待重试剧本扩写"
    } else {
        "等待重试图谱生成"
    }
}

/// The name a game editor saves: trimmed, 1 to 120 characters.
pub open spec fn editor_name_of(values: Entries) -> Result<Seq<char>, AppErrorView> {
    let name = trimmed_text_at(values, "name"@);
    if 1 <= name.len() && name.len() <= 120 {
        Ok(name)
    } else {
        Err(AppErrorView::BadRequest("游戏名称长度需在 1 到 120 个字之间"@))
    }
}

/// Read the name a game editor saves.
pub fn editor_name(values: &Vec<(String, Json)>) -> (r: Result<String, AppError>)
    ensures
        crate::forms::text_result(r) == editor_name_of(view_entries(values@)),
{
    let name = trimmed_of(values, "name");
    let n = chars_of(name.as_str()).len();
    if 1 <= n && n <= 120 {
        Ok(name)
    } else {
        Err(AppError::bad_request("游戏名称长度需在 1 到 120 个字之间"))
    }
}

/// What asking to expand a game's screenplay further does.
#[derive(Debug)]
pub enum ExpansionStep {
    /// An expansion is already running: it is the answer.
    Reuse(String),
    /// A new expansion task starts with this input.
    Start(Json),
}

pub enum ExpansionStepView {
    Reuse(Seq<char>),
    Start(JsonView),
}

pub open spec fn expansion_view(r: Result<ExpansionStep, AppError>) -> Result<ExpansionStepView, AppErrorView> {
    match r {
        Ok(ExpansionStep::Reuse(id)) => Ok(ExpansionStepView::Reuse(id@)),
        Ok(ExpansionStep::Start(j)) => Ok(ExpansionStepView::Start(j@)),
        Err(e) => Err(e@),
    }
}

/// What expanding a game's screenplay further does: a running expansion is
/// reused; while the graph is being planned nothing starts; otherwise an
/// expansion starts from the saved expanded screenplay.
pub open spec fn expansion_of(game_id: Seq<char>, running: Option<Seq<char>>, planning: bool, expanded_script: Seq<char>) -> Result<ExpansionStepView, AppErrorView> {
    match running {
        Some(id) => Ok(ExpansionStepView::Reuse(id)),
        None => if planning {
            Err(AppErrorView::BadRequest("视频节点图谱正在拆分，请完成后再扩写剧本"@))
        } else {
            Ok(ExpansionStepView::Start(JsonView::Object(seq![
                ("game_id"@, JsonView::Text(game_id)),
                ("expanded_script_preview"@, JsonView::Text(expanded_script)),
            ])))
        },
    }
}

/// Decide what expanding a game's screenplay further does; `running` is the
/// running expansion task, `planning` whether a graph plan is running.
pub fn expansion_step(game_id: &str, running: Option<String>, planning: bool, expanded_script: &str) -> (r: Result<ExpansionStep, AppError>)
    ensures
        expansion_view(r) == expansion_of(game_id@, crate::storage::opt_text_view(running), planning, expanded_script@),
{
    match running {
        Some(id) => Ok(ExpansionStep::Reuse(id)),
        None => if planning {
            Err(AppError::bad_request("视频节点图谱正在拆分，请完成后再扩写剧本"))
        } else {
            let entries: Vec<(String, Json)> = vec![
                ("game_id".to_owned(), Json::Text(game_id.to_owned())),
                ("expanded_script_preview".to_owned(), Json::Text(expanded_script.to_owned())),
            ];
            proof {
                crate::json::lemma_view_entries(entries@);
                assert(view_entries(entries@) =~= seq![
                    ("game_id"@, JsonView::Text(game_id@)),
                    ("expanded_script_preview"@, JsonView::Text(expanded_script@)),
                ]);
            }
            Ok(ExpansionStep::Start(Json::Object(entries)))
        },
    }
}

/// What a finished screenplay expansion records: the lengths of the
/// original and expanded screenplays, and the graph task it queued, if any.
pub open spec fn expansion_result_of(original_length: int, screenplay: Seq<char>, next_task_id: Option<Seq<char>>) -> JsonView {
    JsonView::Object(seq![
        ("original_script_length"@, JsonView::Int(original_length as i64)),
        ("expanded_script_length"@, JsonView::Int(screenplay.len() as i64)),
        ("next_task_id"@, match next_task_id {
            Some(id) => JsonView::Text(id),
            None => JsonView::Null,
        }),
    ])
}

/// The result a finished screenplay expansion records.
pub fn expansion_result(original_length: usize, screenplay: &str, next_task_id: Option<&str>) -> (r: Json)
    requires
        original_length <= i64::MAX,
        screenplay@.len() <= i64::MAX,
    ensures
        r@ == expansion_result_of(original_length as int, screenplay@, crate::graph::opt_text(next_task_id)),
{
    let length = chars_of(screenplay).len();
    let entries: Vec<(String, Json)> = vec![
        ("original_script_length".to_owned(), Json::Int(original_length as i64)),
        ("expanded_script_length".to_owned(), Json::Int(length as i64)),
        ("next_task_id".to_owned(), match next_task_id {
            Some(id) => Json::Text(id.to_owned()),
            None => Json::Null,
        }),
    ];
    proof {
        crate::json::lemma_view_entries(entries@);
        assert(view_entries(entries@) =~= expansion_result_of(original_length as int, screenplay@, crate::graph::opt_text(next_task_id))->Object_0);
    }
    Json::Object(entries)
}

/// The status a game takes once its screenplay is expanded: still
/// generating while its graph is queued, else finished.
pub fn status_after_expansion(queue_graph: bool) -> (r: &'static str)
    ensures
        r@ == if queue_graph { "生成中"@ } else { "生成成功"@ },
{
    if queue_graph {
        "生成中"
    } else {
        "生成成功"
    }
}

} // verus!
