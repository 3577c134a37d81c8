//! The screenplay banner of a project: what its latest expansion task shows,
//! and what continuing or cancelling the expansion does.

use vstd::prelude::*;

use crate::error::{AppError, AppErrorView};
use crate::json::{entry_insert, insert_entry, view_entries, Entries, Json, JsonView};
use crate::placeholder::{at, has_text, value_at};
use crate::text::{chars_of, contains, contains_text, trim, trimmed};

verus! {

/// The status of a task that is still running.
pub open spec fn generating() -> Seq<char> {
    "生成中"@
}

/// A task that stopped without finishing: failed or cancelled.
pub open spec fn stopped(task: JsonView) -> bool {
    task.get("status"@) == Some(JsonView::Text("生成失败"@)) || task.get("status"@) == Some(JsonView::Text("已取消"@))
}

fn is_stopped(task: &Json) -> (r: bool)
    ensures
        r == stopped(task@),
{
    has_text(task.get("status"), "生成失败") || has_text(task.get("status"), "已取消")
}

/// The stage text of the latest expansion task, empty when there is none.
pub open spec fn stage_of(latest: Option<JsonView>) -> Seq<char> {
    match latest {
        Some(t) => match t.get("stage"@) {
            Some(JsonView::Text(s)) => s,
            _ => Seq::empty(),
        },
        None => Seq::empty(),
    }
}

/// The screenplay as the banner shows it: whether an expansion is running
/// and can be cancelled, the cancel button's label, the latest task's
/// status, error and stage, and the expanded text's length.
pub open spec fn screenplay_view(screenplay: Entries, latest: Option<JsonView>) -> JsonView {
    let active = match latest {
        Some(t) => t.get("status"@) == Some(JsonView::Text(generating())),
        None => false,
    };
    let stage = stage_of(latest);
    let decomposing = match latest {
        Some(t) => t.get("type"@) == Some(JsonView::Text("script_decomposition"@)),
        None => false,
    };
    let length = match crate::json::lookup(screenplay, "expanded_script"@) {
        Some(JsonView::Text(s)) => s.len(),
        _ => 0,
    };
    let s1 = insert_entry(screenplay, "expanded_script_generating"@, JsonView::Bool(active));
    let s2 = insert_entry(s1, "expanded_script_cancellable"@, JsonView::Bool(active));
    let s3 = insert_entry(s2, "expanded_script_cancel_label"@, JsonView::Text(
        if active && decomposing && contains_text(stage, "拆解"@) { "取消生成"@ } else { "取消扩写"@ },
    ));
    let s4 = insert_entry(s3, "expanded_script_task_status"@, match latest {
        Some(t) => at(t, "status"@),
        None => JsonView::Null,
    });
    let s5 = insert_entry(s4, "expanded_script_error_message"@, match latest {
        Some(t) => at(t, "error_message"@),
        None => JsonView::Null,
    });
    let s6 = insert_entry(s5, "expanded_script_stage"@, JsonView::Text(stage));
    JsonView::Object(insert_entry(s6, "expanded_script_length"@, JsonView::Int(length as i64)))
}

/// The screenplay as the banner shows it, given its latest expansion task.
pub fn screenplay_status(screenplay: Vec<(String, Json)>, latest: Option<&Json>) -> (r: Json)
    requires
        match crate::json::lookup(view_entries(screenplay@), "expanded_script"@) {
            Some(JsonView::Text(s)) => s.len() <= i64::MAX,
            _ => true,
        },
    ensures
        r@ == screenplay_view(view_entries(screenplay@), crate::game_state::opt_ref_json(latest)),
{
    proof {
        reveal_strlit("");
        assert(""@ =~= Seq::<char>::empty());
    }
    let mut object = screenplay;
    let active = match latest {
        Some(t) => has_text(t.get("status"), "生成中"),
        None => false,
    };
    let stage = match latest {
        Some(t) => match t.get("stage") {
            Some(Json::Text(s)) => s.clone(),
            other => {
                proof {
                    match other {
                        Some(v) => crate::json::lemma_view_variant(*v),
                        None => {},
                    }
                }
                String::new()
            },
        },
        None => String::new(),
    };
    let decomposing = match latest {
        Some(t) => has_text(t.get("type"), "script_decomposition"),
        None => false,
    };
    let length: usize = match crate::json::entry_get(&object, "expanded_script") {
        Some(Json::Text(s)) => chars_of(s.as_str()).len(),
        other => {
            proof {
                match other {
                    Some(v) => crate::json::lemma_view_variant(*v),
                    None => {},
                }
            }
            0
        },
    };
    let label = if active && decomposing && contains(stage.as_str(), "拆解") {
        "取消生成"
    } else {
        "取消扩写"
    };
    let status = match latest {
        Some(t) => value_at(t, "status"),
        None => Json::Null,
    };
    let error = match latest {
        Some(t) => value_at(t, "error_message"),
        None => Json::Null,
    };
    entry_insert(&mut object, "expanded_script_generating".to_owned(), Json::Bool(active));
    entry_insert(&mut object, "expanded_script_cancellable".to_owned(), Json::Bool(active));
    entry_insert(&mut object, "expanded_script_cancel_label".to_owned(), Json::Text(label.to_owned()));
    entry_insert(&mut object, "expanded_script_task_status".to_owned(), status);
    entry_insert(&mut object, "expanded_script_error_message".to_owned(), error);
    entry_insert(&mut object, "expanded_script_stage".to_owned(), Json::Text(stage));
    entry_insert(&mut object, "expanded_script_length".to_owned(), Json::Int(length as i64));
    Json::Object(object)
}

/// What asking to continue the screenplay does.
#[derive(Debug)]
pub enum ContinueStep {
    /// The latest task still runs: it is shown as it is.
    Running,
    /// The latest continuation stopped: it is retried.
    RetryExpansion,
    /// The first expansion stopped before writing anything: it starts again.
    RestartDecomposition,
    /// A continuation of the expanded screenplay (trimmed, of this many characters) is queued.
    Continue { base_length: usize, preview: String },
}

pub enum ContinueStepView {
    Running,
    RetryExpansion,
    RestartDecomposition,
    Continue { base_length: int, preview: Seq<char> },
}

pub open spec fn continue_view(r: Result<ContinueStep, AppError>) -> Result<ContinueStepView, AppErrorView> {
    match r {
        Ok(ContinueStep::Running) => Ok(ContinueStepView::Running),
        Ok(ContinueStep::RetryExpansion) => Ok(ContinueStepView::RetryExpansion),
        Ok(ContinueStep::RestartDecomposition) => Ok(ContinueStepView::RestartDecomposition),
        Ok(ContinueStep::Continue { base_length, preview }) => Ok(ContinueStepView::Continue { base_length: base_length as int, preview: preview@ }),
        Err(e) => Err(e@),
    }
}

/// What continuing the screenplay of `project` does, given its latest expansion task.
pub open spec fn continue_of(project: JsonView, latest: Option<JsonView>) -> Result<ContinueStepView, AppErrorView> {
    let running = match latest {
        Some(t) => t.get("status"@) == Some(JsonView::Text(generating())),
        None => false,
    };
    let retry = match latest {
        Some(t) => t.get("type"@) == Some(JsonView::Text("script_expansion"@)) && stopped(t),
        None => false,
    };
    let restart = match latest {
        Some(t) => t.get("type"@) == Some(JsonView::Text("script_decomposition"@)) && stopped(t),
        None => false,
    };
    let expanded = trimmed(crate::json::text_or(project, "expanded_script"@, Seq::empty()));
    if running {
        Ok(ContinueStepView::Running)
    } else if retry {
        Ok(ContinueStepView::RetryExpansion)
    } else if expanded.len() == 0 {
        if restart {
            Ok(ContinueStepView::RestartDecomposition)
        } else {
            Err(AppErrorView::BadRequest("请先完成首次剧本扩写后再继续扩写"@))
        }
    } else {
        Ok(ContinueStepView::Continue { base_length: expanded.len() as int, preview: expanded })
    }
}

/// Decide what continuing a project's screenplay does.
pub fn continue_step(project: &Json, latest: Option<&Json>) -> (r: Result<ContinueStep, AppError>)
    ensures
        continue_view(r) == continue_of(project@, crate::game_state::opt_ref_json(latest)),
{
    proof {
        reveal_strlit("");
        assert(""@ =~= Seq::<char>::empty());
    }
    let (running, retry, restart) = match latest {
        Some(t) => (
            has_text(t.get("status"), "生成中"),
            has_text(t.get("type"), "script_expansion") && is_stopped(t),
            has_text(t.get("type"), "script_decomposition") && is_stopped(t),
        ),
        None => (false, false, false),
    };
    if running {
        return Ok(ContinueStep::Running);
    }
    if retry {
        return Ok(ContinueStep::RetryExpansion);
    }
    let text = project.text_or("expanded_script", "");
    let expanded = trim(text.as_str());
    let length = chars_of(expanded.as_str()).len();
    if length == 0 {
        if restart {
            return Ok(ContinueStep::RestartDecomposition);
        }
        return Err(AppError::bad_request("请先完成首次剧本扩写后再继续扩写"));
    }
    Ok(ContinueStep::Continue { base_length: length, preview: expanded })
}

/// The input of a continuation task.
pub open spec fn continuation_input(project_id: Seq<char>, base_length: int, preview: Seq<char>, story_bible: JsonView) -> JsonView {
    JsonView::Object(seq![
        ("project_id"@, JsonView::Text(project_id)),
        ("continuation_base_length"@, JsonView::Int(base_length as i64)),
        ("expanded_script_preview"@, JsonView::Text(preview)),
        ("story_bible"@, story_bible),
    ])
}

/// The input of a continuation task, with the latest story bible.
pub fn continuation_snapshot(project_id: &str, base_length: usize, preview: &str, story_bible: Json) -> (r: Json)
    requires
        base_length <= i64::MAX,
    ensures
        r@ == continuation_input(project_id@, base_length as int, preview@, story_bible@),
{
    let ghost bible = story_bible@;
    let entries: Vec<(String, Json)> = vec![
        ("project_id".to_owned(), Json::Text(project_id.to_owned())),
        ("continuation_base_length".to_owned(), Json::Int(base_length as i64)),
        ("expanded_script_preview".to_owned(), Json::Text(preview.to_owned())),
        ("story_bible".to_owned(), story_bible),
    ];
    proof {
        crate::json::lemma_view_entries(entries@);
        assert(view_entries(entries@) =~= continuation_input(project_id@, base_length as int, preview@, bible)->Object_0);
    }
    Json::Object(entries)
}

/// What cancelling the screenplay expansion does.
#[derive(Debug)]
pub enum ScreenplayCancel {
    /// The latest task already stopped: it is shown as it is.
    Keep,
    /// The running task is cancelled; a first expansion also marks the project cancelled.
    Cancel { task_id: String, mark_project: bool },
}

pub enum ScreenplayCancelView {
    Keep,
    Cancel { task_id: Seq<char>, mark_project: bool },
}

pub open spec fn cancel_view(r: Result<ScreenplayCancel, AppError>) -> Result<ScreenplayCancelView, AppErrorView> {
    match r {
        Ok(ScreenplayCancel::Keep) => Ok(ScreenplayCancelView::Keep),
        Ok(ScreenplayCancel::Cancel { task_id, mark_project }) => Ok(ScreenplayCancelView::Cancel { task_id: task_id@, mark_project }),
        Err(e) => Err(e@),
    }
}

/// What cancelling does, given the latest expansion task.
pub open spec fn cancel_of(latest: Option<JsonView>) -> Result<ScreenplayCancelView, AppErrorView> {
    match latest {
        None => Err(AppErrorView::BadRequest("未找到可取消的剧本扩写任务"@)),
        Some(t) => if stopped(t) {
            Ok(ScreenplayCancelView::Keep)
        } else if t.get("status"@) == Some(JsonView::Text(generating())) {
            Ok(ScreenplayCancelView::Cancel {
                task_id: crate::json::text_or(t, "id"@, Seq::empty()),
                mark_project: t.get("type"@) == Some(JsonView::Text("script_decomposition"@)),
            })
        } else {
            Err(AppErrorView::BadRequest("剧本扩写已完成，无法取消"@))
        },
    }
}

/// Decide what cancelling a project's screenplay expansion does.
pub fn screenplay_cancel(latest: Option<&Json>) -> (r: Result<ScreenplayCancel, AppError>)
    ensures
        cancel_view(r) == cancel_of(crate::game_state::opt_ref_json(latest)),
{
    proof {
        reveal_strlit("");
        assert(""@ =~= Seq::<char>::empty());
    }
    match latest {
        None => Err(AppError::bad_request("未找到可取消的剧本扩写任务")),
        Some(t) => if is_stopped(t) {
            Ok(ScreenplayCancel::Keep)
        } else if has_text(t.get("status"), "生成中") {
            Ok(ScreenplayCancel::Cancel { task_id: t.text_or("id", ""), mark_project: has_text(t.get("type"), "script_decomposition") })
        } else {
            Err(AppError::bad_request("剧本扩写已完成，无法取消"))
        },
    }
}

/// The script a fresh start of a drama replaces the saved one with: the
/// given script, trimmed, which must hold at least 10 characters.
pub open spec fn drama_replacement_of(script: Option<Seq<char>>) -> Result<Option<Seq<char>>, AppErrorView> {
    match script {
        Some(s) => if trimmed(s).len() < 10 {
            Err(AppErrorView::BadRequest("剧本文本不少于 10 个字"@))
        } else {
            Ok(Some(trimmed(s)))
        },
        None => Ok(None),
    }
}

/// The script a fresh start of a drama replaces the saved one with.
pub fn drama_replacement_script(script: Option<&str>) -> (r: Result<Option<String>, AppError>)
    ensures
        crate::game_screenplay::option_result(r) == drama_replacement_of(crate::graph::opt_text(script)),
{
    match script {
        Some(s) => {
            let t = trim(s);
            if chars_of(t.as_str()).len() < 10 {
                Err(AppError::bad_request("剧本文本不少于 10 个字"))
            } else {
                Ok(Some(t))
            }
        },
        None => Ok(None),
    }
}

/// The script a fresh start of a drama generates from: the replacement,
/// else the saved script, which must hold at least 10 characters.
pub open spec fn drama_regeneration_of(replacement: Option<Seq<char>>, saved: Seq<char>) -> Result<Seq<char>, AppErrorView> {
    let script = match replacement {
        Some(s) => s,
        None => saved,
    };
    if script.len() < 10 {
        Err(AppErrorView::BadRequest("剧本文本不少于 10 个字"@))
    } else {
        Ok(script)
    }
}

/// The script a fresh start of a drama generates from.
pub fn drama_regeneration_script(replacement: Option<&str>, saved: &str) -> (r: Result<String, AppError>)
    ensures
        crate::forms::text_result(r) == drama_regeneration_of(crate::graph::opt_text(replacement), saved@),
{
    let script = match replacement {
        Some(s) => s,
        None => saved,
    };
    if chars_of(script).len() < 10 {
        Err(AppError::bad_request("剧本文本不少于 10 个字"))
    } else {
        Ok(script.to_owned())
    }
}

/// The script and expanded script a screenplay edit saves: the script must
/// hold at least 10 characters; a missing expanded script is empty.
pub open spec fn screenplay_edit_of(values: Entries) -> Result<(Seq<char>, Seq<char>), AppErrorView> {
    let script = crate::forms::text_at(values, "script"@, ""@);
    if script.len() < 10 {
        Err(AppErrorView::BadRequest("剧本文本不少于 10 个字"@))
    } else {
        Ok((script, crate::forms::text_at(values, "expanded_script"@, ""@)))
    }
}

/// Read a screenplay edit of a drama.
pub fn screenplay_edit(values: &Vec<(String, Json)>) -> (r: Result<(String, String), AppError>)
    ensures
        match r {
            Ok((a, b)) => screenplay_edit_of(view_entries(values@)) == Ok::<(Seq<char>, Seq<char>), AppErrorView>((a@, b@)),
            Err(e) => screenplay_edit_of(view_entries(values@)) == Err::<(Seq<char>, Seq<char>), AppErrorView>(e@),
        },
{
    let script = crate::forms::text_value(values, "script", "");
    if chars_of(script.as_str()).len() < 10 {
        return Err(AppError::bad_request("剧本文本不少于 10 个字"));
    }
    Ok((script, crate::forms::text_value(values, "expanded_script", "")))
}

/// A drama started afresh from `script`: the script is replaced, and the
/// expanded script, materials, shots and earlier videos are cleared while it
/// is generated again.
pub open spec fn regenerated_drama_of(drama: Entries, script: Seq<char>) -> Entries {
    insert_entry(
        insert_entry(
            insert_entry(
                insert_entry(
                    insert_entry(
                        insert_entry(drama, "script"@, JsonView::Text(script)),
                        "expanded_script"@,
                        JsonView::Text(Seq::empty()),
                    ),
                    "assets"@,
                    JsonView::Array(Seq::empty()),
                ),
                "shots"@,
                JsonView::Array(Seq::empty()),
            ),
            "historical_videos"@,
            JsonView::Array(Seq::empty()),
        ),
        "status"@,
        JsonView::Text("生成中"@),
    )
}

/// Start a drama afresh from `script` (see `drama_regeneration_script`).
pub fn regenerated_drama(drama: &mut Vec<(String, Json)>, script: &str)
    ensures
        view_entries(final(drama)@) == regenerated_drama_of(view_entries(old(drama)@), script@),
{
    entry_insert(drama, "script".to_owned(), Json::Text(script.to_owned()));
    entry_insert(drama, "expanded_script".to_owned(), Json::Text(String::new()));
    entry_insert(drama, "assets".to_owned(), Json::Array(Vec::new()));
    entry_insert(drama, "shots".to_owned(), Json::Array(Vec::new()));
    entry_insert(drama, "historical_videos".to_owned(), Json::Array(Vec::new()));
    entry_insert(drama, "status".to_owned(), Json::Text("生成中".to_owned()));
}

/// The input of the decomposition task that a fresh start queues.
pub fn regeneration_task_input(drama_id: &str) -> (r: Json)
    ensures
        r@ == JsonView::Object(seq![("drama_id"@, JsonView::Text(drama_id@))]),
{
    let entries: Vec<(String, Json)> = vec![("drama_id".to_owned(), Json::Text(drama_id.to_owned()))];
    proof {
        crate::json::lemma_view_entries(entries@);
        assert(view_entries(entries@) =~= seq![("drama_id"@, JsonView::Text(drama_id@))]);
    }
    Json::Object(entries)
}

/// A drama started afresh keeps nothing derived from its earlier script: no
/// expanded script, no materials, no shots and no earlier videos, and it is
/// being generated from the new script.
pub proof fn lemma_fresh_start_keeps_nothing_derived(drama: Entries, script: Seq<char>)
    ensures
        ({
            let d = regenerated_drama_of(drama, script);
            &&& crate::json::lookup(d, "script"@) == Some(JsonView::Text(script))
            &&& crate::json::lookup(d, "expanded_script"@) == Some(JsonView::Text(Seq::empty()))
            &&& crate::json::lookup(d, "assets"@) == Some(JsonView::Array(Seq::empty()))
            &&& crate::json::lookup(d, "shots"@) == Some(JsonView::Array(Seq::empty()))
            &&& crate::json::lookup(d, "historical_videos"@) == Some(JsonView::Array(Seq::empty()))
            &&& crate::json::lookup(d, "status"@) == Some(JsonView::Text("生成中"@))
        }),
{
    reveal_strlit("script");
    reveal_strlit("expanded_script");
    reveal_strlit("assets");
    reveal_strlit("shots");
    reveal_strlit("historical_videos");
    reveal_strlit("status");
    let d0 = insert_entry(drama, "script"@, JsonView::Text(script));
    let d1 = insert_entry(d0, "expanded_script"@, JsonView::Text(Seq::empty()));
    let d2 = insert_entry(d1, "assets"@, JsonView::Array(Seq::empty()));
    let d3 = insert_entry(d2, "shots"@, JsonView::Array(Seq::empty()));
    let d4 = insert_entry(d3, "historical_videos"@, JsonView::Array(Seq::empty()));
    crate::json::lemma_insert_entry(drama, "script"@, JsonView::Text(script));
    crate::json::lemma_insert_entry(d0, "expanded_script"@, JsonView::Text(Seq::empty()));
    crate::json::lemma_insert_entry(d1, "assets"@, JsonView::Array(Seq::empty()));
    crate::json::lemma_insert_entry(d2, "shots"@, JsonView::Array(Seq::empty()));
    crate::json::lemma_insert_entry(d3, "historical_videos"@, JsonView::Array(Seq::empty()));
    crate::json::lemma_insert_entry(d4, "status"@, JsonView::Text("生成中"@));
    assert("script"@.len() == 6 && "assets"@.len() == 6 && "status"@.len() == 6 && "shots"@.len() == 5);
    assert("expanded_script"@.len() == 15 && "historical_videos"@.len() == 17);
    assert("script"@[0] != "assets"@[0] && "script"@[1] != "status"@[1] && "assets"@[0] != "status"@[0]);
    assert("script"@ != "assets"@ && "script"@ != "status"@ && "assets"@ != "status"@);
}

} // verus!
