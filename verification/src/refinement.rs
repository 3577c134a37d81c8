//! Generating and refining shot videos: how many runs a request may start,
//! what a run's task freezes, the creator's refinement instruction, and what
//! a refined version keeps of the video it refines.

use vstd::prelude::*;

use crate::error::{AppError, AppErrorView};
use crate::json::{view_entries, Json, JsonView};
use crate::placeholder::{at, value_at};
use crate::text::{chars_of, trim, trimmed};

verus! {

/// A refinement instruction: trimmed, not empty, at most 4000 characters.
pub open spec fn refinement_text(text: Seq<char>) -> Result<Seq<char>, AppErrorView> {
    let t = trimmed(text);
    if t.len() == 0 {
        Err(AppErrorView::BadRequest("请填写微调提示词"@))
    } else if t.len() > 4000 {
        Err(AppErrorView::BadRequest("微调提示词不能超过 4000 个字"@))
    } else {
        Ok(t)
    }
}

/// Read a refinement instruction.
pub fn refinement_prompt(text: &str) -> (r: Result<String, AppError>)
    ensures
        crate::forms::text_result(r) == refinement_text(text@),
{
    let t = trim(text);
    let n = chars_of(t.as_str()).len();
    if n == 0 {
        return Err(AppError::bad_request("请填写微调提示词"));
    }
    if n > 4000 {
        return Err(AppError::bad_request("微调提示词不能超过 4000 个字"));
    }
    Ok(t)
}

/// What a refinement keeps of the version it refines.
#[derive(Debug)]
pub struct RefinementSource {
    /// The video being refined.
    pub source_video_url: String,
    /// The prompt it was made from: its own, else the shot's.
    pub original_prompt: String,
    /// Its rich prompt when it kept a non-empty one; otherwise the shot's
    /// current rich prompt is frozen instead.
    pub original_prompt_rich: Option<Json>,
    /// Its structured prompt when it kept a non-empty one, else the shot's.
    pub original_structured: Json,
}

pub struct RefinementSourceView {
    pub source_video_url: Seq<char>,
    pub original_prompt: Seq<char>,
    pub original_prompt_rich: Option<JsonView>,
    pub original_structured: JsonView,
}

/// What a refinement keeps of `source`, a version of `shot`, or why it cannot refine it.
pub open spec fn refinement_source(source: JsonView, shot: JsonView) -> Result<RefinementSourceView, AppErrorView> {
    match source.get("video_url"@) {
        Some(JsonView::Text(url)) if url.len() > 0 => {
            let prompt = match source.get("prompt"@) {
                Some(JsonView::Text(p)) if p.len() > 0 => p,
                _ => crate::json::text_or(shot, "prompt"@, Seq::empty()),
            };
            if trimmed(prompt).len() == 0 {
                Err(AppErrorView::BadRequest("所选视频缺少原始提示词，无法微调"@))
            } else {
                Ok(RefinementSourceView {
                    source_video_url: url,
                    original_prompt: prompt,
                    original_prompt_rich: match source.get("prompt_rich"@) {
                        Some(JsonView::Array(items)) if items.len() > 0 => Some(JsonView::Array(items)),
                        _ => None,
                    },
                    original_structured: match source.get("structured"@) {
                        Some(JsonView::Object(entries)) if entries.len() > 0 => JsonView::Object(entries),
                        _ => at(shot, "structured"@),
                    },
                })
            }
        },
        _ => Err(AppErrorView::BadRequest("只能微调已生成完成的视频"@)),
    }
}

pub open spec fn source_result(r: Result<RefinementSource, AppError>) -> Result<RefinementSourceView, AppErrorView> {
    match r {
        Ok(s) => Ok(RefinementSourceView {
            source_video_url: s.source_video_url@,
            original_prompt: s.original_prompt@,
            original_prompt_rich: crate::json::opt_json(s.original_prompt_rich),
            original_structured: s.original_structured@,
        }),
        Err(e) => Err(e@),
    }
}

/// Read what a refinement keeps of a finished version.
pub fn refinement_of(source: &Json, shot: &Json) -> (r: Result<RefinementSource, AppError>)
    ensures
        source_result(r) == refinement_source(source@, shot@),
{
    proof {
        reveal_strlit("");
        assert(""@ =~= Seq::<char>::empty());
    }
    let url = match source.get("video_url") {
        Some(Json::Text(u)) => if chars_of(u.as_str()).len() > 0 {
            u.clone()
        } else {
            return Err(AppError::bad_request("只能微调已生成完成的视频"));
        },
        other => {
            proof {
                match other {
                    Some(v) => crate::json::lemma_view_variant(*v),
                    None => {},
                }
            }
            return Err(AppError::bad_request("只能微调已生成完成的视频"));
        },
    };
    let prompt = match source.get("prompt") {
        Some(Json::Text(p)) => if chars_of(p.as_str()).len() > 0 {
            p.clone()
        } else {
            shot.text_or("prompt", "")
        },
        other => {
            proof {
                match other {
                    Some(v) => crate::json::lemma_view_variant(*v),
                    None => {},
                }
            }
            shot.text_or("prompt", "")
        },
    };
    if chars_of(trim(prompt.as_str()).as_str()).len() == 0 {
        return Err(AppError::bad_request("所选视频缺少原始提示词，无法微调"));
    }
    let rich = match source.get("prompt_rich") {
        Some(Json::Array(items)) => if items.len() > 0 {
            proof {
                crate::json::lemma_view_items(items@);
            }
            Some(Json::Array(crate::json::copy_items(items)))
        } else {
            proof {
                crate::json::lemma_view_items(items@);
            }
            None
        },
        other => {
            proof {
                match other {
                    Some(v) => crate::json::lemma_view_variant(*v),
                    None => {},
                }
            }
            None
        },
    };
    let structured = match source.get("structured") {
        Some(Json::Object(entries)) => if entries.len() > 0 {
            proof {
                crate::json::lemma_view_entries(entries@);
            }
            Json::Object(crate::json::copy_entries(entries))
        } else {
            proof {
                crate::json::lemma_view_entries(entries@);
            }
            value_at(shot, "structured")
        },
        other => {
            proof {
                match other {
                    Some(v) => crate::json::lemma_view_variant(*v),
                    None => {},
                }
            }
            value_at(shot, "structured")
        },
    };
    Ok(RefinementSource { source_video_url: url, original_prompt: prompt, original_prompt_rich: rich, original_structured: structured })
}

/// The input a refinement task freezes.
pub open spec fn refinement_record(
    project_id: Seq<char>,
    shot_id: Seq<char>,
    version_id: JsonView,
    source_version_id: Seq<char>,
    source: RefinementSourceView,
    prompt_rich: JsonView,
    prompt: Seq<char>,
) -> JsonView {
    JsonView::Object(seq![
        ("project_id"@, JsonView::Text(project_id)),
        ("shot_id"@, JsonView::Text(shot_id)),
        ("version_id"@, version_id),
        ("refinement"@, JsonView::Object(seq![
            ("source_version_id"@, JsonView::Text(source_version_id)),
            ("source_video_url"@, JsonView::Text(source.source_video_url)),
            ("original_prompt"@, JsonView::Text(source.original_prompt)),
            ("original_prompt_rich"@, prompt_rich),
            ("original_structured"@, source.original_structured),
            ("prompt"@, JsonView::Text(prompt)),
        ])),
    ])
}

/// The input of a refinement task. `prompt_rich` is the rich prompt the
/// new version starts from, `version_id` the new version's id.
pub fn refinement_snapshot(
    project_id: &str,
    shot_id: &str,
    version_id: Json,
    source_version_id: &str,
    source: &RefinementSource,
    prompt_rich: Json,
    prompt: &str,
) -> (r: Json)
    ensures
        r@ == refinement_record(
            project_id@,
            shot_id@,
            version_id@,
            source_version_id@,
            RefinementSourceView {
                source_video_url: source.source_video_url@,
                original_prompt: source.original_prompt@,
                original_prompt_rich: crate::json::opt_json(source.original_prompt_rich),
                original_structured: source.original_structured@,
            },
            prompt_rich@,
            prompt@,
        ),
{
    let ghost vid = version_id@;
    let ghost pr = prompt_rich@;
    let ghost sv = RefinementSourceView {
        source_video_url: source.source_video_url@,
        original_prompt: source.original_prompt@,
        original_prompt_rich: crate::json::opt_json(source.original_prompt_rich),
        original_structured: source.original_structured@,
    };
    let inner: Vec<(String, Json)> = vec![
        ("source_version_id".to_owned(), Json::Text(source_version_id.to_owned())),
        ("source_video_url".to_owned(), Json::Text(source.source_video_url.clone())),
        ("original_prompt".to_owned(), Json::Text(source.original_prompt.clone())),
        ("original_prompt_rich".to_owned(), prompt_rich),
        ("original_structured".to_owned(), crate::json::duplicate(&source.original_structured)),
        ("prompt".to_owned(), Json::Text(prompt.to_owned())),
    ];
    proof {
        crate::json::lemma_view_entries(inner@);
        assert(view_entries(inner@) =~= refinement_record(project_id@, shot_id@, vid, source_version_id@, sv, pr, prompt@)->Object_0[3].1->Object_0);
    }
    let outer: Vec<(String, Json)> = vec![
        ("project_id".to_owned(), Json::Text(project_id.to_owned())),
        ("shot_id".to_owned(), Json::Text(shot_id.to_owned())),
        ("version_id".to_owned(), version_id),
        ("refinement".to_owned(), Json::Object(inner)),
    ];
    proof {
        crate::json::lemma_view_entries(outer@);
        assert(view_entries(outer@) =~= refinement_record(project_id@, shot_id@, vid, source_version_id@, sv, pr, prompt@)->Object_0);
    }
    Json::Object(outer)
}

/// How many video runs one request may start: 1 to 3.
pub fn video_run_count(count: i64) -> (r: Result<(), AppError>)
    ensures
        crate::error::unit_result(r) == if 1 <= count && count <= 3 {
            Ok::<(), AppErrorView>(())
        } else {
            Err(AppErrorView::BadRequest("一次生成视频的数量必须为 1 到 3"@))
        },
{
    if 1 <= count && count <= 3 {
        Ok(())
    } else {
        Err(AppError::bad_request("一次生成视频的数量必须为 1 到 3"))
    }
}

/// What a video run's task freezes: its project, shot and version, and,
/// within a serial batch, the frame it starts from and the batch it belongs to.
pub open spec fn run_snapshot_of(
    project_id: Seq<char>,
    shot_id: Seq<char>,
    version_id: JsonView,
    serial_first_frame: Option<Seq<char>>,
    parent_task_id: Option<Seq<char>>,
) -> JsonView {
    let base: Seq<(Seq<char>, JsonView)> = seq![
        ("project_id"@, JsonView::Text(project_id)),
        ("shot_id"@, JsonView::Text(shot_id)),
        ("version_id"@, version_id),
    ];
    let framed = match serial_first_frame {
        Some(f) => base.push(("serial_first_frame"@, JsonView::Text(f))),
        None => base,
    };
    JsonView::Object(match parent_task_id {
        Some(p) => framed.push(("parent_task_id"@, JsonView::Text(p))),
        None => framed,
    })
}

/// The input a video run's task freezes; `version_id` is the id of the
/// version card created for the run.
pub fn run_snapshot(
    project_id: &str,
    shot_id: &str,
    version_id: &Json,
    serial_first_frame: Option<&str>,
    parent_task_id: Option<&str>,
) -> (r: Json)
    ensures
        r@ == run_snapshot_of(project_id@, shot_id@, version_id@, crate::graph::opt_text(serial_first_frame), crate::graph::opt_text(parent_task_id)),
{
    let mut entries: Vec<(String, Json)> = vec![
        ("project_id".to_owned(), Json::Text(project_id.to_owned())),
        ("shot_id".to_owned(), Json::Text(shot_id.to_owned())),
        ("version_id".to_owned(), crate::json::duplicate(version_id)),
    ];
    proof {
        crate::json::lemma_view_entries(entries@);
    }
    match serial_first_frame {
        Some(f) => {
            let pair = ("serial_first_frame".to_owned(), Json::Text(f.to_owned()));
            proof {
                crate::json::lemma_view_entries_push(entries@, pair);
            }
            entries.push(pair);
        },
        None => {},
    }
    match parent_task_id {
        Some(p) => {
            let pair = ("parent_task_id".to_owned(), Json::Text(p.to_owned()));
            proof {
                crate::json::lemma_view_entries_push(entries@, pair);
            }
            entries.push(pair);
        },
        None => {},
    }
    proof {
        assert(view_entries(entries@) =~= run_snapshot_of(project_id@, shot_id@, version_id@, crate::graph::opt_text(serial_first_frame), crate::graph::opt_text(parent_task_id))->Object_0);
    }
    Json::Object(entries)
}

} // verus!
