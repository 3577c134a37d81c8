//! Creator voice presets: what a voice preview is generated from, when a
//! preview may be kept as a preset, and which voice a character may use.

use vstd::prelude::*;

use crate::error::{AppError, AppErrorView};
use crate::forms::{text_at, text_value, texts_view, validate_voice_preset, voice_preset_check};
use crate::json::{entry_get, str_eq, view_entries, Entries, Json, JsonView};
use crate::placeholder::{at, has_text, value_at};
use crate::text::{chars_of, concat, trim, trimmed};
use crate::voices::{is_system_voice, system_voices};

verus! {

/// The preset a preview request names: its trimmed `voice_id`, when not empty.
pub open spec fn requested_id(values: Entries) -> Option<Seq<char>> {
    match crate::json::lookup(values, "voice_id"@) {
        Some(JsonView::Text(id)) => if trimmed(id).len() > 0 {
            Some(trimmed(id))
        } else {
            None
        },
        _ => None,
    }
}

/// The preset a preview request names, which the caller looks up among the enabled presets.
pub fn requested_voice_id(values: &Vec<(String, Json)>) -> (r: Option<String>)
    ensures
        crate::storage::opt_text_view(r) == requested_id(view_entries(values@)),
{
    match entry_get(values, "voice_id") {
        Some(Json::Text(id)) => {
            let trimmed_id = trim(id.as_str());
            if chars_of(trimmed_id.as_str()).len() > 0 {
                Some(trimmed_id)
            } else {
                None
            }
        },
        other => {
            proof {
                match other {
                    Some(v) => crate::json::lemma_view_variant(*v),
                    None => {},
                }
            }
            None
        },
    }
}

/// The line every voice preview reads.
pub open spec fn sample_line() -> Seq<char> {
    "你好，很高兴在这个故事里与你相遇。"@
}

/// The frozen input of a preview task, taken from a preset or a draft.
pub open spec fn task_input(source: JsonView) -> JsonView {
    JsonView::Object(seq![
        ("voice_id"@, at(source, "id"@)),
        ("name"@, JsonView::Text(crate::json::text_or(source, "name"@, Seq::empty()))),
        ("gender"@, JsonView::Text(crate::json::text_or(source, "gender"@, "未标注"@))),
        ("prompt"@, JsonView::Text(crate::json::text_or(source, "prompt"@, Seq::empty()))),
        ("sample_text"@, JsonView::Text(sample_line())),
    ])
}

/// A draft voice taken from the request's fields.
pub open spec fn draft(values: Entries) -> JsonView {
    JsonView::Object(seq![
        ("name"@, JsonView::Text(text_at(values, "name"@, Seq::empty()))),
        ("gender"@, JsonView::Text(text_at(values, "gender"@, Seq::empty()))),
        ("prompt"@, JsonView::Text(text_at(values, "prompt"@, Seq::empty()))),
    ])
}

/// What a preview is generated from. A request naming a preset uses that
/// preset (`preset`, as the caller found it among the enabled presets);
/// otherwise it describes a new voice, which must pass the preset rules.
pub open spec fn voice_source(values: Entries, preset: Option<JsonView>) -> Result<JsonView, AppErrorView> {
    match requested_id(values) {
        Some(id) => if id == "none"@ {
            Err(AppErrorView::BadRequest("“不设置”不能生成音色试听"@))
        } else if system_voices().contains(id) {
            Err(AppErrorView::BadRequest("系统音色已内置试听音源，可直接播放"@))
        } else {
            match preset {
                None => Err(AppErrorView::NotFound("Voice preset not found: "@ + id)),
                Some(p) => Ok(task_input(p)),
            }
        },
        None => match voice_preset_check(
            text_at(values, "name"@, Seq::empty()),
            text_at(values, "gender"@, Seq::empty()),
            text_at(values, "prompt"@, Seq::empty()),
        ) {
            Err(e) => Err(e),
            Ok(()) => Ok(task_input(draft(values))),
        },
    }
}

pub open spec fn json_result(r: Result<Json, AppError>) -> Result<JsonView, AppErrorView> {
    match r {
        Ok(v) => Ok(v@),
        Err(e) => Err(e@),
    }
}

fn input_of(source: &Json) -> (r: Json)
    ensures
        r@ == task_input(source@),
{
    proof {
        reveal_strlit("");
        assert(""@ =~= Seq::<char>::empty());
    }
    let entries: Vec<(String, Json)> = vec![
        ("voice_id".to_owned(), value_at(source, "id")),
        ("name".to_owned(), Json::Text(source.text_or("name", ""))),
        ("gender".to_owned(), Json::Text(source.text_or("gender", "未标注"))),
        ("prompt".to_owned(), Json::Text(source.text_or("prompt", ""))),
        ("sample_text".to_owned(), Json::Text("你好，很高兴在这个故事里与你相遇。".to_owned())),
    ];
    proof {
        crate::json::lemma_view_entries(entries@);
        assert(view_entries(entries@) =~= task_input(source@)->Object_0);
    }
    Json::Object(entries)
}

/// The frozen input of a voice preview task.
pub fn voice_task_source(values: &Vec<(String, Json)>, preset: Option<&Json>) -> (r: Result<Json, AppError>)
    ensures
        json_result(r) == voice_source(view_entries(values@), crate::game_state::opt_ref_json(preset)),
{
    proof {
        reveal_strlit("");
        assert(""@ =~= Seq::<char>::empty());
    }
    match requested_voice_id(values) {
        Some(id) => {
            if str_eq(id.as_str(), "none") {
                return Err(AppError::bad_request("“不设置”不能生成音色试听"));
            }
            if is_system_voice(id.as_str()) {
                return Err(AppError::bad_request("系统音色已内置试听音源，可直接播放"));
            }
            match preset {
                None => Err(AppError::NotFound(concat("Voice preset not found: ", id.as_str()))),
                Some(p) => Ok(input_of(p)),
            }
        },
        None => {
            let name = text_value(values, "name", "");
            let gender = text_value(values, "gender", "");
            let prompt = text_value(values, "prompt", "");
            validate_voice_preset(name.as_str(), gender.as_str(), prompt.as_str())?;
            let entries: Vec<(String, Json)> = vec![
                ("name".to_owned(), Json::Text(name)),
                ("gender".to_owned(), Json::Text(gender)),
                ("prompt".to_owned(), Json::Text(prompt)),
            ];
            proof {
                crate::json::lemma_view_entries(entries@);
                assert(view_entries(entries@) =~= draft(view_entries(values@))->Object_0);
            }
            let source = Json::Object(entries);
            Ok(input_of(&source))
        },
    }
}

/// A finished custom preview may be kept: its audio URL, or why it may not.
pub open spec fn confirmation(task: JsonView) -> Result<Seq<char>, AppErrorView> {
    if task.get("voice_id"@) matches Some(JsonView::Text(_)) {
        Err(AppErrorView::BadRequest("系统音色无需追加确认"@))
    } else if task.get("status"@) != Some(JsonView::Text("生成成功"@)) {
        Err(AppErrorView::BadRequest("请等待音色试听生成成功后再追加"@))
    } else {
        match task.get("audio_url"@) {
            Some(JsonView::Text(url)) => Ok(url),
            _ => Err(AppErrorView::BadRequest("请等待音色试听生成成功后再追加"@)),
        }
    }
}

/// Check that a preview can be kept as a preset, and give its audio URL.
pub fn confirmed_audio_url(task: &Json) -> (r: Result<String, AppError>)
    ensures
        crate::forms::text_result(r) == confirmation(task@),
{
    match task.get("voice_id") {
        Some(Json::Text(_)) => return Err(AppError::bad_request("系统音色无需追加确认")),
        other => {
            proof {
                match other {
                    Some(v) => crate::json::lemma_view_variant(*v),
                    None => {},
                }
            }
        },
    }
    if !has_text(task.get("status"), "生成成功") {
        return Err(AppError::bad_request("请等待音色试听生成成功后再追加"));
    }
    match task.get("audio_url") {
        Some(Json::Text(url)) => Ok(url.clone()),
        other => {
            proof {
                match other {
                    Some(v) => crate::json::lemma_view_variant(*v),
                    None => {},
                }
            }
            Err(AppError::bad_request("请等待音色试听生成成功后再追加"))
        },
    }
}

/// The stored preset made from a preview task, or a conflict when its name is taken.
pub open spec fn new_voice_record(task: JsonView, audio_url: Seq<char>, name_taken: bool, new_id: Seq<char>, sort_order: i64) -> Result<JsonView, AppErrorView> {
    if name_taken {
        Err(AppErrorView::Conflict("已存在同名音色，请修改名称后再保存"@))
    } else {
        Ok(JsonView::Object(seq![
            ("id"@, JsonView::Text("custom-"@ + new_id)),
            ("name"@, JsonView::Text(crate::json::text_or(task, "name"@, Seq::empty()))),
            ("gender"@, at(task, "gender"@)),
            ("prompt"@, at(task, "prompt"@)),
            ("audio_url"@, JsonView::Text(audio_url)),
            ("sort_order"@, JsonView::Int(sort_order)),
        ]))
    }
}

/// The name a preset made from `task` is stored under.
pub fn voice_name(task: &Json) -> (r: String)
    ensures
        r@ == crate::json::text_or(task@, "name"@, Seq::empty()),
{
    proof {
        reveal_strlit("");
        assert(""@ =~= Seq::<char>::empty());
    }
    task.text_or("name", "")
}

/// The preset made from a preview task. `name_taken` says whether a preset
/// already has its name, `new_id` is a fresh id and `sort_order` the next
/// place in the catalog.
pub fn new_voice(task: &Json, audio_url: &str, name_taken: bool, new_id: &str, sort_order: i64) -> (r: Result<Json, AppError>)
    ensures
        json_result(r) == new_voice_record(task@, audio_url@, name_taken, new_id@, sort_order),
{
    if name_taken {
        return Err(AppError::Conflict("已存在同名音色，请修改名称后再保存".to_owned()));
    }
    let entries: Vec<(String, Json)> = vec![
        ("id".to_owned(), Json::Text(concat("custom-", new_id))),
        ("name".to_owned(), Json::Text(voice_name(task))),
        ("gender".to_owned(), value_at(task, "gender")),
        ("prompt".to_owned(), value_at(task, "prompt")),
        ("audio_url".to_owned(), Json::Text(audio_url.to_owned())),
        ("sort_order".to_owned(), Json::Int(sort_order)),
    ];
    proof {
        crate::json::lemma_view_entries(entries@);
        assert(view_entries(entries@) =~= new_voice_record(task@, audio_url@, false, new_id@, sort_order)->Ok_0->Object_0);
    }
    Ok(Json::Object(entries))
}

/// The voice a character uses: none for a missing, null, blank or `none`
/// value; otherwise the trimmed id of an enabled preset.
pub open spec fn voice_choice(value: Option<JsonView>, enabled: Seq<Seq<char>>) -> Result<Option<Seq<char>>, AppErrorView> {
    match value {
        None => Ok(None),
        Some(JsonView::Null) => Ok(None),
        Some(JsonView::Text(raw)) => {
            let id = trimmed(raw);
            if id.len() == 0 || id == "none"@ {
                Ok(None)
            } else if enabled.contains(id) {
                Ok(Some(id))
            } else {
                Err(AppErrorView::BadRequest("Voice preset not found: "@ + id))
            }
        },
        _ => Err(AppErrorView::BadRequest("voice_id 必须是字符串或 null"@)),
    }
}

pub open spec fn choice_view(r: Result<Option<String>, AppError>) -> Result<Option<Seq<char>>, AppErrorView> {
    match r {
        Ok(Some(s)) => Ok(Some(s@)),
        Ok(None) => Ok(None),
        Err(e) => Err(e@),
    }
}

/// Read a character's voice. `enabled_ids` are the ids of the enabled presets.
pub fn normalise_voice_id(value: Option<&Json>, enabled_ids: &Vec<String>) -> (r: Result<Option<String>, AppError>)
    ensures
        choice_view(r) == voice_choice(crate::game_state::opt_ref_json(value), texts_view(enabled_ids@)),
{
    match value {
        None => Ok(None),
        Some(Json::Null) => Ok(None),
        Some(Json::Text(raw)) => {
            let id = trim(raw.as_str());
            if chars_of(id.as_str()).len() == 0 || str_eq(id.as_str(), "none") {
                Ok(None)
            } else if crate::game_video::listed_url(enabled_ids, id.as_str()) {
                proof {
                    assert(crate::game_video::texts_of(enabled_ids@) =~= texts_view(enabled_ids@));
                }
                Ok(Some(id))
            } else {
                proof {
                    assert(crate::game_video::texts_of(enabled_ids@) =~= texts_view(enabled_ids@));
                }
                Err(AppError::BadRequest(concat("Voice preset not found: ", id.as_str())))
            }
        },
        Some(other) => {
            proof {
                crate::json::lemma_view_variant(*other);
            }
            Err(AppError::bad_request("voice_id 必须是字符串或 null"))
        },
    }
}

/// A material's voice is either none or an enabled preset.
pub proof fn lemma_assigned_voice_is_enabled(value: Option<JsonView>, enabled: Seq<Seq<char>>)
    ensures
        voice_choice(value, enabled) matches Ok(Some(id)) ==> enabled.contains(id),
{
}

} // verus!
