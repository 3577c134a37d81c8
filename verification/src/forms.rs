//! Field rules for the forms a creator submits: bounded integers, texts,
//! booleans, the interactive-game creation form and the export form.

use vstd::prelude::*;

use crate::error::{unit_result, AppError, AppErrorView};
use crate::json::{entry_get, lookup, str_eq, view_entries, Entries, Json, JsonView};
use crate::text::{chars_of, concat, decimal, decimal_text, trim, trimmed};

verus! {

/// The text stored under `key`, or `default` when it is missing or not a text.
pub open spec fn text_at(values: Entries, key: Seq<char>, default: Seq<char>) -> Seq<char> {
    match lookup(values, key) {
        Some(JsonView::Text(s)) => s,
        _ => default,
    }
}

/// `"{key} 必须在 {minimum} 到 {maximum} 之间"`.
pub open spec fn range_message(key: Seq<char>, minimum: int, maximum: int) -> Seq<char> {
    key + " 必须在 "@ + decimal(minimum) + " 到 "@ + decimal(maximum) + " 之间"@
}

/// A bounded integer setting: the stored integer or `default`, which must lie
/// within `minimum..=maximum`; nothing is clamped.
pub open spec fn integer_setting(
    values: Entries,
    key: Seq<char>,
    default: i64,
    minimum: i64,
    maximum: i64,
) -> Result<i64, AppErrorView> {
    let value = match lookup(values, key) {
        None => Some(default),
        Some(JsonView::Int(i)) => Some(i),
        Some(_) => None,
    };
    match value {
        None => Err(AppErrorView::BadRequest(key + " 必须是整数"@)),
        Some(v) => if minimum <= v && v <= maximum {
            Ok(v)
        } else {
            Err(AppErrorView::BadRequest(range_message(key, minimum as int, maximum as int)))
        },
    }
}

pub open spec fn int_result(r: Result<i64, AppError>) -> Result<i64, AppErrorView> {
    match r {
        Ok(v) => Ok(v),
        Err(e) => Err(e@),
    }
}

pub open spec fn text_result(r: Result<String, AppError>) -> Result<Seq<char>, AppErrorView> {
    match r {
        Ok(v) => Ok(v@),
        Err(e) => Err(e@),
    }
}

/// The text stored under `key`, or `default` when it is missing or not a text.
pub fn text_value(values: &Vec<(String, Json)>, key: &str, default: &str) -> (r: String)
    ensures
        r@ == text_at(view_entries(values@), key@, default@),
{
    match entry_get(values, key) {
        Some(Json::Text(s)) => s.clone(),
        other => {
            proof {
                match other {
                    Some(v) => crate::json::lemma_view_variant(*v),
                    None => {},
                }
            }
            default.to_owned()
        },
    }
}

/// Read a bounded integer setting of the interactive-game form.
pub fn game_integer(
    values: &Vec<(String, Json)>,
    key: &str,
    default: i64,
    minimum: i64,
    maximum: i64,
) -> (r: Result<i64, AppError>)
    ensures
        int_result(r) == integer_setting(view_entries(values@), key@, default, minimum, maximum),
{
    let value = match entry_get(values, key) {
        None => default,
        Some(v) => {
            proof {
                crate::json::lemma_view_variant(*v);
            }
            match v {
                Json::Int(i) => *i,
                _ => {
                    return Err(AppError::BadRequest(concat(key, " 必须是整数")));
                },
            }
        },
    };
    if value < minimum || value > maximum {
        let low = decimal_text(minimum);
        let high = decimal_text(maximum);
        let a = concat(key, " 必须在 ");
        let b = concat(a.as_str(), low.as_str());
        let c = concat(b.as_str(), " 到 ");
        let d = concat(c.as_str(), high.as_str());
        let message = concat(d.as_str(), " 之间");
        return Err(AppError::BadRequest(message));
    }
    Ok(value)
}

/// Read a bounded integer setting of the short-drama creation form.
pub fn create_integer(
    values: &Vec<(String, Json)>,
    key: &str,
    default: i64,
    minimum: i64,
    maximum: i64,
) -> (r: Result<i64, AppError>)
    ensures
        int_result(r) == integer_setting(view_entries(values@), key@, default, minimum, maximum),
{
    game_integer(values, key, default, minimum, maximum)
}

/// An optional boolean field: absent is `None`, a boolean is kept, anything else is refused.
pub open spec fn boolean_field(values: Entries, key: Seq<char>) -> Result<Option<bool>, AppErrorView> {
    match lookup(values, key) {
        None => Ok(None),
        Some(JsonView::Bool(b)) => Ok(Some(b)),
        Some(_) => Err(AppErrorView::BadRequest(key + " 必须是布尔值"@)),
    }
}

pub fn optional_boolean(values: &Vec<(String, Json)>, key: &str) -> (r: Result<Option<bool>, AppError>)
    ensures
        match r {
            Ok(v) => boolean_field(view_entries(values@), key@) == Ok::<Option<bool>, AppErrorView>(v),
            Err(e) => boolean_field(view_entries(values@), key@) == Err::<Option<bool>, AppErrorView>(e@),
        },
{
    match entry_get(values, key) {
        None => Ok(None),
        Some(v) => {
            proof {
                crate::json::lemma_view_variant(*v);
            }
            match v {
                Json::Bool(b) => Ok(Some(*b)),
                _ => Err(AppError::BadRequest(concat(key, " 必须是布尔值"))),
            }
        },
    }
}

/// Node videos of interactive games last 4 to 15 seconds.
pub const GAME_VIDEO_DURATION_MIN: i64 = 4;

pub const GAME_VIDEO_DURATION_MAX: i64 = 15;

/// The interactive-game creation form's rules, in the order they are checked.
pub open spec fn game_form_check(values: Entries) -> Result<(), AppErrorView> {
    let name = text_at(values, "name"@, ""@);
    let platform = text_at(values, "platform"@, "Steam游戏"@);
    let style = text_at(values, "style"@, "真人风格"@);
    let resolution = text_at(values, "resolution"@, "720p"@);
    if !(1 <= name.len() && name.len() <= 120) {
        Err(AppErrorView::BadRequest("游戏名称长度需在 1 到 120 个字之间"@))
    } else if !(platform == "微信小游戏"@ || platform == "手机原生游戏"@ || platform == "Steam游戏"@) {
        Err(AppErrorView::BadRequest("不支持的游戏发布平台"@))
    } else if !(style == "真人风格"@ || style == "2D动漫"@ || style == "3D动漫"@) {
        Err(AppErrorView::BadRequest("不支持的游戏视觉风格"@))
    } else {
        match integer_setting(values, "branch_min"@, 2, 2, 4) {
            Err(e) => Err(e),
            Ok(branch_min) => match integer_setting(values, "branch_max"@, 4, 2, 4) {
                Err(e) => Err(e),
                Ok(branch_max) => match integer_setting(values, "node_duration_min"@, 5, 4, 15) {
                    Err(e) => Err(e),
                    Ok(duration_min) => match integer_setting(values, "node_duration_max"@, 15, 4, 15) {
                        Err(e) => Err(e),
                        Ok(duration_max) => match integer_setting(values, "expanded_script_min_chars"@, 5000, 1, 1000000) {
                            Err(e) => Err(e),
                            Ok(expansion_min) => match integer_setting(values, "expanded_script_max_chars"@, 10000, 1, 1000000) {
                                Err(e) => Err(e),
                                Ok(expansion_max) => match integer_setting(values, "node_script_max_chars"@, 400, 1, 1000000) {
                                    Err(e) => Err(e),
                                    Ok(_) => if branch_min > branch_max {
                                        Err(AppErrorView::BadRequest("branch_min must be less than or equal to branch_max"@))
                                    } else if duration_min > duration_max {
                                        Err(AppErrorView::BadRequest("node_duration_min must be less than or equal to node_duration_max"@))
                                    } else if expansion_min > expansion_max {
                                        Err(AppErrorView::BadRequest("expanded_script_min_chars must be less than or equal to expanded_script_max_chars"@))
                                    } else if !(resolution == "480p"@ || resolution == "720p"@) {
                                        Err(AppErrorView::BadRequest("不支持的游戏节点分辨率"@))
                                    } else {
                                        match lookup(values, "enable_web_search"@) {
                                            Some(v) => if v is Bool {
                                                Ok(())
                                            } else {
                                                Err(AppErrorView::BadRequest("enable_web_search 必须是布尔值"@))
                                            },
                                            None => Ok(()),
                                        }
                                    },
                                },
                            },
                        },
                    },
                },
            },
        }
    }
}

/// Check the interactive-game creation form: name length, platform, style,
/// the bounded integers and their order, resolution and the web-search flag.
pub fn validate_game_form(values: &Vec<(String, Json)>) -> (r: Result<(), AppError>)
    ensures
        unit_result(r) == game_form_check(view_entries(values@)),
{
    let name = text_value(values, "name", "");
    if chars_of(name.as_str()).len() < 1 || chars_of(name.as_str()).len() > 120 {
        return Err(AppError::bad_request("游戏名称长度需在 1 到 120 个字之间"));
    }
    let platform = text_value(values, "platform", "Steam游戏");
    if !str_eq(platform.as_str(), "微信小游戏") && !str_eq(platform.as_str(), "手机原生游戏")
        && !str_eq(platform.as_str(), "Steam游戏") {
        return Err(AppError::bad_request("不支持的游戏发布平台"));
    }
    let style = text_value(values, "style", "真人风格");
    if !str_eq(style.as_str(), "真人风格") && !str_eq(style.as_str(), "2D动漫") && !str_eq(
        style.as_str(),
        "3D动漫",
    ) {
        return Err(AppError::bad_request("不支持的游戏视觉风格"));
    }
    let branch_min = match game_integer(values, "branch_min", 2, 2, 4) {
        Ok(v) => v,
        Err(e) => {
            return Err(e);
        },
    };
    let branch_max = match game_integer(values, "branch_max", 4, 2, 4) {
        Ok(v) => v,
        Err(e) => {
            return Err(e);
        },
    };
    let duration_min = match game_integer(
        values,
        "node_duration_min",
        5,
        GAME_VIDEO_DURATION_MIN,
        GAME_VIDEO_DURATION_MAX,
    ) {
        Ok(v) => v,
        Err(e) => {
            return Err(e);
        },
    };
    let duration_max = match game_integer(
        values,
        "node_duration_max",
        15,
        GAME_VIDEO_DURATION_MIN,
        GAME_VIDEO_DURATION_MAX,
    ) {
        Ok(v) => v,
        Err(e) => {
            return Err(e);
        },
    };
    let expansion_min = match game_integer(values, "expanded_script_min_chars", 5000, 1, 1000000) {
        Ok(v) => v,
        Err(e) => {
            return Err(e);
        },
    };
    let expansion_max = match game_integer(values, "expanded_script_max_chars", 10000, 1, 1000000) {
        Ok(v) => v,
        Err(e) => {
            return Err(e);
        },
    };
    if let Err(e) = game_integer(values, "node_script_max_chars", 400, 1, 1000000) {
        return Err(e);
    }
    if branch_min > branch_max {
        return Err(AppError::bad_request("branch_min must be less than or equal to branch_max"));
    }
    if duration_min > duration_max {
        return Err(
            AppError::bad_request("node_duration_min must be less than or equal to node_duration_max"),
        );
    }
    if expansion_min > expansion_max {
        return Err(
            AppError::bad_request(
                "expanded_script_min_chars must be less than or equal to expanded_script_max_chars",
            ),
        );
    }
    let resolution = text_value(values, "resolution", "720p");
    if !str_eq(resolution.as_str(), "480p") && !str_eq(resolution.as_str(), "720p") {
        return Err(AppError::bad_request("不支持的游戏节点分辨率"));
    }
    match entry_get(values, "enable_web_search") {
        Some(v) => {
            proof {
                crate::json::lemma_view_variant(*v);
            }
            match v {
                Json::Bool(_) => Ok(()),
                _ => Err(AppError::bad_request("enable_web_search 必须是布尔值")),
            }
        },
        None => Ok(()),
    }
}

/// The export format of a video export request, of which only `mp4` exists.
pub open spec fn export_format(values: Entries) -> Result<Seq<char>, AppErrorView> {
    let format = trimmed(text_at(values, "format"@, ""@));
    if format == "mp4"@ {
        Ok(format)
    } else {
        Err(AppErrorView::BadRequest("导出格式仅支持 mp4"@))
    }
}

/// Read the export format of a video export request; only `mp4` is accepted.
pub fn video_export_format(values: &Vec<(String, Json)>) -> (r: Result<String, AppError>)
    ensures
        text_result(r) == export_format(view_entries(values@)),
{
    let raw = text_value(values, "format", "");
    let format = trim(raw.as_str());
    if str_eq(format.as_str(), "mp4") {
        Ok(format)
    } else {
        Err(AppError::bad_request("导出格式仅支持 mp4"))
    }
}

/// The number of characters of a text.
pub fn char_count(value: &str) -> (r: usize)
    ensures
        r == value@.len(),
{
    chars_of(value).len()
}

/// A required text field: present, a text, not blank once trimmed, and at
/// most `maximum` characters; the trimmed text is kept.
pub open spec fn required_text_field(values: Entries, key: Seq<char>, maximum: nat) -> Result<Seq<char>, AppErrorView> {
    let text = match lookup(values, key) {
        Some(JsonView::Text(s)) => trimmed(s),
        _ => Seq::empty(),
    };
    if text.len() == 0 {
        Err(AppErrorView::BadRequest(key + " 不能为空"@))
    } else if text.len() > maximum {
        Err(AppErrorView::BadRequest(key + " 不能超过 "@ + decimal(maximum as int) + " 个字"@))
    } else {
        Ok(text)
    }
}

fn too_long(key: &str, maximum: usize) -> (r: AppError)
    requires
        maximum <= i64::MAX,
    ensures
        r@ == AppErrorView::BadRequest(key@ + " 不能超过 "@ + decimal(maximum as int) + " 个字"@),
{
    let number = decimal_text(maximum as i64);
    let a = concat(key, " 不能超过 ");
    let b = concat(a.as_str(), number.as_str());
    AppError::BadRequest(concat(b.as_str(), " 个字"))
}

/// Read a required text field of a cover request.
pub fn required_text(values: &Vec<(String, Json)>, key: &str, maximum: usize) -> (r: Result<String, AppError>)
    requires
        maximum <= i64::MAX,
    ensures
        text_result(r) == required_text_field(view_entries(values@), key@, maximum as nat),
{
    let text = match entry_get(values, key) {
        Some(Json::Text(s)) => trim(s.as_str()),
        other => {
            proof {
                match other {
                    Some(v) => crate::json::lemma_view_variant(*v),
                    None => {},
                }
            }
            String::new()
        },
    };
    let count = char_count(text.as_str());
    if count == 0 {
        return Err(AppError::BadRequest(concat(key, " 不能为空")));
    }
    if count > maximum {
        return Err(too_long(key, maximum));
    }
    Ok(text)
}

/// An optional text field: absent is empty, a text of at most `maximum`
/// characters is kept as it is, anything else is refused.
pub open spec fn optional_text_field(values: Entries, key: Seq<char>, maximum: nat) -> Result<Seq<char>, AppErrorView> {
    match lookup(values, key) {
        Some(JsonView::Text(s)) => if s.len() > maximum {
            Err(AppErrorView::BadRequest(key + " 不能超过 "@ + decimal(maximum as int) + " 个字"@))
        } else {
            Ok(s)
        },
        None => Ok(Seq::empty()),
        Some(_) => Err(AppErrorView::BadRequest(key + " 必须是字符串"@)),
    }
}

/// Read an optional text field of a cover request.
pub fn optional_text(values: &Vec<(String, Json)>, key: &str, maximum: usize) -> (r: Result<String, AppError>)
    requires
        maximum <= i64::MAX,
    ensures
        text_result(r) == optional_text_field(view_entries(values@), key@, maximum as nat),
{
    let text = match entry_get(values, key) {
        None => String::new(),
        Some(v) => {
            proof {
                crate::json::lemma_view_variant(*v);
            }
            match v {
                Json::Text(s) => s.clone(),
                _ => {
                    return Err(AppError::BadRequest(concat(key, " 必须是字符串")));
                },
            }
        },
    };
    if char_count(text.as_str()) > maximum {
        return Err(too_long(key, maximum));
    }
    Ok(text)
}

/// The non-empty texts of an array, each kept once, in first-seen order.
pub open spec fn unique_texts(items: Seq<JsonView>) -> Seq<Seq<char>>
    decreases items.len(),
{
    if items.len() == 0 {
        Seq::empty()
    } else {
        let before = unique_texts(items.drop_last());
        match items.last() {
            JsonView::Text(s) => if s.len() > 0 && !before.contains(s) {
                before.push(s)
            } else {
                before
            },
            _ => before,
        }
    }
}

pub open spec fn texts_view(v: Seq<String>) -> Seq<Seq<char>> {
    Seq::new(v.len(), |i: int| v[i]@)
}

/// The distinct non-empty ids listed in an optional array, in first-seen order.
pub fn unique_ids(value: Option<&Json>) -> (r: Vec<String>)
    ensures
        texts_view(r@) == match crate::game_state::opt_ref_json(value) {
            Some(JsonView::Array(items)) => unique_texts(items),
            _ => Seq::<Seq<char>>::empty(),
        },
{
    let mut all: Vec<String> = Vec::new();
    let items = match value {
        Some(Json::Array(items)) => items,
        other => {
            proof {
                match other {
                    Some(v) => crate::json::lemma_view_variant(*v),
                    None => {},
                }
                assert(texts_view(all@) =~= Seq::<Seq<char>>::empty());
            }
            return all;
        },
    };
    proof {
        crate::json::lemma_view_items(items@);
    }
    let ghost iv = crate::json::view_items(items@);
    let mut i: usize = 0;
    while i < items.len()
        invariant
            i <= items.len(),
            iv == crate::json::view_items(items@),
            iv.len() == items.len(),
            forall|k: int| 0 <= k < items.len() ==> #[trigger] iv[k] == items@[k]@,
            texts_view(all@) == unique_texts(iv.subrange(0, i as int)),
        decreases items.len() - i,
    {
        proof {
            let next = iv.subrange(0, i + 1);
            assert(next.drop_last() =~= iv.subrange(0, i as int));
            assert(next.last() == iv[i as int]);
            crate::json::lemma_view_variant(items@[i as int]);
        }
        if let Json::Text(id) = &items[i] {
            if char_count(id.as_str()) > 0 {
                let mut seen = false;
                let mut j: usize = 0;
                while j < all.len()
                    invariant
                        j <= all.len(),
                        seen == exists|k: int| 0 <= k < j && all@[k]@ == id@,
                    decreases all.len() - j,
                {
                    if str_eq(all[j].as_str(), id.as_str()) {
                        seen = true;
                    }
                    j += 1;
                }
                proof {
                    let tv = texts_view(all@);
                    if seen {
                        let k = choose|k: int| 0 <= k < all.len() && all@[k]@ == id@;
                        assert(tv[k] == id@);
                    } else {
                        assert forall|k: int| 0 <= k < tv.len() implies tv[k] != id@ by {
                            assert(tv[k] == all@[k]@);
                        }
                    }
                }
                if !seen {
                    let ghost before = texts_view(all@);
                    all.push(id.clone());
                    proof {
                        assert(texts_view(all@) =~= before.push(id@));
                    }
                }
            }
        }
        i += 1;
    }
    proof {
        assert(iv.subrange(0, items.len() as int) =~= iv);
    }
    all
}

/// The longest voice preset name, gender and description, in characters.
pub const MAX_VOICE_NAME_CHARS: usize = 80;

pub const MAX_VOICE_GENDER_CHARS: usize = 20;

pub const MAX_VOICE_DESCRIPTION_CHARS: usize = 500;

/// A voice preset needs a name and a description, within their lengths.
pub open spec fn voice_preset_check(name: Seq<char>, gender: Seq<char>, prompt: Seq<char>) -> Result<(), AppErrorView> {
    if name.len() == 0 || prompt.len() == 0 {
        Err(AppErrorView::BadRequest("音色名称和音色描述不能为空"@))
    } else if name.len() > 80 {
        Err(AppErrorView::BadRequest("音色名称不能超过 80 个字符"@))
    } else if gender.len() > 20 {
        Err(AppErrorView::BadRequest("适用性别不能超过 20 个字符"@))
    } else if prompt.len() > 500 {
        Err(AppErrorView::BadRequest("音色描述不能超过 500 个字符"@))
    } else {
        Ok(())
    }
}

/// Check a creator's voice preset before it is generated.
pub fn validate_voice_preset(name: &str, gender: &str, prompt: &str) -> (r: Result<(), AppError>)
    ensures
        unit_result(r) == voice_preset_check(name@, gender@, prompt@),
{
    let name_len = char_count(name);
    let prompt_len = char_count(prompt);
    if name_len == 0 || prompt_len == 0 {
        return Err(AppError::bad_request("音色名称和音色描述不能为空"));
    }
    if name_len > MAX_VOICE_NAME_CHARS {
        return Err(AppError::bad_request("音色名称不能超过 80 个字符"));
    }
    if char_count(gender) > MAX_VOICE_GENDER_CHARS {
        return Err(AppError::bad_request("适用性别不能超过 20 个字符"));
    }
    if prompt_len > MAX_VOICE_DESCRIPTION_CHARS {
        return Err(AppError::bad_request("音色描述不能超过 500 个字符"));
    }
    Ok(())
}

/// A trimmed, non-empty text field, or the given refusal.
pub open spec fn trimmed_field(values: Entries, key: Seq<char>) -> Seq<char> {
    match lookup(values, key) {
        Some(JsonView::Text(s)) => trimmed(s),
        _ => Seq::empty(),
    }
}

/// Read a required id of a placeholder request: trimmed and not empty.
pub fn required_id(values: &Vec<(String, Json)>, key: &str, message: &str) -> (r: Result<String, AppError>)
    ensures
        text_result(r) == if trimmed_field(view_entries(values@), key@).len() > 0 {
            Ok::<Seq<char>, AppErrorView>(trimmed_field(view_entries(values@), key@))
        } else {
            Err(AppErrorView::BadRequest(message@))
        },
{
    let id = match entry_get(values, key) {
        Some(Json::Text(s)) => trim(s.as_str()),
        other => {
            proof {
                match other {
                    Some(v) => crate::json::lemma_view_variant(*v),
                    None => {},
                }
            }
            String::new()
        },
    };
    if char_count(id.as_str()) == 0 {
        Err(AppError::bad_request(message))
    } else {
        Ok(id)
    }
}

/// Read a non-empty text field of a placeholder request (not trimmed).
pub fn string_value(values: &Vec<(String, Json)>, key: &str) -> (r: Result<String, AppError>)
    ensures
        text_result(r) == match lookup(view_entries(values@), key@) {
            Some(JsonView::Text(s)) => if s.len() > 0 {
                Ok::<Seq<char>, AppErrorView>(s)
            } else {
                Err(AppErrorView::BadRequest("缺少 "@ + key@))
            },
            _ => Err(AppErrorView::BadRequest("缺少 "@ + key@)),
        },
{
    match entry_get(values, key) {
        Some(Json::Text(s)) => if char_count(s.as_str()) > 0 {
            Ok(s.clone())
        } else {
            Err(AppError::BadRequest(concat("缺少 ", key)))
        },
        other => {
            proof {
                match other {
                    Some(v) => crate::json::lemma_view_variant(*v),
                    None => {},
                }
            }
            Err(AppError::BadRequest(concat("缺少 ", key)))
        },
    }
}

/// Read a required field of an input frame: trimmed and not empty.
pub fn required_frame_field(frame: &Vec<(String, Json)>, key: &str, side: &str) -> (r: Result<String, AppError>)
    ensures
        text_result(r) == if trimmed_field(view_entries(frame@), key@).len() > 0 {
            Ok::<Seq<char>, AppErrorView>(trimmed_field(view_entries(frame@), key@))
        } else {
            Err(AppErrorView::BadRequest("输入"@ + side@ + "帧缺少"@ + key@))
        },
{
    let value = match entry_get(frame, key) {
        Some(Json::Text(s)) => trim(s.as_str()),
        other => {
            proof {
                match other {
                    Some(v) => crate::json::lemma_view_variant(*v),
                    None => {},
                }
            }
            String::new()
        },
    };
    if char_count(value.as_str()) == 0 {
        let a = crate::text::concat3("输入", side, "帧缺少");
        Err(AppError::BadRequest(concat(a.as_str(), key)))
    } else {
        Ok(value)
    }
}

/// Require that a material already has an image.
pub fn require_image(asset: &Json, message: &str) -> (r: Result<(), AppError>)
    ensures
        unit_result(r) == if crate::placeholder::blank(asset@.get("image_url"@)) {
            Err(AppErrorView::BadRequest(message@))
        } else {
            Ok::<(), AppErrorView>(())
        },
{
    match asset.get("image_url") {
        Some(Json::Text(u)) => if char_count(u.as_str()) > 0 {
            Ok(())
        } else {
            Err(AppError::bad_request(message))
        },
        other => {
            proof {
                match other {
                    Some(v) => crate::json::lemma_view_variant(*v),
                    None => {},
                }
            }
            Err(AppError::bad_request(message))
        },
    }
}

/// The cover aspect ratio of a game: landscape for Steam games, portrait otherwise.
pub fn game_cover_ratio(game: &Json) -> (r: &'static str)
    ensures
        r@ == if game@.get("platform"@) == Some(JsonView::Text("Steam游戏"@)) {
            "16:9"@
        } else {
            "9:16"@
        },
{
    match game.get("platform") {
        Some(Json::Text(p)) => if str_eq(p.as_str(), "Steam游戏") {
            "16:9"
        } else {
            "9:16"
        },
        other => {
            proof {
                match other {
                    Some(v) => crate::json::lemma_view_variant(*v),
                    None => {},
                }
            }
            "9:16"
        },
    }
}

/// The material kind of an image request: `asset_type`, else `type`, one of character, scene or prop.
pub open spec fn image_kind(values: Entries) -> Result<Seq<char>, AppErrorView> {
    let chosen = match lookup(values, "asset_type"@) {
        Some(v) => Some(v),
        None => lookup(values, "type"@),
    };
    let kind = match chosen {
        Some(JsonView::Text(k)) => k,
        _ => Seq::empty(),
    };
    if kind == "character"@ || kind == "scene"@ || kind == "prop"@ {
        Ok(kind)
    } else {
        Err(AppErrorView::BadRequest("不支持的素材类型"@))
    }
}

/// Read the material kind of an image request.
pub fn required_kind(values: &Vec<(String, Json)>) -> (r: Result<String, AppError>)
    ensures
        text_result(r) == image_kind(view_entries(values@)),
{
    let chosen = match entry_get(values, "asset_type") {
        Some(v) => Some(v),
        None => entry_get(values, "type"),
    };
    let kind = match chosen {
        Some(Json::Text(k)) => k.clone(),
        other => {
            proof {
                match other {
                    Some(v) => crate::json::lemma_view_variant(*v),
                    None => {},
                }
            }
            String::new()
        },
    };
    if str_eq(kind.as_str(), "character") || str_eq(kind.as_str(), "scene") || str_eq(kind.as_str(), "prop") {
        Ok(kind)
    } else {
        Err(AppError::bad_request("不支持的素材类型"))
    }
}

} // verus!
