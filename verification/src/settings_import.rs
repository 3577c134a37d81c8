//! The documented Chinese settings document: its five sections, translated
//! into the internal model and storage settings before anything is probed or saved.

use vstd::prelude::*;

use crate::error::{AppError, AppErrorView};
use crate::forms::{text_at, text_value};
use crate::json::{entry_get, lookup, str_eq, text, view_entries, view_items, Entries, Json, JsonView};
use crate::text::{chars_of, concat, concat3, trim, trimmed};

verus! {

/// The entries of the object stored under `key`, if it is an object.
pub open spec fn object_at(values: Entries, key: Seq<char>) -> Option<Entries> {
    match lookup(values, key) {
        Some(JsonView::Object(e)) => Some(e),
        _ => None,
    }
}

pub open spec fn required_object_field(values: Entries, key: Seq<char>) -> Result<Entries, AppErrorView> {
    match object_at(values, key) {
        Some(e) => Ok(e),
        None => Err(AppErrorView::BadRequest("缺少或无效的“"@ + key + "”配置"@)),
    }
}

pub open spec fn required_string_field(source: Entries, key: Seq<char>, section: Seq<char>) -> Result<Seq<char>, AppErrorView> {
    let v = text_at(source, key, ""@);
    if v.len() == 0 {
        Err(AppErrorView::BadRequest(section + "缺少 "@ + key))
    } else {
        Ok(v)
    }
}

pub open spec fn entries_result(r: Result<Vec<(String, Json)>, AppError>) -> Result<Entries, AppErrorView> {
    match r {
        Ok(e) => Ok(view_entries(e@)),
        Err(e) => Err(e@),
    }
}

/// The object stored under `key`, or an error naming the missing section.
pub fn required_object<'a>(root: &'a Vec<(String, Json)>, key: &str) -> (r: Result<&'a Vec<(String, Json)>, AppError>)
    ensures
        match r {
            Ok(e) => required_object_field(view_entries(root@), key@) == Ok::<Entries, AppErrorView>(view_entries(e@)),
            Err(e) => required_object_field(view_entries(root@), key@) == Err::<Entries, AppErrorView>(e@),
        },
{
    match entry_get(root, key) {
        Some(Json::Object(e)) => Ok(e),
        other => {
            proof {
                match other {
                    Some(v) => crate::json::lemma_view_variant(*v),
                    None => {},
                }
            }
            Err(AppError::BadRequest(concat3("缺少或无效的“", key, "”配置")))
        },
    }
}

/// A non-empty text field of a settings section.
pub fn required_string(source: &Vec<(String, Json)>, key: &str, section: &str) -> (r: Result<String, AppError>)
    ensures
        crate::forms::text_result(r) == required_string_field(view_entries(source@), key@, section@),
{
    let value = text_value(source, key, "");
    if chars_of(value.as_str()).len() == 0 {
        Err(AppError::BadRequest(concat3(section, "缺少 ", key)))
    } else {
        Ok(value)
    }
}

/// An ASCII digit.
pub open spec fn is_digit(c: char) -> bool {
    '0' <= c && c <= '9'
}

/// The number written by a run of ASCII digits.
pub open spec fn digits_value(s: Seq<char>) -> int
    decreases s.len(),
{
    if s.len() == 0 {
        0
    } else {
        digits_value(s.drop_last()) * 10 + ((s.last() as int) - ('0' as int))
    }
}

pub open spec fn all_digits(s: Seq<char>) -> bool {
    forall|i: int| 0 <= i < s.len() ==> #[trigger] is_digit(s[i])
}

/// The integer that `str::parse::<i64>` reads, before any range limit: an
/// optional sign then at least one ASCII digit.
pub open spec fn parsed_int(s: Seq<char>) -> Option<int> {
    if s.len() > 0 && (s[0] == '+' || s[0] == '-') {
        let d = s.drop_first();
        if d.len() > 0 && all_digits(d) {
            Some(if s[0] == '-' {
                -digits_value(d)
            } else {
                digits_value(d)
            })
        } else {
            None
        }
    } else if s.len() > 0 && all_digits(s) {
        Some(digits_value(s))
    } else {
        None
    }
}

proof fn lemma_digits_value_nonneg(s: Seq<char>)
    requires
        all_digits(s),
    ensures
        digits_value(s) >= 0,
    decreases s.len(),
{
    if s.len() > 0 {
        assert(is_digit(s[s.len() - 1]));
        assert forall|i: int| 0 <= i < s.drop_last().len() implies #[trigger] is_digit(s.drop_last()[i]) by {
            assert(s.drop_last()[i] == s[i]);
        }
        lemma_digits_value_nonneg(s.drop_last());
    }
}

/// The value of a run of digits, or `None` when the text is not one; values above 100 read as 101.
fn small_digits(s: &Vec<char>, start: usize) -> (r: Option<u64>)
    requires
        start <= s.len(),
    ensures
        match r {
            Some(v) => all_digits(s@.subrange(start as int, s.len() as int)) && (if digits_value(
                s@.subrange(start as int, s.len() as int),
            ) > 100 {
                v == 101
            } else {
                v == digits_value(s@.subrange(start as int, s.len() as int))
            }),
            None => !all_digits(s@.subrange(start as int, s.len() as int)),
        },
{
    let mut acc: u64 = 0;
    let mut i = start;
    while i < s.len()
        invariant
            start <= i <= s.len(),
            all_digits(s@.subrange(start as int, i as int)),
            digits_value(s@.subrange(start as int, i as int)) >= 0,
            if digits_value(s@.subrange(start as int, i as int)) > 100 {
                acc == 101
            } else {
                acc == digits_value(s@.subrange(start as int, i as int))
            },
        decreases s.len() - i,
    {
        let c = s[i];
        let ghost prefix = s@.subrange(start as int, i as int);
        let ghost next = s@.subrange(start as int, i + 1);
        proof {
            assert(next.drop_last() =~= prefix);
            assert(next.last() == c);
        }
        if !('0' <= c && c <= '9') {
            proof {
                assert(s@.subrange(start as int, s.len() as int)[i - start] == c);
                assert(!is_digit(s@.subrange(start as int, s.len() as int)[i - start]));
            }
            return None;
        }
        let d = (c as u32 - '0' as u32) as u64;
        proof {
            assert forall|k: int| 0 <= k < next.len() implies #[trigger] is_digit(next[k]) by {
                if k < prefix.len() {
                    assert(next[k] == prefix[k]);
                }
            }
        }
        if acc > 100 {
            acc = 101;
        } else {
            let value = acc * 10 + d;
            acc = if value > 100 {
                101
            } else {
                value
            };
        }
        i += 1;
    }
    Some(acc)
}

/// Read a concurrency setting written as text: `str::parse::<i64>` after
/// trimming, reported only when it lies within 1 to 8.
fn text_concurrency(value: &str) -> (r: Option<i64>)
    ensures
        match r {
            Some(n) => parsed_int(trimmed(value@)) == Some(n as int) && 1 <= n <= 8,
            None => !(parsed_int(trimmed(value@)) matches Some(n) && 1 <= n <= 8),
        },
{
    let t = trim(value);
    let chars = chars_of(t.as_str());
    if chars.len() == 0 {
        return None;
    }
    let signed = chars[0] == '+' || chars[0] == '-';
    if signed && chars.len() == 1 {
        return None;
    }
    let start: usize = if signed {
        1
    } else {
        0
    };
    proof {
        if signed {
            assert(chars@.subrange(1, chars.len() as int) =~= chars@.drop_first());
        } else {
            assert(chars@.subrange(0, chars.len() as int) =~= chars@);
        }
    }
    let v = match small_digits(&chars, start) {
        Some(v) => v,
        None => {
            return None;
        },
    };
    if chars[0] == '-' || v < 1 || v > 8 {
        proof {
            lemma_digits_value_nonneg(chars@.subrange(start as int, chars.len() as int));
        }
        return None;
    }
    Some(v as i64)
}

/// What a `concurrency` value reads as: an integer, or a text that parses as one.
pub open spec fn concurrency_value(v: JsonView) -> Option<int> {
    match v {
        JsonView::Int(i) => Some(i as int),
        JsonView::Text(t) => parsed_int(trimmed(t)),
        _ => None,
    }
}

/// A section's generation concurrency: 2 when absent, else an integer from 1 through 8.
pub open spec fn imported_concurrency_field(source: Entries, section: Seq<char>) -> Result<i64, AppErrorView> {
    match lookup(source, "concurrency"@) {
        None => Ok(2),
        Some(v) => match concurrency_value(v) {
            Some(n) => if 1 <= n && n <= 8 {
                Ok(n as i64)
            } else {
                Err(AppErrorView::BadRequest(section + "的 concurrency 必须是 1 到 8 的整数"@))
            },
            None => Err(AppErrorView::BadRequest(section + "的 concurrency 必须是 1 到 8 的整数"@)),
        },
    }
}

/// Read the generation concurrency of a settings section.
pub fn imported_concurrency(source: &Vec<(String, Json)>, section: &str) -> (r: Result<i64, AppError>)
    ensures
        crate::forms::int_result(r) == imported_concurrency_field(view_entries(source@), section@),
{
    let value = match entry_get(source, "concurrency") {
        None => {
            return Ok(2);
        },
        Some(v) => v,
    };
    proof {
        crate::json::lemma_view_variant(*value);
    }
    let n = match value {
        Json::Int(i) => if 1 <= *i && *i <= 8 {
            Some(*i)
        } else {
            None
        },
        Json::Text(t) => text_concurrency(t.as_str()),
        _ => None,
    };
    match n {
        Some(n) => Ok(n),
        None => Err(AppError::BadRequest(concat(section, "的 concurrency 必须是 1 到 8 的整数"))),
    }
}

/// The provider code of a documented provider name.
pub open spec fn provider_code(label: Seq<char>) -> Option<Seq<char>> {
    if label == "火山引擎"@ {
        Some("ark"@)
    } else if label == "阿里云"@ || label == "阿里云 DashScope"@ {
        Some("dashscope"@)
    } else if label == "腾讯云"@ {
        Some("tencent"@)
    } else {
        None
    }
}

/// The internal settings of one model kind, keys in sorted order; a video
/// model's endpoint is its task-creation URL, and tasks are queried under it.
pub open spec fn model_entries(
    kind: Seq<char>,
    provider: Seq<char>,
    api_key: Seq<char>,
    model: Seq<char>,
    concurrency: i64,
    endpoint: Seq<char>,
) -> Entries {
    if kind == "video"@ {
        seq![
            ("api_key"@, JsonView::Text(api_key)),
            ("create_url"@, JsonView::Text(endpoint)),
            ("generation_concurrency"@, JsonView::Int(concurrency)),
            ("kind"@, JsonView::Text(kind)),
            ("model"@, JsonView::Text(model)),
            ("models"@, JsonView::Array(seq![JsonView::Text(model)])),
            ("provider"@, JsonView::Text(provider)),
            ("query_url"@, JsonView::Text(endpoint + "/{id}"@)),
        ]
    } else {
        seq![
            ("api_key"@, JsonView::Text(api_key)),
            ("endpoint"@, JsonView::Text(endpoint)),
            ("generation_concurrency"@, JsonView::Int(concurrency)),
            ("kind"@, JsonView::Text(kind)),
            ("model"@, JsonView::Text(model)),
            ("models"@, JsonView::Array(seq![JsonView::Text(model)])),
            ("provider"@, JsonView::Text(provider)),
        ]
    }
}

/// One model section of the document: exactly one supported provider whose
/// settings name an endpoint, an API key, a model and a valid concurrency.
pub open spec fn imported_model_field(root: Entries, label: Seq<char>, kind: Seq<char>) -> Result<Entries, AppErrorView> {
    match required_object_field(root, label) {
        Err(e) => Err(e),
        Ok(providers) => if providers.len() != 1 {
            Err(AppErrorView::BadRequest(label + "必须且只能包含一个服务商"@))
        } else {
            match provider_code(providers[0].0) {
                None => Err(AppErrorView::BadRequest(label + "包含不支持的服务商："@ + providers[0].0)),
                Some(provider) => match providers[0].1 {
                    JsonView::Object(source) => match required_string_field(source, "endpoint"@, label) {
                        Err(e) => Err(e),
                        Ok(endpoint) => match required_string_field(source, "apikey"@, label) {
                            Err(e) => Err(e),
                            Ok(api_key) => match required_string_field(source, "模型"@, label) {
                                Err(e) => Err(e),
                                Ok(model) => match imported_concurrency_field(source, label) {
                                    Err(e) => Err(e),
                                    Ok(concurrency) => Ok(model_entries(kind, provider, api_key, model, concurrency, endpoint)),
                                },
                            },
                        },
                    },
                    _ => Err(AppErrorView::BadRequest(label + "的服务商配置必须是对象"@)),
                },
            }
        },
    }
}

fn entry(key: &str, value: Json) -> (r: (String, Json))
    ensures
        r.0@ == key@,
        r.1@ == value@,
{
    (key.to_owned(), value)
}

/// Translate one model section of the settings document.
pub fn imported_model(root: &Vec<(String, Json)>, label: &str, kind: &str) -> (r: Result<Vec<(String, Json)>, AppError>)
    ensures
        entries_result(r) == imported_model_field(view_entries(root@), label@, kind@),
{
    let providers = match required_object(root, label) {
        Ok(p) => p,
        Err(e) => {
            return Err(e);
        },
    };
    proof {
        crate::json::lemma_view_entries(providers@);
    }
    if providers.len() != 1 {
        return Err(AppError::BadRequest(concat(label, "必须且只能包含一个服务商")));
    }
    let provider_label = providers[0].0.as_str();
    let value = &providers[0].1;
    let provider = if str_eq(provider_label, "火山引擎") {
        "ark"
    } else if str_eq(provider_label, "阿里云") || str_eq(provider_label, "阿里云 DashScope") {
        "dashscope"
    } else if str_eq(provider_label, "腾讯云") {
        "tencent"
    } else {
        return Err(AppError::BadRequest(concat3(label, "包含不支持的服务商：", provider_label)));
    };
    proof {
        crate::json::lemma_view_variant(*value);
    }
    let source = match value {
        Json::Object(s) => s,
        _ => {
            return Err(AppError::BadRequest(concat(label, "的服务商配置必须是对象")));
        },
    };
    let endpoint = match required_string(source, "endpoint", label) {
        Ok(v) => v,
        Err(e) => {
            return Err(e);
        },
    };
    let api_key = match required_string(source, "apikey", label) {
        Ok(v) => v,
        Err(e) => {
            return Err(e);
        },
    };
    let model = match required_string(source, "模型", label) {
        Ok(v) => v,
        Err(e) => {
            return Err(e);
        },
    };
    let concurrency = match imported_concurrency(source, label) {
        Ok(v) => v,
        Err(e) => {
            return Err(e);
        },
    };
    let mut models: Vec<Json> = Vec::new();
    models.push(text(model.as_str()));
    proof {
        crate::json::lemma_view_items(models@);
        assert(view_items(models@) =~= seq![JsonView::Text(model@)]);
    }
    let mut result: Vec<(String, Json)> = Vec::new();
    result.push(entry("api_key", text(api_key.as_str())));
    if str_eq(kind, "video") {
        result.push(entry("create_url", text(endpoint.as_str())));
    } else {
        result.push(entry("endpoint", text(endpoint.as_str())));
    }
    result.push(entry("generation_concurrency", Json::Int(concurrency)));
    result.push(entry("kind", text(kind)));
    result.push(entry("model", text(model.as_str())));
    result.push(entry("models", Json::Array(models)));
    result.push(entry("provider", text(provider)));
    if str_eq(kind, "video") {
        let query = concat(endpoint.as_str(), "/{id}");
        result.push(entry("query_url", text(query.as_str())));
    }
    proof {
        crate::json::lemma_view_entries(result@);
        assert(view_entries(result@) =~= model_entries(kind@, provider@, api_key@, model@, concurrency, endpoint@));
    }
    Ok(result)
}

/// The media storage section: a Tencent COS configuration under
/// `媒体存储` / `存储腾讯云cos`, with keys in sorted order.
pub open spec fn imported_storage_field(root: Entries) -> Result<Entries, AppErrorView> {
    let section = "存储腾讯云cos"@;
    match required_object_field(root, "媒体存储"@) {
        Err(e) => Err(e),
        Ok(media) => match required_object_field(media, section) {
            Err(e) => Err(e),
            Ok(source) => match required_string_field(source, "SecretId"@, section) {
                Err(e) => Err(e),
                Ok(secret_id) => match required_string_field(source, "SecretKey"@, section) {
                    Err(e) => Err(e),
                    Ok(secret_key) => match required_string_field(source, "endpoint"@, section) {
                        Err(e) => Err(e),
                        Ok(endpoint) => match required_string_field(source, "桶"@, section) {
                            Err(e) => Err(e),
                            Ok(bucket) => match required_string_field(source, "公开可访问域名"@, section) {
                                Err(e) => Err(e),
                                Ok(public_base_url) => Ok(seq![
                                    ("bucket"@, JsonView::Text(bucket)),
                                    ("endpoint"@, JsonView::Text(endpoint)),
                                    ("prefix"@, JsonView::Text("media"@)),
                                    ("provider"@, JsonView::Text("cos"@)),
                                    ("public_base_url"@, JsonView::Text(public_base_url)),
                                    ("secret_id"@, JsonView::Text(secret_id)),
                                    ("secret_key"@, JsonView::Text(secret_key)),
                                ]),
                            },
                        },
                    },
                },
            },
        },
    }
}

/// Translate the media storage section of the settings document.
pub fn imported_storage(root: &Vec<(String, Json)>) -> (r: Result<Vec<(String, Json)>, AppError>)
    ensures
        entries_result(r) == imported_storage_field(view_entries(root@)),
{
    let media = match required_object(root, "媒体存储") {
        Ok(m) => m,
        Err(e) => {
            return Err(e);
        },
    };
    let section = "存储腾讯云cos";
    let source = match required_object(media, section) {
        Ok(s) => s,
        Err(e) => {
            return Err(e);
        },
    };
    let secret_id = match required_string(source, "SecretId", section) {
        Ok(v) => v,
        Err(e) => {
            return Err(e);
        },
    };
    let secret_key = match required_string(source, "SecretKey", section) {
        Ok(v) => v,
        Err(e) => {
            return Err(e);
        },
    };
    let endpoint = match required_string(source, "endpoint", section) {
        Ok(v) => v,
        Err(e) => {
            return Err(e);
        },
    };
    let bucket = match required_string(source, "桶", section) {
        Ok(v) => v,
        Err(e) => {
            return Err(e);
        },
    };
    let public_base_url = match required_string(source, "公开可访问域名", section) {
        Ok(v) => v,
        Err(e) => {
            return Err(e);
        },
    };
    let mut result: Vec<(String, Json)> = Vec::new();
    result.push(entry("bucket", text(bucket.as_str())));
    result.push(entry("endpoint", text(endpoint.as_str())));
    result.push(entry("prefix", text("media")));
    result.push(entry("provider", text("cos")));
    result.push(entry("public_base_url", text(public_base_url.as_str())));
    result.push(entry("secret_id", text(secret_id.as_str())));
    result.push(entry("secret_key", text(secret_key.as_str())));
    proof {
        crate::json::lemma_view_entries(result@);
        assert(view_entries(result@) =~= seq![
            ("bucket"@, JsonView::Text(bucket@)),
            ("endpoint"@, JsonView::Text(endpoint@)),
            ("prefix"@, JsonView::Text("media"@)),
            ("provider"@, JsonView::Text("cos"@)),
            ("public_base_url"@, JsonView::Text(public_base_url@)),
            ("secret_id"@, JsonView::Text(secret_id@)),
            ("secret_key"@, JsonView::Text(secret_key@)),
        ]);
    }
    Ok(result)
}

/// The display name of a model kind.
pub open spec fn model_label_of(kind: Seq<char>) -> Seq<char> {
    if kind == "language"@ {
        "语言模型"@
    } else if kind == "multimodal"@ {
        "图像模型"@
    } else if kind == "video"@ {
        "视频模型"@
    } else if kind == "audio"@ {
        "音频模型"@
    } else {
        "模型"@
    }
}

/// The display name of a model kind, used in probe failure messages.
pub fn model_label(kind: &str) -> (r: &'static str)
    ensures
        r@ == model_label_of(kind@),
{
    if str_eq(kind, "language") {
        "语言模型"
    } else if str_eq(kind, "multimodal") {
        "图像模型"
    } else if str_eq(kind, "video") {
        "视频模型"
    } else if str_eq(kind, "audio") {
        "音频模型"
    } else {
        "模型"
    }
}

/// The folder of shared configurations that invite codes name.
pub open spec fn invite_base() -> Seq<char> {
    "https://monkey-1256112104.cos.ap-chengdu.myqcloud.com/configs"@
}

/// An ASCII letter or digit.
pub open spec fn ascii_alnum(c: char) -> bool {
    ('0' <= c && c <= '9') || ('a' <= c && c <= 'z') || ('A' <= c && c <= 'Z')
}

/// Where an import's settings document comes from.
#[derive(Debug)]
pub enum SettingsSource {
    /// The document given inline under `config`.
    Document(Json),
    /// The URL of the shared document that an invite code names.
    Download(String),
}

pub enum SettingsSourceView {
    Document(JsonView),
    Download(Seq<char>),
}

/// The source of an import: the inline `config` document, or the shared
/// document of a six-character ASCII letter-or-digit invite code.
pub open spec fn settings_source_of(values: Entries) -> Result<SettingsSourceView, AppErrorView> {
    match lookup(values, "config"@) {
        Some(document) => Ok(SettingsSourceView::Document(document)),
        None => {
            let code = text_at(values, "invite_code"@, ""@);
            if code.len() == 6 && forall|i: int| 0 <= i < 6 ==> #[trigger] ascii_alnum(code[i]) {
                Ok(SettingsSourceView::Download(invite_base() + "/"@ + code + "/config.json"@))
            } else {
                Err(AppErrorView::BadRequest("邀请码必须是 6 位字母或数字"@))
            }
        },
    }
}

/// Decide where an import's settings document comes from.
pub fn settings_source(values: &Vec<(String, Json)>) -> (r: Result<SettingsSource, AppError>)
    ensures
        match r {
            Ok(SettingsSource::Document(d)) => settings_source_of(view_entries(values@)) == Ok::<SettingsSourceView, AppErrorView>(SettingsSourceView::Document(d@)),
            Ok(SettingsSource::Download(u)) => settings_source_of(view_entries(values@)) == Ok::<SettingsSourceView, AppErrorView>(SettingsSourceView::Download(u@)),
            Err(e) => settings_source_of(view_entries(values@)) == Err::<SettingsSourceView, AppErrorView>(e@),
        },
{
    if let Some(document) = entry_get(values, "config") {
        return Ok(SettingsSource::Document(crate::json::duplicate(document)));
    }
    let code = text_value(values, "invite_code", "");
    let chars = chars_of(code.as_str());
    if chars.len() != 6 {
        return Err(AppError::bad_request("邀请码必须是 6 位字母或数字"));
    }
    let mut i: usize = 0;
    while i < 6
        invariant
            i <= 6,
            chars.len() == 6,
            chars@ == code@,
            lookup(view_entries(values@), "config"@) is None,
            code@ == text_at(view_entries(values@), "invite_code"@, ""@),
            forall|k: int| 0 <= k < i ==> #[trigger] ascii_alnum(chars@[k]),
        decreases 6 - i,
    {
        let c = chars[i];
        if !(('0' <= c && c <= '9') || ('a' <= c && c <= 'z') || ('A' <= c && c <= 'Z')) {
            assert(!ascii_alnum(code@[i as int]));
            return Err(AppError::bad_request("邀请码必须是 6 位字母或数字"));
        }
        i += 1;
    }
    let a = concat3("https://monkey-1256112104.cos.ap-chengdu.myqcloud.com/configs", "/", code.as_str());
    Ok(SettingsSource::Download(concat(a.as_str(), "/config.json")))
}

/// The settings an import document describes: four model sections, then storage.
#[derive(Debug)]
pub struct ImportedSettings {
    pub models: Vec<Vec<(String, Json)>>,
    pub storage: Vec<(String, Json)>,
}

/// The four model sections of the document, in the order they are read.
pub open spec fn model_sections() -> Seq<(Seq<char>, Seq<char>)> {
    seq![("语言模型"@, "language"@), ("图像模型"@, "multimodal"@), ("视频模型"@, "video"@), ("音频模型"@, "audio"@)]
}

/// What translating a whole settings document answers: the four model
/// settings and the storage settings, or the first section's error.
pub open spec fn imported_settings_of(document: JsonView) -> Result<(Seq<Entries>, Entries), AppErrorView> {
    match document {
        JsonView::Object(root) => match imported_model_field(root, "语言模型"@, "language"@) {
            Err(e) => Err(e),
            Ok(language) => match imported_model_field(root, "图像模型"@, "multimodal"@) {
                Err(e) => Err(e),
                Ok(multimodal) => match imported_model_field(root, "视频模型"@, "video"@) {
                    Err(e) => Err(e),
                    Ok(video) => match imported_model_field(root, "音频模型"@, "audio"@) {
                        Err(e) => Err(e),
                        Ok(audio) => match imported_storage_field(root) {
                            Err(e) => Err(e),
                            Ok(storage) => Ok((seq![language, multimodal, video, audio], storage)),
                        },
                    },
                },
            },
        },
        _ => Err(AppErrorView::BadRequest("配置 JSON 顶层必须是对象"@)),
    }
}

pub open spec fn models_view(m: Seq<Vec<(String, Json)>>) -> Seq<Entries> {
    Seq::new(m.len(), |i: int| view_entries(m[i]@))
}

/// Translate a settings document before any of it is probed or saved.
pub fn imported_settings(document: &Json) -> (r: Result<ImportedSettings, AppError>)
    ensures
        match r {
            Ok(s) => imported_settings_of(document@) == Ok::<(Seq<Entries>, Entries), AppErrorView>((models_view(s.models@), view_entries(s.storage@))),
            Err(e) => imported_settings_of(document@) == Err::<(Seq<Entries>, Entries), AppErrorView>(e@),
        },
{
    proof {
        crate::json::lemma_view_variant(*document);
    }
    let root = match document {
        Json::Object(root) => root,
        _ => {
            return Err(AppError::bad_request("配置 JSON 顶层必须是对象"));
        },
    };
    let language = match imported_model(root, "语言模型", "language") {
        Ok(m) => m,
        Err(e) => {
            return Err(e);
        },
    };
    let multimodal = match imported_model(root, "图像模型", "multimodal") {
        Ok(m) => m,
        Err(e) => {
            return Err(e);
        },
    };
    let video = match imported_model(root, "视频模型", "video") {
        Ok(m) => m,
        Err(e) => {
            return Err(e);
        },
    };
    let audio = match imported_model(root, "音频模型", "audio") {
        Ok(m) => m,
        Err(e) => {
            return Err(e);
        },
    };
    let storage = match imported_storage(root) {
        Ok(s) => s,
        Err(e) => {
            return Err(e);
        },
    };
    let ghost lv = view_entries(language@);
    let ghost mv = view_entries(multimodal@);
    let ghost vv = view_entries(video@);
    let ghost av = view_entries(audio@);
    let mut models: Vec<Vec<(String, Json)>> = Vec::new();
    models.push(language);
    models.push(multimodal);
    models.push(video);
    models.push(audio);
    proof {
        assert(models_view(models@) =~= seq![lv, mv, vv, av]);
    }
    Ok(ImportedSettings { models, storage })
}

} // verus!
