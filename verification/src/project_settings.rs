//! Editing the settings of a project or a game: which fields a request
//! changes, and the values they take.

use vstd::prelude::*;

use crate::error::{AppError, AppErrorView};
use crate::forms::{boolean_field, optional_boolean};
use crate::json::{entry_get, lookup, view_entries, Entries, Json, JsonView};
use crate::text::{chars_of, concat, trim, trimmed};

verus! {

/// A value a stored field takes: a text, an integer, a document kept as
/// JSON, or nothing.
#[derive(Debug)]
pub enum ColumnValue {
    Text(String),
    Integer(i64),
    Document(Json),
    Null,
}

pub enum ColumnValueView {
    Text(Seq<char>),
    Integer(i64),
    Document(JsonView),
    Null,
}

impl View for ColumnValue {
    type V = ColumnValueView;

    open spec fn view(&self) -> ColumnValueView {
        match self {
            ColumnValue::Text(s) => ColumnValueView::Text(s@),
            ColumnValue::Integer(i) => ColumnValueView::Integer(*i),
            ColumnValue::Document(j) => ColumnValueView::Document(j@),
            ColumnValue::Null => ColumnValueView::Null,
        }
    }
}

/// The text settings of a project, each stored under its own name.
pub open spec fn project_text_keys() -> Seq<Seq<char>> {
    seq![
        "name"@,
        "ratio"@,
        "style"@,
        "theme"@,
        "resolution"@,
        "language_model"@,
        "multimodal_model"@,
        "video_model"@,
        "video_public_prompt"@,
    ]
}

/// The text settings a request changes, in the listed order: each given
/// as a text must not be blank and is kept as given; other values are ignored.
pub open spec fn text_updates(values: Entries, keys: Seq<Seq<char>>) -> Result<Seq<(Seq<char>, ColumnValueView)>, AppErrorView>
    decreases keys.len(),
{
    if keys.len() == 0 {
        Ok(Seq::empty())
    } else {
        match text_updates(values, keys.drop_last()) {
            Err(e) => Err(e),
            Ok(done) => {
                let key = keys.last();
                match lookup(values, key) {
                    Some(JsonView::Text(v)) => if trimmed(v).len() == 0 {
                        Err(AppErrorView::BadRequest(key + " 不能为空"@))
                    } else {
                        Ok(done.push((key, ColumnValueView::Text(v))))
                    },
                    _ => Ok(done),
                }
            },
        }
    }
}

/// A document setting, when the request gives it.
pub open spec fn document_update(values: Entries, key: Seq<char>, column: Seq<char>) -> Seq<(Seq<char>, ColumnValueView)> {
    match lookup(values, key) {
        Some(v) => seq![(column, ColumnValueView::Document(v))],
        None => Seq::empty(),
    }
}

/// The stored fields a project edit changes, or why it is refused.
pub open spec fn project_update_list(values: Entries) -> Result<Seq<(Seq<char>, ColumnValueView)>, AppErrorView> {
    if values.len() == 0 {
        Err(AppErrorView::BadRequest("没有可保存的项目字段"@))
    } else {
        match text_updates(values, project_text_keys()) {
            Err(e) => Err(e),
            Ok(texts) => match boolean_field(values, "enable_web_search"@) {
                Err(e) => Err(e),
                Ok(flag) => {
                    let with_flag = match flag {
                        Some(b) => texts.push(("enable_web_search"@, ColumnValueView::Integer(if b { 1 } else { 0 }))),
                        None => texts,
                    };
                    let all = with_flag
                        + document_update(values, "asset_public_prompts"@, "asset_public_prompts_json"@)
                        + document_update(values, "shot_constraints"@, "shot_constraints_json"@);
                    if all.len() == 0 {
                        Err(AppErrorView::BadRequest("没有可保存的项目字段"@))
                    } else {
                        Ok(all)
                    }
                },
            },
        }
    }
}

pub open spec fn updates_view(v: Seq<(String, ColumnValue)>) -> Seq<(Seq<char>, ColumnValueView)> {
    Seq::new(v.len(), |i: int| (v[i].0@, v[i].1@))
}

pub open spec fn updates_result(r: Result<Vec<(String, ColumnValue)>, AppError>) -> Result<Seq<(Seq<char>, ColumnValueView)>, AppErrorView> {
    match r {
        Ok(v) => Ok(updates_view(v@)),
        Err(e) => Err(e@),
    }
}

proof fn lemma_text_updates_error(values: Entries, keys: Seq<Seq<char>>, k: int)
    requires
        0 <= k <= keys.len(),
        text_updates(values, keys.subrange(0, k)) is Err,
    ensures
        text_updates(values, keys) == text_updates(values, keys.subrange(0, k)),
    decreases keys.len() - k,
{
    if k < keys.len() {
        assert(keys.drop_last().subrange(0, k) =~= keys.subrange(0, k));
        lemma_text_updates_error(values, keys.drop_last(), k);
    } else {
        assert(keys.subrange(0, k) =~= keys);
    }
}

/// The stored fields a project edit changes.
pub fn project_updates(values: &Vec<(String, Json)>) -> (r: Result<Vec<(String, ColumnValue)>, AppError>)
    ensures
        updates_result(r) == project_update_list(view_entries(values@)),
{
    proof {
        crate::json::lemma_view_entries(values@);
    }
    if values.len() == 0 {
        return Err(AppError::bad_request("没有可保存的项目字段"));
    }
    let keys = vec![
        "name",
        "ratio",
        "style",
        "theme",
        "resolution",
        "language_model",
        "multimodal_model",
        "video_model",
        "video_public_prompt",
    ];
    proof {
        assert(crate::skills::strs_view(keys@) =~= project_text_keys());
    }
    let ghost kv = project_text_keys();
    let mut updates: Vec<(String, ColumnValue)> = Vec::new();
    let mut i: usize = 0;
    proof {
        assert(kv.subrange(0, 0) =~= Seq::<Seq<char>>::empty());
        assert(updates_view(updates@) =~= Seq::<(Seq<char>, ColumnValueView)>::empty());
    }
    while i < keys.len()
        invariant
            i <= keys.len(),
            crate::skills::strs_view(keys@) == kv,
            kv == project_text_keys(),
            view_entries(values@).len() > 0,
            text_updates(view_entries(values@), kv.subrange(0, i as int)) == Ok::<Seq<(Seq<char>, ColumnValueView)>, AppErrorView>(updates_view(updates@)),
        decreases keys.len() - i,
    {
        let key = keys[i];
        proof {
            let next = kv.subrange(0, i + 1);
            assert(next.drop_last() =~= kv.subrange(0, i as int));
            assert(next.last() == key@);
        }
        match entry_get(values, key) {
            Some(Json::Text(v)) => {
                if chars_of(trim(v.as_str()).as_str()).len() == 0 {
                    proof {
                        lemma_text_updates_error(view_entries(values@), kv, i + 1);
                    }
                    return Err(AppError::BadRequest(concat(key, " 不能为空")));
                }
                let ghost before = updates_view(updates@);
                updates.push((key.to_owned(), ColumnValue::Text(v.clone())));
                proof {
                    assert(updates_view(updates@) =~= before.push((key@, ColumnValueView::Text(v@))));
                }
            },
            other => {
                proof {
                    match other {
                        Some(x) => crate::json::lemma_view_variant(*x),
                        None => {},
                    }
                }
            },
        }
        i += 1;
    }
    proof {
        assert(kv.subrange(0, keys.len() as int) =~= kv);
    }
    let flag = optional_boolean(values, "enable_web_search")?;
    if let Some(b) = flag {
        let n: i64 = if b {
            1
        } else {
            0
        };
        let ghost before = updates_view(updates@);
        updates.push(("enable_web_search".to_owned(), ColumnValue::Integer(n)));
        proof {
            assert(updates_view(updates@) =~= before.push(("enable_web_search"@, ColumnValueView::Integer(n))));
        }
    }
    let ghost with_flag = updates_view(updates@);
    match entry_get(values, "asset_public_prompts") {
        Some(v) => {
            updates.push(("asset_public_prompts_json".to_owned(), ColumnValue::Document(crate::json::duplicate(v))));
        },
        None => {},
    }
    let ghost with_prompts = updates_view(updates@);
    proof {
        assert(with_prompts =~= with_flag + document_update(view_entries(values@), "asset_public_prompts"@, "asset_public_prompts_json"@));
    }
    match entry_get(values, "shot_constraints") {
        Some(v) => {
            updates.push(("shot_constraints_json".to_owned(), ColumnValue::Document(crate::json::duplicate(v))));
        },
        None => {},
    }
    proof {
        assert(updates_view(updates@) =~= with_prompts + document_update(view_entries(values@), "shot_constraints"@, "shot_constraints_json"@));
    }
    if updates.len() == 0 {
        return Err(AppError::bad_request("没有可保存的项目字段"));
    }
    Ok(updates)
}

/// The parameters of a game: its visual style, its three models and, when
/// given, whether the language model may search the web.
#[derive(Debug)]
pub struct GameParameters {
    pub style: String,
    pub language_model: String,
    pub multimodal_model: String,
    pub video_model: String,
    pub enable_web_search: Option<bool>,
}

pub struct GameParametersView {
    pub style: Seq<char>,
    pub language_model: Seq<char>,
    pub multimodal_model: Seq<char>,
    pub video_model: Seq<char>,
    pub enable_web_search: Option<bool>,
}

/// A trimmed text field that must not be empty.
pub open spec fn model_field(values: Entries, key: Seq<char>) -> Result<Seq<char>, AppErrorView> {
    match lookup(values, key) {
        Some(JsonView::Text(v)) if trimmed(v).len() > 0 => Ok(trimmed(v)),
        _ => Err(AppErrorView::BadRequest(key + " 不能为空"@)),
    }
}

/// The visual styles a game can have.
pub open spec fn game_style_allowed(style: Seq<char>) -> bool {
    style == "真人风格"@ || style == "2D动漫"@ || style == "3D动漫"@
}

/// The parameters a game edit sets, or the first problem with them.
pub open spec fn game_parameters_of(values: Entries) -> Result<GameParametersView, AppErrorView> {
    let style = match lookup(values, "style"@) {
        Some(JsonView::Text(s)) => trimmed(s),
        _ => Seq::empty(),
    };
    if !game_style_allowed(style) {
        Err(AppErrorView::BadRequest("不支持的游戏视觉风格"@))
    } else {
        match model_field(values, "language_model"@) {
            Err(e) => Err(e),
            Ok(language) => match model_field(values, "multimodal_model"@) {
                Err(e) => Err(e),
                Ok(multimodal) => match model_field(values, "video_model"@) {
                    Err(e) => Err(e),
                    Ok(video) => match boolean_field(values, "enable_web_search"@) {
                        Err(e) => Err(e),
                        Ok(flag) => Ok(GameParametersView {
                            style,
                            language_model: language,
                            multimodal_model: multimodal,
                            video_model: video,
                            enable_web_search: flag,
                        }),
                    },
                },
            },
        }
    }
}

fn model_of(values: &Vec<(String, Json)>, key: &str) -> (r: Result<String, AppError>)
    ensures
        crate::forms::text_result(r) == model_field(view_entries(values@), key@),
{
    match entry_get(values, key) {
        Some(Json::Text(v)) => {
            let t = trim(v.as_str());
            if chars_of(t.as_str()).len() > 0 {
                Ok(t)
            } else {
                Err(AppError::BadRequest(concat(key, " 不能为空")))
            }
        },
        other => {
            proof {
                match other {
                    Some(x) => crate::json::lemma_view_variant(*x),
                    None => {},
                }
            }
            Err(AppError::BadRequest(concat(key, " 不能为空")))
        },
    }
}

pub open spec fn parameters_result(r: Result<GameParameters, AppError>) -> Result<GameParametersView, AppErrorView> {
    match r {
        Ok(p) => Ok(GameParametersView {
            style: p.style@,
            language_model: p.language_model@,
            multimodal_model: p.multimodal_model@,
            video_model: p.video_model@,
            enable_web_search: p.enable_web_search,
        }),
        Err(e) => Err(e@),
    }
}

/// Read the parameters a game edit sets.
pub fn game_parameters(values: &Vec<(String, Json)>) -> (r: Result<GameParameters, AppError>)
    ensures
        parameters_result(r) == game_parameters_of(view_entries(values@)),
{
    let style = match entry_get(values, "style") {
        Some(Json::Text(s)) => trim(s.as_str()),
        other => {
            proof {
                match other {
                    Some(x) => crate::json::lemma_view_variant(*x),
                    None => {},
                }
            }
            String::new()
        },
    };
    let s = style.as_str();
    if !(crate::json::str_eq(s, "真人风格") || crate::json::str_eq(s, "2D动漫") || crate::json::str_eq(s, "3D动漫")) {
        return Err(AppError::bad_request("不支持的游戏视觉风格"));
    }
    let language_model = model_of(values, "language_model")?;
    let multimodal_model = model_of(values, "multimodal_model")?;
    let video_model = model_of(values, "video_model")?;
    let enable_web_search = optional_boolean(values, "enable_web_search")?;
    Ok(GameParameters { style, language_model, multimodal_model, video_model, enable_web_search })
}

/// A game's shared material prompts after an edit sets the prompt of one
/// kind: the saved prompts (none when `saved` holds no object), with the
/// kind's prompt, trimmed, stored over them.
pub open spec fn public_prompts_of(values: Entries, saved: Seq<char>) -> Result<Entries, AppErrorView> {
    match crate::forms::image_kind(values) {
        Err(e) => Err(e),
        Ok(kind) => {
            let prompt = match lookup(values, "public_prompt"@) {
                Some(JsonView::Text(p)) => trimmed(p),
                _ => Seq::empty(),
            };
            let prompts = match crate::json::parsed_json(saved) {
                Some(JsonView::Object(e)) => e,
                _ => Seq::empty(),
            };
            Ok(crate::json::insert_entry(prompts, kind, JsonView::Text(prompt)))
        },
    }
}

/// Set the shared prompt of one material kind among a game's saved prompts
/// (`saved`, the stored text).
pub fn public_prompts(values: &Vec<(String, Json)>, saved: &str) -> (r: Result<Vec<(String, Json)>, AppError>)
    ensures
        crate::settings_import::entries_result(r) == public_prompts_of(view_entries(values@), saved@),
{
    let kind = crate::forms::required_kind(values)?;
    let prompt = match entry_get(values, "public_prompt") {
        Some(Json::Text(p)) => trim(p.as_str()),
        other => {
            proof {
                match other {
                    Some(v) => crate::json::lemma_view_variant(*v),
                    None => {},
                }
            }
            String::new()
        },
    };
    let mut prompts: Vec<(String, Json)> = match crate::json::parse_json(saved) {
        Some(Json::Object(e)) => e,
        other => {
            proof {
                match other {
                    Some(v) => crate::json::lemma_view_variant(v),
                    None => {},
                }
            }
            let empty: Vec<(String, Json)> = Vec::new();
            proof {
                crate::json::lemma_view_entries(empty@);
                assert(view_entries(empty@) =~= Seq::<(Seq<char>, JsonView)>::empty());
            }
            empty
        },
    };
    crate::json::entry_insert(&mut prompts, kind, Json::Text(prompt));
    Ok(prompts)
}

} // verus!
