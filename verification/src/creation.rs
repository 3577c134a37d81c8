//! Creating a short drama or an interactive game: the settings a creation
//! form yields, the models a new drama may name, and the snapshot its
//! bootstrap task freezes.

use vstd::prelude::*;

use crate::error::{AppError, AppErrorView};
use crate::forms::{
    boolean_field, char_count, create_integer, game_form_check, game_integer, integer_setting,
    optional_boolean, text_at, text_value, validate_game_form,
};
use crate::json::{entry_get, entry_insert, insert_entry, lookup, view_entries, Entries, Json, JsonView};
use crate::settings_models::{contains_model, trimmed_models, unique_trimmed};
use crate::text::{chars_of, trim, trimmed};

verus! {

/// The settings a short-drama creation form yields.
#[derive(Debug)]
pub struct DramaDraft {
    pub name: String,
    pub script: String,
    pub language_model: String,
    pub episode_count: i64,
    pub enable_web_search: bool,
    pub expanded_script_min_chars: i64,
    pub expanded_script_max_chars: i64,
    pub shot_script_max_chars: i64,
}

pub struct DramaDraftView {
    pub name: Seq<char>,
    pub script: Seq<char>,
    pub language_model: Seq<char>,
    pub episode_count: i64,
    pub enable_web_search: bool,
    pub expanded_script_min_chars: i64,
    pub expanded_script_max_chars: i64,
    pub shot_script_max_chars: i64,
}

/// The settings of a new short drama, or the first rule the form breaks:
/// a script of at least 10 characters, 2 to 100 episodes, an optional
/// boolean web-search flag, and expansion bounds in order.
pub open spec fn drama_draft_of(values: Entries) -> Result<DramaDraftView, AppErrorView> {
    let script = text_at(values, "script"@, ""@);
    if script.len() < 10 {
        Err(AppErrorView::BadRequest("剧本文本不少于 10 个字"@))
    } else {
        match integer_setting(values, "episode_count"@, 15, 2, 100) {
            Err(e) => Err(e),
            Ok(episodes) => match boolean_field(values, "enable_web_search"@) {
                Err(e) => Err(e),
                Ok(flag) => match integer_setting(values, "expanded_script_min_chars"@, 5000, 1, 1000000) {
                    Err(e) => Err(e),
                    Ok(minimum) => match integer_setting(values, "expanded_script_max_chars"@, 10000, 1, 1000000) {
                        Err(e) => Err(e),
                        Ok(maximum) => match integer_setting(values, "shot_script_max_chars"@, 400, 1, 1000000) {
                            Err(e) => Err(e),
                            Ok(shot_limit) => if minimum > maximum {
                                Err(AppErrorView::BadRequest("扩写字数最小值不能大于最大值"@))
                            } else {
                                Ok(DramaDraftView {
                                    name: text_at(values, "name"@, ""@),
                                    script,
                                    language_model: text_at(values, "language_model"@, "doubao-seed"@),
                                    episode_count: episodes,
                                    enable_web_search: flag == Some(true),
                                    expanded_script_min_chars: minimum,
                                    expanded_script_max_chars: maximum,
                                    shot_script_max_chars: shot_limit,
                                })
                            },
                        },
                    },
                },
            },
        }
    }
}

pub open spec fn drama_draft_view(d: DramaDraft) -> DramaDraftView {
    DramaDraftView {
        name: d.name@,
        script: d.script@,
        language_model: d.language_model@,
        episode_count: d.episode_count,
        enable_web_search: d.enable_web_search,
        expanded_script_min_chars: d.expanded_script_min_chars,
        expanded_script_max_chars: d.expanded_script_max_chars,
        shot_script_max_chars: d.shot_script_max_chars,
    }
}

pub open spec fn drama_draft_result(r: Result<DramaDraft, AppError>) -> Result<DramaDraftView, AppErrorView> {
    match r {
        Ok(d) => Ok(drama_draft_view(d)),
        Err(e) => Err(e@),
    }
}

/// Read the short-drama creation form.
pub fn drama_draft(values: &Vec<(String, Json)>) -> (r: Result<DramaDraft, AppError>)
    ensures
        drama_draft_result(r) == drama_draft_of(view_entries(values@)),
{
    let name = text_value(values, "name", "");
    let script = text_value(values, "script", "");
    if char_count(script.as_str()) < 10 {
        return Err(AppError::bad_request("剧本文本不少于 10 个字"));
    }
    let episode_count = create_integer(values, "episode_count", 15, 2, 100)?;
    let flag = optional_boolean(values, "enable_web_search")?;
    let minimum = create_integer(values, "expanded_script_min_chars", 5000, 1, 1000000)?;
    let maximum = create_integer(values, "expanded_script_max_chars", 10000, 1, 1000000)?;
    let shot_limit = create_integer(values, "shot_script_max_chars", 400, 1, 1000000)?;
    if minimum > maximum {
        return Err(AppError::bad_request("扩写字数最小值不能大于最大值"));
    }
    let enable_web_search = match flag {
        Some(b) => b,
        None => false,
    };
    Ok(DramaDraft {
        name,
        script,
        language_model: text_value(values, "language_model", "doubao-seed"),
        episode_count,
        enable_web_search,
        expanded_script_min_chars: minimum,
        expanded_script_max_chars: maximum,
        shot_script_max_chars: shot_limit,
    })
}

/// What a new drama's bootstrap task freezes.
pub open spec fn bootstrap_snapshot_of(drama_id: Seq<char>, d: DramaDraftView) -> JsonView {
    JsonView::Object(seq![
        ("drama_id"@, JsonView::Text(drama_id)),
        ("script"@, JsonView::Text(d.script)),
        ("language_model"@, JsonView::Text(d.language_model)),
        ("episode_count"@, JsonView::Int(d.episode_count)),
        ("enable_web_search"@, JsonView::Bool(d.enable_web_search)),
        ("expanded_script_min_chars"@, JsonView::Int(d.expanded_script_min_chars)),
        ("expanded_script_max_chars"@, JsonView::Int(d.expanded_script_max_chars)),
        ("shot_script_max_chars"@, JsonView::Int(d.shot_script_max_chars)),
    ])
}

/// The snapshot a new drama's bootstrap task freezes.
pub fn bootstrap_snapshot(drama_id: &str, draft: &DramaDraft) -> (r: Json)
    ensures
        r@ == bootstrap_snapshot_of(drama_id@, drama_draft_view(*draft)),
{
    let entries: Vec<(String, Json)> = vec![
        ("drama_id".to_owned(), Json::Text(drama_id.to_owned())),
        ("script".to_owned(), Json::Text(draft.script.clone())),
        ("language_model".to_owned(), Json::Text(draft.language_model.clone())),
        ("episode_count".to_owned(), Json::Int(draft.episode_count)),
        ("enable_web_search".to_owned(), Json::Bool(draft.enable_web_search)),
        ("expanded_script_min_chars".to_owned(), Json::Int(draft.expanded_script_min_chars)),
        ("expanded_script_max_chars".to_owned(), Json::Int(draft.expanded_script_max_chars)),
        ("shot_script_max_chars".to_owned(), Json::Int(draft.shot_script_max_chars)),
    ];
    proof {
        crate::json::lemma_view_entries(entries@);
        assert(crate::json::view_entries(entries@) =~= bootstrap_snapshot_of(drama_id@, drama_draft_view(*draft))->Object_0);
    }
    Json::Object(entries)
}

/// The settings an interactive-game creation form yields.
#[derive(Debug)]
pub struct GameDraft {
    pub name: String,
    pub script: String,
    pub platform: String,
    pub style: String,
    pub success_ending_count: i64,
    pub failure_ending_count: i64,
    pub branch_min: i64,
    pub branch_max: i64,
    pub node_duration_min: i64,
    pub node_duration_max: i64,
    pub language_model: String,
    pub multimodal_model: String,
    pub video_model: String,
    pub resolution: String,
    pub enable_web_search: bool,
    pub expanded_script_min_chars: i64,
    pub expanded_script_max_chars: i64,
    pub node_script_max_chars: i64,
}

pub struct GameDraftView {
    pub name: Seq<char>,
    pub script: Seq<char>,
    pub platform: Seq<char>,
    pub style: Seq<char>,
    pub success_ending_count: i64,
    pub failure_ending_count: i64,
    pub branch_min: i64,
    pub branch_max: i64,
    pub node_duration_min: i64,
    pub node_duration_max: i64,
    pub language_model: Seq<char>,
    pub multimodal_model: Seq<char>,
    pub video_model: Seq<char>,
    pub resolution: Seq<char>,
    pub enable_web_search: bool,
    pub expanded_script_min_chars: i64,
    pub expanded_script_max_chars: i64,
    pub node_script_max_chars: i64,
}

/// The bounded integers of a new game once its form passed its checks.
pub open spec fn game_counts_of(values: Entries) -> Result<Seq<i64>, AppErrorView> {
    match integer_setting(values, "success_ending_count"@, 2, 1, 100) {
        Err(e) => Err(e),
        Ok(success) => match integer_setting(values, "failure_ending_count"@, 12, 1, 200) {
            Err(e) => Err(e),
            Ok(failure) => match integer_setting(values, "branch_min"@, 2, 2, 4) {
                Err(e) => Err(e),
                Ok(branch_min) => match integer_setting(values, "branch_max"@, 4, 2, 4) {
                    Err(e) => Err(e),
                    Ok(branch_max) => match integer_setting(values, "node_duration_min"@, 5, 4, 15) {
                        Err(e) => Err(e),
                        Ok(duration_min) => match integer_setting(values, "node_duration_max"@, 15, 4, 15) {
                            Err(e) => Err(e),
                            Ok(duration_max) => match integer_setting(values, "expanded_script_min_chars"@, 5000, 1, 1000000) {
                                Err(e) => Err(e),
                                Ok(expansion_min) => match integer_setting(values, "expanded_script_max_chars"@, 10000, 1, 1000000) {
                                    Err(e) => Err(e),
                                    Ok(expansion_max) => match integer_setting(values, "node_script_max_chars"@, 400, 1, 1000000) {
                                        Err(e) => Err(e),
                                        Ok(node_script) => Ok(seq![
                                            success, failure, branch_min, branch_max, duration_min,
                                            duration_max, expansion_min, expansion_max, node_script,
                                        ]),
                                    },
                                },
                            },
                        },
                    },
                },
            },
        },
    }
}

/// The settings of a new interactive game, or the first rule the form
/// breaks: the form's own checks, then a script of at least 20 characters,
/// then the ending counts and the other bounded integers.
pub open spec fn game_draft_of(values: Entries) -> Result<GameDraftView, AppErrorView> {
    match game_form_check(values) {
        Err(e) => Err(e),
        Ok(_) => if text_at(values, "script"@, ""@).len() < 20 {
            Err(AppErrorView::BadRequest("剧本文本不少于 20 个字"@))
        } else {
            match game_counts_of(values) {
                Err(e) => Err(e),
                Ok(n) => Ok(GameDraftView {
                    name: text_at(values, "name"@, ""@),
                    script: text_at(values, "script"@, ""@),
                    platform: text_at(values, "platform"@, "Steam游戏"@),
                    style: text_at(values, "style"@, "真人风格"@),
                    success_ending_count: n[0],
                    failure_ending_count: n[1],
                    branch_min: n[2],
                    branch_max: n[3],
                    node_duration_min: n[4],
                    node_duration_max: n[5],
                    language_model: text_at(values, "language_model"@, "doubao-seed"@),
                    multimodal_model: text_at(values, "multimodal_model"@, "doubao-seeddream"@),
                    video_model: text_at(values, "video_model"@, "doubao-seedance-2.0"@),
                    resolution: text_at(values, "resolution"@, "720p"@),
                    enable_web_search: lookup(values, "enable_web_search"@) == Some(JsonView::Bool(true)),
                    expanded_script_min_chars: n[6],
                    expanded_script_max_chars: n[7],
                    node_script_max_chars: n[8],
                }),
            }
        },
    }
}

pub open spec fn game_draft_view(d: GameDraft) -> GameDraftView {
    GameDraftView {
        name: d.name@,
        script: d.script@,
        platform: d.platform@,
        style: d.style@,
        success_ending_count: d.success_ending_count,
        failure_ending_count: d.failure_ending_count,
        branch_min: d.branch_min,
        branch_max: d.branch_max,
        node_duration_min: d.node_duration_min,
        node_duration_max: d.node_duration_max,
        language_model: d.language_model@,
        multimodal_model: d.multimodal_model@,
        video_model: d.video_model@,
        resolution: d.resolution@,
        enable_web_search: d.enable_web_search,
        expanded_script_min_chars: d.expanded_script_min_chars,
        expanded_script_max_chars: d.expanded_script_max_chars,
        node_script_max_chars: d.node_script_max_chars,
    }
}

pub open spec fn game_draft_result(r: Result<GameDraft, AppError>) -> Result<GameDraftView, AppErrorView> {
    match r {
        Ok(d) => Ok(game_draft_view(d)),
        Err(e) => Err(e@),
    }
}

/// Read the interactive-game creation form.
pub fn game_draft(values: &Vec<(String, Json)>) -> (r: Result<GameDraft, AppError>)
    ensures
        game_draft_result(r) == game_draft_of(view_entries(values@)),
{
    validate_game_form(values)?;
    let script = text_value(values, "script", "");
    if char_count(script.as_str()) < 20 {
        return Err(AppError::bad_request("剧本文本不少于 20 个字"));
    }
    let success = game_integer(values, "success_ending_count", 2, 1, 100)?;
    let failure = game_integer(values, "failure_ending_count", 12, 1, 200)?;
    let branch_min = game_integer(values, "branch_min", 2, 2, 4)?;
    let branch_max = game_integer(values, "branch_max", 4, 2, 4)?;
    let duration_min = game_integer(values, "node_duration_min", 5, crate::forms::GAME_VIDEO_DURATION_MIN, crate::forms::GAME_VIDEO_DURATION_MAX)?;
    let duration_max = game_integer(values, "node_duration_max", 15, crate::forms::GAME_VIDEO_DURATION_MIN, crate::forms::GAME_VIDEO_DURATION_MAX)?;
    let expansion_min = game_integer(values, "expanded_script_min_chars", 5000, 1, 1000000)?;
    let expansion_max = game_integer(values, "expanded_script_max_chars", 10000, 1, 1000000)?;
    let node_script = game_integer(values, "node_script_max_chars", 400, 1, 1000000)?;
    let enable_web_search = match entry_get(values, "enable_web_search") {
        Some(Json::Bool(b)) => *b,
        other => {
            proof {
                match other {
                    Some(v) => crate::json::lemma_view_variant(*v),
                    None => {},
                }
            }
            false
        },
    };
    proof {
        let n = seq![success, failure, branch_min, branch_max, duration_min, duration_max, expansion_min, expansion_max, node_script];
        assert(game_counts_of(view_entries(values@)) == Ok::<Seq<i64>, AppErrorView>(n));
    }
    Ok(GameDraft {
        name: text_value(values, "name", ""),
        script,
        platform: text_value(values, "platform", "Steam游戏"),
        style: text_value(values, "style", "真人风格"),
        success_ending_count: success,
        failure_ending_count: failure,
        branch_min,
        branch_max,
        node_duration_min: duration_min,
        node_duration_max: duration_max,
        language_model: text_value(values, "language_model", "doubao-seed"),
        multimodal_model: text_value(values, "multimodal_model", "doubao-seeddream"),
        video_model: text_value(values, "video_model", "doubao-seedance-2.0"),
        resolution: text_value(values, "resolution", "720p"),
        enable_web_search,
        expanded_script_min_chars: expansion_min,
        expanded_script_max_chars: expansion_max,
        node_script_max_chars: node_script,
    })
}

/// The model a kind's settings select, trimmed; empty when none is named.
pub open spec fn configured_model(config: JsonView) -> Seq<char> {
    match config.get("model"@) {
        Some(JsonView::Text(m)) => trimmed(m),
        _ => Seq::empty(),
    }
}

/// The models a new drama may name for one kind: the settings' unique
/// trimmed model names, with the selected model first when it is missing
/// from them.
pub open spec fn available_of(config: JsonView) -> Seq<Seq<char>> {
    let models = match config.get("models"@) {
        Some(JsonView::Array(items)) => trimmed_models(items),
        _ => Seq::empty(),
    };
    let chosen = configured_model(config);
    if chosen.len() > 0 && !models.contains(chosen) {
        seq![chosen] + models
    } else {
        models
    }
}

/// The model a creation form requests for `field`, trimmed.
pub open spec fn requested_model(values: Entries, field: Seq<char>) -> Seq<char> {
    match lookup(values, field) {
        Some(JsonView::Text(m)) => trimmed(m),
        _ => Seq::empty(),
    }
}

/// The model that replaces a request the settings do not offer: the selected
/// model when it is offered, else the first offered one. Nothing replaces a
/// request the settings offer, nor any request when they offer no model.
pub open spec fn replacement_of(config: JsonView, values: Entries, field: Seq<char>) -> Option<Seq<char>> {
    let available = available_of(config);
    if available.len() == 0 || available.contains(requested_model(values, field)) {
        None
    } else if available.contains(configured_model(config)) {
        Some(configured_model(config))
    } else {
        Some(available[0])
    }
}

/// The form with `field` replaced as `replacement_of` says.
pub open spec fn with_offered_model(values: Entries, config: JsonView, field: Seq<char>) -> Entries {
    match replacement_of(config, values, field) {
        Some(m) => insert_entry(values, field, JsonView::Text(m)),
        None => values,
    }
}

/// A drama creation form whose three model fields name models the settings offer.
pub open spec fn offered_models_of(values: Entries, language: JsonView, multimodal: JsonView, video: JsonView) -> Entries {
    with_offered_model(
        with_offered_model(with_offered_model(values, language, "language_model"@), multimodal, "multimodal_model"@),
        video,
        "video_model"@,
    )
}

/// The models a kind's settings offer a new drama.
pub fn available_models(config: &Json) -> (r: Vec<String>)
    ensures
        crate::forms::texts_view(r@) == available_of(config@),
{
    let mut models = match config.get("models") {
        Some(Json::Array(items)) => unique_trimmed(items),
        other => {
            proof {
                match other {
                    Some(v) => crate::json::lemma_view_variant(*v),
                    None => {},
                }
            }
            let empty: Vec<String> = Vec::new();
            proof {
                assert(crate::forms::texts_view(empty@) =~= Seq::<Seq<char>>::empty());
            }
            empty
        },
    };
    let chosen = selected_model(config);
    if chars_of(chosen.as_str()).len() > 0 && !contains_model(&models, chosen.as_str()) {
        let ghost before = crate::forms::texts_view(models@);
        models.insert(0, chosen);
        proof {
            assert(crate::forms::texts_view(models@) =~= seq![configured_model(config@)] + before);
        }
    }
    models
}

fn selected_model(config: &Json) -> (r: String)
    ensures
        r@ == configured_model(config@),
{
    match config.get("model") {
        Some(Json::Text(m)) => trim(m.as_str()),
        other => {
            proof {
                match other {
                    Some(v) => crate::json::lemma_view_variant(*v),
                    None => {},
                }
            }
            String::new()
        },
    }
}

/// The model that replaces what a creation form requests for `field`, if any.
pub fn model_replacement(config: &Json, values: &Vec<(String, Json)>, field: &str) -> (r: Option<String>)
    ensures
        crate::storage::opt_text_view(r) == replacement_of(config@, view_entries(values@), field@),
{
    let available = available_models(config);
    if available.len() == 0 {
        return None;
    }
    let requested = match entry_get(values, field) {
        Some(Json::Text(m)) => trim(m.as_str()),
        other => {
            proof {
                match other {
                    Some(v) => crate::json::lemma_view_variant(*v),
                    None => {},
                }
            }
            String::new()
        },
    };
    if contains_model(&available, requested.as_str()) {
        return None;
    }
    let chosen = selected_model(config);
    if contains_model(&available, chosen.as_str()) {
        Some(chosen)
    } else {
        proof {
            assert(crate::forms::texts_view(available@)[0] == available@[0]@);
        }
        Some(available[0].clone())
    }
}

fn offer_model(values: &mut Vec<(String, Json)>, config: &Json, field: &str)
    ensures
        view_entries(final(values)@) == with_offered_model(view_entries(old(values)@), config@, field@),
{
    match model_replacement(config, values, field) {
        Some(m) => entry_insert(values, field.to_owned(), Json::Text(m)),
        None => {},
    }
}

/// Make a drama creation form name, for each kind whose settings offer
/// models, a model they offer.
pub fn offered_models(values: Vec<(String, Json)>, language: &Json, multimodal: &Json, video: &Json) -> (r: Vec<(String, Json)>)
    ensures
        view_entries(r@) == offered_models_of(view_entries(values@), language@, multimodal@, video@),
{
    let mut values = values;
    offer_model(&mut values, language, "language_model");
    offer_model(&mut values, multimodal, "multimodal_model");
    offer_model(&mut values, video, "video_model");
    values
}

/// After the replacement, a model field either keeps a request the settings
/// offer or names a model they offer, whenever they offer any.
pub proof fn lemma_created_drama_names_an_offered_model(values: Entries, config: JsonView, field: Seq<char>)
    requires
        available_of(config).len() > 0,
    ensures
        ({
            let out = with_offered_model(values, config, field);
            ||| (lookup(out, field) == lookup(values, field) && available_of(config).contains(requested_model(values, field)))
            ||| exists|m: Seq<char>| lookup(out, field) == Some(JsonView::Text(m)) && available_of(config).contains(m)
        }),
{
    let available = available_of(config);
    match replacement_of(config, values, field) {
        Some(m) => {
            crate::json::lemma_insert_entry(values, field, JsonView::Text(m));
            if !available.contains(configured_model(config)) {
                assert(available.contains(available[0]));
            }
            assert(lookup(with_offered_model(values, config, field), field) == Some(JsonView::Text(m)));
        },
        None => {},
    }
}

/// The material kinds a drama holds.
pub open spec fn drama_asset_kind(kind: Seq<char>) -> bool {
    kind == "character"@ || kind == "scene"@ || kind == "prop"@ || kind == "placeholder"@
        || kind == "cover_reference"@ || kind == "cover"@
}

/// A new drama material as its creation form gives it.
#[derive(Debug)]
pub struct AssetForm {
    pub kind: String,
    pub name: String,
    pub prompt: String,
    pub voice_id: Option<String>,
    pub metadata: Json,
}

pub struct AssetFormView {
    pub kind: Seq<char>,
    pub name: Seq<char>,
    pub prompt: Seq<char>,
    pub voice_id: Option<Seq<char>>,
    pub metadata: JsonView,
}

/// A new drama material, or why the form is refused: a known kind, a name,
/// and a voice that is an enabled preset (or none).
pub open spec fn asset_form_of(values: Entries, enabled: Seq<Seq<char>>) -> Result<AssetFormView, AppErrorView> {
    let kind = text_at(values, "type"@, ""@);
    let name = text_at(values, "name"@, ""@);
    if !drama_asset_kind(kind) {
        Err(AppErrorView::BadRequest("不支持的素材类型"@))
    } else if name.len() == 0 {
        Err(AppErrorView::BadRequest("素材名称不能为空"@))
    } else {
        match crate::voice_tasks::voice_choice(lookup(values, "voice_id"@), enabled) {
            Err(e) => Err(e),
            Ok(voice) => Ok(AssetFormView {
                kind,
                name,
                prompt: text_at(values, "prompt"@, ""@),
                voice_id: voice,
                metadata: match lookup(values, "metadata"@) {
                    Some(m) => m,
                    None => JsonView::Object(Seq::empty()),
                },
            }),
        }
    }
}

pub open spec fn asset_form_result(r: Result<AssetForm, AppError>) -> Result<AssetFormView, AppErrorView> {
    match r {
        Ok(f) => Ok(AssetFormView {
            kind: f.kind@,
            name: f.name@,
            prompt: f.prompt@,
            voice_id: crate::storage::opt_text_view(f.voice_id),
            metadata: f.metadata@,
        }),
        Err(e) => Err(e@),
    }
}

/// Read the form that creates a drama material; `enabled_voice_ids` are the
/// ids of the enabled voice presets.
pub fn asset_form(values: &Vec<(String, Json)>, enabled_voice_ids: &Vec<String>) -> (r: Result<AssetForm, AppError>)
    ensures
        asset_form_result(r) == asset_form_of(view_entries(values@), crate::forms::texts_view(enabled_voice_ids@)),
{
    let kind = text_value(values, "type", "");
    let name = text_value(values, "name", "");
    let k = kind.as_str();
    if !(crate::json::str_eq(k, "character") || crate::json::str_eq(k, "scene") || crate::json::str_eq(k, "prop")
        || crate::json::str_eq(k, "placeholder") || crate::json::str_eq(k, "cover_reference")
        || crate::json::str_eq(k, "cover")) {
        return Err(AppError::bad_request("不支持的素材类型"));
    }
    if char_count(name.as_str()) == 0 {
        return Err(AppError::bad_request("素材名称不能为空"));
    }
    let voice_id = crate::voice_tasks::normalise_voice_id(entry_get(values, "voice_id"), enabled_voice_ids)?;
    let metadata = match entry_get(values, "metadata") {
        Some(m) => crate::json::duplicate(m),
        None => {
            let empty: Vec<(String, Json)> = Vec::new();
            proof {
                crate::json::lemma_view_entries(empty@);
                assert(view_entries(empty@) =~= Seq::<(Seq<char>, JsonView)>::empty());
            }
            Json::Object(empty)
        },
    };
    Ok(AssetForm { kind, name, prompt: text_value(values, "prompt", ""), voice_id, metadata })
}

/// A new prompt-template version.
#[derive(Debug)]
pub struct TemplateForm {
    pub scope: String,
    pub name: String,
    pub version: String,
    pub template_text: String,
    pub metadata: Json,
}

pub struct TemplateFormView {
    pub scope: Seq<char>,
    pub name: Seq<char>,
    pub version: Seq<char>,
    pub template_text: Seq<char>,
    pub metadata: JsonView,
}

/// A new prompt-template version (in the `drama` scope unless the form
/// names one), or a refusal when its name, version or text is empty.
pub open spec fn template_form_of(values: Entries) -> Result<TemplateFormView, AppErrorView> {
    let name = text_at(values, "name"@, ""@);
    let version = text_at(values, "version"@, ""@);
    let text = text_at(values, "template_text"@, ""@);
    if name.len() == 0 || version.len() == 0 || text.len() == 0 {
        Err(AppErrorView::BadRequest("模板名称、版本和内容不能为空"@))
    } else {
        Ok(TemplateFormView {
            scope: text_at(values, "scope"@, "drama"@),
            name,
            version,
            template_text: text,
            metadata: match lookup(values, "metadata"@) {
                Some(m) => m,
                None => JsonView::Object(Seq::empty()),
            },
        })
    }
}

pub open spec fn template_form_result(r: Result<TemplateForm, AppError>) -> Result<TemplateFormView, AppErrorView> {
    match r {
        Ok(f) => Ok(TemplateFormView {
            scope: f.scope@,
            name: f.name@,
            version: f.version@,
            template_text: f.template_text@,
            metadata: f.metadata@,
        }),
        Err(e) => Err(e@),
    }
}

/// Read the form that adds a prompt-template version.
pub fn template_form(values: &Vec<(String, Json)>) -> (r: Result<TemplateForm, AppError>)
    ensures
        template_form_result(r) == template_form_of(view_entries(values@)),
{
    let scope = text_value(values, "scope", "drama");
    let name = text_value(values, "name", "");
    let version = text_value(values, "version", "");
    let template_text = text_value(values, "template_text", "");
    if char_count(name.as_str()) == 0 || char_count(version.as_str()) == 0 || char_count(template_text.as_str()) == 0 {
        return Err(AppError::bad_request("模板名称、版本和内容不能为空"));
    }
    let metadata = match entry_get(values, "metadata") {
        Some(m) => crate::json::duplicate(m),
        None => {
            let empty: Vec<(String, Json)> = Vec::new();
            proof {
                crate::json::lemma_view_entries(empty@);
                assert(view_entries(empty@) =~= Seq::<(Seq<char>, JsonView)>::empty());
            }
            Json::Object(empty)
        },
    };
    Ok(TemplateForm { scope, name, version, template_text, metadata })
}

} // verus!
