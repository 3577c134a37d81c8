//! Model settings per kind and provider: the supported kinds and vendors,
//! per-vendor profiles kept side by side, the default endpoints and models,
//! the model list a creator selects from, and the public (masked) view.

use vstd::prelude::*;
use vstd::utf8::encode_utf8;

use crate::error::{unit_result, AppError, AppErrorView};
use crate::forms::{text_at, text_value};
use crate::json::{
    copy_entries, duplicate, entry_get, entry_insert, insert_entry, lookup, str_eq, text, view_entries,
    view_items, Entries, Json, JsonView,
};
use crate::text::{chars_of, contains, contains_text, trim, trimmed};

verus! {

pub open spec fn is_model_kind(kind: Seq<char>) -> bool {
    kind == "language"@ || kind == "multimodal"@ || kind == "video"@ || kind == "audio"@
}

pub open spec fn is_provider(provider: Seq<char>) -> bool {
    provider == "ark"@ || provider == "dashscope"@ || provider == "tencent"@
}

/// Accept the four model kinds: language, multimodal, video and audio.
pub fn validate_kind(kind: &str) -> (r: Result<(), AppError>)
    ensures
        unit_result(r) == if is_model_kind(kind@) {
            Ok::<(), AppErrorView>(())
        } else {
            Err(AppErrorView::BadRequest("不支持的模型类型"@))
        },
{
    if str_eq(kind, "language") || str_eq(kind, "multimodal") || str_eq(kind, "video") || str_eq(kind, "audio") {
        Ok(())
    } else {
        Err(AppError::bad_request("不支持的模型类型"))
    }
}

/// Accept the three vendors: Volcengine Ark, Alibaba DashScope and Tencent.
pub fn validate_provider(provider: &str) -> (r: Result<(), AppError>)
    ensures
        unit_result(r) == if is_provider(provider@) {
            Ok::<(), AppErrorView>(())
        } else {
            Err(AppErrorView::BadRequest("不支持的服务商"@))
        },
{
    if str_eq(provider, "ark") || str_eq(provider, "dashscope") || str_eq(provider, "tencent") {
        Ok(())
    } else {
        Err(AppError::bad_request("不支持的服务商"))
    }
}

pub open spec fn secret_key_name(key: Seq<char>) -> bool {
    key == "api_key"@ || key == "secret_id"@ || key == "secret_key"@
}

/// Whether a setting holds a credential.
pub fn is_secret(key: &str) -> (r: bool)
    ensures
        r == secret_key_name(key@),
{
    str_eq(key, "api_key") || str_eq(key, "secret_id") || str_eq(key, "secret_key")
}

/// A credential as the settings page shows it: nothing when empty, else one
/// `*` per byte, at least 8 and at most 16.
pub open spec fn masked(value: Seq<char>) -> Seq<char> {
    if value.len() == 0 {
        Seq::empty()
    } else {
        let n = encode_utf8(value).len();
        let count = if n < 8 {
            8
        } else if n > 16 {
            16
        } else {
            n
        };
        Seq::new(count, |i: int| '*')
    }
}

/// Mask a credential for display.
pub fn mask(value: &str) -> (r: String)
    ensures
        r@ == masked(value@),
{
    if chars_of(value).len() == 0 {
        return String::new();
    }
    let n = value.as_bytes().len();
    let count: usize = if n < 8 {
        8
    } else if n > 16 {
        16
    } else {
        n
    };
    let mut stars: Vec<char> = Vec::new();
    let mut i: usize = 0;
    while i < count
        invariant
            i <= count,
            stars.len() == i,
            forall|k: int| 0 <= k < i ==> stars@[k] == '*',
        decreases count - i,
    {
        stars.push('*');
        i += 1;
    }
    proof {
        assert(stars@ =~= Seq::new(count as nat, |k: int| '*'));
    }
    crate::text::string_of(stars.as_slice())
}

/// A setting as stored, or an empty text when it is missing.
pub open spec fn field_of(object: Entries, key: Seq<char>) -> JsonView {
    match lookup(object, key) {
        Some(v) => v,
        None => JsonView::Text(Seq::empty()),
    }
}

/// A setting as stored, or an empty text.
pub fn field(object: &Vec<(String, Json)>, key: &str) -> (r: Json)
    ensures
        r@ == field_of(view_entries(object@), key@),
{
    match entry_get(object, key) {
        Some(v) => duplicate(v),
        None => {
            proof {
                reveal_strlit("");
                assert(""@ =~= Seq::<char>::empty());
            }
            text("")
        },
    }
}

/// A profile's settings without the index of vendor profiles.
pub open spec fn without_index(config: Entries) -> Entries
    decreases config.len(),
{
    if config.len() == 0 {
        config
    } else if config.last().0 == "provider_profiles"@ {
        without_index(config.drop_last())
    } else {
        without_index(config.drop_last()).push(config.last())
    }
}

/// Copy a configuration without its `provider_profiles` index.
pub fn profile_without_index(config: &Vec<(String, Json)>) -> (r: Vec<(String, Json)>)
    ensures
        view_entries(r@) == without_index(view_entries(config@)),
{
    proof {
        crate::json::lemma_view_entries(config@);
    }
    let ghost all = view_entries(config@);
    let mut out: Vec<(String, Json)> = Vec::new();
    let mut i: usize = 0;
    proof {
        assert(all.subrange(0, 0) =~= Seq::<(Seq<char>, JsonView)>::empty());
        assert(view_entries(out@) =~= Seq::<(Seq<char>, JsonView)>::empty());
    }
    while i < config.len()
        invariant
            i <= config.len(),
            all == view_entries(config@),
            all.len() == config.len(),
            forall|k: int| 0 <= k < config.len() ==> #[trigger] all[k] == (config@[k].0@, config@[k].1@),
            view_entries(out@) == without_index(all.subrange(0, i as int)),
        decreases config.len() - i,
    {
        proof {
            let next = all.subrange(0, i + 1);
            assert(next.drop_last() =~= all.subrange(0, i as int));
            assert(next.last() == all[i as int]);
        }
        if !str_eq(config[i].0.as_str(), "provider_profiles") {
            let ghost before = out@;
            let value = duplicate(&config[i].1);
            let pair = (config[i].0.clone(), value);
            proof {
                crate::json::lemma_view_entries_push(before, pair);
            }
            out.push(pair);
        }
        i += 1;
    }
    proof {
        assert(all.subrange(0, config.len() as int) =~= all);
    }
    out
}

/// The stored profile of one vendor, without its index.
pub open spec fn profile_of(profiles: Entries, provider: Seq<char>) -> Option<Entries> {
    match lookup(profiles, provider) {
        Some(JsonView::Object(e)) => Some(without_index(e)),
        _ => None,
    }
}

pub open spec fn opt_entries(o: Option<Vec<(String, Json)>>) -> Option<Entries> {
    match o {
        Some(e) => Some(view_entries(e@)),
        None => None,
    }
}

/// The stored profile of one vendor.
pub fn profile(profiles: &Vec<(String, Json)>, provider: &str) -> (r: Option<Vec<(String, Json)>>)
    ensures
        opt_entries(r) == profile_of(view_entries(profiles@), provider@),
{
    match entry_get(profiles, provider) {
        Some(Json::Object(e)) => Some(profile_without_index(e)),
        other => {
            proof {
                match other {
                    Some(v) => crate::json::lemma_view_variant(*v),
                    None => {},
                }
            }
            None
        },
    }
}

/// The vendor profiles of a kind's settings: the saved index, with the
/// active vendor's profile refreshed from the active settings.
pub open spec fn profiles_of(config: Entries) -> Entries {
    let saved = match lookup(config, "provider_profiles"@) {
        Some(JsonView::Object(e)) => e,
        _ => Seq::empty(),
    };
    let provider = text_at(config, "provider"@, "ark"@);
    if is_provider(provider) {
        insert_entry(saved, provider, JsonView::Object(without_index(config)))
    } else {
        saved
    }
}

/// Collect the vendor profiles of a kind's settings.
pub fn provider_profiles(config: &Vec<(String, Json)>) -> (r: Vec<(String, Json)>)
    ensures
        view_entries(r@) == profiles_of(view_entries(config@)),
{
    let mut profiles = match entry_get(config, "provider_profiles") {
        Some(Json::Object(e)) => copy_entries(e),
        other => {
            proof {
                match other {
                    Some(v) => crate::json::lemma_view_variant(*v),
                    None => {},
                }
            }
            let empty: Vec<(String, Json)> = Vec::new();
            proof {
                assert(view_entries(empty@) =~= Seq::<(Seq<char>, JsonView)>::empty());
            }
            empty
        },
    };
    let provider = text_value(config, "provider", "ark");
    if validate_provider(provider.as_str()).is_ok() {
        let own = profile_without_index(config);
        entry_insert(&mut profiles, provider, Json::Object(own));
    }
    profiles
}

/// Unique non-empty trimmed texts of a list, in first-seen order.
pub open spec fn trimmed_models(items: Seq<JsonView>) -> Seq<Seq<char>>
    decreases items.len(),
{
    if items.len() == 0 {
        Seq::empty()
    } else {
        let before = trimmed_models(items.drop_last());
        match items.last() {
            JsonView::Text(s) => if trimmed(s).len() > 0 && !before.contains(trimmed(s)) {
                before.push(trimmed(s))
            } else {
                before
            },
            _ => before,
        }
    }
}

pub open spec fn text_items(items: Seq<Seq<char>>) -> Seq<JsonView> {
    Seq::new(items.len(), |i: int| JsonView::Text(items[i]))
}

/// The selected model and the list it is chosen from: the unique trimmed
/// model names, with a selected model that is missing from them put first.
pub open spec fn model_selection(stored: Entries) -> (Seq<char>, Seq<Seq<char>>) {
    let models = match lookup(stored, "models"@) {
        Some(JsonView::Array(items)) => trimmed_models(items),
        _ => Seq::empty(),
    };
    let model = text_at(stored, "model"@, if models.len() > 0 { models[0] } else { Seq::empty() });
    let list = if model.len() > 0 && !models.contains(model) {
        seq![model] + models
    } else {
        models
    };
    (model, list)
}

/// The settings with the selected model and its list stored.
pub open spec fn selected_entries(stored: Entries) -> Entries {
    let (model, list) = model_selection(stored);
    insert_entry(
        insert_entry(stored, "model"@, JsonView::Text(model)),
        "models"@,
        JsonView::Array(text_items(list)),
    )
}

/// The stored generation concurrency, 2 when it is missing or not an integer.
pub open spec fn concurrency_of(stored: Entries) -> i64 {
    match lookup(stored, "generation_concurrency"@) {
        Some(JsonView::Int(i)) => i,
        _ => 2,
    }
}

pub(crate) fn unique_trimmed(items: &Vec<Json>) -> (r: Vec<String>)
    ensures
        crate::forms::texts_view(r@) == trimmed_models(view_items(items@)),
{
    proof {
        crate::json::lemma_view_items(items@);
    }
    let ghost iv = view_items(items@);
    let mut all: Vec<String> = Vec::new();
    let mut i: usize = 0;
    proof {
        assert(iv.subrange(0, 0) =~= Seq::<JsonView>::empty());
        assert(crate::forms::texts_view(all@) =~= Seq::<Seq<char>>::empty());
    }
    while i < items.len()
        invariant
            i <= items.len(),
            iv == view_items(items@),
            iv.len() == items.len(),
            forall|k: int| 0 <= k < items.len() ==> #[trigger] iv[k] == items@[k]@,
            crate::forms::texts_view(all@) == trimmed_models(iv.subrange(0, i as int)),
        decreases items.len() - i,
    {
        proof {
            let next = iv.subrange(0, i + 1);
            assert(next.drop_last() =~= iv.subrange(0, i as int));
            assert(next.last() == iv[i as int]);
            crate::json::lemma_view_variant(items@[i as int]);
        }
        if let Json::Text(raw) = &items[i] {
            let t = trim(raw.as_str());
            if chars_of(t.as_str()).len() > 0 {
                let mut seen = false;
                let mut j: usize = 0;
                while j < all.len()
                    invariant
                        j <= all.len(),
                        seen == exists|k: int| 0 <= k < j && all@[k]@ == t@,
                    decreases all.len() - j,
                {
                    if str_eq(all[j].as_str(), t.as_str()) {
                        seen = true;
                    }
                    j += 1;
                }
                proof {
                    let tv = crate::forms::texts_view(all@);
                    if seen {
                        let k = choose|k: int| 0 <= k < all.len() && all@[k]@ == t@;
                        assert(tv[k] == t@);
                    } else {
                        assert forall|k: int| 0 <= k < tv.len() implies tv[k] != t@ by {
                            assert(tv[k] == all@[k]@);
                        }
                    }
                }
                if !seen {
                    let ghost before = crate::forms::texts_view(all@);
                    all.push(t);
                    proof {
                        assert(crate::forms::texts_view(all@) =~= before.push(t@));
                    }
                }
            }
        }
        i += 1;
    }
    proof {
        assert(iv.subrange(0, items.len() as int) =~= iv);
    }
    all
}

pub(crate) fn contains_model(models: &Vec<String>, model: &str) -> (r: bool)
    ensures
        r == crate::forms::texts_view(models@).contains(model@),
{
    let mut i: usize = 0;
    while i < models.len()
        invariant
            i <= models.len(),
            forall|k: int| 0 <= k < i ==> models@[k]@ != model@,
        decreases models.len() - i,
    {
        if str_eq(models[i].as_str(), model) {
            assert(crate::forms::texts_view(models@)[i as int] == model@);
            return true;
        }
        i += 1;
    }
    proof {
        let tv = crate::forms::texts_view(models@);
        assert forall|k: int| 0 <= k < tv.len() implies tv[k] != model@ by {
            assert(tv[k] == models@[k]@);
        }
    }
    false
}

/// Normalize the selectable models of a profile and check its concurrency:
/// the model list becomes its unique trimmed names (with the selected model
/// first when it is missing from them) and the concurrency must lie in 1 to 8.
/// The model and list are stored before the concurrency is checked.
pub fn normalize_model_selection(stored: &mut Vec<(String, Json)>) -> (r: Result<(), AppError>)
    ensures
        ({
            let selected = selected_entries(view_entries(old(stored)@));
            let c = concurrency_of(view_entries(old(stored)@));
            if 1 <= c && c <= 8 {
                r is Ok && view_entries(final(stored)@) == insert_entry(selected, "generation_concurrency"@, JsonView::Int(c))
            } else {
                unit_result(r) == Err::<(), AppErrorView>(AppErrorView::BadRequest("生成并发数必须在 1 到 8 之间"@))
                    && view_entries(final(stored)@) == selected
            }
        }),
{
    let ghost start = view_entries(stored@);
    let mut models = match entry_get(stored, "models") {
        Some(Json::Array(items)) => unique_trimmed(items),
        other => {
            proof {
                match other {
                    Some(v) => crate::json::lemma_view_variant(*v),
                    None => {},
                }
            }
            let empty: Vec<String> = Vec::new();
            proof {
                assert(crate::forms::texts_view(empty@) =~= Seq::<Seq<char>>::empty());
            }
            empty
        },
    };
    let first = if models.len() > 0 {
        models[0].clone()
    } else {
        String::new()
    };
    proof {
        if models.len() > 0 {
            assert(crate::forms::texts_view(models@)[0] == models@[0]@);
        }
    }
    let model = text_value(stored, "model", first.as_str());
    if chars_of(model.as_str()).len() > 0 && !contains_model(&models, model.as_str()) {
        let ghost before = crate::forms::texts_view(models@);
        models.insert(0, model.clone());
        proof {
            assert(crate::forms::texts_view(models@) =~= seq![model@] + before);
        }
    }
    let ghost (sel_model, sel_list) = model_selection(start);
    proof {
        assert(model@ == sel_model);
        assert(crate::forms::texts_view(models@) == sel_list);
    }
    let gc = match entry_get(stored, "generation_concurrency") {
        Some(Json::Int(i)) => *i,
        other => {
            proof {
                match other {
                    Some(v) => crate::json::lemma_view_variant(*v),
                    None => {},
                }
            }
            2
        },
    };
    let mut list: Vec<Json> = Vec::new();
    let mut i: usize = 0;
    while i < models.len()
        invariant
            i <= models.len(),
            list.len() == i,
            forall|k: int| 0 <= k < i ==> #[trigger] list@[k]@ == JsonView::Text(models@[k]@),
        decreases models.len() - i,
    {
        list.push(text(models[i].as_str()));
        i += 1;
    }
    proof {
        crate::json::lemma_view_items(list@);
        assert forall|k: int| 0 <= k < list.len() implies view_items(list@)[k] == text_items(sel_list)[k] by {
            assert(sel_list[k] == crate::forms::texts_view(models@)[k]);
            assert(list@[k]@ == JsonView::Text(models@[k]@));
            assert(view_items(list@)[k] == crate::json::json_view(list@[k]));
        }
        assert(view_items(list@) =~= text_items(sel_list));
    }
    entry_insert(stored, "model".to_owned(), text(model.as_str()));
    entry_insert(stored, "models".to_owned(), Json::Array(list));
    proof {
        crate::json::lemma_insert_entry(start, "model"@, JsonView::Text(model@));
        crate::json::lemma_insert_entry(
            insert_entry(start, "model"@, JsonView::Text(model@)),
            "models"@,
            JsonView::Array(text_items(sel_list)),
        );
        reveal_strlit("generation_concurrency");
        reveal_strlit("model");
        reveal_strlit("models");
        assert("generation_concurrency"@.len() != "model"@.len());
        assert("generation_concurrency"@.len() != "models"@.len());
    }
    if gc < 1 || gc > 8 {
        return Err(AppError::bad_request("生成并发数必须在 1 到 8 之间"));
    }
    entry_insert(stored, "generation_concurrency".to_owned(), Json::Int(gc));
    Ok(())
}

/// The default model and model list of a kind; the audio kind uses the
/// Seed TTS resource id of the speech client.
pub open spec fn model_defaults_of(kind: Seq<char>, tts_resource_id: Seq<char>) -> (Seq<char>, Seq<Seq<char>>) {
    if kind == "language"@ {
        (
            "doubao-seed-2.1-turbo"@,
            seq!["doubao-seed-2.1-turbo"@, "doubao-seed-1-6-250615"@, "qwen-plus"@, "hunyuan-turbos-latest"@],
        )
    } else if kind == "multimodal"@ {
        (
            "doubao-seedream-4-0-250828"@,
            seq!["doubao-seedream-4-0-250828"@, "qwen-image-2.0"@, "qwen-image-2.0-pro"@, "Hunyuan:3.0"@],
        )
    } else if kind == "video"@ {
        ("doubao-seedance-2.0"@, seq!["doubao-seedance-2.0"@, "wan2.6-r2v-flash"@, "Hunyuan:1.5"@])
    } else {
        (tts_resource_id, seq![tts_resource_id])
    }
}

fn texts(items: &[&str]) -> (r: Vec<String>)
    ensures
        crate::forms::texts_view(r@) == crate::skills::strs_view(items@),
{
    let mut out: Vec<String> = Vec::new();
    let mut i: usize = 0;
    while i < items.len()
        invariant
            i <= items.len(),
            out.len() == i,
            forall|k: int| 0 <= k < i ==> #[trigger] out@[k]@ == items@[k]@,
        decreases items.len() - i,
    {
        out.push(items[i].to_owned());
        i += 1;
    }
    proof {
        assert(crate::forms::texts_view(out@) =~= crate::skills::strs_view(items@));
    }
    out
}

/// The default model and model list of a kind.
pub fn model_defaults(kind: &str, tts_resource_id: &str) -> (r: (String, Vec<String>))
    ensures
        (r.0@, crate::forms::texts_view(r.1@)) == model_defaults_of(kind@, tts_resource_id@),
{
    if str_eq(kind, "language") {
        let list = ["doubao-seed-2.1-turbo", "doubao-seed-1-6-250615", "qwen-plus", "hunyuan-turbos-latest"];
        let models = texts(&list);
        proof {
            assert(crate::skills::strs_view(list@) =~= seq!["doubao-seed-2.1-turbo"@, "doubao-seed-1-6-250615"@, "qwen-plus"@, "hunyuan-turbos-latest"@]);
        }
        ("doubao-seed-2.1-turbo".to_owned(), models)
    } else if str_eq(kind, "multimodal") {
        let list = ["doubao-seedream-4-0-250828", "qwen-image-2.0", "qwen-image-2.0-pro", "Hunyuan:3.0"];
        let models = texts(&list);
        proof {
            assert(crate::skills::strs_view(list@) =~= seq!["doubao-seedream-4-0-250828"@, "qwen-image-2.0"@, "qwen-image-2.0-pro"@, "Hunyuan:3.0"@]);
        }
        ("doubao-seedream-4-0-250828".to_owned(), models)
    } else if str_eq(kind, "video") {
        let list = ["doubao-seedance-2.0", "wan2.6-r2v-flash", "Hunyuan:1.5"];
        let models = texts(&list);
        proof {
            assert(crate::skills::strs_view(list@) =~= seq!["doubao-seedance-2.0"@, "wan2.6-r2v-flash"@, "Hunyuan:1.5"@]);
        }
        ("doubao-seedance-2.0".to_owned(), models)
    } else {
        let list = [tts_resource_id];
        let models = texts(&list);
        proof {
            assert(crate::skills::strs_view(list@) =~= seq![tts_resource_id@]);
        }
        (tts_resource_id.to_owned(), models)
    }
}

/// The models a public profile lists: the stored list when it is a
/// non-empty array, else the kind's defaults.
pub open spec fn public_models(kind: Seq<char>, object: Entries, tts_resource_id: Seq<char>) -> Seq<JsonView> {
    match lookup(object, "models"@) {
        Some(JsonView::Array(items)) => if items.len() > 0 {
            items
        } else {
            text_items(model_defaults_of(kind, tts_resource_id).1)
        },
        _ => text_items(model_defaults_of(kind, tts_resource_id).1),
    }
}

/// The settings card of one profile, without credentials: which are set,
/// masked forms of the API key and secret id, and the non-secret settings.
pub open spec fn public_profile_of(kind: Seq<char>, object: Entries, tts_resource_id: Seq<char>) -> Entries {
    let models = public_models(kind, object, tts_resource_id);
    let first = if models.len() > 0 {
        match models[0] {
            JsonView::Text(t) => t,
            _ => Seq::empty(),
        }
    } else {
        Seq::empty()
    };
    let model = text_at(object, "model"@, first);
    let key = text_at(object, "api_key"@, ""@);
    seq![
        ("kind"@, JsonView::Text(kind)),
        ("endpoint"@, field_of(object, "endpoint"@)),
        ("model"@, JsonView::Text(model)),
        ("models"@, JsonView::Array(models)),
        ("api_key_set"@, JsonView::Bool(key.len() > 0)),
        ("api_key_masked"@, JsonView::Text(masked(key))),
        ("create_url"@, field_of(object, "create_url"@)),
        ("query_url"@, field_of(object, "query_url"@)),
        ("provider"@, JsonView::Text(text_at(object, "provider"@, "ark"@))),
        ("region"@, field_of(object, "region"@)),
        ("secret_id_masked"@, JsonView::Text(masked(text_at(object, "secret_id"@, ""@)))),
        ("secret_key_set"@, JsonView::Bool(text_at(object, "secret_key"@, ""@).len() > 0)),
        ("app_id"@, field_of(object, "app_id"@)),
        ("resource_id"@, field_of(object, "resource_id"@)),
        ("voice"@, field_of(object, "voice"@)),
        ("generation_concurrency"@, match lookup(object, "generation_concurrency"@) {
            Some(v) => v,
            None => JsonView::Int(2),
        }),
    ]
}

/// Build the public settings card of one profile.
pub fn public_profile(kind: &str, object: &Vec<(String, Json)>, tts_resource_id: &str) -> (r: Vec<(String, Json)>)
    ensures
        view_entries(r@) == public_profile_of(kind@, view_entries(object@), tts_resource_id@),
{
    let ghost ov = view_entries(object@);
    let models: Vec<Json> = match entry_get(object, "models") {
        Some(Json::Array(items)) if items.len() > 0 => crate::json::copy_items(items),
        other => {
            proof {
                match other {
                    Some(v) => crate::json::lemma_view_variant(*v),
                    None => {},
                }
            }
            let (_, defaults) = model_defaults(kind, tts_resource_id);
            let mut xs: Vec<Json> = Vec::new();
            let mut i: usize = 0;
            while i < defaults.len()
                invariant
                    i <= defaults.len(),
                    xs.len() == i,
                    forall|k: int| 0 <= k < i ==> #[trigger] xs@[k]@ == JsonView::Text(defaults@[k]@),
                decreases defaults.len() - i,
            {
                xs.push(text(defaults[i].as_str()));
                i += 1;
            }
            proof {
                crate::json::lemma_view_items(xs@);
                let dv = model_defaults_of(kind@, tts_resource_id@).1;
                assert forall|k: int| 0 <= k < xs.len() implies view_items(xs@)[k] == text_items(dv)[k] by {
                    assert(dv[k] == crate::forms::texts_view(defaults@)[k]);
                    assert(xs@[k]@ == JsonView::Text(defaults@[k]@));
                }
                assert(view_items(xs@) =~= text_items(dv));
            }
            xs
        },
    };
    let ghost mv = view_items(models@);
    proof {
        assert(mv == public_models(kind@, ov, tts_resource_id@));
    }
    let first = if models.len() > 0 {
        proof {
            crate::json::lemma_view_items(models@);
            crate::json::lemma_view_variant(models@[0]);
        }
        match &models[0] {
            Json::Text(t) => t.clone(),
            _ => String::new(),
        }
    } else {
        String::new()
    };
    let model = text_value(object, "model", first.as_str());
    let key = text_value(object, "api_key", "");
    let provider = text_value(object, "provider", "ark");
    let secret_id = text_value(object, "secret_id", "");
    let secret_key = text_value(object, "secret_key", "");
    let concurrency = match entry_get(object, "generation_concurrency") {
        Some(v) => duplicate(v),
        None => Json::Int(2),
    };
    let mut r: Vec<(String, Json)> = Vec::new();
    r.push(("kind".to_owned(), text(kind)));
    r.push(("endpoint".to_owned(), field(object, "endpoint")));
    r.push(("model".to_owned(), text(model.as_str())));
    r.push(("models".to_owned(), Json::Array(models)));
    r.push(("api_key_set".to_owned(), Json::Bool(chars_of(key.as_str()).len() > 0)));
    r.push(("api_key_masked".to_owned(), Json::Text(mask(key.as_str()))));
    r.push(("create_url".to_owned(), field(object, "create_url")));
    r.push(("query_url".to_owned(), field(object, "query_url")));
    r.push(("provider".to_owned(), text(provider.as_str())));
    r.push(("region".to_owned(), field(object, "region")));
    r.push(("secret_id_masked".to_owned(), Json::Text(mask(secret_id.as_str()))));
    r.push(("secret_key_set".to_owned(), Json::Bool(chars_of(secret_key.as_str()).len() > 0)));
    r.push(("app_id".to_owned(), field(object, "app_id")));
    r.push(("resource_id".to_owned(), field(object, "resource_id")));
    r.push(("voice".to_owned(), field(object, "voice")));
    r.push(("generation_concurrency".to_owned(), concurrency));
    proof {
        crate::json::lemma_view_entries(r@);
        assert(view_entries(r@) =~= public_profile_of(kind@, ov, tts_resource_id@));
    }
    r
}

/// The settings a kind and vendor start from when the creator leaves them
/// empty; the audio kind of Ark uses the Seed TTS endpoint and resource id.
pub open spec fn provider_defaults_of(kind: Seq<char>, provider: Seq<char>, tts_endpoint: Seq<char>, tts_resource_id: Seq<char>) -> Seq<(Seq<char>, Seq<char>)> {
    if kind == "language"@ && provider == "ark"@ {
        seq![("endpoint"@, "https://ark.cn-beijing.volces.com/api/v3"@), ("model"@, "doubao-seed-2.1-turbo"@)]
    } else if kind == "language"@ && provider == "dashscope"@ {
        seq![("endpoint"@, "https://dashscope.aliyuncs.com/compatible-mode/v1"@), ("model"@, "qwen-plus"@)]
    } else if kind == "language"@ && provider == "tencent"@ {
        seq![("endpoint"@, "https://api.hunyuan.cloud.tencent.com/v1"@), ("model"@, "hunyuan-turbos-latest"@)]
    } else if kind == "multimodal"@ && provider == "ark"@ {
        seq![("endpoint"@, "https://ark.cn-beijing.volces.com/api/plan/v3"@), ("model"@, "doubao-seedream-4-0-250828"@)]
    } else if kind == "multimodal"@ && provider == "dashscope"@ {
        seq![("endpoint"@, "https://dashscope.aliyuncs.com/api/v1/services/aigc/multimodal-generation/generation"@), ("model"@, "qwen-image-2.0"@)]
    } else if kind == "multimodal"@ && provider == "tencent"@ {
        seq![("endpoint"@, "https://mps.tencentcloudapi.com"@), ("model"@, "Hunyuan:3.0"@), ("region"@, "ap-guangzhou"@)]
    } else if kind == "video"@ && provider == "ark"@ {
        seq![
            ("create_url"@, "https://ark.cn-beijing.volces.com/api/plan/v3/contents/generations/tasks"@),
            ("query_url"@, "https://ark.cn-beijing.volces.com/api/plan/v3/contents/generations/tasks/{id}"@),
            ("model"@, "doubao-seedance-2.0"@),
        ]
    } else if kind == "video"@ && provider == "dashscope"@ {
        seq![
            ("create_url"@, "https://dashscope.aliyuncs.com/api/v1/services/aigc/video-generation/video-synthesis"@),
            ("query_url"@, "https://dashscope.aliyuncs.com/api/v1/tasks/{id}"@),
            ("model"@, "wan2.6-r2v-flash"@),
        ]
    } else if kind == "video"@ && provider == "tencent"@ {
        seq![
            ("endpoint"@, "https://mps.tencentcloudapi.com"@),
            ("create_url"@, "https://mps.tencentcloudapi.com"@),
            ("query_url"@, "https://mps.tencentcloudapi.com"@),
            ("model"@, "Hunyuan:1.5"@),
            ("region"@, "ap-guangzhou"@),
        ]
    } else if kind == "audio"@ && provider == "ark"@ {
        seq![("endpoint"@, tts_endpoint), ("model"@, tts_resource_id)]
    } else if kind == "audio"@ && provider == "dashscope"@ {
        seq![
            ("endpoint"@, "https://dashscope.aliyuncs.com/api/v1/services/aigc/multimodal-generation/generation"@),
            ("model"@, "qwen3-tts-flash"@),
            ("voice"@, "Cherry"@),
        ]
    } else if kind == "audio"@ && provider == "tencent"@ {
        seq![("endpoint"@, "https://mps.tencentcloudapi.com"@), ("model"@, "mps-sync-dubbing"@), ("region"@, "ap-guangzhou"@)]
    } else {
        Seq::empty()
    }
}

pub open spec fn string_pairs(v: Seq<(String, String)>) -> Seq<(Seq<char>, Seq<char>)> {
    crate::skills::pairs_view(v)
}

fn pairs(items: &[(&str, &str)]) -> (r: Vec<(String, String)>)
    ensures
        string_pairs(r@) == Seq::new(items@.len(), |i: int| (items@[i].0@, items@[i].1@)),
{
    let mut out: Vec<(String, String)> = Vec::new();
    let mut i: usize = 0;
    while i < items.len()
        invariant
            i <= items.len(),
            out.len() == i,
            forall|k: int| 0 <= k < i ==> #[trigger] out@[k].0@ == items@[k].0@ && out@[k].1@ == items@[k].1@,
        decreases items.len() - i,
    {
        let (a, b) = items[i];
        out.push((a.to_owned(), b.to_owned()));
        i += 1;
    }
    proof {
        assert(string_pairs(out@) =~= Seq::new(items@.len(), |i: int| (items@[i].0@, items@[i].1@)));
    }
    out
}

/// The default settings of a kind and vendor.
pub fn provider_defaults(kind: &str, provider: &str, tts_endpoint: &str, tts_resource_id: &str) -> (r: Vec<(String, String)>)
    ensures
        string_pairs(r@) == provider_defaults_of(kind@, provider@, tts_endpoint@, tts_resource_id@),
{
    let language = str_eq(kind, "language");
    let multimodal = str_eq(kind, "multimodal");
    let video = str_eq(kind, "video");
    let audio = str_eq(kind, "audio");
    let ark = str_eq(provider, "ark");
    let dashscope = str_eq(provider, "dashscope");
    let tencent = str_eq(provider, "tencent");
    let table: Vec<(String, String)> = if language && ark {
        pairs(&[("endpoint", "https://ark.cn-beijing.volces.com/api/v3"), ("model", "doubao-seed-2.1-turbo")])
    } else if language && dashscope {
        pairs(&[("endpoint", "https://dashscope.aliyuncs.com/compatible-mode/v1"), ("model", "qwen-plus")])
    } else if language && tencent {
        pairs(&[("endpoint", "https://api.hunyuan.cloud.tencent.com/v1"), ("model", "hunyuan-turbos-latest")])
    } else if multimodal && ark {
        pairs(&[("endpoint", "https://ark.cn-beijing.volces.com/api/plan/v3"), ("model", "doubao-seedream-4-0-250828")])
    } else if multimodal && dashscope {
        pairs(&[("endpoint", "https://dashscope.aliyuncs.com/api/v1/services/aigc/multimodal-generation/generation"), ("model", "qwen-image-2.0")])
    } else if multimodal && tencent {
        pairs(&[("endpoint", "https://mps.tencentcloudapi.com"), ("model", "Hunyuan:3.0"), ("region", "ap-guangzhou")])
    } else if video && ark {
        pairs(&[
            ("create_url", "https://ark.cn-beijing.volces.com/api/plan/v3/contents/generations/tasks"),
            ("query_url", "https://ark.cn-beijing.volces.com/api/plan/v3/contents/generations/tasks/{id}"),
            ("model", "doubao-seedance-2.0"),
        ])
    } else if video && dashscope {
        pairs(&[
            ("create_url", "https://dashscope.aliyuncs.com/api/v1/services/aigc/video-generation/video-synthesis"),
            ("query_url", "https://dashscope.aliyuncs.com/api/v1/tasks/{id}"),
            ("model", "wan2.6-r2v-flash"),
        ])
    } else if video && tencent {
        pairs(&[
            ("endpoint", "https://mps.tencentcloudapi.com"),
            ("create_url", "https://mps.tencentcloudapi.com"),
            ("query_url", "https://mps.tencentcloudapi.com"),
            ("model", "Hunyuan:1.5"),
            ("region", "ap-guangzhou"),
        ])
    } else if audio && ark {
        pairs(&[("endpoint", tts_endpoint), ("model", tts_resource_id)])
    } else if audio && dashscope {
        pairs(&[
            ("endpoint", "https://dashscope.aliyuncs.com/api/v1/services/aigc/multimodal-generation/generation"),
            ("model", "qwen3-tts-flash"),
            ("voice", "Cherry"),
        ])
    } else if audio && tencent {
        pairs(&[("endpoint", "https://mps.tencentcloudapi.com"), ("model", "mps-sync-dubbing"), ("region", "ap-guangzhou")])
    } else {
        pairs(&[])
    };
    proof {
        assert(string_pairs(table@) =~= provider_defaults_of(kind@, provider@, tts_endpoint@, tts_resource_id@));
    }
    table
}

/// Profiles of Ark's plan endpoint that still select the retired language
/// model are moved to its successor.
pub open spec fn migrated_plan_model(stored: Entries, kind: Seq<char>, provider: Seq<char>) -> Entries {
    if kind == "language"@ && provider == "ark"@ && contains_text(
        text_at(stored, "endpoint"@, ""@),
        "ark.cn-beijing.volces.com/api/plan/"@,
    ) && text_at(stored, "model"@, ""@) == "doubao-seed-1-6-250615"@ {
        insert_entry(stored, "model"@, JsonView::Text("doubao-seed-2.1-turbo"@))
    } else {
        stored
    }
}

/// Move an Ark plan language profile off the retired model.
pub fn migrate_ark_plan_language_model(stored: &mut Vec<(String, Json)>, kind: &str, provider: &str)
    ensures
        view_entries(final(stored)@) == migrated_plan_model(view_entries(old(stored)@), kind@, provider@),
{
    if str_eq(kind, "language") && str_eq(provider, "ark") {
        let endpoint = text_value(stored, "endpoint", "");
        let model = text_value(stored, "model", "");
        if contains(endpoint.as_str(), "ark.cn-beijing.volces.com/api/plan/") && str_eq(model.as_str(), "doubao-seed-1-6-250615") {
            entry_insert(stored, "model".to_owned(), text("doubao-seed-2.1-turbo"));
        }
    }
}

/// The models a new project may select for one kind: the configured list,
/// with the configured default first when the list lacks it.
pub open spec fn available_models(config: JsonView) -> Seq<Seq<char>> {
    let models = match config.get("models"@) {
        Some(JsonView::Array(items)) => trimmed_models(items),
        _ => Seq::empty(),
    };
    let default = trimmed(crate::json::text_or(config, "model"@, ""@));
    if default.len() > 0 && !models.contains(default) {
        seq![default] + models
    } else {
        models
    }
}

/// A project form after its model field is checked against the selectable
/// models: a stale or missing choice becomes the default, or the first
/// selectable model; nothing changes when the kind has no models.
pub open spec fn selected_project_model(values: Entries, field: Seq<char>, config: JsonView) -> Entries {
    let available = available_models(config);
    let default = trimmed(crate::json::text_or(config, "model"@, ""@));
    let requested = trimmed(text_at(values, field, ""@));
    if available.len() == 0 || available.contains(requested) {
        values
    } else {
        insert_entry(values, field, JsonView::Text(if available.contains(default) { default } else { available[0] }))
    }
}

/// Replace a project form's stale model choice by a selectable model.
pub fn select_project_model(values: &mut Vec<(String, Json)>, field: &str, config: &Json)
    ensures
        view_entries(final(values)@) == selected_project_model(view_entries(old(values)@), field@, config@),
{
    let mut available = match config.get("models") {
        Some(Json::Array(items)) => unique_trimmed(items),
        other => {
            proof {
                match other {
                    Some(v) => crate::json::lemma_view_variant(*v),
                    None => {},
                }
            }
            let empty: Vec<String> = Vec::new();
            proof {
                assert(crate::forms::texts_view(empty@) =~= Seq::<Seq<char>>::empty());
            }
            empty
        },
    };
    let raw_default = config.text_or("model", "");
    let default = trim(raw_default.as_str());
    if chars_of(default.as_str()).len() > 0 && !contains_model(&available, default.as_str()) {
        let ghost before = crate::forms::texts_view(available@);
        available.insert(0, default.clone());
        proof {
            assert(crate::forms::texts_view(available@) =~= seq![default@] + before);
        }
    }
    proof {
        assert(crate::forms::texts_view(available@) == available_models(config@));
    }
    if available.len() == 0 {
        return;
    }
    let raw_requested = text_value(values, field, "");
    let requested = trim(raw_requested.as_str());
    if contains_model(&available, requested.as_str()) {
        return;
    }
    let chosen = if contains_model(&available, default.as_str()) {
        default
    } else {
        proof {
            assert(crate::forms::texts_view(available@)[0] == available@[0]@);
        }
        available[0].clone()
    };
    entry_insert(values, field.to_owned(), Json::Text(chosen));
}

/// Keep a new project's language, image and video models within what is configured.
pub fn select_project_models(values: &mut Vec<(String, Json)>, language: &Json, multimodal: &Json, video: &Json)
    ensures
        view_entries(final(values)@) == selected_project_model(
            selected_project_model(
                selected_project_model(view_entries(old(values)@), "language_model"@, language@),
                "multimodal_model"@,
                multimodal@,
            ),
            "video_model"@,
            video@,
        ),
{
    select_project_model(values, "language_model", language);
    select_project_model(values, "multimodal_model", multimodal);
    select_project_model(values, "video_model", video);
}

proof fn lemma_trimmed_models_distinct(items: Seq<JsonView>)
    ensures
        trimmed_models(items).no_duplicates(),
    decreases items.len(),
{
    if items.len() > 0 {
        lemma_trimmed_models_distinct(items.drop_last());
        let before = trimmed_models(items.drop_last());
        match items.last() {
            JsonView::Text(s) => if trimmed(s).len() > 0 && !before.contains(trimmed(s)) {
                let after = before.push(trimmed(s));
                assert forall|i: int, j: int| 0 <= i < after.len() && 0 <= j < after.len() && i != j implies after[i] != after[j] by {
                    if i == before.len() {
                        assert(after[j] == before[j]);
                    } else if j == before.len() {
                        assert(after[i] == before[i]);
                    } else {
                        assert(after[i] == before[i] && after[j] == before[j]);
                    }
                }
            },
            _ => {},
        }
    }
}

/// A profile's selected model is one of the models it lists (unless it is
/// empty), and the list names every model once.
pub proof fn lemma_selected_model_is_listed(stored: Entries)
    ensures
        model_selection(stored).0.len() > 0 ==> model_selection(stored).1.contains(model_selection(stored).0),
        model_selection(stored).1.no_duplicates(),
{
    let models = match lookup(stored, "models"@) {
        Some(JsonView::Array(items)) => trimmed_models(items),
        _ => Seq::empty(),
    };
    match lookup(stored, "models"@) {
        Some(JsonView::Array(items)) => lemma_trimmed_models_distinct(items),
        _ => {},
    }
    let (model, list) = model_selection(stored);
    if model.len() > 0 && !models.contains(model) {
        assert(list[0] == model);
        assert forall|i: int, j: int| 0 <= i < list.len() && 0 <= j < list.len() && i != j implies list[i] != list[j] by {
            if i == 0 {
                assert(list[j] == models[j - 1]);
            } else if j == 0 {
                assert(list[i] == models[i - 1]);
            } else {
                assert(list[i] == models[i - 1] && list[j] == models[j - 1]);
            }
        }
    }
}

/// The saved API key a creator asks to reveal, with its kind and vendor
/// (`requested` when the request names a vendor, else the saved one), or why
/// there is none to reveal.
pub open spec fn api_key_of(kind: Seq<char>, requested: Option<Seq<char>>, config: JsonView) -> Result<JsonView, AppErrorView> {
    let object = match config {
        JsonView::Object(e) => e,
        _ => Seq::empty(),
    };
    let provider = match requested {
        Some(p) => p,
        None => text_at(object, "provider"@, "ark"@),
    };
    if !is_model_kind(kind) {
        Err(AppErrorView::NotFound("Unsupported model kind: "@ + kind))
    } else if !is_provider(provider) {
        Err(AppErrorView::BadRequest("不支持的服务商"@))
    } else {
        let selected = match profile_of(profiles_of(object), provider) {
            Some(e) => e,
            None => Seq::empty(),
        };
        let key = text_at(selected, "api_key"@, ""@);
        if key.len() == 0 {
            Err(AppErrorView::NotFound(kind + " 模型尚未配置 API Key"@))
        } else {
            Ok(JsonView::Object(seq![
                ("kind"@, JsonView::Text(kind)),
                ("provider"@, JsonView::Text(provider)),
                ("api_key"@, JsonView::Text(key)),
            ]))
        }
    }
}

/// Reveal the saved API key of a kind's settings (`config`), for the vendor
/// the request names or else the saved vendor.
pub fn model_api_key(kind: &str, requested_provider: Option<&str>, config: &Json) -> (r: Result<Json, AppError>)
    ensures
        crate::frame_references::json_result(r) == api_key_of(kind@, crate::graph::opt_text(requested_provider), config@),
{
    if validate_kind(kind).is_err() {
        return Err(AppError::NotFound(crate::text::concat("Unsupported model kind: ", kind)));
    }
    let object = match config {
        Json::Object(e) => copy_entries(e),
        _ => {
            let empty: Vec<(String, Json)> = Vec::new();
            proof {
                crate::json::lemma_view_entries(empty@);
                assert(view_entries(empty@) =~= Seq::<(Seq<char>, JsonView)>::empty());
            }
            empty
        },
    };
    let provider = match requested_provider {
        Some(p) => p.to_owned(),
        None => text_value(&object, "provider", "ark"),
    };
    validate_provider(provider.as_str())?;
    let profiles = provider_profiles(&object);
    let selected = match profile(&profiles, provider.as_str()) {
        Some(e) => e,
        None => {
            let empty: Vec<(String, Json)> = Vec::new();
            proof {
                crate::json::lemma_view_entries(empty@);
                assert(view_entries(empty@) =~= Seq::<(Seq<char>, JsonView)>::empty());
            }
            empty
        },
    };
    let key = text_value(&selected, "api_key", "");
    if crate::forms::char_count(key.as_str()) == 0 {
        return Err(AppError::NotFound(crate::text::concat(kind, " 模型尚未配置 API Key")));
    }
    let entries: Vec<(String, Json)> = vec![
        ("kind".to_owned(), Json::Text(kind.to_owned())),
        ("provider".to_owned(), Json::Text(provider)),
        ("api_key".to_owned(), Json::Text(key)),
    ];
    proof {
        crate::json::lemma_view_entries(entries@);
        assert(view_entries(entries@) =~= api_key_of(kind@, crate::graph::opt_text(requested_provider), config@)->Ok_0->Object_0);
    }
    Ok(Json::Object(entries))
}

/// The public form of each vendor profile that is an object.
pub open spec fn public_profiles_of(kind: Seq<char>, profiles: Entries, tts_resource_id: Seq<char>) -> Entries
    decreases profiles.len(),
{
    if profiles.len() == 0 {
        Seq::empty()
    } else {
        let before = public_profiles_of(kind, profiles.drop_last(), tts_resource_id);
        match profiles.last().1 {
            JsonView::Object(e) => before.push((profiles.last().0, JsonView::Object(public_profile_of(kind, e, tts_resource_id)))),
            _ => before,
        }
    }
}

/// The model settings of a kind as the settings page shows them: the
/// active profile in public form, with every vendor profile in public form.
pub open spec fn public_config_of(kind: Seq<char>, config: JsonView, tts_resource_id: Seq<char>) -> Result<Entries, AppErrorView> {
    let object = match config {
        JsonView::Object(e) => e,
        _ => Seq::empty(),
    };
    if !is_model_kind(kind) {
        Err(AppErrorView::BadRequest("不支持的模型类型"@))
    } else {
        Ok(insert_entry(
            public_profile_of(kind, object, tts_resource_id),
            "provider_profiles"@,
            JsonView::Object(public_profiles_of(kind, profiles_of(object), tts_resource_id)),
        ))
    }
}

/// Show the model settings of a kind (`config`, as saved).
pub fn public_model_config(kind: &str, config: &Json, tts_resource_id: &str) -> (r: Result<Vec<(String, Json)>, AppError>)
    ensures
        crate::settings_import::entries_result(r) == public_config_of(kind@, config@, tts_resource_id@),
{
    validate_kind(kind)?;
    let object = match config {
        Json::Object(e) => copy_entries(e),
        _ => {
            let empty: Vec<(String, Json)> = Vec::new();
            proof {
                crate::json::lemma_view_entries(empty@);
                assert(view_entries(empty@) =~= Seq::<(Seq<char>, JsonView)>::empty());
            }
            empty
        },
    };
    let mut response = public_profile(kind, &object, tts_resource_id);
    let profiles = provider_profiles(&object);
    proof {
        crate::json::lemma_view_entries(profiles@);
    }
    let ghost all = view_entries(profiles@);
    let mut shown: Vec<(String, Json)> = Vec::new();
    let mut i: usize = 0;
    proof {
        crate::json::lemma_view_entries(shown@);
        assert(all.subrange(0, 0) =~= Seq::<(Seq<char>, JsonView)>::empty());
    }
    while i < profiles.len()
        invariant
            i <= profiles.len(),
            all == view_entries(profiles@),
            all.len() == profiles.len(),
            forall|k: int| 0 <= k < profiles.len() ==> #[trigger] all[k] == (profiles@[k].0@, profiles@[k].1@),
            view_entries(shown@) == public_profiles_of(kind@, all.subrange(0, i as int), tts_resource_id@),
        decreases profiles.len() - i,
    {
        proof {
            let next = all.subrange(0, i + 1);
            assert(next.drop_last() =~= all.subrange(0, i as int));
            assert(next.last() == all[i as int]);
            crate::json::lemma_view_variant(profiles@[i as int].1);
        }
        match &profiles[i].1 {
            Json::Object(e) => {
                let pair = (profiles[i].0.clone(), Json::Object(public_profile(kind, e, tts_resource_id)));
                proof {
                    crate::json::lemma_view_entries_push(shown@, pair);
                }
                shown.push(pair);
            },
            _ => {},
        }
        i += 1;
    }
    proof {
        assert(all.subrange(0, profiles.len() as int) =~= all);
    }
    entry_insert(&mut response, "provider_profiles".to_owned(), Json::Object(shown));
    Ok(response)
}

/// The settings card of a profile shows no credential: it has no API key,
/// secret id or secret key field. It says only whether the API key and the
/// secret key are set, shows the API key and the secret id masked (as many
/// `*` as their UTF-8 length, at least 8 and at most 16, none when empty),
/// and lists the stored models, or the kind's defaults when none are stored.
pub proof fn lemma_public_profile_hides_credentials(kind: Seq<char>, object: Entries, tts_resource_id: Seq<char>)
    ensures
        ({
            let e = public_profile_of(kind, object, tts_resource_id);
            let api_key = text_at(object, "api_key"@, ""@);
            &&& forall|key: Seq<char>|
                (key == "api_key"@ || key == "secret_id"@ || key == "secret_key"@) ==> #[trigger] lookup(e, key) is None
            &&& lookup(e, "api_key_set"@) == Some(JsonView::Bool(api_key.len() > 0))
            &&& lookup(e, "api_key_masked"@) == Some(JsonView::Text(masked(api_key)))
            &&& lookup(e, "secret_id_masked"@) == Some(JsonView::Text(masked(text_at(object, "secret_id"@, ""@))))
            &&& lookup(e, "secret_key_set"@) == Some(JsonView::Bool(text_at(object, "secret_key"@, ""@).len() > 0))
            &&& lookup(e, "models"@) == Some(JsonView::Array(public_models(kind, object, tts_resource_id)))
        }),
{
    let e = public_profile_of(kind, object, tts_resource_id);
    reveal_strlit("api_key");
    reveal_strlit("secret_id");
    reveal_strlit("secret_key");
    reveal_strlit("kind");
    reveal_strlit("endpoint");
    reveal_strlit("model");
    reveal_strlit("models");
    reveal_strlit("api_key_set");
    reveal_strlit("api_key_masked");
    reveal_strlit("create_url");
    reveal_strlit("query_url");
    reveal_strlit("provider");
    reveal_strlit("region");
    reveal_strlit("secret_id_masked");
    reveal_strlit("secret_key_set");
    reveal_strlit("app_id");
    reveal_strlit("resource_id");
    reveal_strlit("voice");
    reveal_strlit("generation_concurrency");
    assert("create_url"@[0] != "secret_key"@[0]);
    assert("query_url"@[0] != "secret_id"@[0]);
    assert forall|key: Seq<char>|
        (key == "api_key"@ || key == "secret_id"@ || key == "secret_key"@) implies #[trigger] lookup(e, key) is None by {
        assert forall|j: int| 0 <= j < e.len() implies #[trigger] e[j].0 != key by {
            assert(e[j].0.len() != key.len() || e[j].0[0] != key[0]);
        }
        crate::json::lemma_lookup_absent(e, key);
    }
    assert forall|j: int| 0 <= j < 3 implies #[trigger] e[j].0 != "models"@ by {
        assert(e[j].0.len() != "models"@.len());
    }
    crate::json::lemma_lookup_found(e, "models"@, 3);
    assert forall|j: int| 0 <= j < 4 implies #[trigger] e[j].0 != "api_key_set"@ by {
        assert(e[j].0.len() != "api_key_set"@.len());
    }
    crate::json::lemma_lookup_found(e, "api_key_set"@, 4);
    assert forall|j: int| 0 <= j < 5 implies #[trigger] e[j].0 != "api_key_masked"@ by {
        assert(e[j].0.len() != "api_key_masked"@.len());
    }
    crate::json::lemma_lookup_found(e, "api_key_masked"@, 5);
    assert forall|j: int| 0 <= j < 10 implies #[trigger] e[j].0 != "secret_id_masked"@ by {
        assert(e[j].0.len() != "secret_id_masked"@.len());
    }
    crate::json::lemma_lookup_found(e, "secret_id_masked"@, 10);
    assert forall|j: int| 0 <= j < 11 implies #[trigger] e[j].0 != "secret_key_set"@ by {
        assert(e[j].0.len() != "secret_key_set"@.len() || e[j].0[0] != "secret_key_set"@[0]);
    }
    crate::json::lemma_lookup_found(e, "secret_key_set"@, 11);
}

/// Whether a submitted setting is stored in a profile: not the index of
/// vendor profiles, and not a credential left blank (or not a text).
pub open spec fn stored_setting(entry: (Seq<char>, JsonView)) -> bool {
    entry.0 != "provider_profiles"@ && !(secret_key_name(entry.0) && match entry.1 {
        JsonView::Text(s) => s.len() == 0,
        _ => true,
    })
}

/// A profile with the submitted settings stored over it, in turn.
pub open spec fn submitted_over(stored: Entries, values: Entries) -> Entries
    decreases values.len(),
{
    if values.len() == 0 {
        stored
    } else {
        let before = submitted_over(stored, values.drop_last());
        if stored_setting(values.last()) {
            insert_entry(before, values.last().0, values.last().1)
        } else {
            before
        }
    }
}

/// The first half of a model settings candidate: its kind and vendor, the
/// vendor profiles saved before, and the vendor's profile with the form's
/// settings stored over it.
pub struct CandidateStart {
    pub kind: String,
    pub provider: String,
    pub profiles: Vec<(String, Json)>,
    pub stored: Vec<(String, Json)>,
}

pub struct CandidateStartView {
    pub kind: Seq<char>,
    pub provider: Seq<char>,
    pub profiles: Entries,
    pub stored: Entries,
}

/// The first half of the model settings a form saves over `previous` (the
/// saved settings of its kind), or why the form is refused.
pub open spec fn candidate_start_of(values: Entries, previous: JsonView) -> Result<CandidateStartView, AppErrorView> {
    let kind = text_at(values, "kind"@, ""@);
    let before = match previous {
        JsonView::Object(e) => e,
        _ => Seq::empty(),
    };
    let provider = text_at(values, "provider"@, text_at(before, "provider"@, "ark"@));
    if !is_model_kind(kind) {
        Err(AppErrorView::BadRequest("不支持的模型类型"@))
    } else if !is_provider(provider) {
        Err(AppErrorView::BadRequest("不支持的服务商"@))
    } else {
        let profiles = profiles_of(before);
        let saved = match profile_of(profiles, provider) {
            Some(e) => e,
            None => Seq::empty(),
        };
        Ok(CandidateStartView { kind, provider, profiles, stored: submitted_over(saved, values) })
    }
}

pub open spec fn candidate_start_result(r: Result<CandidateStart, AppError>) -> Result<CandidateStartView, AppErrorView> {
    match r {
        Ok(c) => Ok(CandidateStartView {
            kind: c.kind@,
            provider: c.provider@,
            profiles: view_entries(c.profiles@),
            stored: view_entries(c.stored@),
        }),
        Err(e) => Err(e@),
    }
}

/// Start the model settings a form saves over the saved settings of its kind.
pub fn candidate_start(values: &Vec<(String, Json)>, previous: &Json) -> (r: Result<CandidateStart, AppError>)
    ensures
        candidate_start_result(r) == candidate_start_of(view_entries(values@), previous@),
{
    let kind = text_value(values, "kind", "");
    validate_kind(kind.as_str())?;
    let before = match previous {
        Json::Object(e) => copy_entries(e),
        _ => {
            let empty: Vec<(String, Json)> = Vec::new();
            proof {
                crate::json::lemma_view_entries(empty@);
                assert(view_entries(empty@) =~= Seq::<(Seq<char>, JsonView)>::empty());
            }
            empty
        },
    };
    let saved_provider = text_value(&before, "provider", "ark");
    let provider = text_value(values, "provider", saved_provider.as_str());
    validate_provider(provider.as_str())?;
    let profiles = provider_profiles(&before);
    let mut stored = match profile(&profiles, provider.as_str()) {
        Some(e) => e,
        None => {
            let empty: Vec<(String, Json)> = Vec::new();
            proof {
                crate::json::lemma_view_entries(empty@);
                assert(view_entries(empty@) =~= Seq::<(Seq<char>, JsonView)>::empty());
            }
            empty
        },
    };
    proof {
        crate::json::lemma_view_entries(values@);
    }
    let ghost vs = view_entries(values@);
    let ghost start = view_entries(stored@);
    let mut i: usize = 0;
    proof {
        assert(vs.subrange(0, 0) =~= Seq::<(Seq<char>, JsonView)>::empty());
    }
    while i < values.len()
        invariant
            i <= values.len(),
            vs == view_entries(values@),
            vs.len() == values.len(),
            forall|k: int| 0 <= k < values.len() ==> #[trigger] vs[k] == (values@[k].0@, values@[k].1@),
            view_entries(stored@) == submitted_over(start, vs.subrange(0, i as int)),
        decreases values.len() - i,
    {
        proof {
            let next = vs.subrange(0, i + 1);
            assert(next.drop_last() =~= vs.subrange(0, i as int));
            assert(next.last() == vs[i as int]);
            crate::json::lemma_view_variant(values@[i as int].1);
        }
        let key = values[i].0.as_str();
        let blank = match &values[i].1 {
            Json::Text(s) => crate::forms::char_count(s.as_str()) == 0,
            _ => true,
        };
        if !str_eq(key, "provider_profiles") && !(is_secret(key) && blank) {
            entry_insert(&mut stored, values[i].0.clone(), duplicate(&values[i].1));
        }
        i += 1;
    }
    proof {
        assert(vs.subrange(0, values.len() as int) =~= vs);
    }
    Ok(CandidateStart { kind, provider, profiles, stored })
}

/// A profile with each default setting of its kind and vendor stored where
/// the profile has none or an empty text.
pub open spec fn with_defaults(stored: Entries, defaults: Seq<(Seq<char>, Seq<char>)>) -> Entries
    decreases defaults.len(),
{
    if defaults.len() == 0 {
        stored
    } else {
        let before = with_defaults(stored, defaults.drop_last());
        let d = defaults.last();
        if lookup(before, d.0) is None || text_at(before, d.0, ""@).len() == 0 {
            insert_entry(before, d.0, JsonView::Text(d.1))
        } else {
            before
        }
    }
}

/// The second half of a model settings candidate: defaults filled in, the
/// plan-endpoint model moved on, the model list normalised, the kind and
/// vendor stored, and the vendor's profile saved among the profiles; or why
/// the concurrency is refused.
pub open spec fn candidate_finish_of(
    kind: Seq<char>,
    provider: Seq<char>,
    profiles: Entries,
    stored: Entries,
    tts_endpoint: Seq<char>,
    tts_resource_id: Seq<char>,
) -> Result<Entries, AppErrorView> {
    let filled = migrated_plan_model(with_defaults(stored, provider_defaults_of(kind, provider, tts_endpoint, tts_resource_id)), kind, provider);
    let selected = selected_entries(filled);
    let c = concurrency_of(filled);
    if !(1 <= c && c <= 8) {
        Err(AppErrorView::BadRequest("生成并发数必须在 1 到 8 之间"@))
    } else {
        let normalised = insert_entry(selected, "generation_concurrency"@, JsonView::Int(c));
        let named = insert_entry(insert_entry(normalised, "kind"@, JsonView::Text(kind)), "provider"@, JsonView::Text(provider));
        Ok(insert_entry(
            named,
            "provider_profiles"@,
            JsonView::Object(insert_entry(profiles, provider, JsonView::Object(without_index(named)))),
        ))
    }
}

/// Finish the model settings a form saves.
pub fn candidate_finish(
    kind: &str,
    provider: &str,
    profiles: Vec<(String, Json)>,
    stored: Vec<(String, Json)>,
    tts_endpoint: &str,
    tts_resource_id: &str,
) -> (r: Result<Vec<(String, Json)>, AppError>)
    ensures
        crate::settings_import::entries_result(r) == candidate_finish_of(kind@, provider@, view_entries(profiles@), view_entries(stored@), tts_endpoint@, tts_resource_id@),
{
    let defaults = provider_defaults(kind, provider, tts_endpoint, tts_resource_id);
    let ghost dv = string_pairs(defaults@);
    let mut stored = stored;
    let ghost start = view_entries(stored@);
    let mut i: usize = 0;
    proof {
        assert(dv.subrange(0, 0) =~= Seq::<(Seq<char>, Seq<char>)>::empty());
    }
    while i < defaults.len()
        invariant
            i <= defaults.len(),
            dv == string_pairs(defaults@),
            dv.len() == defaults.len(),
            view_entries(stored@) == with_defaults(start, dv.subrange(0, i as int)),
        decreases defaults.len() - i,
    {
        proof {
            let next = dv.subrange(0, i + 1);
            assert(next.drop_last() =~= dv.subrange(0, i as int));
            assert(next.last() == dv[i as int]);
            assert(dv[i as int] == (defaults@[i as int].0@, defaults@[i as int].1@));
        }
        let key = defaults[i].0.as_str();
        let missing = entry_get(&stored, key).is_none();
        let empty = crate::forms::char_count(text_value(&stored, key, "").as_str()) == 0;
        if missing || empty {
            entry_insert(&mut stored, defaults[i].0.clone(), Json::Text(defaults[i].1.clone()));
        }
        i += 1;
    }
    proof {
        assert(dv.subrange(0, defaults.len() as int) =~= dv);
    }
    migrate_ark_plan_language_model(&mut stored, kind, provider);
    normalize_model_selection(&mut stored)?;
    entry_insert(&mut stored, "kind".to_owned(), Json::Text(kind.to_owned()));
    entry_insert(&mut stored, "provider".to_owned(), Json::Text(provider.to_owned()));
    let mut profiles = profiles;
    entry_insert(&mut profiles, provider.to_owned(), Json::Object(profile_without_index(&stored)));
    entry_insert(&mut stored, "provider_profiles".to_owned(), Json::Object(profiles));
    Ok(stored)
}

/// Saving one vendor's model settings keeps every other vendor's saved profile.
pub proof fn lemma_other_vendor_profiles_are_kept(
    kind: Seq<char>,
    provider: Seq<char>,
    profiles: Entries,
    stored: Entries,
    tts_endpoint: Seq<char>,
    tts_resource_id: Seq<char>,
    other: Seq<char>,
)
    requires
        other != provider,
        candidate_finish_of(kind, provider, profiles, stored, tts_endpoint, tts_resource_id) is Ok,
    ensures
        ({
            let saved = candidate_finish_of(kind, provider, profiles, stored, tts_endpoint, tts_resource_id)->Ok_0;
            lookup(saved, "provider_profiles"@) matches Some(JsonView::Object(kept)) && lookup(kept, other) == lookup(profiles, other)
        }),
{
    let filled = migrated_plan_model(with_defaults(stored, provider_defaults_of(kind, provider, tts_endpoint, tts_resource_id)), kind, provider);
    let selected = selected_entries(filled);
    let c = concurrency_of(filled);
    let normalised = insert_entry(selected, "generation_concurrency"@, JsonView::Int(c));
    let named = insert_entry(insert_entry(normalised, "kind"@, JsonView::Text(kind)), "provider"@, JsonView::Text(provider));
    let kept = insert_entry(profiles, provider, JsonView::Object(without_index(named)));
    crate::json::lemma_insert_entry(profiles, provider, JsonView::Object(without_index(named)));
    crate::json::lemma_insert_entry(named, "provider_profiles"@, JsonView::Object(kept));
}

} // verus!
