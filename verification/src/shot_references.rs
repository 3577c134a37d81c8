//! The materials a drama shot refers to: which ones its video needs, what
//! keeps its video from being generated, and which reference images one
//! click generates. Which material (or form of a material) a reference
//! resolves to is handed in, one per reference.

use vstd::prelude::*;

use crate::error::{unit_result, AppError, AppErrorView};
use crate::game_video::{listed_url, texts_of};
use crate::json::{json_eq, text_or, view_entries, view_items, Json, JsonView};
use crate::placeholder::{at, has_text};
use crate::text::{chars_of, concat, join_with, joined, trim, trimmed};

verus! {

/// A reference: a material id, and the form of it when one is chosen.
pub type Request = (Seq<char>, Option<Seq<char>>);

pub open spec fn opt_text_of(v: Option<JsonView>) -> Option<Seq<char>> {
    match v {
        Some(JsonView::Text(s)) => Some(s),
        _ => None,
    }
}

/// The reference chips of a rich prompt, as requests: each `reference`
/// chip's material (empty when it names none) and chosen form.
pub open spec fn chip_requests(nodes: Seq<JsonView>) -> Seq<Request>
    decreases nodes.len(),
{
    if nodes.len() == 0 {
        Seq::empty()
    } else {
        let before = chip_requests(nodes.drop_last());
        let node = nodes.last();
        if node.get("type"@) == Some(JsonView::Text("reference"@)) {
            before.push((text_or(node, "asset_id"@, ""@), opt_text_of(node.get("variant_id"@))))
        } else {
            before
        }
    }
}

/// The text ids of a reference list, as requests without a form.
pub open spec fn listed_requests(items: Seq<JsonView>) -> Seq<Request>
    decreases items.len(),
{
    if items.len() == 0 {
        Seq::empty()
    } else {
        let before = listed_requests(items.drop_last());
        match items.last() {
            JsonView::Text(id) => before.push((id, None)),
            _ => before,
        }
    }
}

/// The list stored under `key`, or none.
pub open spec fn list_at(v: JsonView, key: Seq<char>) -> Seq<JsonView> {
    match v.get(key) {
        Some(JsonView::Array(items)) => items,
        _ => Seq::empty(),
    }
}

/// The references a one-click image request looks at: the shot's reference
/// chips, or its saved reference list when it has no chip.
pub open spec fn image_requests_of(shot: JsonView) -> Seq<Request> {
    let chips = chip_requests(list_at(shot, "prompt_rich"@));
    if chips.len() > 0 {
        chips
    } else {
        listed_requests(list_at(shot, "reference_asset_ids"@))
    }
}

/// The references with a material id, neighbouring repeats kept once.
pub open spec fn kept_requests(requests: Seq<Request>) -> Seq<Request>
    decreases requests.len(),
{
    if requests.len() == 0 {
        Seq::empty()
    } else {
        let before = kept_requests(requests.drop_last());
        let r = requests.last();
        if r.0.len() == 0 || (before.len() > 0 && before.last() == r) {
            before
        } else {
            before.push(r)
        }
    }
}

/// The references a shot's video needs: the chips that name a material, or
/// the saved reference list when no chip does, neighbouring repeats once.
pub open spec fn video_requests_of(shot: JsonView) -> Seq<Request> {
    kept_requests(if chip_requests_with_material(list_at(shot, "prompt_rich"@)).len() > 0 {
        chip_requests_with_material(list_at(shot, "prompt_rich"@))
    } else {
        listed_requests(list_at(shot, "reference_asset_ids"@))
    })
}

/// The reference chips that name their material by a text.
pub open spec fn chip_requests_with_material(nodes: Seq<JsonView>) -> Seq<Request>
    decreases nodes.len(),
{
    if nodes.len() == 0 {
        Seq::empty()
    } else {
        let before = chip_requests_with_material(nodes.drop_last());
        let node = nodes.last();
        if node.get("type"@) == Some(JsonView::Text("reference"@)) {
            match node.get("asset_id"@) {
                Some(JsonView::Text(id)) => before.push((id, opt_text_of(node.get("variant_id"@)))),
                _ => before,
            }
        } else {
            before
        }
    }
}

pub open spec fn requests_view(v: Seq<(String, Option<String>)>) -> Seq<Request> {
    Seq::new(v.len(), |i: int| (v[i].0@, crate::storage::opt_text_view(v[i].1)))
}

fn opt_text_at(node: &Json, key: &str) -> (r: Option<String>)
    ensures
        crate::storage::opt_text_view(r) == opt_text_of(node@.get(key@)),
{
    match node.get(key) {
        Some(Json::Text(s)) => Some(s.clone()),
        other => {
            proof {
                match other {
                    Some(v) => crate::json::lemma_view_variant(*v),
                    None => {},
                }
            }
            None
        },
    }
}

fn items_of<'a>(v: &'a Json, key: &str, empty: &'a Vec<Json>) -> (r: &'a Vec<Json>)
    requires
        empty@.len() == 0,
    ensures
        view_items(r@) == list_at(v@, key@),
{
    proof {
        crate::json::lemma_view_items(empty@);
        assert(view_items(empty@) =~= Seq::<JsonView>::empty());
    }
    match v.get(key) {
        Some(Json::Array(items)) => items,
        other => {
            proof {
                match other {
                    Some(x) => crate::json::lemma_view_variant(*x),
                    None => {},
                }
            }
            empty
        },
    }
}

fn chips_of(nodes: &Vec<Json>, with_material: bool) -> (r: Vec<(String, Option<String>)>)
    ensures
        requests_view(r@) == if with_material {
            chip_requests_with_material(view_items(nodes@))
        } else {
            chip_requests(view_items(nodes@))
        },
{
    proof {
        crate::json::lemma_view_items(nodes@);
    }
    let ghost all = view_items(nodes@);
    let mut out: Vec<(String, Option<String>)> = Vec::new();
    let mut i: usize = 0;
    proof {
        assert(all.subrange(0, 0) =~= Seq::<JsonView>::empty());
        assert(requests_view(out@) =~= Seq::<Request>::empty());
    }
    while i < nodes.len()
        invariant
            i <= nodes.len(),
            all == view_items(nodes@),
            all.len() == nodes.len(),
            forall|k: int| 0 <= k < nodes.len() ==> #[trigger] all[k] == nodes@[k]@,
            requests_view(out@) == if with_material {
                chip_requests_with_material(all.subrange(0, i as int))
            } else {
                chip_requests(all.subrange(0, i as int))
            },
        decreases nodes.len() - i,
    {
        proof {
            let next = all.subrange(0, i + 1);
            assert(next.drop_last() =~= all.subrange(0, i as int));
            assert(next.last() == nodes@[i as int]@);
        }
        let node = &nodes[i];
        if has_text(node.get("type"), "reference") {
            let variant = opt_text_at(node, "variant_id");
            let ghost before = requests_view(out@);
            if with_material {
                match node.get("asset_id") {
                    Some(Json::Text(id)) => {
                        out.push((id.clone(), variant));
                        proof {
                            assert(requests_view(out@) =~= before.push((id@, opt_text_of(node@.get("variant_id"@)))));
                        }
                    },
                    other => {
                        proof {
                            match other {
                                Some(v) => crate::json::lemma_view_variant(*v),
                                None => {},
                            }
                        }
                    },
                }
            } else {
                let id = node.text_or("asset_id", "");
                out.push((id, variant));
                proof {
                    assert(requests_view(out@) =~= before.push((text_or(node@, "asset_id"@, ""@), opt_text_of(node@.get("variant_id"@)))));
                }
            }
        }
        i += 1;
    }
    proof {
        assert(all.subrange(0, nodes.len() as int) =~= all);
    }
    out
}

fn listed_of(items: &Vec<Json>) -> (r: Vec<(String, Option<String>)>)
    ensures
        requests_view(r@) == listed_requests(view_items(items@)),
{
    proof {
        crate::json::lemma_view_items(items@);
    }
    let ghost all = view_items(items@);
    let mut out: Vec<(String, Option<String>)> = Vec::new();
    let mut i: usize = 0;
    proof {
        assert(all.subrange(0, 0) =~= Seq::<JsonView>::empty());
        assert(requests_view(out@) =~= Seq::<Request>::empty());
    }
    while i < items.len()
        invariant
            i <= items.len(),
            all == view_items(items@),
            all.len() == items.len(),
            forall|k: int| 0 <= k < items.len() ==> #[trigger] all[k] == items@[k]@,
            requests_view(out@) == listed_requests(all.subrange(0, i as int)),
        decreases items.len() - i,
    {
        proof {
            let next = all.subrange(0, i + 1);
            assert(next.drop_last() =~= all.subrange(0, i as int));
            assert(next.last() == items@[i as int]@);
            crate::json::lemma_view_variant(items@[i as int]);
        }
        match &items[i] {
            Json::Text(id) => {
                let ghost before = requests_view(out@);
                out.push((id.clone(), None));
                proof {
                    assert(requests_view(out@) =~= before.push((id@, None)));
                }
            },
            _ => {},
        }
        i += 1;
    }
    proof {
        assert(all.subrange(0, items.len() as int) =~= all);
    }
    out
}

/// The references a one-click image request of a shot looks at.
pub fn image_requests(shot: &Json) -> (r: Vec<(String, Option<String>)>)
    ensures
        requests_view(r@) == image_requests_of(shot@),
{
    let empty: Vec<Json> = Vec::new();
    let chips = chips_of(items_of(shot, "prompt_rich", &empty), false);
    if chips.len() > 0 {
        chips
    } else {
        listed_of(items_of(shot, "reference_asset_ids", &empty))
    }
}

fn same_request(a: &(String, Option<String>), b: &(String, Option<String>)) -> (r: bool)
    ensures
        r == ((a.0@, crate::storage::opt_text_view(a.1)) == (b.0@, crate::storage::opt_text_view(b.1))),
{
    if !crate::json::str_eq(a.0.as_str(), b.0.as_str()) {
        return false;
    }
    match (&a.1, &b.1) {
        (Some(x), Some(y)) => crate::json::str_eq(x.as_str(), y.as_str()),
        (None, None) => true,
        _ => false,
    }
}

/// The references a shot's video needs.
pub fn video_requests(shot: &Json) -> (r: Vec<(String, Option<String>)>)
    ensures
        requests_view(r@) == video_requests_of(shot@),
{
    let empty: Vec<Json> = Vec::new();
    let named = chips_of(items_of(shot, "prompt_rich", &empty), true);
    let raw = if named.len() > 0 {
        named
    } else {
        listed_of(items_of(shot, "reference_asset_ids", &empty))
    };
    let ghost all = requests_view(raw@);
    let mut out: Vec<(String, Option<String>)> = Vec::new();
    let mut i: usize = 0;
    proof {
        assert(all.subrange(0, 0) =~= Seq::<Request>::empty());
        assert(requests_view(out@) =~= Seq::<Request>::empty());
    }
    while i < raw.len()
        invariant
            i <= raw.len(),
            all == requests_view(raw@),
            requests_view(out@) == kept_requests(all.subrange(0, i as int)),
        decreases raw.len() - i,
    {
        proof {
            let next = all.subrange(0, i + 1);
            assert(next.drop_last() =~= all.subrange(0, i as int));
            assert(next.last() == all[i as int]);
        }
        let ghost before = requests_view(out@);
        let blank = chars_of(raw[i].0.as_str()).len() == 0;
        let repeat = out.len() > 0 && same_request(&out[out.len() - 1], &raw[i]);
        proof {
            if out.len() > 0 {
                assert(before.last() == requests_view(out@)[out.len() - 1]);
            }
        }
        if !blank && !repeat {
            let copy = (raw[i].0.clone(), raw[i].1.clone());
            out.push(copy);
            proof {
                assert(requests_view(out@) =~= before.push(all[i as int]));
            }
        }
        i += 1;
    }
    proof {
        assert(all.subrange(0, raw.len() as int) =~= all);
    }
    out
}

/// Whether a material holds an image URL that is not empty.
pub open spec fn has_image(asset: JsonView) -> bool {
    match asset.get("image_url"@) {
        Some(JsonView::Text(u)) => u.len() > 0,
        _ => false,
    }
}

/// Why a reference keeps a shot's video from being generated, if it does.
/// `resolved` is the material (or form) the reference resolves to, and
/// `sendable` lists the image URLs that can be handed to a video model.
pub open spec fn shot_reference_issue(id: Seq<char>, resolved: Option<JsonView>, sendable: Seq<Seq<char>>) -> Option<Seq<char>> {
    match resolved {
        None => Some(id + "（素材不存在）"@),
        Some(asset) => {
            let name = text_or(asset, "name"@, id);
            let status = asset.get("status"@);
            if status == Some(JsonView::Text("生成中"@)) {
                Some(name + "（图片仍在生成）"@)
            } else if status == Some(JsonView::Text("生成失败"@)) {
                Some(name + "（图片生成失败）"@)
            } else if status == Some(JsonView::Text("生成成功"@)) && has_image(asset) {
                if asset.get("type"@) == Some(JsonView::Text("placeholder"@))
                    && at(at(asset, "metadata"@), "render_mode"@) != JsonView::Text("generated_composite"@) {
                    Some(name + "（占位图尚未生成合成图）"@)
                } else if !sendable.contains(text_or(asset, "image_url"@, ""@)) {
                    Some(name + "（本地图片无法调用大模型）"@)
                } else {
                    None
                }
            } else {
                Some(name + "（图片未生成或未上传）"@)
            }
        },
    }
}

/// The issues of each reference, in reference order.
pub open spec fn shot_reference_issues(requests: Seq<Request>, resolved: Seq<Option<JsonView>>, sendable: Seq<Seq<char>>) -> Seq<Seq<char>>
    decreases requests.len(),
{
    if requests.len() == 0 || resolved.len() == 0 {
        Seq::empty()
    } else {
        let before = shot_reference_issues(requests.drop_last(), resolved.drop_last(), sendable);
        match shot_reference_issue(requests.last().0, resolved.last(), sendable) {
            Some(issue) => before.push(issue),
            None => before,
        }
    }
}

/// Whether a shot has a saved video prompt.
pub open spec fn shot_prompt_missing(shot: JsonView) -> bool {
    match shot.get("prompt"@) {
        Some(JsonView::Text(p)) => trimmed(p).len() == 0,
        _ => true,
    }
}

/// Every reason a shot's video cannot be generated yet, in report order.
pub open spec fn shot_video_issues(shot: JsonView, requests: Seq<Request>, resolved: Seq<Option<JsonView>>, sendable: Seq<Seq<char>>) -> Seq<Seq<char>> {
    let prompt: Seq<Seq<char>> = if shot_prompt_missing(shot) {
        seq!["最近更新过提示词或参考图，请确认后点击保存再生成视频"@]
    } else {
        Seq::empty()
    };
    prompt + shot_reference_issues(requests, resolved, sendable)
}

/// The preflight of a shot's video: nothing to report, or every issue joined by `；`.
pub open spec fn shot_video_preflight_of(shot: JsonView, requests: Seq<Request>, resolved: Seq<Option<JsonView>>, sendable: Seq<Seq<char>>) -> Result<(), AppErrorView> {
    let issues = shot_video_issues(shot, requests, resolved, sendable);
    if issues.len() == 0 {
        Ok(())
    } else {
        Err(AppErrorView::BadRequest(joined(issues, "；"@)))
    }
}

pub open spec fn resolved_view(v: Seq<Option<Json>>) -> Seq<Option<JsonView>> {
    Seq::new(v.len(), |i: int| crate::json::opt_json(v[i]))
}

fn issue_for(id: &str, resolved: &Option<Json>, sendable_urls: &Vec<String>) -> (r: Option<String>)
    ensures
        crate::storage::opt_text_view(r) == shot_reference_issue(id@, crate::json::opt_json(*resolved), texts_of(sendable_urls@)),
{
    let asset = match resolved {
        None => return Some(concat(id, "（素材不存在）")),
        Some(a) => a,
    };
    let name = asset.text_or("name", id);
    if has_text(asset.get("status"), "生成中") {
        return Some(concat(name.as_str(), "（图片仍在生成）"));
    }
    if has_text(asset.get("status"), "生成失败") {
        return Some(concat(name.as_str(), "（图片生成失败）"));
    }
    let url = asset.text_or("image_url", "");
    let image = match asset.get("image_url") {
        Some(Json::Text(u)) => chars_of(u.as_str()).len() > 0,
        other => {
            proof {
                match other {
                    Some(v) => crate::json::lemma_view_variant(*v),
                    None => {},
                }
            }
            false
        },
    };
    if has_text(asset.get("status"), "生成成功") && image {
        let metadata = crate::placeholder::value_at(asset, "metadata");
        let composite = has_text(metadata.get("render_mode"), "generated_composite");
        proof {
            if !composite {
                assert(at(at(asset@, "metadata"@), "render_mode"@) != JsonView::Text("generated_composite"@));
            }
        }
        if has_text(asset.get("type"), "placeholder") && !composite {
            Some(concat(name.as_str(), "（占位图尚未生成合成图）"))
        } else if !listed_url(sendable_urls, url.as_str()) {
            Some(concat(name.as_str(), "（本地图片无法调用大模型）"))
        } else {
            None
        }
    } else {
        Some(concat(name.as_str(), "（图片未生成或未上传）"))
    }
}

/// Check that a shot's video can be generated. `requests` are the
/// references its video needs, `resolved` the material each resolves to,
/// and `sendable_urls` the image URLs a video model can be handed.
pub fn shot_video_preflight(
    shot: &Json,
    requests: &Vec<(String, Option<String>)>,
    resolved: &Vec<Option<Json>>,
    sendable_urls: &Vec<String>,
) -> (r: Result<(), AppError>)
    requires
        requests.len() == resolved.len(),
    ensures
        unit_result(r) == shot_video_preflight_of(shot@, requests_view(requests@), resolved_view(resolved@), texts_of(sendable_urls@)),
{
    let ghost rq = requests_view(requests@);
    let ghost rs = resolved_view(resolved@);
    let ghost sendable = texts_of(sendable_urls@);
    let mut issues: Vec<String> = Vec::new();
    let blank = match shot.get("prompt") {
        Some(Json::Text(p)) => chars_of(trim(p.as_str()).as_str()).len() == 0,
        other => {
            proof {
                match other {
                    Some(v) => crate::json::lemma_view_variant(*v),
                    None => {},
                }
            }
            true
        },
    };
    if blank {
        issues.push("最近更新过提示词或参考图，请确认后点击保存再生成视频".to_owned());
    }
    let ghost head = texts_of(issues@);
    proof {
        let p: Seq<Seq<char>> = if shot_prompt_missing(shot@) {
            seq!["最近更新过提示词或参考图，请确认后点击保存再生成视频"@]
        } else {
            Seq::empty()
        };
        assert(head =~= p);
        assert(rq.subrange(0, 0) =~= Seq::<Request>::empty());
        assert(texts_of(issues@) =~= head + Seq::<Seq<char>>::empty());
    }
    let mut i: usize = 0;
    while i < requests.len()
        invariant
            i <= requests.len(),
            requests.len() == resolved.len(),
            rq == requests_view(requests@),
            rs == resolved_view(resolved@),
            sendable == texts_of(sendable_urls@),
            texts_of(issues@) == head + shot_reference_issues(rq.subrange(0, i as int), rs.subrange(0, i as int), sendable),
        decreases requests.len() - i,
    {
        proof {
            let nq = rq.subrange(0, i + 1);
            let ns = rs.subrange(0, i + 1);
            assert(nq.drop_last() =~= rq.subrange(0, i as int));
            assert(ns.drop_last() =~= rs.subrange(0, i as int));
            assert(nq.last() == rq[i as int]);
            assert(ns.last() == rs[i as int]);
        }
        let found = issue_for(requests[i].0.as_str(), &resolved[i], sendable_urls);
        if let Some(issue) = found {
            let ghost before = texts_of(issues@);
            issues.push(issue);
            proof {
                assert(texts_of(issues@) =~= before.push(issues@[issues.len() - 1]@));
            }
        }
        i += 1;
    }
    proof {
        assert(rq.subrange(0, requests.len() as int) =~= rq);
        assert(rs.subrange(0, requests.len() as int) =~= rs);
        assert(texts_of(issues@) =~= shot_video_issues(shot@, rq, rs, sendable));
    }
    if issues.len() == 0 {
        Ok(())
    } else {
        let message = join_with(&issues, "；");
        proof {
            assert(Seq::new(issues.len() as nat, |i: int| issues@[i]@) =~= texts_of(issues@));
        }
        Err(AppError::BadRequest(message))
    }
}

/// The image job of a reference: the chosen form's image, or the material's.
pub open spec fn job_for(r: Request) -> JsonView {
    match r.1 {
        Some(v) => JsonView::Object(seq![
            ("type"@, JsonView::Text("asset_variant_image"@)),
            ("asset_id"@, JsonView::Text(r.0)),
            ("variant_id"@, JsonView::Text(v)),
        ]),
        None => JsonView::Object(seq![
            ("type"@, JsonView::Text("asset_image"@)),
            ("asset_id"@, JsonView::Text(r.0)),
        ]),
    }
}

/// Whether a resolved material still needs an image: a character, scene or
/// prop without a finished image.
pub open spec fn needs_job(asset: JsonView) -> bool {
    let kind = text_or(asset, "type"@, ""@);
    (kind == "character"@ || kind == "scene"@ || kind == "prop"@)
        && !(asset.get("status"@) == Some(JsonView::Text("生成成功"@)) && has_image(asset))
}

/// The image jobs of a one-click request, each once, in reference order;
/// references that resolve to nothing are passed over.
pub open spec fn jobs_of(requests: Seq<Request>, resolved: Seq<Option<JsonView>>) -> Seq<JsonView>
    decreases requests.len(),
{
    if requests.len() == 0 || resolved.len() == 0 {
        Seq::empty()
    } else {
        let before = jobs_of(requests.drop_last(), resolved.drop_last());
        match resolved.last() {
            Some(asset) => if needs_job(asset) && !before.contains(job_for(requests.last())) {
                before.push(job_for(requests.last()))
            } else {
                before
            },
            None => before,
        }
    }
}

/// What a one-click request for a shot's reference images starts: a batch
/// with its jobs, or a refusal when there is nothing to generate.
pub open spec fn reference_batch_of(project_id: Seq<char>, shot_id: Seq<char>, requests: Seq<Request>, resolved: Seq<Option<JsonView>>) -> Result<JsonView, AppErrorView> {
    let jobs = jobs_of(requests, resolved);
    if jobs.len() == 0 {
        Err(AppErrorView::BadRequest("当前已选参考图均已生成，或没有可一键生成的素材"@))
    } else {
        Ok(JsonView::Object(seq![
            ("project_id"@, JsonView::Text(project_id)),
            ("shot_id"@, JsonView::Text(shot_id)),
            ("jobs"@, JsonView::Array(jobs)),
            ("batch_size"@, JsonView::Int(5)),
            ("next_index"@, JsonView::Int(0)),
            ("active_task_ids"@, JsonView::Array(Seq::empty())),
            ("completed_count"@, JsonView::Int(0)),
            ("failed_count"@, JsonView::Int(0)),
            ("cancelled_count"@, JsonView::Int(0)),
            ("type"@, JsonView::Text("shot_reference_image_batch"@)),
        ]))
    }
}

fn job_of(request: &(String, Option<String>)) -> (r: Json)
    ensures
        r@ == job_for((request.0@, crate::storage::opt_text_view(request.1))),
{
    let entries: Vec<(String, Json)> = match &request.1 {
        Some(v) => vec![
            ("type".to_owned(), Json::Text("asset_variant_image".to_owned())),
            ("asset_id".to_owned(), Json::Text(request.0.clone())),
            ("variant_id".to_owned(), Json::Text(v.clone())),
        ],
        None => vec![
            ("type".to_owned(), Json::Text("asset_image".to_owned())),
            ("asset_id".to_owned(), Json::Text(request.0.clone())),
        ],
    };
    proof {
        crate::json::lemma_view_entries(entries@);
        assert(view_entries(entries@) =~= job_for((request.0@, crate::storage::opt_text_view(request.1)))->Object_0);
    }
    Json::Object(entries)
}

fn needs_image_job(asset: &Json) -> (r: bool)
    ensures
        r == needs_job(asset@),
{
    let kind = asset.text_or("type", "");
    let k = kind.as_str();
    let generatable = crate::json::str_eq(k, "character") || crate::json::str_eq(k, "scene") || crate::json::str_eq(k, "prop");
    let image = match asset.get("image_url") {
        Some(Json::Text(u)) => chars_of(u.as_str()).len() > 0,
        other => {
            proof {
                match other {
                    Some(v) => crate::json::lemma_view_variant(*v),
                    None => {},
                }
            }
            false
        },
    };
    generatable && !(has_text(asset.get("status"), "生成成功") && image)
}

/// Start a one-click request for a shot's reference images: `requests` are
/// the references it looks at and `resolved` the material each resolves to.
pub fn reference_batch(
    project_id: &str,
    shot_id: &str,
    requests: &Vec<(String, Option<String>)>,
    resolved: &Vec<Option<Json>>,
) -> (r: Result<Json, AppError>)
    requires
        requests.len() == resolved.len(),
    ensures
        crate::frame_references::json_result(r) == reference_batch_of(project_id@, shot_id@, requests_view(requests@), resolved_view(resolved@)),
{
    let ghost rq = requests_view(requests@);
    let ghost rs = resolved_view(resolved@);
    let mut jobs: Vec<Json> = Vec::new();
    let mut i: usize = 0;
    proof {
        crate::json::lemma_view_items(jobs@);
        assert(rq.subrange(0, 0) =~= Seq::<Request>::empty());
    }
    while i < requests.len()
        invariant
            i <= requests.len(),
            requests.len() == resolved.len(),
            rq == requests_view(requests@),
            rs == resolved_view(resolved@),
            view_items(jobs@) == jobs_of(rq.subrange(0, i as int), rs.subrange(0, i as int)),
        decreases requests.len() - i,
    {
        proof {
            let nq = rq.subrange(0, i + 1);
            let ns = rs.subrange(0, i + 1);
            assert(nq.drop_last() =~= rq.subrange(0, i as int));
            assert(ns.drop_last() =~= rs.subrange(0, i as int));
            assert(nq.last() == rq[i as int]);
            assert(ns.last() == rs[i as int]);
            crate::json::lemma_view_items(jobs@);
        }
        match &resolved[i] {
            Some(asset) => {
                if needs_image_job(asset) {
                    let job = job_of(&requests[i]);
                    let mut seen = false;
                    let mut j: usize = 0;
                    while j < jobs.len()
                        invariant
                            j <= jobs.len(),
                            seen == exists|k: int| 0 <= k < j && #[trigger] jobs@[k]@ == job@,
                        decreases jobs.len() - j,
                    {
                        if json_eq(&jobs[j], &job) {
                            seen = true;
                        }
                        j += 1;
                    }
                    proof {
                        let jv = view_items(jobs@);
                        if seen {
                            let k = choose|k: int| 0 <= k < jobs.len() && #[trigger] jobs@[k]@ == job@;
                            assert(jv[k] == job@);
                        } else {
                            assert forall|k: int| 0 <= k < jv.len() implies jv[k] != job@ by {
                                assert(jv[k] == jobs@[k]@);
                            }
                        }
                    }
                    if !seen {
                        proof {
                            crate::json::lemma_view_items_push(jobs@, job);
                        }
                        jobs.push(job);
                    }
                }
            },
            None => {},
        }
        i += 1;
    }
    proof {
        assert(rq.subrange(0, requests.len() as int) =~= rq);
        assert(rs.subrange(0, requests.len() as int) =~= rs);
        crate::json::lemma_view_items(jobs@);
    }
    if jobs.len() == 0 {
        return Err(AppError::bad_request("当前已选参考图均已生成，或没有可一键生成的素材"));
    }
    let ghost jv = view_items(jobs@);
    let empty: Vec<Json> = Vec::new();
    proof {
        crate::json::lemma_view_items(empty@);
        assert(view_items(empty@) =~= Seq::<JsonView>::empty());
    }
    let entries: Vec<(String, Json)> = vec![
        ("project_id".to_owned(), Json::Text(project_id.to_owned())),
        ("shot_id".to_owned(), Json::Text(shot_id.to_owned())),
        ("jobs".to_owned(), Json::Array(jobs)),
        ("batch_size".to_owned(), Json::Int(5)),
        ("next_index".to_owned(), Json::Int(0)),
        ("active_task_ids".to_owned(), Json::Array(empty)),
        ("completed_count".to_owned(), Json::Int(0)),
        ("failed_count".to_owned(), Json::Int(0)),
        ("cancelled_count".to_owned(), Json::Int(0)),
        ("type".to_owned(), Json::Text("shot_reference_image_batch".to_owned())),
    ];
    proof {
        crate::json::lemma_view_entries(entries@);
        assert(view_entries(entries@) =~= reference_batch_of(project_id@, shot_id@, rq, rs)->Ok_0->Object_0);
    }
    Ok(Json::Object(entries))
}

/// A one-click request asks for each image once.
pub proof fn lemma_each_image_is_requested_once(requests: Seq<Request>, resolved: Seq<Option<JsonView>>)
    ensures
        forall|i: int, j: int| 0 <= i < j < jobs_of(requests, resolved).len()
            ==> #[trigger] jobs_of(requests, resolved)[i] != #[trigger] jobs_of(requests, resolved)[j],
    decreases requests.len(),
{
    if requests.len() > 0 && resolved.len() > 0 {
        lemma_each_image_is_requested_once(requests.drop_last(), resolved.drop_last());
        let before = jobs_of(requests.drop_last(), resolved.drop_last());
        let all = jobs_of(requests, resolved);
        if all.len() > before.len() {
            let job = job_for(requests.last());
            assert(all == before.push(job));
            assert forall|i: int, j: int| 0 <= i < j < all.len() implies #[trigger] all[i] != #[trigger] all[j] by {
                if j == before.len() {
                    assert(all[i] == before[i]);
                    assert(!before.contains(job));
                } else {
                    assert(all[i] == before[i] && all[j] == before[j]);
                }
            }
        }
    }
}

} // verus!
