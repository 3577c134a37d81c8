use ai_application_factory::error::AppError;
use ai_application_factory::json::Json;
use ai_application_factory::shot_references::{
    image_requests, reference_batch, shot_video_preflight, video_requests,
};

fn t(s: &str) -> Json {
    Json::Text(s.to_owned())
}

fn obj(pairs: Vec<(&str, Json)>) -> Json {
    Json::Object(pairs.into_iter().map(|(k, v)| (k.to_owned(), v)).collect())
}

fn chip(asset: Option<&str>, variant: Option<&str>) -> Json {
    let mut pairs = vec![("type", t("reference"))];
    if let Some(a) = asset {
        pairs.push(("asset_id", t(a)));
    }
    if let Some(v) = variant {
        pairs.push(("variant_id", t(v)));
    }
    obj(pairs)
}

fn req(id: &str, variant: Option<&str>) -> (String, Option<String>) {
    (id.to_owned(), variant.map(str::to_owned))
}

fn asset(name: &str, kind: &str, status: &str, url: &str) -> Json {
    obj(vec![("name", t(name)), ("type", t(kind)), ("status", t(status)), ("image_url", t(url))])
}

#[test]
fn a_shot_video_needs_its_named_chips_each_once_in_a_row() {
    let shot = obj(vec![
        (
            "prompt_rich",
            Json::Array(vec![
                chip(Some("hero"), None),
                chip(Some("hero"), None),
                chip(None, None),
                chip(Some(""), None),
                chip(Some("hero"), Some("young")),
                chip(Some("hero"), None),
            ]),
        ),
        ("reference_asset_ids", Json::Array(vec![t("other")])),
    ]);
    assert_eq!(
        video_requests(&shot),
        vec![req("hero", None), req("hero", Some("young")), req("hero", None)]
    );
    let listed = obj(vec![("reference_asset_ids", Json::Array(vec![t("a"), t("a"), t(""), t("b")]))]);
    assert_eq!(video_requests(&listed), vec![req("a", None), req("b", None)]);
}

#[test]
fn a_one_click_request_looks_at_every_chip() {
    let shot = obj(vec![("prompt_rich", Json::Array(vec![chip(None, None), chip(Some("a"), Some("f"))]))]);
    assert_eq!(image_requests(&shot), vec![req("", None), req("a", Some("f"))]);
    let listed = obj(vec![("reference_asset_ids", Json::Array(vec![t("a"), Json::Int(1)]))]);
    assert_eq!(image_requests(&listed), vec![req("a", None)]);
}

#[test]
fn a_shot_video_preflight_lists_every_issue() {
    let shot = obj(vec![("prompt", t("  "))]);
    let requests = vec![req("gone", None), req("a", None), req("b", None), req("c", None), req("d", None)];
    let resolved = vec![
        None,
        Some(asset("甲", "character", "生成中", "")),
        Some(asset("乙", "placeholder", "生成成功", "https://x/b.png")),
        Some(asset("丙", "scene", "生成成功", "file:///c.png")),
        Some(asset("丁", "prop", "未生成", "")),
    ];
    match shot_video_preflight(&shot, &requests, &resolved, &vec!["https://x/b.png".to_owned()]) {
        Err(AppError::BadRequest(m)) => assert_eq!(
            m,
            "最近更新过提示词或参考图，请确认后点击保存再生成视频；gone（素材不存在）；甲（图片仍在生成）；乙（占位图尚未生成合成图）；丙（本地图片无法调用大模型）；丁（图片未生成或未上传）"
        ),
        _ => panic!("expected the issues"),
    }
    let ready = obj(vec![("prompt", t("推门"))]);
    let fine = vec![Some(asset("丙", "scene", "生成成功", "https://x/c.png"))];
    assert!(shot_video_preflight(&ready, &vec![req("c", None)], &fine, &vec!["https://x/c.png".to_owned()]).is_ok());
}

#[test]
fn a_reference_batch_asks_for_each_missing_image_once() {
    let requests = vec![req("a", None), req("a", None), req("b", Some("f")), req("c", None), req("d", None)];
    let resolved = vec![
        Some(asset("甲", "character", "未生成", "")),
        Some(asset("甲", "character", "未生成", "")),
        Some(asset("乙", "character", "未生成", "")),
        Some(asset("丙", "scene", "生成成功", "https://x/c.png")),
        None,
    ];
    let batch = reference_batch("p1", "s1", &requests, &resolved).unwrap();
    match &batch {
        Json::Object(e) => {
            let jobs = e.iter().find(|(k, _)| k == "jobs").map(|(_, v)| v).unwrap();
            match jobs {
                Json::Array(items) => assert_eq!(items.len(), 2),
                _ => panic!("array expected"),
            }
            assert!(e.iter().any(|(k, v)| k == "batch_size" && matches!(v, Json::Int(5))));
        }
        _ => panic!("object expected"),
    }
    match reference_batch("p1", "s1", &vec![req("c", None)], &vec![Some(asset("丙", "cover", "未生成", ""))]) {
        Err(AppError::BadRequest(m)) => assert_eq!(m, "当前已选参考图均已生成，或没有可一键生成的素材"),
        _ => panic!("expected a refusal"),
    }
}
