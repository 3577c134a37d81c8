use ai_application_factory::covers::{cover_request, cover_task_snapshot};
use ai_application_factory::image_batches::{asset_batch, reference_needs_image, started_reference_tasks};
use ai_application_factory::json::Json;

fn t(s: &str) -> Json {
    Json::Text(s.to_owned())
}

fn obj(pairs: Vec<(&str, Json)>) -> Json {
    Json::Object(pairs.into_iter().map(|(k, v)| (k.to_owned(), v)).collect())
}

fn map(pairs: Vec<(&str, Json)>) -> Vec<(String, Json)> {
    pairs.into_iter().map(|(k, v)| (k.to_owned(), v)).collect()
}

fn field<'a>(json: &'a Json, key: &str) -> &'a Json {
    match json {
        Json::Object(e) => &e.iter().find(|(k, _)| k == key).expect("field").1,
        _ => panic!("object"),
    }
}

fn texts(json: &Json) -> Vec<String> {
    match json {
        Json::Array(items) => items.iter().map(|i| match i { Json::Text(s) => s.clone(), _ => "?".to_owned() }).collect(),
        _ => panic!("array"),
    }
}

fn err_message<T: std::fmt::Debug>(r: Result<T, ai_application_factory::error::AppError>) -> String {
    match r {
        Err(e) => e.message(),
        Ok(v) => panic!("expected an error, got {:?}", v),
    }
}

fn assets() -> Vec<Json> {
    vec![
        obj(vec![("id", t("hero")), ("type", t("character")), ("name", t("勇者")), ("image_url", t("file:///h.png"))]),
        obj(vec![("id", t("castle")), ("type", t("scene")), ("name", t("城堡"))]),
        obj(vec![("id", t("girl")), ("type", t("character")), ("image_url", t("file:///g.png")), ("variants", Json::Array(vec![obj(vec![("id", t("girl-2"))])]))]),
    ]
}

#[test]
fn a_cover_request_names_its_ratio_count_and_references() {
    let values = map(vec![
        ("name", t(" 封面 ")),
        ("count", Json::Int(2)),
        ("character_asset_ids", Json::Array(vec![t("hero"), t("hero"), t("girl")])),
    ]);
    let request = cover_request(&values, &assets(), "9:16").unwrap();
    assert_eq!(request.name, "封面");
    assert_eq!(request.ratio, "9:16");
    assert_eq!(request.count, 2);
    assert_eq!(texts(field(&request.metadata, "reference_asset_ids")), vec!["hero", "girl"]);
    let game = cover_request(&map(vec![("name", t("封面"))]), &assets(), "16:9").unwrap();
    assert_eq!(game.ratio, "16:9");
    assert_eq!(game.count, 1);

    let snapshot = cover_task_snapshot("game_id", "g1", "c1", &request.metadata);
    assert!(matches!(field(&snapshot, "game_id"), Json::Text(g) if g == "g1"));
    assert!(matches!(field(&snapshot, "count"), Json::Int(2)));
}

#[test]
fn a_cover_request_refuses_bad_settings_and_unready_references() {
    let a = assets();
    assert_eq!(err_message(cover_request(&map(vec![]), &a, "9:16")), "name 不能为空");
    assert_eq!(err_message(cover_request(&map(vec![("name", t("c")), ("ratio", t("2:1"))]), &a, "9:16")), "不支持的封面比例");
    assert_eq!(err_message(cover_request(&map(vec![("name", t("c")), ("count", t("2"))]), &a, "9:16")), "封面数量必须是整数");
    assert_eq!(err_message(cover_request(&map(vec![("name", t("c")), ("count", Json::Int(9))]), &a, "9:16")), "封面数量必须在 1 到 8 之间");
    assert_eq!(
        err_message(cover_request(&map(vec![("name", t("c")), ("scene_asset_ids", Json::Array(vec![t("castle")]))]), &a, "9:16")),
        "请先生成或上传以下封面参考图：城堡"
    );
    assert_eq!(
        err_message(cover_request(&map(vec![("name", t("c")), ("scene_asset_ids", Json::Array(vec![t("hero")]))]), &a, "9:16")),
        "封面参考素材不存在或类型不匹配：hero"
    );
}

#[test]
fn an_image_batch_covers_one_kind_and_every_variant() {
    let a = assets();
    let (kind, input) = asset_batch("p1", &map(vec![("asset_ids", Json::Array(vec![t("girl"), t("hero"), t("girl")]))]), &a).unwrap();
    assert_eq!(kind, "character");
    assert_eq!(texts(field(&input, "asset_ids")), vec!["girl", "hero"]);
    match field(&input, "jobs") {
        Json::Array(jobs) => {
            assert_eq!(jobs.len(), 3);
            assert!(matches!(field(&jobs[1], "variant_id"), Json::Text(v) if v == "girl-2"));
        }
        _ => panic!("jobs"),
    }
    assert!(matches!(field(&input, "batch_size"), Json::Int(5)));
    assert_eq!(err_message(asset_batch("p1", &map(vec![]), &a)), "请至少选择一个素材");
    assert_eq!(err_message(asset_batch("p1", &map(vec![("asset_ids", Json::Array(vec![t("ghost")]))]), &a)), "素材不存在或不属于当前项目");
    assert_eq!(
        err_message(asset_batch("p1", &map(vec![("asset_ids", Json::Array(vec![t("hero"), t("castle")]))]), &a)),
        "生成全部图片时只能选择同一类素材"
    );
}

#[test]
fn only_imageless_characters_scenes_and_props_need_a_reference_image() {
    assert!(reference_needs_image(&obj(vec![("type", t("character")), ("image_url", t("  "))])));
    assert!(reference_needs_image(&obj(vec![("type", t("prop"))])));
    assert!(!reference_needs_image(&obj(vec![("type", t("scene")), ("image_url", t("file:///s.png"))])));
    assert!(!reference_needs_image(&obj(vec![("type", t("cover"))])));
}

#[test]
fn a_one_click_request_reports_each_running_task_once() {
    let task = |id: &str, status: &str| obj(vec![("id", t(id)), ("status", t(status))]);
    let started = started_reference_tasks(vec![
        task("a", "生成中"),
        task("b", "生成成功"),
        task("a", "生成中"),
        task("c", "生成中"),
    ])
    .unwrap();
    let ids: Vec<String> = started.iter().map(|x| match field(x, "id") {
        Json::Text(s) => s.clone(),
        _ => String::new(),
    }).collect();
    assert_eq!(ids, vec!["a", "c"]);
    assert_eq!(
        err_message(started_reference_tasks(vec![task("b", "生成成功")])),
        "当前已选参考图均已就绪，或没有可一键生成的素材"
    );
}
