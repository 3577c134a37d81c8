use ai_application_factory::refinement::{run_snapshot, video_run_count};
use ai_application_factory::cancellation::{all_videos_report, any_node_video_running, node_cancel_report, provider_refusal, provider_task_to_stop};
use ai_application_factory::cancellation::{
    batch_tasks_to_cancel, image_cancel_message, image_tasks_to_cancel, kind_materials,
    stopped_version, stopped_video_report, variant_tasks_to_cancel, video_stops, ProviderStop,
};
use ai_application_factory::json::Json;
use ai_application_factory::refinement::{refinement_of, refinement_prompt, refinement_snapshot};

fn t(s: &str) -> Json {
    Json::Text(s.to_owned())
}

fn obj(pairs: Vec<(&str, Json)>) -> Json {
    Json::Object(pairs.into_iter().map(|(k, v)| (k.to_owned(), v)).collect())
}

fn field<'a>(json: &'a Json, key: &str) -> &'a Json {
    match json {
        Json::Object(e) => &e.iter().find(|(k, _)| k == key).expect("field").1,
        _ => panic!("object"),
    }
}

fn err_message<T: std::fmt::Debug>(r: Result<T, ai_application_factory::error::AppError>) -> String {
    match r {
        Err(e) => e.message(),
        Ok(v) => panic!("expected an error, got {:?}", v),
    }
}

fn task(id: &str, resource: &str) -> Json {
    obj(vec![("id", t(id)), ("resource_id", t(resource))])
}

#[test]
fn image_cancellation_stops_only_the_chosen_kind() {
    assert_eq!(image_cancel_message("scene").unwrap(), "场景图片生成已取消");
    assert_eq!(err_message(image_cancel_message("cover")), "只支持取消角色、场景或道具的图片任务");

    let project = obj(vec![(
        "assets",
        Json::Array(vec![
            obj(vec![("id", t("hero")), ("type", t("character")), ("variants", Json::Array(vec![obj(vec![("id", t("hero-old"))])]))]),
            obj(vec![("id", t("castle")), ("type", t("scene"))]),
            obj(vec![("id", t("girl")), ("type", t("character"))]),
        ]),
    )]);
    let materials = kind_materials(&project, "character");
    assert_eq!(materials.asset_ids, vec!["hero", "girl"]);
    assert_eq!(materials.variants, vec![("hero-old".to_owned(), "hero".to_owned())]);

    let batches = vec![task("b1", "character"), task("b2", "scene")];
    assert_eq!(batch_tasks_to_cancel(&batches, "character"), vec!["b1"]);
    let images = vec![task("i1", "castle"), task("i2", "girl")];
    assert_eq!(image_tasks_to_cancel(&images, &materials.asset_ids), vec![("i2".to_owned(), "girl".to_owned())]);
    let variants = vec![task("v1", "hero-old"), task("v2", "other")];
    assert_eq!(
        variant_tasks_to_cancel(&variants, &materials.variants),
        vec![("v1".to_owned(), "hero".to_owned(), "hero-old".to_owned())]
    );
}

#[test]
fn video_cancellation_stops_the_shot_s_serial_batches_too() {
    let batch = |id: &str, shot: &str| obj(vec![("id", t(id)), ("input_snapshot", obj(vec![("current_shot_id", t(shot))]))]);
    let batches = vec![batch("b1", "s1"), batch("b2", "s2")];
    assert_eq!(video_stops(&Vec::new(), &batches, Some("s2")).unwrap(), vec!["b2"]);
    assert_eq!(video_stops(&Vec::new(), &batches, None).unwrap(), vec!["b1", "b2"]);
    assert_eq!(err_message(video_stops(&Vec::new(), &batches, Some("s3"))), "当前分镜没有正在生成的视频任务");
    assert!(video_stops(&vec![task("t1", "s3")], &batches, Some("s3")).unwrap().is_empty());

    let running = obj(vec![("id", t("t1")), ("resource_id", t("s1")), ("input_snapshot", obj(vec![("version_id", t("v9"))]))]);
    assert_eq!(stopped_version(&running).as_deref(), Some("v9"));
    assert_eq!(stopped_version(&task("t2", "s1")), None);

    let (item, error) = stopped_video_report("p1", &running, ProviderStop::Failed("timeout".to_owned()));
    assert!(matches!(field(&item, "status"), Json::Text(s) if s == "已取消"));
    assert!(matches!(field(&item, "provider_cancelled"), Json::Bool(false)));
    assert!(matches!(field(&item, "provider_cancel_error"), Json::Text(s) if s == "timeout"));
    assert!(matches!(field(&error.unwrap(), "task_id"), Json::Text(s) if s == "t1"));
    let (item, error) = stopped_video_report("p1", &running, ProviderStop::Stopped);
    assert!(matches!(field(&item, "provider_cancelled"), Json::Bool(true)));
    assert!(error.is_none());
}

#[test]
fn a_refinement_keeps_the_prompt_of_the_refined_video() {
    assert_eq!(refinement_prompt("  更亮一些 ").unwrap(), "更亮一些");
    assert_eq!(err_message(refinement_prompt("   ")), "请填写微调提示词");
    assert_eq!(err_message(refinement_prompt(&"字".repeat(4001))), "微调提示词不能超过 4000 个字");
    assert!(refinement_prompt(&"字".repeat(4000)).is_ok());

    let shot = obj(vec![("prompt", t("镜头原提示")), ("structured", obj(vec![("a", t("b"))]))]);
    let source = obj(vec![("video_url", t("file:///v.mp4")), ("prompt", t("")), ("prompt_rich", Json::Array(vec![t("x")]))]);
    let kept = refinement_of(&source, &shot).unwrap();
    assert_eq!(kept.original_prompt, "镜头原提示");
    assert!(kept.original_prompt_rich.is_some());
    assert!(matches!(&kept.original_structured, Json::Object(e) if e.len() == 1));

    let unfinished = obj(vec![("video_url", t(""))]);
    assert_eq!(err_message(refinement_of(&unfinished, &shot)), "只能微调已生成完成的视频");
    let promptless = obj(vec![("video_url", t("file:///v.mp4"))]);
    assert_eq!(err_message(refinement_of(&promptless, &obj(vec![]))), "所选视频缺少原始提示词，无法微调");

    let record = refinement_snapshot("p1", "s1", t("v2"), "v1", &kept, Json::Array(vec![]), "更亮一些");
    let inner = field(&record, "refinement");
    assert!(matches!(field(inner, "source_video_url"), Json::Text(u) if u == "file:///v.mp4"));
    assert!(matches!(field(inner, "prompt"), Json::Text(p) if p == "更亮一些"));
}

#[test]
fn a_node_video_cancellation_reports_the_task_and_any_service_refusal() {
    let running = obj(vec![("id", t("task-1")), ("provider_task_id", t("cgt-9")), ("status", t("已取消"))]);
    assert_eq!(provider_task_to_stop(&running), Some("cgt-9".to_owned()));
    assert_eq!(provider_task_to_stop(&obj(vec![("provider_task_id", t(""))])), None);
    let report = node_cancel_report(running, "g1", "n1", ProviderStop::Failed("超时".to_owned()));
    assert!(matches!(field(&report, "cancelled_count"), Json::Int(1)));
    assert!(matches!(field(&report, "game_id"), Json::Text(s) if s == "g1"));
    assert!(matches!(field(&report, "node_id"), Json::Text(s) if s == "n1"));
    assert!(matches!(field(&report, "provider_cancel_error"), Json::Text(s) if s == "超时"));
    assert!(matches!(field(&report, "cancelled_task_id"), Json::Text(s) if s == "task-1"));
    let quiet = node_cancel_report(obj(vec![("id", t("task-2"))]), "g1", "n1", ProviderStop::NotAsked);
    match &quiet {
        Json::Object(e) => assert!(e.iter().all(|(k, _)| k != "provider_cancel_error")),
        _ => panic!("object expected"),
    }
}

#[test]
fn cancelling_every_node_video_needs_something_running_and_reports_refusals() {
    assert!(any_node_video_running(0, 1).is_ok());
    assert_eq!(err_message(any_node_video_running(0, 0)), "当前没有正在生成的视频任务");
    let refusal = provider_refusal(&obj(vec![("id", t("task-3"))]), "超时");
    let report = all_videos_report("g1", vec![obj(vec![("id", t("task-3"))])], vec![refusal]);
    assert!(matches!(field(&report, "cancelled_count"), Json::Int(1)));
    assert!(matches!(field(&report, "status"), Json::Text(s) if s == "已取消"));
    match field(&report, "provider_cancel_errors") {
        Json::Array(items) => assert!(matches!(field(&items[0], "task_id"), Json::Text(s) if s == "task-3")),
        _ => panic!("array expected"),
    }
}

#[test]
fn a_video_run_freezes_its_version_and_serial_inputs() {
    assert!(video_run_count(3).is_ok());
    assert_eq!(err_message(video_run_count(4)), "一次生成视频的数量必须为 1 到 3");
    assert_eq!(err_message(video_run_count(0)), "一次生成视频的数量必须为 1 到 3");
    let plain = run_snapshot("p1", "s1", &t("v1"), None, None);
    match &plain {
        Json::Object(e) => assert_eq!(e.len(), 3),
        _ => panic!("object expected"),
    }
    let serial = run_snapshot("p1", "s1", &t("v1"), Some("data:image/png;base64,AA"), Some("batch-1"));
    assert!(matches!(field(&serial, "serial_first_frame"), Json::Text(s) if s.starts_with("data:image/")));
    assert!(matches!(field(&serial, "parent_task_id"), Json::Text(s) if s == "batch-1"));
}
