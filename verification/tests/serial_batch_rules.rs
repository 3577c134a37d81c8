use ai_application_factory::game_video::validate_game_node_video_preflight;
use ai_application_factory::json::Json;
use ai_application_factory::serial_batch::{
    advance, current_task_id, initial_snapshot, record_started, running_state, BatchKind,
    BatchOutcome, BatchStep, ChildStatus,
};

fn t(s: &str) -> Json {
    Json::Text(s.to_owned())
}

fn obj(pairs: Vec<(&str, Json)>) -> Json {
    Json::Object(pairs.into_iter().map(|(k, v)| (k.to_owned(), v)).collect())
}

fn entries(json: Json) -> Vec<(String, Json)> {
    match json {
        Json::Object(e) => e,
        _ => panic!("expected an object"),
    }
}

fn field<'a>(state: &'a [(String, Json)], key: &str) -> &'a Json {
    &state.iter().find(|(k, _)| k == key).expect("field").1
}

fn integer(json: &Json) -> i64 {
    match json {
        Json::Int(n) => *n,
        other => panic!("expected an integer, got {:?}", other),
    }
}

fn nodes() -> Vec<Json> {
    vec![obj(vec![("id", t("n1"))]), obj(vec![("title", t("无编号"))]), obj(vec![("id", t("n2"))])]
}

#[test]
fn a_batch_needs_items_and_records_every_text_id() {
    match initial_snapshot(BatchKind::GameNodes, "g1", &Vec::new()) {
        Err(e) => assert_eq!(e.message(), "当前游戏没有可生成视频的节点"),
        Ok(_) => panic!("empty batches are refused"),
    }
    let record = entries(initial_snapshot(BatchKind::GameNodes, "g1", &nodes()).unwrap());
    match field(&record, "node_ids") {
        Json::Array(ids) => assert_eq!(ids.len(), 2),
        _ => panic!("ids"),
    }
    assert_eq!(integer(field(&record, "total_count")), 3);
    assert_eq!(integer(field(&record, "next_index")), 0);
    assert!(matches!(field(&record, "current_node_id"), Json::Null));
    let shots = entries(initial_snapshot(BatchKind::Shots, "p1", &nodes()).unwrap());
    assert!(matches!(field(&shots, "project_id"), Json::Text(p) if p == "p1"));
    assert!(matches!(field(&shots, "current_shot_id"), Json::Null));
}

#[test]
fn only_a_running_batch_of_its_owner_is_advanced() {
    let record = initial_snapshot(BatchKind::GameNodes, "g1", &nodes()).unwrap();
    let task = |owner: &str, status: &str| {
        obj(vec![
            ("game_id", t(owner)),
            ("type", t("serial_game_node_video_batch")),
            ("status", t(status)),
            ("input_snapshot", initial_snapshot(BatchKind::GameNodes, "g1", &nodes()).unwrap()),
        ])
    };
    assert!(running_state(BatchKind::GameNodes, &task("g1", "生成中"), "g1").unwrap().is_some());
    assert!(running_state(BatchKind::GameNodes, &task("g1", "生成成功"), "g1").unwrap().is_none());
    match running_state(BatchKind::GameNodes, &task("g2", "生成中"), "g1") {
        Err(e) => assert_eq!(e.message(), "串行节点视频批次不存在"),
        Ok(_) => panic!("another owner's batch"),
    }
    let broken = obj(vec![
        ("game_id", t("g1")),
        ("type", t("serial_game_node_video_batch")),
        ("status", t("生成中")),
    ]);
    match running_state(BatchKind::GameNodes, &broken, "g1") {
        Err(e) => assert_eq!(e.message(), "串行节点视频批次缺少任务数据"),
        Ok(_) => panic!("a batch without data"),
    }
    drop(record);
}

#[test]
fn a_game_batch_runs_its_nodes_one_after_another() {
    let mut state = entries(initial_snapshot(BatchKind::GameNodes, "g1", &nodes()).unwrap());
    assert_eq!(current_task_id(&state), "");
    match advance(BatchKind::GameNodes, &mut state, None, None).unwrap() {
        BatchStep::Start { index, item_id, first_frame } => {
            assert_eq!(index, 0);
            assert_eq!(item_id, "n1");
            assert!(first_frame.is_none());
            record_started(BatchKind::GameNodes, &mut state, index, t("task-1"), &item_id);
        }
        other => panic!("expected a start, got {:?}", other),
    }
    assert_eq!(current_task_id(&state), "task-1");
    assert!(matches!(
        advance(BatchKind::GameNodes, &mut state, Some(ChildStatus::Generating), None).unwrap(),
        BatchStep::Unchanged
    ));
    match advance(BatchKind::GameNodes, &mut state, Some(ChildStatus::Succeeded), None) {
        Err(e) => assert_eq!(e.message(), "请先提取上一节点视频的尾帧，再继续串行生成"),
        Ok(step) => panic!("the last frame is required, got {:?}", step),
    }
    let mut state = entries(initial_snapshot(BatchKind::GameNodes, "g1", &nodes()).unwrap());
    record_started(BatchKind::GameNodes, &mut state, 0, t("task-1"), "n1");
    match advance(BatchKind::GameNodes, &mut state, Some(ChildStatus::Succeeded), Some("data:image/png;base64,AA")).unwrap() {
        BatchStep::Start { index, item_id, first_frame } => {
            assert_eq!(index, 1);
            assert_eq!(item_id, "n2");
            assert_eq!(first_frame.as_deref(), Some("data:image/png;base64,AA"));
            record_started(BatchKind::GameNodes, &mut state, index, t("task-2"), &item_id);
        }
        other => panic!("expected the second node, got {:?}", other),
    }
    assert_eq!(integer(field(&state, "completed_count")), 1);
    match advance(BatchKind::GameNodes, &mut state, Some(ChildStatus::Succeeded), None).unwrap() {
        BatchStep::Finish { outcome, total_count, completed_count, error } => {
            assert!(matches!(outcome, BatchOutcome::Succeeded));
            assert_eq!(total_count, 3);
            assert_eq!(completed_count, 2);
            assert!(error.is_none());
        }
        other => panic!("expected the end, got {:?}", other),
    }
}

#[test]
fn a_step_refused_for_want_of_a_frame_counts_the_finished_video_once() {
    let mut state = entries(initial_snapshot(BatchKind::Shots, "p1", &nodes()).unwrap());
    record_started(BatchKind::Shots, &mut state, 0, t("task-1"), "n1");
    let before = format!("{:?}", state);
    match advance(BatchKind::Shots, &mut state, Some(ChildStatus::Succeeded), Some("https://x/frame.png")) {
        Err(e) => assert_eq!(e.message(), "请先提取上一分镜视频的尾帧，再继续串行生成"),
        Ok(step) => panic!("the last frame is required, got {:?}", step),
    }
    assert_eq!(format!("{:?}", state), before);
    assert_eq!(integer(field(&state, "completed_count")), 0);
    assert_eq!(integer(field(&state, "next_index")), 1);
    assert_eq!(current_task_id(&state), "task-1");
    match advance(BatchKind::Shots, &mut state, Some(ChildStatus::Succeeded), Some("data:image/png;base64,AA")).unwrap() {
        BatchStep::Start { index, item_id, .. } => {
            assert_eq!(index, 1);
            assert_eq!(item_id, "n2");
        }
        other => panic!("expected the second shot, got {:?}", other),
    }
    assert_eq!(integer(field(&state, "completed_count")), 1);
}

#[test]
fn a_failed_or_cancelled_video_stops_the_batch() {
    let mut state = entries(initial_snapshot(BatchKind::Shots, "p1", &nodes()).unwrap());
    record_started(BatchKind::Shots, &mut state, 0, t("task-1"), "n1");
    match advance(BatchKind::Shots, &mut state, Some(ChildStatus::Failed), None).unwrap() {
        BatchStep::Finish { outcome, completed_count, error, .. } => {
            assert!(matches!(outcome, BatchOutcome::Failed));
            assert_eq!(completed_count, 0);
            assert_eq!(error.as_deref(), Some("上一分镜视频生成失败，串行生成已停止"));
        }
        other => panic!("expected a failure, got {:?}", other),
    }
    match advance(BatchKind::Shots, &mut state, Some(ChildStatus::Cancelled), None).unwrap() {
        BatchStep::Finish { outcome, error, .. } => {
            assert!(matches!(outcome, BatchOutcome::Cancelled));
            assert_eq!(error.as_deref(), Some("上一分镜视频已取消，串行生成已停止"));
        }
        other => panic!("expected a cancellation, got {:?}", other),
    }
    assert_eq!(BatchOutcome::Cancelled.status(), "已取消");
    assert!(matches!(ChildStatus::from_status("生成成功"), ChildStatus::Succeeded));
    assert!(matches!(ChildStatus::from_status("排队中"), ChildStatus::Other));
}

#[test]
fn a_game_node_video_needs_a_prompt_a_length_and_usable_references() {
    let game = obj(vec![(
        "assets",
        Json::Array(vec![
            obj(vec![("id", t("hero")), ("name", t("主角")), ("status", t("生成成功")), ("image_url", t("https://cdn/hero.png"))]),
            obj(vec![("id", t("castle")), ("name", t("城堡")), ("status", t("生成中"))]),
            obj(vec![("id", t("sword")), ("status", t("生成失败"))]),
            obj(vec![("id", t("local")), ("name", t("本地图")), ("image_url", t("file:///x.png"))]),
        ]),
    )]);
    let sendable = vec!["https://cdn/hero.png".to_owned()];
    let ready = obj(vec![
        ("prompt", t("走进城门")),
        ("duration_seconds", Json::Int(5)),
        ("reference_asset_ids", Json::Array(vec![t("hero")])),
    ]);
    assert!(validate_game_node_video_preflight(&game, &ready, &sendable).is_ok());

    let broken = obj(vec![
        ("prompt", t("  ")),
        ("duration_seconds", Json::Int(16)),
        (
            "reference_asset_ids",
            Json::Array(vec![t("castle"), t("sword"), t("local"), t("ghost"), t("hero")]),
        ),
    ]);
    match validate_game_node_video_preflight(&game, &broken, &sendable) {
        Err(e) => assert_eq!(
            e.message(),
            "请先填写并保存视频提示词；节点视频时长必须在 4 到 15 秒之间；城堡（图片仍在生成）；sword（图片生成失败）；本地图（图片未生成、未上传或无法发送给视频模型）；ghost（素材不存在）"
        ),
        Ok(()) => panic!("the node is not ready"),
    }
}
