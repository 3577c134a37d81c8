use ai_application_factory::video_history::{chosen_node_video, finish_node_video};
use ai_application_factory::game_materials::{game_video_reference_ids, node_reference_asset_ids};
use ai_application_factory::json::Json;
use ai_application_factory::error::AppError;
use ai_application_factory::video_history::{
    cancel_node_video, chosen_video_url, current_history_video, delete_history_video, finish_history_video,
    history_record, playable_history_video, retained_selected_video_id, status_after_deletion,
    video_finish_applies,
};

fn t(s: &str) -> Json {
    Json::Text(s.to_owned())
}

fn obj(pairs: Vec<(&str, Json)>) -> Json {
    Json::Object(pairs.into_iter().map(|(k, v)| (k.to_owned(), v)).collect())
}

fn video(id: &str, status: &str, url: &str) -> Json {
    obj(vec![("id", t(id)), ("status", t(status)), ("url", t(url))])
}

fn id_of(item: Option<&Json>) -> Option<String> {
    match item {
        Some(Json::Object(entries)) => entries.iter().find(|(k, _)| k == "id").and_then(|(_, v)| match v {
            Json::Text(s) => Some(s.clone()),
            _ => None,
        }),
        _ => None,
    }
}

fn history() -> Vec<Json> {
    vec![
        video("v1", "生成成功", "file:///a.mp4"),
        video("v2", "生成中", ""),
        video("v3", "生成成功", "file:///c.mp4"),
        video("v4", "生成成功", ""),
    ]
}

#[test]
fn only_finished_videos_with_a_url_are_playable() {
    let h = history();
    assert_eq!(id_of(playable_history_video(&h, "v1")), Some("v1".to_owned()));
    assert_eq!(id_of(playable_history_video(&h, "v2")), None);
    assert_eq!(id_of(playable_history_video(&h, "v4")), None);
    assert_eq!(id_of(playable_history_video(&h, "missing")), None);
}

#[test]
fn a_selection_is_kept_only_while_it_can_play() {
    let h = history();
    assert_eq!(retained_selected_video_id(&h, Some("v3".to_owned())), Some("v3".to_owned()));
    assert_eq!(retained_selected_video_id(&h, Some("v2".to_owned())), None);
    assert_eq!(retained_selected_video_id(&h, None), None);
}

#[test]
fn the_current_video_falls_back_to_the_latest_finished_one() {
    let h = history();
    assert_eq!(id_of(current_history_video(&h, Some("v1"))), Some("v1".to_owned()));
    assert_eq!(id_of(current_history_video(&h, Some("v2"))), Some("v3".to_owned()));
    assert_eq!(id_of(current_history_video(&h, None)), Some("v3".to_owned()));
    let unfinished = vec![video("v2", "生成中", "")];
    assert_eq!(id_of(current_history_video(&unfinished, None)), None);
}

fn reference(id: &str) -> Json {
    obj(vec![("type", t("reference")), ("asset_id", t(id))])
}

#[test]
fn video_references_prefer_the_rich_prompt() {
    let node = obj(vec![
        (
            "prompt_rich",
            Json::Array(vec![
                obj(vec![("type", t("text")), ("text", t("走进"))]),
                reference("hero"),
                reference("hero"),
                reference(""),
                reference("castle"),
            ]),
        ),
        ("reference_asset_ids", Json::Array(vec![t("other")])),
    ]);
    assert_eq!(game_video_reference_ids(&node), vec!["hero", "castle"]);

    let saved_only = obj(vec![(
        "reference_asset_ids",
        Json::Array(vec![t("a"), t(""), t("a"), t("b"), Json::Bool(true)]),
    )]);
    assert_eq!(game_video_reference_ids(&saved_only), vec!["a", "b"]);
}

#[test]
fn reference_images_merge_both_lists_and_neighbouring_repeats() {
    let node = obj(vec![
        ("prompt_rich", Json::Array(vec![reference("hero"), reference("castle")])),
        ("reference_asset_ids", Json::Array(vec![t("castle"), t("hero"), t("hero")])),
    ]);
    assert_eq!(node_reference_asset_ids(&node), vec!["hero", "castle", "hero"]);
    assert!(node_reference_asset_ids(&obj(vec![])).is_empty());
}

fn text_at(item: &Json, key: &str) -> Option<String> {
    match item {
        Json::Object(entries) => entries.iter().find(|(k, _)| k == key).and_then(|(_, v)| match v {
            Json::Text(s) => Some(s.clone()),
            _ => None,
        }),
        _ => None,
    }
}

#[test]
fn deleting_the_selected_video_falls_back_to_the_latest_finished_one() {
    let (removed_url, state) = delete_history_video(history(), Some("v1".to_owned()), "v1").unwrap();
    assert!(matches!(removed_url, Json::Text(ref u) if u == "file:///a.mp4"));
    let ids: Vec<Option<String>> = state.history.iter().map(|v| text_at(v, "id")).collect();
    assert_eq!(ids, vec![Some("v2".to_owned()), Some("v3".to_owned()), Some("v4".to_owned())]);
    assert_eq!(state.selected_video_id, None);
    assert_eq!(state.video_url, Some("file:///c.mp4".to_owned()));
    assert_eq!(status_after_deletion(&state), "生成成功");
}

#[test]
fn deleting_the_last_playable_video_leaves_the_node_ungenerated() {
    let only = vec![video("v1", "生成成功", "file:///a.mp4")];
    let (_, state) = delete_history_video(only, None, "v1").unwrap();
    assert!(state.history.is_empty());
    assert_eq!(state.video_url, None);
    assert_eq!(status_after_deletion(&state), "未生成");
}

#[test]
fn deleting_an_unknown_video_is_not_found() {
    match delete_history_video(history(), None, "nope") {
        Err(AppError::NotFound(m)) => assert_eq!(m, "Game video history not found: nope"),
        _ => panic!("expected a not-found error"),
    }
}

#[test]
fn a_finished_task_is_recorded_once_with_its_frozen_inputs() {
    let snapshot = obj(vec![
        ("prompt", t("走向城堡")),
        ("refinement", obj(vec![("prompt", t("更慢")), ("source_video_id", t("v1"))])),
    ]);
    let state = finish_history_video(
        history(),
        Some("v1".to_owned()),
        "task-9",
        Some("file:///n.mp4"),
        "2024-01-01T00:00:00Z",
        "生成成功",
        None,
        &snapshot,
    );
    assert_eq!(state.history.len(), 5);
    let entry = &state.history[4];
    assert_eq!(text_at(entry, "id"), Some("task-9".to_owned()));
    assert_eq!(text_at(entry, "task_id"), Some("task-9".to_owned()));
    assert_eq!(text_at(entry, "url"), Some("file:///n.mp4".to_owned()));
    assert_eq!(text_at(entry, "prompt"), Some("走向城堡".to_owned()));
    assert_eq!(text_at(entry, "refinement_prompt"), Some("更慢".to_owned()));
    assert_eq!(text_at(entry, "source_video_id"), Some("v1".to_owned()));
    assert_eq!(state.selected_video_id, Some("v1".to_owned()));
    assert_eq!(state.video_url, Some("file:///a.mp4".to_owned()));

    let again = finish_history_video(
        state.history,
        state.selected_video_id,
        "task-9",
        Some("file:///other.mp4"),
        "2024-01-02T00:00:00Z",
        "生成成功",
        None,
        &snapshot,
    );
    assert_eq!(again.history.len(), 5);
}

#[test]
fn without_a_selection_the_newest_finished_task_plays() {
    let state = finish_history_video(
        history(),
        None,
        "task-9",
        Some("file:///n.mp4"),
        "2024-01-01T00:00:00Z",
        "生成成功",
        None,
        &Json::Null,
    );
    assert_eq!(state.video_url, Some("file:///n.mp4".to_owned()));
}

#[test]
fn a_finish_applies_only_while_the_task_is_running_or_agrees() {
    assert!(video_finish_applies(Some("生成中"), "生成成功"));
    assert!(video_finish_applies(Some("生成失败"), "生成失败"));
    assert!(!video_finish_applies(Some("已取消"), "生成成功"));
    assert!(video_finish_applies(None, "生成成功"));
}

#[test]
fn only_a_finished_version_can_be_chosen() {
    let h = history();
    assert_eq!(chosen_video_url(&h, "v3").unwrap(), "file:///c.mp4");
    match chosen_video_url(&h, "v2") {
        Err(AppError::BadRequest(m)) => assert_eq!(m, "只能设为已生成完成的视频版本"),
        _ => panic!("expected a bad request"),
    }
}

#[test]
fn a_history_record_is_found_by_id() {
    let node = obj(vec![("video_history", Json::Array(history()))]);
    let record = history_record(&node, "v2").unwrap();
    assert_eq!(text_at(&record, "status"), Some("生成中".to_owned()));
    assert!(matches!(history_record(&node, "x"), Err(AppError::NotFound(_))));
}

#[test]
fn cancelling_records_the_cancellation_in_the_history() {
    let task = obj(vec![("id", t("task-5"))]);
    let (id, h) = cancel_node_video(Some(&task), history(), "2024-02-02T00:00:00Z").unwrap();
    assert_eq!(id, "task-5");
    assert_eq!(h.len(), 5);
    assert_eq!(text_at(&h[4], "status"), Some("已取消".to_owned()));
    assert_eq!(text_at(&h[4], "error_message"), Some("节点视频生成已取消".to_owned()));
    assert_eq!(text_at(&h[4], "task_id"), Some("task-5".to_owned()));
    match cancel_node_video(None, history(), "t") {
        Err(AppError::BadRequest(m)) => assert_eq!(m, "当前节点没有正在生成的视频任务"),
        _ => panic!("expected a refusal"),
    }
}

#[test]
fn a_node_video_finish_is_written_once_and_skipped_after_another_ending() {
    let snapshot = obj(vec![("prompt", t("雨中奔跑"))]);
    let skipped = finish_node_video(Some("已取消"), history(), None, "t9", Some("file:///t9.mp4"), "now", "生成成功", None, &snapshot);
    assert!(skipped.is_none());
    let once = finish_node_video(Some("生成中"), history(), None, "t9", Some("file:///t9.mp4"), "now", "生成成功", None, &snapshot)
        .expect("a running task updates its node");
    assert_eq!(once.history.len(), 5);
    assert_eq!(once.video_url.as_deref(), Some("file:///t9.mp4"));
    let twice = finish_node_video(
        Some("生成成功"),
        once.history,
        once.selected_video_id,
        "t9",
        Some("file:///t9.mp4"),
        "later",
        "生成成功",
        None,
        &snapshot,
    )
    .expect("the same finish applies again");
    assert_eq!(twice.history.len(), 5);
    assert_eq!(twice.history.iter().filter(|item| id_of(Some(item)).as_deref() == Some("t9")).count(), 1);
    assert_eq!(twice.video_url.as_deref(), Some("file:///t9.mp4"));
}

#[test]
fn a_chosen_node_video_keeps_playing_after_a_new_one_finishes() {
    let picked = chosen_node_video(history(), "v1").unwrap();
    assert_eq!(picked.selected_video_id.as_deref(), Some("v1"));
    assert_eq!(picked.video_url.as_deref(), Some("file:///a.mp4"));
    let after = finish_node_video(
        None,
        picked.history,
        picked.selected_video_id,
        "t9",
        Some("file:///t9.mp4"),
        "now",
        "生成成功",
        None,
        &obj(vec![]),
    )
    .unwrap();
    assert_eq!(after.selected_video_id.as_deref(), Some("v1"));
    assert_eq!(after.video_url.as_deref(), Some("file:///a.mp4"));
    match chosen_node_video(history(), "v4") {
        Err(e) => assert_eq!(e.message(), "只能设为已生成完成的视频版本"),
        Ok(_) => panic!("a version without a video cannot be chosen"),
    }
}
