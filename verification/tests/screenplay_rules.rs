use ai_application_factory::screenplay::{regenerated_drama, regeneration_task_input};
use ai_application_factory::game_screenplay::{editor_name, expansion_result, expansion_step, status_after_expansion, ExpansionStep};
use ai_application_factory::screenplay::screenplay_edit;
use ai_application_factory::project_settings::public_prompts;
use ai_application_factory::screenplay::{drama_regeneration_script, drama_replacement_script};
use ai_application_factory::error::AppError;
use ai_application_factory::game_screenplay::{
    edited_screenplay, generation_stop, regeneration_script, replacement_script, retry_stage,
    GenerationStop,
};
use ai_application_factory::json::Json;
use ai_application_factory::project_settings::{game_parameters, project_updates, ColumnValue};
use ai_application_factory::screenplay::{
    continuation_snapshot, continue_step, screenplay_cancel, screenplay_status, ContinueStep,
    ScreenplayCancel,
};

fn t(s: &str) -> Json {
    Json::Text(s.to_owned())
}

fn obj(pairs: Vec<(&str, Json)>) -> Json {
    Json::Object(pairs.into_iter().map(|(k, v)| (k.to_owned(), v)).collect())
}

fn map(pairs: Vec<(&str, Json)>) -> Vec<(String, Json)> {
    pairs.into_iter().map(|(k, v)| (k.to_owned(), v)).collect()
}

fn field<'a>(json: &'a Json, key: &str) -> &'a Json {
    match json {
        Json::Object(e) => &e.iter().find(|(k, _)| k == key).expect("field").1,
        _ => panic!("object"),
    }
}

fn err_message<T: std::fmt::Debug>(r: Result<T, ai_application_factory::error::AppError>) -> String {
    match r {
        Err(e) => e.message(),
        Ok(v) => panic!("expected an error, got {:?}", v),
    }
}

#[test]
fn a_project_edit_changes_only_the_given_fields() {
    let updates = project_updates(&map(vec![
        ("name", t("新名字")),
        ("theme", Json::Int(3)),
        ("enable_web_search", Json::Bool(true)),
        ("shot_constraints", obj(vec![("subtitles", Json::Bool(false))])),
    ]))
    .unwrap();
    let columns: Vec<&str> = updates.iter().map(|(c, _)| c.as_str()).collect();
    assert_eq!(columns, vec!["name", "enable_web_search", "shot_constraints_json"]);
    assert!(matches!(&updates[1].1, ColumnValue::Integer(1)));
    assert_eq!(err_message(project_updates(&Vec::new())), "没有可保存的项目字段");
    assert_eq!(err_message(project_updates(&map(vec![("theme", Json::Int(3))]))), "没有可保存的项目字段");
    assert_eq!(err_message(project_updates(&map(vec![("style", t("  "))]))), "style 不能为空");
    assert_eq!(err_message(project_updates(&map(vec![("enable_web_search", t("yes"))]))), "enable_web_search 必须是布尔值");
}

#[test]
fn game_parameters_need_a_known_style_and_three_models() {
    let values = map(vec![
        ("style", t(" 2D动漫 ")),
        ("language_model", t(" deepseek ")),
        ("multimodal_model", t("vision")),
        ("video_model", t("seedance")),
    ]);
    let parameters = game_parameters(&values).unwrap();
    assert_eq!(parameters.style, "2D动漫");
    assert_eq!(parameters.language_model, "deepseek");
    assert_eq!(parameters.enable_web_search, None);
    assert_eq!(err_message(game_parameters(&map(vec![("style", t("油画"))]))), "不支持的游戏视觉风格");
    assert_eq!(err_message(game_parameters(&map(vec![("style", t("真人风格"))]))), "language_model 不能为空");
}

#[test]
fn the_screenplay_banner_follows_the_latest_task() {
    let screenplay = map(vec![("expanded_script", t("一二三"))]);
    let decomposing = obj(vec![("status", t("生成中")), ("type", t("script_decomposition")), ("stage", t("正在拆解分镜"))]);
    let view = screenplay_status(screenplay, Some(&decomposing));
    assert!(matches!(field(&view, "expanded_script_generating"), Json::Bool(true)));
    assert!(matches!(field(&view, "expanded_script_cancel_label"), Json::Text(l) if l == "取消生成"));
    assert!(matches!(field(&view, "expanded_script_length"), Json::Int(3)));
    let idle = screenplay_status(map(vec![]), None);
    assert!(matches!(field(&idle, "expanded_script_cancel_label"), Json::Text(l) if l == "取消扩写"));
    assert!(matches!(field(&idle, "expanded_script_task_status"), Json::Null));
    assert!(matches!(field(&idle, "expanded_script_length"), Json::Int(0)));
}

#[test]
fn continuing_the_screenplay_retries_restarts_or_continues() {
    let project = obj(vec![("expanded_script", t("  已扩写  "))]);
    let empty = obj(vec![]);
    let running = obj(vec![("status", t("生成中"))]);
    let failed_expansion = obj(vec![("status", t("生成失败")), ("type", t("script_expansion"))]);
    let cancelled_bootstrap = obj(vec![("status", t("已取消")), ("type", t("script_decomposition"))]);
    assert!(matches!(continue_step(&project, Some(&running)).unwrap(), ContinueStep::Running));
    assert!(matches!(continue_step(&project, Some(&failed_expansion)).unwrap(), ContinueStep::RetryExpansion));
    assert!(matches!(continue_step(&empty, Some(&cancelled_bootstrap)).unwrap(), ContinueStep::RestartDecomposition));
    assert_eq!(err_message(continue_step(&empty, None)), "请先完成首次剧本扩写后再继续扩写");
    match continue_step(&project, Some(&cancelled_bootstrap)).unwrap() {
        ContinueStep::Continue { base_length, preview } => {
            assert_eq!(base_length, 3);
            assert_eq!(preview, "已扩写");
            let snapshot = continuation_snapshot("p1", base_length, &preview, Json::Null);
            assert!(matches!(field(&snapshot, "continuation_base_length"), Json::Int(3)));
        }
        other => panic!("expected a continuation, got {:?}", other),
    }
}

#[test]
fn cancelling_the_screenplay_stops_only_a_running_task() {
    assert_eq!(err_message(screenplay_cancel(None)), "未找到可取消的剧本扩写任务");
    let done = obj(vec![("status", t("生成成功"))]);
    assert_eq!(err_message(screenplay_cancel(Some(&done))), "剧本扩写已完成，无法取消");
    assert!(matches!(screenplay_cancel(Some(&obj(vec![("status", t("已取消"))]))).unwrap(), ScreenplayCancel::Keep));
    let running = obj(vec![("id", t("t1")), ("status", t("生成中")), ("type", t("script_decomposition"))]);
    match screenplay_cancel(Some(&running)).unwrap() {
        ScreenplayCancel::Cancel { task_id, mark_project } => {
            assert_eq!(task_id, "t1");
            assert!(mark_project);
        }
        other => panic!("expected a cancellation, got {:?}", other),
    }
}

#[test]
fn a_game_screenplay_is_at_least_twenty_characters() {
    let long = "很".repeat(20);
    assert_eq!(replacement_script(&map(vec![("script", t("  "))])).unwrap(), None);
    assert_eq!(replacement_script(&map(vec![("script", t(&long))])).unwrap().as_deref(), Some(long.as_str()));
    assert_eq!(err_message(replacement_script(&map(vec![("script", t("太短"))]))), "剧本文本不少于 20 个字");
    assert_eq!(regeneration_script(None, &long).unwrap(), long);
    assert_eq!(err_message(regeneration_script(None, "短")), "剧本文本不少于 20 个字");
    let (script, expanded) = edited_screenplay(&map(vec![("script", t(&format!(" {long} "))), ("expanded_script", t(" 扩写 "))])).unwrap();
    assert_eq!(script, long);
    assert_eq!(expanded, "扩写");

    let graph = obj(vec![("id", t("g1")), ("status", t("生成中")), ("type", t("game_graph_decomposition"))]);
    match generation_stop(Some(&graph)).unwrap() {
        GenerationStop::Stop { task_id, stage } => {
            assert_eq!(task_id, "g1");
            assert_eq!(stage, "图谱生成已停止，当前进度已保存");
        }
        other => panic!("expected a stop, got {:?}", other),
    }
    assert_eq!(err_message(generation_stop(Some(&obj(vec![("status", t("生成失败"))])))), "生成任务已完成，无法停止");
    assert_eq!(retry_stage("game_script_expansion"), "等待重试剧本扩写");
    assert_eq!(retry_stage("game_graph_decomposition"), "等待重试图谱生成");
}

#[test]
fn a_drama_restart_needs_ten_characters_of_script() {
    assert_eq!(drama_replacement_script(None).unwrap(), None);
    assert_eq!(
        drama_replacement_script(Some("  一二三四五六七八九十  ")).unwrap(),
        Some("一二三四五六七八九十".to_owned())
    );
    assert!(matches!(drama_replacement_script(Some(" 太短 ")), Err(AppError::BadRequest(_))));
    assert_eq!(drama_regeneration_script(None, "一二三四五六七八九十").unwrap(), "一二三四五六七八九十");
    assert!(matches!(drama_regeneration_script(None, "短"), Err(AppError::BadRequest(_))));
    assert_eq!(drama_regeneration_script(Some("一二三四五六七八九十一"), "短").unwrap(), "一二三四五六七八九十一");
}

#[test]
fn a_shared_prompt_edit_sets_one_kind_among_the_saved_prompts() {
    let values = vec![
        ("asset_type".to_owned(), Json::Text("scene".to_owned())),
        ("public_prompt".to_owned(), Json::Text("  夜景  ".to_owned())),
    ];
    let prompts = public_prompts(&values, r#"{"character":"写实"}"#).unwrap();
    assert_eq!(prompts.len(), 2);
    assert!(matches!(&prompts[1], (k, Json::Text(v)) if k == "scene" && v == "夜景"));
    let fresh = public_prompts(&values, "broken").unwrap();
    assert_eq!(fresh.len(), 1);
    let bad = vec![("asset_type".to_owned(), Json::Text("cover".to_owned()))];
    assert!(matches!(public_prompts(&bad, "{}"), Err(AppError::BadRequest(_))));
}

#[test]
fn a_drama_screenplay_edit_needs_ten_characters() {
    let ok = vec![("script".to_owned(), Json::Text("一二三四五六七八九十".to_owned()))];
    assert_eq!(screenplay_edit(&ok).unwrap(), ("一二三四五六七八九十".to_owned(), String::new()));
    let short = vec![("script".to_owned(), Json::Text("短".to_owned()))];
    assert!(matches!(screenplay_edit(&short), Err(AppError::BadRequest(ref m)) if m == "剧本文本不少于 10 个字"));
}

#[test]
fn a_game_editor_name_is_trimmed_and_bounded() {
    let named = vec![("name".to_owned(), Json::Text("  钟楼谜案 ".to_owned()))];
    assert_eq!(editor_name(&named).unwrap(), "钟楼谜案");
    let blank = vec![("name".to_owned(), Json::Text("   ".to_owned()))];
    assert!(matches!(editor_name(&blank), Err(AppError::BadRequest(ref m)) if m == "游戏名称长度需在 1 到 120 个字之间"));
    let long = vec![("name".to_owned(), Json::Text("字".repeat(121)))];
    assert!(editor_name(&long).is_err());
}

#[test]
fn expanding_a_game_screenplay_reuses_a_running_task_and_waits_for_planning() {
    assert!(matches!(expansion_step("g1", Some("t1".to_owned()), true, ""), Ok(ExpansionStep::Reuse(ref id)) if id == "t1"));
    assert!(matches!(
        expansion_step("g1", None, true, ""),
        Err(AppError::BadRequest(ref m)) if m == "视频节点图谱正在拆分，请完成后再扩写剧本"
    ));
    match expansion_step("g1", None, false, "已扩写") {
        Ok(ExpansionStep::Start(Json::Object(e))) => {
            assert!(matches!(&e[0], (k, Json::Text(v)) if k == "game_id" && v == "g1"));
            assert!(matches!(&e[1], (k, Json::Text(v)) if k == "expanded_script_preview" && v == "已扩写"));
        }
        _ => panic!("expected a new expansion"),
    }
}

#[test]
fn a_finished_expansion_records_both_lengths_and_the_queued_graph_task() {
    match expansion_result(12, "扩写后的剧本", Some("graph-1")) {
        Json::Object(e) => {
            assert!(matches!(&e[0], (k, Json::Int(12)) if k == "original_script_length"));
            assert!(matches!(&e[1], (k, Json::Int(6)) if k == "expanded_script_length"));
            assert!(matches!(&e[2], (k, Json::Text(v)) if k == "next_task_id" && v == "graph-1"));
        }
        _ => panic!("object expected"),
    }
    match expansion_result(3, "", None) {
        Json::Object(e) => assert!(matches!(&e[2].1, Json::Null)),
        _ => panic!("object expected"),
    }
    assert_eq!(status_after_expansion(true), "生成中");
    assert_eq!(status_after_expansion(false), "生成成功");
}

#[test]
fn a_fresh_start_keeps_nothing_derived_from_the_old_script() {
    let mut drama: Vec<(String, Json)> = vec![
        ("id".to_owned(), t("p1")),
        ("script".to_owned(), t("旧的剧本文本内容已经很长")),
        ("expanded_script".to_owned(), t("扩写")),
        ("assets".to_owned(), Json::Array(vec![t("a1")])),
        ("status".to_owned(), t("生成成功")),
    ];
    regenerated_drama(&mut drama, "新的剧本文本内容足够十个字");
    let get = |key: &str| format!("{:?}", &drama.iter().find(|(k, _)| k == key).expect("field").1);
    assert_eq!(get("id"), format!("{:?}", t("p1")));
    assert_eq!(get("script"), format!("{:?}", t("新的剧本文本内容足够十个字")));
    assert_eq!(get("expanded_script"), format!("{:?}", t("")));
    assert_eq!(get("assets"), format!("{:?}", Json::Array(vec![])));
    assert_eq!(get("shots"), format!("{:?}", Json::Array(vec![])));
    assert_eq!(get("historical_videos"), format!("{:?}", Json::Array(vec![])));
    assert_eq!(get("status"), format!("{:?}", t("生成中")));
    assert_eq!(
        format!("{:?}", regeneration_task_input("p1")),
        format!("{:?}", Json::Object(vec![("drama_id".to_owned(), t("p1"))]))
    );
}
