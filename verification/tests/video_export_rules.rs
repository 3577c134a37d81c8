use ai_application_factory::video_export::mark_for_export;
use ai_application_factory::json::Json;
use ai_application_factory::video_export::{
    check_export_task, export_entry, export_history, export_plan, export_selections,
    exportable_version, ExportShot,
};

fn t(s: &str) -> Json {
    Json::Text(s.to_owned())
}

fn obj(pairs: Vec<(&str, Json)>) -> Json {
    Json::Object(pairs.into_iter().map(|(k, v)| (k.to_owned(), v)).collect())
}

fn selection(shot: &str, version: &str) -> Json {
    obj(vec![("shot_id", t(shot)), ("version_id", t(version))])
}

fn values(items: Vec<Json>) -> Vec<(String, Json)> {
    vec![("selections".to_owned(), Json::Array(items))]
}

fn err_message<T: std::fmt::Debug>(r: Result<T, ai_application_factory::error::AppError>) -> String {
    match r {
        Err(e) => e.message(),
        Ok(v) => panic!("expected an error, got {:?}", v),
    }
}

fn shot(id: &str, title: &str) -> ExportShot {
    ExportShot {
        id: id.to_owned(),
        episode_id: "e1".to_owned(),
        episode_name: "第一集".to_owned(),
        episode_sort_order: 1,
        shot_index: 2,
        title: title.to_owned(),
    }
}

#[test]
fn an_export_takes_one_version_per_shot() {
    let pairs = export_selections(&values(vec![selection(" s2 ", " v2 "), selection("s1", ""), selection("s1", "v1")])).unwrap();
    assert_eq!(pairs, vec![("s2".to_owned(), "v2".to_owned()), ("s1".to_owned(), "v1".to_owned())]);
    assert_eq!(
        err_message(export_selections(&values(vec![selection("s1", "v1"), selection("s1", "v2")]))),
        "同一分镜只能选择一个视频版本"
    );
    assert_eq!(err_message(export_selections(&values(vec![selection(" ", "v1")]))), "分镜标识不能为空");
    assert_eq!(err_message(export_selections(&values(vec![selection("s1", "")]))), "请至少选择一个已生成的视频版本");
    assert_eq!(err_message(export_selections(&Vec::new())), "请至少选择一个已生成的视频版本");
}

#[test]
fn the_export_follows_the_project_s_shot_order() {
    let shots = vec![shot("s1", "开场"), shot("s2", "转折"), shot("s3", "结局")];
    let pairs = vec![("s3".to_owned(), "v3".to_owned()), ("s1".to_owned(), "v1".to_owned())];
    assert_eq!(export_plan(&pairs, &shots).unwrap(), vec![(0, "v1".to_owned()), (2, "v3".to_owned())]);
    let foreign = vec![("x".to_owned(), "v".to_owned())];
    assert_eq!(err_message(export_plan(&foreign, &shots)), "选择中包含不属于当前项目的分镜");
    assert_eq!(err_message(export_plan(&pairs, &Vec::new())), "当前项目没有可导出的视频分镜");
}

#[test]
fn only_finished_versions_with_a_video_are_exported() {
    let done = obj(vec![("id", t("v1")), ("version_no", Json::Int(3)), ("status", t("生成成功")), ("video_url", t("file:///v.mp4"))]);
    let empty = obj(vec![("id", t("v2")), ("status", t("生成成功")), ("video_url", t(""))]);
    assert!(exportable_version(&done));
    assert!(!exportable_version(&empty));
    let entry = export_entry(&shot("s1", "开场"), Some(&done)).unwrap();
    match entry {
        Json::Object(fields) => {
            assert_eq!(fields.len(), 9);
            assert!(matches!(&fields[6].1, Json::Text(id) if id == "v1"));
        }
        _ => panic!("object"),
    }
    assert_eq!(err_message(export_entry(&shot("s1", "开场"), Some(&empty))), "分镜「开场」选择的视频不可导出");
    assert_eq!(err_message(export_entry(&shot("s1", "开场"), None)), "分镜「开场」选择的视频不可导出");
}

#[test]
fn cloud_exports_and_older_web_archives_can_be_downloaded_again() {
    let task = |destination: Json, url: &str| {
        obj(vec![
            ("id", t("t")),
            ("input_snapshot", obj(vec![("destination", destination)])),
            ("result", obj(vec![("url", t(url)), ("file_name", t("a.zip"))])),
        ])
    };
    let tasks = vec![
        task(t("cloud"), "file:///a.zip"),
        task(Json::Null, "https://cdn/a.zip"),
        task(Json::Null, "file:///b.zip"),
        task(t("local"), "https://cdn/c.zip"),
        obj(vec![("input_snapshot", obj(vec![("destination", t("cloud"))]))]),
    ];
    assert_eq!(export_history(&tasks).len(), 2);
    let owned = obj(vec![("project_id", t("p1")), ("type", t("drama_video_export"))]);
    assert!(check_export_task(&owned, "p1").is_ok());
    assert_eq!(err_message(check_export_task(&owned, "p2")), "视频导出任务不存在");
}

#[test]
fn only_a_finished_version_with_a_video_is_marked_for_export() {
    let version = |id: &str, status: &str, url: &str| {
        obj(vec![("id", t(id)), ("status", t(status)), ("video_url", t(url))])
    };
    let versions = vec![
        version("v1", "生成成功", "/m/1.mp4"),
        version("v2", "生成成功", "/m/2.mp4"),
        version("v3", "生成失败", ""),
    ];
    assert_eq!(mark_for_export(&versions, "v2").unwrap(), vec![false, true, false]);
    assert_eq!(err_message(mark_for_export(&versions, "v3")), "只能标记已生成完成的视频版本");
    assert_eq!(err_message(mark_for_export(&versions, "v9")), "只能标记已生成完成的视频版本");
    let silent = vec![version("v4", "生成成功", "")];
    assert_eq!(err_message(mark_for_export(&silent, "v4")), "只能标记已生成完成的视频版本");
}
