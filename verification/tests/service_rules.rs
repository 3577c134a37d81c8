use ai_application_factory::json::Json;
use ai_application_factory::service::{
    completed_export_url, zip_destination, Database, DesktopService, Repository,
};

fn t(s: &str) -> Json {
    Json::Text(s.to_owned())
}

fn obj(pairs: Vec<(&str, Json)>) -> Json {
    Json::Object(pairs.into_iter().map(|(k, v)| (k.to_owned(), v)).collect())
}

#[test]
fn the_database_lives_in_the_data_directory() {
    assert_eq!(
        DesktopService::open("/data/app").repository.db.path,
        "/data/app/ai_application_factory.db"
    );
    assert_eq!(
        DesktopService::open("/data/app/").repository.db.path,
        "/data/app/ai_application_factory.db"
    );
    let repository = Repository::new(Database { path: "x.db".to_owned() });
    assert_eq!(repository.db.path, "x.db");
}

#[test]
fn only_zip_destinations_are_accepted() {
    assert!(zip_destination("/home/me/export.zip"));
    assert!(zip_destination("/home/me/export.tar.zip"));
    assert!(zip_destination("/home/me/export.zip/"));
    assert!(!zip_destination("/home/me/.zip"));
    assert!(!zip_destination("/home/me/export.ZIP"));
    assert!(!zip_destination("/home/me/export"));
    assert!(!zip_destination("/home/me/export.zip/.."));
    assert!(!zip_destination(""));
}

#[test]
fn saving_an_export_needs_a_finished_task_with_an_archive() {
    let service = DesktopService::open("/data");
    let done = obj(vec![
        ("project_id", t("p1")),
        ("type", t("drama_video_export")),
        ("status", t("生成成功")),
        ("result", obj(vec![("url", t("/api/media/a.zip"))])),
    ]);
    assert_eq!(service.save_video_export("p1", "/tmp/out.zip", &done).unwrap(), "/api/media/a.zip");
    assert_eq!(
        service.save_video_export("p1", "/tmp/out.mp4", &done).unwrap_err().message(),
        "保存文件必须使用 .zip 扩展名"
    );
    let running = obj(vec![("status", t("生成中"))]);
    assert_eq!(
        completed_export_url(&running).unwrap_err().message(),
        "视频 ZIP 尚未准备完成"
    );
    let empty = obj(vec![("status", t("生成成功")), ("result", obj(vec![("url", t(""))]))]);
    assert_eq!(completed_export_url(&empty).unwrap_err().message(), "视频 ZIP 文件不存在");
}

#[test]
fn saving_an_export_refuses_a_task_of_another_project_or_kind() {
    let service = DesktopService::open("/data");
    let task = |project: &str, kind: &str| {
        obj(vec![
            ("project_id", t(project)),
            ("type", t(kind)),
            ("status", t("生成成功")),
            ("result", obj(vec![("url", t("/api/media/secret.mp4"))])),
        ])
    };
    assert_eq!(
        service.save_video_export("p1", "/tmp/out.zip", &task("p2", "drama_video_export")).unwrap_err().message(),
        "视频导出任务不存在"
    );
    assert_eq!(
        service.save_video_export("p1", "/tmp/out.zip", &task("p1", "shot_video")).unwrap_err().message(),
        "视频导出任务不存在"
    );
    assert_eq!(
        service.save_video_export("p1", "/tmp/out.mp4", &task("p2", "shot_video")).unwrap_err().message(),
        "保存文件必须使用 .zip 扩展名"
    );
}
