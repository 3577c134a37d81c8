use ai_application_factory::deletion::{collect_media_urls, deleted_shot_neighbour};
use ai_application_factory::frame_references::{
    frame_references, related_video_available, strictly_reaches_node, verify_related_video,
    NodeVideoRecord,
};
use ai_application_factory::graph::GraphEdge;
use ai_application_factory::json::Json;

fn t(s: &str) -> Json {
    Json::Text(s.to_owned())
}

fn obj(pairs: Vec<(&str, Json)>) -> Json {
    Json::Object(pairs.into_iter().map(|(k, v)| (k.to_owned(), v)).collect())
}

fn edge(id: &str, from: &str, to: &str) -> GraphEdge {
    GraphEdge { id: id.to_owned(), source_node_id: from.to_owned(), target_node_id: to.to_owned() }
}

fn edges() -> Vec<GraphEdge> {
    vec![edge("e1", "a", "b"), edge("e2", "b", "c"), edge("e3", "x", "y")]
}

fn records() -> Vec<NodeVideoRecord> {
    vec![
        NodeVideoRecord {
            id: "a".to_owned(),
            video_history_json: r#"[{"id":"v1","status":"生成成功","url":"file:///a.mp4"},{"id":"v2","status":"生成中","url":""}]"#.to_owned(),
            video_url: None,
        },
        NodeVideoRecord { id: "c".to_owned(), video_history_json: "not json".to_owned(), video_url: Some("file:///c.mp4".to_owned()) },
    ]
}

fn err_message<T: std::fmt::Debug>(r: Result<T, ai_application_factory::error::AppError>) -> String {
    match r {
        Err(e) => e.message(),
        Ok(v) => panic!("expected an error, got {:?}", v),
    }
}

#[test]
fn related_nodes_lie_upstream_or_downstream() {
    let e = edges();
    assert!(strictly_reaches_node(&e, "a", "c"));
    assert!(!strictly_reaches_node(&e, "c", "a"));
    assert!(!strictly_reaches_node(&e, "a", "a"));
    assert!(!strictly_reaches_node(&e, "a", "y"));
}

#[test]
fn a_related_frame_needs_a_playable_video_of_a_related_node() {
    let e = edges();
    let r = records();
    assert!(verify_related_video(&e, "b", "a", "v1", &r).is_ok());
    assert!(verify_related_video(&e, "b", "c", "current", &r).is_ok());
    assert_eq!(err_message(verify_related_video(&e, "b", "a", "v2", &r)), "所选关联视频版本不可用");
    assert_eq!(err_message(verify_related_video(&e, "b", "y", "v1", &r)), "只能选择当前节点的上游或下游视频帧");
    assert_eq!(err_message(verify_related_video(&e, "a", "b", "v1", &r)), "关联视频节点不存在");
    assert!(!related_video_available(&Vec::new(), "current", Some("")));
}

#[test]
fn frames_are_material_images_uploads_or_related_video_frames() {
    let e = edges();
    let r = records();
    let assets = vec![("hero".to_owned(), "character".to_owned())];
    let value = obj(vec![
        ("first", obj(vec![("asset_id", t(" hero "))])),
        (
            "last",
            obj(vec![
                ("url", t("data:image/png;base64,AA")),
                ("node_id", t("a")),
                ("video_id", t("v1")),
                ("position", t("last")),
            ]),
        ),
    ]);
    let checked = frame_references(&value, &assets, &e, "b", &r).unwrap();
    let Json::Object(sides) = checked else { panic!("object") };
    assert_eq!(sides.len(), 2);
    assert!(matches!(&sides[0].1, Json::Object(f) if matches!(&f[0].1, Json::Text(id) if id == "hero")));
    assert!(matches!(&sides[1].1, Json::Object(f) if f.len() == 5));

    let upload = obj(vec![("first", obj(vec![("url", t("data:image/png;base64,AA")), ("source", t("upload"))]))]);
    assert!(frame_references(&upload, &assets, &e, "b", &r).is_ok());

    assert_eq!(err_message(frame_references(&t("x"), &assets, &e, "b", &r)), "first_last_frames 必须是对象");
    let missing = obj(vec![("first", obj(vec![("asset_id", t("ghost"))]))]);
    assert_eq!(err_message(frame_references(&missing, &assets, &e, "b", &r)), "素材不存在：ghost");
    let remote = obj(vec![("last", obj(vec![("url", t("https://x/y.png"))]))]);
    assert_eq!(err_message(frame_references(&remote, &assets, &e, "b", &r)), "输入last帧必须选择素材图、上传图片或关联视频帧");
    let no_position = obj(vec![(
        "first",
        obj(vec![("url", t("data:image/png;base64,AA")), ("node_id", t("a")), ("video_id", t("v1"))]),
    )]);
    assert_eq!(err_message(frame_references(&no_position, &assets, &e, "b", &r)), "输入first帧缺少有效视频位置");
    let no_node = obj(vec![("first", obj(vec![("url", t("data:image/png;base64,AA"))]))]);
    assert_eq!(err_message(frame_references(&no_node, &assets, &e, "b", &r)), "输入first帧缺少node_id");
}

#[test]
fn deleting_a_record_collects_each_media_url_once() {
    let record = obj(vec![
        ("image_url", t("file:///a.png")),
        ("cover", obj(vec![("url", t("  ")), ("video_url", t("file:///b.mp4"))])),
        (
            "shots",
            Json::Array(vec![
                obj(vec![("image_url", t("file:///a.png"))]),
                obj(vec![("versions", Json::Array(vec![obj(vec![("url", t("file:///c.mp4"))])]))]),
            ]),
        ),
        ("url_hint", t("file:///not-media.png")),
    ]);
    assert_eq!(collect_media_urls(&record), vec!["file:///a.png", "file:///b.mp4", "file:///c.mp4"]);
    assert!(collect_media_urls(&t("file:///x.png")).is_empty());
}

#[test]
fn deleting_a_shot_selects_the_next_or_the_previous_one() {
    let shots = vec![obj(vec![("id", t("s1"))]), obj(vec![("id", t("s2"))]), obj(vec![]), obj(vec![("id", t("s4"))])];
    assert_eq!(deleted_shot_neighbour(&shots, "s2").unwrap(), (1, Some("s4".to_owned())));
    assert_eq!(deleted_shot_neighbour(&shots, "s4").unwrap(), (3, None));
    assert_eq!(deleted_shot_neighbour(&shots[..2].iter().map(|s| match s {
        Json::Object(e) => Json::Object(e.iter().map(|(k, v)| (k.clone(), match v { Json::Text(x) => t(x), _ => Json::Null })).collect()),
        _ => Json::Null,
    }).collect(), "s2").unwrap(), (1, Some("s1".to_owned())));
    assert_eq!(err_message(deleted_shot_neighbour(&shots, "s9")), "Shot not found: s9");
}
