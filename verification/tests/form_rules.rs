use ai_application_factory::error::AppError;
use ai_application_factory::forms::{
    char_count, create_integer, game_cover_ratio, game_integer, optional_boolean, optional_text,
    require_image, required_frame_field, required_id, required_kind, required_text, string_value,
    unique_ids, validate_game_form, validate_voice_preset, video_export_format,
};
use ai_application_factory::json::Json;

fn t(s: &str) -> Json {
    Json::Text(s.to_owned())
}

fn map(pairs: Vec<(&str, Json)>) -> Vec<(String, Json)> {
    pairs.into_iter().map(|(k, v)| (k.to_owned(), v)).collect()
}

fn err_message<T>(r: Result<T, AppError>) -> String {
    match r {
        Err(e) => e.message(),
        Ok(_) => panic!("expected an error"),
    }
}

#[test]
fn video_export_accepts_only_mp4() {
    let mp4 = map(vec![("format", t("mp4"))]);
    let wav = map(vec![("format", t("wav"))]);

    assert_eq!(video_export_format(&mp4).expect("mp4 export"), "mp4");
    assert!(video_export_format(&wav).is_err());
}

#[test]
fn export_format_is_trimmed_and_required() {
    assert_eq!(video_export_format(&map(vec![("format", t("  mp4 "))])).unwrap(), "mp4");
    assert_eq!(err_message(video_export_format(&map(vec![]))), "导出格式仅支持 mp4");
}

#[test]
fn bounded_integers_use_the_default_and_name_their_range() {
    let values = map(vec![("branch_min", Json::Int(9)), ("word", t("x"))]);
    assert_eq!(game_integer(&values, "branch_max", 4, 2, 4).unwrap(), 4);
    assert_eq!(
        err_message(game_integer(&values, "branch_min", 2, 2, 4)),
        "branch_min 必须在 2 到 4 之间"
    );
    assert_eq!(err_message(game_integer(&values, "word", 1, 1, 2)), "word 必须是整数");
    assert_eq!(
        err_message(create_integer(&values, "branch_min", 0, -5, -1)),
        "branch_min 必须在 -5 到 -1 之间"
    );
}

#[test]
fn optional_booleans_refuse_other_values() {
    let values = map(vec![("a", Json::Bool(false)), ("b", t("true"))]);
    assert_eq!(optional_boolean(&values, "a").unwrap(), Some(false));
    assert_eq!(optional_boolean(&values, "missing").unwrap(), None);
    assert_eq!(err_message(optional_boolean(&values, "b")), "b 必须是布尔值");
}

#[test]
fn a_complete_game_form_passes() {
    let values = map(vec![
        ("name", t("钟楼回声")),
        ("platform", t("微信小游戏")),
        ("style", t("2D动漫")),
        ("branch_min", Json::Int(2)),
        ("branch_max", Json::Int(3)),
        ("resolution", t("480p")),
        ("enable_web_search", Json::Bool(true)),
    ]);
    assert!(validate_game_form(&values).is_ok());
}

#[test]
fn game_form_errors_come_in_rule_order() {
    assert_eq!(
        err_message(validate_game_form(&map(vec![]))),
        "游戏名称长度需在 1 到 120 个字之间"
    );
    let long_name = "字".repeat(121);
    assert_eq!(
        err_message(validate_game_form(&map(vec![("name", t(&long_name))]))),
        "游戏名称长度需在 1 到 120 个字之间"
    );
    assert_eq!(
        err_message(validate_game_form(&map(vec![("name", t("g")), ("platform", t("PS5"))]))),
        "不支持的游戏发布平台"
    );
    assert_eq!(
        err_message(validate_game_form(&map(vec![("name", t("g")), ("style", t("水墨"))]))),
        "不支持的游戏视觉风格"
    );
    assert_eq!(
        err_message(validate_game_form(&map(vec![
            ("name", t("g")),
            ("branch_min", Json::Int(4)),
            ("branch_max", Json::Int(3)),
        ]))),
        "branch_min must be less than or equal to branch_max"
    );
    assert_eq!(
        err_message(validate_game_form(&map(vec![
            ("name", t("g")),
            ("node_duration_min", Json::Int(12)),
            ("node_duration_max", Json::Int(6)),
        ]))),
        "node_duration_min must be less than or equal to node_duration_max"
    );
    assert_eq!(
        err_message(validate_game_form(&map(vec![("name", t("g")), ("node_duration_max", Json::Int(16))]))),
        "node_duration_max 必须在 4 到 15 之间"
    );
    assert_eq!(
        err_message(validate_game_form(&map(vec![
            ("name", t("g")),
            ("expanded_script_min_chars", Json::Int(20000)),
        ]))),
        "expanded_script_min_chars must be less than or equal to expanded_script_max_chars"
    );
    assert_eq!(
        err_message(validate_game_form(&map(vec![("name", t("g")), ("resolution", t("1080p"))]))),
        "不支持的游戏节点分辨率"
    );
    assert_eq!(
        err_message(validate_game_form(&map(vec![("name", t("g")), ("enable_web_search", t("yes"))]))),
        "enable_web_search 必须是布尔值"
    );
}

#[test]
fn text_fields_are_checked_for_presence_and_length() {
    let values = map(vec![("title", t("  封面  ")), ("note", Json::Int(1)), ("blank", t("   "))]);
    assert_eq!(required_text(&values, "title", 10).unwrap(), "封面");
    assert_eq!(err_message(required_text(&values, "blank", 10)), "blank 不能为空");
    assert_eq!(err_message(required_text(&values, "title", 1)), "title 不能超过 1 个字");
    assert_eq!(optional_text(&values, "missing", 3).unwrap(), "");
    assert_eq!(optional_text(&values, "title", 10).unwrap(), "  封面  ");
    assert_eq!(err_message(optional_text(&values, "note", 3)), "note 必须是字符串");
    assert_eq!(char_count("封面ab"), 4);
}

#[test]
fn unique_ids_keep_first_seen_order() {
    let ids = Json::Array(vec![t("b"), t(""), t("a"), Json::Int(1), t("b")]);
    assert_eq!(unique_ids(Some(&ids)), vec!["b".to_owned(), "a".to_owned()]);
    assert!(unique_ids(None).is_empty());
    assert!(unique_ids(Some(&t("a"))).is_empty());
}

#[test]
fn voice_presets_need_a_name_and_a_description_within_their_lengths() {
    assert!(validate_voice_preset("温柔女声", "女", "轻柔而温暖").is_ok());
    assert_eq!(err_message(validate_voice_preset("", "女", "描述")), "音色名称和音色描述不能为空");
    assert_eq!(err_message(validate_voice_preset("名", "女", "")), "音色名称和音色描述不能为空");
    let long_name = "名".repeat(81);
    assert_eq!(err_message(validate_voice_preset(&long_name, "", "描述")), "音色名称不能超过 80 个字符");
    assert!(validate_voice_preset(&"名".repeat(80), "", "描述").is_ok());
    assert_eq!(err_message(validate_voice_preset("名", &"性".repeat(21), "描述")), "适用性别不能超过 20 个字符");
    assert_eq!(err_message(validate_voice_preset("名", "", &"述".repeat(501))), "音色描述不能超过 500 个字符");
}

#[test]
fn request_ids_and_frame_fields_are_trimmed_and_required() {
    let values = map(vec![("asset_id", t("  hero  ")), ("blank", t("   "))]);
    assert_eq!(required_id(&values, "asset_id", "缺少素材").unwrap(), "hero");
    assert_eq!(err_message(required_id(&values, "blank", "缺少素材")), "缺少素材");
    assert_eq!(err_message(required_id(&values, "absent", "缺少素材")), "缺少素材");

    let frame = map(vec![("asset_id", t(" a ")), ("url", t(""))]);
    assert_eq!(required_frame_field(&frame, "asset_id", "首").unwrap(), "a");
    assert_eq!(err_message(required_frame_field(&frame, "url", "尾")), "输入尾帧缺少url");
}

#[test]
fn string_values_must_be_present_and_non_empty() {
    let values = map(vec![("name", t(" x ")), ("empty", t("")), ("flag", Json::Bool(true))]);
    assert_eq!(string_value(&values, "name").unwrap(), " x ");
    assert_eq!(err_message(string_value(&values, "empty")), "缺少 empty");
    assert_eq!(err_message(string_value(&values, "flag")), "缺少 flag");
}

#[test]
fn image_requests_need_an_existing_image_and_a_known_kind() {
    let with_image = Json::Object(vec![("image_url".to_owned(), t("file:///x.png"))]);
    let without = Json::Object(vec![("image_url".to_owned(), t(""))]);
    assert!(require_image(&with_image, "没有图片").is_ok());
    assert_eq!(err_message(require_image(&without, "没有图片")), "没有图片");
    assert_eq!(err_message(require_image(&Json::Null, "没有图片")), "没有图片");

    assert_eq!(required_kind(&map(vec![("asset_type", t("scene")), ("type", t("prop"))])).unwrap(), "scene");
    assert_eq!(required_kind(&map(vec![("type", t("prop"))])).unwrap(), "prop");
    assert_eq!(err_message(required_kind(&map(vec![("type", t("cover"))]))), "不支持的素材类型");
}

#[test]
fn steam_games_get_landscape_covers() {
    let steam = Json::Object(vec![("platform".to_owned(), t("Steam游戏"))]);
    let mobile = Json::Object(vec![("platform".to_owned(), t("微信小游戏"))]);
    assert_eq!(game_cover_ratio(&steam), "16:9");
    assert_eq!(game_cover_ratio(&mobile), "9:16");
    assert_eq!(game_cover_ratio(&Json::Null), "9:16");
}
