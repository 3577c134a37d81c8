use ai_application_factory::json::{duplicate, Json};
use ai_application_factory::placeholder::{check_placeholder_scene, placeholder_plan};

fn t(s: &str) -> Json {
    Json::Text(s.to_owned())
}

fn obj(pairs: Vec<(&str, Json)>) -> Json {
    Json::Object(pairs.into_iter().map(|(k, v)| (k.to_owned(), v)).collect())
}

fn asset(id: &str, kind: &str, name: &str, image: &str) -> Json {
    obj(vec![("id", t(id)), ("type", t(kind)), ("name", t(name)), ("image_url", t(image))])
}

fn id_of(j: &Json) -> String {
    match j {
        Json::Object(e) => match &e.iter().find(|(k, _)| k == "id").unwrap().1 {
            Json::Text(s) => s.clone(),
            _ => String::new(),
        },
        _ => String::new(),
    }
}

#[test]
fn the_scene_must_be_an_imaged_scene() {
    assert!(check_placeholder_scene(&asset("s", "scene", "站房", "/m/s.png")).is_ok());
    assert_eq!(
        check_placeholder_scene(&asset("s", "prop", "站房", "/m/s.png")).unwrap_err().message(),
        "占位图必须使用场景素材作为背景"
    );
    assert_eq!(
        check_placeholder_scene(&asset("s", "scene", "站房", "")).unwrap_err().message(),
        "请先生成场景图片，再创建占位图"
    );
}

#[test]
fn a_placeholder_uses_placed_characters_and_relevant_props() {
    let scene = asset("scene", "scene", "站房", "/m/scene.png");
    let assets = vec![
        duplicate(&scene),
        asset("lin", "character", "林岩", "/m/lin.png"),
        asset("su", "character", "苏晚", "/m/su.png"),
        asset("letter", "prop", "信件", "/m/letter.png"),
        asset("lamp", "prop", "油灯", "/m/lamp.png"),
        asset("key", "prop", "钥匙", "/m/key.png"),
        obj(vec![
            ("id", t("old")),
            ("type", t("placeholder")),
            ("metadata", obj(vec![("shot_id", t("shot-1")), ("render_mode", t("generated_composite"))])),
        ]),
    ];
    let shot = obj(vec![
        ("title", t("发现线索")),
        ("original_text", t("林岩在站房找到泛黄信件。")),
        ("reference_asset_ids", Json::Array(vec![t("key")])),
    ]);
    let ids = vec!["lin".to_owned(), "su".to_owned(), "lin".to_owned()];
    let plan = placeholder_plan(&assets, &shot, &scene, &ids, "shot-1").unwrap();
    let characters: Vec<String> = plan.characters.iter().map(id_of).collect();
    let props: Vec<String> = plan.props.iter().map(id_of).collect();
    assert_eq!(characters, vec!["lin", "su"]);
    assert_eq!(props, vec!["letter", "key"]);
    assert_eq!(plan.reference_ids, vec!["scene", "lin", "su", "letter", "key"]);
    assert_eq!(plan.version, 2);
}

#[test]
fn placeholder_refusals_name_the_material() {
    let scene = asset("scene", "scene", "站房", "/m/scene.png");
    let assets = vec![
        asset("lin", "character", "林岩", ""),
        asset("letter", "prop", "信件", "/m/letter.png"),
        asset("key", "prop", "钥匙", ""),
    ];
    let shot = obj(vec![(
        "prompt_rich",
        Json::Array(vec![obj(vec![("type", t("reference")), ("asset_id", t("key"))])]),
    )]);
    let missing = placeholder_plan(&assets, &shot, &scene, &vec!["ghost".to_owned()], "s").unwrap_err();
    assert_eq!(missing.message(), "Asset not found: ghost");
    let not_character = placeholder_plan(&assets, &shot, &scene, &vec!["letter".to_owned()], "s").unwrap_err();
    assert_eq!(not_character.message(), "占位图只能放置角色素材");
    let no_image = placeholder_plan(&assets, &shot, &scene, &vec!["lin".to_owned()], "s").unwrap_err();
    assert_eq!(no_image.message(), "角色“林岩”尚未生成图片");
    let ready = vec![asset("lin", "character", "林岩", "/m/lin.png"), asset("key", "prop", "钥匙", "")];
    let prop = placeholder_plan(&ready, &shot, &scene, &vec!["lin".to_owned()], "s").unwrap_err();
    assert_eq!(prop.message(), "道具“钥匙”尚未生成图片");
}
