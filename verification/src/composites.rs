//! Generated composites: the image prompt of a shot's or a game node's
//! composite, the record and task input of a shot's composite, and the mark
//! that tells a caller whether a running task was reused.
//!
//! The lines that place each character are computed from floating-point
//! positions by the caller and handed in as text.

use vstd::prelude::*;

use crate::json::{entry_insert, insert_entry, text_or, view_entries, view_items, Json, JsonView};
use crate::placeholder::{at, PlaceholderPlan};
use crate::text::{concat, concat3, joined_lines};

verus! {

/// The line that describes one prop of a composite.
pub open spec fn prop_line(item: JsonView) -> Seq<char> {
    "道具“"@ + text_or(item, "name"@, ""@) + "”："@ + text_or(item, "prompt"@, ""@)
}

pub open spec fn prop_lines(props: Seq<JsonView>) -> Seq<Seq<char>> {
    Seq::new(props.len(), |i: int| prop_line(props[i]))
}

/// The line that names a composite's scene and its prompt.
pub open spec fn scene_line(scene: JsonView) -> Seq<char> {
    "场景："@ + text_or(scene, "name"@, "未命名场景"@) + "；场景提示词："@ + text_or(scene, "prompt"@, ""@)
}

pub open spec fn references_line() -> Seq<char> {
    "参考图1是场景；后续参考图是角色和剧情相关道具。保持参考人物脸部、服装、道具材质与场景结构一致。"@
}

pub open spec fn closing_lines() -> Seq<Seq<char>> {
    seq![
        "将角色和道具自然融合进场景并符合透视、遮挡、光影和比例关系。"@,
        "输出必须是无编辑痕迹的成片参考图：不要方框、字母、标签、箭头、辅助线、坐标、界面、文字或水印。"@,
    ]
}

/// The lines of a shot composite's prompt: what to draw, the scene, the
/// project's style, theme and ratio, the reference order, one line per
/// placed character, one per prop, and what the image must not contain.
pub open spec fn shot_prompt_lines(project: JsonView, scene: JsonView, props: Seq<JsonView>, positions: Seq<Seq<char>>) -> Seq<Seq<char>> {
    seq![
        "生成一张干净、完整、可直接提供给视频生成模型的镜头构图参考图。"@,
        scene_line(scene),
        "风格："@ + text_or(project, "style"@, "真人风格"@) + "；背景主题："@ + text_or(project, "theme"@, ""@) + "；画幅："@
            + text_or(project, "ratio"@, "9:16"@),
        references_line(),
    ] + positions + prop_lines(props) + closing_lines()
}

/// The frame ratio of a game's composites: wide for Steam games, tall otherwise.
pub open spec fn game_ratio(game: JsonView) -> Seq<char> {
    if game.get("platform"@) == Some(JsonView::Text("Steam游戏"@)) {
        "16:9"@
    } else {
        "9:16"@
    }
}

/// The lines of a game node composite's prompt: what to draw, the node and
/// its text, the scene, the game's style and ratio, the reference order, one
/// line per placed character, one per prop, and what the image must not contain.
pub open spec fn game_prompt_lines(game: JsonView, node: JsonView, scene: JsonView, props: Seq<JsonView>, positions: Seq<Seq<char>>) -> Seq<Seq<char>> {
    seq![
        "生成一张干净、完整、可直接提供给视频生成模型的互动游戏节点构图参考图。"@,
        "节点："@ + text_or(node, "title"@, "未命名节点"@) + "；节点文本："@ + text_or(node, "original_text"@, ""@),
        scene_line(scene),
        "风格："@ + text_or(game, "style"@, "真人风格"@) + "；画幅："@ + game_ratio(game),
        references_line(),
    ] + positions + prop_lines(props) + closing_lines()
}

pub open spec fn line_views(lines: Seq<String>) -> Seq<Seq<char>> {
    Seq::new(lines.len(), |i: int| lines[i]@)
}

fn push_line(lines: &mut Vec<String>, line: String)
    ensures
        line_views(final(lines)@) == line_views(old(lines)@).push(line@),
{
    let ghost before = lines@;
    lines.push(line);
    proof {
        assert(line_views(lines@) =~= line_views(before).push(line@));
    }
}

fn push_all(lines: &mut Vec<String>, more: &Vec<String>)
    ensures
        line_views(final(lines)@) == line_views(old(lines)@) + line_views(more@),
{
    let ghost start = line_views(lines@);
    let mut i: usize = 0;
    while i < more.len()
        invariant
            i <= more.len(),
            line_views(lines@) == start + line_views(more@).subrange(0, i as int),
        decreases more.len() - i,
    {
        push_line(lines, more[i].clone());
        proof {
            assert(line_views(more@).subrange(0, i + 1) =~= line_views(more@).subrange(0, i as int).push(more@[i as int]@));
        }
        i += 1;
    }
    proof {
        assert(line_views(more@).subrange(0, more.len() as int) =~= line_views(more@));
    }
}

fn push_tail(lines: &mut Vec<String>, props: &Vec<Json>)
    ensures
        line_views(final(lines)@) == line_views(old(lines)@) + prop_lines(view_items(props@)) + closing_lines(),
{
    let ghost start = line_views(lines@);
    proof {
        crate::json::lemma_view_items(props@);
    }
    let mut i: usize = 0;
    while i < props.len()
        invariant
            i <= props.len(),
            view_items(props@).len() == props.len(),
            forall|k: int| 0 <= k < props.len() ==> #[trigger] view_items(props@)[k] == props@[k]@,
            line_views(lines@) == start + prop_lines(view_items(props@)).subrange(0, i as int),
        decreases props.len() - i,
    {
        let name = props[i].text_or("name", "");
        let prompt = props[i].text_or("prompt", "");
        let head = concat3("道具“", name.as_str(), "”：");
        push_line(lines, concat(head.as_str(), prompt.as_str()));
        proof {
            assert(prop_lines(view_items(props@)).subrange(0, i + 1) =~= prop_lines(view_items(props@)).subrange(0, i as int).push(
                prop_line(props@[i as int]@),
            ));
        }
        i += 1;
    }
    proof {
        assert(prop_lines(view_items(props@)).subrange(0, props.len() as int) =~= prop_lines(view_items(props@)));
    }
    let ghost middle = line_views(lines@);
    push_line(lines, "将角色和道具自然融合进场景并符合透视、遮挡、光影和比例关系。".to_owned());
    push_line(lines, "输出必须是无编辑痕迹的成片参考图：不要方框、字母、标签、箭头、辅助线、坐标、界面、文字或水印。".to_owned());
    proof {
        assert(line_views(lines@) =~= middle + closing_lines());
    }
}

fn scene_text(scene: &Json) -> (r: String)
    ensures
        r@ == scene_line(scene@),
{
    let name = scene.text_or("name", "未命名场景");
    let prompt = scene.text_or("prompt", "");
    let head = concat3("场景：", name.as_str(), "；场景提示词：");
    concat(head.as_str(), prompt.as_str())
}

fn joined_text(lines: &Vec<String>) -> (r: String)
    ensures
        r@ == joined_lines(line_views(lines@)),
{
    let r = crate::text::join_lines(lines);
    proof {
        assert(Seq::new(lines.len() as nat, |i: int| lines@[i]@) =~= line_views(lines@));
    }
    r
}

/// The image prompt of a shot's composite; `positions` holds one line per
/// placed character.
pub fn shot_composite_prompt(project: &Json, scene: &Json, props: &Vec<Json>, positions: &Vec<String>) -> (r: String)
    ensures
        r@ == joined_lines(shot_prompt_lines(project@, scene@, view_items(props@), line_views(positions@))),
{
    let mut lines: Vec<String> = Vec::new();
    proof {
        assert(line_views(lines@) =~= Seq::<Seq<char>>::empty());
    }
    push_line(&mut lines, "生成一张干净、完整、可直接提供给视频生成模型的镜头构图参考图。".to_owned());
    push_line(&mut lines, scene_text(scene));
    let style = project.text_or("style", "真人风格");
    let theme = project.text_or("theme", "");
    let ratio = project.text_or("ratio", "9:16");
    let a = concat3("风格：", style.as_str(), "；背景主题：");
    let b = concat3(a.as_str(), theme.as_str(), "；画幅：");
    push_line(&mut lines, concat(b.as_str(), ratio.as_str()));
    push_line(&mut lines, "参考图1是场景；后续参考图是角色和剧情相关道具。保持参考人物脸部、服装、道具材质与场景结构一致。".to_owned());
    let ghost head = line_views(lines@);
    push_all(&mut lines, positions);
    push_tail(&mut lines, props);
    proof {
        assert(head =~= seq![
            "生成一张干净、完整、可直接提供给视频生成模型的镜头构图参考图。"@,
            scene_line(scene@),
            "风格："@ + text_or(project@, "style"@, "真人风格"@) + "；背景主题："@ + text_or(project@, "theme"@, ""@) + "；画幅："@
                + text_or(project@, "ratio"@, "9:16"@),
            references_line(),
        ]);
        assert(line_views(lines@) =~= shot_prompt_lines(project@, scene@, view_items(props@), line_views(positions@)));
    }
    joined_text(&lines)
}

/// The image prompt of a game node's composite; `positions` holds one line
/// per placed character.
pub fn game_composite_prompt(game: &Json, node: &Json, scene: &Json, props: &Vec<Json>, positions: &Vec<String>) -> (r: String)
    ensures
        r@ == joined_lines(game_prompt_lines(game@, node@, scene@, view_items(props@), line_views(positions@))),
{
    let mut lines: Vec<String> = Vec::new();
    proof {
        assert(line_views(lines@) =~= Seq::<Seq<char>>::empty());
    }
    push_line(&mut lines, "生成一张干净、完整、可直接提供给视频生成模型的互动游戏节点构图参考图。".to_owned());
    let title = node.text_or("title", "未命名节点");
    let original = node.text_or("original_text", "");
    let n = concat3("节点：", title.as_str(), "；节点文本：");
    push_line(&mut lines, concat(n.as_str(), original.as_str()));
    push_line(&mut lines, scene_text(scene));
    let steam = match game.get("platform") {
        Some(Json::Text(p)) => crate::json::str_eq(p.as_str(), "Steam游戏"),
        other => {
            proof {
                match other {
                    Some(v) => crate::json::lemma_view_variant(*v),
                    None => {},
                }
            }
            false
        },
    };
    let ratio = if steam { "16:9" } else { "9:16" };
    let style = game.text_or("style", "真人风格");
    let s = concat3("风格：", style.as_str(), "；画幅：");
    push_line(&mut lines, concat(s.as_str(), ratio));
    push_line(&mut lines, "参考图1是场景；后续参考图是角色和剧情相关道具。保持参考人物脸部、服装、道具材质与场景结构一致。".to_owned());
    let ghost head = line_views(lines@);
    push_all(&mut lines, positions);
    push_tail(&mut lines, props);
    proof {
        assert(head =~= seq![
            "生成一张干净、完整、可直接提供给视频生成模型的互动游戏节点构图参考图。"@,
            "节点："@ + text_or(node@, "title"@, "未命名节点"@) + "；节点文本："@ + text_or(node@, "original_text"@, ""@),
            scene_line(scene@),
            "风格："@ + text_or(game@, "style"@, "真人风格"@) + "；画幅："@ + game_ratio(game@),
            references_line(),
        ]);
        assert(line_views(lines@) =~= game_prompt_lines(game@, node@, scene@, view_items(props@), line_views(positions@)));
    }
    joined_text(&lines)
}

/// The description stored with a shot's composite: the shot, its scene, the
/// placements, the version, how it was made and the materials it is made
/// from, scene first.
pub open spec fn shot_composite_metadata(
    shot_id: Seq<char>,
    scene_id: Seq<char>,
    scene: JsonView,
    placements: Seq<JsonView>,
    version: int,
    characters: Seq<JsonView>,
    props: Seq<JsonView>,
    reference_ids: Seq<Seq<char>>,
) -> JsonView {
    JsonView::Object(seq![
        ("shot_id"@, JsonView::Text(shot_id)),
        ("scene_asset_id"@, JsonView::Text(scene_id)),
        ("scene_name"@, at(scene, "name"@)),
        ("placements"@, JsonView::Array(placements)),
        ("version"@, JsonView::Int(version as i64)),
        ("render_mode"@, JsonView::Text("generated_composite"@)),
        ("character_asset_ids"@, JsonView::Array(crate::game_placeholder::id_values(characters))),
        ("prop_asset_ids"@, JsonView::Array(crate::game_placeholder::id_values(props))),
        ("reference_asset_ids"@, JsonView::Array(crate::serial_batch::text_values(reference_ids))),
    ])
}

/// The description stored with a shot's composite, from its plan.
pub fn shot_composite_record(shot_id: &str, scene_id: &str, scene: &Json, placements: &Vec<Json>, plan: &PlaceholderPlan) -> (r: Json)
    requires
        plan.version <= i64::MAX,
    ensures
        r@ == shot_composite_metadata(
            shot_id@,
            scene_id@,
            scene@,
            view_items(placements@),
            plan.version as int,
            view_items(plan.characters@),
            view_items(plan.props@),
            crate::forms::texts_view(plan.reference_ids@),
        ),
{
    let entries: Vec<(String, Json)> = vec![
        ("shot_id".to_owned(), Json::Text(shot_id.to_owned())),
        ("scene_asset_id".to_owned(), Json::Text(scene_id.to_owned())),
        ("scene_name".to_owned(), crate::placeholder::value_at(scene, "name")),
        ("placements".to_owned(), Json::Array(crate::json::copy_items(placements))),
        ("version".to_owned(), Json::Int(plan.version as i64)),
        ("render_mode".to_owned(), Json::Text("generated_composite".to_owned())),
        ("character_asset_ids".to_owned(), Json::Array(crate::game_placeholder::ids_of(&plan.characters))),
        ("prop_asset_ids".to_owned(), Json::Array(crate::game_placeholder::ids_of(&plan.props))),
        ("reference_asset_ids".to_owned(), Json::Array(crate::game_placeholder::texts_values_of(&plan.reference_ids))),
    ];
    proof {
        crate::json::lemma_view_entries(entries@);
    }
    let r = Json::Object(entries);
    proof {
        assert(view_entries(entries@) =~= shot_composite_metadata(
            shot_id@,
            scene_id@,
            scene@,
            view_items(placements@),
            plan.version as int,
            view_items(plan.characters@),
            view_items(plan.props@),
            crate::forms::texts_view(plan.reference_ids@),
        )->Object_0);
    }
    r
}

/// The name a shot's composite is stored under: the shot's title (or `分镜`),
/// then `· 占位图` and the version.
pub fn shot_composite_name(shot: &Json, version: usize) -> (r: String)
    requires
        version <= i64::MAX,
    ensures
        r@ == text_or(shot@, "title"@, "分镜"@) + " · 占位图 "@ + crate::text::decimal(version as int),
{
    let title = shot.text_or("title", "分镜");
    crate::game_placeholder::composite_name(title.as_str(), version as i64)
}

/// The input a shot composite's image task is queued with.
pub open spec fn shot_composite_input_of(
    project_id: Seq<char>,
    shot_id: Seq<char>,
    asset_id: JsonView,
    scene_id: Seq<char>,
    placements: Seq<JsonView>,
    reference_ids: Seq<Seq<char>>,
) -> JsonView {
    JsonView::Object(seq![
        ("project_id"@, JsonView::Text(project_id)),
        ("shot_id"@, JsonView::Text(shot_id)),
        ("asset_id"@, asset_id),
        ("scene_asset_id"@, JsonView::Text(scene_id)),
        ("placements"@, JsonView::Array(placements)),
        ("reference_asset_ids"@, JsonView::Array(crate::serial_batch::text_values(reference_ids))),
        ("render_mode"@, JsonView::Text("generated_composite"@)),
        ("type"@, JsonView::Text("placeholder_image"@)),
    ])
}

/// The input a shot composite's image task is queued with, for the stored
/// composite whose id is `asset_id`.
pub fn shot_composite_input(
    project_id: &str,
    shot_id: &str,
    asset_id: &Json,
    scene_id: &str,
    placements: &Vec<Json>,
    reference_ids: &Vec<String>,
) -> (r: Json)
    ensures
        r@ == shot_composite_input_of(
            project_id@,
            shot_id@,
            asset_id@,
            scene_id@,
            view_items(placements@),
            crate::forms::texts_view(reference_ids@),
        ),
{
    let entries: Vec<(String, Json)> = vec![
        ("project_id".to_owned(), Json::Text(project_id.to_owned())),
        ("shot_id".to_owned(), Json::Text(shot_id.to_owned())),
        ("asset_id".to_owned(), crate::json::duplicate(asset_id)),
        ("scene_asset_id".to_owned(), Json::Text(scene_id.to_owned())),
        ("placements".to_owned(), Json::Array(crate::json::copy_items(placements))),
        ("reference_asset_ids".to_owned(), Json::Array(crate::game_placeholder::texts_values_of(reference_ids))),
        ("render_mode".to_owned(), Json::Text("generated_composite".to_owned())),
        ("type".to_owned(), Json::Text("placeholder_image".to_owned())),
    ];
    proof {
        crate::json::lemma_view_entries(entries@);
    }
    let r = Json::Object(entries);
    proof {
        assert(view_entries(entries@) =~= shot_composite_input_of(
            project_id@,
            shot_id@,
            asset_id@,
            scene_id@,
            view_items(placements@),
            crate::forms::texts_view(reference_ids@),
        )->Object_0);
    }
    r
}

/// A task handed back for a composite, marked with whether it was already
/// running (`true`) or was queued by this request (`false`).
pub open spec fn marked_task_of(task: JsonView, reused: bool) -> JsonView {
    JsonView::Object(insert_entry(task->Object_0, "_reused"@, JsonView::Bool(reused)))
}

/// Mark a task handed back for a composite with whether it was reused.
pub fn marked_task(task: Json, reused: bool) -> (r: Json)
    requires
        task@ is Object,
    ensures
        r@ == marked_task_of(task@, reused),
{
    match task {
        Json::Object(entries) => {
            let mut entries = entries;
            proof {
                crate::json::lemma_view_entries(entries@);
            }
            entry_insert(&mut entries, "_reused".to_owned(), Json::Bool(reused));
            Json::Object(entries)
        },
        other => other,
    }
}

/// What a composite request answers: a task of the same item that is still
/// running is handed back, marked reused, and no new composite is made;
/// `None` when a new one is to be queued.
pub fn reused_composite_task(running: Option<Json>) -> (r: Option<Json>)
    requires
        running matches Some(t) ==> t@ is Object,
    ensures
        match running {
            Some(t) => r is Some && r->Some_0@ == marked_task_of(t@, true),
            None => r is None,
        },
{
    match running {
        Some(task) => Some(marked_task(task, true)),
        None => None,
    }
}

} // verus!
