use ai_application_factory::json::Json;
use ai_application_factory::skills::{
    drama_instruction, format_instruction, grouped_number, parse_skill, yaml_scalar, SkillRegistry,
};

fn t(s: &str) -> Json {
    Json::Text(s.to_owned())
}

fn obj(pairs: Vec<(&str, Json)>) -> Json {
    Json::Object(pairs.into_iter().map(|(k, v)| (k.to_owned(), v)).collect())
}

const DRAMA_SKILLS: [&str; 11] = [
    "asset_prompt_generator",
    "continuity_checker",
    "episode_planner",
    "episode_summarizer",
    "premise_expander",
    "scene_planner",
    "script_decomposer",
    "script_writer",
    "shot_prompt_generator",
    "story_bible_generator",
    "story_framework_researcher",
];

fn skill_file(agent: &str, name: &str) -> (String, String) {
    (
        format!("{agent}/{name}/SKILL.md"),
        format!(
            "---\nname: {name}\ndescription: \"{name} skill\"\nmetadata:\n  agent: {agent}\n---\nInstruction of {name}.\n"
        ),
    )
}

fn bundled_skill_files() -> Vec<(String, String)> {
    let mut files: Vec<(String, String)> = DRAMA_SKILLS.iter().map(|name| skill_file("drama", name)).collect();
    files.push(skill_file("interactive_game", "interactive_branch_planner"));
    files
}

#[test]
fn embedded_skills_load_without_a_runtime_resource_directory() {
    let registry = SkillRegistry::load_embedded(&bundled_skill_files()).expect("embedded skill registry");
    assert_eq!(registry.skills.len(), 12);
    assert_eq!(registry.for_agent("drama").len(), 11);
    registry
        .named_for_agent("interactive_branch_planner", "interactive_game")
        .expect("interactive game skill");
}

#[test]
fn a_duplicate_skill_name_is_refused() {
    let mut files = bundled_skill_files();
    files.push(("copy/SKILL.md".to_owned(), files[0].1.clone()));
    let error = SkillRegistry::load_embedded(&files).err().expect("duplicate refused");
    assert_eq!(error.message(), "skill 名称重复：copy/SKILL.md");
}

#[test]
fn registry_lists_skills_in_name_order() {
    let mut files = bundled_skill_files();
    files.reverse();
    let registry = SkillRegistry::load_embedded(&files).unwrap();
    let names: Vec<&str> = registry.skills.iter().map(|s| s.name.as_str()).collect();
    let mut sorted = names.clone();
    sorted.sort();
    assert_eq!(names, sorted);
    let system = registry.drama_agent_system();
    assert!(system.starts_with(
        "You are the drama domain agent. Use the available skills when a task matches them.\nAvailable skills:\n- asset_prompt_generator: asset_prompt_generator skill\n"
    ));
    assert!(system.ends_with("- story_framework_researcher: story_framework_researcher skill"));
}

#[test]
fn skills_are_looked_up_per_agent() {
    let registry = SkillRegistry::load_embedded(&bundled_skill_files()).unwrap();
    assert_eq!(
        registry.named_for_agent("unknown", "drama").err().unwrap().message(),
        "未知的 drama skill：unknown"
    );
    assert_eq!(
        registry.named_for_agent("interactive_branch_planner", "drama").err().unwrap().message(),
        "skill interactive_branch_planner 不属于 drama agent"
    );
}

#[test]
fn skill_markdown_exposes_frontmatter_metadata_and_body() {
    let source = "---\r\nname: 'shot_prompt_generator'\r\ndescription:  分镜提示词 \r\nmetadata:\r\n  agent: drama\r\n  prompt_template_v1: 生成 2～3 个连续镜头\r\n  prompt_template_v2: 只生成 1 个完整的连续长镜头\r\nversion: 1\r\n---\r\n请生成 2～3 个连续镜头。\r\n\r\n";
    let skill = parse_skill(source, "drama/shot/SKILL.md").unwrap();
    assert_eq!(skill.name, "shot_prompt_generator");
    assert_eq!(skill.description, "分镜提示词");
    assert_eq!(skill.agent, "drama");
    assert_eq!(skill.metadata.len(), 3);
    assert_eq!(skill.instruction, "请生成 2～3 个连续镜头。");
    let v2 = drama_instruction(&skill, &obj(vec![("prompt_template_version", t("v2"))])).unwrap();
    assert!(v2.contains("只生成 1 个完整的连续长镜头"));
    assert!(!v2.contains("生成 2～3 个连续镜头"));
    let v1 = drama_instruction(&skill, &obj(vec![])).unwrap();
    assert_eq!(v1, "请生成 2～3 个连续镜头。");
}

#[test]
fn malformed_skill_markdown_names_its_file() {
    assert_eq!(
        parse_skill("name: x", "a/SKILL.md").err().unwrap().message(),
        "SKILL.md 缺少 YAML frontmatter：a/SKILL.md"
    );
    assert_eq!(
        parse_skill("---\nname: x\n", "a/SKILL.md").err().unwrap().message(),
        "SKILL.md frontmatter 未结束：a/SKILL.md"
    );
    assert_eq!(
        parse_skill("---\nname: x\ndescription: y\n---\nbody", "a/SKILL.md").err().unwrap().message(),
        "SKILL.md 缺少 metadata.agent：a/SKILL.md"
    );
    assert_eq!(
        parse_skill("---\nname: \"\"\n---\nbody", "b/SKILL.md").err().unwrap().message(),
        "SKILL.md 缺少 name：b/SKILL.md"
    );
}

#[test]
fn yaml_scalars_lose_quotes_and_spaces() {
    assert_eq!(yaml_scalar("  \"quoted\" "), "quoted");
    assert_eq!(yaml_scalar(" 'single' "), "single");
    assert_eq!(yaml_scalar(" plain "), "plain");
}

#[test]
fn numbers_are_grouped_by_thousands() {
    assert_eq!(grouped_number(&Json::Int(5000)).unwrap(), "5,000");
    assert_eq!(grouped_number(&Json::Int(1234567)).unwrap(), "1,234,567");
    assert_eq!(grouped_number(&Json::Int(400)).unwrap(), "400");
    assert_eq!(grouped_number(&Json::Int(-1234)).unwrap(), "-1,234");
    assert_eq!(grouped_number(&t("5")).err().unwrap().message(), "skill 数值参数必须是整数");
}

#[test]
fn premise_arguments_fill_their_slots() {
    let arguments = obj(vec![
        ("episode_count", Json::Int(25)),
        ("target_min_chars", Json::Int(5000)),
        ("target_max_chars", Json::Int(10000)),
        ("shot_script_max_chars", Json::Int(400)),
    ]);
    let text = format_instruction(
        "写 {episode_count} 集，{target_min_chars}～{target_max_chars} 字，每镜 {shot_script_max_chars} 字",
        &arguments,
        &["episode_count", "target_min_chars", "target_max_chars", "shot_script_max_chars"],
    )
    .unwrap();
    assert_eq!(text, "写 25 集，5,000～10,000 字，每镜 400 字");
    assert_eq!(
        format_instruction("{genre}", &arguments, &["genre"]).err().unwrap().message(),
        "skill 参数缺少 genre"
    );
    assert_eq!(
        format_instruction("{x}", &obj(vec![("x", Json::Int(1))]), &["x"]).err().unwrap().message(),
        "skill 参数 x 必须是文本"
    );
}

#[test]
fn drama_skills_carry_their_instruction_and_arguments() {
    let registry = SkillRegistry::load_embedded(&bundled_skill_files()).unwrap();
    let envelope = registry.drama_skill("script_writer", &obj(vec![("a", Json::Int(1))])).unwrap();
    match envelope {
        Json::Object(entries) => {
            let keys: Vec<&str> = entries.iter().map(|(k, _)| k.as_str()).collect();
            assert_eq!(keys, vec!["agent", "arguments", "instruction", "skill"]);
            assert!(matches!(&entries[2].1, Json::Text(s) if s == "Instruction of script_writer."));
        }
        _ => panic!("object expected"),
    }
    assert!(registry.drama_skill("interactive_branch_planner", &obj(vec![])).is_err());
}

#[test]
fn the_branch_planner_skill_carries_its_arguments() {
    let registry = SkillRegistry::load_embedded(&bundled_skill_files()).unwrap();
    match registry.game_branch_skill(&obj(vec![("nodes", Json::Int(3))])).unwrap() {
        Json::Object(e) => {
            let keys: Vec<&str> = e.iter().map(|(k, _)| k.as_str()).collect();
            assert_eq!(keys, vec!["agent", "arguments", "instruction", "skill"]);
            assert!(matches!(&e[0].1, Json::Text(s) if s == "interactive_game"));
            assert!(matches!(&e[3].1, Json::Text(s) if s == "interactive_branch_planner"));
        }
        _ => panic!("object expected"),
    }
    let drama_only = SkillRegistry::load_embedded(&vec![skill_file("drama", "premise_expander")]).unwrap();
    assert!(drama_only.game_branch_skill(&obj(vec![])).is_err());
}
