//! Standard `SKILL.md` documents of the local domain agents: their
//! frontmatter, the registry they form, and the instructions the drama
//! agent sends with each skill.

use vstd::prelude::*;

use crate::error::{AppError, AppErrorView};
use crate::json::{str_eq, Json, JsonView};
use crate::text::{
    chars_of, concat, concat3, decimal, decimal_text, matches_at, occurs_at, push_all, replace_all,
    replaced, slice_chars, string_of, strip_end, strip_start, trim, trim_char, trim_end_char,
    trimmed,
};

verus! {

/// One skill: its frontmatter fields, metadata and instruction body.
#[derive(Debug)]
pub struct SkillDefinition {
    pub name: String,
    pub description: String,
    pub agent: String,
    pub metadata: Vec<(String, String)>,
    pub instruction: String,
}

pub struct SkillView {
    pub name: Seq<char>,
    pub description: Seq<char>,
    pub agent: Seq<char>,
    pub metadata: Seq<(Seq<char>, Seq<char>)>,
    pub instruction: Seq<char>,
}

pub open spec fn pairs_view(m: Seq<(String, String)>) -> Seq<(Seq<char>, Seq<char>)> {
    Seq::new(m.len(), |i: int| (m[i].0@, m[i].1@))
}

impl View for SkillDefinition {
    type V = SkillView;

    open spec fn view(&self) -> SkillView {
        SkillView {
            name: self.name@,
            description: self.description@,
            agent: self.agent@,
            metadata: pairs_view(self.metadata@),
            instruction: self.instruction@,
        }
    }
}

/// The value stored under `key` in a metadata list (its first entry).
pub open spec fn meta_get(m: Seq<(Seq<char>, Seq<char>)>, key: Seq<char>) -> Option<Seq<char>>
    decreases m.len(),
{
    if m.len() == 0 {
        None
    } else if m[0].0 == key {
        Some(m[0].1)
    } else {
        meta_get(m.drop_first(), key)
    }
}

fn metadata_get<'a>(m: &'a Vec<(String, String)>, key: &str) -> (r: Option<&'a String>)
    ensures
        match r {
            Some(v) => meta_get(pairs_view(m@), key@) == Some(v@),
            None => meta_get(pairs_view(m@), key@) is None,
        },
{
    let ghost all = pairs_view(m@);
    let mut i: usize = 0;
    proof {
        assert(all.subrange(0, all.len() as int) =~= all);
    }
    while i < m.len()
        invariant
            i <= m.len(),
            all == pairs_view(m@),
            meta_get(all, key@) == meta_get(all.subrange(i as int, all.len() as int), key@),
        decreases m.len() - i,
    {
        let ghost rest = all.subrange(i as int, all.len() as int);
        proof {
            assert(rest[0] == (m@[i as int].0@, m@[i as int].1@));
        }
        if str_eq(m[i].0.as_str(), key) {
            return Some(&m[i].1);
        }
        proof {
            assert(rest.drop_first() =~= all.subrange(i + 1, all.len() as int));
        }
        i += 1;
    }
    proof {
        assert(all.subrange(i as int, all.len() as int) =~= Seq::<(Seq<char>, Seq<char>)>::empty());
    }
    None
}

/// Decimal text with `,` before every third digit counted from the right,
/// as the skill arguments show character counts.
pub open spec fn grouped(s: Seq<char>) -> Seq<char>
    decreases s.len(),
{
    if s.len() == 0 {
        s
    } else {
        seq![s[0]] + (if s.len() - 1 > 0 && (s.len() - 1) % 3 == 0 {
            seq![',']
        } else {
            Seq::empty()
        }) + grouped(s.drop_first())
    }
}

/// A numeric skill argument written with thousands separators.
pub open spec fn grouped_value(v: JsonView) -> Result<Seq<char>, AppErrorView> {
    match v {
        JsonView::Int(i) => Ok(grouped(decimal(i as int))),
        _ => Err(AppErrorView::BadRequest("skill 数值参数必须是整数"@)),
    }
}

pub open spec fn text_result(r: Result<String, AppError>) -> Result<Seq<char>, AppErrorView> {
    match r {
        Ok(v) => Ok(v@),
        Err(e) => Err(e@),
    }
}

/// Write an integer argument with thousands separators.
pub fn grouped_number(value: &Json) -> (r: Result<String, AppError>)
    ensures
        text_result(r) == grouped_value(value@),
{
    proof {
        crate::json::lemma_view_variant(*value);
    }
    let number = match value {
        Json::Int(i) => *i,
        _ => {
            return Err(AppError::bad_request("skill 数值参数必须是整数"));
        },
    };
    let raw = decimal_text(number);
    let v = chars_of(raw.as_str());
    let mut out: Vec<char> = Vec::new();
    let mut i: usize = 0;
    proof {
        assert(v@.subrange(0, v.len() as int) =~= v@);
    }
    while i < v.len()
        invariant
            i <= v.len(),
            v@ == raw@,
            out@ + grouped(v@.subrange(i as int, v.len() as int)) == grouped(raw@),
        decreases v.len() - i,
    {
        let ghost rest = v@.subrange(i as int, v.len() as int);
        let ghost before = out@;
        let k = v.len() - 1 - i;
        out.push(v[i]);
        if k > 0 && k % 3 == 0 {
            out.push(',');
        }
        proof {
            assert(rest.drop_first() =~= v@.subrange(i + 1, v.len() as int));
            assert(rest[0] == v@[i as int]);
            let sep = if rest.len() - 1 > 0 && (rest.len() - 1) % 3 == 0 {
                seq![',']
            } else {
                Seq::<char>::empty()
            };
            assert(grouped(rest) == seq![rest[0]] + sep + grouped(rest.drop_first()));
            assert(out@ =~= before + seq![rest[0]] + sep);
            assert(out@ + grouped(rest.drop_first()) =~= before + grouped(rest));
        }
        i += 1;
    }
    proof {
        assert(v@.subrange(v.len() as int, v.len() as int) =~= Seq::<char>::empty());
        assert(out@ + Seq::<char>::empty() =~= out@);
    }
    Ok(string_of(out.as_slice()))
}

/// The text that stands for a skill argument in an instruction: `{field}`.
pub open spec fn slot(field: Seq<char>) -> Seq<char> {
    "{"@ + field + "}"@
}

/// What a skill argument is written as: grouped digits for the character
/// counts, the decimal number for `episode_count`, the text itself otherwise.
pub open spec fn argument_text(arguments: JsonView, field: Seq<char>) -> Result<Seq<char>, AppErrorView> {
    match arguments.get(field) {
        None => Err(AppErrorView::BadRequest("skill 参数缺少 "@ + field)),
        Some(v) => if field == "target_min_chars"@ || field == "target_max_chars"@ || field == "shot_script_max_chars"@ {
            grouped_value(v)
        } else if field == "episode_count"@ {
            match v {
                JsonView::Int(i) => Ok(decimal(i as int)),
                _ => Err(AppErrorView::BadRequest("skill 参数 "@ + field + " 必须是整数"@)),
            }
        } else {
            match v {
                JsonView::Text(t) => Ok(t),
                _ => Err(AppErrorView::BadRequest("skill 参数 "@ + field + " 必须是文本"@)),
            }
        },
    }
}

/// The instruction with each listed argument written into its slot, in order.
pub open spec fn formatted(template: Seq<char>, arguments: JsonView, fields: Seq<Seq<char>>) -> Result<Seq<char>, AppErrorView>
    decreases fields.len(),
{
    if fields.len() == 0 {
        Ok(template)
    } else {
        match formatted(template, arguments, fields.drop_last()) {
            Err(e) => Err(e),
            Ok(text) => match argument_text(arguments, fields.last()) {
                Err(e) => Err(e),
                Ok(value) => Ok(replaced(text, slot(fields.last()), value)),
            },
        }
    }
}

proof fn lemma_formatted_error(template: Seq<char>, arguments: JsonView, fields: Seq<Seq<char>>, k: int)
    requires
        0 <= k <= fields.len(),
        formatted(template, arguments, fields.subrange(0, k)) is Err,
    ensures
        formatted(template, arguments, fields) == formatted(template, arguments, fields.subrange(0, k)),
    decreases fields.len() - k,
{
    if k < fields.len() {
        assert(fields.drop_last().subrange(0, k) =~= fields.subrange(0, k));
        lemma_formatted_error(template, arguments, fields.drop_last(), k);
    } else {
        assert(fields.subrange(0, k) =~= fields);
    }
}

pub open spec fn strs_view(fields: Seq<&str>) -> Seq<Seq<char>> {
    Seq::new(fields.len(), |i: int| fields[i]@)
}

fn argument_value(arguments: &Json, field: &str) -> (r: Result<String, AppError>)
    ensures
        text_result(r) == argument_text(arguments@, field@),
{
    let value = match arguments.get(field) {
        Some(v) => v,
        None => {
            return Err(AppError::BadRequest(concat("skill 参数缺少 ", field)));
        },
    };
    proof {
        crate::json::lemma_view_variant(*value);
    }
    if str_eq(field, "target_min_chars") || str_eq(field, "target_max_chars") || str_eq(field, "shot_script_max_chars") {
        grouped_number(value)
    } else if str_eq(field, "episode_count") {
        match value {
            Json::Int(i) => Ok(decimal_text(*i)),
            _ => Err(AppError::BadRequest(concat3("skill 参数 ", field, " 必须是整数"))),
        }
    } else {
        match value {
            Json::Text(t) => Ok(t.clone()),
            _ => Err(AppError::BadRequest(concat3("skill 参数 ", field, " 必须是文本"))),
        }
    }
}

/// Write the listed arguments into their `{field}` slots of a skill instruction.
pub fn format_instruction(template: &str, arguments: &Json, fields: &[&str]) -> (r: Result<String, AppError>)
    ensures
        text_result(r) == formatted(template@, arguments@, strs_view(fields@)),
{
    let mut instruction = template.to_owned();
    let ghost all = strs_view(fields@);
    let mut i: usize = 0;
    while i < fields.len()
        invariant
            i <= fields.len(),
            all == strs_view(fields@),
            formatted(template@, arguments@, all.subrange(0, i as int)) == Ok::<Seq<char>, AppErrorView>(instruction@),
        decreases fields.len() - i,
    {
        let field = fields[i];
        proof {
            let next = all.subrange(0, i + 1);
            assert(next.drop_last() =~= all.subrange(0, i as int));
            assert(next.last() == field@);
        }
        let replacement = match argument_value(arguments, field) {
            Ok(v) => v,
            Err(e) => {
                proof {
                    lemma_formatted_error(template@, arguments@, all, i + 1);
                }
                return Err(e);
            },
        };
        let slot_text = concat3("{", field, "}");
        instruction = replace_all(instruction.as_str(), slot_text.as_str(), replacement.as_str());
        i += 1;
    }
    proof {
        assert(all.subrange(0, fields.len() as int) =~= all);
    }
    Ok(instruction)
}

/// The instruction the drama agent sends with a skill.
pub open spec fn instruction_for(skill: SkillView, arguments: JsonView) -> Result<Seq<char>, AppErrorView> {
    if skill.name == "premise_expander"@ {
        formatted(
            skill.instruction,
            arguments,
            seq!["episode_count"@, "target_min_chars"@, "target_max_chars"@, "shot_script_max_chars"@],
        )
    } else if skill.name == "script_decomposer"@ {
        formatted(skill.instruction, arguments, seq!["shot_script_max_chars"@])
    } else if skill.name == "shot_prompt_generator"@ && arguments.get("prompt_template_version"@) == Some(JsonView::Text("v2"@)) {
        match meta_get(skill.metadata, "prompt_template_v1"@) {
            None => Err(AppErrorView::BadRequest("shot_prompt_generator 缺少 prompt_template_v1 元数据"@)),
            Some(original) => match meta_get(skill.metadata, "prompt_template_v2"@) {
                None => Err(AppErrorView::BadRequest("shot_prompt_generator 缺少 prompt_template_v2 元数据"@)),
                Some(replacement) => Ok(replaced(skill.instruction, original, replacement)),
            },
        }
    } else if skill.name == "story_bible_generator"@ {
        formatted(skill.instruction, arguments, seq!["episode_count"@, "format_requirements"@])
    } else {
        Ok(skill.instruction)
    }
}

/// The instruction of a drama skill for the given arguments: the listed
/// arguments written into their slots, or, for the v2 shot prompt template,
/// the v1 template text replaced by the v2 text from the skill's metadata.
pub fn drama_instruction(skill: &SkillDefinition, arguments: &Json) -> (r: Result<String, AppError>)
    ensures
        text_result(r) == instruction_for(skill@, arguments@),
{
    let name = skill.name.as_str();
    if str_eq(name, "premise_expander") {
        let fields = ["episode_count", "target_min_chars", "target_max_chars", "shot_script_max_chars"];
        proof {
            assert(strs_view(fields@) =~= seq!["episode_count"@, "target_min_chars"@, "target_max_chars"@, "shot_script_max_chars"@]);
        }
        return format_instruction(skill.instruction.as_str(), arguments, &fields);
    }
    if str_eq(name, "script_decomposer") {
        let fields = ["shot_script_max_chars"];
        proof {
            assert(strs_view(fields@) =~= seq!["shot_script_max_chars"@]);
        }
        return format_instruction(skill.instruction.as_str(), arguments, &fields);
    }
    if str_eq(name, "shot_prompt_generator") {
        let v2 = match arguments.get("prompt_template_version") {
            Some(Json::Text(t)) => str_eq(t.as_str(), "v2"),
            other => {
                proof {
                    match other {
                        Some(v) => crate::json::lemma_view_variant(*v),
                        None => {},
                    }
                }
                false
            },
        };
        if v2 {
            let original = match metadata_get(&skill.metadata, "prompt_template_v1") {
                Some(v) => v,
                None => {
                    return Err(AppError::bad_request("shot_prompt_generator 缺少 prompt_template_v1 元数据"));
                },
            };
            let replacement = match metadata_get(&skill.metadata, "prompt_template_v2") {
                Some(v) => v,
                None => {
                    return Err(AppError::bad_request("shot_prompt_generator 缺少 prompt_template_v2 元数据"));
                },
            };
            return Ok(replace_all(skill.instruction.as_str(), original.as_str(), replacement.as_str()));
        }
    }
    if str_eq(name, "story_bible_generator") {
        let fields = ["episode_count", "format_requirements"];
        proof {
            assert(strs_view(fields@) =~= seq!["episode_count"@, "format_requirements"@]);
        }
        return format_instruction(skill.instruction.as_str(), arguments, &fields);
    }
    Ok(skill.instruction.clone())
}

/// The first position at or after `at` where `needle` occurs, or -1.
pub open spec fn find_from(s: Seq<char>, needle: Seq<char>, at: int) -> int
    decreases s.len() + 1 - at,
{
    if at < 0 || at + needle.len() > s.len() {
        -1
    } else if occurs_at(s, needle, at) {
        at
    } else {
        find_from(s, needle, at + 1)
    }
}

/// Position of the first `needle` in `s` at or after `from`, or none.
pub fn find_text(s: &Vec<char>, needle: &Vec<char>, from: usize) -> (r: Option<usize>)
    requires
        from <= s.len(),
    ensures
        match r {
            Some(i) => i == find_from(s@, needle@, from as int),
            None => find_from(s@, needle@, from as int) == -1,
        },
{
    let mut at = from;
    while at <= s.len() && needle.len() <= s.len() - at
        invariant
            from <= at,
            find_from(s@, needle@, from as int) == find_from(s@, needle@, at as int),
        decreases s.len() + 1 - at,
    {
        if matches_at(s, needle, at) {
            return Some(at);
        }
        proof {
            if at == s.len() {
                assert(s@.subrange(at as int, at as int) =~= needle@);
            }
        }
        at += 1;
    }
    None
}

/// A frontmatter line without the `\r` of a `\r\n` ending.
pub open spec fn line_end(line: Seq<char>) -> Seq<char> {
    if line.len() > 0 && line.last() == '\r' {
        line.drop_last()
    } else {
        line
    }
}

/// The lines of a text, as `str::lines` yields them.
pub open spec fn lines_of(s: Seq<char>) -> Seq<Seq<char>>
    decreases s.len(),
{
    if s.len() == 0 {
        Seq::empty()
    } else {
        let i = find_from(s, seq!['\n'], 0);
        if i < 0 {
            seq![s]
        } else {
            proof {
                lemma_find_from(s, seq!['\n'], 0);
            }
            seq![line_end(s.subrange(0, i))] + lines_of(s.subrange(i + 1, s.len() as int))
        }
    }
}

pub proof fn lemma_find_from(s: Seq<char>, needle: Seq<char>, at: int)
    ensures
        find_from(s, needle, at) == -1 || (at <= find_from(s, needle, at) && occurs_at(s, needle, find_from(s, needle, at))),
        find_from(s, needle, at) >= 0 ==> forall|k: int| at <= k < find_from(s, needle, at) ==> !occurs_at(s, needle, k),
        find_from(s, needle, at) == -1 && 0 <= at ==> forall|k: int| at <= k ==> !occurs_at(s, needle, k),
    decreases s.len() + 1 - at,
{
    if at >= 0 && at + needle.len() <= s.len() && !occurs_at(s, needle, at) {
        lemma_find_from(s, needle, at + 1);
    }
}

/// `s.split_once(':')`.
pub open spec fn split_colon(s: Seq<char>) -> Option<(Seq<char>, Seq<char>)> {
    let i = find_from(s, seq![':'], 0);
    if i < 0 {
        None
    } else {
        Some((s.subrange(0, i), s.subrange(i + 1, s.len() as int)))
    }
}

/// `value.trim().trim_matches('"').trim_matches('\'')`.
pub open spec fn yaml(value: Seq<char>) -> Seq<char> {
    let a = strip_end(strip_start(trimmed(value), '"'), '"');
    strip_end(strip_start(a, '\''), '\'')
}

/// Read a YAML scalar: trimmed, without surrounding quotes.
pub fn yaml_scalar(value: &str) -> (r: String)
    ensures
        r@ == yaml(value@),
{
    let a = trim(value);
    let b = trim_char(a.as_str(), '"');
    trim_char(b.as_str(), '\'')
}

/// Metadata after storing `value` under `key`.
pub open spec fn meta_insert(m: Seq<(Seq<char>, Seq<char>)>, key: Seq<char>, value: Seq<char>) -> Seq<(Seq<char>, Seq<char>)>
    decreases m.len(),
{
    if m.len() == 0 {
        seq![(key, value)]
    } else if m[0].0 == key {
        m.update(0, (key, value))
    } else {
        seq![m[0]] + meta_insert(m.drop_first(), key, value)
    }
}

fn metadata_insert(m: &mut Vec<(String, String)>, key: String, value: String)
    ensures
        pairs_view(final(m)@) == meta_insert(pairs_view(old(m)@), key@, value@),
{
    let ghost all = pairs_view(m@);
    let mut i: usize = 0;
    proof {
        assert(all.subrange(0, 0) + all.subrange(0, all.len() as int) =~= all);
    }
    while i < m.len()
        invariant
            i <= m.len(),
            m@ == old(m)@,
            all == pairs_view(m@),
            meta_insert(all, key@, value@) == all.subrange(0, i as int) + meta_insert(all.subrange(i as int, all.len() as int), key@, value@),
        decreases m.len() - i,
    {
        let ghost rest = all.subrange(i as int, all.len() as int);
        proof {
            assert(rest[0] == (m@[i as int].0@, m@[i as int].1@));
        }
        if str_eq(m[i].0.as_str(), key.as_str()) {
            let ghost kv = (key@, value@);
            m.set(i, (key, value));
            proof {
                assert(pairs_view(m@) =~= all.subrange(0, i as int) + rest.update(0, kv));
            }
            return;
        }
        proof {
            assert(rest.drop_first() =~= all.subrange(i + 1, all.len() as int));
            assert(all.subrange(0, i + 1) =~= all.subrange(0, i as int) + seq![rest[0]]);
        }
        i += 1;
    }
    let ghost kv = (key@, value@);
    m.push((key, value));
    proof {
        assert(all.subrange(i as int, all.len() as int) =~= Seq::<(Seq<char>, Seq<char>)>::empty());
        assert(all.subrange(0, i as int) =~= all);
        assert(pairs_view(m@) =~= all.push(kv));
    }
}

/// What reading the frontmatter has found so far.
pub struct FrontMatter {
    pub name: Option<Seq<char>>,
    pub description: Option<Seq<char>>,
    pub agent: Option<Seq<char>>,
    pub metadata: Seq<(Seq<char>, Seq<char>)>,
    pub in_metadata: bool,
}

/// Read one frontmatter line: `metadata:` opens the metadata block, an
/// unindented `key: value` closes it and may set `name` or `description`,
/// an indented `key: value` inside the block is metadata (`agent` among it).
pub open spec fn read_line(st: FrontMatter, line: Seq<char>) -> FrontMatter {
    if line == "metadata:"@ {
        FrontMatter { in_metadata: true, ..st }
    } else if !(line.len() > 0 && line[0] == ' ') {
        let closed = FrontMatter { in_metadata: false, ..st };
        match split_colon(line) {
            Some((key, value)) => if key == "name"@ {
                FrontMatter { name: Some(yaml(value)), ..closed }
            } else if key == "description"@ {
                FrontMatter { description: Some(yaml(value)), ..closed }
            } else {
                closed
            },
            None => closed,
        }
    } else if st.in_metadata {
        match split_colon(trimmed(line)) {
            Some((key, value)) => FrontMatter {
                metadata: meta_insert(st.metadata, key, yaml(value)),
                agent: if key == "agent"@ {
                    Some(yaml(value))
                } else {
                    st.agent
                },
                ..st
            },
            None => st,
        }
    } else {
        st
    }
}

pub open spec fn read_lines(lines: Seq<Seq<char>>) -> FrontMatter
    decreases lines.len(),
{
    if lines.len() == 0 {
        FrontMatter { name: None, description: None, agent: None, metadata: Seq::empty(), in_metadata: false }
    } else {
        read_line(read_lines(lines.drop_last()), lines.last())
    }
}

/// A required frontmatter field: present and not empty.
pub open spec fn present(v: Option<Seq<char>>) -> bool {
    match v {
        Some(t) => t.len() > 0,
        None => false,
    }
}

/// The skill a `SKILL.md` source describes, or why it is refused.
pub open spec fn parsed_skill(source: Seq<char>, path: Seq<char>) -> Result<SkillView, AppErrorView> {
    let text = replaced(source, "\r\n"@, "\n"@);
    if !crate::text::has_prefix(text, "---\n"@) {
        Err(AppErrorView::BadRequest("SKILL.md 缺少 YAML frontmatter："@ + path))
    } else {
        let rest = text.subrange("---\n"@.len() as int, text.len() as int);
        let cut = find_from(rest, "\n---\n"@, 0);
        if cut < 0 {
            Err(AppErrorView::BadRequest("SKILL.md frontmatter 未结束："@ + path))
        } else {
            let st = read_lines(lines_of(rest.subrange(0, cut)));
            let body = rest.subrange(cut + "\n---\n"@.len(), rest.len() as int);
            if !present(st.name) {
                Err(AppErrorView::BadRequest("SKILL.md 缺少 name："@ + path))
            } else if !present(st.description) {
                Err(AppErrorView::BadRequest("SKILL.md 缺少 description："@ + path))
            } else if !present(st.agent) {
                Err(AppErrorView::BadRequest("SKILL.md 缺少 metadata.agent："@ + path))
            } else {
                Ok(SkillView {
                    name: st.name->0,
                    description: st.description->0,
                    agent: st.agent->0,
                    metadata: st.metadata,
                    instruction: strip_end(body, '\n'),
                })
            }
        }
    }
}

pub open spec fn skill_result(r: Result<SkillDefinition, AppError>) -> Result<SkillView, AppErrorView> {
    match r {
        Ok(s) => Ok(s@),
        Err(e) => Err(e@),
    }
}

/// The frontmatter fields read so far.
pub struct FrontFields {
    pub name: Option<String>,
    pub description: Option<String>,
    pub agent: Option<String>,
    pub metadata: Vec<(String, String)>,
    pub in_metadata: bool,
}

impl View for FrontFields {
    type V = FrontMatter;

    open spec fn view(&self) -> FrontMatter {
        FrontMatter {
            name: crate::storage::opt_text_view(self.name),
            description: crate::storage::opt_text_view(self.description),
            agent: crate::storage::opt_text_view(self.agent),
            metadata: pairs_view(self.metadata@),
            in_metadata: self.in_metadata,
        }
    }
}

fn split_at_colon(s: &str) -> (r: Option<(String, String)>)
    ensures
        match r {
            Some((k, v)) => split_colon(s@) == Some((k@, v@)),
            None => split_colon(s@) is None,
        },
{
    let chars = chars_of(s);
    let colon = chars_of(":");
    proof {
        reveal_strlit(":");
        assert(colon@ =~= seq![':']);
    }
    match find_text(&chars, &colon, 0) {
        Some(c) => {
            proof {
                lemma_find_from(chars@, seq![':'], 0);
            }
            let key = string_of(slice_chars(&chars, 0, c).as_slice());
            let value = string_of(slice_chars(&chars, c + 1, chars.len()).as_slice());
            Some((key, value))
        },
        None => None,
    }
}

/// Read one frontmatter line into the fields found so far.
fn read_front_line(st: &mut FrontFields, line: &str)
    ensures
        final(st)@ == read_line(old(st)@, line@),
{
    let chars = chars_of(line);
    if str_eq(line, "metadata:") {
        st.in_metadata = true;
    } else if !(chars.len() > 0 && chars[0] == ' ') {
        st.in_metadata = false;
        if let Some((key, value)) = split_at_colon(line) {
            if str_eq(key.as_str(), "name") {
                st.name = Some(yaml_scalar(value.as_str()));
            } else if str_eq(key.as_str(), "description") {
                st.description = Some(yaml_scalar(value.as_str()));
            }
        }
    } else if st.in_metadata {
        let trimmed_line = trim(line);
        if let Some((key, value)) = split_at_colon(trimmed_line.as_str()) {
            let scalar = yaml_scalar(value.as_str());
            if str_eq(key.as_str(), "agent") {
                st.agent = Some(yaml_scalar(value.as_str()));
            }
            metadata_insert(&mut st.metadata, key, scalar);
        }
    }
}

/// Read a `SKILL.md` source: YAML frontmatter between `---` lines with
/// `name`, `description` and `metadata.agent`, then the instruction body.
pub fn parse_skill(source: &str, path: &str) -> (r: Result<SkillDefinition, AppError>)
    ensures
        skill_result(r) == parsed_skill(source@, path@),
{
    let text = replace_all(source, "\r\n", "\n");
    let chars = chars_of(text.as_str());
    let opening = chars_of("---\n");
    if !matches_at(&chars, &opening, 0) {
        proof {
            if crate::text::has_prefix(text@, "---\n"@) {
                assert(text@.subrange(0, "---\n"@.len() as int) =~= chars@.subrange(0, opening@.len() as int));
            }
        }
        return Err(AppError::BadRequest(concat("SKILL.md 缺少 YAML frontmatter：", path)));
    }
    proof {
        assert(chars@.subrange(0, opening@.len() as int) == "---\n"@);
    }
    let rest = slice_chars(&chars, opening.len(), chars.len());
    let closing = chars_of("\n---\n");
    let cut = match find_text(&rest, &closing, 0) {
        Some(c) => c,
        None => {
            return Err(AppError::BadRequest(concat("SKILL.md frontmatter 未结束：", path)));
        },
    };
    proof {
        lemma_find_from(rest@, closing@, 0);
    }
    let front = slice_chars(&rest, 0, cut);
    let body = slice_chars(&rest, cut + closing.len(), rest.len());
    let mut st = FrontFields { name: None, description: None, agent: None, metadata: Vec::new(), in_metadata: false };
    let ghost mut done: Seq<Seq<char>> = Seq::empty();
    let newline = chars_of("\n");
    proof {
        reveal_strlit("\n");
        assert(newline@ =~= seq!['\n']);
        assert(pairs_view(st.metadata@) =~= Seq::<(Seq<char>, Seq<char>)>::empty());
    }
    let mut tail = front.clone();
    proof {
        assert(tail@ == front@);
    }
    while tail.len() > 0
        invariant
            newline@ == seq!['\n'],
            lines_of(front@) == done + lines_of(tail@),
            st@ == read_lines(done),
        decreases tail.len(),
    {
        let end = find_text(&tail, &newline, 0);
        proof {
            lemma_find_from(tail@, seq!['\n'], 0);
        }
        let (line_chars, next) = match end {
            Some(e) => {
                let mut piece = slice_chars(&tail, 0, e);
                if piece.len() > 0 && piece[piece.len() - 1] == '\r' {
                    piece.pop();
                }
                (piece, slice_chars(&tail, e + 1, tail.len()))
            },
            None => (tail.clone(), Vec::new()),
        };
        let line = string_of(line_chars.as_slice());
        proof {
            match end {
                Some(e) => {
                    assert(tail@.subrange(0, e as int) == tail@.subrange(0, e as int));
                    assert(lines_of(tail@) == seq![line_end(tail@.subrange(0, e as int))] + lines_of(next@));
                    assert(line@ =~= line_end(tail@.subrange(0, e as int)));
                },
                None => {
                    assert(lines_of(tail@) == seq![tail@]);
                    assert(line@ =~= tail@);
                    assert(lines_of(next@) =~= Seq::<Seq<char>>::empty());
                },
            }
        }
        read_front_line(&mut st, line.as_str());
        proof {
            let pushed = done.push(line@);
            assert(pushed.drop_last() =~= done);
            assert(done + lines_of(tail@) =~= pushed + lines_of(next@));
            done = pushed;
        }
        tail = next;
    }
    proof {
        assert(lines_of(tail@) =~= Seq::<Seq<char>>::empty());
        assert(done + Seq::<Seq<char>>::empty() =~= done);
        assert(rest@ =~= text@.subrange("---\n"@.len() as int, text@.len() as int));
        assert("\n---\n"@.len() == closing.len());
    }
    let FrontFields { name, description, agent, metadata, in_metadata: _ } = st;
    let name = match name {
        Some(n) => if chars_of(n.as_str()).len() > 0 {
            n
        } else {
            return Err(AppError::BadRequest(concat("SKILL.md 缺少 name：", path)));
        },
        None => {
            return Err(AppError::BadRequest(concat("SKILL.md 缺少 name：", path)));
        },
    };
    let description = match description {
        Some(n) => if chars_of(n.as_str()).len() > 0 {
            n
        } else {
            return Err(AppError::BadRequest(concat("SKILL.md 缺少 description：", path)));
        },
        None => {
            return Err(AppError::BadRequest(concat("SKILL.md 缺少 description：", path)));
        },
    };
    let agent = match agent {
        Some(n) => if chars_of(n.as_str()).len() > 0 {
            n
        } else {
            return Err(AppError::BadRequest(concat("SKILL.md 缺少 metadata.agent：", path)));
        },
        None => {
            return Err(AppError::BadRequest(concat("SKILL.md 缺少 metadata.agent：", path)));
        },
    };
    let body_text = string_of(body.as_slice());
    let instruction = trim_end_char(body_text.as_str(), '\n');
    Ok(SkillDefinition { name, description, agent, metadata, instruction })
}

/// Whether `a` sorts before `b`, character by character (the order of a `BTreeMap<String, _>`).
pub open spec fn name_before(a: Seq<char>, b: Seq<char>) -> bool
    decreases a.len(),
{
    if a.len() == 0 {
        b.len() > 0
    } else if b.len() == 0 {
        false
    } else if a[0] != b[0] {
        (a[0] as u32) < (b[0] as u32)
    } else {
        name_before(a.drop_first(), b.drop_first())
    }
}

/// Whether `a` sorts before `b`.
pub fn sorts_before(a: &str, b: &str) -> (r: bool)
    ensures
        r == name_before(a@, b@),
{
    let x = chars_of(a);
    let y = chars_of(b);
    let mut i: usize = 0;
    proof {
        assert(x@.subrange(0, x.len() as int) =~= x@);
        assert(y@.subrange(0, y.len() as int) =~= y@);
    }
    while i < x.len() && i < y.len() && x[i] == y[i]
        invariant
            i <= x.len(),
            i <= y.len(),
            x@ == a@,
            y@ == b@,
            name_before(a@, b@) == name_before(x@.subrange(i as int, x.len() as int), y@.subrange(i as int, y.len() as int)),
        decreases x.len() - i,
    {
        proof {
            assert(x@.subrange(i as int, x.len() as int).drop_first() =~= x@.subrange(i + 1, x.len() as int));
            assert(y@.subrange(i as int, y.len() as int).drop_first() =~= y@.subrange(i + 1, y.len() as int));
        }
        i += 1;
    }
    if i == x.len() {
        i < y.len()
    } else if i == y.len() {
        false
    } else {
        (x[i] as u32) < (y[i] as u32)
    }
}

/// The skills of a registry, sorted by name, each name once.
#[derive(Debug)]
pub struct SkillRegistry {
    pub skills: Vec<SkillDefinition>,
}

pub open spec fn refs_view(v: Seq<&SkillDefinition>) -> Seq<SkillView> {
    Seq::new(v.len(), |i: int| v[i]@)
}

pub open spec fn skills_view(v: Seq<SkillDefinition>) -> Seq<SkillView> {
    Seq::new(v.len(), |i: int| v[i]@)
}

/// Where a skill named `name` goes among sorted skills: before the first one that does not sort before it.
pub open spec fn insert_pos(skills: Seq<SkillView>, name: Seq<char>) -> int
    decreases skills.len(),
{
    if skills.len() == 0 {
        0
    } else if !name_before(skills[0].name, name) {
        0
    } else {
        1 + insert_pos(skills.drop_first(), name)
    }
}

/// The registry after adding one parsed skill, refused when its name is taken.
pub open spec fn registry_add(skills: Seq<SkillView>, skill: SkillView, path: Seq<char>) -> Result<Seq<SkillView>, AppErrorView> {
    let p = insert_pos(skills, skill.name);
    if 0 <= p < skills.len() && skills[p].name == skill.name {
        Err(AppErrorView::BadRequest("skill 名称重复："@ + path))
    } else {
        Ok(skills.insert(p, skill))
    }
}

/// The registry that a list of `(path, source)` skill files builds, in order.
pub open spec fn registry_from(entries: Seq<(Seq<char>, Seq<char>)>) -> Result<Seq<SkillView>, AppErrorView>
    decreases entries.len(),
{
    if entries.len() == 0 {
        Ok(Seq::empty())
    } else {
        match registry_from(entries.drop_last()) {
            Err(e) => Err(e),
            Ok(skills) => match parsed_skill(entries.last().1, entries.last().0) {
                Err(e) => Err(e),
                Ok(skill) => registry_add(skills, skill, entries.last().0),
            },
        }
    }
}

proof fn lemma_registry_error(entries: Seq<(Seq<char>, Seq<char>)>, k: int)
    requires
        0 <= k <= entries.len(),
        registry_from(entries.subrange(0, k)) is Err,
    ensures
        registry_from(entries) == registry_from(entries.subrange(0, k)),
    decreases entries.len() - k,
{
    if k < entries.len() {
        assert(entries.drop_last().subrange(0, k) =~= entries.subrange(0, k));
        lemma_registry_error(entries.drop_last(), k);
    } else {
        assert(entries.subrange(0, k) =~= entries);
    }
}

/// The first skill with the given name.
pub open spec fn skill_named(skills: Seq<SkillView>, name: Seq<char>) -> Option<SkillView>
    decreases skills.len(),
{
    if skills.len() == 0 {
        None
    } else if skills[0].name == name {
        Some(skills[0])
    } else {
        skill_named(skills.drop_first(), name)
    }
}

/// The skills of one agent, in registry order.
pub open spec fn agent_skills(skills: Seq<SkillView>, agent: Seq<char>) -> Seq<SkillView>
    decreases skills.len(),
{
    if skills.len() == 0 {
        Seq::empty()
    } else if skills.last().agent == agent {
        agent_skills(skills.drop_last(), agent).push(skills.last())
    } else {
        agent_skills(skills.drop_last(), agent)
    }
}

/// What looking up a skill of an agent answers.
pub open spec fn skill_for_agent(skills: Seq<SkillView>, name: Seq<char>, agent: Seq<char>) -> Result<SkillView, AppErrorView> {
    match skill_named(skills, name) {
        None => Err(AppErrorView::BadRequest("未知的 "@ + agent + " skill："@ + name)),
        Some(skill) => if skill.agent == agent {
            Ok(skill)
        } else {
            Err(AppErrorView::BadRequest("skill "@ + name + " 不属于 "@ + agent + " agent"@))
        },
    }
}

pub open spec fn entries_view(v: Seq<(String, String)>) -> Seq<(Seq<char>, Seq<char>)> {
    pairs_view(v)
}

/// One line of the skill list in the drama agent's system text.
pub open spec fn skill_line(skill: SkillView) -> Seq<char> {
    "- "@ + skill.name + ": "@ + skill.description
}

/// Skill lines joined with newlines.
pub open spec fn skill_lines(skills: Seq<SkillView>) -> Seq<char>
    decreases skills.len(),
{
    if skills.len() == 0 {
        Seq::empty()
    } else if skills.len() == 1 {
        skill_line(skills[0])
    } else {
        skill_lines(skills.drop_last()) + "\n"@ + skill_line(skills.last())
    }
}

/// The system text of the drama agent.
pub open spec fn drama_system_text(skills: Seq<SkillView>) -> Seq<char> {
    "You are the drama domain agent. Use the available skills when a task matches them.\nAvailable skills:\n"@
        + skill_lines(agent_skills(skills, "drama"@))
}

impl SkillRegistry {
    /// Build the registry from `(path, source)` skill files: each is parsed
    /// and added in name order; a name seen twice is refused.
    pub fn load_embedded(entries: &Vec<(String, String)>) -> (r: Result<SkillRegistry, AppError>)
        ensures
            match r {
                Ok(reg) => registry_from(pairs_view(entries@)) == Ok::<Seq<SkillView>, AppErrorView>(skills_view(reg.skills@)),
                Err(e) => registry_from(pairs_view(entries@)) == Err::<Seq<SkillView>, AppErrorView>(e@),
            },
    {
        let ghost all = pairs_view(entries@);
        let mut skills: Vec<SkillDefinition> = Vec::new();
        let mut i: usize = 0;
        proof {
            assert(all.subrange(0, 0) =~= Seq::<(Seq<char>, Seq<char>)>::empty());
            assert(skills_view(skills@) =~= Seq::<SkillView>::empty());
        }
        while i < entries.len()
            invariant
                i <= entries.len(),
                all == pairs_view(entries@),
                registry_from(all.subrange(0, i as int)) == Ok::<Seq<SkillView>, AppErrorView>(skills_view(skills@)),
            decreases entries.len() - i,
        {
            let ghost prefix = all.subrange(0, i + 1);
            proof {
                assert(prefix.drop_last() =~= all.subrange(0, i as int));
                assert(prefix.last() == (entries@[i as int].0@, entries@[i as int].1@));
            }
            let skill = match parse_skill(entries[i].1.as_str(), entries[i].0.as_str()) {
                Ok(s) => s,
                Err(e) => {
                    proof {
                        lemma_registry_error(all, i + 1);
                        assert(all.subrange(0, all.len() as int) =~= all);
                    }
                    return Err(e);
                },
            };
            let ghost sv = skills_view(skills@);
            let mut p: usize = 0;
            proof {
                assert(sv.subrange(0, sv.len() as int) =~= sv);
            }
            while p < skills.len() && sorts_before(skills[p].name.as_str(), skill.name.as_str())
                invariant
                    p <= skills.len(),
                    sv == skills_view(skills@),
                    insert_pos(sv, skill.name@) == p + insert_pos(sv.subrange(p as int, sv.len() as int), skill.name@),
                decreases skills.len() - p,
            {
                proof {
                    assert(sv.subrange(p as int, sv.len() as int).drop_first() =~= sv.subrange(p + 1, sv.len() as int));
                }
                p += 1;
            }
            proof {
                if p < skills.len() {
                    assert(insert_pos(sv.subrange(p as int, sv.len() as int), skill.name@) == 0);
                } else {
                    assert(sv.subrange(p as int, sv.len() as int) =~= Seq::<SkillView>::empty());
                }
            }
            if p < skills.len() && str_eq(skills[p].name.as_str(), skill.name.as_str()) {
                proof {
                    lemma_registry_error(all, i + 1);
                    assert(all.subrange(0, all.len() as int) =~= all);
                }
                return Err(AppError::BadRequest(concat("skill 名称重复：", entries[i].0.as_str())));
            }
            let ghost skv = skill@;
            skills.insert(p, skill);
            proof {
                assert(skills_view(skills@) =~= sv.insert(p as int, skv));
            }
            i += 1;
        }
        proof {
            assert(all.subrange(0, entries.len() as int) =~= all);
        }
        Ok(SkillRegistry { skills })
    }

    /// The skill named `name`, when it belongs to `agent`.
    pub fn named_for_agent(&self, name: &str, agent: &str) -> (r: Result<&SkillDefinition, AppError>)
        ensures
            match r {
                Ok(s) => skill_for_agent(skills_view(self.skills@), name@, agent@) == Ok::<SkillView, AppErrorView>(s@),
                Err(e) => skill_for_agent(skills_view(self.skills@), name@, agent@) == Err::<SkillView, AppErrorView>(e@),
            },
    {
        let ghost sv = skills_view(self.skills@);
        let mut i: usize = 0;
        proof {
            assert(sv.subrange(0, sv.len() as int) =~= sv);
        }
        while i < self.skills.len()
            invariant
                i <= self.skills.len(),
                sv == skills_view(self.skills@),
                skill_named(sv, name@) == skill_named(sv.subrange(i as int, sv.len() as int), name@),
            decreases self.skills.len() - i,
        {
            let ghost rest = sv.subrange(i as int, sv.len() as int);
            proof {
                assert(rest[0] == self.skills@[i as int]@);
            }
            if str_eq(self.skills[i].name.as_str(), name) {
                let skill = &self.skills[i];
                if str_eq(skill.agent.as_str(), agent) {
                    return Ok(skill);
                } else {
                    let a = concat3("skill ", name, " 不属于 ");
                    return Err(AppError::BadRequest(concat3(a.as_str(), agent, " agent")));
                }
            }
            proof {
                assert(rest.drop_first() =~= sv.subrange(i + 1, sv.len() as int));
            }
            i += 1;
        }
        proof {
            assert(sv.subrange(i as int, sv.len() as int) =~= Seq::<SkillView>::empty());
        }
        let a = concat3("未知的 ", agent, " skill：");
        Err(AppError::BadRequest(concat(a.as_str(), name)))
    }

    /// The skills of one agent, in name order.
    pub fn for_agent(&self, agent: &str) -> (r: Vec<&SkillDefinition>)
        ensures
            refs_view(r@) == agent_skills(skills_view(self.skills@), agent@),
    {
        let ghost sv = skills_view(self.skills@);
        let mut out: Vec<&SkillDefinition> = Vec::new();
        let mut i: usize = 0;
        proof {
            assert(sv.subrange(0, 0) =~= Seq::<SkillView>::empty());
            assert(refs_view(out@) =~= Seq::<SkillView>::empty());
        }
        while i < self.skills.len()
            invariant
                i <= self.skills.len(),
                sv == skills_view(self.skills@),
                refs_view(out@) == agent_skills(sv.subrange(0, i as int), agent@),
            decreases self.skills.len() - i,
        {
            let ghost before = refs_view(out@);
            proof {
                let next = sv.subrange(0, i + 1);
                assert(next.drop_last() =~= sv.subrange(0, i as int));
                assert(next.last() == self.skills@[i as int]@);
            }
            if str_eq(self.skills[i].agent.as_str(), agent) {
                out.push(&self.skills[i]);
                proof {
                    assert(refs_view(out@) =~= before.push(self.skills@[i as int]@));
                }
            }
            i += 1;
        }
        proof {
            assert(sv.subrange(0, self.skills.len() as int) =~= sv);
        }
        out
    }

    /// The system text the drama agent sends before each request: a fixed
    /// introduction and one `- name: description` line per drama skill.
    pub fn drama_agent_system(&self) -> (r: String)
        ensures
            r@ == drama_system_text(skills_view(self.skills@)),
    {
        let skills = self.for_agent("drama");
        let ghost sv = refs_view(skills@);
        let mut list: Vec<char> = Vec::new();
        let mut i: usize = 0;
        proof {
            assert(sv.subrange(0, 0) =~= Seq::<SkillView>::empty());
        }
        while i < skills.len()
            invariant
                i <= skills.len(),
                sv == refs_view(skills@),
                list@ == skill_lines(sv.subrange(0, i as int)),
            decreases skills.len() - i,
        {
            let a = concat3("- ", skills[i].name.as_str(), ": ");
            let line = concat(a.as_str(), skills[i].description.as_str());
            let line_chars = chars_of(line.as_str());
            proof {
                let next = sv.subrange(0, i + 1);
                assert(next.drop_last() =~= sv.subrange(0, i as int));
                assert(next.last() == skills@[i as int]@);
                reveal_strlit("\n");
            }
            if i > 0 {
                list.push('\n');
            }
            push_all(&mut list, &line_chars);
            proof {
                let next = sv.subrange(0, i + 1);
                if i == 0 {
                    assert(next.len() == 1);
                    assert(next[0] == skills@[0]@);
                    assert(list@ =~= skill_line(next[0]));
                } else {
                    assert("\n"@ =~= seq!['\n']);
                    assert(list@ =~= skill_lines(next.drop_last()) + "\n"@ + skill_line(next.last()));
                }
            }
            i += 1;
        }
        proof {
            assert(sv.subrange(0, skills.len() as int) =~= sv);
        }
        let text = string_of(list.as_slice());
        concat(
            "You are the drama domain agent. Use the available skills when a task matches them.\nAvailable skills:\n",
            text.as_str(),
        )
    }

    /// The envelope a drama skill is executed with: the skill name, the
    /// `drama` agent, the instruction for these arguments, and the arguments.
    pub fn drama_skill(&self, name: &str, arguments: &Json) -> (r: Result<Json, AppError>)
        ensures
            match r {
                Ok(j) => match skill_for_agent(skills_view(self.skills@), name@, "drama"@) {
                    Ok(skill) => match instruction_for(skill, arguments@) {
                        Ok(text) => j@ == JsonView::Object(seq![
                            ("agent"@, JsonView::Text("drama"@)),
                            ("arguments"@, arguments@),
                            ("instruction"@, JsonView::Text(text)),
                            ("skill"@, JsonView::Text(name@)),
                        ]),
                        Err(_) => false,
                    },
                    Err(_) => false,
                },
                Err(e) => match skill_for_agent(skills_view(self.skills@), name@, "drama"@) {
                    Ok(skill) => instruction_for(skill, arguments@) == Err::<Seq<char>, AppErrorView>(e@),
                    Err(f) => f == e@,
                },
            },
    {
        let skill = match self.named_for_agent(name, "drama") {
            Ok(s) => s,
            Err(e) => {
                return Err(e);
            },
        };
        let instruction = match drama_instruction(skill, arguments) {
            Ok(t) => t,
            Err(e) => {
                return Err(e);
            },
        };
        let mut entries: Vec<(String, Json)> = Vec::new();
        entries.push(("agent".to_owned(), Json::Text("drama".to_owned())));
        entries.push(("arguments".to_owned(), crate::json::duplicate(arguments)));
        entries.push(("instruction".to_owned(), Json::Text(instruction)));
        entries.push(("skill".to_owned(), Json::Text(name.to_owned())));
        proof {
            crate::json::lemma_view_entries(entries@);
            assert(crate::json::view_entries(entries@) =~= seq![
                ("agent"@, JsonView::Text("drama"@)),
                ("arguments"@, arguments@),
                ("instruction"@, JsonView::Text(instruction@)),
                ("skill"@, JsonView::Text(name@)),
            ]);
        }
        let r = Json::Object(entries);
        proof {
            assert(r@ == JsonView::Object(crate::json::view_entries(entries@)));
        }
        Ok(r)
    }

    /// The envelope the interactive-game branch planner skill is executed
    /// with: the skill's name and agent, its instruction as written, and the
    /// arguments.
    pub fn game_branch_skill(&self, arguments: &Json) -> (r: Result<Json, AppError>)
        ensures
            match skill_for_agent(skills_view(self.skills@), "interactive_branch_planner"@, "interactive_game"@) {
                Ok(skill) => r matches Ok(j) && j@ == JsonView::Object(seq![
                    ("agent"@, JsonView::Text(skill.agent)),
                    ("arguments"@, arguments@),
                    ("instruction"@, JsonView::Text(skill.instruction)),
                    ("skill"@, JsonView::Text(skill.name)),
                ]),
                Err(e) => r matches Err(f) && f@ == e,
            },
    {
        let skill = self.named_for_agent("interactive_branch_planner", "interactive_game")?;
        let entries: Vec<(String, Json)> = vec![
            ("agent".to_owned(), Json::Text(skill.agent.clone())),
            ("arguments".to_owned(), crate::json::duplicate(arguments)),
            ("instruction".to_owned(), Json::Text(skill.instruction.clone())),
            ("skill".to_owned(), Json::Text(skill.name.clone())),
        ];
        proof {
            crate::json::lemma_view_entries(entries@);
            assert(crate::json::view_entries(entries@) =~= seq![
                ("agent"@, JsonView::Text(skill@.agent)),
                ("arguments"@, arguments@),
                ("instruction"@, JsonView::Text(skill@.instruction)),
                ("skill"@, JsonView::Text(skill@.name)),
            ]);
        }
        Ok(Json::Object(entries))
    }
}

proof fn lemma_name_before_irreflexive(a: Seq<char>)
    ensures
        !name_before(a, a),
    decreases a.len(),
{
    if a.len() > 0 {
        lemma_name_before_irreflexive(a.drop_first());
    }
}

proof fn lemma_name_before_transitive(a: Seq<char>, b: Seq<char>, c: Seq<char>)
    requires
        name_before(a, b),
        name_before(b, c),
    ensures
        name_before(a, c),
    decreases a.len(),
{
    if a.len() > 0 && b.len() > 0 && c.len() > 0 && a[0] == b[0] && b[0] == c[0] {
        lemma_name_before_transitive(a.drop_first(), b.drop_first(), c.drop_first());
    }
}

proof fn lemma_name_before_total(a: Seq<char>, b: Seq<char>)
    requires
        a != b,
    ensures
        name_before(a, b) || name_before(b, a),
    decreases a.len(),
{
    if a.len() > 0 && b.len() > 0 && a[0] == b[0] {
        if a.drop_first() == b.drop_first() {
            assert(a =~= seq![a[0]] + a.drop_first());
            assert(b =~= seq![b[0]] + b.drop_first());
        }
        lemma_name_before_total(a.drop_first(), b.drop_first());
    } else if a.len() > 0 && b.len() > 0 {
        vstd::utf8::char_u32_cast(a[0], a[0] as u32);
        vstd::utf8::char_u32_cast(b[0], b[0] as u32);
        assert((a[0] as u32) != (b[0] as u32));
    } else if a.len() == 0 && b.len() == 0 {
        assert(a =~= b);
    }
}

/// Skills strictly ordered by name: every name once, in name order.
pub open spec fn sorted_by_name(skills: Seq<SkillView>) -> bool {
    forall|i: int, j: int| 0 <= i < j < skills.len() ==> name_before(skills[i].name, skills[j].name)
}

proof fn lemma_insert_pos(skills: Seq<SkillView>, name: Seq<char>)
    ensures
        0 <= insert_pos(skills, name) <= skills.len(),
        forall|j: int| 0 <= j < insert_pos(skills, name) ==> name_before(#[trigger] skills[j].name, name),
        insert_pos(skills, name) < skills.len() ==> !name_before(skills[insert_pos(skills, name)].name, name),
    decreases skills.len(),
{
    if skills.len() > 0 && name_before(skills[0].name, name) {
        let rest = skills.drop_first();
        lemma_insert_pos(rest, name);
        assert forall|j: int| 0 <= j < insert_pos(skills, name) implies name_before(#[trigger] skills[j].name, name) by {
            if j > 0 {
                assert(skills[j] == rest[j - 1]);
            }
        }
        if insert_pos(skills, name) < skills.len() {
            assert(skills[insert_pos(skills, name)] == rest[insert_pos(rest, name)]);
        }
    }
}

proof fn lemma_registry_add_sorted(skills: Seq<SkillView>, skill: SkillView, path: Seq<char>)
    requires
        sorted_by_name(skills),
        registry_add(skills, skill, path) is Ok,
    ensures
        sorted_by_name(registry_add(skills, skill, path)->Ok_0),
{
    let p = insert_pos(skills, skill.name);
    lemma_insert_pos(skills, skill.name);
    let t = skills.insert(p, skill);
    assert(registry_add(skills, skill, path)->Ok_0 == t);
    if p < skills.len() {
        assert(skills[p].name != skill.name);
        lemma_name_before_total(skills[p].name, skill.name);
    }
    assert forall|i: int, j: int| 0 <= i < j < t.len() implies name_before(t[i].name, t[j].name) by {
        if j < p {
            assert(t[i] == skills[i] && t[j] == skills[j]);
        } else if j == p {
            assert(t[j] == skill);
            assert(t[i] == skills[i]);
        } else if i == p {
            assert(t[i] == skill);
            assert(t[j] == skills[j - 1]);
            if j - 1 > p {
                lemma_name_before_transitive(skill.name, skills[p].name, skills[j - 1].name);
            }
        } else if i < p {
            assert(t[i] == skills[i] && t[j] == skills[j - 1]);
        } else {
            assert(t[i] == skills[i - 1] && t[j] == skills[j - 1]);
        }
    }
}

/// A registry built from skill files names every skill once, in name order.
pub proof fn lemma_registry_sorted_by_name(entries: Seq<(Seq<char>, Seq<char>)>)
    requires
        registry_from(entries) is Ok,
    ensures
        sorted_by_name(registry_from(entries)->Ok_0),
    decreases entries.len(),
{
    if entries.len() > 0 {
        lemma_registry_sorted_by_name(entries.drop_last());
        let skills = registry_from(entries.drop_last())->Ok_0;
        let skill = parsed_skill(entries.last().1, entries.last().0)->Ok_0;
        lemma_registry_add_sorted(skills, skill, entries.last().0);
    }
}

} // verus!
