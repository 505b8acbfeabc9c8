//! Rendering of the system prompt.

use vstd::prelude::*;
use crate::domain::config::{environment_xml, AgentConfig, ResolvedSessionConfig};
use crate::domain::memory::{Memory, MemoryView};
use crate::application::memory_manager::memories_view;
use crate::domain::plugin::PluginDescriptor;
use crate::domain::skill::SkillDefinition;
use crate::text::{concat3, is_infix, join, join_strings, lemma_join_holds_part, trim, trim_str};

verus! {

/// A rendered system prompt.
#[derive(Debug, Clone, PartialEq, Eq)]
pub struct RenderedPrompt {
    pub system_prompt: String,
}

/// Renders system prompts.
pub struct PromptBuilder;

/// The sentence that introduces the skill list.
pub const SKILLS_INTRO: &'static str = "The following skills can be suggested to the user, but they are only injected after the user explicitly types `/skill_name`.";

/// The trimmed texts that are not blank, in order.
pub open spec fn nonblank_trimmed(s: Seq<Seq<char>>) -> Seq<Seq<char>>
    decreases s.len(),
{
    if s.len() == 0 {
        Seq::empty()
    } else {
        nonblank_trimmed(s.drop_last()) + if trim(s.last()).len() > 0 {
            seq![trim(s.last())]
        } else {
            Seq::empty()
        }
    }
}

/// The list lines of the skills offered for implicit invocation: `- /name: description`.
pub open spec fn skill_lines(skills: Seq<SkillDefinition>) -> Seq<Seq<char>>
    decreases skills.len(),
{
    if skills.len() == 0 {
        Seq::empty()
    } else {
        skill_lines(skills.drop_last()) + if skills.last().allow_implicit_invocation {
            seq!["- /"@ + skills.last().name@ + ": "@ + skills.last().description@]
        } else {
            Seq::empty()
        }
    }
}

/// The list lines of the plugins: `- id: description`.
pub open spec fn plugin_lines(plugins: Seq<PluginDescriptor>) -> Seq<Seq<char>> {
    plugins.map_values(|p: PluginDescriptor| "- "@ + p.id@ + ": "@ + p.description@)
}

/// The list lines of the memories: `- id: content`.
pub open spec fn memory_lines(memories: Seq<MemoryView>) -> Seq<Seq<char>> {
    memories.map_values(|m: MemoryView| "- "@ + m.id@ + ": "@ + m.content@)
}

/// A section made of a heading line and list lines, present only when there are lines.
pub open spec fn list_section(head: Seq<Seq<char>>, lines: Seq<Seq<char>>) -> Seq<Seq<char>> {
    if lines.len() > 0 {
        seq![join(head + lines, "\n"@)]
    } else {
        Seq::empty()
    }
}

/// The sections of the system prompt, in order.
pub open spec fn prompt_sections(
    agent_config: AgentConfig,
    resolved: ResolvedSessionConfig,
    skills: Seq<SkillDefinition>,
    plugins: Seq<PluginDescriptor>,
    memories: Seq<MemoryView>,
    dynamic_sections: Seq<Seq<char>>,
) -> Seq<Seq<char>> {
    leading_sections(agent_config, resolved) + list_section(seq!["## Skills"@, SKILLS_INTRO@], skill_lines(skills)) + list_section(
        seq!["## Active Plugins"@],
        plugin_lines(plugins),
    ) + list_section(seq!["## Memories"@], memory_lines(memories)) + (match agent_config.environment_context {
        Some(e) => seq![environment_xml(e)],
        None => Seq::empty(),
    }) + nonblank_trimmed(dynamic_sections)
}

/// The system prompt: its sections separated by blank lines.
pub open spec fn rendered_system_prompt(
    agent_config: AgentConfig,
    resolved: ResolvedSessionConfig,
    skills: Seq<SkillDefinition>,
    plugins: Seq<PluginDescriptor>,
    memories: Seq<MemoryView>,
    dynamic_sections: Seq<Seq<char>>,
) -> Seq<char> {
    join(prompt_sections(agent_config, resolved, skills, plugins, memories, dynamic_sections), "\n\n"@)
}

fn nonblank_trimmed_strings(v: &Vec<String>) -> (r: Vec<String>)
    ensures
        r.deep_view() == nonblank_trimmed(v.deep_view()),
{
    let mut r: Vec<String> = Vec::new();
    let mut i: usize = 0;
    while i < v.len()
        invariant
            i <= v.len(),
            r.deep_view() == nonblank_trimmed(v.deep_view().take(i as int)),
        decreases v.len() - i,
    {
        assert(v.deep_view().take(i + 1).drop_last() =~= v.deep_view().take(i as int));
        let t = trim_str(v[i].as_str());
        let ghost before = r.deep_view();
        if !t.as_str().is_empty() {
            r.push(t);
            assert(r.deep_view() =~= before.push(trim(v.deep_view()[i as int])));
        } else {
            assert(before + Seq::<Seq<char>>::empty() =~= before);
        }
        assert(nonblank_trimmed(v.deep_view().take(i + 1)) =~= before + if trim(v.deep_view()[i as int]).len() > 0 {
            seq![trim(v.deep_view()[i as int])]
        } else {
            Seq::<Seq<char>>::empty()
        });
        i += 1;
    }
    assert(v.deep_view().take(i as int) =~= v.deep_view());
    r
}

fn push_section(sections: &mut Vec<String>, s: String)
    ensures
        final(sections).deep_view() == old(sections).deep_view().push(s@),
{
    let ghost before = sections.deep_view();
    sections.push(s);
    assert(sections.deep_view() =~= before.push(s@));
}

/// `a + b + c + d` as a new string.
fn concat4(a: &str, b: &str, c: &str, d: &str) -> (r: String)
    ensures
        r@ == a@ + b@ + c@ + d@,
{
    let mut r = concat3(a, b, c);
    r.append(d);
    r
}

/// The section made of the heading lines and the list lines, if there are list lines.
fn push_list_section(sections: &mut Vec<String>, head: Vec<String>, lines: Vec<String>)
    ensures
        final(sections).deep_view() == old(sections).deep_view() + list_section(head.deep_view(), lines.deep_view()),
{
    let ghost before = sections.deep_view();
    if lines.len() > 0 {
        let mut all = head;
        let ghost hv = all.deep_view();
        let mut i: usize = 0;
        while i < lines.len()
            invariant
                i <= lines.len(),
                all.deep_view() == hv + lines.deep_view().take(i as int),
            decreases lines.len() - i,
        {
            let ghost b = all.deep_view();
            all.push(lines[i].clone());
            assert(all.deep_view() =~= b.push(lines.deep_view()[i as int]));
            assert(lines.deep_view().take(i + 1) =~= lines.deep_view().take(i as int).push(lines.deep_view()[i as int]));
            i += 1;
        }
        assert(lines.deep_view().take(i as int) =~= lines.deep_view());
        push_section(sections, join_strings(&all, "\n"));
        assert(sections.deep_view() =~= before + list_section(hv, lines.deep_view()));
    } else {
        assert(sections.deep_view() =~= before + list_section(head.deep_view(), lines.deep_view()));
    }
}

fn append_sections(sections: &mut Vec<String>, more: Vec<String>)
    ensures
        final(sections).deep_view() == old(sections).deep_view() + more.deep_view(),
{
    let ghost start = sections.deep_view();
    let mut i: usize = 0;
    while i < more.len()
        invariant
            i <= more.len(),
            sections.deep_view() == start + more.deep_view().take(i as int),
        decreases more.len() - i,
    {
        let ghost b = sections.deep_view();
        sections.push(more[i].clone());
        assert(sections.deep_view() =~= b.push(more.deep_view()[i as int]));
        assert(more.deep_view().take(i + 1) =~= more.deep_view().take(i as int).push(more.deep_view()[i as int]));
        i += 1;
    }
    assert(more.deep_view().take(i as int) =~= more.deep_view());
}

/// The leading sections: instructions, session override and personality.
pub open spec fn leading_sections(agent_config: AgentConfig, resolved: ResolvedSessionConfig) -> Seq<Seq<char>> {
    let instructions = nonblank_trimmed(agent_config.system_instructions.deep_view());
    (if instructions.len() > 0 {
        seq!["<system_instructions>\n"@ + join(instructions, "\n\n"@) + "\n</system_instructions>"@]
    } else {
        Seq::empty()
    }) + (match resolved.pinned.system_prompt_override {
        Some(o) => seq!["<system_prompt_override>\n"@ + o@ + "\n</system_prompt_override>"@],
        None => Seq::empty(),
    }) + (match agent_config.personality {
        Some(p) => if trim(p@).len() > 0 {
            seq!["<personality_spec>\n"@ + trim(p@) + "\n</personality_spec>"@]
        } else {
            Seq::empty()
        },
        None => Seq::empty(),
    })
}

fn leading_sections_of(agent_config: &AgentConfig, resolved_config: &ResolvedSessionConfig) -> (r: Vec<String>)
    ensures
        r.deep_view() == leading_sections(*agent_config, *resolved_config),
{
    let mut sections: Vec<String> = Vec::new();
    let instructions = nonblank_trimmed_strings(&agent_config.system_instructions);
    if instructions.len() > 0 {
        push_section(&mut sections, concat3(
            "<system_instructions>\n",
            join_strings(&instructions, "\n\n").as_str(),
            "\n</system_instructions>",
        ));
    }
    if let Some(override_prompt) = &resolved_config.pinned.system_prompt_override {
        push_section(&mut sections, concat3(
            "<system_prompt_override>\n",
            override_prompt.as_str(),
            "\n</system_prompt_override>",
        ));
    }
    if let Some(personality) = &agent_config.personality {
        let p = trim_str(personality.as_str());
        if !p.as_str().is_empty() {
            push_section(&mut sections, concat3("<personality_spec>\n", p.as_str(), "\n</personality_spec>"));
        }
    }
    assert(sections.deep_view() =~= leading_sections(*agent_config, *resolved_config));
    sections
}

fn skill_lines_of(skills: &Vec<SkillDefinition>) -> (r: Vec<String>)
    ensures
        r.deep_view() == skill_lines(skills@),
{
    let mut lines: Vec<String> = Vec::new();
    let mut i: usize = 0;
    while i < skills.len()
        invariant
            i <= skills.len(),
            lines.deep_view() == skill_lines(skills@.take(i as int)),
        decreases skills.len() - i,
    {
        assert(skills@.take(i + 1).drop_last() =~= skills@.take(i as int));
        let ghost b = lines.deep_view();
        if skills[i].allow_implicit_invocation {
            lines.push(concat4("- /", skills[i].name.as_str(), ": ", skills[i].description.as_str()));
            assert(lines.deep_view() =~= b.push("- /"@ + skills@[i as int].name@ + ": "@ + skills@[i as int].description@));
        }
        assert(skill_lines(skills@.take(i + 1)) =~= b + if skills@[i as int].allow_implicit_invocation {
            seq!["- /"@ + skills@[i as int].name@ + ": "@ + skills@[i as int].description@]
        } else {
            Seq::<Seq<char>>::empty()
        });
        i += 1;
    }
    assert(skills@.take(i as int) =~= skills@);
    lines
}

fn plugin_lines_of(plugins: &Vec<PluginDescriptor>) -> (r: Vec<String>)
    ensures
        r.deep_view() == plugin_lines(plugins@),
{
    let mut lines: Vec<String> = Vec::new();
    let mut i: usize = 0;
    while i < plugins.len()
        invariant
            i <= plugins.len(),
            lines.deep_view() == plugin_lines(plugins@.take(i as int)),
        decreases plugins.len() - i,
    {
        let ghost b = lines.deep_view();
        lines.push(concat4("- ", plugins[i].id.as_str(), ": ", plugins[i].description.as_str()));
        let ghost x = "- "@ + plugins@[i as int].id@ + ": "@ + plugins@[i as int].description@;
        assert(lines.deep_view() =~= b.push(x));
        assert(plugins@.take(i + 1) =~= plugins@.take(i as int).push(plugins@[i as int]));
        assert(plugin_lines(plugins@.take(i + 1)) =~= plugin_lines(plugins@.take(i as int)).push(x));
        i += 1;
    }
    assert(plugins@.take(i as int) =~= plugins@);
    lines
}

fn memory_lines_of(memories: &Vec<Memory>) -> (r: Vec<String>)
    ensures
        r.deep_view() == memory_lines(memories_view(memories@)),
{
    let mut lines: Vec<String> = Vec::new();
    let mut i: usize = 0;
    while i < memories.len()
        invariant
            i <= memories.len(),
            lines.deep_view() == memory_lines(memories_view(memories@.take(i as int))),
        decreases memories.len() - i,
    {
        let ghost b = lines.deep_view();
        lines.push(concat4("- ", memories[i].id.as_str(), ": ", memories[i].content.as_str()));
        let ghost x = "- "@ + memories@[i as int].id@ + ": "@ + memories@[i as int].content@;
        assert(lines.deep_view() =~= b.push(x));
        assert(memories_view(memories@.take(i + 1)) =~= memories_view(memories@.take(i as int)).push(memories@[i as int]@));
        assert(memory_lines(memories_view(memories@.take(i + 1))) =~= memory_lines(memories_view(memories@.take(i as int))).push(x));
        i += 1;
    }
    assert(memories@.take(i as int) =~= memories@);
    lines
}

fn one_string(s: &str) -> (r: Vec<String>)
    ensures
        r.deep_view() == seq![s@],
{
    let mut v: Vec<String> = Vec::new();
    v.push(s.to_owned());
    assert(v.deep_view() =~= seq![s@]);
    v
}

impl PromptBuilder {
    /// Renders the system prompt: the agent's instructions, the session's override, the
    /// personality, the skills open to implicit invocation, the active plugins, the
    /// memories, the environment and the dynamic sections, each present only when it has
    /// content, separated by blank lines.
    pub fn render(
        agent_config: &AgentConfig,
        resolved_config: &ResolvedSessionConfig,
        skills: &Vec<SkillDefinition>,
        plugins: &Vec<PluginDescriptor>,
        memories: &Vec<Memory>,
        dynamic_sections: &Vec<String>,
    ) -> (r: RenderedPrompt)
        ensures
            r.system_prompt@ == rendered_system_prompt(
                *agent_config,
                *resolved_config,
                skills@,
                plugins@,
                memories_view(memories@),
                dynamic_sections.deep_view(),
            ),
    {
        let mut sections = leading_sections_of(agent_config, resolved_config);
        let mut skill_head = one_string("## Skills");
        let ghost h = skill_head.deep_view();
        skill_head.push(SKILLS_INTRO.to_owned());
        assert(skill_head.deep_view() =~= h.push(SKILLS_INTRO@));
        assert(skill_head.deep_view() =~= seq!["## Skills"@, SKILLS_INTRO@]);
        push_list_section(&mut sections, skill_head, skill_lines_of(skills));
        push_list_section(&mut sections, one_string("## Active Plugins"), plugin_lines_of(plugins));
        push_list_section(&mut sections, one_string("## Memories"), memory_lines_of(memories));
        if let Some(environment_context) = &agent_config.environment_context {
            push_section(&mut sections, environment_context.serialize_to_xml());
        }
        append_sections(&mut sections, nonblank_trimmed_strings(dynamic_sections));
        assert(sections.deep_view() =~= prompt_sections(
            *agent_config,
            *resolved_config,
            skills@,
            plugins@,
            memories_view(memories@),
            dynamic_sections.deep_view(),
        ));
        RenderedPrompt { system_prompt: join_strings(&sections, "\n\n") }
    }
}

/// A session's system prompt override is never dropped: when the pinned configuration
/// has the override `o`, the section `<system_prompt_override>` holding `o` is a section
/// of the system prompt, right after the instructions section (first when there are no
/// instructions), and it stands whole in the rendered prompt.
pub proof fn lemma_override_is_rendered(
    agent_config: AgentConfig,
    resolved: ResolvedSessionConfig,
    skills: Seq<SkillDefinition>,
    plugins: Seq<PluginDescriptor>,
    memories: Seq<MemoryView>,
    dynamic_sections: Seq<Seq<char>>,
)
    requires
        resolved.pinned.system_prompt_override is Some,
    ensures
        ({
            let o = resolved.pinned.system_prompt_override->Some_0;
            let section = "<system_prompt_override>\n"@ + o@ + "\n</system_prompt_override>"@;
            let k: int = if nonblank_trimmed(agent_config.system_instructions.deep_view()).len() > 0 {
                1
            } else {
                0
            };
            let sections = prompt_sections(agent_config, resolved, skills, plugins, memories, dynamic_sections);
            &&& k < sections.len()
            &&& sections[k] == section
            &&& is_infix(section, rendered_system_prompt(agent_config, resolved, skills, plugins, memories, dynamic_sections))
        }),
{
    let o = resolved.pinned.system_prompt_override->Some_0;
    let section = "<system_prompt_override>\n"@ + o@ + "\n</system_prompt_override>"@;
    let k: int = if nonblank_trimmed(agent_config.system_instructions.deep_view()).len() > 0 {
        1
    } else {
        0
    };
    let lead = leading_sections(agent_config, resolved);
    assert(lead[k] == section);
    let sections = prompt_sections(agent_config, resolved, skills, plugins, memories, dynamic_sections);
    assert(sections[k] == lead[k]);
    lemma_join_holds_part(sections, "\n\n"@, k);
}

} // verus!
