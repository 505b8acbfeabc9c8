use stateless_codex::application::context_manager::ContextManager;
use stateless_codex::application::memory_manager::MemoryManager;
use stateless_codex::application::prompt_builder::PromptBuilder;
use stateless_codex::application::skill_resolver::SkillResolver;
use stateless_codex::domain::config::{normalize_optional_text, resolve_session_pinned_config, resolve_session_runtime_policy, DEFAULT_COMPACT_PROMPT};
use stateless_codex::domain::memory::SessionMemoryState;
use stateless_codex::domain::session::{ContextState, VisibleMessage};
use stateless_codex::domain::turn::{ResolvedSkillInjection, TurnAugmentation};
use stateless_codex::{
    AgentConfig, AgentErrorCode, ContentBlock, EnvironmentContext, Memory, Message, MessageRole, ResolvedSessionConfig,
    SessionConfig, SkillDefinition,
};

fn memory(id: &str, content: &str) -> Memory {
    Memory {
        id: id.to_string(),
        namespace: "ns".to_string(),
        content: content.to_string(),
        source: None,
        tags: Vec::new(),
        created_at: 0,
        updated_at: 0,
    }
}

fn skill(name: &str, prompt: &str) -> SkillDefinition {
    SkillDefinition {
        name: name.to_string(),
        display_name: name.to_string(),
        description: format!("{name} things"),
        prompt: prompt.to_string(),
        tool_dependencies: Vec::new(),
        allow_implicit_invocation: true,
    }
}

#[test]
fn environment_context_renders_present_fields() {
    let env = EnvironmentContext {
        cwd: Some("/work".to_string()),
        shell: None,
        current_date: Some("2024-01-01".to_string()),
        timezone: None,
    };
    assert_eq!(
        env.serialize_to_xml(),
        "<environment_context>\n  <cwd>/work</cwd>\n  <current_date>2024-01-01</current_date>\n</environment_context>"
    );
}

#[test]
fn optional_text_is_trimmed_or_dropped() {
    assert_eq!(normalize_optional_text(Some("  hi  ".to_string())), Some("hi".to_string()));
    assert_eq!(normalize_optional_text(Some(" \t ".to_string())), None);
    assert_eq!(normalize_optional_text(None), None);
}

#[test]
fn session_config_resolution() {
    let agent_config = AgentConfig {
        default_model: "gpt-test".to_string(),
        memory_namespace: "  team  ".to_string(),
        compact_prompt: Some("   ".to_string()),
        memory_model: Some("small".to_string()),
        ..AgentConfig::default()
    };
    let pinned = resolve_session_pinned_config(
        &agent_config,
        SessionConfig { model_id: None, system_prompt_override: Some("  be brief ".to_string()) },
    )
    .unwrap();
    assert_eq!(pinned.model_id, "gpt-test");
    assert_eq!(pinned.memory_namespace, "team");
    assert_eq!(pinned.system_prompt_override, Some("be brief".to_string()));
    let policy = resolve_session_runtime_policy(&agent_config, &pinned);
    assert_eq!(policy.compact_model_id, "gpt-test");
    assert_eq!(policy.memory_model_id, "small");
    assert_eq!(policy.compact_prompt, DEFAULT_COMPACT_PROMPT);
    let blank = AgentConfig { memory_namespace: " ".to_string(), ..agent_config };
    let error = resolve_session_pinned_config(&blank, SessionConfig::default()).unwrap_err();
    assert_eq!(error.code, AgentErrorCode::InvalidConfig);
    assert_eq!(error.message, "memory_namespace must not be blank");
}

#[test]
fn prompt_sections_come_in_order() {
    let agent_config = AgentConfig {
        default_model: "gpt-test".to_string(),
        system_instructions: vec![" first ".to_string(), "".to_string(), "second".to_string()],
        personality: Some(" calm ".to_string()),
        memory_namespace: "ns".to_string(),
        ..AgentConfig::default()
    };
    let pinned = resolve_session_pinned_config(&agent_config, SessionConfig::default()).unwrap();
    let runtime_policy = resolve_session_runtime_policy(&agent_config, &pinned);
    let resolved = ResolvedSessionConfig { pinned, runtime_policy };
    let prompt = PromptBuilder::render(
        &agent_config,
        &resolved,
        &Vec::new(),
        &Vec::new(),
        &vec![memory("m1", "likes tea")],
        &vec!["  dynamic  ".to_string(), " ".to_string()],
    );
    assert_eq!(
        prompt.system_prompt,
        "<system_instructions>\nfirst\n\nsecond\n</system_instructions>\n\n<personality_spec>\ncalm\n</personality_spec>\n\n## Memories\n- m1: likes tea\n\ndynamic"
    );
}

#[test]
fn skills_are_resolved_once_from_typed_text() {
    let skills = vec![skill("commit", "make a commit"), skill("review", "review it")];
    let input = vec![
        ContentBlock::text("/review then /commit and /review"),
        ContentBlock::FileContent { file_name: None, media_type: None, text: "/missing".to_string() },
    ];
    let resolved = SkillResolver::resolve(&input, &skills, 5).unwrap();
    assert_eq!(resolved.invoked_skill_names, vec!["review".to_string(), "commit".to_string()]);
    assert_eq!(resolved.augmentation.origin_user_seq, 5);
    assert_eq!(resolved.augmentation.skill_injections[1].rendered_xml, "<skill name=\"commit\">\nmake a commit\n</skill>");
    let error = SkillResolver::resolve(&[ContentBlock::text("/nope")], &skills, 1).unwrap_err();
    assert_eq!(error.code, AgentErrorCode::SkillNotFound);
    assert_eq!(error.message, "skill `nope` is not registered");
    let plain = SkillResolver::resolve(&[ContentBlock::text("a / b")], &skills, 1).unwrap();
    assert!(plain.invoked_skill_names.is_empty());
}

#[test]
fn merged_memories_keep_first_ids_up_to_the_limit() {
    let state = SessionMemoryState {
        bootstrap_memories: vec![memory("a", "1"), memory("b", "2")],
        last_turn_memories: vec![memory("a", "3"), memory("c", "4"), memory("d", "5")],
    };
    let merged = MemoryManager::merged_prompt_memories(&state, 3);
    let ids: Vec<&str> = merged.iter().map(|m| m.id.as_str()).collect();
    assert_eq!(ids, vec!["a", "b", "c"]);
    assert_eq!(merged[0].content, "1");
    let one = MemoryManager::merged_prompt_memories(&state, 0);
    assert_eq!(one.len(), 1);
}

#[test]
fn memory_query_joins_typed_text() {
    let query = MemoryManager::turn_memory_query(&[
        ContentBlock::text("  first "),
        ContentBlock::text("   "),
        ContentBlock::FileContent { file_name: None, media_type: None, text: "file".to_string() },
        ContentBlock::text("second"),
    ]);
    assert_eq!(query, "first\nsecond");
    assert_eq!(MemoryManager::turn_memory_query(&[]), "");
}

#[test]
fn request_context_splits_around_the_anchor() {
    let context = ContextState {
        latest_compaction: None,
        visible_messages: vec![
            VisibleMessage { source_seq: Some(1), message: Message::user(vec![ContentBlock::text("before")]) },
            VisibleMessage { source_seq: Some(2), message: Message::user(vec![ContentBlock::text("anchor")]) },
            VisibleMessage { source_seq: Some(3), message: Message::assistant(vec![ContentBlock::text("after")]) },
        ],
        history_estimated_tokens: 0,
    };
    let augmentation = TurnAugmentation {
        origin_user_seq: 2,
        skill_injections: vec![ResolvedSkillInjection { skill_name: "s".to_string(), rendered_xml: "<skill/>".to_string() }],
    };
    let request = ContextManager::build_request_context(&context, &augmentation).unwrap();
    assert_eq!(request.pre_anchor_messages.len(), 1);
    assert_eq!(request.anchor_message.content, vec![ContentBlock::text("anchor")]);
    assert_eq!(request.post_anchor_augmentations.len(), 1);
    assert_eq!(request.post_anchor_augmentations[0].role, MessageRole::System);
    assert_eq!(request.post_anchor_messages.len(), 1);
    let missing = TurnAugmentation { origin_user_seq: 9, skill_injections: Vec::new() };
    let error = ContextManager::build_request_context(&context, &missing).unwrap_err();
    assert_eq!(error.code, AgentErrorCode::InvalidInput);
}

#[test]
fn content_block_accessors() {
    let text = ContentBlock::text("hi");
    assert_eq!(text.as_text(), Some("hi"));
    assert_eq!(text.explicit_text(), Some("hi"));
    assert!(!text.is_image());
    let file = ContentBlock::FileContent { file_name: None, media_type: None, text: "doc".to_string() };
    assert_eq!(file.as_text(), Some("doc"));
    assert_eq!(file.explicit_text(), None);
    let image = ContentBlock::Image { mime_type: "image/png".to_string(), data_base64: "x".to_string() };
    assert!(image.is_image());
    assert_eq!(image.as_text(), None);
    let tool = Message::tool("c1", vec![ContentBlock::text("out")]);
    assert_eq!(tool.role, MessageRole::Tool);
    assert_eq!(tool.tool_call_id, Some("c1".to_string()));
    let system = Message::system_text("rules");
    assert_eq!(system.role, MessageRole::System);
}
