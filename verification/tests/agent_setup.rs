use serde_json::Value;
use stateless_codex::domain::hook::HookKind;
use stateless_codex::{
    AgentBuilder, AgentConfig, AgentErrorCode, ModelInfo, PluginDescriptor, ProviderProfile, SkillDefinition,
    ToolDescriptor,
};

fn config() -> AgentConfig {
    AgentConfig {
        default_model: "gpt-test".to_string(),
        memory_namespace: "workspace".to_string(),
        ..AgentConfig::default()
    }
}

fn model(id: &str) -> ModelInfo {
    ModelInfo { model_id: id.to_string(), display_name: id.to_string(), context_window: 8_000, capabilities: Vec::new() }
}

fn provider(id: &str, models: &[&str]) -> ProviderProfile {
    ProviderProfile { provider_id: id.to_string(), models: models.iter().map(|m| model(m)).collect() }
}

fn tool(name: &str) -> ToolDescriptor {
    ToolDescriptor { name: name.to_string(), description: String::new(), parameters_schema: Value::Null, mutating: true }
}

fn skill(name: &str, deps: &[&str]) -> SkillDefinition {
    SkillDefinition {
        name: name.to_string(),
        display_name: name.to_string(),
        description: String::new(),
        prompt: String::new(),
        tool_dependencies: deps.iter().map(|d| d.to_string()).collect(),
        allow_implicit_invocation: true,
    }
}

fn plugin(id: &str) -> PluginDescriptor {
    PluginDescriptor {
        id: id.to_string(),
        display_name: id.to_string(),
        description: String::new(),
        tapped_hooks: vec![HookKind::TurnStart],
    }
}

#[test]
fn build_assembles_the_registered_parts() {
    let core = AgentBuilder::new(config())
        .register_model_provider(provider("p1", &["gpt-test", "small"]))
        .register_model_provider(provider("p2", &["large"]))
        .register_tool_handler(tool("git_commit"))
        .register_skill(skill("commit", &["git_commit"]))
        .register_session_storage()
        .build(true)
        .expect("the agent should build");
    assert_eq!(core.providers().len(), 2);
    assert_eq!(core.tool_descriptors().len(), 1);
    assert_eq!(core.skills().len(), 1);
    assert!(core.has_session_storage());
    assert!(!core.has_memory_storage());
    assert_eq!(core.model("large"), Some((1, 0)));
    assert_eq!(core.model("small"), Some((0, 1)));
    assert_eq!(core.model("none"), None);
    let error = core.model_registration("none").unwrap_err();
    assert_eq!(error.code, AgentErrorCode::InvalidDefaultModel);
    assert_eq!(error.message, "unknown model `none`");
}

#[test]
fn build_rejects_a_second_storage() {
    let error = AgentBuilder::new(config())
        .register_memory_storage()
        .register_memory_storage()
        .register_model_provider(provider("p", &["gpt-test"]))
        .build(true)
        .unwrap_err();
    assert_eq!(error.code, AgentErrorCode::StorageDuplicate);
    assert_eq!(error.message, "session storage and memory storage can each only be registered once");
}

#[test]
fn build_rejects_duplicate_provider_and_model_ids() {
    let error = AgentBuilder::new(config())
        .register_model_provider(provider("p", &["gpt-test"]))
        .register_model_provider(provider("p", &["other"]))
        .build(true)
        .unwrap_err();
    assert_eq!(error.code, AgentErrorCode::NameConflict);
    assert_eq!(error.message, "duplicate provider id `p`");

    let error = AgentBuilder::new(config())
        .register_model_provider(provider("p1", &["gpt-test"]))
        .register_model_provider(provider("p2", &["gpt-test"]))
        .build(true)
        .unwrap_err();
    assert_eq!(error.code, AgentErrorCode::NameConflict);
    assert_eq!(error.message, "duplicate model id `gpt-test`");
}

#[test]
fn build_rejects_a_blank_default_model() {
    let error = AgentBuilder::new(AgentConfig { default_model: "  ".to_string(), ..config() })
        .register_model_provider(provider("p", &["gpt-test"]))
        .build(true)
        .unwrap_err();
    assert_eq!(error.code, AgentErrorCode::InvalidDefaultModel);
    assert_eq!(error.message, "default_model must reference a registered model");
}

#[test]
fn build_rejects_invalid_limits_and_models() {
    let error = AgentBuilder::new(AgentConfig { tool_timeout_ms: 0, ..config() })
        .register_model_provider(provider("p", &["gpt-test"]))
        .build(true)
        .unwrap_err();
    assert_eq!(error.code, AgentErrorCode::InvalidConfig);
    assert_eq!(error.message, "agent config contains invalid runtime limits");

    let error = AgentBuilder::new(config())
        .register_model_provider(provider("p", &["gpt-test"]))
        .build(false)
        .unwrap_err();
    assert_eq!(error.message, "agent config contains invalid runtime limits");

    let error = AgentBuilder::new(AgentConfig { compact_model: Some("missing".to_string()), ..config() })
        .register_model_provider(provider("p", &["gpt-test"]))
        .build(true)
        .unwrap_err();
    assert_eq!(error.code, AgentErrorCode::InvalidConfig);
    assert_eq!(error.message, "compact_model and memory_model must reference registered models");
}

#[test]
fn build_rejects_skill_problems_in_order() {
    let error = AgentBuilder::new(config())
        .register_model_provider(provider("p", &["gpt-test"]))
        .register_skill(skill("commit", &[]))
        .register_skill(skill("commit", &[]))
        .build(true)
        .unwrap_err();
    assert_eq!(error.code, AgentErrorCode::NameConflict);
    assert_eq!(error.message, "duplicate skill name `commit`");

    let error = AgentBuilder::new(config())
        .register_model_provider(provider("p", &["gpt-test"]))
        .register_tool_handler(tool("a"))
        .register_skill(skill("commit", &["a", "b"]))
        .build(true)
        .unwrap_err();
    assert_eq!(error.code, AgentErrorCode::SkillDependencyNotMet);
    assert_eq!(error.message, "skill `commit` depends on missing tool `b`");
}

#[test]
fn admitted_plugins_need_distinct_ids() {
    let mut core = AgentBuilder::new(config())
        .register_model_provider(provider("p", &["gpt-test"]))
        .build(true)
        .expect("the agent should build");
    assert!(core.admit_plugin(plugin("audit")).is_ok());
    let error = core.admit_plugin(plugin("audit")).unwrap_err();
    assert_eq!(error.code, AgentErrorCode::NameConflict);
    assert_eq!(error.message, "duplicate plugin id `audit`");
    assert_eq!(core.plugin_manager().descriptors().len(), 1);
}

#[test]
fn listing_sessions_needs_a_session_storage() {
    let core = AgentBuilder::new(config())
        .register_model_provider(provider("p", &["gpt-test"]))
        .build(true)
        .expect("the agent should build");
    let error = core.require_session_storage().unwrap_err();
    assert_eq!(error.code, AgentErrorCode::SessionNotFound);
    assert_eq!(error.message, "session storage is not registered");
}
