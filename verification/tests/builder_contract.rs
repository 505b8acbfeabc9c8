use serde_json::Value;
use stateless_codex::AgentBuilder;
use stateless_codex::AgentConfig;
use stateless_codex::AgentErrorCode;
use stateless_codex::ModelInfo;
use stateless_codex::ProviderProfile;
use stateless_codex::SkillDefinition;
use stateless_codex::ToolDescriptor;

fn base_config() -> AgentConfig {
    AgentConfig {
        default_model: "gpt-test".to_string(),
        memory_namespace: "workspace".to_string(),
        ..AgentConfig::default()
    }
}

fn provider(provider_id: &str, model_id: &str) -> ProviderProfile {
    ProviderProfile {
        provider_id: provider_id.to_string(),
        models: vec![ModelInfo {
            model_id: model_id.to_string(),
            display_name: "Test Model".to_string(),
            context_window: 32_000,
            capabilities: Vec::new(),
        }],
    }
}

fn tool(name: &str, mutating: bool) -> ToolDescriptor {
    ToolDescriptor {
        name: name.to_string(),
        description: format!("{name} tool"),
        parameters_schema: Value::Null,
        mutating,
    }
}

#[test]
fn rejects_invalid_default_model() {
    let result = AgentBuilder::new(base_config())
        .register_model_provider(provider("provider", "other-model"))
        .build(true);

    let error = result
        .err()
        .expect("builder should reject an unknown default model");
    assert_eq!(error.code, AgentErrorCode::InvalidDefaultModel);
}

#[test]
fn rejects_skill_missing_tool_dependency() {
    let skill = SkillDefinition {
        name: "commit".to_string(),
        display_name: "Commit".to_string(),
        description: "create a commit".to_string(),
        prompt: "make a commit".to_string(),
        tool_dependencies: vec!["git_commit".to_string()],
        allow_implicit_invocation: true,
    };

    let result = AgentBuilder::new(base_config())
        .register_model_provider(provider("provider", "gpt-test"))
        .register_skill(skill)
        .build(true);

    let error = result
        .err()
        .expect("builder should reject missing skill dependencies");
    assert_eq!(error.code, AgentErrorCode::SkillDependencyNotMet);
}

#[test]
fn rejects_duplicate_tool_name() {
    let result = AgentBuilder::new(base_config())
        .register_model_provider(provider("provider", "gpt-test"))
        .register_tool_handler(tool("echo", false))
        .register_tool_handler(tool("echo", false))
        .build(true);

    let error = result
        .err()
        .expect("builder should reject duplicate tool names");
    assert_eq!(error.code, AgentErrorCode::NameConflict);
}
