use serde_json::Value;
use stateless_codex::application::plugin_manager::PluginManager;
use stateless_codex::domain::hook::{BeforeToolUsePatch, HookKind, HookOutcome, TurnStartPatch};
use stateless_codex::{AgentErrorCode, PluginDescriptor};

fn plugin(id: &str, hooks: Vec<HookKind>) -> PluginDescriptor {
    PluginDescriptor { id: id.to_string(), display_name: id.to_string(), description: String::new(), tapped_hooks: hooks }
}

#[test]
fn hooks_reach_tapping_plugins_in_order() {
    let manager = PluginManager::new(vec![
        plugin("a", vec![HookKind::TurnStart]),
        plugin("b", vec![HookKind::TurnEnd]),
        plugin("c", vec![HookKind::TurnStart, HookKind::TurnEnd]),
    ]);
    assert_eq!(manager.next_tapped(HookKind::TurnStart, 0), Some(0));
    assert_eq!(manager.next_tapped(HookKind::TurnStart, 1), Some(2));
    assert_eq!(manager.next_tapped(HookKind::TurnStart, 3), None);
    assert_eq!(manager.next_tapped(HookKind::TurnEnd, 0), Some(1));
    assert_eq!(manager.next_tapped(HookKind::SessionStart, 0), None);
    assert!(manager.has_plugin_id("b"));
    assert!(!manager.has_plugin_id("d"));
    assert_eq!(manager.descriptors()[2].id, "c");
}

#[test]
fn turn_start_answers_accumulate_sections() {
    let mut sections = Vec::new();
    assert!(PluginManager::fold_turn_start(&mut sections, HookOutcome::Continue).is_ok());
    assert!(PluginManager::fold_turn_start(
        &mut sections,
        HookOutcome::ContinueWith(TurnStartPatch { append_dynamic_sections: vec!["one".to_string(), "two".to_string()] }),
    )
    .is_ok());
    assert!(PluginManager::fold_turn_start(
        &mut sections,
        HookOutcome::ContinueWith(TurnStartPatch { append_dynamic_sections: vec!["three".to_string()] }),
    )
    .is_ok());
    assert_eq!(sections, vec!["one".to_string(), "two".to_string(), "three".to_string()]);
    let error = PluginManager::fold_turn_start(&mut sections, HookOutcome::Abort { reason: "no".to_string() }).unwrap_err();
    assert_eq!(error.code, AgentErrorCode::HookAborted);
    assert_eq!(error.message, "no");
    assert_eq!(sections.len(), 3);
}

#[test]
fn before_tool_use_answers_rewrite_arguments() {
    let raw = Value::String("raw".to_string());
    let kept = PluginManager::fold_before_tool_use(raw.clone(), HookOutcome::Continue).unwrap();
    assert_eq!(kept, raw);
    let patched = PluginManager::fold_before_tool_use(
        raw,
        HookOutcome::ContinueWith(BeforeToolUsePatch { arguments: Value::Bool(true) }),
    )
    .unwrap();
    assert_eq!(patched, Value::Bool(true));
    let error = PluginManager::fold_before_tool_use(Value::Null, HookOutcome::Abort { reason: "blocked".to_string() })
        .unwrap_err();
    assert_eq!(error.code, AgentErrorCode::HookAborted);
    assert_eq!(error.message, "blocked");
}

#[test]
fn expect_continue_maps_aborts() {
    assert!(PluginManager::expect_continue(HookOutcome::Continue).is_ok());
    assert!(PluginManager::expect_continue(HookOutcome::ContinueWith(())).is_ok());
    let error = PluginManager::expect_continue(HookOutcome::Abort { reason: "stop".to_string() }).unwrap_err();
    assert_eq!(error.code, AgentErrorCode::HookAborted);
    assert_eq!(error.message, "stop");
    assert!(!error.retryable);
}
