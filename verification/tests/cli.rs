use acer_hybrid::cli::{
    check_tool, command_tool, contains_point, find_plugin, menu_hit_test, parse_workflow_vars, period_seconds, sorted_order,
    truncate, yes_no, CommandOutcome, MenuCursor, MenuItem, PluginManifest, PluginType, ProviderPlugin, Theme,
    UiRect, WorkflowPlugin, MENU_LEN,
};
use acer_hybrid::engine::PolicyEngine;
use acer_hybrid::error::AcerError;
use acer_hybrid::rules::PolicyRules;

#[test]
fn themes_cycle() {
    assert_eq!(Theme::Rave.next(), Theme::Matrix);
    assert_eq!(Theme::Monochrome.next(), Theme::Rave);
    assert_eq!(Theme::Cyberpunk.name(), "Cyberpunk");
    let mut t = Theme::Matrix;
    for _ in 0..4 {
        t = t.next();
    }
    assert_eq!(t, Theme::Matrix);
}

#[test]
fn menu_navigation() {
    let item = MenuItem::new("Models", "desc");
    assert_eq!(item.title, "Models");
    let mut c = MenuCursor::new(String::new());
    c.set_selected(10);
    assert_eq!(c.selected, MENU_LEN - 1);
    assert_eq!(c.status, "Selected Quick Start.");
    c.next();
    assert_eq!(c.selected, 0);
    assert_eq!(c.status, "Selected Command Center.");
    c.previous();
    assert_eq!(c.selected, 6);
    c.previous();
    assert_eq!(c.selected, 5);
    c.next();
    assert_eq!(c.selected, 6);
}

#[test]
fn hit_testing() {
    let menu = UiRect { x: 0, y: 0, width: 20, height: 10 };
    assert_eq!(menu_hit_test(menu, 5, 1), Some(0));
    assert_eq!(menu_hit_test(menu, 5, 7), Some(6));
    assert_eq!(menu_hit_test(menu, 5, 8), None);
    assert_eq!(menu_hit_test(menu, 5, 0), None);
    assert_eq!(menu_hit_test(menu, 0, 3), None);
    assert_eq!(menu_hit_test(menu, 25, 3), None);
    let edge = UiRect { x: 65530, y: 0, width: 100, height: 1 };
    assert!(contains_point(edge, 65534, 0));
    assert!(!contains_point(edge, 65535, 0));
}

#[test]
fn truncation() {
    assert_eq!(truncate("hello world", 8), "hello...");
    assert_eq!(truncate("hi", 8), "hi");
    assert_eq!(truncate("hello", 2), "...");
    assert_eq!(truncate("héllo wörld", 6), "hél...");
    assert_eq!(yes_no(true), "yes");
    assert_eq!(yes_no(false), "no");
}

fn manifest(name: &str, kind: PluginType) -> PluginManifest {
    PluginManifest { name: name.to_string(), description: None, plugin_type: kind, provider: None, workflow: None }
}

#[test]
fn plugin_manifests_are_checked() {
    assert_eq!(manifest("  ", PluginType::Workflow).validate().unwrap_err(), "Plugin name cannot be empty");
    assert_eq!(
        manifest("p", PluginType::Provider).validate().unwrap_err(),
        "Provider plugin 'p' is missing [provider]"
    );
    let mut m = manifest("p", PluginType::Provider);
    m.provider = Some(ProviderPlugin { base_url: " ".to_string(), api_key_env: None, vault_key: None });
    assert_eq!(m.validate().unwrap_err(), "Provider plugin 'p' has an empty base_url");
    m.provider = Some(ProviderPlugin { base_url: "http://h".to_string(), api_key_env: None, vault_key: None });
    assert!(m.validate().is_ok());
    let mut w = manifest("w", PluginType::Workflow);
    assert_eq!(w.validate().unwrap_err(), "Workflow plugin 'w' is missing [workflow]");
    w.workflow = Some(WorkflowPlugin { command: "".to_string() });
    assert_eq!(w.validate().unwrap_err(), "Workflow plugin 'w' has an empty command");
}

#[test]
fn first_plugin_of_a_name_is_found() {
    let mut a1 = manifest("a", PluginType::Workflow);
    a1.description = Some("first".to_string());
    let mut a2 = manifest("a", PluginType::Workflow);
    a2.description = Some("second".to_string());
    let list = vec![manifest("b", PluginType::Provider), a1, a2];
    let found = find_plugin(list, "a").unwrap();
    assert_eq!(found.description.as_deref(), Some("first"));
    assert!(find_plugin(vec![manifest("b", PluginType::Provider)], "a").is_none());
}

#[test]
fn workflow_variables() {
    let vars = vec!["a=1".to_string(), "b".to_string(), "a=2=3".to_string(), "=x".to_string()];
    let m = parse_workflow_vars(&vars);
    assert_eq!(m.get("a").map(|s| s.as_str()), Some("2=3"));
    assert!(m.get("b").is_none());
    assert_eq!(m.get("").map(|s| s.as_str()), Some("x"));
    assert_eq!(m.len(), 2);
}

#[test]
fn report_periods() {
    assert_eq!(period_seconds("1h"), Some(3600));
    assert_eq!(period_seconds("24h"), Some(86400));
    assert_eq!(period_seconds("7d"), Some(604800));
    assert_eq!(period_seconds("30d"), Some(2592000));
    assert_eq!(period_seconds("2d"), None);
}

#[test]
fn sandbox_tools() {
    assert_eq!(command_tool("  ls -la"), "ls");
    assert_eq!(command_tool("git"), "git");
    assert_eq!(command_tool("   "), "   ");
    let mut engine = PolicyEngine::new();
    let mut rules = PolicyRules::default();
    rules.allow_tools = vec!["git".to_string()];
    engine.update_default_rules(rules);
    assert_eq!(check_tool(&engine, "git status").unwrap(), "git");
    match check_tool(&engine, "rm -rf x") {
        Err(AcerError::CommandBlocked(m)) => assert_eq!(m, "Tool 'rm -rf x' is not allowed"),
        other => panic!("{:?}", other),
    }
    let mut project = PolicyRules::default();
    project.allow_tools = vec!["grep".to_string(), "rg".to_string(), "git diff".to_string()];
    engine.update_default_rules(project);
    assert_eq!(check_tool(&engine, "git diff HEAD").unwrap(), "git");
    assert_eq!(check_tool(&engine, "  rg TODO src ").unwrap(), "rg");
    match check_tool(&engine, "git push") {
        Err(AcerError::CommandBlocked(m)) => assert_eq!(m, "Tool 'git push' is not allowed"),
        other => panic!("{:?}", other),
    }
    let outcome = CommandOutcome { stdout: "out".to_string(), stderr: String::new(), success: true };
    assert!(outcome.success);
}

#[test]
fn dashboard_order_is_by_name_and_stable() {
    let names: Vec<String> = ["ollama", "gemini", "openai", "gemini", "anthropic"].iter().map(|s| s.to_string()).collect();
    assert_eq!(sorted_order(&names), vec![4, 1, 3, 0, 2]);
    let names: Vec<String> = ["é", "z", "za", "Z", ""].iter().map(|s| s.to_string()).collect();
    assert_eq!(sorted_order(&names), vec![4, 3, 1, 2, 0]);
    assert!(sorted_order(&Vec::new()).is_empty());
}
