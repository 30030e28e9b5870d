use gent::commands::code_outcome;
use gent::config::{AppConfig, ProviderConfig};
use gent::palette::{get_nodes_by_category, node_label, node_types, palette_categories, palette_sections, Tab};
use gent::strings::{decimal_string, join, split_pieces, trim, trim_end_matches_char};

#[test]
fn palette_lists_every_kind() {
    let all = node_types();
    assert_eq!(all.len(), 19);
    assert_eq!(all[0].id, "text_input");
    assert_eq!(all[18].id, "json_output");
}

#[test]
fn categories_group_the_palette() {
    let agents: Vec<&str> = get_nodes_by_category("Agent").iter().map(|t| t.id).collect();
    assert_eq!(agents, vec!["planner_agent", "executor_agent", "model", "model_config"]);
    let total: usize = palette_categories().iter().map(|c| get_nodes_by_category(c).len()).sum();
    assert_eq!(total, 19);
    assert!(get_nodes_by_category("Plugins").is_empty());
}

#[test]
fn labels() {
    assert_eq!(node_label("model_config"), "Model Config");
    assert_eq!(node_label("if_condition"), "If / Condition");
    assert_eq!(node_label("react_loop"), "react_loop");
}

#[test]
fn left_panel_opens_on_palette() {
    assert_eq!(Tab::default(), Tab::Palette);
}

#[test]
fn code_results() {
    assert_eq!(code_outcome(true, b"hi\n", b"warn"), Ok("hi\n".to_string()));
    assert_eq!(code_outcome(false, b"", b"not found"), Err("not found".to_string()));
    assert_eq!(code_outcome(true, &[0x66, 0xff], b""), Ok("f\u{fffd}".to_string()));
}

#[test]
fn provider_lookup_takes_first_match() {
    let p = |m: &str| ProviderConfig { model: Some(m.to_string()), api_key: None, endpoint: None, group_id: None };
    let c = AppConfig { default_format: None, providers: vec![("a".to_string(), p("x")), ("b".to_string(), p("y"))] };
    assert_eq!(c.get_provider("b").unwrap().model.as_deref(), Some("y"));
    assert!(c.get_provider("c").is_none());
    assert!(AppConfig::empty().get_provider("a").is_none());
}

#[test]
fn string_helpers() {
    assert_eq!(trim("\u{3000}\t x y \u{85}"), "x y");
    assert_eq!(trim("   "), "");
    assert_eq!(trim_end_matches_char("a///", '/'), "a");
    assert_eq!(decimal_string(0), "0");
    assert_eq!(decimal_string(4096), "4096");
    assert_eq!(split_pieces("a,,b", ','), vec!["a", "", "b"]);
    assert_eq!(split_pieces("", ','), vec![""]);
    assert_eq!(join(&vec!["a".to_string(), "b".to_string()], ", "), "a, b");
}

#[test]
fn every_category_has_a_section() {
    let sections = palette_sections();
    let names: Vec<&str> = sections.iter().map(|s| s.0).collect();
    assert_eq!(names, vec!["Input", "Context", "Agent", "Tool", "Control", "Output"]);
    let sizes: Vec<usize> = sections.iter().map(|s| s.1.len()).collect();
    assert_eq!(sizes, vec![5, 4, 4, 2, 2, 2]);
    assert_eq!(sections[0].1[4].id, "trigger");
}

#[test]
fn configurations_keep_the_first_entry_of_a_name() {
    let p = |m: &str| ProviderConfig { model: Some(m.to_string()), api_key: None, endpoint: None, group_id: None };
    let c = AppConfig::from_entries(
        Some("openai".to_string()),
        vec![("openai".to_string(), p("a")), ("anthropic".to_string(), p("b")), ("openai".to_string(), p("c"))],
    );
    assert_eq!(c.providers.len(), 2);
    assert_eq!(c.get_provider("openai").unwrap().model.as_deref(), Some("a"));
    assert_eq!(c.get_provider("anthropic").unwrap().model.as_deref(), Some("b"));
    assert!(c.get_provider("gemini").is_none());
    assert_eq!(c.default_format.as_deref(), Some("openai"));
}
