use gent::config::{AppConfig, ProviderConfig};
use gent::nodes::{
    apply_limit_change, apply_limit_input, apply_llm_defaults, apply_llm_defaults_to_bundle, apply_mode_change, apply_mode_input, apply_text_change,
    mode_from_name, mode_name, retrieval_params, set_chat_response, NodeVariant, QueryTranslationMode,
};

fn defaults() -> AppConfig {
    AppConfig {
        default_format: Some("openai".to_string()),
        providers: vec![(
            "openai".to_string(),
            ProviderConfig {
                model: Some("gpt-4o-mini".to_string()),
                api_key: Some("sk-1".to_string()),
                endpoint: None,
                group_id: None,
            },
        )],
    }
}

fn model_config(f: &str, m: &str, k: &str, u: &str) -> NodeVariant {
    NodeVariant::ModelConfig {
        format: f.to_string(),
        model_name: m.to_string(),
        api_key: k.to_string(),
        custom_url: u.to_string(),
    }
}

fn fields(v: &NodeVariant) -> (String, String, String, String) {
    match v {
        NodeVariant::ModelConfig { format, model_name, api_key, custom_url } => {
            (format.clone(), model_name.clone(), api_key.clone(), custom_url.clone())
        }
        _ => panic!("not a model config"),
    }
}

#[test]
fn text_edits_go_to_the_text_field() {
    let mut v = NodeVariant::Retrieval { virtual_uri: "old".to_string(), limit: 4 };
    apply_text_change(&mut v, "viking://docs".to_string());
    assert!(matches!(v, NodeVariant::Retrieval { ref virtual_uri, limit: 4 } if virtual_uri == "viking://docs"));
    let mut r = NodeVariant::ReActLoop { action_type: "retrieval".to_string(), max_iterations: 5 };
    apply_text_change(&mut r, "all".to_string());
    assert!(matches!(r, NodeVariant::ReActLoop { ref action_type, max_iterations: 5 } if action_type == "all"));
    let mut t = NodeVariant::Trigger;
    apply_text_change(&mut t, "x".to_string());
    assert!(matches!(t, NodeVariant::Trigger));
}

#[test]
fn limit_edits() {
    let mut v = NodeVariant::Retrieval { virtual_uri: "u".to_string(), limit: 4 };
    apply_limit_change(&mut v, 20);
    assert!(matches!(v, NodeVariant::Retrieval { limit: 20, .. }));
    let mut r = NodeVariant::ReActLoop { action_type: "retrieval".to_string(), max_iterations: 5 };
    apply_limit_change(&mut r, 7);
    assert!(matches!(r, NodeVariant::ReActLoop { max_iterations: 7, .. }));
    let mut s = NodeVariant::Summarizer { max_length: 100 };
    apply_limit_change(&mut s, 7);
    assert!(matches!(s, NodeVariant::Summarizer { max_length: 100 }));
}

#[test]
fn mode_names() {
    let mut q = NodeVariant::QueryTranslation {
        mode: QueryTranslationMode::StepBack,
        format: String::new(),
        model_name: String::new(),
        api_key: String::new(),
        custom_url: String::new(),
    };
    let m = mode_from_name("rag_fusion").unwrap();
    assert_eq!(m, QueryTranslationMode::RagFusion { num_queries: 3, k: 60, limit_per_query: 10 });
    assert_eq!(mode_name(&m), "rag_fusion");
    apply_mode_change(&mut q, m);
    assert!(matches!(q, NodeVariant::QueryTranslation { mode: QueryTranslationMode::RagFusion { .. }, .. }));
    assert_eq!(mode_from_name("multi_query"), Some(QueryTranslationMode::MultiQuery { num_queries: 3 }));
    assert_eq!(mode_from_name("step_back"), Some(QueryTranslationMode::StepBack));
    assert_eq!(mode_from_name("other"), None);
    for m in [QueryTranslationMode::StepBack, QueryTranslationMode::MultiQuery { num_queries: 9 }] {
        assert_eq!(mode_name(&mode_from_name(mode_name(&m)).unwrap()), mode_name(&m));
    }
}

#[test]
fn retrieval_params_default() {
    assert_eq!(retrieval_params(&NodeVariant::Retrieval { virtual_uri: "u".to_string(), limit: 3 }), ("u".to_string(), 3));
    assert_eq!(retrieval_params(&NodeVariant::Model), (String::new(), 10));
}

#[test]
fn llm_defaults_keep_a_set_format_and_fill_empty_fields() {
    let mut v = model_config("anthropic", "", "mine", "");
    apply_llm_defaults(&mut v, &defaults());
    assert_eq!(fields(&v), ("anthropic".to_string(), String::new(), "mine".to_string(), String::new()));
    let mut w = model_config("", "", "mine", "");
    apply_llm_defaults(&mut w, &defaults());
    assert_eq!(fields(&w), ("openai".to_string(), "gpt-4o-mini".to_string(), "mine".to_string(), String::new()));
    let before = fields(&w);
    apply_llm_defaults(&mut w, &defaults());
    assert_eq!(fields(&w), before);
}

#[test]
fn bundle_node_with_a_format_of_its_own_is_left_alone() {
    let d = AppConfig {
        default_format: Some("anthropic".to_string()),
        providers: vec![(
            "anthropic".to_string(),
            ProviderConfig {
                model: Some("sonnet-4".to_string()),
                api_key: Some("k".to_string()),
                endpoint: Some("http://e".to_string()),
                group_id: None,
            },
        )],
    };
    let mut bundle = vec![model_config("openai", "", "", "http://h")];
    apply_llm_defaults_to_bundle(&mut bundle, &d);
    assert_eq!(fields(&bundle[0]), ("openai".to_string(), String::new(), String::new(), "http://h".to_string()));
}

#[test]
fn llm_defaults_leave_other_nodes() {
    let mut bundle = vec![NodeVariant::Trigger, model_config("", "", "", ""), NodeVariant::Loop { iterations: 2 }];
    apply_llm_defaults_to_bundle(&mut bundle, &defaults());
    assert!(matches!(bundle[0], NodeVariant::Trigger));
    assert_eq!(fields(&bundle[1]).1, "gpt-4o-mini");
    assert!(matches!(bundle[2], NodeVariant::Loop { iterations: 2 }));
}

#[test]
fn text_output_shows_input() {
    let mut v = NodeVariant::ChatOutput { response: String::new() };
    set_chat_response(&mut v, "hi".to_string());
    assert!(matches!(v, NodeVariant::ChatOutput { ref response } if response == "hi"));
}

#[test]
fn typed_limits_apply_only_when_they_read() {
    let mut v = NodeVariant::Retrieval { virtual_uri: "viking://a".to_string(), limit: 10 };
    apply_limit_input(&mut v, "25");
    assert!(matches!(&v, NodeVariant::Retrieval { limit: 25, .. }));
    apply_limit_input(&mut v, "lots");
    assert!(matches!(&v, NodeVariant::Retrieval { limit: 25, .. }));
    let mut r = NodeVariant::ReActLoop { action_type: "retrieval".to_string(), max_iterations: 5 };
    apply_limit_input(&mut r, "7");
    assert!(matches!(&r, NodeVariant::ReActLoop { max_iterations: 7, .. }));
}

#[test]
fn selector_choices_set_the_mode() {
    let mut v = NodeVariant::QueryTranslation {
        mode: QueryTranslationMode::StepBack,
        format: String::new(),
        model_name: String::new(),
        api_key: String::new(),
        custom_url: String::new(),
    };
    apply_mode_input(&mut v, "rag_fusion");
    assert!(matches!(&v, NodeVariant::QueryTranslation {
        mode: QueryTranslationMode::RagFusion { num_queries: 3, k: 60, limit_per_query: 10 }, .. }));
    apply_mode_input(&mut v, "something_else");
    assert!(matches!(&v, NodeVariant::QueryTranslation {
        mode: QueryTranslationMode::RagFusion { .. }, .. }));
}
