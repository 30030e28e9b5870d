use gent::nodes::NodeVariant;
use gent::properties::{edit_property, PropertyField};
use gent::strings::{parse_u32, parse_usize};

fn retrieval(uri: &str, limit: usize) -> NodeVariant {
    NodeVariant::Retrieval { virtual_uri: uri.to_string(), limit }
}

#[test]
fn numbers_read_as_str_parse_reads_them() {
    assert_eq!(parse_usize("42"), Some(42));
    assert_eq!(parse_usize("+7"), Some(7));
    assert_eq!(parse_usize("007"), Some(7));
    assert_eq!(parse_usize(""), None);
    assert_eq!(parse_usize("+"), None);
    assert_eq!(parse_usize("-1"), None);
    assert_eq!(parse_usize(" 5"), None);
    assert_eq!(parse_usize("5a"), None);
    assert_eq!(parse_usize("++5"), None);
    assert_eq!(parse_usize(&usize::MAX.to_string()), Some(usize::MAX));
    assert_eq!(parse_usize("99999999999999999999999"), None);
    assert_eq!(parse_u32("4294967295"), Some(u32::MAX));
    assert_eq!(parse_u32("4294967296"), None);
    assert_eq!(parse_u32("٣"), None);
    for s in ["0", "12", "+3", "x", "", "18446744073709551616", "4294967296"] {
        assert_eq!(parse_usize(s), s.parse::<usize>().ok());
        assert_eq!(parse_u32(s), s.parse::<u32>().ok());
    }
}

#[test]
fn text_edits_replace_one_field() {
    let v = retrieval("viking://a", 5);
    match edit_property(&v, PropertyField::VirtualUri, "viking://b".to_string()) {
        Some(NodeVariant::Retrieval { virtual_uri, limit }) => {
            assert_eq!(virtual_uri, "viking://b");
            assert_eq!(limit, 5);
        }
        _ => panic!("expected a retrieval"),
    }
    let m = NodeVariant::ModelConfig {
        format: "openai".to_string(),
        model_name: "gpt-4o-mini".to_string(),
        api_key: "k".to_string(),
        custom_url: "".to_string(),
    };
    match edit_property(&m, PropertyField::ApiKey, "sk-2".to_string()) {
        Some(NodeVariant::ModelConfig { format, model_name, api_key, custom_url }) => {
            assert_eq!(format, "openai");
            assert_eq!(model_name, "gpt-4o-mini");
            assert_eq!(api_key, "sk-2");
            assert_eq!(custom_url, "");
        }
        _ => panic!("expected a model config"),
    }
    match edit_property(&NodeVariant::CodeExecute { code: "ls".to_string(), language: "sh".to_string() },
        PropertyField::Language, "bash".to_string()) {
        Some(NodeVariant::CodeExecute { code, language }) => {
            assert_eq!(code, "ls");
            assert_eq!(language, "bash");
        }
        _ => panic!("expected code"),
    }
}

#[test]
fn number_edits_take_only_numbers() {
    let v = retrieval("viking://a", 5);
    match edit_property(&v, PropertyField::Limit, "12".to_string()) {
        Some(NodeVariant::Retrieval { virtual_uri, limit }) => {
            assert_eq!(virtual_uri, "viking://a");
            assert_eq!(limit, 12);
        }
        _ => panic!("expected a retrieval"),
    }
    assert!(edit_property(&v, PropertyField::Limit, "twelve".to_string()).is_none());
    match edit_property(&NodeVariant::Loop { iterations: 3 }, PropertyField::Iterations, "8".to_string()) {
        Some(NodeVariant::Loop { iterations }) => assert_eq!(iterations, 8),
        _ => panic!("expected a loop"),
    }
    assert!(edit_property(&NodeVariant::Summarizer { max_length: 100 }, PropertyField::MaxLength,
        "4294967296".to_string()).is_none());
}

#[test]
fn fields_a_node_lacks_send_nothing() {
    assert!(edit_property(&retrieval("u", 1), PropertyField::Text, "x".to_string()).is_none());
    assert!(edit_property(&NodeVariant::Trigger, PropertyField::Text, "x".to_string()).is_none());
    assert!(edit_property(&NodeVariant::Model, PropertyField::Format, "x".to_string()).is_none());
    assert!(edit_property(&NodeVariant::ReActLoop { action_type: "retrieval".to_string(), max_iterations: 3 },
        PropertyField::Iterations, "4".to_string()).is_none());
}
