use gent::config::{AppConfig, ProviderConfig};
use gent::llm::{
    api_key_env_var, complete_from_reply, merge_with_config, plan_llm_request, resolve_api_key,
    AnthropicBlock, AnthropicResponse, LlmConfig, LlmReply, OpenAiChoice, OpenAiResponse, Provider,
};

fn cfg(format: &str, model: &str, key: &str, url: &str) -> LlmConfig {
    LlmConfig {
        format: format.to_string(),
        model_name: model.to_string(),
        api_key: key.to_string(),
        custom_url: url.to_string(),
    }
}

fn provider(model: Option<&str>, key: Option<&str>, endpoint: Option<&str>) -> ProviderConfig {
    ProviderConfig {
        model: model.map(|s| s.to_string()),
        api_key: key.map(|s| s.to_string()),
        endpoint: endpoint.map(|s| s.to_string()),
        group_id: None,
    }
}

fn app() -> AppConfig {
    AppConfig {
        default_format: Some("anthropic".to_string()),
        providers: vec![
            ("openai".to_string(), provider(Some("gpt-4o-mini"), Some("sk-o"), None)),
            ("anthropic".to_string(), provider(Some("sonnet-4"), Some("sk-a"), Some("http://proxy/"))),
        ],
    }
}

#[test]
fn merge_fills_empty_fields_from_default_format() {
    let r = merge_with_config(cfg("", "", "", ""), &app());
    assert_eq!(r.format, "anthropic");
    assert_eq!(r.model_name, "sonnet-4");
    assert_eq!(r.api_key, "sk-a");
    assert_eq!(r.custom_url, "http://proxy/");
}

#[test]
fn merge_keeps_fields_the_node_sets() {
    let r = merge_with_config(cfg("openai", "my-model", "", "http://x"), &app());
    assert_eq!(r.format, "openai");
    assert_eq!(r.model_name, "my-model");
    assert_eq!(r.api_key, "sk-o");
    assert_eq!(r.custom_url, "http://x");
}

#[test]
fn merge_with_unknown_provider_changes_nothing_else() {
    let r = merge_with_config(cfg("mistral", "", "", ""), &app());
    assert_eq!(r.format, "mistral");
    assert_eq!(r.model_name, "");
    assert_eq!(r.api_key, "");
}

#[test]
fn merging_twice_is_merging_once() {
    let once = merge_with_config(cfg("", "", "", ""), &app());
    let twice = merge_with_config(once.clone(), &app());
    assert_eq!(once.format, twice.format);
    assert_eq!(once.model_name, twice.model_name);
    assert_eq!(once.api_key, twice.api_key);
    assert_eq!(once.custom_url, twice.custom_url);
}

#[test]
fn env_var_names_per_format() {
    assert_eq!(api_key_env_var("openai"), Some("OPENAI_API_KEY"));
    assert_eq!(api_key_env_var("anthropic"), Some("ANTHROPIC_API_KEY"));
    assert_eq!(api_key_env_var("other"), None);
}

#[test]
fn api_key_resolution() {
    assert_eq!(resolve_api_key(&cfg("openai", "m", "k1", ""), Some("env".to_string())), Ok("k1".to_string()));
    assert_eq!(resolve_api_key(&cfg("openai", "m", "", ""), Some("env".to_string())), Ok("env".to_string()));
    assert_eq!(resolve_api_key(&cfg("openai", "m", "", ""), None), Err("missing API key".to_string()));
    assert_eq!(resolve_api_key(&cfg("gemini", "m", "", ""), Some("env".to_string())), Err("unknown format".to_string()));
}

#[test]
fn openai_request_uses_custom_url_without_trailing_slashes() {
    let r = plan_llm_request(cfg("openai", "gpt", "k", "http://localhost:11434/v1//"), None).unwrap();
    assert_eq!(r.provider, Provider::OpenAi);
    assert_eq!(r.url, "http://localhost:11434/v1/chat/completions");
    assert_eq!(r.model, "gpt");
    assert_eq!(r.headers, vec![
        ("Authorization".to_string(), "Bearer k".to_string()),
        ("Content-Type".to_string(), "application/json".to_string()),
    ]);
    assert_eq!(r.max_tokens, None);
}

#[test]
fn anthropic_requests_name_the_api_version_and_a_token_limit() {
    let r = plan_llm_request(cfg("anthropic", "c", "", ""), Some("sk-ant".to_string())).unwrap();
    assert_eq!(r.headers, vec![
        ("Authorization".to_string(), "Bearer sk-ant".to_string()),
        ("anthropic-version".to_string(), "2023-06-01".to_string()),
        ("Content-Type".to_string(), "application/json".to_string()),
    ]);
    assert_eq!(r.max_tokens, Some(1024));
}

#[test]
fn default_endpoints() {
    let o = plan_llm_request(cfg("openai", "gpt", "k", ""), None).unwrap();
    assert_eq!(o.url, "https://api.openai.com/v1/chat/completions");
    let a = plan_llm_request(cfg("anthropic", "c", "k", ""), None).unwrap();
    assert_eq!(a.provider, Provider::Anthropic);
    assert_eq!(a.url, "https://api.anthropic.com/v1/messages");
    let b = plan_llm_request(cfg("anthropic", "c", "k", "https://p.example/"), None).unwrap();
    assert_eq!(b.url, "https://p.example/messages");
}

#[test]
fn unknown_format_with_key_fails() {
    let e = plan_llm_request(cfg("mistral", "m", "k", ""), None).unwrap_err();
    assert_eq!(e.error, "unknown format");
    assert_eq!(e.model, "");
    assert_eq!(e.tokens_used, 0);
}

#[test]
fn missing_key_fails_before_request() {
    let e = plan_llm_request(cfg("openai", "m", "", ""), None).unwrap_err();
    assert_eq!(e.error, "missing API key");
    assert_eq!(e.text, "");
}

fn req() -> gent::llm::LlmRequest {
    plan_llm_request(cfg("openai", "gpt-x", "k", ""), None).unwrap()
}

#[test]
fn reply_errors_name_the_model() {
    let r = req();
    let o = complete_from_reply(&r, LlmReply::SendFailed("connection refused".to_string()));
    assert_eq!(o.error, "request failed: connection refused");
    assert_eq!(o.model, "gpt-x");
    let o = complete_from_reply(&r, LlmReply::HttpError { status: "401 Unauthorized".to_string(), body: "bad key".to_string() });
    assert_eq!(o.error, "HTTP 401 Unauthorized: bad key");
    let o = complete_from_reply(&r, LlmReply::ParseFailed("eof".to_string()));
    assert_eq!(o.error, "failed to parse response: eof");
    assert_eq!(o.text, "");
}

#[test]
fn openai_reply_takes_first_choice() {
    let d = OpenAiResponse {
        model: "gpt-4o".to_string(),
        choices: vec![
            OpenAiChoice { content: Some("hello".to_string()), finish_reason: Some("stop".to_string()) },
            OpenAiChoice { content: Some("other".to_string()), finish_reason: None },
        ],
        total_tokens: 42,
    };
    let o = complete_from_reply(&req(), LlmReply::OpenAi(d));
    assert_eq!(o.text, "hello");
    assert_eq!(o.finish_reason, "stop");
    assert_eq!(o.tokens_used, 42);
    assert_eq!(o.model, "gpt-4o");
    assert_eq!(o.error, "");
}

#[test]
fn openai_reply_without_content() {
    let d = OpenAiResponse {
        model: "gpt".to_string(),
        choices: vec![OpenAiChoice { content: None, finish_reason: None }],
        total_tokens: 1,
    };
    let o = complete_from_reply(&req(), LlmReply::OpenAi(d));
    assert_eq!(o.text, "");
    assert_eq!(o.finish_reason, "");
    let empty = OpenAiResponse { model: "gpt".to_string(), choices: vec![], total_tokens: 0 };
    assert_eq!(complete_from_reply(&req(), LlmReply::OpenAi(empty)).text, "");
}

#[test]
fn anthropic_reply_joins_text_blocks_and_skips_thinking() {
    let d = AnthropicResponse {
        model: "sonnet-4".to_string(),
        content: vec![
            AnthropicBlock { block_type: "thinking".to_string(), text: Some("hmm".to_string()) },
            AnthropicBlock { block_type: "text".to_string(), text: Some("a".to_string()) },
            AnthropicBlock { block_type: "text".to_string(), text: None },
            AnthropicBlock { block_type: "text".to_string(), text: Some("b".to_string()) },
        ],
        input_tokens: 10,
        output_tokens: 5,
        stop_reason: Some("end_turn".to_string()),
    };
    let o = complete_from_reply(&req(), LlmReply::Anthropic(d));
    assert_eq!(o.text, "a\nb");
    assert_eq!(o.tokens_used, 15);
    assert_eq!(o.finish_reason, "end_turn");
    assert_eq!(o.model, "sonnet-4");
}

#[test]
fn anthropic_token_count_saturates() {
    let d = AnthropicResponse {
        model: "c".to_string(),
        content: vec![],
        input_tokens: u32::MAX,
        output_tokens: 7,
        stop_reason: None,
    };
    let o = complete_from_reply(&req(), LlmReply::Anthropic(d));
    assert_eq!(o.tokens_used, u32::MAX);
    assert_eq!(o.text, "");
    assert_eq!(o.finish_reason, "");
}
