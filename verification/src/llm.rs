//! LLM configuration merging, request planning and response interpretation.
use vstd::prelude::*;
use crate::config::{AppConfig, ProviderConfig};
use crate::strings::str_eq;
use crate::strings::{concat, joined, join, trim_end_char, trim_end_matches_char};

verus! {

/// How a node asks for a completion.
#[derive(Debug, Clone)]
pub struct LlmConfig {
    /// "openai" | "anthropic"
    pub format: String,
    /// e.g. "gpt-4o-mini"; used directly.
    pub model_name: String,
    pub api_key: String,
    /// Custom endpoint base URL (optional, overrides the default).
    pub custom_url: String,
}

/// The format after merging: the node's own, or the configured default when
/// the node leaves it empty.
pub open spec fn merged_format(config: LlmConfig, app: AppConfig) -> Seq<char> {
    if config.format@.len() == 0 && app.default_format is Some {
        app.default_format->0@
    } else {
        config.format@
    }
}

/// A field after merging: kept when set, else taken from the provider's
/// default for it when there is one.
pub open spec fn merged_field(own: Seq<char>, provider: Option<ProviderConfig>, default: spec_fn(ProviderConfig) -> Option<String>) -> Seq<char> {
    if own.len() == 0 && provider is Some && default(provider->0) is Some {
        default(provider->0)->0@
    } else {
        own
    }
}

/// The provider defaults that apply to `config` after its format is merged.
pub open spec fn merged_provider(config: LlmConfig, app: AppConfig) -> Option<ProviderConfig> {
    app.provider(merged_format(config, app))
}

/// `r` is `config` with its empty fields filled from `app`.
pub open spec fn is_merge_of(r: LlmConfig, config: LlmConfig, app: AppConfig) -> bool {
    let p = merged_provider(config, app);
    &&& r.format@ == merged_format(config, app)
    &&& r.model_name@ == merged_field(config.model_name@, p, |q: ProviderConfig| q.model)
    &&& r.api_key@ == merged_field(config.api_key@, p, |q: ProviderConfig| q.api_key)
    &&& r.custom_url@ == merged_field(config.custom_url@, p, |q: ProviderConfig| q.endpoint)
}

/// Copies `default` into `field` when `field` is empty and a default exists.
pub(crate) fn fill_if_empty(field: &mut String, default: &Option<String>)
    ensures
        final(field)@ == (if old(field)@.len() == 0 && default is Some { default->0@ } else { old(field)@ }),
{
    if field.as_str().is_empty() {
        if let Some(d) = default {
            *field = d.clone();
        }
    }
}

/// Fills the fields a node leaves empty from the application configuration:
/// first the format from `default_format`, then model, API key and endpoint
/// from the provider entry of that format.
pub fn merge_with_config(config: LlmConfig, app_config: &AppConfig) -> (r: LlmConfig)
    ensures
        is_merge_of(r, config, *app_config),
{
    let mut config = config;
    let ghost orig = config;
    fill_if_empty(&mut config.format, &app_config.default_format);
    assert(config.format@ == merged_format(orig, *app_config));
    if let Some(provider) = app_config.get_provider(config.format.as_str()) {
        fill_if_empty(&mut config.model_name, &provider.model);
        fill_if_empty(&mut config.api_key, &provider.api_key);
        fill_if_empty(&mut config.custom_url, &provider.endpoint);
    }
    config
}

/// The result of a completion as the node sees it. `error` is empty on
/// success and says what went wrong otherwise.
#[derive(Debug, Clone)]
pub struct LlmOutput {
    pub text: String,
    pub tokens_used: u32,
    pub model: String,
    pub finish_reason: String,
    pub error: String,
}

/// An output that carries only an error, for `model`.
pub open spec fn is_failure(r: LlmOutput, model: Seq<char>, error: Seq<char>) -> bool {
    &&& r.text@.len() == 0
    &&& r.tokens_used == 0
    &&& r.model@ == model
    &&& r.finish_reason@.len() == 0
    &&& r.error@ == error
}

/// The output of a call that failed with `error`.
pub fn failure_output(model: String, error: String) -> (r: LlmOutput)
    ensures
        is_failure(r, model@, error@),
{
    LlmOutput { text: String::new(), tokens_used: 0, model, finish_reason: String::new(), error }
}

/// The wire format a request is written in.
#[derive(Debug, Clone, Copy, PartialEq, Eq, Structural)]
pub enum Provider {
    OpenAi,
    Anthropic,
}

/// Everything a completion request needs besides the prompt and temperature.
#[derive(Debug, Clone)]
pub struct LlmRequest {
    pub provider: Provider,
    pub url: String,
    pub model: String,
    /// The HTTP headers, by name and value, in the order they are sent.
    pub headers: Vec<(String, String)>,
    /// The completion length limit the body sets, when it sets one.
    pub max_tokens: Option<u32>,
}

/// The headers of a request: bearer authorization, the API version for
/// Anthropic, and a JSON content type.
pub open spec fn request_headers(p: Provider, key: Seq<char>) -> Seq<(Seq<char>, Seq<char>)> {
    let auth = ("Authorization"@, "Bearer "@ + key);
    let json = ("Content-Type"@, "application/json"@);
    match p {
        Provider::OpenAi => seq![auth, json],
        Provider::Anthropic => seq![auth, ("anthropic-version"@, "2023-06-01"@), json],
    }
}

/// The headers as pairs of character sequences.
pub open spec fn header_views(h: Seq<(String, String)>) -> Seq<(Seq<char>, Seq<char>)> {
    h.map_values(|x: (String, String)| (x.0@, x.1@))
}

/// Builds the headers of a request (see `request_headers`).
fn headers_for(p: Provider, key: &str) -> (r: Vec<(String, String)>)
    ensures
        header_views(r@) == request_headers(p, key@),
{
    let mut r: Vec<(String, String)> = Vec::new();
    r.push((String::from_str("Authorization"), concat("Bearer ", key)));
    if p == Provider::Anthropic {
        r.push((String::from_str("anthropic-version"), String::from_str("2023-06-01")));
    }
    r.push((String::from_str("Content-Type"), String::from_str("application/json")));
    assert(header_views(r@) =~= request_headers(p, key@));
    r
}

/// The environment variable that holds the API key of a format.
pub open spec fn api_key_var(format: Seq<char>) -> Option<Seq<char>> {
    if format == "openai"@ {
        Some("OPENAI_API_KEY"@)
    } else if format == "anthropic"@ {
        Some("ANTHROPIC_API_KEY"@)
    } else {
        None
    }
}

/// Names the environment variable that holds the API key of `format`, if
/// the format is known.
pub fn api_key_env_var(format: &str) -> (r: Option<&'static str>)
    ensures
        r matches Some(v) ==> api_key_var(format@) == Some(v@),
        r is None ==> api_key_var(format@) is None,
{
    if str_eq(format, "openai") {
        Some("OPENAI_API_KEY")
    } else if str_eq(format, "anthropic") {
        Some("ANTHROPIC_API_KEY")
    } else {
        None
    }
}

/// The API key a request uses: the node's own key, else the value of the
/// format's environment variable (`env_value`, `None` when it is unset).
pub open spec fn resolved_key(config: LlmConfig, env_value: Option<String>) -> Result<Seq<char>, Seq<char>> {
    if config.api_key@.len() > 0 {
        Ok(config.api_key@)
    } else if api_key_var(config.format@) is None {
        Err("unknown format"@)
    } else if env_value is Some {
        Ok(env_value->0@)
    } else {
        Err("missing API key"@)
    }
}

/// Chooses the API key: the node's own, or the value read from the
/// environment variable that `api_key_env_var` names for its format.
pub fn resolve_api_key(config: &LlmConfig, env_value: Option<String>) -> (r: Result<String, String>)
    ensures
        r matches Ok(k) ==> resolved_key(*config, env_value) == Ok::<Seq<char>, Seq<char>>(k@),
        r matches Err(e) ==> resolved_key(*config, env_value) == Err::<Seq<char>, Seq<char>>(e@),
{
    if !config.api_key.as_str().is_empty() {
        return Ok(config.api_key.clone());
    }
    match api_key_env_var(config.format.as_str()) {
        None => Err(String::from_str("unknown format")),
        Some(_) => match env_value {
            Some(v) => Ok(v),
            None => Err(String::from_str("missing API key")),
        },
    }
}

/// The endpoint of a request: `path` under the custom base URL (without its
/// trailing slashes), or the provider's default endpoint.
pub open spec fn endpoint_url(custom_url: Seq<char>, path: Seq<char>, default: Seq<char>) -> Seq<char> {
    if custom_url.len() == 0 {
        default
    } else {
        trim_end_char(custom_url, '/') + path
    }
}

fn endpoint(custom_url: &str, path: &str, default: &str) -> (r: String)
    ensures
        r@ == endpoint_url(custom_url@, path@, default@),
{
    if custom_url.is_empty() {
        String::from_str(default)
    } else {
        let mut base = trim_end_matches_char(custom_url, '/');
        base.append(path);
        base
    }
}

/// The request for a merged configuration: the provider of its format, the
/// endpoint, the model, the headers with the bearer authorization, and for
/// Anthropic a limit of 1024 tokens.
pub open spec fn is_request_for(r: LlmRequest, config: LlmConfig, key: Seq<char>) -> bool {
    &&& config.format@ == "openai"@ ==> r.provider == Provider::OpenAi && r.url@ == endpoint_url(
        config.custom_url@, "/chat/completions"@, "https://api.openai.com/v1/chat/completions"@)
    &&& config.format@ == "anthropic"@ ==> r.provider == Provider::Anthropic && r.url@ == endpoint_url(
        config.custom_url@, "/messages"@, "https://api.anthropic.com/v1/messages"@)
    &&& r.model@ == config.model_name@
    &&& header_views(r.headers@) == request_headers(r.provider, key)
    &&& r.max_tokens == (if r.provider == Provider::Anthropic { Some(1024u32) } else { None })
}

/// Plans the completion request of an already merged configuration.
/// Fails, with the output the node receives, when no API key can be had or
/// the format is neither "openai" nor "anthropic".
pub fn plan_llm_request(config: LlmConfig, env_value: Option<String>) -> (r: Result<LlmRequest, LlmOutput>)
    ensures
        resolved_key(config, env_value) matches Err(e) ==> r matches Err(o) && is_failure(o, Seq::empty(), e),
        resolved_key(config, env_value) matches Ok(k) ==> {
            if config.format@ == "openai"@ || config.format@ == "anthropic"@ {
                r matches Ok(q) && is_request_for(q, config, k)
            } else {
                r matches Err(o) && is_failure(o, Seq::empty(), "unknown format"@)
            }
        },
{
    proof {
        reveal_strlit("openai");
        reveal_strlit("anthropic");
        assert("openai"@[0] != "anthropic"@[0]);
    }
    let key = match resolve_api_key(&config, env_value) {
        Ok(k) => k,
        Err(e) => return Err(failure_output(String::new(), e)),
    };
    if str_eq(config.format.as_str(), "openai") {
        let url = endpoint(config.custom_url.as_str(), "/chat/completions",
            "https://api.openai.com/v1/chat/completions");
        let headers = headers_for(Provider::OpenAi, key.as_str());
        Ok(LlmRequest { provider: Provider::OpenAi, url, model: config.model_name, headers, max_tokens: None })
    } else if str_eq(config.format.as_str(), "anthropic") {
        let url = endpoint(config.custom_url.as_str(), "/messages", "https://api.anthropic.com/v1/messages");
        let headers = headers_for(Provider::Anthropic, key.as_str());
        Ok(LlmRequest { provider: Provider::Anthropic, url, model: config.model_name, headers, max_tokens: Some(1024) })
    } else {
        Err(failure_output(String::new(), String::from_str("unknown format")))
    }
}

/// One choice of an OpenAI chat completion.
#[derive(Debug, Clone)]
pub struct OpenAiChoice {
    /// Absent when a content filter triggers.
    pub content: Option<String>,
    pub finish_reason: Option<String>,
}

/// The parts of an OpenAI chat completion that the node reads.
#[derive(Debug, Clone)]
pub struct OpenAiResponse {
    pub model: String,
    pub choices: Vec<OpenAiChoice>,
    pub total_tokens: u32,
}

/// One content block of an Anthropic message.
#[derive(Debug, Clone)]
pub struct AnthropicBlock {
    /// "text" or "thinking".
    pub block_type: String,
    pub text: Option<String>,
}

/// The parts of an Anthropic message that the node reads.
#[derive(Debug, Clone)]
pub struct AnthropicResponse {
    pub model: String,
    pub content: Vec<AnthropicBlock>,
    pub input_tokens: u32,
    pub output_tokens: u32,
    pub stop_reason: Option<String>,
}

/// What came back from sending a completion request.
#[derive(Debug, Clone)]
pub enum LlmReply {
    /// The request could not be sent; the transport's message.
    SendFailed(String),
    /// The server answered with a status other than success.
    HttpError { status: String, body: String },
    /// The body was not a completion; the decoder's message.
    ParseFailed(String),
    OpenAi(OpenAiResponse),
    Anthropic(AnthropicResponse),
}

/// The value inside an optional string, or the empty string.
pub open spec fn or_empty(o: Option<String>) -> Seq<char> {
    match o {
        Some(s) => s@,
        None => Seq::empty(),
    }
}

/// The texts of the text blocks of a message, thinking blocks left out.
pub open spec fn text_blocks(blocks: Seq<AnthropicBlock>) -> Seq<Seq<char>>
    decreases blocks.len(),
{
    if blocks.len() == 0 {
        Seq::empty()
    } else {
        let rest = text_blocks(blocks.drop_last());
        let b = blocks.last();
        if b.block_type@ == "text"@ && b.text is Some {
            rest.push(b.text->0@)
        } else {
            rest
        }
    }
}

/// The node's output for a reply to `request`.
pub open spec fn reply_output(r: LlmOutput, request: LlmRequest, reply: LlmReply) -> bool {
    match reply {
        LlmReply::SendFailed(e) => is_failure(r, request.model@, "request failed: "@ + e@),
        LlmReply::HttpError { status, body } => is_failure(r, request.model@, "HTTP "@ + status@ + ": "@ + body@),
        LlmReply::ParseFailed(e) => is_failure(r, request.model@, "failed to parse response: "@ + e@),
        LlmReply::OpenAi(d) => {
            &&& r.text@ == (if d.choices@.len() > 0 { or_empty(d.choices@[0].content) } else { Seq::empty() })
            &&& r.tokens_used == d.total_tokens
            &&& r.model@ == d.model@
            &&& r.finish_reason@ == (if d.choices@.len() > 0 { or_empty(d.choices@[0].finish_reason) } else { Seq::empty() })
            &&& r.error@.len() == 0
        },
        LlmReply::Anthropic(d) => {
            &&& r.text@ == joined(text_blocks(d.content@), "\n"@)
            &&& r.tokens_used == (if d.input_tokens + d.output_tokens > u32::MAX { u32::MAX as int } else { d.input_tokens + d.output_tokens })
            &&& r.model@ == d.model@
            &&& r.finish_reason@ == or_empty(d.stop_reason)
            &&& r.error@.len() == 0
        },
    }
}

fn take_or_empty(o: Option<String>) -> (r: String)
    ensures
        r@ == or_empty(o),
{
    match o {
        Some(s) => s,
        None => String::new(),
    }
}

/// The texts of the text blocks of a message, in order.
fn collect_text_blocks(blocks: &Vec<AnthropicBlock>) -> (r: Vec<String>)
    ensures
        r@.map_values(|p: String| p@) == text_blocks(blocks@),
{
    let mut r: Vec<String> = Vec::new();
    let n = blocks.len();
    let mut i: usize = 0;
    assert(blocks@.take(0) =~= Seq::<AnthropicBlock>::empty());
    while i < n
        invariant
            n == blocks@.len(),
            i <= n,
            r@.map_values(|p: String| p@) == text_blocks(blocks@.take(i as int)),
        decreases n - i,
    {
        let ghost before = r@.map_values(|p: String| p@);
        assert(blocks@.take(i + 1).drop_last() =~= blocks@.take(i as int));
        let b = &blocks[i];
        if str_eq(b.block_type.as_str(), "text") {
            if let Some(t) = &b.text {
                r.push(t.clone());
                assert(r@.map_values(|p: String| p@) =~= before.push(t@));
            }
        }
        i = i + 1;
    }
    assert(blocks@.take(n as int) =~= blocks@);
    r
}

/// Turns what came back from a completion request into the node's output.
pub fn complete_from_reply(request: &LlmRequest, reply: LlmReply) -> (r: LlmOutput)
    ensures
        reply_output(r, *request, reply),
{
    match reply {
        LlmReply::SendFailed(e) => failure_output(request.model.clone(), concat("request failed: ", e.as_str())),
        LlmReply::HttpError { status, body } => {
            let mut msg = concat("HTTP ", status.as_str());
            msg.append(": ");
            msg.append(body.as_str());
            failure_output(request.model.clone(), msg)
        },
        LlmReply::ParseFailed(e) => failure_output(request.model.clone(),
            concat("failed to parse response: ", e.as_str())),
        LlmReply::OpenAi(d) => {
            let OpenAiResponse { model, choices, total_tokens } = d;
            let (text, finish_reason) = if choices.len() > 0 {
                let c = &choices[0];
                (take_or_empty(c.content.clone()), take_or_empty(c.finish_reason.clone()))
            } else {
                (String::new(), String::new())
            };
            LlmOutput { text, tokens_used: total_tokens, model, finish_reason, error: String::new() }
        },
        LlmReply::Anthropic(d) => {
            let texts = collect_text_blocks(&d.content);
            let text = join(&texts, "\n");
            let AnthropicResponse { model, content: _, input_tokens, output_tokens, stop_reason } = d;
            LlmOutput {
                text,
                tokens_used: input_tokens.saturating_add(output_tokens),
                model,
                finish_reason: take_or_empty(stop_reason),
                error: String::new(),
            }
        },
    }
}

/// Fields a node sets itself survive merging.
pub proof fn merge_keeps_set_fields(r: LlmConfig, config: LlmConfig, app: AppConfig)
    requires
        is_merge_of(r, config, app),
    ensures
        config.format@.len() > 0 ==> r.format@ == config.format@,
        config.model_name@.len() > 0 ==> r.model_name@ == config.model_name@,
        config.api_key@.len() > 0 ==> r.api_key@ == config.api_key@,
        config.custom_url@.len() > 0 ==> r.custom_url@ == config.custom_url@,
{
}

/// Merging an already merged configuration changes nothing.
pub proof fn merging_twice_changes_nothing(config: LlmConfig, once: LlmConfig, twice: LlmConfig, app: AppConfig)
    requires
        is_merge_of(once, config, app),
        is_merge_of(twice, once, app),
    ensures
        twice.format@ == once.format@,
        twice.model_name@ == once.model_name@,
        twice.api_key@ == once.api_key@,
        twice.custom_url@ == once.custom_url@,
{
    assert(merged_format(once, app) == once.format@);
    assert(merged_provider(once, app) == merged_provider(config, app));
}

/// Fields a node leaves empty are filled: the format from the default
/// format, and the model, key and endpoint from the provider configured
/// for the resulting format, whenever those defaults exist.
pub proof fn merge_fills_empty_fields(r: LlmConfig, config: LlmConfig, app: AppConfig)
    requires
        is_merge_of(r, config, app),
    ensures
        config.format@.len() == 0 && app.default_format is Some ==> r.format@ == app.default_format->0@,
        app.provider(r.format@) is Some && config.model_name@.len() == 0
            && app.provider(r.format@)->0.model is Some ==> r.model_name@ == app.provider(r.format@)->0.model->0@,
        app.provider(r.format@) is Some && config.api_key@.len() == 0
            && app.provider(r.format@)->0.api_key is Some ==> r.api_key@ == app.provider(r.format@)->0.api_key->0@,
        app.provider(r.format@) is Some && config.custom_url@.len() == 0
            && app.provider(r.format@)->0.endpoint is Some ==> r.custom_url@ == app.provider(r.format@)->0.endpoint->0@,
{
}

} // verus!
