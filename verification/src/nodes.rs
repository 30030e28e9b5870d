//! The per-node settings and how editing a node or loading a bundle with
//! LLM defaults changes them.
use vstd::prelude::*;
use crate::config::AppConfig;
use crate::strings::str_eq;
use crate::llm::{fill_if_empty, is_merge_of, LlmConfig};
use crate::strings::{decimal_within, parse_usize};

verus! {

/// How a query-translation node rewrites its query.
#[derive(Debug, Clone, Copy, PartialEq, Eq, Structural)]
pub enum QueryTranslationMode {
    MultiQuery { num_queries: usize },
    StepBack,
    RagFusion { num_queries: usize, k: usize, limit_per_query: usize },
}

/// The settings of a node, by kind.
#[derive(Debug, Clone)]
pub enum NodeVariant {
    UserInput { text: String },
    FileInput { path: String },
    Trigger,
    Template { template: String },
    Retrieval { virtual_uri: String, limit: usize },
    Index { collection: String },
    Summarizer { max_length: u32 },
    PlannerAgent { goal: String },
    ExecutorAgent { task: String },
    WebSearch { query: String, num_results: u32 },
    CodeExecute { code: String, language: String },
    IfCondition { branches: u32 },
    Loop { iterations: u32 },
    ChatOutput { response: String },
    JsonOutput { schema: String },
    ModelConfig { format: String, model_name: String, api_key: String, custom_url: String },
    Model,
    QueryTranslation { mode: QueryTranslationMode, format: String, model_name: String, api_key: String, custom_url: String },
    ReActLoop { action_type: String, max_iterations: u32 },
}

/// The settings after the node's text field is edited: the text of a user
/// input, the URI of a retrieval, the path of a file input, the template of
/// a template node, the allowed actions of a ReAct loop. Other kinds have no
/// text field.
pub open spec fn text_edited(v: NodeVariant, new_text: String) -> NodeVariant {
    match v {
        NodeVariant::UserInput { .. } => NodeVariant::UserInput { text: new_text },
        NodeVariant::Retrieval { limit, .. } => NodeVariant::Retrieval { virtual_uri: new_text, limit },
        NodeVariant::FileInput { .. } => NodeVariant::FileInput { path: new_text },
        NodeVariant::Template { .. } => NodeVariant::Template { template: new_text },
        NodeVariant::ReActLoop { max_iterations, .. } => NodeVariant::ReActLoop { action_type: new_text, max_iterations },
        _ => v,
    }
}

/// Applies an edit of the node's text field.
pub fn apply_text_change(variant: &mut NodeVariant, new_text: String)
    ensures
        *final(variant) == text_edited(*old(variant), new_text),
{
    match variant {
        NodeVariant::UserInput { text } => {
            *text = new_text;
        },
        NodeVariant::Retrieval { virtual_uri, .. } => {
            *virtual_uri = new_text;
        },
        NodeVariant::FileInput { path } => {
            *path = new_text;
        },
        NodeVariant::Template { template } => {
            *template = new_text;
        },
        NodeVariant::ReActLoop { action_type, .. } => {
            *action_type = new_text;
        },
        _ => {},
    }
}

/// The settings after the node's number field is edited: the limit of a
/// retrieval, or the iteration budget of a ReAct loop, which keeps the low
/// 32 bits of the number.
pub open spec fn limit_edited(v: NodeVariant, new_limit: usize) -> NodeVariant {
    match v {
        NodeVariant::Retrieval { virtual_uri, .. } => NodeVariant::Retrieval { virtual_uri, limit: new_limit },
        NodeVariant::ReActLoop { action_type, .. } => NodeVariant::ReActLoop { action_type, max_iterations: new_limit as u32 },
        _ => v,
    }
}

/// Applies an edit of the node's number field.
pub fn apply_limit_change(variant: &mut NodeVariant, new_limit: usize)
    ensures
        *final(variant) == limit_edited(*old(variant), new_limit),
{
    match variant {
        NodeVariant::Retrieval { limit, .. } => {
            *limit = new_limit;
        },
        NodeVariant::ReActLoop { max_iterations, .. } => {
            *max_iterations = #[verifier::truncate] (new_limit as u32);
        },
        _ => {},
    }
}

/// Applies what was typed into the node's number field: the edit is made
/// when the text reads as a `usize`, and ignored otherwise.
pub fn apply_limit_input(variant: &mut NodeVariant, input: &str)
    ensures
        decimal_within(input@, usize::MAX as nat) matches Some(n)
            ==> *final(variant) == limit_edited(*old(variant), n as usize),
        decimal_within(input@, usize::MAX as nat) is None ==> *final(variant) == *old(variant),
{
    if let Some(n) = parse_usize(input) {
        apply_limit_change(variant, n);
    }
}

/// The settings after a query-translation node's mode is changed.
pub open spec fn mode_edited(v: NodeVariant, new_mode: QueryTranslationMode) -> NodeVariant {
    match v {
        NodeVariant::QueryTranslation { format, model_name, api_key, custom_url, .. } =>
            NodeVariant::QueryTranslation { mode: new_mode, format, model_name, api_key, custom_url },
        _ => v,
    }
}

/// Applies a change of a query-translation node's mode.
pub fn apply_mode_change(variant: &mut NodeVariant, new_mode: QueryTranslationMode)
    ensures
        *final(variant) == mode_edited(*old(variant), new_mode),
{
    if let NodeVariant::QueryTranslation { mode, .. } = variant {
        *mode = new_mode;
    }
}

/// The name of a mode in the mode selector.
pub open spec fn mode_label(m: QueryTranslationMode) -> Seq<char> {
    match m {
        QueryTranslationMode::MultiQuery { .. } => "multi_query"@,
        QueryTranslationMode::StepBack => "step_back"@,
        QueryTranslationMode::RagFusion { .. } => "rag_fusion"@,
    }
}

/// The name of a mode in the mode selector.
pub fn mode_name(mode: &QueryTranslationMode) -> (r: &'static str)
    ensures
        r@ == mode_label(*mode),
{
    match mode {
        QueryTranslationMode::MultiQuery { .. } => "multi_query",
        QueryTranslationMode::StepBack => "step_back",
        QueryTranslationMode::RagFusion { .. } => "rag_fusion",
    }
}

/// The mode a selector name picks, with its default parameters: three
/// queries, and for RAG-fusion `k` 60 and ten results per query.
pub open spec fn mode_named(name: Seq<char>) -> Option<QueryTranslationMode> {
    if name == "multi_query"@ {
        Some(QueryTranslationMode::MultiQuery { num_queries: 3 })
    } else if name == "step_back"@ {
        Some(QueryTranslationMode::StepBack)
    } else if name == "rag_fusion"@ {
        Some(QueryTranslationMode::RagFusion { num_queries: 3, k: 60, limit_per_query: 10 })
    } else {
        None
    }
}

/// The mode a selector name picks; `None` for any other name.
pub fn mode_from_name(name: &str) -> (r: Option<QueryTranslationMode>)
    ensures
        r == mode_named(name@),
{
    if str_eq(name, "multi_query") {
        Some(QueryTranslationMode::MultiQuery { num_queries: 3 })
    } else if str_eq(name, "step_back") {
        Some(QueryTranslationMode::StepBack)
    } else if str_eq(name, "rag_fusion") {
        Some(QueryTranslationMode::RagFusion { num_queries: 3, k: 60, limit_per_query: 10 })
    } else {
        None
    }
}

/// Applies a choice in the mode selector: a known name sets the mode with
/// its default parameters; any other name changes nothing.
pub fn apply_mode_input(variant: &mut NodeVariant, name: &str)
    ensures
        mode_named(name@) matches Some(m) ==> *final(variant) == mode_edited(*old(variant), m),
        mode_named(name@) is None ==> *final(variant) == *old(variant),
{
    if let Some(m) = mode_from_name(name) {
        apply_mode_change(variant, m);
    }
}

/// Picking a mode by the name the selector shows for it gives a mode of
/// the same kind.
pub proof fn mode_names_round_trip(m: QueryTranslationMode)
    ensures
        mode_named(mode_label(m)) matches Some(n) && mode_label(n) == mode_label(m),
{
    reveal_strlit("multi_query");
    reveal_strlit("step_back");
    reveal_strlit("rag_fusion");
    assert("multi_query"@[0] != "step_back"@[0]);
    assert("multi_query"@[0] != "rag_fusion"@[0]);
    assert("step_back"@[0] != "rag_fusion"@[0]);
}

/// The retrieval settings a node runs with: its URI and limit, or an empty
/// URI and ten results when it is not a retrieval node.
pub fn retrieval_params(variant: &NodeVariant) -> (r: (String, usize))
    ensures
        *variant matches NodeVariant::Retrieval { virtual_uri, limit } ==> r.0 == virtual_uri && r.1 == limit,
        !(*variant is Retrieval) ==> r.0@.len() == 0 && r.1 == 10,
{
    match variant {
        NodeVariant::Retrieval { virtual_uri, limit } => (virtual_uri.clone(), *limit),
        _ => (String::new(), 10),
    }
}

/// A model-config field after defaults: kept when set, else the provider's
/// default for it when there is one.
pub open spec fn defaulted(own: Seq<char>, d: Option<String>) -> Seq<char> {
    if own.len() == 0 && d is Some { d->0@ } else { own }
}

/// The model-config fields (format, model, key, URL) after the LLM defaults
/// are applied: the default format fills the node's format when the node
/// leaves it empty, and the provider of the resulting format fills the
/// other empty fields.
pub open spec fn with_llm_defaults(format: Seq<char>, model: Seq<char>, key: Seq<char>, url: Seq<char>, d: AppConfig)
    -> (Seq<char>, Seq<char>, Seq<char>, Seq<char>) {
    let f = defaulted(format, d.default_format);
    match d.provider(f) {
        Some(p) => (f, defaulted(model, p.model), defaulted(key, p.api_key), defaulted(url, p.endpoint)),
        None => (f, model, key, url),
    }
}

/// `after` is `before` with the LLM defaults applied.
pub open spec fn defaults_applied(before: NodeVariant, after: NodeVariant, d: AppConfig) -> bool {
    match before {
        NodeVariant::ModelConfig { format, model_name, api_key, custom_url } => {
            &&& after is ModelConfig
            &&& (after->ModelConfig_format@, after->ModelConfig_model_name@, after->ModelConfig_api_key@,
                after->ModelConfig_custom_url@) == with_llm_defaults(format@, model_name@, api_key@, custom_url@, d)
        },
        _ => after == before,
    }
}

/// Applies the LLM defaults to a model-config node; other nodes are left as
/// they are.
pub fn apply_llm_defaults(variant: &mut NodeVariant, defaults: &AppConfig)
    ensures
        defaults_applied(*old(variant), *final(variant), *defaults),
{
    if let NodeVariant::ModelConfig { format, model_name, api_key, custom_url } = variant {
        fill_if_empty(format, &defaults.default_format);
        if let Some(provider) = defaults.get_provider(format.as_str()) {
            fill_if_empty(model_name, &provider.model);
            fill_if_empty(api_key, &provider.api_key);
            fill_if_empty(custom_url, &provider.endpoint);
        }
    }
}

/// Applies the LLM defaults to every node of a bundle being loaded, given
/// the settings of its nodes in order.
pub fn apply_llm_defaults_to_bundle(variants: &mut Vec<NodeVariant>, defaults: &AppConfig)
    ensures
        final(variants)@.len() == old(variants)@.len(),
        forall|i: int| 0 <= i < old(variants)@.len() ==> defaults_applied(old(variants)@[i], #[trigger] final(variants)@[i], *defaults),
{
    let n = variants.len();
    let ghost orig = variants@;
    let mut i: usize = 0;
    while i < n
        invariant
            n == orig.len(),
            variants@.len() == n,
            i <= n,
            forall|j: int| 0 <= j < i ==> defaults_applied(orig[j], #[trigger] variants@[j], *defaults),
            forall|j: int| i <= j < n ==> #[trigger] variants@[j] == orig[j],
        decreases n - i,
    {
        let mut v = variants.remove(i);
        apply_llm_defaults(&mut v, defaults);
        variants.insert(i, v);
        i = i + 1;
    }
}

/// Applying the LLM defaults a second time changes nothing.
pub proof fn llm_defaults_are_idempotent(format: Seq<char>, model: Seq<char>, key: Seq<char>, url: Seq<char>, d: AppConfig)
    ensures
        ({
            let (f, m, k, u) = with_llm_defaults(format, model, key, url, d);
            with_llm_defaults(f, m, k, u, d) == (f, m, k, u)
        }),
{
}

/// Loading a bundle fills a model configuration exactly as the backend's
/// merge fills a request's configuration.
pub proof fn bundle_defaults_match_request_merge(c: LlmConfig, r: LlmConfig, d: AppConfig)
    requires
        is_merge_of(r, c, d),
    ensures
        with_llm_defaults(c.format@, c.model_name@, c.api_key@, c.custom_url@, d)
            == (r.format@, r.model_name@, r.api_key@, r.custom_url@),
{
}

/// The settings of a text-output node after it receives `input`; other
/// kinds of node are left as they are.
pub open spec fn response_shown(v: NodeVariant, input: String) -> NodeVariant {
    match v {
        NodeVariant::ChatOutput { .. } => NodeVariant::ChatOutput { response: input },
        _ => v,
    }
}

/// Shows the text a text-output node received.
pub fn set_chat_response(variant: &mut NodeVariant, input: String)
    ensures
        *final(variant) == response_shown(*old(variant), input),
{
    if let NodeVariant::ChatOutput { response } = variant {
        *response = input;
    }
}

} // verus!
