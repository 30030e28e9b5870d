//! The property editor of the inspector: each editable field of a node's
//! settings, what an edit of it sends as the node's new settings, and what
//! a field reads.
use vstd::prelude::*;
use crate::nodes::{text_edited, NodeVariant};
use crate::strings::{decimal_value, decimal_within, parse_u32, parse_usize};

verus! {

/// An editable field of a node's settings.
#[derive(Debug, Clone, Copy, PartialEq, Eq, Structural)]
pub enum PropertyField {
    /// The text of a user input.
    Text,
    /// The path of a file input.
    Path,
    /// The template of a template node.
    Template,
    /// The URI a retrieval reads from.
    VirtualUri,
    /// How many results a retrieval returns.
    Limit,
    /// The length a summary is held to.
    MaxLength,
    /// A planner agent's goal.
    Goal,
    /// An executor agent's task.
    Task,
    /// A web search's query.
    Query,
    /// How many results a web search returns.
    NumResults,
    /// The code of a code-execution node.
    Code,
    /// The language of that code.
    Language,
    /// How many branches a condition has.
    Branches,
    /// How many times a loop runs.
    Iterations,
    /// The text a chat output shows.
    Response,
    /// The schema of a JSON output.
    Schema,
    /// The collection an index writes to.
    Collection,
    /// The format of a model configuration.
    Format,
    /// The model of a model configuration.
    ModelName,
    /// The API key of a model configuration.
    ApiKey,
    /// The endpoint of a model configuration.
    CustomUrl,
}

/// The fields whose editor takes a number.
pub open spec fn is_number_field(f: PropertyField) -> bool {
    f is Limit || f is MaxLength || f is NumResults || f is Branches || f is Iterations
}

/// What a text field of `v` holds; `None` when `v` has no such field.
pub open spec fn text_field(v: NodeVariant, f: PropertyField) -> Option<Seq<char>> {
    match (v, f) {
        (NodeVariant::UserInput { text }, PropertyField::Text) => Some(text@),
        (NodeVariant::FileInput { path }, PropertyField::Path) => Some(path@),
        (NodeVariant::Template { template }, PropertyField::Template) => Some(template@),
        (NodeVariant::Retrieval { virtual_uri, .. }, PropertyField::VirtualUri) => Some(virtual_uri@),
        (NodeVariant::PlannerAgent { goal }, PropertyField::Goal) => Some(goal@),
        (NodeVariant::ExecutorAgent { task }, PropertyField::Task) => Some(task@),
        (NodeVariant::WebSearch { query, .. }, PropertyField::Query) => Some(query@),
        (NodeVariant::CodeExecute { code, .. }, PropertyField::Code) => Some(code@),
        (NodeVariant::CodeExecute { language, .. }, PropertyField::Language) => Some(language@),
        (NodeVariant::ChatOutput { response }, PropertyField::Response) => Some(response@),
        (NodeVariant::JsonOutput { schema }, PropertyField::Schema) => Some(schema@),
        (NodeVariant::Index { collection }, PropertyField::Collection) => Some(collection@),
        (NodeVariant::ModelConfig { format, .. }, PropertyField::Format) => Some(format@),
        (NodeVariant::ModelConfig { model_name, .. }, PropertyField::ModelName) => Some(model_name@),
        (NodeVariant::ModelConfig { api_key, .. }, PropertyField::ApiKey) => Some(api_key@),
        (NodeVariant::ModelConfig { custom_url, .. }, PropertyField::CustomUrl) => Some(custom_url@),
        _ => None,
    }
}

/// What a number field of `v` holds; `None` when `v` has no such field.
pub open spec fn number_field(v: NodeVariant, f: PropertyField) -> Option<nat> {
    match (v, f) {
        (NodeVariant::Retrieval { limit, .. }, PropertyField::Limit) => Some(limit as nat),
        (NodeVariant::Summarizer { max_length }, PropertyField::MaxLength) => Some(max_length as nat),
        (NodeVariant::WebSearch { num_results, .. }, PropertyField::NumResults) => Some(num_results as nat),
        (NodeVariant::IfCondition { branches }, PropertyField::Branches) => Some(branches as nat),
        (NodeVariant::Loop { iterations }, PropertyField::Iterations) => Some(iterations as nat),
        _ => None,
    }
}

/// The settings an edit of field `f` to `input` sends for a node whose
/// settings are `v`: the same settings with that one field replaced. A
/// number field takes `input` only when it reads as a number of the
/// field's type. `None` when no update is sent: `v` has no such field, or
/// the number does not read.
pub open spec fn property_edit(v: NodeVariant, f: PropertyField, input: String) -> Option<NodeVariant> {
    let as_usize = decimal_within(input@, usize::MAX as nat);
    let as_u32 = decimal_within(input@, u32::MAX as nat);
    match (v, f) {
        (NodeVariant::UserInput { .. }, PropertyField::Text) => Some(NodeVariant::UserInput { text: input }),
        (NodeVariant::FileInput { .. }, PropertyField::Path) => Some(NodeVariant::FileInput { path: input }),
        (NodeVariant::Template { .. }, PropertyField::Template) => Some(NodeVariant::Template { template: input }),
        (NodeVariant::Retrieval { limit, .. }, PropertyField::VirtualUri) =>
            Some(NodeVariant::Retrieval { virtual_uri: input, limit }),
        (NodeVariant::Retrieval { virtual_uri, .. }, PropertyField::Limit) => match as_usize {
            Some(n) => Some(NodeVariant::Retrieval { virtual_uri, limit: n as usize }),
            None => None,
        },
        (NodeVariant::Summarizer { .. }, PropertyField::MaxLength) => match as_u32 {
            Some(n) => Some(NodeVariant::Summarizer { max_length: n as u32 }),
            None => None,
        },
        (NodeVariant::PlannerAgent { .. }, PropertyField::Goal) => Some(NodeVariant::PlannerAgent { goal: input }),
        (NodeVariant::ExecutorAgent { .. }, PropertyField::Task) => Some(NodeVariant::ExecutorAgent { task: input }),
        (NodeVariant::WebSearch { num_results, .. }, PropertyField::Query) =>
            Some(NodeVariant::WebSearch { query: input, num_results }),
        (NodeVariant::WebSearch { query, .. }, PropertyField::NumResults) => match as_u32 {
            Some(n) => Some(NodeVariant::WebSearch { query, num_results: n as u32 }),
            None => None,
        },
        (NodeVariant::CodeExecute { language, .. }, PropertyField::Code) =>
            Some(NodeVariant::CodeExecute { code: input, language }),
        (NodeVariant::CodeExecute { code, .. }, PropertyField::Language) =>
            Some(NodeVariant::CodeExecute { code, language: input }),
        (NodeVariant::IfCondition { .. }, PropertyField::Branches) => match as_u32 {
            Some(n) => Some(NodeVariant::IfCondition { branches: n as u32 }),
            None => None,
        },
        (NodeVariant::Loop { .. }, PropertyField::Iterations) => match as_u32 {
            Some(n) => Some(NodeVariant::Loop { iterations: n as u32 }),
            None => None,
        },
        (NodeVariant::ChatOutput { .. }, PropertyField::Response) => Some(NodeVariant::ChatOutput { response: input }),
        (NodeVariant::JsonOutput { .. }, PropertyField::Schema) => Some(NodeVariant::JsonOutput { schema: input }),
        (NodeVariant::Index { .. }, PropertyField::Collection) => Some(NodeVariant::Index { collection: input }),
        (NodeVariant::ModelConfig { model_name, api_key, custom_url, .. }, PropertyField::Format) =>
            Some(NodeVariant::ModelConfig { format: input, model_name, api_key, custom_url }),
        (NodeVariant::ModelConfig { format, api_key, custom_url, .. }, PropertyField::ModelName) =>
            Some(NodeVariant::ModelConfig { format, model_name: input, api_key, custom_url }),
        (NodeVariant::ModelConfig { format, model_name, custom_url, .. }, PropertyField::ApiKey) =>
            Some(NodeVariant::ModelConfig { format, model_name, api_key: input, custom_url }),
        (NodeVariant::ModelConfig { format, model_name, api_key, .. }, PropertyField::CustomUrl) =>
            Some(NodeVariant::ModelConfig { format, model_name, api_key, custom_url: input }),
        _ => None,
    }
}

/// The settings an edit of `field` to `input` sends (see `property_edit`).
pub fn edit_property(variant: &NodeVariant, field: PropertyField, input: String) -> (r: Option<NodeVariant>)
    ensures
        r == property_edit(*variant, field, input),
{
    match variant {
        NodeVariant::UserInput { .. } => if field == PropertyField::Text {
            Some(NodeVariant::UserInput { text: input })
        } else {
            None
        },
        NodeVariant::FileInput { .. } => if field == PropertyField::Path {
            Some(NodeVariant::FileInput { path: input })
        } else {
            None
        },
        NodeVariant::Template { .. } => if field == PropertyField::Template {
            Some(NodeVariant::Template { template: input })
        } else {
            None
        },
        NodeVariant::Retrieval { virtual_uri, limit } => match field {
            PropertyField::VirtualUri => Some(NodeVariant::Retrieval { virtual_uri: input, limit: *limit }),
            PropertyField::Limit => match parse_usize(input.as_str()) {
                Some(n) => Some(NodeVariant::Retrieval { virtual_uri: virtual_uri.clone(), limit: n }),
                None => None,
            },
            _ => None,
        },
        NodeVariant::Summarizer { .. } => if field == PropertyField::MaxLength {
            match parse_u32(input.as_str()) {
                Some(n) => Some(NodeVariant::Summarizer { max_length: n }),
                None => None,
            }
        } else {
            None
        },
        NodeVariant::PlannerAgent { .. } => if field == PropertyField::Goal {
            Some(NodeVariant::PlannerAgent { goal: input })
        } else {
            None
        },
        NodeVariant::ExecutorAgent { .. } => if field == PropertyField::Task {
            Some(NodeVariant::ExecutorAgent { task: input })
        } else {
            None
        },
        NodeVariant::WebSearch { query, num_results } => match field {
            PropertyField::Query => Some(NodeVariant::WebSearch { query: input, num_results: *num_results }),
            PropertyField::NumResults => match parse_u32(input.as_str()) {
                Some(n) => Some(NodeVariant::WebSearch { query: query.clone(), num_results: n }),
                None => None,
            },
            _ => None,
        },
        NodeVariant::CodeExecute { code, language } => match field {
            PropertyField::Code => Some(NodeVariant::CodeExecute { code: input, language: language.clone() }),
            PropertyField::Language => Some(NodeVariant::CodeExecute { code: code.clone(), language: input }),
            _ => None,
        },
        NodeVariant::IfCondition { .. } => if field == PropertyField::Branches {
            match parse_u32(input.as_str()) {
                Some(n) => Some(NodeVariant::IfCondition { branches: n }),
                None => None,
            }
        } else {
            None
        },
        NodeVariant::Loop { .. } => if field == PropertyField::Iterations {
            match parse_u32(input.as_str()) {
                Some(n) => Some(NodeVariant::Loop { iterations: n }),
                None => None,
            }
        } else {
            None
        },
        NodeVariant::ChatOutput { .. } => if field == PropertyField::Response {
            Some(NodeVariant::ChatOutput { response: input })
        } else {
            None
        },
        NodeVariant::JsonOutput { .. } => if field == PropertyField::Schema {
            Some(NodeVariant::JsonOutput { schema: input })
        } else {
            None
        },
        NodeVariant::Index { .. } => if field == PropertyField::Collection {
            Some(NodeVariant::Index { collection: input })
        } else {
            None
        },
        NodeVariant::ModelConfig { format, model_name, api_key, custom_url } => match field {
            PropertyField::Format => Some(NodeVariant::ModelConfig {
                format: input,
                model_name: model_name.clone(),
                api_key: api_key.clone(),
                custom_url: custom_url.clone(),
            }),
            PropertyField::ModelName => Some(NodeVariant::ModelConfig {
                format: format.clone(),
                model_name: input,
                api_key: api_key.clone(),
                custom_url: custom_url.clone(),
            }),
            PropertyField::ApiKey => Some(NodeVariant::ModelConfig {
                format: format.clone(),
                model_name: model_name.clone(),
                api_key: input,
                custom_url: custom_url.clone(),
            }),
            PropertyField::CustomUrl => Some(NodeVariant::ModelConfig {
                format: format.clone(),
                model_name: model_name.clone(),
                api_key: api_key.clone(),
                custom_url: input,
            }),
            _ => None,
        },
        _ => None,
    }
}

/// What an edit writes is what the field then reads: the input itself for a
/// text field, the number it reads as for a number field.
pub proof fn edited_field_reads_back(v: NodeVariant, f: PropertyField, input: String)
    requires
        property_edit(v, f, input) is Some,
    ensures
        is_number_field(f) ==> number_field(property_edit(v, f, input)->0, f) == decimal_value(input@),
        !is_number_field(f) ==> text_field(property_edit(v, f, input)->0, f) == Some(input@),
{
}

/// An edit changes no field but the one edited, and keeps the node's kind.
pub proof fn edit_leaves_other_fields(v: NodeVariant, f: PropertyField, g: PropertyField, input: String)
    requires
        property_edit(v, f, input) is Some,
        g != f,
    ensures
        text_field(property_edit(v, f, input)->0, g) == text_field(v, g),
        number_field(property_edit(v, f, input)->0, g) == number_field(v, g),
{
}

/// A number field whose input does not read as a number sends no update.
pub proof fn unreadable_number_sends_nothing(v: NodeVariant, f: PropertyField, input: String)
    requires
        is_number_field(f),
        decimal_value(input@) is None,
    ensures
        property_edit(v, f, input) is None,
{
}

/// Typing into a node's text field on the canvas gives the settings that
/// editing the same field in the inspector gives, and the field then reads
/// back the typed text. A ReAct loop's text field is its allowed actions;
/// kinds without a text field are left as they are.
pub proof fn canvas_text_edits_write_the_text(v: NodeVariant, s: String)
    ensures
        v is UserInput ==> Some(text_edited(v, s)) == property_edit(v, PropertyField::Text, s)
            && text_field(text_edited(v, s), PropertyField::Text) == Some(s@),
        v is FileInput ==> Some(text_edited(v, s)) == property_edit(v, PropertyField::Path, s)
            && text_field(text_edited(v, s), PropertyField::Path) == Some(s@),
        v is Template ==> Some(text_edited(v, s)) == property_edit(v, PropertyField::Template, s)
            && text_field(text_edited(v, s), PropertyField::Template) == Some(s@),
        v is Retrieval ==> Some(text_edited(v, s)) == property_edit(v, PropertyField::VirtualUri, s)
            && text_field(text_edited(v, s), PropertyField::VirtualUri) == Some(s@),
        v matches NodeVariant::ReActLoop { max_iterations, .. } ==> text_edited(v, s)
            == (NodeVariant::ReActLoop { action_type: s, max_iterations }),
        !((v is UserInput) || (v is FileInput) || (v is Template) || (v is Retrieval) || (v is ReActLoop))
            ==> text_edited(v, s) == v,
{
}

} // verus!
