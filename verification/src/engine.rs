//! Decisions of graph execution: where a node's inputs come from, how a
//! model node reads its configuration, and what retrieval produces.
use vstd::prelude::*;
use std::collections::HashMap;
use crate::strings::str_eq;
use crate::graph::ConnectionState;
use crate::llm::LlmConfig;
use crate::react::{end_warning_of, outcome, ReactLoop};
use crate::nodes::{retrieval_params, NodeVariant, QueryTranslationMode};
use crate::rag::RetrievalResult;
use crate::strings::{find_from, lemma_find_char_at, lemma_no_char_found, chars_of, concat, find, find_in, join, joined, lemma_find_from_occurs, substring};

verus! {

broadcast use vstd::std_specs::hash::group_hash_axioms;

/// The configuration a model node uses when nothing feeds its `config` port.
pub const DEFAULT_MODEL_CONFIG_JSON: &'static str = r#"{"format":"openai","model_name":"","api_key":"","custom_url":""}"#;

/// The text before the first `c` in `s` (all of `s` when there is none).
pub open spec fn up_to(s: Seq<char>, c: char) -> Seq<char> {
    match find(s, seq![c]) {
        Some(i) => s.subrange(0, i),
        None => s,
    }
}

/// The text a field's name is looked up by: the quoted key and a colon.
pub open spec fn json_key_pattern(key: Seq<char>) -> Seq<char> {
    seq!['"'] + key + seq!['"', ':']
}

/// The value of `key` as the lightweight JSON reader sees it: after the
/// first `"key":`, a quoted value up to its closing quote, or an unquoted
/// value up to the next comma or closing brace; empty when the key is
/// absent.
pub open spec fn json_str_value(json: Seq<char>, key: Seq<char>) -> Seq<char> {
    let pat = json_key_pattern(key);
    match find(json, pat) {
        None => Seq::empty(),
        Some(start) => {
            let rest = json.subrange(start + pat.len(), json.len() as int);
            if rest.len() > 0 && rest[0] == '"' {
                up_to(rest.drop_first(), '"')
            } else {
                up_to(up_to(rest, ','), '}')
            }
        },
    }
}

/// The text of `s` before the first `c`.
fn up_to_char(s: &str, c: char) -> (r: String)
    ensures
        r@ == up_to(s@, c),
{
    let cs = chars_of(s);
    let pat = vec![c];
    assert(pat@ =~= seq![c]);
    match find_in(&cs, &pat, 0) {
        Some(i) => {
            proof { lemma_find_from_occurs(s@, seq![c], 0); }
            substring(s, 0, i)
        },
        None => String::from_str(s),
    }
}

/// Reads the value of `key` out of a flat JSON object (see `json_str_value`).
pub fn get_json_str(json: &str, key: &str) -> (r: String)
    ensures
        r@ == json_str_value(json@, key@),
{
    proof { reveal_strlit("\""); reveal_strlit("\":"); }
    let mut pat = String::from_str("\"");
    pat.append(key);
    pat.append("\":");
    assert(pat@ =~= json_key_pattern(key@));
    let cs = chars_of(json);
    let ps = chars_of(pat.as_str());
    match find_in(&cs, &ps, 0) {
        None => String::new(),
        Some(start) => {
            proof { lemma_find_from_occurs(json@, pat@, 0); }
            assert(start + ps.len() <= cs.len());
            let rest = substring(json, start + ps.len(), cs.len());
            let rc = chars_of(rest.as_str());
            if rc.len() > 0 && rc[0] == '"' {
                let body = substring(rest.as_str(), 1, rc.len());
                assert(body@ =~= rest@.drop_first());
                up_to_char(body.as_str(), '"')
            } else {
                let before_comma = up_to_char(rest.as_str(), ',');
                up_to_char(before_comma.as_str(), '}')
            }
        },
    }
}

/// `c` is the model configuration the JSON object `json` describes.
pub open spec fn is_json_config(c: LlmConfig, json: Seq<char>) -> bool {
    &&& c.format@ == json_str_value(json, "format"@)
    &&& c.model_name@ == json_str_value(json, "model_name"@)
    &&& c.api_key@ == json_str_value(json, "api_key"@)
    &&& c.custom_url@ == json_str_value(json, "custom_url"@)
}

/// The model configuration a JSON object describes.
pub fn model_config_from_json(json: &str) -> (r: LlmConfig)
    ensures
        is_json_config(r, json@),
{
    LlmConfig {
        format: get_json_str(json, "format"),
        model_name: get_json_str(json, "model_name"),
        api_key: get_json_str(json, "api_key"),
        custom_url: get_json_str(json, "custom_url"),
    }
}

/// The first connection into port `port` of `node_id`.
pub open spec fn first_into(conns: Seq<ConnectionState>, node_id: u32, port: Seq<char>) -> Option<ConnectionState>
    decreases conns.len(),
{
    if conns.len() == 0 {
        None
    } else if conns[0].target_node_id == node_id && conns[0].target_port_name@ == port {
        Some(conns[0])
    } else {
        first_into(conns.drop_first(), node_id, port)
    }
}

/// The first connection out of port `port` of `node_id`.
pub open spec fn first_out_of(conns: Seq<ConnectionState>, node_id: u32, port: Seq<char>) -> Option<ConnectionState>
    decreases conns.len(),
{
    if conns.len() == 0 {
        None
    } else if conns[0].source_node_id == node_id && conns[0].source_port_name@ == port {
        Some(conns[0])
    } else {
        first_out_of(conns.drop_first(), node_id, port)
    }
}

/// Finds the first connection into (`into`) or out of (`!into`) a port.
fn first_at_port(conns: &Vec<ConnectionState>, node_id: u32, port: &str, into: bool) -> (r: Option<usize>)
    ensures
        into ==> match first_into(conns@, node_id, port@) {
            Some(c) => r matches Some(i) && i < conns@.len() && conns@[i as int] == c,
            None => r is None,
        },
        !into ==> match first_out_of(conns@, node_id, port@) {
            Some(c) => r matches Some(i) && i < conns@.len() && conns@[i as int] == c,
            None => r is None,
        },
{
    let n = conns.len();
    let mut i: usize = 0;
    assert(conns@.subrange(0, n as int) =~= conns@);
    while i < n
        invariant
            n == conns@.len(),
            i <= n,
            into ==> first_into(conns@.subrange(i as int, n as int), node_id, port@) == first_into(conns@, node_id, port@),
            !into ==> first_out_of(conns@.subrange(i as int, n as int), node_id, port@) == first_out_of(conns@, node_id, port@),
        decreases n - i,
    {
        assert(conns@.subrange(i as int, n as int).drop_first() =~= conns@.subrange(i + 1, n as int));
        let c = &conns[i];
        let hit = if into {
            c.target_node_id == node_id && str_eq(c.target_port_name.as_str(), port)
        } else {
            c.source_node_id == node_id && str_eq(c.source_port_name.as_str(), port)
        };
        if hit {
            return Some(i);
        }
        i = i + 1;
    }
    None
}

/// The value that feeds port `port` of `node_id`: the result of the source
/// of the first connection into that port, if that source has produced one.
pub fn port_input(conns: &Vec<ConnectionState>, results: &HashMap<u32, String>, node_id: u32, port: &str) -> (r: Option<String>)
    ensures
        match first_into(conns@, node_id, port@) {
            Some(c) => if results@.contains_key(c.source_node_id) {
                r == Some(results@[c.source_node_id])
            } else {
                r is None
            },
            None => r is None,
        },
{
    match first_at_port(conns, node_id, port, true) {
        Some(i) => match results.get(&conns[i].source_node_id) {
            Some(v) => Some(v.clone()),
            None => None,
        },
        None => None,
    }
}

/// The value feeding port `port` of `node_id`: the result of the source of
/// the first connection into that port, when that source has produced one.
pub open spec fn port_value(conns: Seq<ConnectionState>, results: Map<u32, String>, node_id: u32, port: Seq<char>)
    -> Option<Seq<char>> {
    match first_into(conns, node_id, port) {
        Some(c) => if results.contains_key(c.source_node_id) {
            Some(results[c.source_node_id]@)
        } else {
            None
        },
        None => None,
    }
}

/// The value feeding a port, or `default` when none does.
pub open spec fn input_or(conns: Seq<ConnectionState>, results: Map<u32, String>, node_id: u32, port: Seq<char>,
    default: Seq<char>) -> Seq<char> {
    match port_value(conns, results, node_id, port) {
        Some(v) => v,
        None => default,
    }
}

/// The value feeding a port, or the empty string.
fn input_or_empty(conns: &Vec<ConnectionState>, results: &HashMap<u32, String>, node_id: u32, port: &str) -> (r: String)
    ensures
        r@ == input_or(conns@, results@, node_id, port@, Seq::empty()),
{
    match port_input(conns, results, node_id, port) {
        Some(v) => v,
        None => String::new(),
    }
}

/// What a model node sends: the configuration read from the JSON on its
/// `config` port (the default configuration when nothing feeds it) and the
/// prompt on its `prompt` port (empty when nothing feeds it).
pub fn model_node_call(conns: &Vec<ConnectionState>, results: &HashMap<u32, String>, node_id: u32)
    -> (r: (LlmConfig, String))
    ensures
        is_json_config(r.0, input_or(conns@, results@, node_id, "config"@, DEFAULT_MODEL_CONFIG_JSON@)),
        r.1@ == input_or(conns@, results@, node_id, "prompt"@, Seq::empty()),
{
    let config = match port_input(conns, results, node_id, "config") {
        Some(json) => model_config_from_json(json.as_str()),
        None => model_config_from_json(DEFAULT_MODEL_CONFIG_JSON),
    };
    (config, input_or_empty(conns, results, node_id, "prompt"))
}

/// What a retrieval node asks for.
#[derive(Debug)]
pub struct RetrievalCall {
    pub virtual_uri: String,
    pub query: String,
    pub limit: usize,
}

/// What a retrieval node asks for: the query on its `query` port (empty
/// when nothing feeds it), with the node's URI and limit (an empty URI and
/// ten results when the node's settings are not a retrieval's).
pub fn retrieval_node_call(conns: &Vec<ConnectionState>, results: &HashMap<u32, String>, node_id: u32,
    variant: &NodeVariant) -> (r: RetrievalCall)
    ensures
        r.query@ == input_or(conns@, results@, node_id, "query"@, Seq::empty()),
        *variant matches NodeVariant::Retrieval { virtual_uri, limit } ==> r.virtual_uri == virtual_uri && r.limit == limit,
        !(*variant is Retrieval) ==> r.virtual_uri@.len() == 0 && r.limit == 10,
{
    let (virtual_uri, limit) = retrieval_params(variant);
    RetrievalCall { virtual_uri, query: input_or_empty(conns, results, node_id, "query"), limit }
}

/// What a query-translation node asks for.
#[derive(Debug)]
pub struct TranslationCall {
    pub mode: QueryTranslationMode,
    pub query: String,
    pub config: LlmConfig,
    /// The URI RAG-fusion retrieves from.
    pub virtual_uri: String,
}

/// What a query-translation node asks for: its mode, the query on its
/// `query` port, the model configuration read from the JSON on its `config`
/// port (the node's own fields when nothing feeds that port), and for
/// RAG-fusion the URI on its `virtual_uri` port (empty when nothing feeds a
/// port). `None` when the node's settings are not a query translation's:
/// such a node ends the run.
pub fn translation_node_call(conns: &Vec<ConnectionState>, results: &HashMap<u32, String>, node_id: u32,
    variant: &NodeVariant) -> (r: Option<TranslationCall>)
    ensures
        !(*variant is QueryTranslation) ==> r is None,
        *variant matches NodeVariant::QueryTranslation { mode, format, model_name, api_key, custom_url } ==> {
            &&& r matches Some(c)
            &&& c.mode == mode
            &&& c.query@ == input_or(conns@, results@, node_id, "query"@, Seq::empty())
            &&& c.virtual_uri@ == input_or(conns@, results@, node_id, "virtual_uri"@, Seq::empty())
            &&& match port_value(conns@, results@, node_id, "config"@) {
                Some(json) => is_json_config(c.config, json),
                None => c.config.format == format && c.config.model_name == model_name
                    && c.config.api_key == api_key && c.config.custom_url == custom_url,
            }
        },
{
    match variant {
        NodeVariant::QueryTranslation { mode, format, model_name, api_key, custom_url } => {
            let config = match port_input(conns, results, node_id, "config") {
                Some(json) => model_config_from_json(json.as_str()),
                None => LlmConfig {
                    format: format.clone(),
                    model_name: model_name.clone(),
                    api_key: api_key.clone(),
                    custom_url: custom_url.clone(),
                },
            };
            Some(TranslationCall {
                mode: *mode,
                query: input_or_empty(conns, results, node_id, "query"),
                config,
                virtual_uri: input_or_empty(conns, results, node_id, "virtual_uri"),
            })
        },
        _ => None,
    }
}

/// What a ReAct node starts from.
#[derive(Debug)]
pub struct ReactNodeCall {
    pub action_type: String,
    pub max_iterations: u32,
    /// The question, from the node's `input` port.
    pub input_text: String,
    pub config: LlmConfig,
}

/// What a ReAct node starts from: its allowed actions and iteration budget,
/// the question on its `input` port (empty when nothing feeds it) and the
/// model configuration read from the JSON on its `config` port (the default
/// configuration when nothing feeds it). `None` when the node's settings
/// are not a ReAct loop's: the node then outputs `Error: invalid variant`
/// and the run ends.
pub fn react_node_call(conns: &Vec<ConnectionState>, results: &HashMap<u32, String>, node_id: u32,
    variant: &NodeVariant) -> (r: Option<ReactNodeCall>)
    ensures
        !(*variant is ReActLoop) ==> r is None,
        *variant matches NodeVariant::ReActLoop { action_type, max_iterations } ==> {
            &&& r matches Some(c)
            &&& c.action_type == action_type
            &&& c.max_iterations == max_iterations
            &&& c.input_text@ == input_or(conns@, results@, node_id, "input"@, Seq::empty())
            &&& is_json_config(c.config, input_or(conns@, results@, node_id, "config"@, DEFAULT_MODEL_CONFIG_JSON@))
        },
{
    match variant {
        NodeVariant::ReActLoop { action_type, max_iterations } => {
            let (config, _) = model_node_call(conns, results, node_id);
            Some(ReactNodeCall {
                action_type: action_type.clone(),
                max_iterations: *max_iterations,
                input_text: input_or_empty(conns, results, node_id, "input"),
                config,
            })
        },
        _ => None,
    }
}

/// The node that the first connection out of port `port` of `node_id`
/// leads to.
pub fn port_target(conns: &Vec<ConnectionState>, node_id: u32, port: &str) -> (r: Option<u32>)
    ensures
        match first_out_of(conns@, node_id, port@) {
            Some(c) => r == Some(c.target_node_id),
            None => r is None,
        },
{
    match first_at_port(conns, node_id, port, false) {
        Some(i) => Some(conns[i].target_node_id),
        None => None,
    }
}

/// The texts of retrieval results, separated by `\n---\n`.
pub open spec fn results_text_of(results: Seq<RetrievalResult>) -> Seq<char> {
    joined(results.map_values(|r: RetrievalResult| r.text@), "\n---\n"@)
}

/// The output of a retrieval node: the texts of its results, separated by
/// `\n---\n`.
pub fn results_text(results: &Vec<RetrievalResult>) -> (r: String)
    ensures
        r@ == results_text_of(results@),
{
    let mut texts: Vec<String> = Vec::new();
    let n = results.len();
    let mut i: usize = 0;
    while i < n
        invariant
            n == results@.len(),
            i <= n,
            texts@.map_values(|t: String| t@) == results@.take(i as int).map_values(|r: RetrievalResult| r.text@),
        decreases n - i,
    {
        let ghost before = texts@.map_values(|t: String| t@);
        let t = results[i].text.clone();
        texts.push(t);
        assert(texts@.map_values(|t: String| t@) =~= before.push(t@));
        assert(results@.take(i + 1).map_values(|r: RetrievalResult| r.text@)
            =~= results@.take(i as int).map_values(|r: RetrievalResult| r.text@).push(results@[i as int].text@));
        i = i + 1;
    }
    assert(results@.take(n as int) =~= results@);
    join(&texts, "\n---\n")
}

/// What a ReAct loop observes from one retrieval: the result texts, or the
/// error prefixed with `Error: `.
pub fn observation_of(result: &Result<Vec<RetrievalResult>, String>) -> (r: String)
    ensures
        result matches Ok(v) ==> r@ == results_text_of(v@),
        result matches Err(e) ==> r@ == "Error: "@ + e@,
{
    match result {
        Ok(v) => results_text(v),
        Err(e) => concat("Error: ", e.as_str()),
    }
}

/// How a ReAct node ends.
#[derive(Debug)]
pub struct ReactEnd {
    /// The node's output.
    pub output: String,
    /// The warning of a loop that ran out of turns without a final answer.
    pub warning: Option<String>,
    /// The node the `done` port fires, whose downstream nodes run next.
    pub done_target: Option<u32>,
}

/// Ends a ReAct node's loop: its output (see `outcome`), the warning when
/// no final answer came, and the node the first connection out of its
/// `done` port leads to. The done port fires however the loop ended.
pub fn react_loop_end(state: &ReactLoop, conns: &Vec<ConnectionState>, node_id: u32) -> (r: ReactEnd)
    ensures
        r.output@ == outcome(*state),
        r.warning matches Some(w) ==> end_warning_of(*state) == Some(w@),
        r.warning is None ==> end_warning_of(*state) is None,
        match first_out_of(conns@, node_id, "done"@) {
            Some(c) => r.done_target == Some(c.target_node_id),
            None => r.done_target is None,
        },
{
    ReactEnd { output: state.finish(), warning: state.end_warning(), done_target: port_target(conns, node_id, "done") }
}

/// A quoted value with no quote inside is read whole, whatever it holds
/// (colons and slashes of a URL included), for a key that opens the object.
pub proof fn quoted_json_values_are_read_whole(key: Seq<char>, value: Seq<char>, rest: Seq<char>)
    requires
        forall|i: int| 0 <= i < value.len() ==> value[i] != '"',
    ensures
        json_str_value("{\""@ + key + "\":\""@ + value + "\""@ + rest, key) == value,
{
    reveal_strlit("{\"");
    reveal_strlit("\":\"");
    reveal_strlit("\"");
    let json = "{\""@ + key + "\":\""@ + value + "\""@ + rest;
    let pat = json_key_pattern(key);
    let p = pat.len() as int;
    assert(json =~= seq!['{'] + pat + seq!['"'] + value + seq!['"'] + rest);
    assert(json.subrange(0, p)[0] == '{');
    assert(json.subrange(0, p) != pat) by {
        assert(pat[0] == '"');
    }
    assert(json.subrange(1, 1 + p) =~= pat);
    assert(pat.len() > 0);
    assert(1 + p <= json.len());
    assert(find_from(json, pat, 1) == Some(1int));
    assert(find_from(json, pat, 0) == find_from(json, pat, 1));
    assert(find(json, pat) == Some(1int));
    let after = json.subrange(1 + p, json.len() as int);
    assert(after =~= seq!['"'] + value + seq!['"'] + rest);
    let body = after.drop_first();
    assert(body =~= value + seq!['"'] + rest);
    assert(body[value.len() as int] == '"');
    assert forall|j: int| 0 <= j < value.len() implies body[j] != '"' by {
        assert(body[j] == value[j]);
    }
    lemma_find_char_at(body, '"', 0, value.len() as int);
    assert(body.subrange(0, value.len() as int) =~= value);
}

/// An unquoted value (a number, `true`, ...) followed by a comma is read
/// whole, up to that comma, for a key that opens the object.
pub proof fn bare_json_values_are_read_to_the_comma(key: Seq<char>, value: Seq<char>, rest: Seq<char>)
    requires
        value.len() > 0,
        value[0] != '"',
        forall|i: int| 0 <= i < value.len() ==> value[i] != ',' && value[i] != '}',
    ensures
        json_str_value("{\""@ + key + "\":"@ + value + ","@ + rest, key) == value,
{
    reveal_strlit("{\"");
    reveal_strlit("\":");
    reveal_strlit(",");
    let json = "{\""@ + key + "\":"@ + value + ","@ + rest;
    let pat = json_key_pattern(key);
    let p = pat.len() as int;
    assert(json =~= seq!['{'] + pat + value + seq![','] + rest);
    assert(json.subrange(0, p)[0] == '{');
    assert(json.subrange(0, p) != pat) by {
        assert(pat[0] == '"');
    }
    assert(json.subrange(1, 1 + p) =~= pat);
    assert(pat.len() > 0);
    assert(find_from(json, pat, 1) == Some(1int));
    assert(find_from(json, pat, 0) == find_from(json, pat, 1));
    let after = json.subrange(1 + p, json.len() as int);
    let n = value.len() as int;
    assert(after =~= value + seq![','] + rest);
    assert(after[0] == value[0]);
    assert(after[n] == ',');
    assert forall|j: int| 0 <= j < n implies after[j] != ',' by {
        assert(after[j] == value[j]);
    }
    lemma_find_char_at(after, ',', 0, n);
    assert(after.subrange(0, n) =~= value);
    lemma_no_char_found(value, '}', 0);
}

} // verus!
