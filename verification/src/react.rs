//! The ReAct loop: think, act, observe. The node asks the model for the next
//! step, runs the retrieval subgraph when the model asks for it, and stops on
//! a final answer or when its iteration budget is spent. This module holds
//! the decisions of the loop itself (`engine::react_loop_end` adds where its
//! `done` port leads); the caller performs the model calls and the
//! retrievals and reports what came back.
use vstd::prelude::*;
use crate::llm::LlmOutput;
use crate::strings::str_eq;
use crate::strings::{
    all_ws, is_ws, lemma_find_at, lemma_find_char_at, lemma_no_char_found, trimming_keeps_the_inside,
    concat,
    chars_of, find, find_from, find_in, lemma_find_from_occurs, split_pieces, has_prefix, split_on, starts_with, strip_prefixes, strip_repeated_prefix,
    substring, trim, trimmed,
};

verus! {

/// The instructions sent ahead of every ReAct turn.
pub const REACT_PROMPT_TEMPLATE: &'static str = r#"Answer the following questions as best you can. You have access to the following tools:

- retrieval: Query a vector database. Input: {"virtual_uri": "...", "query": "...", "limit": N}

Use the following format:

Question: the input question you must answer
{history}
Thought: you should always think about what to do
Action: the action to take (must be one of: retrieval, FINAL)
Action Input: the input to the action
Observation: the result of the action
... (this Thought/Action/Action Input/Observation can repeat N times)

When you know the final answer, output:
FINAL: your final answer here"#;

/// The lowercase form of `s` under Unicode case mapping (`str::to_lowercase`).
pub uninterp spec fn lowercase(s: Seq<char>) -> Seq<char>;

/// Lowercases `s`.
///
/// Calls `str::to_lowercase`; the contract claims only that the result is a
/// function of the characters of `s`, named `lowercase`.
#[verifier::external_body]
pub(crate) fn to_lowercase(s: &str) -> (r: String)
    ensures
        r@ == lowercase(s@),
{
    s.to_lowercase()
}

/// The prompt of one turn: the instructions, the question and the history.
pub open spec fn react_prompt_text(input: Seq<char>, history: Seq<char>) -> Seq<char> {
    REACT_PROMPT_TEMPLATE@ + "\n\nQuestion: "@ + input + "\n"@ + history + "\nThought:"@
}

/// The reply opens with `FINAL:`.
pub open spec fn is_final(reply: Seq<char>) -> bool {
    starts_with(reply, "FINAL:"@)
}

/// The final answer carried by a `FINAL:` reply.
pub open spec fn final_answer_of(reply: Seq<char>) -> Seq<char> {
    trimmed(strip_prefixes(reply, "FINAL:"@))
}

/// The reply names both an action and its input.
pub open spec fn asks_action(reply: Seq<char>) -> bool {
    find(reply, "Action:"@) is Some && find(reply, "Action Input:"@) is Some
}

/// Where the action name is read from: seven characters past `Action:`.
pub open spec fn action_start(reply: Seq<char>) -> int {
    find(reply, "Action:"@)->0 + 7
}

/// Where the action name ends: the first line break after `Action:`, or
/// the end of the reply.
pub open spec fn action_end(reply: Seq<char>) -> int {
    match find_from(reply, seq!['\n'], action_start(reply) as nat) {
        Some(i) => i,
        None => reply.len() as int,
    }
}

/// Where the action input is read from: just past the marker
/// `Action Input:`.
pub open spec fn input_start(reply: Seq<char>) -> int {
    find(reply, "Action Input:"@)->0 + 13
}

/// Where the action input ends: the first line break at or after its start.
pub open spec fn input_end(reply: Seq<char>) -> int {
    match find_from(reply, seq!['\n'], input_start(reply) as nat) {
        Some(i) => i,
        None => reply.len() as int,
    }
}

/// The action a reply asks for.
pub open spec fn action_of(reply: Seq<char>) -> Seq<char> {
    trimmed(reply.subrange(action_start(reply), action_end(reply)))
}

/// The input a reply gives its action.
pub open spec fn action_input_of(reply: Seq<char>) -> Seq<char> {
    trimmed(reply.subrange(input_start(reply), input_end(reply)))
}

/// How a model reply reads.
#[derive(Debug)]
pub enum ReactReply {
    /// The model gave its final answer.
    Final { answer: String },
    /// The model asked for `action` with `action_input`.
    Act { action: String, action_input: String },
    /// Neither: the reply counts as a thought.
    Thought,
}

/// One requested action, kept until its observations come back.
#[derive(Debug)]
pub struct ReactCall {
    /// The model reply that asked for the action.
    pub llm_output: String,
    pub action: String,
    pub action_input: String,
}

/// The history line of a failed model call.
pub open spec fn failure_entry(e: Seq<char>) -> Seq<char> {
    "Thought: Error: LLM call failed: "@ + e + "\n"@
}

/// The entries of `action_type` as the loop compares them: split at commas,
/// trimmed and lowercased.
pub open spec fn allowed_entry(action_type: Seq<char>, i: int) -> Seq<char> {
    lowercase(trimmed(split_on(action_type, ',')[i]))
}

/// `action` is one of the actions `action_type` allows, or it allows `all`.
pub open spec fn action_allowed(action_type: Seq<char>, action: Seq<char>) -> bool {
    exists|i: int| 0 <= i < split_on(action_type, ',').len()
        && (#[trigger] allowed_entry(action_type, i) == lowercase(action)
            || allowed_entry(action_type, i) == "all"@)
}

/// The history entry of an action and what it observed.
pub open spec fn observation_entry(llm_output: Seq<char>, action: Seq<char>, action_input: Seq<char>, observation: Seq<char>) -> Seq<char> {
    "Thought: "@ + llm_output + "\nAction: "@ + action + "\nAction Input: "@ + action_input
        + "\nObservation: "@ + observation + "\n"@
}

/// The state of one ReAct node's loop.
#[derive(Debug)]
pub struct ReactLoop {
    /// Comma-separated actions the node allows ("all" allows every one).
    pub action_type: String,
    pub max_iterations: u32,
    /// The question.
    pub input_text: String,
    /// Thoughts, actions and observations so far.
    pub history: String,
    /// Turns begun so far.
    pub iterations: u32,
    pub final_answer: Option<String>,
    /// The warnings the loop has raised, in order.
    pub warnings: Vec<String>,
}

/// The texts of a loop's warnings.
pub open spec fn warning_texts(s: ReactLoop) -> Seq<Seq<char>> {
    s.warnings@.map_values(|w: String| w@)
}

/// The warning a reply raises, if any: a refused, unconnected,
/// unimplemented or unknown action, or a reply that is neither an action
/// nor a final answer.
pub open spec fn reply_warning(s: ReactLoop, out: Seq<char>, has_action_trigger: bool) -> Option<Seq<char>> {
    if is_final(out) {
        None
    } else if asks_action(out) {
        let action = action_of(out);
        if !action_allowed(s.action_type@, action) {
            Some("Action '"@ + action + "' is not allowed by action_type '"@ + s.action_type@ + "'"@)
        } else if action == "retrieval"@ {
            if has_action_trigger { None } else { Some("No action_trigger connection - cannot execute action"@) }
        } else if action == "web_search"@ {
            Some("web_search not yet implemented"@)
        } else if action == "code_exec"@ {
            Some("code_exec not yet implemented"@)
        } else {
            Some("Unknown action type: "@ + action)
        }
    } else {
        Some("Could not parse LLM output as Action or FINAL"@)
    }
}

/// The warning a turn raises: none for a failed model call, else that of
/// its reply.
pub open spec fn turn_warning(s: ReactLoop, reply: Result<String, String>, has_action_trigger: bool)
    -> Option<Seq<char>> {
    match reply {
        Ok(text) => reply_warning(s, text@, has_action_trigger),
        Err(_) => None,
    }
}

/// `ws` followed by `w`, when there is one.
pub open spec fn with_warning(ws: Seq<Seq<char>>, w: Option<Seq<char>>) -> Seq<Seq<char>> {
    match w {
        Some(x) => ws.push(x),
        None => ws,
    }
}

/// The warning raised when a loop ends without a final answer.
pub open spec fn end_warning_of(s: ReactLoop) -> Option<Seq<char>> {
    if s.final_answer is None { Some("Max iterations reached without FINAL answer"@) } else { None }
}

/// What the loop does after a reply, as a function of the state before it:
/// the new history, the final answer it settles on (if any), and whether the
/// retrieval subgraph is to run.
pub open spec fn after_reply(s: ReactLoop, out: Seq<char>, has_action_trigger: bool) -> (Seq<char>, Option<Seq<char>>, bool) {
    let h = s.history@;
    if is_final(out) {
        (h, Some(final_answer_of(out)), false)
    } else if asks_action(out) {
        let action = action_of(out);
        let input = action_input_of(out);
        if !action_allowed(s.action_type@, action) {
            (h, Some("Error: action '"@ + action + "' is not allowed. Allowed actions: "@ + s.action_type@), false)
        } else if action == "retrieval"@ {
            if has_action_trigger {
                (h, None, true)
            } else {
                (h, Some("Error: no action_trigger connection"@), false)
            }
        } else if action == "web_search"@ {
            (h + observation_entry(out, action, input, "Error: web_search not implemented"@), None, false)
        } else if action == "code_exec"@ {
            (h + observation_entry(out, action, input, "Error: code_exec not implemented"@), None, false)
        } else {
            (h, Some("Error: unknown action type: "@ + action), false)
        }
    } else {
        (h + "Thought: "@ + out + "\n"@, None, false)
    }
}

/// What the loop does after a turn: a failed model call is written to the
/// history and the next turn retries; a reply goes as `after_reply` says.
pub open spec fn after_turn(s: ReactLoop, reply: Result<String, String>, has_action_trigger: bool)
    -> (Seq<char>, Option<Seq<char>>, bool) {
    match reply {
        Ok(text) => after_reply(s, text@, has_action_trigger),
        Err(e) => (s.history@ + failure_entry(e@), None, false),
    }
}

/// The node's output when the loop is over.
pub open spec fn outcome(s: ReactLoop) -> Seq<char> {
    match s.final_answer {
        Some(a) => a@,
        None => if s.history@.len() == 0 {
            "Max iterations reached without producing a final answer."@
        } else {
            trimmed(s.history@)
        },
    }
}

/// The outcome of a turn's model call: the text of the output, or its error
/// when the output carries one.
pub fn turn_result(output: LlmOutput) -> (r: Result<String, String>)
    ensures
        output.error@.len() > 0 ==> r == Err::<String, String>(output.error),
        output.error@.len() == 0 ==> r == Ok::<String, String>(output.text),
{
    if output.error.as_str().is_empty() {
        Ok(output.text)
    } else {
        Err(output.error)
    }
}

/// Reads a model reply: a final answer, an action request, or a thought.
pub fn parse_react_reply(reply: &str) -> (r: ReactReply)
    ensures
        is_final(reply@) ==> (r matches ReactReply::Final { answer } && answer@ == final_answer_of(reply@)),
        !is_final(reply@) && asks_action(reply@) ==> (r matches ReactReply::Act { action, action_input }
            && action@ == action_of(reply@) && action_input@ == action_input_of(reply@)),
        !is_final(reply@) && !asks_action(reply@) ==> r is Thought,
{
    proof {
        reveal_strlit("FINAL:");
        reveal_strlit("Action:");
        reveal_strlit("Action Input:");
    }
    let cs = chars_of(reply);
    if has_prefix(&cs, &chars_of("FINAL:")) {
        let stripped = strip_repeated_prefix(reply, "FINAL:");
        return ReactReply::Final { answer: trim(stripped.as_str()) };
    }
    match (find_in(&cs, &chars_of("Action:"), 0), find_in(&cs, &chars_of("Action Input:"), 0)) {
        (Some(a), Some(b)) => {
            proof {
                lemma_find_from_occurs(reply@, "Action:"@, 0);
                lemma_find_from_occurs(reply@, "Action Input:"@, 0);
            }
            let nl = vec!['\n'];
            assert(nl@ =~= seq!['\n']);
            let n = cs.len();
            let astart = a + 7;
            let end = match find_in(&cs, &nl, astart) {
                Some(e) => {
                    proof { lemma_find_from_occurs(reply@, seq!['\n'], astart as nat); }
                    e
                },
                None => n,
            };
            let action = trim(substring(reply, astart, end).as_str());
            let istart = b + 13;
            let iend = match find_in(&cs, &nl, istart) {
                Some(e) => {
                    proof { lemma_find_from_occurs(reply@, seq!['\n'], istart as nat); }
                    e
                },
                None => n,
            };
            let action_input = trim(substring(reply, istart, iend).as_str());
            ReactReply::Act { action, action_input }
        },
        _ => ReactReply::Thought,
    }
}

/// Whether `action_type` allows `action` (see `action_allowed`).
pub fn action_allowed_by(action_type: &str, action: &str) -> (r: bool)
    ensures
        r == action_allowed(action_type@, action@),
{
    let pieces = split_pieces(action_type, ',');
    let lower = to_lowercase(action);
    let all = String::from_str("all");
    let n = pieces.len();
    let mut i: usize = 0;
    while i < n
        invariant
            n == pieces@.len(),
            pieces@.map_values(|p: String| p@) == split_on(action_type@, ','),
            lower@ == lowercase(action@),
            all@ == "all"@,
            i <= n,
            forall|j: int| 0 <= j < i ==> !(#[trigger] allowed_entry(action_type@, j) == lowercase(action@)
                || allowed_entry(action_type@, j) == "all"@),
        decreases n - i,
    {
        assert(pieces@.map_values(|p: String| p@)[i as int] == pieces@[i as int]@);
        let entry = to_lowercase(trim(pieces[i].as_str()).as_str());
        assert(entry@ == allowed_entry(action_type@, i as int));
        if entry == lower || entry == all {
            return true;
        }
        i = i + 1;
    }
    false
}

impl ReactLoop {
    /// The loop never begins more turns than its budget.
    pub open spec fn wf(self) -> bool {
        self.iterations <= self.max_iterations
    }

    /// The loop still has turns to take.
    pub open spec fn running(self) -> bool {
        self.iterations < self.max_iterations && self.final_answer is None
    }

    /// A fresh loop for a question, with no history.
    pub fn new(action_type: String, max_iterations: u32, input_text: String) -> (r: ReactLoop)
        ensures
            r.wf(),
            r.action_type == action_type,
            r.max_iterations == max_iterations,
            r.input_text == input_text,
            r.history@.len() == 0,
            r.iterations == 0,
            r.final_answer is None,
            r.warnings@.len() == 0,
    {
        ReactLoop {
            action_type,
            max_iterations,
            input_text,
            history: String::new(),
            iterations: 0,
            final_answer: None,
            warnings: Vec::new(),
        }
    }

    /// Begins the next turn: while the loop runs, counts the turn and gives
    /// the prompt to send; otherwise gives `None`.
    pub fn begin_turn(&mut self) -> (r: Option<String>)
        requires
            old(self).wf(),
        ensures
            final(self).wf(),
            old(self).running() ==> {
                &&& r matches Some(p) && p@ == react_prompt_text(old(self).input_text@, old(self).history@)
                &&& final(self).iterations == old(self).iterations + 1
            },
            !old(self).running() ==> r is None && final(self).iterations == old(self).iterations,
            final(self).history == old(self).history,
            final(self).warnings == old(self).warnings,
            final(self).final_answer == old(self).final_answer,
            final(self).action_type == old(self).action_type,
            final(self).max_iterations == old(self).max_iterations,
            final(self).input_text == old(self).input_text,
    {
        if self.iterations < self.max_iterations && self.final_answer.is_none() {
            self.iterations = self.iterations + 1;
            let mut p = String::from_str(REACT_PROMPT_TEMPLATE);
            p.append("\n\nQuestion: ");
            p.append(self.input_text.as_str());
            p.append("\n");
            p.append(self.history.as_str());
            p.append("\nThought:");
            Some(p)
        } else {
            None
        }
    }

    /// Takes in the outcome of the current turn's model call. A failed call
    /// is written to the history and the next turn retries. A final answer or a
    /// refused action ends the loop; an unimplemented tool or a plain thought
    /// is written to the history; a retrieval request is handed back for the
    /// caller to run, when the node has an `action_trigger` connection.
    pub fn on_reply(&mut self, reply: Result<String, String>, has_action_trigger: bool) -> (r: Option<ReactCall>)
        requires
            old(self).wf(),
        ensures
            final(self).wf(),
            final(self).history@ == after_turn(*old(self), reply, has_action_trigger).0,
            after_turn(*old(self), reply, has_action_trigger).1 matches Some(a) ==>
                final(self).final_answer matches Some(x) && x@ == a,
            after_turn(*old(self), reply, has_action_trigger).1 is None ==>
                final(self).final_answer == old(self).final_answer,
            after_turn(*old(self), reply, has_action_trigger).2 <==> r is Some,
            r matches Some(c) ==> reply matches Ok(text) && c.llm_output@ == text@ && c.action@ == action_of(text@)
                && c.action_input@ == action_input_of(text@),
            warning_texts(*final(self)) == with_warning(warning_texts(*old(self)),
                turn_warning(*old(self), reply, has_action_trigger)),
            final(self).iterations == old(self).iterations,
            final(self).action_type == old(self).action_type,
            final(self).max_iterations == old(self).max_iterations,
            final(self).input_text == old(self).input_text,
    {
        let out = match reply {
            Ok(text) => text,
            Err(e) => {
                self.history.append("Thought: Error: LLM call failed: ");
                self.history.append(e.as_str());
                self.history.append("\n");
                return None;
            },
        };
        match parse_react_reply(out.as_str()) {
            ReactReply::Final { answer } => {
                self.final_answer = Some(answer);
                None
            },
            ReactReply::Act { action, action_input } => {
                if !action_allowed_by(self.action_type.as_str(), action.as_str()) {
                    let mut w = concat("Action '", action.as_str());
                    w.append("' is not allowed by action_type '");
                    w.append(self.action_type.as_str());
                    w.append("'");
                    self.warn(w);
                    let mut msg = concat("Error: action '", action.as_str());
                    msg.append("' is not allowed. Allowed actions: ");
                    msg.append(self.action_type.as_str());
                    self.final_answer = Some(msg);
                    None
                } else if str_eq(action.as_str(), "retrieval") {
                    if has_action_trigger {
                        Some(ReactCall { llm_output: out, action, action_input })
                    } else {
                        self.warn(String::from_str("No action_trigger connection - cannot execute action"));
                        self.final_answer = Some(String::from_str("Error: no action_trigger connection"));
                        None
                    }
                } else if str_eq(action.as_str(), "web_search") {
                    self.warn(String::from_str("web_search not yet implemented"));
                    self.append_entry(out.as_str(), action.as_str(), action_input.as_str(),
                        "Error: web_search not implemented");
                    None
                } else if str_eq(action.as_str(), "code_exec") {
                    self.warn(String::from_str("code_exec not yet implemented"));
                    self.append_entry(out.as_str(), action.as_str(), action_input.as_str(),
                        "Error: code_exec not implemented");
                    None
                } else {
                    self.warn(concat("Unknown action type: ", action.as_str()));
                    self.final_answer = Some(concat("Error: unknown action type: ", action.as_str()));
                    None
                }
            },
            ReactReply::Thought => {
                self.warn(String::from_str("Could not parse LLM output as Action or FINAL"));
                self.history.append("Thought: ");
                self.history.append(out.as_str());
                self.history.append("\n");
                None
            },
        }
    }

    /// Records a warning.
    fn warn(&mut self, w: String)
        ensures
            final(self).warnings@ == old(self).warnings@.push(w),
            final(self).history == old(self).history,
            final(self).final_answer == old(self).final_answer,
            final(self).iterations == old(self).iterations,
            final(self).action_type == old(self).action_type,
            final(self).max_iterations == old(self).max_iterations,
            final(self).input_text == old(self).input_text,
    {
        self.warnings.push(w);
    }

    /// Appends the history entry of an action and what it observed.
    fn append_entry(&mut self, llm_output: &str, action: &str, action_input: &str, observation: &str)
        ensures
            final(self).warnings == old(self).warnings,
            final(self).history@ == old(self).history@ + observation_entry(llm_output@, action@, action_input@, observation@),
            final(self).final_answer == old(self).final_answer,
            final(self).iterations == old(self).iterations,
            final(self).action_type == old(self).action_type,
            final(self).max_iterations == old(self).max_iterations,
            final(self).input_text == old(self).input_text,
    {
        self.history.append("Thought: ");
        self.history.append(llm_output);
        self.history.append("\nAction: ");
        self.history.append(action);
        self.history.append("\nAction Input: ");
        self.history.append(action_input);
        self.history.append("\nObservation: ");
        self.history.append(observation);
        self.history.append("\n");
    }

    /// Records what one retrieval of the requested action observed.
    pub fn record_observation(&mut self, call: &ReactCall, observation: &str)
        requires
            old(self).wf(),
        ensures
            final(self).wf(),
            final(self).history@ == old(self).history@ + observation_entry(call.llm_output@, call.action@,
                call.action_input@, observation@),
            final(self).warnings == old(self).warnings,
            final(self).final_answer == old(self).final_answer,
            final(self).iterations == old(self).iterations,
            final(self).action_type == old(self).action_type,
            final(self).max_iterations == old(self).max_iterations,
            final(self).input_text == old(self).input_text,
    {
        self.append_entry(call.llm_output.as_str(), call.action.as_str(), call.action_input.as_str(), observation);
    }

    /// The warning of a loop that ends without a final answer.
    pub fn end_warning(&self) -> (r: Option<String>)
        ensures
            r matches Some(w) ==> end_warning_of(*self) == Some(w@),
            r is None ==> end_warning_of(*self) is None,
    {
        if self.final_answer.is_none() {
            Some(String::from_str("Max iterations reached without FINAL answer"))
        } else {
            None
        }
    }

    /// The node's output: the final answer, or else what the history holds.
    pub fn finish(&self) -> (r: String)
        ensures
            r@ == outcome(*self),
    {
        match &self.final_answer {
            Some(a) => a.clone(),
            None => if self.history.as_str().is_empty() {
                String::from_str("Max iterations reached without producing a final answer.")
            } else {
                trim(self.history.as_str())
            },
        }
    }
}

/// A reply never rewrites the history: what was there stays a prefix.
pub proof fn react_history_only_grows(s: ReactLoop, out: Seq<char>, has_action_trigger: bool)
    ensures
        s.history@.is_prefix_of(after_reply(s, out, has_action_trigger).0),
{
    let h = s.history@;
    let r = after_reply(s, out, has_action_trigger).0;
    assert(r.subrange(0, h.len() as int) =~= h);
}

/// A `FINAL:` reply settles the loop on its answer.
pub proof fn react_final_reply_settles(s: ReactLoop, out: Seq<char>, has_action_trigger: bool)
    requires
        is_final(out),
    ensures
        after_reply(s, out, has_action_trigger).1 == Some(final_answer_of(out)),
        after_reply(s, out, has_action_trigger).0 == s.history@,
{
}

/// A loop that has settled on an answer takes no more turns, and a loop
/// whose budget is spent takes none either.
pub proof fn react_settled_loop_stops(s: ReactLoop)
    requires
        s.wf(),
        s.final_answer is Some || s.iterations == s.max_iterations,
    ensures
        !s.running(),
{
}

/// A failed model call does not end the loop: its message is written to
/// the history, and the next turn retries.
pub proof fn react_failed_call_is_retried(s: ReactLoop, e: String, has_action_trigger: bool)
    ensures
        after_turn(s, Err(e), has_action_trigger).1 is None,
        !after_turn(s, Err(e), has_action_trigger).2,
        after_turn(s, Err(e), has_action_trigger).0 == s.history@ + "Thought: Error: LLM call failed: "@ + e@ + "\n"@,
{
}

/// An action the node does not allow ends the loop with an error answer.
pub proof fn react_refused_action_ends_loop(s: ReactLoop, out: Seq<char>, has_action_trigger: bool)
    requires
        !is_final(out),
        asks_action(out),
        !action_allowed(s.action_type@, action_of(out)),
    ensures
        after_reply(s, out, has_action_trigger).1 == Some("Error: action '"@ + action_of(out)
            + "' is not allowed. Allowed actions: "@ + s.action_type@),
{
}

/// An allowed action that is none of the loop's tools ends the loop with an
/// error answer.
pub proof fn react_unknown_action_ends_loop(s: ReactLoop, out: Seq<char>, has_action_trigger: bool)
    requires
        !is_final(out),
        asks_action(out),
        action_allowed(s.action_type@, action_of(out)),
        action_of(out) != "retrieval"@,
        action_of(out) != "web_search"@,
        action_of(out) != "code_exec"@,
    ensures
        after_reply(s, out, has_action_trigger).1 == Some("Error: unknown action type: "@ + action_of(out)),
        after_reply(s, out, has_action_trigger).0 == s.history@,
{
}

/// A retrieval requested by a node whose `action_trigger` port leads nowhere
/// ends the loop with an error answer and a warning; with a connection, the retrieval runs
/// and the loop goes on.
pub proof fn react_retrieval_needs_action_trigger(s: ReactLoop, out: Seq<char>, has_action_trigger: bool)
    requires
        !is_final(out),
        asks_action(out),
        action_allowed(s.action_type@, action_of(out)),
        action_of(out) == "retrieval"@,
    ensures
        !has_action_trigger ==> after_reply(s, out, has_action_trigger).1 == Some("Error: no action_trigger connection"@)
            && reply_warning(s, out, has_action_trigger) == Some("No action_trigger connection - cannot execute action"@),
        has_action_trigger ==> after_reply(s, out, has_action_trigger).1 is None
            && after_reply(s, out, has_action_trigger).2,
{
}

/// A reply that is neither a final answer nor an action request is kept in
/// the history as a thought, and the loop goes on.
pub proof fn react_unparsed_reply_is_a_thought(s: ReactLoop, out: Seq<char>, has_action_trigger: bool)
    requires
        !is_final(out),
        !asks_action(out),
    ensures
        after_reply(s, out, has_action_trigger).0 == s.history@ + "Thought: "@ + out + "\n"@,
        after_reply(s, out, has_action_trigger).1 is None,
        !after_reply(s, out, has_action_trigger).2,
{
}

/// A `FINAL:` reply yields everything after the marker, with only the
/// whitespace around it removed: an answer of several lines is kept whole.
pub proof fn final_answer_is_the_whole_rest(lead: Seq<char>, answer: Seq<char>, trail: Seq<char>)
    requires
        all_ws(lead),
        all_ws(trail),
        answer.len() > 0,
        !is_ws(answer[0]),
        !is_ws(answer.last()),
        !starts_with(lead + answer + trail, "FINAL:"@),
    ensures
        is_final("FINAL:"@ + lead + answer + trail),
        final_answer_of("FINAL:"@ + lead + answer + trail) == answer,
{
    reveal_strlit("FINAL:");
    let body = lead + answer + trail;
    let reply = "FINAL:"@ + lead + answer + trail;
    assert(reply =~= "FINAL:"@ + body);
    assert(reply.subrange(0, 6) =~= "FINAL:"@);
    assert(reply.subrange(6, reply.len() as int) =~= body);
    assert(strip_prefixes(body, "FINAL:"@) == body);
    trimming_keeps_the_inside(lead, answer, trail);
}

/// A reply in the prompted form `Action: a` / `Action Input: x` asks for
/// exactly the action `a` with exactly the input `x`: nothing of the
/// markers or of the line break is kept, and nothing of `a` or `x` is lost.
pub proof fn action_reply_is_read_exactly(a: Seq<char>, x: Seq<char>)
    requires
        a.len() > 0,
        x.len() > 0,
        forall|i: int| 0 <= i < a.len() ==> a[i] != '\n' && a[i] != ':',
        forall|i: int| 0 <= i < x.len() ==> x[i] != '\n',
        !is_ws(a[0]),
        !is_ws(a.last()),
        !is_ws(x[0]),
        !is_ws(x.last()),
    ensures
        !is_final("Action: "@ + a + "\nAction Input: "@ + x),
        asks_action("Action: "@ + a + "\nAction Input: "@ + x),
        action_of("Action: "@ + a + "\nAction Input: "@ + x) == a,
        action_input_of("Action: "@ + a + "\nAction Input: "@ + x) == x,
{
    reveal_strlit("Action: ");
    reveal_strlit("\nAction Input: ");
    reveal_strlit("Action:");
    reveal_strlit("Action Input:");
    reveal_strlit("FINAL:");
    let r = "Action: "@ + a + "\nAction Input: "@ + x;
    let la = a.len() as int;
    let m = 9 + la;
    let lr = r.len() as int;
    assert(lr == m + 14 + x.len());
    assert forall|i: int| 0 <= i < la implies r[8 + i] == a[i] by {}
    assert forall|i: int| 0 <= i < x.len() implies r[m + 14 + i] == x[i] by {}
    assert(r[8 + la] == '\n');
    assert(r[0] == 'A');
    assert(!is_final(r)) by {
        if is_final(r) {
            assert(r.subrange(0, 6)[0] == r[0]);
        }
    }
    // `Action:` opens the reply.
    assert(r.subrange(0, 7) =~= "Action:"@);
    lemma_find_at(r, "Action:"@, 0, 0);
    // `Action Input:` is found right after the first line break.
    let pat = "Action Input:"@;
    assert(r.subrange(m, m + 13) =~= pat);
    assert forall|j: int| 0 <= j < m implies #[trigger] r.subrange(j, j + pat.len()) != pat by {
        if j + 12 < 8 + la {
            if j + 12 == 6 {
            } else if j + 12 < 8 {
                assert(r.subrange(j, j + 13)[12] == r[j + 12]);
            } else {
                assert(r.subrange(j, j + 13)[12] == a[j + 12 - 8]);
            }
        } else {
            assert(r.subrange(j, j + 13)[8 + la - j] == '\n');
            assert(pat[8 + la - j] != '\n');
        }
    }
    lemma_find_at(r, pat, 0, m);
    // The action runs to that line break; the input runs to the end.
    assert forall|j: int| 7 <= j < 8 + la implies r[j] != '\n' by {
        if j > 7 {
            assert(r[j] == a[j - 8]);
        }
    }
    lemma_find_char_at(r, '\n', 7, 8 + la);
    assert forall|j: int| m + 13 <= j < lr implies r[j] != '\n' by {
        if j > m + 13 {
            assert(r[j] == x[j - m - 14]);
        }
    }
    lemma_no_char_found(r, '\n', (m + 13) as nat);
    let ws = seq![' '];
    assert(all_ws(ws));
    assert(all_ws(Seq::<char>::empty()));
    assert(r.subrange(7, 8 + la) =~= ws + a + Seq::<char>::empty());
    trimming_keeps_the_inside(ws, a, Seq::<char>::empty());
    assert(r.subrange(m + 13, lr) =~= ws + x + Seq::<char>::empty());
    trimming_keeps_the_inside(ws, x, Seq::<char>::empty());
}

} // verus!
