use gent::llm::LlmOutput;
use gent::react::{
    action_allowed_by, parse_react_reply, turn_result, ReactLoop, ReactReply, REACT_PROMPT_TEMPLATE,
};

#[test]
fn final_reply_is_stripped_and_trimmed() {
    match parse_react_reply("FINAL:  The answer is 42 \n") {
        ReactReply::Final { answer } => assert_eq!(answer, "The answer is 42"),
        other => panic!("unexpected {:?}", other),
    }
    match parse_react_reply("FINAL:FINAL: twice") {
        ReactReply::Final { answer } => assert_eq!(answer, "twice"),
        other => panic!("unexpected {:?}", other),
    }
}

#[test]
fn action_reply_reads_name_and_input() {
    let reply = "Action: retrieval\nAction Input: {\"query\": \"x\"}\nmore";
    match parse_react_reply(reply) {
        ReactReply::Act { action, action_input } => {
            assert_eq!(action, "retrieval");
            assert_eq!(action_input, "{\"query\": \"x\"}");
        }
        other => panic!("unexpected {:?}", other),
    }
}

#[test]
fn a_thought_line_may_come_before_the_action() {
    match parse_react_reply("I should search\nAction: retrieval\nAction Input: cats") {
        ReactReply::Act { action, action_input } => {
            assert_eq!(action, "retrieval");
            assert_eq!(action_input, "cats");
        }
        other => panic!("unexpected {:?}", other),
    }
    match parse_react_reply("Thought: x\nAction: retrieval") {
        ReactReply::Thought => {}
        other => panic!("unexpected {:?}", other),
    }
    match parse_react_reply("Action: retrieval Action Input: q") {
        ReactReply::Act { action, action_input } => {
            assert_eq!(action, "retrieval Action Input: q");
            assert_eq!(action_input, "q");
        }
        other => panic!("unexpected {:?}", other),
    }
}

#[test]
fn plain_reply_is_a_thought() {
    assert!(matches!(parse_react_reply("I should search first"), ReactReply::Thought));
    assert!(matches!(parse_react_reply("Action: only"), ReactReply::Thought));
}

#[test]
fn allowed_actions_ignore_case_and_spaces() {
    assert!(action_allowed_by(" Retrieval , code_exec", "RETRIEVAL"));
    assert!(action_allowed_by("retrieval,code_exec", "code_exec"));
    assert!(!action_allowed_by("retrieval", "web_search"));
    assert!(action_allowed_by("all", "anything"));
}

fn new_loop(action_type: &str, max: u32) -> ReactLoop {
    ReactLoop::new(action_type.to_string(), max, "What is X?".to_string())
}

#[test]
fn first_turn_prompt() {
    let mut l = new_loop("retrieval", 3);
    let p = l.begin_turn().unwrap();
    assert_eq!(p, format!("{}\n\nQuestion: What is X?\n\nThought:", REACT_PROMPT_TEMPLATE));
    assert_eq!(l.iterations, 1);
}

#[test]
fn final_answer_ends_the_loop() {
    let mut l = new_loop("retrieval", 5);
    l.begin_turn().unwrap();
    assert!(l.on_reply(Ok("FINAL: done".to_string()), true).is_none());
    assert!(l.begin_turn().is_none());
    assert_eq!(l.finish(), "done");
}

#[test]
fn refused_action_ends_with_error() {
    let mut l = new_loop("retrieval", 5);
    l.begin_turn();
    l.on_reply(Ok("Action: web_search\nAction Input: x".to_string()), true);
    assert_eq!(
        l.final_answer.as_deref(),
        Some("Error: action 'web_search' is not allowed. Allowed actions: retrieval")
    );
    assert!(l.begin_turn().is_none());
}

#[test]
fn unimplemented_tools_are_observed_as_errors() {
    let mut l = new_loop("all", 5);
    l.begin_turn();
    let reply = "Action: web_search\nAction Input: x";
    assert!(l.on_reply(Ok(reply.to_string()), true).is_none());
    assert_eq!(
        l.history,
        format!("Thought: {}\nAction: web_search\nAction Input: x\nObservation: Error: web_search not implemented\n", reply)
    );
    assert!(l.final_answer.is_none());
}

#[test]
fn retrieval_runs_and_observations_are_recorded() {
    let mut l = new_loop("retrieval", 5);
    l.begin_turn();
    let reply = "Action: retrieval\nAction Input: cats";
    let call = l.on_reply(Ok(reply.to_string()), true).unwrap();
    assert_eq!(call.action, "retrieval");
    assert_eq!(call.action_input, "cats");
    assert_eq!(l.history, "");
    l.record_observation(&call, "cats purr");
    assert_eq!(
        l.history,
        format!("Thought: {}\nAction: retrieval\nAction Input: cats\nObservation: cats purr\n", reply)
    );
    let p = l.begin_turn().unwrap();
    assert!(p.ends_with(&format!("Question: What is X?\n{}\nThought:", l.history)));
}

#[test]
fn retrieval_without_trigger_connection() {
    let mut l = new_loop("retrieval", 5);
    l.begin_turn();
    assert!(l.on_reply(Ok("Action: retrieval\nAction Input: q".to_string()), false).is_none());
    assert_eq!(l.finish(), "Error: no action_trigger connection");
}

#[test]
fn unknown_allowed_action() {
    let mut l = new_loop("all", 5);
    l.begin_turn();
    l.on_reply(Ok("Action: dance\nAction Input: q".to_string()), true);
    assert_eq!(l.finish(), "Error: unknown action type: dance");
}

#[test]
fn failed_call_is_kept_as_thought_and_retried() {
    let mut l = new_loop("retrieval", 2);
    l.begin_turn();
    assert!(l.on_reply(Err("timeout".to_string()), true).is_none());
    assert_eq!(l.history, "Thought: Error: LLM call failed: timeout\n");
    assert!(l.begin_turn().is_some());
}

#[test]
fn budget_spent_gives_history() {
    let mut l = new_loop("retrieval", 1);
    l.begin_turn().unwrap();
    l.on_reply(Ok("  pondering ".to_string()), true);
    assert!(l.begin_turn().is_none());
    assert_eq!(l.iterations, 1);
    assert_eq!(l.finish(), "Thought:   pondering");
}

#[test]
fn zero_budget_gives_fallback() {
    let mut l = new_loop("retrieval", 0);
    assert!(l.begin_turn().is_none());
    assert_eq!(l.finish(), "Max iterations reached without producing a final answer.");
}

#[test]
fn failed_call_that_looks_like_an_action_is_still_retried() {
    let mut l = new_loop("retrieval", 2);
    l.begin_turn();
    assert!(l.on_reply(Err("Action: foo\nAction Input: bar".to_string()), true).is_none());
    assert_eq!(l.history, "Thought: Error: LLM call failed: Action: foo\nAction Input: bar\n");
    assert!(l.final_answer.is_none());
    assert!(l.begin_turn().is_some());
}

fn output(text: &str, error: &str) -> LlmOutput {
    LlmOutput {
        text: text.to_string(),
        tokens_used: 0,
        model: String::new(),
        finish_reason: String::new(),
        error: error.to_string(),
    }
}

#[test]
fn outputs_with_an_error_are_failed_turns() {
    assert_eq!(turn_result(output("FINAL: x", "")), Ok("FINAL: x".to_string()));
    assert_eq!(turn_result(output("", "HTTP 500: boom")), Err("HTTP 500: boom".to_string()));
}

#[test]
fn warnings_follow_the_replies() {
    let mut l = new_loop("retrieval", 5);
    l.begin_turn();
    l.on_reply(Ok("just pondering".to_string()), false);
    l.begin_turn();
    l.on_reply(Err("timeout".to_string()), false);
    l.begin_turn();
    l.on_reply(Ok("Action: retrieval\nAction Input: cats".to_string()), false);
    assert_eq!(l.warnings, vec![
        "Could not parse LLM output as Action or FINAL".to_string(),
        "No action_trigger connection - cannot execute action".to_string(),
    ]);
    assert_eq!(l.finish(), "Error: no action_trigger connection");
    assert_eq!(l.end_warning(), None);
    let mut m = new_loop("retrieval", 1);
    m.begin_turn();
    m.on_reply(Ok("Action: dance\nAction Input: x".to_string()), true);
    assert_eq!(m.warnings, vec!["Action 'dance' is not allowed by action_type 'retrieval'".to_string()]);
    let mut n = new_loop("retrieval", 0);
    assert!(n.begin_turn().is_none());
    assert_eq!(n.end_warning(), Some("Max iterations reached without FINAL answer".to_string()));
}
