use gent::llm::LlmOutput;
use gent::query_translation::{
    fuse_by_uri, multi_query_prompt, multi_query_response, parse_generated_queries, step_back_prompt,
    step_back_response, PerQueryResults, RagFusionRun,
};
use gent::rag::RetrievalResult;

fn out(text: &str, error: &str) -> LlmOutput {
    LlmOutput {
        text: text.to_string(),
        tokens_used: 0,
        model: String::new(),
        finish_reason: String::new(),
        error: error.to_string(),
    }
}

fn hit(uri: &str, text: &str) -> RetrievalResult {
    RetrievalResult { uri: uri.to_string(), text: text.to_string(), score_bits: 0 }
}

#[test]
fn multi_query_prompt_text() {
    let p = multi_query_prompt("rust lifetimes", 3);
    assert_eq!(
        p,
        "You are a query augmentation assistant. Given the original query, generate 3 different search queries that represent different perspectives or approaches to the same information need.\n\nOriginal query: rust lifetimes\n\nGenerate 3 diverse queries (one per line, no numbering):\n"
    );
    assert!(multi_query_prompt("q", 120).contains("generate 120 different"));
}

#[test]
fn generated_queries_skip_blank_lines_and_trim() {
    let q = parse_generated_queries("  first  \r\n\n\t\nsecond\nthird\n", 5);
    assert_eq!(q, vec!["first", "second", "third"]);
}

#[test]
fn generated_queries_are_limited() {
    let q = parse_generated_queries("a\nb\nc\nd", 2);
    assert_eq!(q, vec!["a", "b"]);
    assert!(parse_generated_queries("a\nb", 0).is_empty());
    assert!(parse_generated_queries("", 3).is_empty());
}

#[test]
fn multi_query_error_passes_through() {
    assert_eq!(multi_query_response(out("x", "boom"), 3).unwrap_err(), "boom");
    assert_eq!(multi_query_response(out("x\ny", ""), 3).unwrap().queries, vec!["x", "y"]);
}

#[test]
fn step_back_prompt_and_response() {
    let p = step_back_prompt("why is the sky blue");
    assert!(p.starts_with("You are a query abstraction assistant."));
    assert!(p.ends_with("Original query: why is the sky blue\n\nGenerate a step-back query that is more general and conceptual:\n"));
    let r = step_back_response(out("  light scattering \n", ""), "why".to_string()).unwrap();
    assert_eq!(r.abstract_query, "light scattering");
    assert_eq!(r.original_query, "why");
    assert_eq!(step_back_response(out("", "no key"), "why".to_string()).unwrap_err(), "no key");
}

#[test]
fn fusion_groups_by_uri_in_first_seen_order() {
    let lists = vec![
        PerQueryResults { query: "q1".to_string(), results: vec![hit("a", "A1"), hit("b", "B1")] },
        PerQueryResults { query: "q2".to_string(), results: vec![hit("b", "B2"), hit("c", "C2"), hit("b", "B3")] },
    ];
    let f = fuse_by_uri(&lists);
    assert_eq!(f.len(), 3);
    assert_eq!(f[0].uri, "a");
    assert_eq!(f[0].ranks, vec![0]);
    assert_eq!(f[0].source_queries, vec!["q1"]);
    assert_eq!(f[1].uri, "b");
    assert_eq!(f[1].text, "B1");
    assert_eq!(f[1].ranks, vec![1, 0, 2]);
    assert_eq!(f[1].source_queries, vec!["q1", "q2"]);
    assert_eq!(f[2].uri, "c");
    assert_eq!(f[2].ranks, vec![1]);
}

#[test]
fn fusion_run_collects_and_names_failed_query() {
    let mut run = RagFusionRun::new(vec!["q1".to_string(), "q2".to_string()]);
    assert_eq!(run.next_query().as_deref(), Some("q1"));
    run.record(Ok(vec![hit("a", "A")])).unwrap();
    assert_eq!(run.next_query().as_deref(), Some("q2"));
    let e = run.record(Err("timeout".to_string())).unwrap_err();
    assert_eq!(e, "retrieval failed for query 'q2': timeout");
    assert_eq!(run.individual_results.len(), 1);
    run.record(Ok(vec![hit("a", "A again")])).unwrap();
    assert!(run.next_query().is_none());
    let f = run.fused();
    assert_eq!(f.len(), 1);
    assert_eq!(f[0].source_queries, vec!["q1", "q2"]);
    assert_eq!(f[0].text, "A");
}

#[test]
fn fusion_of_nothing() {
    assert!(fuse_by_uri(&vec![]).is_empty());
    let run = RagFusionRun::new(vec![]);
    assert!(run.next_query().is_none());
}
