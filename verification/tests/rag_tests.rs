use gent::rag::{find_endpoint, retrieval_from_reply, FindReply, FoundResource};

fn res(uri: Option<&str>, text: Option<&str>, score: Option<f32>) -> FoundResource {
    FoundResource {
        uri: uri.map(|s| s.to_string()),
        abstract_content: text.map(|s| s.to_string()),
        score_bits: score.map(|s| s.to_bits()),
    }
}

#[test]
fn endpoint() {
    assert_eq!(find_endpoint(), "http://127.0.0.1:1933/api/v1/search/find");
}

#[test]
fn found_resources_are_cut_to_top_k_with_defaults() {
    let reply = FindReply::Found {
        status: "ok".to_string(),
        resources: vec![
            res(Some("viking://a"), Some("alpha"), Some(0.9)),
            res(None, None, None),
            res(Some("viking://c"), Some("gamma"), Some(0.1)),
        ],
    };
    let r = retrieval_from_reply(reply, 2).unwrap();
    assert_eq!(r.len(), 2);
    assert_eq!(r[0].uri, "viking://a");
    assert_eq!(r[0].text, "alpha");
    assert_eq!(f32::from_bits(r[0].score_bits), 0.9);
    assert_eq!(r[1].uri, "");
    assert_eq!(r[1].text, "");
    assert_eq!(f32::from_bits(r[1].score_bits), 0.0);
}

#[test]
fn fewer_resources_than_top_k() {
    let reply = FindReply::Found { status: "ok".to_string(), resources: vec![res(Some("u"), Some("t"), None)] };
    assert_eq!(retrieval_from_reply(reply, 10).unwrap().len(), 1);
}

#[test]
fn error_status_is_reported() {
    let reply = FindReply::Found { status: "error".to_string(), resources: vec![] };
    assert_eq!(retrieval_from_reply(reply, 3).unwrap_err(), "find request returned error status: error");
}

#[test]
fn transport_and_http_errors() {
    assert_eq!(
        retrieval_from_reply(FindReply::SendFailed("refused".to_string()), 3).unwrap_err(),
        "failed to send find request: refused"
    );
    assert_eq!(
        retrieval_from_reply(FindReply::HttpError { status: "500 Internal Server Error".to_string(), body: "oops".to_string() }, 3)
            .unwrap_err(),
        "find request failed: 500 Internal Server Error - oops"
    );
    assert_eq!(
        retrieval_from_reply(FindReply::ParseFailed("missing field".to_string()), 3).unwrap_err(),
        "failed to parse find response: missing field"
    );
}
