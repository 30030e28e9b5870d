//! Retrieval against the OpenViking search service: the request it takes,
//! and how each possible answer becomes the node's results or error.
use vstd::prelude::*;
use crate::strings::str_eq;
use crate::llm::or_empty;
use crate::strings::concat;

verus! {

/// Base URL of the local OpenViking service.
pub const OPENVIKING_BASE_URL: &'static str = "http://127.0.0.1:1933";

/// One retrieved document. `score_bits` is the bit pattern of the service's
/// `f32` relevance score, carried through unchanged.
#[derive(Debug, Clone)]
pub struct RetrievalResult {
    pub uri: String,
    pub text: String,
    pub score_bits: u32,
}

/// One resource of a find response; every field may be missing.
#[derive(Debug, Clone)]
pub struct FoundResource {
    pub uri: Option<String>,
    pub abstract_content: Option<String>,
    /// Bit pattern of the `f32` score, when the service gave one.
    pub score_bits: Option<u32>,
}

/// What came back from a find request.
#[derive(Debug, Clone)]
pub enum FindReply {
    /// The request could not be sent; the transport's message.
    SendFailed(String),
    /// The service answered with a status other than success.
    HttpError { status: String, body: String },
    /// The body was not a find response; the decoder's message.
    ParseFailed(String),
    /// A find response, with its own status field and its resources.
    Found { status: String, resources: Vec<FoundResource> },
}

/// The endpoint of find requests.
pub fn find_endpoint() -> (r: String)
    ensures
        r@ == OPENVIKING_BASE_URL@ + "/api/v1/search/find"@,
{
    concat(OPENVIKING_BASE_URL, "/api/v1/search/find")
}

/// The result a resource becomes: missing text fields read as empty and a
/// missing score as 0.0, whose bit pattern is 0.
pub open spec fn result_of(res: FoundResource, r: RetrievalResult) -> bool {
    &&& r.uri@ == or_empty(res.uri)
    &&& r.text@ == or_empty(res.abstract_content)
    &&& r.score_bits == (match res.score_bits { Some(b) => b, None => 0u32 })
}

/// The retrieval outcome of a find reply, at most `top_k` results.
pub open spec fn retrieval_outcome(r: Result<Vec<RetrievalResult>, String>, reply: FindReply, top_k: usize) -> bool {
    match reply {
        FindReply::SendFailed(e) => r is Err && r->Err_0@ == "failed to send find request: "@ + e@,
        FindReply::HttpError { status, body } => r is Err
            && r->Err_0@ == "find request failed: "@ + status@ + " - "@ + body@,
        FindReply::ParseFailed(e) => r is Err && r->Err_0@ == "failed to parse find response: "@ + e@,
        FindReply::Found { status, resources } => if status@ != "ok"@ {
            r is Err && r->Err_0@ == "find request returned error status: "@ + status@
        } else {
            &&& r is Ok
            &&& r->Ok_0@.len() == (if resources@.len() < top_k { resources@.len() } else { top_k as nat })
            &&& forall|i: int| 0 <= i < r->Ok_0@.len() ==> result_of(resources@[i], #[trigger] r->Ok_0@[i])
        },
    }
}

/// Turns what came back from a find request into the retrieval results:
/// the first `top_k` resources, or the error the node reports.
pub fn retrieval_from_reply(reply: FindReply, top_k: usize) -> (r: Result<Vec<RetrievalResult>, String>)
    ensures
        retrieval_outcome(r, reply, top_k),
{
    match reply {
        FindReply::SendFailed(e) => Err(concat("failed to send find request: ", e.as_str())),
        FindReply::HttpError { status, body } => {
            let mut msg = concat("find request failed: ", status.as_str());
            msg.append(" - ");
            msg.append(body.as_str());
            Err(msg)
        },
        FindReply::ParseFailed(e) => Err(concat("failed to parse find response: ", e.as_str())),
        FindReply::Found { status, resources } => {
            if !str_eq(status.as_str(), "ok") {
                return Err(concat("find request returned error status: ", status.as_str()));
            }
            let n = if resources.len() < top_k { resources.len() } else { top_k };
            let mut out: Vec<RetrievalResult> = Vec::new();
            let mut i: usize = 0;
            while i < n
                invariant
                    n <= resources@.len(),
                    i <= n,
                    out@.len() == i,
                    forall|j: int| 0 <= j < i ==> result_of(resources@[j], #[trigger] out@[j]),
                decreases n - i,
            {
                let res = &resources[i];
                let uri = match &res.uri {
                    Some(u) => u.clone(),
                    None => String::new(),
                };
                let text = match &res.abstract_content {
                    Some(t) => t.clone(),
                    None => String::new(),
                };
                let score_bits = match res.score_bits {
                    Some(b) => b,
                    None => 0u32,
                };
                out.push(RetrievalResult { uri, text, score_bits });
                i = i + 1;
            }
            Ok(out)
        },
    }
}

} // verus!
