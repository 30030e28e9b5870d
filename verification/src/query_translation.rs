//! Query translation: multi-query generation, step-back abstraction and
//! RAG-fusion, which retrieves for every generated query and fuses the
//! ranked lists by reciprocal rank.
use vstd::prelude::*;
use crate::llm::LlmOutput;
use crate::rag::RetrievalResult;
use crate::strings::{concat, decimal, decimal_string, split_on, split_pieces, trim, trimmed};

verus! {

/// Ask for `num_queries` variations of `query`.
#[derive(Debug, Clone)]
pub struct MultiQueryRequest {
    pub query: String,
    pub num_queries: usize,
}

/// The generated query variations.
#[derive(Debug, Clone)]
pub struct MultiQueryResponse {
    pub queries: Vec<String>,
}

/// Ask for a more abstract form of `query`.
#[derive(Debug, Clone)]
pub struct StepBackRequest {
    pub query: String,
}

/// The abstract query and the query it was made from.
#[derive(Debug, Clone)]
pub struct StepBackResponse {
    pub abstract_query: String,
    pub original_query: String,
}

/// Ask for RAG-fusion: `num_queries` variations of `query`, each retrieved
/// from `virtual_uri` with at most `limit_per_query` results, fused with
/// reciprocal-rank parameter `k` (typically 60).
#[derive(Debug, Clone)]
pub struct RagFusionRequest {
    pub query: String,
    pub virtual_uri: String,
    pub num_queries: usize,
    pub limit_per_query: usize,
    pub k: usize,
}

/// The results retrieved for one generated query.
#[derive(Debug, Clone)]
pub struct PerQueryResults {
    pub query: String,
    pub results: Vec<RetrievalResult>,
}

/// The prompt that asks the model for query variations.
pub open spec fn multi_query_prompt_text(query: Seq<char>, n: nat) -> Seq<char> {
    "You are a query augmentation assistant. Given the original query, generate "@ + decimal(n)
        + " different search queries that represent different perspectives or approaches to the same information need.\n\nOriginal query: "@
        + query + "\n\nGenerate "@ + decimal(n) + " diverse queries (one per line, no numbering):\n"@
}

/// Builds the prompt that asks the model for `num_queries` variations.
pub fn multi_query_prompt(query: &str, num_queries: usize) -> (r: String)
    ensures
        r@ == multi_query_prompt_text(query@, num_queries as nat),
{
    let n = decimal_string(num_queries);
    let mut p = String::from_str(
        "You are a query augmentation assistant. Given the original query, generate ");
    p.append(n.as_str());
    p.append(" different search queries that represent different perspectives or approaches to the same information need.\n\nOriginal query: ");
    p.append(query);
    p.append("\n\nGenerate ");
    p.append(n.as_str());
    p.append(" diverse queries (one per line, no numbering):\n");
    p
}

/// The pieces, each trimmed, with the blank ones left out.
pub open spec fn nonblank_trimmed(parts: Seq<Seq<char>>) -> Seq<Seq<char>>
    decreases parts.len(),
{
    if parts.len() == 0 {
        Seq::empty()
    } else {
        let rest = nonblank_trimmed(parts.drop_last());
        let t = trimmed(parts.last());
        if t.len() > 0 { rest.push(t) } else { rest }
    }
}

/// The first `n` elements of `s`, or all of them when there are fewer.
pub open spec fn at_most<A>(s: Seq<A>, n: nat) -> Seq<A> {
    if s.len() <= n { s } else { s.take(n as int) }
}

/// The queries a model reply holds: its non-blank lines, trimmed, at most
/// `n`. (Splitting at line feeds and trimming each piece gives the same
/// lines as `str::lines` with trimming: a carriage return before a line
/// feed is whitespace, and a trailing empty line is blank.)
pub open spec fn generated_queries(text: Seq<char>, n: nat) -> Seq<Seq<char>> {
    at_most(nonblank_trimmed(split_on(text, '\n')), n)
}

proof fn lemma_at_most_push<A>(s: Seq<A>, t: A, n: nat)
    ensures
        at_most(s.push(t), n) == (if s.len() < n { at_most(s, n).push(t) } else { at_most(s, n) }),
{
    if s.len() >= n {
        assert(s.push(t).take(n as int) =~= at_most(s, n));
    }
}

/// Reads the generated queries out of a model reply.
pub fn parse_generated_queries(text: &str, num_queries: usize) -> (r: Vec<String>)
    ensures
        r@.map_values(|q: String| q@) == generated_queries(text@, num_queries as nat),
{
    let pieces = split_pieces(text, '\n');
    let ghost parts = split_on(text@, '\n');
    let mut out: Vec<String> = Vec::new();
    let n = pieces.len();
    let mut j: usize = 0;
    assert(parts.take(0) =~= Seq::<Seq<char>>::empty());
    while j < n
        invariant
            n == pieces@.len(),
            pieces@.map_values(|p: String| p@) == parts,
            j <= n,
            out@.map_values(|q: String| q@) == at_most(nonblank_trimmed(parts.take(j as int)), num_queries as nat),
        decreases n - j,
    {
        let ghost before = out@.map_values(|q: String| q@);
        assert(parts.take(j + 1).drop_last() =~= parts.take(j as int));
        assert(parts[j as int] == pieces@[j as int]@);
        proof {
            lemma_at_most_push(nonblank_trimmed(parts.take(j as int)), trimmed(parts[j as int]), num_queries as nat);
        }
        let t = trim(pieces[j].as_str());
        if !t.as_str().is_empty() && out.len() < num_queries {
            out.push(t);
            assert(out@.map_values(|q: String| q@) =~= before.push(t@));
        }
        j = j + 1;
    }
    assert(parts.take(n as int) =~= parts);
    out
}

/// The response to a multi-query request, given the model's output: its
/// error when it has one, else the queries its text holds.
pub fn multi_query_response(output: LlmOutput, num_queries: usize) -> (r: Result<MultiQueryResponse, String>)
    ensures
        output.error@.len() > 0 ==> (r matches Err(e) && e@ == output.error@),
        output.error@.len() == 0 ==> (r matches Ok(m)
            && m.queries@.map_values(|q: String| q@) == generated_queries(output.text@, num_queries as nat)),
{
    if !output.error.as_str().is_empty() {
        return Err(output.error);
    }
    Ok(MultiQueryResponse { queries: parse_generated_queries(output.text.as_str(), num_queries) })
}

/// The prompt that asks the model for a step-back query.
pub open spec fn step_back_prompt_text(query: Seq<char>) -> Seq<char> {
    "You are a query abstraction assistant. Given the original query, generate a more abstract high-level query that captures the fundamental concepts and principles, while remaining relevant to the original intent.\n\nOriginal query: "@
        + query + "\n\nGenerate a step-back query that is more general and conceptual:\n"@
}

/// Builds the prompt that asks the model for a step-back query.
pub fn step_back_prompt(query: &str) -> (r: String)
    ensures
        r@ == step_back_prompt_text(query@),
{
    let mut p = String::from_str(
        "You are a query abstraction assistant. Given the original query, generate a more abstract high-level query that captures the fundamental concepts and principles, while remaining relevant to the original intent.\n\nOriginal query: ");
    p.append(query);
    p.append("\n\nGenerate a step-back query that is more general and conceptual:\n");
    p
}

/// The response to a step-back request, given the model's output: its error
/// when it has one, else its trimmed text beside the original query.
pub fn step_back_response(output: LlmOutput, query: String) -> (r: Result<StepBackResponse, String>)
    ensures
        output.error@.len() > 0 ==> (r matches Err(e) && e@ == output.error@),
        output.error@.len() == 0 ==> (r matches Ok(s) && s.abstract_query@ == trimmed(output.text@)
            && s.original_query == query),
{
    if !output.error.as_str().is_empty() {
        return Err(output.error);
    }
    Ok(StepBackResponse { abstract_query: trim(output.text.as_str()), original_query: query })
}

/// One retrieved result as fusion sees it: the query it was retrieved for,
/// its rank in that query's list, its URI and its text.
pub struct Occurrence {
    pub query: Seq<char>,
    pub rank: nat,
    pub uri: Seq<char>,
    pub text: Seq<char>,
}

/// What fusion gathers for one URI: its text, the distinct queries that
/// retrieved it, and the rank of each of its occurrences.
pub struct FusedEntry {
    pub uri: Seq<char>,
    pub text: Seq<char>,
    pub sources: Seq<Seq<char>>,
    pub ranks: Seq<nat>,
}

/// The occurrences of one query's results, in rank order.
pub open spec fn query_occurrences(q: PerQueryResults) -> Seq<Occurrence> {
    Seq::new(q.results@.len(), |j: int| Occurrence {
        query: q.query@,
        rank: j as nat,
        uri: q.results@[j].uri@,
        text: q.results@[j].text@,
    })
}

/// All occurrences, query by query.
pub open spec fn all_occurrences(lists: Seq<PerQueryResults>) -> Seq<Occurrence>
    decreases lists.len(),
{
    if lists.len() == 0 {
        Seq::empty()
    } else {
        all_occurrences(lists.drop_last()) + query_occurrences(lists.last())
    }
}

/// The position of the entry for `uri`, if there is one.
pub open spec fn entry_index(entries: Seq<FusedEntry>, uri: Seq<char>) -> Option<int>
    decreases entries.len(),
{
    if entries.len() == 0 {
        None
    } else if entries.last().uri == uri {
        Some(entries.len() - 1)
    } else {
        entry_index(entries.drop_last(), uri)
    }
}

/// The position `entry_index` gives holds an entry for that URI, and no
/// position gives one when the URI has no entry.
pub proof fn lemma_entry_index(entries: Seq<FusedEntry>, uri: Seq<char>)
    ensures
        entry_index(entries, uri) matches Some(i) ==> 0 <= i < entries.len() && entries[i].uri == uri,
        entry_index(entries, uri) is None ==> forall|i: int| 0 <= i < entries.len() ==> #[trigger] entries[i].uri != uri,
    decreases entries.len(),
{
    if entries.len() > 0 && entries.last().uri != uri {
        lemma_entry_index(entries.drop_last(), uri);
        assert forall|i: int| 0 <= i < entries.len() - 1 implies entries.drop_last()[i] == #[trigger] entries[i] by {}
    }
}

/// An entry after one more occurrence of its URI.
pub open spec fn add_occurrence(e: FusedEntry, o: Occurrence) -> FusedEntry {
    FusedEntry {
        uri: e.uri,
        text: e.text,
        sources: if e.sources.contains(o.query) { e.sources } else { e.sources.push(o.query) },
        ranks: e.ranks.push(o.rank),
    }
}

/// The entries of a run of occurrences, one per URI in order of first
/// occurrence; the text is that of the first occurrence.
pub open spec fn fuse(occ: Seq<Occurrence>) -> Seq<FusedEntry>
    decreases occ.len(),
{
    if occ.len() == 0 {
        Seq::empty()
    } else {
        let acc = fuse(occ.drop_last());
        let o = occ.last();
        match entry_index(acc, o.uri) {
            Some(i) => acc.update(i, add_occurrence(acc[i], o)),
            None => acc.push(FusedEntry { uri: o.uri, text: o.text, sources: seq![o.query], ranks: seq![o.rank] }),
        }
    }
}

/// The fused record of one URI. Its reciprocal-rank score is the sum of
/// `1 / (k + rank)` over `ranks`, in their order.
#[derive(Debug, Clone)]
pub struct FusedCandidate {
    pub uri: String,
    pub text: String,
    pub source_queries: Vec<String>,
    pub ranks: Vec<usize>,
}

impl FusedCandidate {
    pub open spec fn entry(self) -> FusedEntry {
        FusedEntry {
            uri: self.uri@,
            text: self.text@,
            sources: self.source_queries@.map_values(|q: String| q@),
            ranks: self.ranks@.map_values(|r: usize| r as nat),
        }
    }
}

/// The entries of a list of candidates.
pub open spec fn entries(c: Seq<FusedCandidate>) -> Seq<FusedEntry> {
    c.map_values(|f: FusedCandidate| f.entry())
}

/// Finds the candidate for `uri`.
fn position_of_uri(cands: &Vec<FusedCandidate>, uri: &String) -> (r: Option<usize>)
    ensures
        r matches Some(i) ==> entry_index(entries(cands@), uri@) == Some(i as int),
        r is None ==> entry_index(entries(cands@), uri@) is None,
{
    let mut i: usize = cands.len();
    assert(entries(cands@).take(i as int) =~= entries(cands@));
    while i > 0
        invariant
            i <= cands@.len(),
            entry_index(entries(cands@), uri@) == entry_index(entries(cands@).take(i as int), uri@),
        decreases i,
    {
        assert(entries(cands@).take(i as int).drop_last() =~= entries(cands@).take(i - 1));
        if cands[i - 1].uri == *uri {
            return Some(i - 1);
        }
        i = i - 1;
    }
    None
}

/// Whether `queries` holds `q`.
fn contains_query(queries: &Vec<String>, q: &String) -> (r: bool)
    ensures
        r == queries@.map_values(|s: String| s@).contains(q@),
{
    let n = queries.len();
    let mut i: usize = 0;
    while i < n
        invariant
            n == queries@.len(),
            i <= n,
            forall|j: int| 0 <= j < i ==> queries@[j]@ != q@,
        decreases n - i,
    {
        if queries[i] == *q {
            assert(queries@.map_values(|s: String| s@)[i as int] == q@);
            return true;
        }
        i = i + 1;
    }
    let ghost views = queries@.map_values(|s: String| s@);
    assert(!views.contains(q@)) by {
        if views.contains(q@) {
            let j = choose|j: int| 0 <= j < n && #[trigger] views[j] == q@;
            assert(queries@[j]@ == q@);
        }
    }
    false
}

/// Groups the ranked lists by URI for reciprocal rank fusion: one candidate
/// per URI, in order of first occurrence, with the text of its first
/// occurrence, the distinct queries that retrieved it and the rank of every
/// occurrence in the order the lists give them.
pub fn fuse_by_uri(lists: &Vec<PerQueryResults>) -> (r: Vec<FusedCandidate>)
    ensures
        entries(r@) == fuse(all_occurrences(lists@)),
{
    let mut out: Vec<FusedCandidate> = Vec::new();
    let n = lists.len();
    let mut i: usize = 0;
    assert(lists@.take(0) =~= Seq::<PerQueryResults>::empty());
    assert(entries(out@) =~= Seq::<FusedEntry>::empty());
    while i < n
        invariant
            n == lists@.len(),
            i <= n,
            entries(out@) == fuse(all_occurrences(lists@.take(i as int))),
        decreases n - i,
    {
        let list = &lists[i];
        let ghost prefix = all_occurrences(lists@.take(i as int));
        let ghost qocc = query_occurrences(*list);
        assert(lists@.take(i + 1).drop_last() =~= lists@.take(i as int));
        assert(all_occurrences(lists@.take(i + 1)) == prefix + qocc);
        let m = list.results.len();
        let mut j: usize = 0;
        assert(prefix + qocc.take(0) =~= prefix);
        while j < m
            invariant
                m == list.results@.len(),
                qocc == query_occurrences(*list),
                j <= m,
                entries(out@) == fuse(prefix + qocc.take(j as int)),
            decreases m - j,
        {
            let res = &list.results[j];
            let ghost o = qocc[j as int];
            let ghost acc = entries(out@);
            assert((prefix + qocc.take(j + 1)).drop_last() =~= prefix + qocc.take(j as int));
            assert((prefix + qocc.take(j + 1)).last() == o);
            match position_of_uri(&out, &res.uri) {
                Some(p) => {
                    proof { lemma_entry_index(acc, res.uri@); }
                    let seen = contains_query(&out[p].source_queries, &list.query);
                    let mut cand = out[p].clone_parts();
                    if !seen {
                        cand.source_queries.push(list.query.clone());
                    }
                    cand.ranks.push(j);
                    proof {
                        assert(cand.entry().sources =~= add_occurrence(acc[p as int], o).sources);
                        assert(cand.entry().ranks =~= add_occurrence(acc[p as int], o).ranks);
                    }
                    out.set(p, cand);
                    assert(entries(out@) =~= acc.update(p as int, add_occurrence(acc[p as int], o)));
                },
                None => {
                    let mut sources: Vec<String> = Vec::new();
                    sources.push(list.query.clone());
                    let mut ranks: Vec<usize> = Vec::new();
                    ranks.push(j);
                    let cand = FusedCandidate { uri: res.uri.clone(), text: res.text.clone(), source_queries: sources, ranks };
                    proof {
                        assert(cand.entry().sources =~= seq![o.query]);
                        assert(cand.entry().ranks =~= seq![o.rank]);
                    }
                    out.push(cand);
                    assert(entries(out@) =~= acc.push(FusedEntry { uri: o.uri, text: o.text, sources: seq![o.query], ranks: seq![o.rank] }));
                },
            }
            j = j + 1;
        }
        assert(qocc.take(m as int) =~= qocc);
        i = i + 1;
    }
    assert(lists@.take(n as int) =~= lists@);
    out
}

impl FusedCandidate {
    /// A field-by-field copy.
    pub fn clone_parts(&self) -> (r: FusedCandidate)
        ensures
            r.entry() == self.entry(),
            r.uri == self.uri,
            r.text == self.text,
            r.source_queries@ == self.source_queries@,
            r.ranks@ == self.ranks@,
    {
        FusedCandidate {
            uri: self.uri.clone(),
            text: self.text.clone(),
            source_queries: clone_strings(&self.source_queries),
            ranks: self.ranks.clone(),
        }
    }
}

/// A copy of a list of strings.
pub fn clone_strings(v: &Vec<String>) -> (r: Vec<String>)
    ensures
        r@ == v@,
{
    let mut r: Vec<String> = Vec::new();
    let n = v.len();
    let mut i: usize = 0;
    while i < n
        invariant
            n == v@.len(),
            i <= n,
            r@ == v@.take(i as int),
        decreases n - i,
    {
        r.push(v[i].clone());
        i = i + 1;
        assert(r@ =~= v@.take(i as int));
    }
    assert(v@.take(n as int) =~= v@);
    r
}

/// The progress of one RAG-fusion run: the generated queries and the
/// results retrieved so far, one list per query in query order.
#[derive(Debug)]
pub struct RagFusionRun {
    pub queries: Vec<String>,
    pub individual_results: Vec<PerQueryResults>,
}

/// The message of a failed retrieval for query `q`.
pub open spec fn retrieval_failure(q: Seq<char>, e: Seq<char>) -> Seq<char> {
    "retrieval failed for query '"@ + q + "': "@ + e
}

impl RagFusionRun {
    /// Each list of results belongs to the query at its position.
    pub open spec fn wf(self) -> bool {
        &&& self.individual_results@.len() <= self.queries@.len()
        &&& forall|i: int| 0 <= i < self.individual_results@.len()
            ==> (#[trigger] self.individual_results@[i]).query == self.queries@[i]
    }

    /// A run over the generated queries, with nothing retrieved yet.
    pub fn new(queries: Vec<String>) -> (r: RagFusionRun)
        ensures
            r.wf(),
            r.queries == queries,
            r.individual_results@.len() == 0,
    {
        RagFusionRun { queries, individual_results: Vec::new() }
    }

    /// The query to retrieve for next, once every earlier one has results.
    pub fn next_query(&self) -> (r: Option<String>)
        requires
            self.wf(),
        ensures
            self.individual_results@.len() < self.queries@.len() ==> r == Some(
                self.queries@[self.individual_results@.len() as int]),
            self.individual_results@.len() == self.queries@.len() ==> r is None,
    {
        let i = self.individual_results.len();
        if i < self.queries.len() {
            Some(self.queries[i].clone())
        } else {
            None
        }
    }

    /// Records what the retrieval for the next query gave. A failure stops
    /// the run with a message that names the query.
    pub fn record(&mut self, results: Result<Vec<RetrievalResult>, String>) -> (r: Result<(), String>)
        requires
            old(self).wf(),
            old(self).individual_results@.len() < old(self).queries@.len(),
        ensures
            final(self).wf(),
            final(self).queries == old(self).queries,
            results matches Err(e) ==> (r matches Err(m) && m@ == retrieval_failure(
                old(self).queries@[old(self).individual_results@.len() as int]@, e@)
                && final(self).individual_results == old(self).individual_results),
            results matches Ok(v) ==> (r is Ok && final(self).individual_results@
                == old(self).individual_results@.push(PerQueryResults {
                    query: old(self).queries@[old(self).individual_results@.len() as int],
                    results: v,
                })),
    {
        let i = self.individual_results.len();
        let q = self.queries[i].clone();
        match results {
            Err(e) => {
                let mut msg = concat("retrieval failed for query '", q.as_str());
                msg.append("': ");
                msg.append(e.as_str());
                Err(msg)
            },
            Ok(v) => {
                self.individual_results.push(PerQueryResults { query: q, results: v });
                Ok(())
            },
        }
    }

    /// The candidates of reciprocal rank fusion over the results so far.
    pub fn fused(&self) -> (r: Vec<FusedCandidate>)
        ensures
            entries(r@) == fuse(all_occurrences(self.individual_results@)),
    {
        fuse_by_uri(&self.individual_results)
    }
}

/// Reciprocal rank fusion gives each URI one candidate.
pub proof fn fused_uris_are_distinct(occ: Seq<Occurrence>)
    ensures
        forall|i: int, j: int| 0 <= i < j < fuse(occ).len() ==> #[trigger] fuse(occ)[i].uri != #[trigger] fuse(occ)[j].uri,
    decreases occ.len(),
{
    if occ.len() > 0 {
        fused_uris_are_distinct(occ.drop_last());
        let acc = fuse(occ.drop_last());
        lemma_entry_index(acc, occ.last().uri);
        assert forall|i: int, j: int| 0 <= i < j < fuse(occ).len() implies #[trigger] fuse(occ)[i].uri
            != #[trigger] fuse(occ)[j].uri by {
            if j < acc.len() {
                assert(fuse(occ)[i].uri == acc[i].uri);
                assert(fuse(occ)[j].uri == acc[j].uri);
            }
        }
    }
}

/// Every retrieved URI has a candidate.
pub proof fn fused_uris_cover_results(occ: Seq<Occurrence>, k: int)
    requires
        0 <= k < occ.len(),
    ensures
        exists|i: int| 0 <= i < fuse(occ).len() && #[trigger] fuse(occ)[i].uri == occ[k].uri,
    decreases occ.len(),
{
    let acc = fuse(occ.drop_last());
    lemma_entry_index(acc, occ.last().uri);
    if k < occ.len() - 1 {
        fused_uris_cover_results(occ.drop_last(), k);
        let i = choose|i: int| 0 <= i < acc.len() && #[trigger] acc[i].uri == occ.drop_last()[k].uri;
        assert(fuse(occ)[i].uri == occ[k].uri);
    } else {
        match entry_index(acc, occ.last().uri) {
            Some(p) => assert(fuse(occ)[p].uri == occ[k].uri),
            None => assert(fuse(occ)[acc.len() as int].uri == occ[k].uri),
        }
    }
}

/// No query occurs twice in `s`.
pub open spec fn distinct_queries(s: Seq<Seq<char>>) -> bool {
    forall|i: int, j: int| 0 <= i < j < s.len() ==> #[trigger] s[i] != #[trigger] s[j]
}

/// A fused record names each query that retrieved its URI once.
pub proof fn fused_sources_are_distinct(occ: Seq<Occurrence>)
    ensures
        forall|i: int| 0 <= i < fuse(occ).len() ==> distinct_queries(#[trigger] fuse(occ)[i].sources),
    decreases occ.len(),
{
    if occ.len() > 0 {
        fused_sources_are_distinct(occ.drop_last());
        let acc = fuse(occ.drop_last());
        let o = occ.last();
        lemma_entry_index(acc, o.uri);
        match entry_index(acc, o.uri) {
            Some(p) => {
                let e = acc[p];
                assert(distinct_queries(e.sources));
                let s2 = add_occurrence(e, o).sources;
                assert(distinct_queries(s2)) by {
                    if !e.sources.contains(o.query) {
                        assert forall|a: int, b: int| 0 <= a < b < s2.len() implies #[trigger] s2[a] != #[trigger] s2[b] by {
                            if b == e.sources.len() {
                                assert(s2[a] == e.sources[a]);
                            }
                        }
                    }
                }
                assert forall|i: int| 0 <= i < fuse(occ).len() implies distinct_queries(#[trigger] fuse(occ)[i].sources) by {
                    if i != p {
                        assert(fuse(occ)[i] == acc[i]);
                    }
                }
            },
            None => {
                assert forall|i: int| 0 <= i < fuse(occ).len() implies distinct_queries(#[trigger] fuse(occ)[i].sources) by {
                    if i < acc.len() {
                        assert(fuse(occ)[i] == acc[i]);
                    }
                }
            },
        }
    }
}

/// The position of the first occurrence of `uri`, if there is one.
pub open spec fn first_occurrence(occ: Seq<Occurrence>, uri: Seq<char>) -> Option<int>
    decreases occ.len(),
{
    if occ.len() == 0 {
        None
    } else {
        match first_occurrence(occ.drop_last(), uri) {
            Some(k) => Some(k),
            None => if occ.last().uri == uri { Some(occ.len() - 1) } else { None },
        }
    }
}

/// A fused record carries the text of the first result retrieved for its
/// URI.
pub proof fn fused_text_is_first_seen(occ: Seq<Occurrence>)
    ensures
        forall|i: int| 0 <= i < fuse(occ).len() ==> (first_occurrence(occ, #[trigger] fuse(occ)[i].uri) matches Some(k)
            && occ[k].text == fuse(occ)[i].text),
    decreases occ.len(),
{
    if occ.len() > 0 {
        let prev = occ.drop_last();
        fused_text_is_first_seen(prev);
        let acc = fuse(prev);
        let o = occ.last();
        lemma_entry_index(acc, o.uri);
        assert forall|i: int| 0 <= i < fuse(occ).len() implies (first_occurrence(occ, #[trigger] fuse(occ)[i].uri)
            matches Some(k) && occ[k].text == fuse(occ)[i].text) by {
            if i < acc.len() {
                assert(fuse(occ)[i].uri == acc[i].uri && fuse(occ)[i].text == acc[i].text);
                let k = first_occurrence(prev, acc[i].uri)->0;
                lemma_first_occurrence(prev, acc[i].uri);
                assert(occ[k] == prev[k]);
            } else {
                assert(entry_index(acc, o.uri) is None);
                if first_occurrence(prev, o.uri) is Some {
                    let k = first_occurrence(prev, o.uri)->0;
                    lemma_first_occurrence(prev, o.uri);
                    fused_uris_cover_results(prev, k);
                }
            }
        }
    }
}

/// The position `first_occurrence` gives holds that URI.
proof fn lemma_first_occurrence(occ: Seq<Occurrence>, uri: Seq<char>)
    ensures
        first_occurrence(occ, uri) matches Some(k) ==> 0 <= k < occ.len() && occ[k].uri == uri,
    decreases occ.len(),
{
    if occ.len() > 0 {
        lemma_first_occurrence(occ.drop_last(), uri);
    }
}

/// The ranks at which `uri` was retrieved, in the order of the occurrences.
pub open spec fn ranks_of(occ: Seq<Occurrence>, uri: Seq<char>) -> Seq<nat>
    decreases occ.len(),
{
    if occ.len() == 0 {
        Seq::empty()
    } else if occ.last().uri == uri {
        ranks_of(occ.drop_last(), uri).push(occ.last().rank)
    } else {
        ranks_of(occ.drop_last(), uri)
    }
}

proof fn lemma_ranks_of_absent(occ: Seq<Occurrence>, uri: Seq<char>)
    requires
        forall|k: int| 0 <= k < occ.len() ==> #[trigger] occ[k].uri != uri,
    ensures
        ranks_of(occ, uri) == Seq::<nat>::empty(),
    decreases occ.len(),
{
    if occ.len() > 0 {
        assert forall|k: int| 0 <= k < occ.len() - 1 implies #[trigger] occ.drop_last()[k].uri != uri by {
            assert(occ.drop_last()[k] == occ[k]);
        }
        lemma_ranks_of_absent(occ.drop_last(), uri);
    }
}

/// A fused record holds one rank for every result retrieved for its URI, in
/// order: the reciprocal-rank score summed over them counts each retrieval
/// once.
pub proof fn fused_ranks_count_every_retrieval(occ: Seq<Occurrence>)
    ensures
        forall|i: int| 0 <= i < fuse(occ).len() ==> #[trigger] fuse(occ)[i].ranks == ranks_of(occ, fuse(occ)[i].uri),
    decreases occ.len(),
{
    if occ.len() > 0 {
        let prev = occ.drop_last();
        fused_ranks_count_every_retrieval(prev);
        fused_uris_are_distinct(prev);
        let acc = fuse(prev);
        let o = occ.last();
        lemma_entry_index(acc, o.uri);
        match entry_index(acc, o.uri) {
            Some(p) => {
                assert forall|i: int| 0 <= i < fuse(occ).len() implies #[trigger] fuse(occ)[i].ranks
                    == ranks_of(occ, fuse(occ)[i].uri) by {
                    if i != p {
                        assert(fuse(occ)[i] == acc[i]);
                        assert(acc[i].uri != acc[p].uri);
                    }
                }
            },
            None => {
                assert forall|k: int| 0 <= k < prev.len() implies #[trigger] prev[k].uri != o.uri by {
                    fused_uris_cover_results(prev, k);
                }
                lemma_ranks_of_absent(prev, o.uri);
                assert forall|i: int| 0 <= i < fuse(occ).len() implies #[trigger] fuse(occ)[i].ranks
                    == ranks_of(occ, fuse(occ)[i].uri) by {
                    if i < acc.len() {
                        assert(fuse(occ)[i] == acc[i]);
                    } else {
                        assert(ranks_of(occ, o.uri) =~= seq![o.rank]);
                    }
                }
            },
        }
    }
}

proof fn lemma_nonblank(parts: Seq<Seq<char>>)
    ensures
        forall|i: int| 0 <= i < nonblank_trimmed(parts).len() ==> (#[trigger] nonblank_trimmed(parts)[i]).len() > 0,
    decreases parts.len(),
{
    if parts.len() > 0 {
        lemma_nonblank(parts.drop_last());
        let rest = nonblank_trimmed(parts.drop_last());
        assert forall|i: int| 0 <= i < nonblank_trimmed(parts).len() implies (#[trigger] nonblank_trimmed(parts)[i]).len() > 0 by {
            if i < rest.len() {
                assert(nonblank_trimmed(parts)[i] == rest[i]);
            }
        }
    }
}

/// A multi-query reply yields at most the number of queries asked for, and
/// none of them is blank.
pub proof fn generated_queries_are_bounded_and_nonblank(text: Seq<char>, n: nat)
    ensures
        generated_queries(text, n).len() <= n,
        forall|i: int| 0 <= i < generated_queries(text, n).len() ==> (#[trigger] generated_queries(text, n)[i]).len() > 0,
{
    let all = nonblank_trimmed(split_on(text, '\n'));
    lemma_nonblank(split_on(text, '\n'));
    assert forall|i: int| 0 <= i < generated_queries(text, n).len() implies (#[trigger] generated_queries(text, n)[i]).len() > 0 by {
        assert(generated_queries(text, n)[i] == all[i]);
    }
}

} // verus!
