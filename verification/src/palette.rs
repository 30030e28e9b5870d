//! The node palette: the kinds of node a graph can hold, grouped by
//! category, and the tabs of the left panel.
use vstd::prelude::*;
use crate::strings::str_eq;

verus! {

/// A kind of node offered by the palette.
#[derive(Clone, Copy, Debug)]
pub struct NodeType {
    pub id: &'static str,
    pub name: &'static str,
    pub category: &'static str,
    pub description: &'static str,
}

impl NodeType {
    /// Id, name, category and description.
    pub open spec fn entry(self) -> (Seq<char>, Seq<char>, Seq<char>, Seq<char>) {
        (self.id@, self.name@, self.category@, self.description@)
    }
}

/// The palette, in display order: id, name, category, description.
pub open spec fn palette() -> Seq<(Seq<char>, Seq<char>, Seq<char>, Seq<char>)> {
    seq![
        ("text_input"@, "Text Input"@, "Input"@, "Text input from user"@),
        ("file_input"@, "File Input"@, "Input"@, "Load file contents"@),
        ("image_input"@, "Image Input"@, "Input"@, "Provides an image file path as output"@),
        ("audio_input"@, "Audio Input"@, "Input"@, "Provides an audio file path as output"@),
        ("trigger"@, "Trigger"@, "Input"@, "Click to start execution"@),
        ("template"@, "Template"@, "Context"@, "Jinja-style template"@),
        ("retrieval"@, "Retrieval"@, "Context"@, "Vector DB retrieval"@),
        ("index"@, "Index"@, "Context"@, "Index text into Chroma vector store"@),
        ("summarizer"@, "Summarizer"@, "Context"@, "Summarize text"@),
        ("planner_agent"@, "Planner Agent"@, "Agent"@, "Plans steps"@),
        ("executor_agent"@, "Executor Agent"@, "Agent"@, "Executes tasks"@),
        ("model"@, "Model"@, "Agent"@, "Call an LLM API with config from Model Config node"@),
        ("model_config"@, "Model Config"@, "Agent"@, "Holds API configuration for Model node"@),
        ("web_search"@, "Web Search"@, "Tool"@, "Search the web"@),
        ("code_execute"@, "Code Execute"@, "Tool"@, "Run code"@),
        ("if_condition"@, "If / Condition"@, "Control"@, "Branch on condition"@),
        ("loop"@, "Loop"@, "Control"@, "Iterate multiple times"@),
        ("text_output"@, "Text Output"@, "Output"@, "Display chat response"@),
        ("json_output"@, "JSON Output"@, "Output"@, "Structured JSON output"@)
    ]
}

/// The node kinds of the palette, in display order.
pub fn node_types() -> (r: Vec<NodeType>)
    ensures
        r@.map_values(|t: NodeType| t.entry()) == palette(),
{
    let mut v: Vec<NodeType> = Vec::new();
    v.push(NodeType { id: "text_input", name: "Text Input", category: "Input", description: "Text input from user" });
    v.push(NodeType { id: "file_input", name: "File Input", category: "Input", description: "Load file contents" });
    v.push(NodeType { id: "image_input", name: "Image Input", category: "Input", description: "Provides an image file path as output" });
    v.push(NodeType { id: "audio_input", name: "Audio Input", category: "Input", description: "Provides an audio file path as output" });
    v.push(NodeType { id: "trigger", name: "Trigger", category: "Input", description: "Click to start execution" });
    v.push(NodeType { id: "template", name: "Template", category: "Context", description: "Jinja-style template" });
    v.push(NodeType { id: "retrieval", name: "Retrieval", category: "Context", description: "Vector DB retrieval" });
    v.push(NodeType { id: "index", name: "Index", category: "Context", description: "Index text into Chroma vector store" });
    v.push(NodeType { id: "summarizer", name: "Summarizer", category: "Context", description: "Summarize text" });
    v.push(NodeType { id: "planner_agent", name: "Planner Agent", category: "Agent", description: "Plans steps" });
    v.push(NodeType { id: "executor_agent", name: "Executor Agent", category: "Agent", description: "Executes tasks" });
    v.push(NodeType { id: "model", name: "Model", category: "Agent", description: "Call an LLM API with config from Model Config node" });
    v.push(NodeType { id: "model_config", name: "Model Config", category: "Agent", description: "Holds API configuration for Model node" });
    v.push(NodeType { id: "web_search", name: "Web Search", category: "Tool", description: "Search the web" });
    v.push(NodeType { id: "code_execute", name: "Code Execute", category: "Tool", description: "Run code" });
    v.push(NodeType { id: "if_condition", name: "If / Condition", category: "Control", description: "Branch on condition" });
    v.push(NodeType { id: "loop", name: "Loop", category: "Control", description: "Iterate multiple times" });
    v.push(NodeType { id: "text_output", name: "Text Output", category: "Output", description: "Display chat response" });
    v.push(NodeType { id: "json_output", name: "JSON Output", category: "Output", description: "Structured JSON output" });
    assert(v@.map_values(|t: NodeType| t.entry()) =~= palette());
    v
}

/// The palette entries of one category, in display order.
pub open spec fn in_category(entries: Seq<(Seq<char>, Seq<char>, Seq<char>, Seq<char>)>, category: Seq<char>)
    -> Seq<(Seq<char>, Seq<char>, Seq<char>, Seq<char>)>
    decreases entries.len(),
{
    if entries.len() == 0 {
        Seq::empty()
    } else if entries.last().2 == category {
        in_category(entries.drop_last(), category).push(entries.last())
    } else {
        in_category(entries.drop_last(), category)
    }
}

/// The node kinds of `category`, in display order.
pub fn get_nodes_by_category(category: &str) -> (r: Vec<NodeType>)
    ensures
        r@.map_values(|t: NodeType| t.entry()) == in_category(palette(), category@),
{
    let all = node_types();
    let mut r: Vec<NodeType> = Vec::new();
    let n = all.len();
    let mut i: usize = 0;
    let ghost entries = all@.map_values(|t: NodeType| t.entry());
    assert(entries.take(0) =~= Seq::<(Seq<char>, Seq<char>, Seq<char>, Seq<char>)>::empty());
    while i < n
        invariant
            n == all@.len(),
            entries == all@.map_values(|t: NodeType| t.entry()),
            i <= n,
            r@.map_values(|t: NodeType| t.entry()) == in_category(entries.take(i as int), category@),
        decreases n - i,
    {
        let ghost before = r@.map_values(|t: NodeType| t.entry());
        assert(entries.take(i + 1).drop_last() =~= entries.take(i as int));
        let t = all[i];
        if str_eq(t.category, category) {
            r.push(t);
            assert(r@.map_values(|t: NodeType| t.entry()) =~= before.push(t.entry()));
        }
        i = i + 1;
    }
    assert(entries.take(n as int) =~= entries);
    r
}

/// The label of a node kind: the name of the first palette entry with that
/// id, or the id itself for a kind the palette does not list.
pub open spec fn label_of(entries: Seq<(Seq<char>, Seq<char>, Seq<char>, Seq<char>)>, node_type: Seq<char>) -> Seq<char>
    decreases entries.len(),
{
    if entries.len() == 0 {
        node_type
    } else if entries[0].0 == node_type {
        entries[0].1
    } else {
        label_of(entries.drop_first(), node_type)
    }
}

/// The label a new node of kind `node_type` gets.
pub fn node_label(node_type: &str) -> (r: String)
    ensures
        r@ == label_of(palette(), node_type@),
{
    let all = node_types();
    let ghost entries = all@.map_values(|t: NodeType| t.entry());
    let n = all.len();
    let mut i: usize = 0;
    assert(entries.subrange(0, n as int) =~= entries);
    while i < n
        invariant
            n == all@.len(),
            entries == all@.map_values(|t: NodeType| t.entry()),
            entries == palette(),
            i <= n,
            label_of(entries.subrange(i as int, n as int), node_type@) == label_of(entries, node_type@),
        decreases n - i,
    {
        assert(entries.subrange(i as int, n as int).drop_first() =~= entries.subrange(i + 1, n as int));
        let t = all[i];
        if str_eq(t.id, node_type) {
            return String::from_str(t.name);
        }
        i = i + 1;
    }
    String::from_str(node_type)
}

/// The categories of the palette, in display order.
pub fn palette_categories() -> (r: Vec<&'static str>)
    ensures
        r@.map_values(|c: &'static str| c@) == seq!["Input"@, "Context"@, "Agent"@, "Tool"@, "Control"@, "Output"@],
{
    let mut v: Vec<&'static str> = Vec::new();
    v.push("Input");
    v.push("Context");
    v.push("Agent");
    v.push("Tool");
    v.push("Control");
    v.push("Output");
    assert(v@.map_values(|c: &'static str| c@) =~= seq!["Input"@, "Context"@, "Agent"@, "Tool"@, "Control"@, "Output"@]);
    v
}

/// The categories among `cats` that hold at least one palette entry.
pub open spec fn nonempty_categories(cats: Seq<Seq<char>>) -> Seq<Seq<char>>
    decreases cats.len(),
{
    if cats.len() == 0 {
        Seq::empty()
    } else {
        let rest = nonempty_categories(cats.drop_last());
        if in_category(palette(), cats.last()).len() > 0 { rest.push(cats.last()) } else { rest }
    }
}

/// The sections the palette shows: each category that holds a node kind,
/// in display order, with its node kinds.
pub fn palette_sections() -> (r: Vec<(&'static str, Vec<NodeType>)>)
    ensures
        r@.map_values(|s: (&'static str, Vec<NodeType>)| s.0@)
            == nonempty_categories(seq!["Input"@, "Context"@, "Agent"@, "Tool"@, "Control"@, "Output"@]),
        forall|i: int| 0 <= i < r@.len() ==> (#[trigger] r@[i]).1@.map_values(|t: NodeType| t.entry())
            == in_category(palette(), r@[i].0@),
{
    let cats = palette_categories();
    let ghost names = cats@.map_values(|c: &'static str| c@);
    let mut r: Vec<(&'static str, Vec<NodeType>)> = Vec::new();
    let n = cats.len();
    let mut i: usize = 0;
    assert(names.take(0) =~= Seq::<Seq<char>>::empty());
    while i < n
        invariant
            n == cats@.len(),
            names == cats@.map_values(|c: &'static str| c@),
            i <= n,
            r@.map_values(|s: (&'static str, Vec<NodeType>)| s.0@) == nonempty_categories(names.take(i as int)),
            forall|j: int| 0 <= j < r@.len() ==> (#[trigger] r@[j]).1@.map_values(|t: NodeType| t.entry())
                == in_category(palette(), r@[j].0@),
        decreases n - i,
    {
        let ghost before = r@.map_values(|s: (&'static str, Vec<NodeType>)| s.0@);
        assert(names.take(i + 1).drop_last() =~= names.take(i as int));
        let c = cats[i];
        let nodes = get_nodes_by_category(c);
        if nodes.len() > 0 {
            r.push((c, nodes));
            assert(r@.map_values(|s: (&'static str, Vec<NodeType>)| s.0@) =~= before.push(c@));
        }
        i = i + 1;
    }
    assert(names.take(n as int) =~= names);
    r
}

/// The tabs of the left panel.
#[derive(Clone, Copy, Debug, PartialEq, Eq, Structural)]
pub enum Tab {
    Palette,
    Plugins,
    Graph,
}

impl Default for Tab {
    /// The panel opens on the palette.
    fn default() -> (r: Self)
        ensures
            r == Tab::Palette,
    {
        Tab::Palette
    }
}

} // verus!
