//! Workflow descriptions as the backend reports them.
use vstd::prelude::*;
use crate::text::str_eq;
use crate::util::{first_match, lemma_first_match_found, lemma_first_match_none, lemma_first_match, any_match, seq_view};

verus! {

/// What the logic reads of a node's configuration: its `model_name`
/// entry, where that entry is a string.
pub struct NodeConfig {
    pub model_name: Option<String>,
}

pub struct NodeInfo {
    pub name: String,
    pub component_type: String,
    pub config: NodeConfig,
}

pub struct EdgeInfo {
    pub source_node_id: String,
    pub target_node_id: String,
    pub edge_label: String,
}

pub struct WorkflowDetail {
    pub slug: String,
    pub name: String,
    pub nodes: Vec<NodeInfo>,
    pub edges: Vec<EdgeInfo>,
}

pub struct ChatSendResponse {
    pub execution_id: Option<String>,
}

pub struct ChatMessageResponse {
    pub role: String,
    pub text: String,
    pub timestamp: Option<String>,
}

pub fn clone_opt_string(o: &Option<String>) -> (r: Option<String>)
    ensures
        r == *o,
{
    match o {
        Some(s) => Some(s.clone()),
        None => None,
    }
}

impl Clone for NodeConfig {
    fn clone(&self) -> (r: Self)
        ensures
            r == *self,
    {
        NodeConfig { model_name: clone_opt_string(&self.model_name) }
    }
}

impl Clone for NodeInfo {
    fn clone(&self) -> (r: Self)
        ensures
            r == *self,
    {
        NodeInfo {
            name: self.name.clone(),
            component_type: self.component_type.clone(),
            config: self.config.clone(),
        }
    }
}

impl Clone for EdgeInfo {
    fn clone(&self) -> (r: Self)
        ensures
            r == *self,
    {
        EdgeInfo {
            source_node_id: self.source_node_id.clone(),
            target_node_id: self.target_node_id.clone(),
            edge_label: self.edge_label.clone(),
        }
    }
}

/// Element-wise copy of a vector.
pub fn clone_vec<T: Clone>(v: &Vec<T>) -> (r: Vec<T>)
    requires
        forall|x: &T, y: T| #[trigger] call_ensures(T::clone, (x,), y) ==> y == *x,
    ensures
        r@ == v@,
{
    let mut r: Vec<T> = Vec::new();
    let mut i: usize = 0;
    while i < v.len()
        invariant
            i <= v@.len(),
            r@ == v@.take(i as int),
            forall|x: &T, y: T| #[trigger] call_ensures(T::clone, (x,), y) ==> y == *x,
        decreases v@.len() - i,
    {
        let x = v[i].clone();
        r.push(x);
        i = i + 1;
        assert(r@ =~= v@.take(i as int));
    }
    assert(v@.take(v@.len() as int) =~= v@);
    r
}

impl Clone for WorkflowDetail {
    fn clone(&self) -> (r: Self)
        ensures
            r@ == self@,
    {
        WorkflowDetail {
            slug: self.slug.clone(),
            name: self.name.clone(),
            nodes: clone_vec(&self.nodes),
            edges: clone_vec(&self.edges),
        }
    }
}

/// Copy of a list of workflows.
pub fn clone_workflows(v: &Vec<WorkflowDetail>) -> (r: Vec<WorkflowDetail>)
    ensures
        seq_view(r@) == seq_view(v@),
{
    let mut r: Vec<WorkflowDetail> = Vec::new();
    let mut i: usize = 0;
    while i < v.len()
        invariant
            i <= v@.len(),
            seq_view(r@) =~= seq_view(v@).take(i as int),
        decreases v@.len() - i,
    {
        let x = v[i].clone();
        let ghost before = seq_view(r@);
        let ghost xv = x@;
        r.push(x);
        assert(seq_view(r@) =~= before.push(xv));
        i = i + 1;
    }
    assert(seq_view(v@).take(v@.len() as int) =~= seq_view(v@));
    r
}

pub open spec fn opt_str_view(o: Option<String>) -> Option<Seq<char>> {
    match o {
        Some(s) => Some(s@),
        None => None,
    }
}

pub struct NodeView {
    pub name: Seq<char>,
    pub component_type: Seq<char>,
    pub model_name: Option<Seq<char>>,
}

pub struct EdgeView {
    pub source_node_id: Seq<char>,
    pub target_node_id: Seq<char>,
    pub edge_label: Seq<char>,
}

pub struct WorkflowView {
    pub slug: Seq<char>,
    pub name: Seq<char>,
    pub nodes: Seq<NodeView>,
    pub edges: Seq<EdgeView>,
}

impl View for NodeInfo {
    type V = NodeView;

    open spec fn view(&self) -> NodeView {
        NodeView {
            name: self.name@,
            component_type: self.component_type@,
            model_name: opt_str_view(self.config.model_name),
        }
    }
}

impl View for EdgeInfo {
    type V = EdgeView;

    open spec fn view(&self) -> EdgeView {
        EdgeView {
            source_node_id: self.source_node_id@,
            target_node_id: self.target_node_id@,
            edge_label: self.edge_label@,
        }
    }
}

impl View for WorkflowDetail {
    type V = WorkflowView;

    open spec fn view(&self) -> WorkflowView {
        WorkflowView {
            slug: self.slug@,
            name: self.name@,
            nodes: seq_view(self.nodes@),
            edges: seq_view(self.edges@),
        }
    }
}

pub open spec fn is_trigger_chat(n: NodeView) -> bool {
    n.component_type == "trigger_chat"@
}

/// Whether the workflow has a node of type `trigger_chat`.
pub open spec fn spec_has_trigger_chat(w: WorkflowView) -> bool {
    any_match(w.nodes, |n: NodeView| is_trigger_chat(n))
}

pub open spec fn trigger_index(nodes: Seq<NodeView>) -> Option<int> {
    first_match(nodes, |n: NodeView| is_trigger_chat(n))
}

pub open spec fn node_named(nodes: Seq<NodeView>, name: Seq<char>) -> Option<int> {
    first_match(nodes, |n: NodeView| n.name == name)
}

pub open spec fn edge_from(edges: Seq<EdgeView>, source: Seq<char>) -> Option<int> {
    first_match(edges, |e: EdgeView| e.source_node_id == source)
}

pub open spec fn llm_edge_into(edges: Seq<EdgeView>, target: Seq<char>) -> Option<int> {
    first_match(edges, |e: EdgeView| e.target_node_id == target && e.edge_label == "llm"@)
}

/// The model of the LLM node that feeds the agent which the chat trigger
/// starts: the first `trigger_chat` node, the first edge leaving it, the
/// first edge labelled `llm` into that edge's target, and the node that
/// edge comes from; its non-empty `model_name`.
pub open spec fn spec_model_name(w: WorkflowView) -> Option<Seq<char>> {
    match trigger_index(w.nodes) {
        None => None,
        Some(t) => match edge_from(w.edges, w.nodes[t].name) {
            None => None,
            Some(a) => match llm_edge_into(w.edges, w.edges[a].target_node_id) {
                None => None,
                Some(l) => match node_named(w.nodes, w.edges[l].source_node_id) {
                    None => None,
                    Some(m) => match w.nodes[m].model_name {
                        Some(s) => if s.len() > 0 {
                            Some(s)
                        } else {
                            None
                        },
                        None => None,
                    },
                },
            },
        },
    }
}

fn find_trigger(nodes: &Vec<NodeInfo>) -> (r: Option<usize>)
    ensures
        match r {
            Some(i) => trigger_index(seq_view(nodes@)) == Some(i as int) && i < nodes@.len(),
            None => trigger_index(seq_view(nodes@)) is None,
        },
{
    let ghost s = seq_view(nodes@);
    let ghost p = |n: NodeView| is_trigger_chat(n);
    let mut i: usize = 0;
    while i < nodes.len()
        invariant
            i <= nodes@.len(),
            s == seq_view(nodes@),
            p == (|n: NodeView| is_trigger_chat(n)),
            forall|j: int| 0 <= j < i ==> !p(#[trigger] s[j]),
        decreases nodes@.len() - i,
    {
        if str_eq(nodes[i].component_type.as_str(), "trigger_chat") {
            proof {
                lemma_first_match_found(s, p, i as int);
            }
            return Some(i);
        }
        i = i + 1;
    }
    proof {
        lemma_first_match_none(s, p);
    }
    None
}

fn find_node_named(nodes: &Vec<NodeInfo>, name: &str) -> (r: Option<usize>)
    ensures
        match r {
            Some(i) => node_named(seq_view(nodes@), name@) == Some(i as int) && i < nodes@.len(),
            None => node_named(seq_view(nodes@), name@) is None,
        },
{
    let ghost s = seq_view(nodes@);
    let ghost p = |n: NodeView| n.name == name@;
    let mut i: usize = 0;
    while i < nodes.len()
        invariant
            i <= nodes@.len(),
            s == seq_view(nodes@),
            p == (|n: NodeView| n.name == name@),
            forall|j: int| 0 <= j < i ==> !p(#[trigger] s[j]),
        decreases nodes@.len() - i,
    {
        if str_eq(nodes[i].name.as_str(), name) {
            proof {
                lemma_first_match_found(s, p, i as int);
            }
            return Some(i);
        }
        i = i + 1;
    }
    proof {
        lemma_first_match_none(s, p);
    }
    None
}

fn find_edge_from(edges: &Vec<EdgeInfo>, source: &str) -> (r: Option<usize>)
    ensures
        match r {
            Some(i) => edge_from(seq_view(edges@), source@) == Some(i as int) && i < edges@.len(),
            None => edge_from(seq_view(edges@), source@) is None,
        },
{
    let ghost s = seq_view(edges@);
    let ghost p = |e: EdgeView| e.source_node_id == source@;
    let mut i: usize = 0;
    while i < edges.len()
        invariant
            i <= edges@.len(),
            s == seq_view(edges@),
            p == (|e: EdgeView| e.source_node_id == source@),
            forall|j: int| 0 <= j < i ==> !p(#[trigger] s[j]),
        decreases edges@.len() - i,
    {
        if str_eq(edges[i].source_node_id.as_str(), source) {
            proof {
                lemma_first_match_found(s, p, i as int);
            }
            return Some(i);
        }
        i = i + 1;
    }
    proof {
        lemma_first_match_none(s, p);
    }
    None
}

fn find_llm_edge_into(edges: &Vec<EdgeInfo>, target: &str) -> (r: Option<usize>)
    ensures
        match r {
            Some(i) => llm_edge_into(seq_view(edges@), target@) == Some(i as int) && i < edges@.len(),
            None => llm_edge_into(seq_view(edges@), target@) is None,
        },
{
    let ghost s = seq_view(edges@);
    let ghost p = |e: EdgeView| e.target_node_id == target@ && e.edge_label == "llm"@;
    let mut i: usize = 0;
    while i < edges.len()
        invariant
            i <= edges@.len(),
            s == seq_view(edges@),
            p == (|e: EdgeView| e.target_node_id == target@ && e.edge_label == "llm"@),
            forall|j: int| 0 <= j < i ==> !p(#[trigger] s[j]),
        decreases edges@.len() - i,
    {
        if str_eq(edges[i].target_node_id.as_str(), target) && str_eq(
            edges[i].edge_label.as_str(),
            "llm",
        ) {
            proof {
                lemma_first_match_found(s, p, i as int);
            }
            return Some(i);
        }
        i = i + 1;
    }
    proof {
        lemma_first_match_none(s, p);
    }
    None
}

impl WorkflowDetail {
    /// Whether the workflow can be chatted with.
    pub fn has_trigger_chat(&self) -> (b: bool)
        ensures
            b == spec_has_trigger_chat(self@),
    {
        let r = find_trigger(&self.nodes);
        proof {
            lemma_first_match(self@.nodes, |n: NodeView| is_trigger_chat(n));
        }
        r.is_some()
    }

    /// The model name shown for this workflow's agent.
    pub fn model_name(&self) -> (r: Option<String>)
        ensures
            opt_str_view(r) == spec_model_name(self@),
    {
        let t = find_trigger(&self.nodes);
        let t = match t {
            Some(t) => t,
            None => return None,
        };
        assert(self.nodes@[t as int]@ == self@.nodes[t as int]);
        let a = match find_edge_from(&self.edges, self.nodes[t].name.as_str()) {
            Some(a) => a,
            None => return None,
        };
        assert(self.edges@[a as int]@ == self@.edges[a as int]);
        let l = match find_llm_edge_into(&self.edges, self.edges[a].target_node_id.as_str()) {
            Some(l) => l,
            None => return None,
        };
        assert(self.edges@[l as int]@ == self@.edges[l as int]);
        let m = match find_node_named(&self.nodes, self.edges[l].source_node_id.as_str()) {
            Some(m) => m,
            None => return None,
        };
        assert(self.nodes@[m as int]@ == self@.nodes[m as int]);
        match &self.nodes[m].config.model_name {
            Some(s) => {
                if crate::text::is_empty_str(s.as_str()) {
                    None
                } else {
                    Some(s.clone())
                }
            },
            None => None,
        }
    }
}

} // verus!

verus! {

/// A workflow that names a model has a chat trigger.
pub proof fn lemma_model_name_has_trigger(w: WorkflowView)
    ensures
        spec_model_name(w) is Some ==> spec_has_trigger_chat(w),
{
    lemma_first_match(w.nodes, |n: NodeView| is_trigger_chat(n));
}

} // verus!
