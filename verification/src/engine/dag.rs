//! DAG (Directed Acyclic Graph) for rule dependencies
//!
//! This module provides:
//! - Construction of dependency graph from rules
//! - Topological sorting for execution order
//! - Cycle detection
//! - Parallel execution group computation
//!
//! A rule depends on another when one of its inputs is an output of the
//! other: the graph has an edge from the producer to the consumer.  Rules are
//! numbered in the order they were given, and the edges are those of
//! [`dag_edges`], in that order.

use vstd::prelude::*;
use petgraph::graph::DiGraph;
use crate::engine::error::RuleEngineError;
use crate::engine::graph::{
    graph_edge_list, appears_in, has_edge, lemma_incoming, lemma_outgoing, edges_within, graph_add_edge, graph_add_node, graph_edges, graph_incoming, graph_new,
    graph_node_count, graph_outgoing, graph_toposort, incoming, is_topo_order, outgoing,
    toposort_result,
};
use crate::text::{chars_equal, push_chars, push_str, str_chars, string_from_chars};
use crate::farmscript::token::{decimal_nat, nat_to_chars};

verus! {

/// A node in the rule dependency graph
#[derive(Debug)]
pub struct RuleNode {
    /// The rule ID
    pub id: String,
    /// Input attribute paths required by this rule
    pub inputs: Vec<String>,
    /// Output attribute paths produced by this rule
    pub outputs: Vec<String>,
    /// Order index for execution ordering (lower = earlier)
    pub order_index: i32,
}

/// Model of a [`RuleNode`].
#[verifier::ext_equal]
pub struct SpecRuleNode {
    pub id: Seq<char>,
    pub inputs: Seq<Seq<char>>,
    pub outputs: Seq<Seq<char>>,
    pub order_index: i32,
}

pub open spec fn strings_view(v: Seq<String>) -> Seq<Seq<char>> {
    v.map_values(|s: String| s@)
}

impl View for RuleNode {
    type V = SpecRuleNode;

    open spec fn view(&self) -> SpecRuleNode {
        SpecRuleNode {
            id: self.id@,
            inputs: strings_view(self.inputs@),
            outputs: strings_view(self.outputs@),
            order_index: self.order_index,
        }
    }
}

pub open spec fn nodes_view(v: Seq<RuleNode>) -> Seq<SpecRuleNode> {
    v.map_values(|n: RuleNode| n@)
}

/// A copy of a list of strings.
pub fn copy_strings(v: &Vec<String>) -> (r: Vec<String>)
    ensures
        strings_view(r@) == strings_view(v@),
{
    let mut r: Vec<String> = Vec::new();
    let mut i: usize = 0;
    while i < v.len()
        invariant
            0 <= i <= v@.len(),
            r@ == v@.subrange(0, i as int),
        decreases v@.len() - i,
    {
        r.push(v[i].clone());
        i = i + 1;
        assert(r@ =~= v@.subrange(0, i as int));
    }
    assert(v@.subrange(0, v@.len() as int) =~= v@);
    r
}

impl RuleNode {
    /// A rule node with the given identity, inputs, outputs and order.
    pub fn new(id: String, inputs: Vec<String>, outputs: Vec<String>, order_index: i32) -> (n: RuleNode)
        ensures
            n.id == id,
            n.inputs == inputs,
            n.outputs == outputs,
            n.order_index == order_index,
    {
        RuleNode { id, inputs, outputs, order_index }
    }

    /// A copy of this node.
    pub fn duplicate(&self) -> (n: RuleNode)
        ensures
            n@ == self@,
    {
        RuleNode {
            id: self.id.clone(),
            inputs: copy_strings(&self.inputs),
            outputs: copy_strings(&self.outputs),
            order_index: self.order_index,
        }
    }
}

// ---------------------------------------------------------------------------
// The graph of a list of rules
// ---------------------------------------------------------------------------

/// The first rule from the `k`-th on that produces `out`.
pub open spec fn find_producer(nodes: Seq<SpecRuleNode>, out: Seq<char>, k: int) -> Option<int>
    decreases nodes.len() - k,
{
    if k < 0 || k >= nodes.len() {
        None
    } else if nodes[k].outputs.contains(out) {
        Some(k)
    } else {
        find_producer(nodes, out, k + 1)
    }
}

/// The rule that produces `out`, if any.
pub open spec fn producer_of(nodes: Seq<SpecRuleNode>, out: Seq<char>) -> Option<int> {
    find_producer(nodes, out, 0)
}

/// The edges into rule `v` from its first `j` inputs: one from the producer
/// of each input, unless the rule produces that input itself.
pub open spec fn input_edges(nodes: Seq<SpecRuleNode>, v: int, j: int) -> Seq<(usize, usize)>
    decreases j,
{
    if j <= 0 {
        seq![]
    } else {
        let prev = input_edges(nodes, v, j - 1);
        match producer_of(nodes, nodes[v].inputs[j - 1]) {
            Some(p) => if nodes[p].id != nodes[v].id {
                prev.push((p as usize, v as usize))
            } else {
                prev
            },
            None => prev,
        }
    }
}

/// The edges into the first `v` rules, rule by rule.
pub open spec fn edges_upto(nodes: Seq<SpecRuleNode>, v: int) -> Seq<(usize, usize)>
    decreases v,
{
    if v <= 0 {
        seq![]
    } else {
        edges_upto(nodes, v - 1) + input_edges(nodes, v - 1, nodes[v - 1].inputs.len() as int)
    }
}

/// The dependency edges of a list of rules, producer to consumer.
pub open spec fn dag_edges(nodes: Seq<SpecRuleNode>) -> Seq<(usize, usize)> {
    edges_upto(nodes, nodes.len() as int)
}

/// The configuration error of the rules from the `i`-th on, if any: an
/// output already produced by an earlier rule, or an identifier already
/// taken by an earlier rule.
pub open spec fn config_error_from(nodes: Seq<SpecRuleNode>, i: int) -> Option<Seq<char>>
    decreases nodes.len() - i,
{
    if i < 0 || i >= nodes.len() {
        None
    } else {
        match first_taken_output(nodes, i, 0) {
            Some(o) => Some("Multiple rules produce the same output: "@ + o),
            None => if exists|j: int| 0 <= j < i && nodes[j].id == nodes[i].id {
                Some("Duplicate rule id: "@ + nodes[i].id)
            } else {
                config_error_from(nodes, i + 1)
            },
        }
    }
}

/// The first output of rule `i`, from its `k`-th on, that an earlier rule
/// produces.
pub open spec fn first_taken_output(nodes: Seq<SpecRuleNode>, i: int, k: int) -> Option<Seq<char>>
    decreases nodes[i].outputs.len() - k,
{
    if k < 0 || k >= nodes[i].outputs.len() {
        None
    } else if exists|j: int| 0 <= j < i && nodes[j].outputs.contains(nodes[i].outputs[k]) {
        Some(nodes[i].outputs[k])
    } else {
        first_taken_output(nodes, i, k + 1)
    }
}

/// The configuration error of a list of rules, if any.
pub open spec fn config_error(nodes: Seq<SpecRuleNode>) -> Option<Seq<char>> {
    config_error_from(nodes, 0)
}

/// The number of inputs of the first `k` rules.
pub open spec fn input_count(nodes: Seq<SpecRuleNode>, k: int) -> nat
    decreases k,
{
    if k <= 0 {
        0
    } else {
        input_count(nodes, k - 1) + nodes[k - 1].inputs.len()
    }
}

// ---------------------------------------------------------------------------
// Facts about the edges
// ---------------------------------------------------------------------------

pub proof fn lemma_find_producer(nodes: Seq<SpecRuleNode>, out: Seq<char>, k: int)
    requires
        0 <= k,
    ensures
        find_producer(nodes, out, k) matches Some(p) ==> k <= p < nodes.len() && nodes[p].outputs.contains(out),
        find_producer(nodes, out, k) is None ==> forall|p: int| k <= p < nodes.len() ==> !(#[trigger] nodes[p].outputs.contains(out)),
    decreases nodes.len() - k,
{
    if k < nodes.len() && !nodes[k].outputs.contains(out) {
        lemma_find_producer(nodes, out, k + 1);
    }
}

proof fn lemma_input_edges(nodes: Seq<SpecRuleNode>, v: int, j: int)
    requires
        nodes.len() <= usize::MAX,
        0 <= v < nodes.len(),
        0 <= j <= nodes[v].inputs.len(),
    ensures
        input_edges(nodes, v, j).len() <= j,
        forall|e: int| 0 <= e < input_edges(nodes, v, j).len() ==> (#[trigger] input_edges(nodes, v, j)[e]).0
            < nodes.len() && input_edges(nodes, v, j)[e].1 == v && nodes[input_edges(nodes, v, j)[e].0 as int].id
            != nodes[v].id,
    decreases j,
{
    if j > 0 {
        lemma_input_edges(nodes, v, j - 1);
        lemma_find_producer(nodes, nodes[v].inputs[j - 1], 0);
        let prev = input_edges(nodes, v, j - 1);
        let cur = input_edges(nodes, v, j);
        assert forall|e: int| 0 <= e < cur.len() implies (#[trigger] cur[e]).0 < nodes.len() && cur[e].1 == v
            && nodes[cur[e].0 as int].id != nodes[v].id by {
            if e < prev.len() {
                assert(cur[e] == prev[e]);
            }
        }
    }
}

proof fn lemma_edges_upto(nodes: Seq<SpecRuleNode>, v: int)
    requires
        nodes.len() <= usize::MAX,
        0 <= v <= nodes.len(),
    ensures
        edges_upto(nodes, v).len() <= input_count(nodes, v),
        forall|e: int| 0 <= e < edges_upto(nodes, v).len() ==> (#[trigger] edges_upto(nodes, v)[e]).0
            < nodes.len() && edges_upto(nodes, v)[e].1 < v && nodes[edges_upto(nodes, v)[e].0 as int].id
            != nodes[edges_upto(nodes, v)[e].1 as int].id,
    decreases v,
{
    if v > 0 {
        lemma_edges_upto(nodes, v - 1);
        lemma_input_edges(nodes, v - 1, nodes[v - 1].inputs.len() as int);
        let a = edges_upto(nodes, v - 1);
        let b = input_edges(nodes, v - 1, nodes[v - 1].inputs.len() as int);
        assert forall|e: int| 0 <= e < edges_upto(nodes, v).len() implies (#[trigger] edges_upto(nodes, v)[e]).0
            < nodes.len() && edges_upto(nodes, v)[e].1 < v && nodes[edges_upto(nodes, v)[e].0 as int].id
            != nodes[edges_upto(nodes, v)[e].1 as int].id by {
            if e < a.len() {
                assert(edges_upto(nodes, v)[e] == a[e]);
            } else {
                assert(edges_upto(nodes, v)[e] == b[e - a.len()]);
            }
        }
    }
}

/// Every dependency edge joins two distinct rules of the list.
pub proof fn lemma_dag_edges_within(nodes: Seq<SpecRuleNode>)
    requires
        nodes.len() <= usize::MAX,
    ensures
        edges_within(nodes.len(), dag_edges(nodes)),
        dag_edges(nodes).len() <= input_count(nodes, nodes.len() as int),
        forall|e: int| 0 <= e < dag_edges(nodes).len() ==> (#[trigger] dag_edges(nodes)[e]).0 != dag_edges(nodes)[e].1,
{
    lemma_edges_upto(nodes, nodes.len() as int);
    assert forall|e: int| 0 <= e < dag_edges(nodes).len() implies (#[trigger] dag_edges(nodes)[e]).0 != dag_edges(nodes)[e].1 by {
        assert(nodes[dag_edges(nodes)[e].0 as int].id != nodes[dag_edges(nodes)[e].1 as int].id);
    }
}

// ---------------------------------------------------------------------------
// Searching the rules
// ---------------------------------------------------------------------------

/// Whether `v` holds a string equal to `s`.
fn strings_contain(v: &Vec<String>, s: &String) -> (r: bool)
    ensures
        r == strings_view(v@).contains(s@),
{
    let mut i: usize = 0;
    while i < v.len()
        invariant
            0 <= i <= v@.len(),
            forall|k: int| 0 <= k < i ==> (#[trigger] v@[k])@ != s@,
        decreases v@.len() - i,
    {
        if v[i] == *s {
            assert(strings_view(v@)[i as int] == s@);
            return true;
        }
        i = i + 1;
    }
    assert forall|k: int| 0 <= k < strings_view(v@).len() implies #[trigger] strings_view(v@)[k] != s@ by {
        assert(v@[k]@ != s@);
    }
    false
}

/// The rule that produces `out`, by its number.
fn producer_index(nodes: &Vec<RuleNode>, out: &String) -> (r: Option<usize>)
    ensures
        match r {
            Some(p) => producer_of(nodes_view(nodes@), out@) == Some(p as int),
            None => producer_of(nodes_view(nodes@), out@) is None,
        },
{
    let ghost nv = nodes_view(nodes@);
    let mut k: usize = 0;
    while k < nodes.len()
        invariant
            0 <= k <= nodes@.len(),
            nv == nodes_view(nodes@),
            find_producer(nv, out@, 0) == find_producer(nv, out@, k as int),
        decreases nodes@.len() - k,
    {
        if strings_contain(&nodes[k].outputs, out) {
            return Some(k);
        }
        k = k + 1;
    }
    None
}

/// Whether one of the first `i` rules produces `out`.
fn produced_before(nodes: &Vec<RuleNode>, i: usize, out: &String) -> (r: bool)
    requires
        i <= nodes@.len(),
    ensures
        r == exists|j: int| 0 <= j < i && (#[trigger] nodes_view(nodes@)[j]).outputs.contains(out@),
{
    let ghost nv = nodes_view(nodes@);
    let mut j: usize = 0;
    while j < i
        invariant
            0 <= j <= i <= nodes@.len(),
            nv == nodes_view(nodes@),
            forall|q: int| 0 <= q < j ==> !(#[trigger] nv[q]).outputs.contains(out@),
        decreases i - j,
    {
        if strings_contain(&nodes[j].outputs, out) {
            assert(nv[j as int].outputs.contains(out@));
            return true;
        }
        j = j + 1;
    }
    false
}

/// The first output of rule `i` that one of the first `i` rules produces.
fn taken_output(nodes: &Vec<RuleNode>, i: usize) -> (r: Option<String>)
    requires
        i < nodes@.len(),
    ensures
        match r {
            Some(o) => first_taken_output(nodes_view(nodes@), i as int, 0) == Some(o@),
            None => first_taken_output(nodes_view(nodes@), i as int, 0) is None,
        },
{
    let ghost nv = nodes_view(nodes@);
    let outputs = &nodes[i].outputs;
    let mut k: usize = 0;
    while k < outputs.len()
        invariant
            0 <= k <= outputs@.len(),
            i < nodes@.len(),
            nv == nodes_view(nodes@),
            outputs == &nodes@[i as int].outputs,
            first_taken_output(nv, i as int, 0) == first_taken_output(nv, i as int, k as int),
        decreases outputs@.len() - k,
    {
        assert(nv[i as int].outputs[k as int] == outputs@[k as int]@);
        if produced_before(nodes, i, &outputs[k]) {
            return Some(outputs[k].clone());
        }
        k = k + 1;
    }
    None
}

/// Whether one of the first `i` rules has the identifier `id`.
fn id_taken_before(nodes: &Vec<RuleNode>, i: usize, id: &String) -> (r: bool)
    requires
        i <= nodes@.len(),
    ensures
        r == exists|j: int| 0 <= j < i && (#[trigger] nodes_view(nodes@)[j]).id == id@,
{
    let ghost nv = nodes_view(nodes@);
    let mut j: usize = 0;
    while j < i
        invariant
            0 <= j <= i <= nodes@.len(),
            nv == nodes_view(nodes@),
            forall|q: int| 0 <= q < j ==> (#[trigger] nv[q]).id != id@,
        decreases i - j,
    {
        if nodes[j].id == *id {
            assert(nv[j as int].id == id@);
            return true;
        }
        j = j + 1;
    }
    false
}

/// The number of the rule with identifier `id`, if any.
fn index_of_id(nodes: &Vec<RuleNode>, id: &String) -> (r: Option<usize>)
    ensures
        match r {
            Some(i) => i < nodes@.len() && nodes@[i as int].id@ == id@,
            None => forall|i: int| 0 <= i < nodes@.len() ==> (#[trigger] nodes@[i]).id@ != id@,
        },
{
    let mut j: usize = 0;
    while j < nodes.len()
        invariant
            0 <= j <= nodes@.len(),
            forall|q: int| 0 <= q < j ==> (#[trigger] nodes@[q]).id@ != id@,
        decreases nodes@.len() - j,
    {
        if nodes[j].id == *id {
            return Some(j);
        }
        j = j + 1;
    }
    None
}

fn text_of(parts: &Vec<char>) -> (s: String)
    ensures
        s@ == parts@,
{
    string_from_chars(parts.as_slice())
}

fn prefixed(prefix: &str, s: &String) -> (r: String)
    ensures
        r@ == prefix@ + s@,
{
    let mut v: Vec<char> = Vec::new();
    push_str(&mut v, prefix);
    push_str(&mut v, s.as_str());
    proof {
        reveal_strlit("");
    }
    assert(v@ =~= prefix@ + s@);
    text_of(&v)
}

// ---------------------------------------------------------------------------
// The dependency graph
// ---------------------------------------------------------------------------

/// Dependency graph for rules
pub struct RuleDag {
    /// The petgraph directed graph; its node `i` is the rule `nodes[i]`
    graph: DiGraph<(), ()>,
    /// The rules, in the order they were given
    nodes: Vec<RuleNode>,
}

/// Whether the graph of `n` rules with these edges has no cycle.
pub open spec fn acyclic(n: nat, edges: Seq<(usize, usize)>) -> bool {
    exists|o: Seq<usize>| is_topo_order(n, edges, o)
}

/// Whether `e` is the error `CyclicDependency(msg)`.
pub open spec fn is_cyclic_error(e: RuleEngineError, msg: Seq<char>) -> bool {
    e matches RuleEngineError::CyclicDependency(s) && s@ == msg
}

/// Whether `e` is the error `InvalidConfiguration(msg)`.
pub open spec fn is_config_error(e: RuleEngineError, msg: Seq<char>) -> bool {
    e matches RuleEngineError::InvalidConfiguration(s) && s@ == msg
}

impl RuleDag {
    /// The rules of the graph, in the order they were given.
    pub closed spec fn rules(&self) -> Seq<SpecRuleNode> {
        nodes_view(self.nodes@)
    }

    #[verifier::type_invariant]
    closed spec fn inv(&self) -> bool {
        &&& graph_node_count(self.graph) == self.nodes@.len()
        &&& graph_edges(self.graph) == dag_edges(nodes_view(self.nodes@))
        &&& self.nodes@.len() < u32::MAX
        &&& config_error(nodes_view(self.nodes@)) is None
        &&& acyclic(self.nodes@.len() as nat, dag_edges(nodes_view(self.nodes@)))
    }

    /// Create a new empty DAG
    pub fn new() -> (d: Self)
        ensures
            d.rules() == Seq::<SpecRuleNode>::empty(),
    {
        let graph = graph_new();
        let nodes: Vec<RuleNode> = Vec::new();
        proof {
            assert(nodes_view(nodes@) =~= Seq::<SpecRuleNode>::empty());
            assert(dag_edges(nodes_view(nodes@)) =~= Seq::<(usize, usize)>::empty());
            assert(is_topo_order(0, dag_edges(nodes_view(nodes@)), Seq::<usize>::empty()));
        }
        RuleDag { graph, nodes }
    }

    /// Build a DAG from a list of rules.
    ///
    /// Fails with `InvalidConfiguration` on the first rule (in order) that
    /// produces an output an earlier rule produces, or that reuses an earlier
    /// rule's identifier; then with `CyclicDependency` when the dependencies
    /// form a cycle.
    pub fn from_rules(rules: &Vec<RuleNode>) -> (r: Result<Self, RuleEngineError>)
        requires
            rules@.len() < u32::MAX,
            input_count(nodes_view(rules@), rules@.len() as int) < u32::MAX,
        ensures
            match r {
                Ok(d) => d.rules() == nodes_view(rules@) && config_error(nodes_view(rules@)) is None
                    && acyclic(rules@.len() as nat, dag_edges(nodes_view(rules@))),
                Err(e) => match config_error(nodes_view(rules@)) {
                    Some(msg) => is_config_error(e, msg),
                    None => !acyclic(rules@.len() as nat, dag_edges(nodes_view(rules@))) && (toposort_result(
                        rules@.len() as nat,
                        dag_edges(nodes_view(rules@)),
                    ) matches Err(c) && c < rules@.len() && is_cyclic_error(
                        e,
                        "Cycle detected at rule: "@ + nodes_view(rules@)[c as int].id,
                    )),
                },
            },
    {
        let ghost nv = nodes_view(rules@);
        let n = rules.len();
        // First pass: check the rules and add their nodes
        let mut graph = graph_new();
        let mut nodes: Vec<RuleNode> = Vec::new();
        let mut i: usize = 0;
        while i < n
            invariant
                0 <= i <= n == rules@.len() < u32::MAX,
                nv == nodes_view(rules@),
                config_error(nv) == config_error_from(nv, i as int),
                graph_node_count(graph) == i,
                graph_edges(graph) == Seq::<(usize, usize)>::empty(),
                nodes@.len() == i,
                nodes_view(nodes@) == nv.subrange(0, i as int),
            decreases n - i,
        {
            match taken_output(rules, i) {
                Some(o) => {
                    return Err(RuleEngineError::InvalidConfiguration(
                        prefixed("Multiple rules produce the same output: ", &o),
                    ));
                },
                None => {},
            }
            if id_taken_before(rules, i, &rules[i].id) {
                return Err(RuleEngineError::InvalidConfiguration(prefixed("Duplicate rule id: ", &rules[i].id)));
            }
            graph_add_node(&mut graph);
            let ghost old_nodes = nodes@;
            let copy = rules[i].duplicate();
            assert(copy@ == nv[i as int]);
            nodes.push(copy);
            proof {
                assert forall|k: int| 0 <= k <= i implies #[trigger] nodes_view(nodes@)[k] == nv[k] by {
                    if k < i {
                        assert(nodes@[k] == old_nodes[k]);
                        assert(nodes_view(old_nodes)[k] == nv.subrange(0, i as int)[k]);
                    }
                }
            }
            i = i + 1;
            assert(nodes_view(nodes@) =~= nv.subrange(0, i as int));
        }
        assert(nodes_view(nodes@) =~= nv);
        proof {
            lemma_dag_edges_within(nv);
            lemma_input_count_mono(nv);
        }
        // Second pass: add edges based on dependencies
        let mut v: usize = 0;
        while v < n
            invariant
                0 <= v <= n == rules@.len() < u32::MAX,
                nv == nodes_view(rules@),
                nodes_view(nodes@) == nv,
                graph_node_count(graph) == n,
                graph_edges(graph) == edges_upto(nv, v as int),
                input_count(nv, n as int) < u32::MAX,
                forall|k: int| 0 <= k <= n ==> #[trigger] input_count(nv, k) <= input_count(nv, n as int),
            decreases n - v,
        {
            let inputs = &rules[v].inputs;
            let mut j: usize = 0;
            proof {
                lemma_edges_upto(nv, v as int);
            }
            while j < inputs.len()
                invariant
                    0 <= v < n == rules@.len() < u32::MAX,
                    0 <= j <= inputs@.len(),
                    inputs == &rules@[v as int].inputs,
                    nv == nodes_view(rules@),
                    nodes_view(nodes@) == nv,
                    graph_node_count(graph) == n,
                    graph_edges(graph) == edges_upto(nv, v as int) + input_edges(nv, v as int, j as int),
                    edges_upto(nv, v as int).len() <= input_count(nv, v as int),
                    input_count(nv, v + 1) < u32::MAX,
                decreases inputs@.len() - j,
            {
                proof {
                    lemma_input_edges(nv, v as int, j as int);
                }
                assert(nv[v as int].inputs[j as int] == inputs@[j as int]@);
                match producer_index(rules, &inputs[j]) {
                    Some(p) => {
                        proof {
                            lemma_find_producer(nv, inputs@[j as int]@, 0);
                        }
                        if rules[p].id != rules[v].id {
                            graph_add_edge(&mut graph, p, v);
                        }
                    },
                    None => {},
                }
                j = j + 1;
                assert(graph_edges(graph) =~= edges_upto(nv, v as int) + input_edges(nv, v as int, j as int));
            }
            v = v + 1;
            assert(graph_edges(graph) =~= edges_upto(nv, v as int));
        }
        // Check for cycles
        match graph_toposort(&graph) {
            Ok(order) => {
                assert(is_topo_order(n as nat, dag_edges(nv), order@));
                Ok(RuleDag { graph, nodes })
            },
            Err(c) => {
                let msg = prefixed("Cycle detected at rule: ", &rules[c].id);
                Err(RuleEngineError::CyclicDependency(msg))
            },
        }
    }
}

proof fn lemma_input_count_mono(nodes: Seq<SpecRuleNode>)
    ensures
        forall|k: int| 0 <= k <= nodes.len() ==> #[trigger] input_count(nodes, k) <= input_count(
            nodes,
            nodes.len() as int,
        ),
    decreases nodes.len(),
{
    assert forall|k: int| 0 <= k <= nodes.len() implies #[trigger] input_count(nodes, k) <= input_count(
        nodes,
        nodes.len() as int,
    ) by {
        lemma_input_count_le(nodes, k, nodes.len() as int);
    }
}

proof fn lemma_input_count_le(nodes: Seq<SpecRuleNode>, a: int, b: int)
    requires
        0 <= a <= b,
    ensures
        input_count(nodes, a) <= input_count(nodes, b),
    decreases b - a,
{
    if a < b {
        lemma_input_count_le(nodes, a, b - 1);
    }
}

// ---------------------------------------------------------------------------
// Execution levels
// ---------------------------------------------------------------------------

/// Whether `x` is among the first `k` elements of `o`.
pub open spec fn appears_before(o: Seq<usize>, x: usize, k: int) -> bool {
    exists|i: int| 0 <= i < k && o[i] == x
}

/// The highest of the levels `lv` of the rules `preds` (0 for none).
pub open spec fn max_level(preds: Seq<usize>, lv: Seq<usize>) -> nat
    decreases preds.len(),
{
    if preds.len() == 0 {
        0
    } else {
        let m = max_level(preds.drop_last(), lv);
        let x = lv[preds.last() as int] as nat;
        if x > m {
            x
        } else {
            m
        }
    }
}

/// The level a rule must have given the levels of the others: 0 without
/// dependencies, else one more than the highest level of its dependencies.
pub open spec fn level_of(edges: Seq<(usize, usize)>, lv: Seq<usize>, v: int) -> nat {
    if incoming(edges, v as usize).len() == 0 {
        0
    } else {
        max_level(incoming(edges, v as usize), lv) + 1
    }
}

/// `lv` gives each of the `n` rules its execution level.
pub open spec fn is_level_map(n: nat, edges: Seq<(usize, usize)>, lv: Seq<usize>) -> bool {
    &&& lv.len() == n
    &&& forall|v: int| 0 <= v < n ==> #[trigger] lv[v] as nat == level_of(edges, lv, v)
}

/// The highest element of a sequence (0 for none).
pub open spec fn seq_max(s: Seq<usize>) -> nat
    decreases s.len(),
{
    if s.len() == 0 {
        0
    } else {
        let m = seq_max(s.drop_last());
        if s.last() as nat > m {
            s.last() as nat
        } else {
            m
        }
    }
}

/// `g` groups the rules by level: group `l` holds, once each, exactly the
/// rules of level `l`, ordered by `order_index`; there is one group for each
/// level up to the highest.
pub open spec fn is_level_grouping(rules: Seq<SpecRuleNode>, lv: Seq<usize>, g: Seq<Seq<usize>>) -> bool {
    &&& g.len() == (if rules.len() == 0 { 0 } else { seq_max(lv) + 1 })
    &&& forall|l: int, j: int|
        0 <= l < g.len() && 0 <= j < g[l].len() ==> #[trigger] g[l][j] < rules.len() && lv[g[l][j] as int] == l
    &&& forall|v: int| 0 <= v < rules.len() ==> #[trigger] appears_in(g[lv[v] as int], v as usize)
    &&& forall|l: int, i: int, j: int|
        0 <= l < g.len() && 0 <= i < j < g[l].len() ==> #[trigger] g[l][i] != #[trigger] g[l][j]
    &&& forall|l: int, i: int, j: int|
        0 <= l < g.len() && 0 <= i < j < g[l].len() ==> rules[#[trigger] g[l][i] as int].order_index
            <= rules[#[trigger] g[l][j] as int].order_index
}

proof fn lemma_max_level_member(preds: Seq<usize>, lv: Seq<usize>, k: int)
    requires
        0 <= k < preds.len(),
    ensures
        lv[preds[k] as int] as nat <= max_level(preds, lv),
    decreases preds.len(),
{
    if k < preds.len() - 1 {
        lemma_max_level_member(preds.drop_last(), lv, k);
    }
}

proof fn lemma_max_level_bound(preds: Seq<usize>, lv: Seq<usize>, b: nat)
    requires
        forall|k: int| 0 <= k < preds.len() ==> lv[#[trigger] preds[k] as int] as nat <= b,
    ensures
        max_level(preds, lv) <= b,
    decreases preds.len(),
{
    if preds.len() > 0 {
        lemma_max_level_bound(preds.drop_last(), lv, b);
    }
}

proof fn lemma_max_level_agree(preds: Seq<usize>, lv1: Seq<usize>, lv2: Seq<usize>)
    requires
        forall|k: int| 0 <= k < preds.len() ==> lv1[#[trigger] preds[k] as int] == lv2[preds[k] as int],
    ensures
        max_level(preds, lv1) == max_level(preds, lv2),
    decreases preds.len(),
{
    if preds.len() > 0 {
        lemma_max_level_agree(preds.drop_last(), lv1, lv2);
        assert(lv1[preds.last() as int] == lv2[preds[preds.len() - 1] as int]);
    }
}

/// The dependencies of a rule run at strictly lower levels: for every
/// dependency edge, the producer's level is below the consumer's.
pub proof fn lemma_levels_respect_dependencies(n: nat, edges: Seq<(usize, usize)>, lv: Seq<usize>)
    requires
        is_level_map(n, edges, lv),
        edges_within(n, edges),
    ensures
        forall|e: int| 0 <= e < edges.len() ==> lv[(#[trigger] edges[e]).0 as int] < lv[edges[e].1 as int],
{
    assert forall|e: int| 0 <= e < edges.len() implies lv[(#[trigger] edges[e]).0 as int] < lv[edges[e].1 as int] by {
        let v = edges[e].1;
        lemma_incoming(edges, v);
        assert(incoming(edges, v).contains(edges[e].0));
        let k = choose|k: int| 0 <= k < incoming(edges, v).len() && incoming(edges, v)[k] == edges[e].0;
        lemma_max_level_member(incoming(edges, v), lv, k);
        assert(lv[v as int] as nat == level_of(edges, lv, v as int));
    }
}

impl RuleDag {
    /// The rule numbers in the topological order `petgraph` gives.
    fn order_indices(&self) -> (order: Vec<usize>)
        ensures
            toposort_result(self.rules().len(), dag_edges(self.rules())) == Ok::<Seq<usize>, usize>(order@),
            is_topo_order(self.rules().len(), dag_edges(self.rules()), order@),
    {
        proof {
            use_type_invariant(self);
            lemma_dag_edges_within(self.rules());
        }
        match graph_toposort(&self.graph) {
            Ok(order) => order,
            Err(c) => {
                // The graph is acyclic: a topological order exists.
                proof {
                    let o = choose|o: Seq<usize>| is_topo_order(self.nodes@.len() as nat, dag_edges(self.rules()), o);
                    assert(is_topo_order(graph_node_count(self.graph), graph_edges(self.graph), o));
                }
                Vec::new()
            },
        }
    }

    /// The execution level of each rule, by rule number: 0 for a rule
    /// without dependencies, else one more than the highest level of the
    /// rules it depends on.
    pub fn rule_levels(&self) -> (lv: Vec<usize>)
        ensures
            is_level_map(self.rules().len(), dag_edges(self.rules()), lv@),
            forall|v: int| 0 <= v < lv@.len() ==> #[trigger] lv@[v] < self.rules().len(),
    {
        proof {
            use_type_invariant(self);
            lemma_dag_edges_within(self.rules());
        }
        let ghost edges = dag_edges(self.rules());
        let n = self.nodes.len();
        let order = self.order_indices();
        let ghost o = order@;
        let mut lv: Vec<usize> = Vec::new();
        let mut z: usize = 0;
        while z < n
            invariant
                0 <= z <= n,
                lv@.len() == z,
                forall|v: int| 0 <= v < z ==> #[trigger] lv@[v] == 0,
            decreases n - z,
        {
            lv.push(0);
            z = z + 1;
        }
        let mut k: usize = 0;
        while k < n
            invariant
                0 <= k <= n == self.nodes@.len() < u32::MAX,
                n == self.rules().len(),
                edges == dag_edges(self.rules()),
                edges == graph_edges(self.graph),
                graph_node_count(self.graph) == n,
                edges_within(n as nat, edges),
                forall|e: int| 0 <= e < edges.len() ==> (#[trigger] edges[e]).0 != edges[e].1,
                o == order@,
                is_topo_order(n as nat, edges, o),
                lv@.len() == n,
                forall|j: int| 0 <= j < k ==> #[trigger] lv@[o[j] as int] as nat == level_of(edges, lv@, o[j] as int)
                    && lv@[o[j] as int] <= j,
            decreases n - k,
        {
            let v = order[k];
            let preds = graph_incoming(&self.graph, v);
            proof {
                lemma_incoming(edges, v);
            }
            // Each dependency of `v` comes earlier in the order.
            assert forall|t: int| 0 <= t < preds@.len() implies appears_before(o, #[trigger] preds@[t], k as int) by {
                assert(has_edge(edges, preds@[t], v));
                let e = choose|e: int| 0 <= e < edges.len() && #[trigger] edges[e] == (preds@[t], v);
                assert(appears_in(o, preds@[t]));
                let i = choose|i: int| 0 <= i < o.len() && o[i] == preds@[t];
                assert(o[k as int] == edges[e].1);
                assert(o[i] == edges[e].0);
            }
            let mut m: usize = 0;
            let mut t: usize = 0;
            while t < preds.len()
                invariant
                    0 <= t <= preds@.len(),
                    0 <= k < n,
                    lv@.len() == n,
                    preds@ == incoming(edges, v),
                    edges_within(n as nat, edges),
                    forall|q: int| 0 <= q < preds@.len() ==> appears_before(o, #[trigger] preds@[q], k as int),
                    forall|q: int| 0 <= q < preds@.len() ==> has_edge(edges, #[trigger] preds@[q], v),
                    forall|j: int| 0 <= j < k ==> #[trigger] lv@[o[j] as int] <= j,
                    m as nat == max_level(preds@.subrange(0, t as int), lv@),
                    t > 0 ==> m < k,
                decreases preds@.len() - t,
            {
                let p = preds[t];
                assert(p < n) by {
                    assert(has_edge(edges, preds@[t as int], v));
                }
                proof {
                    assert(appears_before(o, preds@[t as int], k as int));
                    let i = choose|i: int| 0 <= i < k && #[trigger] o[i] == preds@[t as int];
                    assert(lv@[o[i] as int] <= i);
                }
                if lv[p] > m {
                    m = lv[p];
                }
                t = t + 1;
                assert(preds@.subrange(0, t as int).drop_last() =~= preds@.subrange(0, t - 1));
            }
            assert(preds@.subrange(0, preds@.len() as int) =~= preds@);
            let x: usize = if preds.len() == 0 { 0 } else { m + 1 };
            let ghost old_lv = lv@;
            lv.set(v, x);
            proof {
                // `v` is no dependency of itself, nor of any rule placed before it.
                assert forall|j: int| 0 <= j <= k implies #[trigger] lv@[o[j] as int] as nat == level_of(edges, lv@, o[j] as int)
                    && lv@[o[j] as int] <= j by {
                    let u = o[j];
                    assert forall|q: int| 0 <= q < incoming(edges, u).len() implies old_lv[#[trigger] incoming(edges, u)[q] as int]
                        == lv@[incoming(edges, u)[q] as int] by {
                        lemma_incoming(edges, u);
                        assert(has_edge(edges, incoming(edges, u)[q], u));
                        let e = choose|e: int| 0 <= e < edges.len() && #[trigger] edges[e] == (incoming(edges, u)[q], u);
                        if incoming(edges, u)[q] == v {
                            if j == k {
                                assert(edges[e].0 == edges[e].1);
                            } else {
                                assert(o[k as int] == edges[e].0 && o[j] == edges[e].1);
                            }
                        }
                    }
                    lemma_max_level_agree(incoming(edges, u), old_lv, lv@);
                    if j < k {
                        assert(o[j] != o[k as int]);
                    }
                }
            }
            k = k + 1;
        }
        proof {
            assert forall|v: int| 0 <= v < n implies #[trigger] lv@[v] as nat == level_of(edges, lv@, v) by {
                assert(appears_in(o, v as usize));
                let j = choose|j: int| 0 <= j < o.len() && o[j] == v as usize;
                assert(lv@[o[j] as int] as nat == level_of(edges, lv@, o[j] as int));
            }
            assert forall|v: int| 0 <= v < lv@.len() implies #[trigger] lv@[v] < n by {
                assert(appears_in(o, v as usize));
                let j = choose|j: int| 0 <= j < o.len() && o[j] == v as usize;
                assert(lv@[o[j] as int] <= j);
            }
        }
        lv
    }
}

/// The identifiers of the rules numbered `idx`, in that order.
pub open spec fn ids_of(rules: Seq<SpecRuleNode>, idx: Seq<usize>) -> Seq<Seq<char>> {
    idx.map_values(|i: usize| rules[i as int].id)
}

/// The identifiers of each group of rules.
pub open spec fn groups_ids(rules: Seq<SpecRuleNode>, g: Seq<Seq<usize>>) -> Seq<Seq<Seq<char>>> {
    g.map_values(|grp: Seq<usize>| ids_of(rules, grp))
}

pub open spec fn levels_view(v: Seq<Vec<String>>) -> Seq<Seq<Seq<char>>> {
    v.map_values(|l: Vec<String>| strings_view(l@))
}

/// Whether `s` has no element twice.
pub open spec fn no_dups(s: Seq<usize>) -> bool {
    forall|i: int, j: int| 0 <= i < j < s.len() ==> s[i] != s[j]
}

impl RuleDag {
    /// The identifiers of the rules numbered `idx`, in that order.
    fn ids_at(&self, idx: &Vec<usize>) -> (r: Vec<String>)
        requires
            forall|k: int| 0 <= k < idx@.len() ==> #[trigger] idx@[k] < self.rules().len(),
        ensures
            strings_view(r@) == ids_of(self.rules(), idx@),
    {
        let mut r: Vec<String> = Vec::new();
        let mut k: usize = 0;
        while k < idx.len()
            invariant
                0 <= k <= idx@.len(),
                forall|q: int| 0 <= q < idx@.len() ==> #[trigger] idx@[q] < self.rules().len(),
                self.rules().len() == self.nodes@.len(),
                r@.len() == k,
                forall|q: int| 0 <= q < k ==> (#[trigger] r@[q])@ == self.rules()[idx@[q] as int].id,
            decreases idx@.len() - k,
        {
            let i = idx[k];
            r.push(self.nodes[i].id.clone());
            k = k + 1;
        }
        assert(strings_view(r@) =~= ids_of(self.rules(), idx@));
        r
    }

    /// Get topologically sorted rule IDs
    pub fn topological_order(&self) -> (r: Result<Vec<String>, RuleEngineError>)
        ensures
            match r {
                Ok(ids) => toposort_result(self.rules().len(), dag_edges(self.rules())) matches Ok(o)
                    && is_topo_order(self.rules().len(), dag_edges(self.rules()), o)
                    && strings_view(ids@) == ids_of(self.rules(), o),
                Err(_) => false,
            },
    {
        let order = self.order_indices();
        Ok(self.ids_at(&order))
    }

    /// The rules (by number) of level `l`, in topological order.
    fn level_members(&self, order: &Vec<usize>, lv: &Vec<usize>, l: usize) -> (g: Vec<usize>)
        requires
            is_topo_order(self.rules().len(), dag_edges(self.rules()), order@),
            lv@.len() == self.rules().len(),
        ensures
            forall|j: int| 0 <= j < g@.len() ==> #[trigger] g@[j] < self.rules().len() && lv@[g@[j] as int] == l,
            forall|v: int| 0 <= v < self.rules().len() && lv@[v] == l ==> #[trigger] appears_in(g@, v as usize),
            no_dups(g@),
    {
        let ghost o = order@;
        let ghost n = self.rules().len();
        let mut g: Vec<usize> = Vec::new();
        let mut k: usize = 0;
        while k < order.len()
            invariant
                0 <= k <= order@.len(),
                o == order@,
                is_topo_order(n, dag_edges(self.rules()), o),
                lv@.len() == n,
                forall|j: int| 0 <= j < g@.len() ==> #[trigger] g@[j] < n && lv@[g@[j] as int] == l,
                forall|j: int| 0 <= j < g@.len() ==> appears_before(o, #[trigger] g@[j], k as int),
                forall|i: int| 0 <= i < k && lv@[o[i] as int] == l ==> #[trigger] appears_in(g@, o[i]),
                no_dups(g@),
            decreases order@.len() - k,
        {
            let v = order[k];
            if lv[v] == l {
                let ghost before = g@;
                proof {
                    // `v` is new: the order has no element twice.
                    assert forall|j: int| 0 <= j < before.len() implies #[trigger] before[j] != v by {
                        assert(appears_before(o, before[j], k as int));
                    }
                }
                g.push(v);
                proof {
                    assert forall|i: int| 0 <= i < k + 1 && lv@[o[i] as int] == l implies #[trigger] appears_in(g@, o[i]) by {
                        if i < k {
                            assert(appears_in(before, o[i]));
                            let j = choose|j: int| 0 <= j < before.len() && before[j] == o[i];
                            assert(g@[j] == o[i]);
                        } else {
                            assert(g@[before.len() as int] == o[i]);
                        }
                    }
                    assert forall|j: int| 0 <= j < g@.len() implies appears_before(o, #[trigger] g@[j], k + 1) by {
                        if j < before.len() {
                            assert(appears_before(o, before[j], k as int));
                        } else {
                            assert(o[k as int] == g@[j]);
                        }
                    }
                }
            }
            k = k + 1;
        }
        proof {
            assert forall|v: int| 0 <= v < n && lv@[v] == l implies #[trigger] appears_in(g@, v as usize) by {
                assert(appears_in(o, v as usize));
                let i = choose|i: int| 0 <= i < o.len() && o[i] == v as usize;
                assert(lv@[o[i] as int] == l);
            }
        }
        g
    }

    /// The same rules, ordered by `order_index` (stably).
    fn sort_by_order_index(&self, g: &Vec<usize>) -> (r: Vec<usize>)
        requires
            forall|j: int| 0 <= j < g@.len() ==> #[trigger] g@[j] < self.rules().len(),
            no_dups(g@),
        ensures
            r@.len() == g@.len(),
            forall|x: usize| #[trigger] appears_in(r@, x) == appears_in(g@, x),
            no_dups(r@),
            forall|i: int, j: int| 0 <= i < j < r@.len() ==> self.rules()[#[trigger] r@[i] as int].order_index
                <= self.rules()[#[trigger] r@[j] as int].order_index,
    {
        let ghost rules = self.rules();
        let mut out: Vec<usize> = Vec::new();
        let mut i: usize = 0;
        while i < g.len()
            invariant
                0 <= i <= g@.len(),
                rules == self.rules(),
                rules.len() == self.nodes@.len(),
                forall|j: int| 0 <= j < g@.len() ==> #[trigger] g@[j] < rules.len(),
                no_dups(g@),
                out@.len() == i,
                forall|j: int| 0 <= j < out@.len() ==> #[trigger] out@[j] < rules.len(),
                forall|x: usize| #[trigger] appears_in(out@, x) == appears_before(g@, x, i as int),
                no_dups(out@),
                forall|a: int, b: int| 0 <= a < b < out@.len() ==> rules[#[trigger] out@[a] as int].order_index
                    <= rules[#[trigger] out@[b] as int].order_index,
            decreases g@.len() - i,
        {
            let x = g[i];
            let key = self.nodes[x].order_index;
            let mut p: usize = 0;
            while p < out.len() && self.nodes[out[p]].order_index <= key
                invariant
                    0 <= p <= out@.len(),
                    rules == self.rules(),
                    rules.len() == self.nodes@.len(),
                    forall|j: int| 0 <= j < out@.len() ==> #[trigger] out@[j] < rules.len(),
                    key == rules[x as int].order_index,
                    forall|a: int| 0 <= a < p ==> rules[#[trigger] out@[a] as int].order_index <= key,
                decreases out@.len() - p,
            {
                p = p + 1;
            }
            let ghost before = out@;
            proof {
                before.insert_ensures(p as int, x);
                // Past `p` every key is greater than `key`.
                assert forall|a: int| p <= a < before.len() implies key < rules[#[trigger] before[a] as int].order_index by {
                    assert(rules[before[p as int] as int].order_index > key);
                    if a > p {
                        assert(rules[before[p as int] as int].order_index <= rules[before[a] as int].order_index);
                    }
                }
                // `x` is new.
                assert forall|j: int| 0 <= j < before.len() implies #[trigger] before[j] != x by {
                    assert(appears_in(before, before[j]));
                    assert(appears_before(g@, before[j], i as int));
                }
            }
            out.insert(p, x);
            proof {
                let after = out@;
                assert(after == before.insert(p as int, x));
                assert forall|j: int| 0 <= j < after.len() implies #[trigger] after[j] < rules.len() by {
                    if j < p {
                        assert(after[j] == before[j]);
                    } else if j > p {
                        assert(after[j] == before[j - 1]);
                    }
                }
                assert forall|y: usize| #[trigger] appears_in(after, y) == appears_before(g@, y, i + 1) by {
                    if appears_in(after, y) {
                        let j = choose|j: int| 0 <= j < after.len() && after[j] == y;
                        if j < p {
                            assert(before[j] == y);
                            assert(appears_in(before, y));
                        } else if j > p {
                            assert(before[j - 1] == y);
                            assert(appears_in(before, y));
                        } else {
                            assert(g@[i as int] == y);
                        }
                    }
                    if appears_before(g@, y, i + 1) {
                        let q = choose|q: int| 0 <= q < i + 1 && g@[q] == y;
                        if q < i {
                            assert(appears_before(g@, y, i as int));
                            assert(appears_in(before, y));
                            let j = choose|j: int| 0 <= j < before.len() && before[j] == y;
                            if j < p {
                                assert(after[j] == y);
                            } else {
                                assert(after[j + 1] == y);
                            }
                        } else {
                            assert(after[p as int] == y);
                        }
                    }
                }
                assert forall|a: int, b: int| 0 <= a < b < after.len() implies after[a] != after[b] by {
                    if a < p && b < p {
                        assert(after[a] == before[a] && after[b] == before[b]);
                    } else if a < p && b == p {
                        assert(after[a] == before[a]);
                    } else if a < p && b > p {
                        assert(after[a] == before[a] && after[b] == before[b - 1]);
                    } else if a == p {
                        assert(after[b] == before[b - 1]);
                    } else {
                        assert(after[a] == before[a - 1] && after[b] == before[b - 1]);
                    }
                }
                assert forall|a: int, b: int| 0 <= a < b < after.len() implies rules[#[trigger] after[a] as int].order_index
                    <= rules[#[trigger] after[b] as int].order_index by {
                    if a < p && b < p {
                        assert(after[a] == before[a] && after[b] == before[b]);
                    } else if a < p && b == p {
                        assert(after[a] == before[a]);
                    } else if a < p && b > p {
                        assert(after[a] == before[a] && after[b] == before[b - 1]);
                    } else if a == p {
                        assert(after[b] == before[b - 1]);
                    } else {
                        assert(after[a] == before[a - 1] && after[b] == before[b - 1]);
                    }
                }
            }
            i = i + 1;
        }
        proof {
            assert forall|x: usize| #[trigger] appears_in(out@, x) == appears_in(g@, x) by {
                if appears_in(g@, x) {
                    let q = choose|q: int| 0 <= q < g@.len() && g@[q] == x;
                    assert(appears_before(g@, x, g@.len() as int));
                }
            }
        }
        out
    }
}

proof fn lemma_seq_max(s: Seq<usize>)
    ensures
        forall|i: int| 0 <= i < s.len() ==> s[i] as nat <= #[trigger] seq_max(s),
        s.len() > 0 ==> exists|i: int| 0 <= i < s.len() && s[i] as nat == seq_max(s),
    decreases s.len(),
{
    if s.len() > 0 {
        lemma_seq_max(s.drop_last());
        assert forall|i: int| 0 <= i < s.len() implies s[i] as nat <= #[trigger] seq_max(s) by {
            if i < s.len() - 1 {
                assert(s[i] == s.drop_last()[i]);
            }
        }
        if s.len() > 1 && seq_max(s.drop_last()) >= s.last() as nat {
            let i = choose|i: int| 0 <= i < s.drop_last().len() && s.drop_last()[i] as nat == seq_max(s.drop_last());
            assert(s[i] == s.drop_last()[i]);
        } else {
            assert(s[s.len() - 1] as nat == seq_max(s));
        }
    }
}

impl RuleDag {
    /// The rules of each execution level, by number.
    fn level_indices(&self) -> (result: Vec<Vec<usize>>)
        ensures
            exists|lv: Seq<usize>|
                is_level_map(self.rules().len(), dag_edges(self.rules()), lv) && is_level_grouping(
                    self.rules(),
                    lv,
                    index_groups_view(result@),
                ),
    {
        let ghost rules = self.rules();
        let ghost edges = dag_edges(rules);
        let order = self.order_indices();
        let lv = self.rule_levels();
        let n = order.len();
        if n == 0 {
            let result: Vec<Vec<usize>> = Vec::new();
            proof {
                assert(index_groups_view(result@) =~= Seq::<Seq<usize>>::empty());
                assert(is_level_grouping(rules, lv@, index_groups_view(result@)));
            }
            return result;
        }
        // The highest level
        let mut maxl: usize = 0;
        let mut i: usize = 0;
        while i < lv.len()
            invariant
                0 <= i <= lv@.len(),
                maxl as nat == seq_max(lv@.subrange(0, i as int)),
                forall|v: int| 0 <= v < lv@.len() ==> #[trigger] lv@[v] < n,
                n == rules.len(),
                i > 0 ==> maxl < n,
            decreases lv@.len() - i,
        {
            if lv[i] > maxl {
                maxl = lv[i];
            }
            i = i + 1;
            assert(lv@.subrange(0, i as int).drop_last() =~= lv@.subrange(0, i - 1));
        }
        assert(lv@.subrange(0, lv@.len() as int) =~= lv@);
        proof {
            lemma_seq_max(lv@);
        }
        let mut result: Vec<Vec<usize>> = Vec::new();
        let ghost mut groups: Seq<Seq<usize>> = Seq::empty();
        assert(index_groups_view(result@) =~= groups);
        let mut l: usize = 0;
        while l <= maxl
            invariant
                0 <= l <= maxl + 1,
                maxl < n,
                maxl as nat == seq_max(lv@),
                n == rules.len(),
                rules == self.rules(),
                is_topo_order(rules.len(), edges, order@),
                edges == dag_edges(rules),
                is_level_map(rules.len(), edges, lv@),
                groups.len() == l,
                index_groups_view(result@) == groups,
                forall|q: int, j: int|
                    0 <= q < groups.len() && 0 <= j < groups[q].len() ==> #[trigger] groups[q][j] < rules.len()
                        && lv@[groups[q][j] as int] == q,
                forall|v: int| 0 <= v < rules.len() && lv@[v] < l ==> #[trigger] appears_in(groups[lv@[v] as int], v as usize),
                forall|q: int, a: int, b: int|
                    0 <= q < groups.len() && 0 <= a < b < groups[q].len() ==> #[trigger] groups[q][a] != #[trigger] groups[q][b],
                forall|q: int, a: int, b: int|
                    0 <= q < groups.len() && 0 <= a < b < groups[q].len() ==> rules[#[trigger] groups[q][a] as int].order_index
                        <= rules[#[trigger] groups[q][b] as int].order_index,
            decreases maxl + 1 - l,
        {
            let members = self.level_members(&order, &lv, l);
            let sorted = self.sort_by_order_index(&members);
            proof {
                assert forall|k: int| 0 <= k < sorted@.len() implies #[trigger] sorted@[k] < rules.len()
                    && lv@[sorted@[k] as int] == l by {
                    assert(appears_in(sorted@, sorted@[k]));
                    assert(appears_in(members@, sorted@[k]));
                    let m = choose|m: int| 0 <= m < members@.len() && members@[m] == sorted@[k];
                }
            }
            let ghost old_groups = groups;
            let ghost old_result = result@;
            let ghost sv = sorted@;
            result.push(sorted);
            proof {
                groups = groups.push(sv);
                assert(index_groups_view(result@) =~= groups);
                assert forall|v: int| 0 <= v < rules.len() && lv@[v] < l + 1 implies #[trigger] appears_in(groups[lv@[v] as int], v as usize) by {
                    if lv@[v] < l {
                        assert(groups[lv@[v] as int] == old_groups[lv@[v] as int]);
                    } else {
                        assert(appears_in(members@, v as usize));
                        assert(appears_in(sorted@, v as usize));
                    }
                }
                assert forall|q: int, j: int|
                    0 <= q < groups.len() && 0 <= j < groups[q].len() implies #[trigger] groups[q][j] < rules.len()
                        && lv@[groups[q][j] as int] == q by {
                    if q == l {
                        assert(appears_in(sorted@, sorted@[j]));
                        assert(appears_in(members@, sorted@[j]));
                        let m = choose|m: int| 0 <= m < members@.len() && members@[m] == sorted@[j];
                    }
                }
            }
            l = l + 1;
        }
        proof {
            assert forall|v: int| 0 <= v < rules.len() implies #[trigger] appears_in(groups[lv@[v] as int], v as usize) by {
                assert(lv@[v] as nat <= seq_max(lv@));
            }
            assert(is_level_grouping(rules, lv@, groups));
        }
        result
    }
}

pub open spec fn index_groups_view(v: Seq<Vec<usize>>) -> Seq<Seq<usize>> {
    v.map_values(|g: Vec<usize>| g@)
}

impl RuleDag {
    /// Get execution levels for parallel execution
    ///
    /// Rules in the same level have no dependencies on each other
    /// and can be executed in parallel.  Level `l` holds the rules whose
    /// level (see [`RuleDag::rule_levels`]) is `l`, ordered by `order_index`.
    pub fn execution_levels(&self) -> (r: Result<Vec<Vec<String>>, RuleEngineError>)
        ensures
            match r {
                Ok(levels) => exists|lv: Seq<usize>, g: Seq<Seq<usize>>|
                    is_level_map(self.rules().len(), dag_edges(self.rules()), lv) && is_level_grouping(
                        self.rules(),
                        lv,
                        g,
                    ) && levels_view(levels@) == groups_ids(self.rules(), g),
                Err(_) => false,
            },
    {
        let groups = self.level_indices();
        let ghost gv = index_groups_view(groups@);
        let ghost lv = choose|lv: Seq<usize>| is_level_map(self.rules().len(), dag_edges(self.rules()), lv)
            && is_level_grouping(self.rules(), lv, gv);
        let mut result: Vec<Vec<String>> = Vec::new();
        let mut l: usize = 0;
        while l < groups.len()
            invariant
                0 <= l <= groups@.len(),
                gv == index_groups_view(groups@),
                is_level_grouping(self.rules(), lv, gv),
                result@.len() == l,
                forall|q: int| 0 <= q < l ==> strings_view((#[trigger] result@[q])@) == ids_of(self.rules(), gv[q]),
            decreases groups@.len() - l,
        {
            assert(gv[l as int] == groups@[l as int]@);
            assert forall|k: int| 0 <= k < groups@[l as int]@.len() implies #[trigger] groups@[l as int]@[k]
                < self.rules().len() by {
                assert(gv[l as int][k] < self.rules().len());
            }
            result.push(self.ids_at(&groups[l]));
            l = l + 1;
        }
        assert(levels_view(result@) =~= groups_ids(self.rules(), gv));
        Ok(result)
    }
}

/// The inputs of the first `k` rules that no rule produces and that are not
/// among `available`, as (rule id, input) pairs, rule by rule.
pub open spec fn missing_upto(rules: Seq<SpecRuleNode>, available: Seq<Seq<char>>, k: int) -> Seq<
    (Seq<char>, Seq<char>),
>
    decreases k,
{
    if k <= 0 {
        seq![]
    } else {
        missing_upto(rules, available, k - 1) + missing_of(
            rules,
            available,
            k - 1,
            rules[k - 1].inputs.len() as int,
        )
    }
}

/// The missing inputs among the first `j` inputs of rule `v`.
pub open spec fn missing_of(rules: Seq<SpecRuleNode>, available: Seq<Seq<char>>, v: int, j: int) -> Seq<
    (Seq<char>, Seq<char>),
>
    decreases j,
{
    if j <= 0 {
        seq![]
    } else {
        let prev = missing_of(rules, available, v, j - 1);
        let input = rules[v].inputs[j - 1];
        if producer_of(rules, input) is None && !available.contains(input) {
            prev.push((rules[v].id, input))
        } else {
            prev
        }
    }
}

pub open spec fn pairs_view(v: Seq<(String, String)>) -> Seq<(Seq<char>, Seq<char>)> {
    v.map_values(|p: (String, String)| (p.0@, p.1@))
}

/// No rule of `rules` lists `x` among its outputs.
pub open spec fn produced_by_none(rules: Seq<SpecRuleNode>, x: Seq<char>) -> bool {
    forall|q: int| 0 <= q < rules.len() ==> !(#[trigger] rules[q].outputs).contains(x)
}

/// Rule `v`'s input `x` is missing: no rule, wherever it stands, produces
/// it, and it is not among the available inputs.
pub open spec fn is_missing_pair(
    rules: Seq<SpecRuleNode>,
    available: Seq<Seq<char>>,
    p: (Seq<char>, Seq<char>),
) -> bool {
    exists|v: int, j: int|
        0 <= v < rules.len() && 0 <= j < rules[v].inputs.len() && p == (rules[v].id, #[trigger] rules[v].inputs[j])
            && produced_by_none(rules, rules[v].inputs[j]) && !available.contains(rules[v].inputs[j])
}

proof fn lemma_find_producer_none(nodes: Seq<SpecRuleNode>, out: Seq<char>, k: int)
    requires
        0 <= k <= nodes.len(),
    ensures
        (find_producer(nodes, out, k) is None) <==> forall|q: int|
            k <= q < nodes.len() ==> !(#[trigger] nodes[q].outputs).contains(out),
    decreases nodes.len() - k,
{
    if k < nodes.len() {
        lemma_find_producer_none(nodes, out, k + 1);
    }
}

/// Input `i` of rule `v` is missing and the pair is `p`.
pub open spec fn missing_at(
    rules: Seq<SpecRuleNode>,
    available: Seq<Seq<char>>,
    v: int,
    i: int,
    p: (Seq<char>, Seq<char>),
) -> bool {
    p == (rules[v].id, rules[v].inputs[i]) && produced_by_none(rules, rules[v].inputs[i])
        && !available.contains(rules[v].inputs[i])
}

proof fn lemma_missing_of_contains(
    rules: Seq<SpecRuleNode>,
    available: Seq<Seq<char>>,
    v: int,
    j: int,
    p: (Seq<char>, Seq<char>),
)
    requires
        0 <= v < rules.len(),
        0 <= j <= rules[v].inputs.len(),
    ensures
        missing_of(rules, available, v, j).contains(p) <==> exists|i: int|
            0 <= i < j && #[trigger] missing_at(rules, available, v, i, p),
    decreases j,
{
    if j > 0 {
        lemma_missing_of_contains(rules, available, v, j - 1, p);
        let x = rules[v].inputs[j - 1];
        lemma_find_producer_none(rules, x, 0);
        let prev = missing_of(rules, available, v, j - 1);
        let cur = missing_of(rules, available, v, j);
        let c = missing_at(rules, available, v, j - 1, p);
        assert((exists|i: int| 0 <= i < j && #[trigger] missing_at(rules, available, v, i, p)) <==> ((exists|
            i: int,
        | 0 <= i < j - 1 && #[trigger] missing_at(rules, available, v, i, p)) || c)) by {
            if exists|i: int| 0 <= i < j && #[trigger] missing_at(rules, available, v, i, p) {
                let i = choose|i: int| 0 <= i < j && #[trigger] missing_at(rules, available, v, i, p);
                if i < j - 1 {
                    assert(0 <= i < j - 1 && missing_at(rules, available, v, i, p));
                }
            }
            if c {
                assert(0 <= j - 1 < j && missing_at(rules, available, v, j - 1, p));
            }
            if exists|i: int| 0 <= i < j - 1 && #[trigger] missing_at(rules, available, v, i, p) {
                let i = choose|i: int| 0 <= i < j - 1 && #[trigger] missing_at(rules, available, v, i, p);
                assert(0 <= i < j && missing_at(rules, available, v, i, p));
            }
        }
        if producer_of(rules, x) is None && !available.contains(x) {
            assert(cur == prev.push((rules[v].id, x)));
            assert(produced_by_none(rules, x));
            assert(cur.contains(p) <==> (prev.contains(p) || p == (rules[v].id, x))) by {
                if cur.contains(p) {
                    let k = choose|k: int| 0 <= k < cur.len() && cur[k] == p;
                    if k < prev.len() {
                        assert(prev[k] == p);
                    }
                }
                if prev.contains(p) {
                    let k = choose|k: int| 0 <= k < prev.len() && prev[k] == p;
                    assert(cur[k] == p);
                }
                if p == (rules[v].id, x) {
                    assert(cur[prev.len() as int] == p);
                }
            }
        } else {
            assert(cur == prev);
            assert(!c);
        }
    }
}

proof fn lemma_missing_upto_contains(
    rules: Seq<SpecRuleNode>,
    available: Seq<Seq<char>>,
    k: int,
    p: (Seq<char>, Seq<char>),
)
    requires
        0 <= k <= rules.len(),
    ensures
        missing_upto(rules, available, k).contains(p) <==> exists|v: int, j: int|
            0 <= v < k && 0 <= j < rules[v].inputs.len() && #[trigger] missing_at(rules, available, v, j, p),
    decreases k,
{
    if k > 0 {
        lemma_missing_upto_contains(rules, available, k - 1, p);
        let v = k - 1;
        lemma_missing_of_contains(rules, available, v, rules[v].inputs.len() as int, p);
        let a = missing_upto(rules, available, k - 1);
        let b = missing_of(rules, available, v, rules[v].inputs.len() as int);
        assert(missing_upto(rules, available, k) == a + b);
        let e_k = exists|w: int, j: int|
            0 <= w < k && 0 <= j < rules[w].inputs.len() && #[trigger] missing_at(rules, available, w, j, p);
        let e_prev = exists|w: int, j: int|
            0 <= w < k - 1 && 0 <= j < rules[w].inputs.len() && #[trigger] missing_at(rules, available, w, j, p);
        let e_last = exists|i: int| 0 <= i < rules[v].inputs.len() && #[trigger] missing_at(rules, available, v, i, p);
        assert(e_k <==> (e_prev || e_last)) by {
            if e_k {
                let (w, j) = choose|w: int, j: int|
                    0 <= w < k && 0 <= j < rules[w].inputs.len() && #[trigger] missing_at(rules, available, w, j, p);
                if w < k - 1 {
                    assert(0 <= w < k - 1 && 0 <= j < rules[w].inputs.len() && missing_at(rules, available, w, j, p));
                } else {
                    assert(0 <= j < rules[v].inputs.len() && missing_at(rules, available, v, j, p));
                }
            }
            if e_prev {
                let (w, j) = choose|w: int, j: int|
                    0 <= w < k - 1 && 0 <= j < rules[w].inputs.len() && #[trigger] missing_at(rules, available, w, j, p);
                assert(0 <= w < k && 0 <= j < rules[w].inputs.len() && missing_at(rules, available, w, j, p));
            }
            if e_last {
                let i = choose|i: int| 0 <= i < rules[v].inputs.len() && #[trigger] missing_at(rules, available, v, i, p);
                assert(0 <= v < k && 0 <= i < rules[v].inputs.len() && missing_at(rules, available, v, i, p));
            }
        }
        if (a + b).contains(p) {
            let idx = choose|idx: int| 0 <= idx < (a + b).len() && (a + b)[idx] == p;
            if idx < a.len() {
                assert(a[idx] == p);
            } else {
                assert(b[idx - a.len()] == p);
            }
        }
        if a.contains(p) {
            let idx = choose|idx: int| 0 <= idx < a.len() && a[idx] == p;
            assert((a + b)[idx] == p);
        }
        if b.contains(p) {
            let idx = choose|idx: int| 0 <= idx < b.len() && b[idx] == p;
            assert((a + b)[a.len() + idx] == p);
        }
    }
}

/// The missing inputs of a rule set are exactly the pairs (rule, input) of
/// an input that no rule of the set produces, wherever that rule stands in
/// the list, and that is not available: the order of the rules plays no
/// part in which pairs are reported.
pub proof fn lemma_missing_inputs_exact(
    rules: Seq<SpecRuleNode>,
    available: Seq<Seq<char>>,
    p: (Seq<char>, Seq<char>),
)
    ensures
        missing_upto(rules, available, rules.len() as int).contains(p) <==> is_missing_pair(rules, available, p),
{
    lemma_missing_upto_contains(rules, available, rules.len() as int, p);
    let e = exists|v: int, j: int|
        0 <= v < rules.len() && 0 <= j < rules[v].inputs.len() && #[trigger] missing_at(rules, available, v, j, p);
    assert(e <==> is_missing_pair(rules, available, p)) by {
        if e {
            let (v, j) = choose|v: int, j: int|
                0 <= v < rules.len() && 0 <= j < rules[v].inputs.len() && #[trigger] missing_at(rules, available, v, j, p);
            assert(p == (rules[v].id, rules[v].inputs[j]));
        }
        if is_missing_pair(rules, available, p) {
            let (v, j) = choose|v: int, j: int|
                0 <= v < rules.len() && 0 <= j < rules[v].inputs.len() && p == (rules[v].id, #[trigger] rules[v].inputs[j])
                    && produced_by_none(rules, rules[v].inputs[j]) && !available.contains(rules[v].inputs[j]);
            assert(missing_at(rules, available, v, j, p));
        }
    }
}

impl RuleDag {
    /// The number of the rule with identifier `id`.
    fn find(&self, id: &String) -> (r: Option<usize>)
        ensures
            match r {
                Some(i) => i < self.rules().len() && self.rules()[i as int].id == id@,
                None => forall|i: int| 0 <= i < self.rules().len() ==> (#[trigger] self.rules()[i]).id != id@,
            },
    {
        let r = index_of_id(&self.nodes, id);
        proof {
            if r is None {
                assert forall|i: int| 0 <= i < self.rules().len() implies (#[trigger] self.rules()[i]).id != id@ by {
                    assert(self.nodes@[i].id@ != id@);
                }
            }
        }
        r
    }

    /// Get the rule node by ID
    pub fn get_rule(&self, id: &String) -> (r: Option<&RuleNode>)
        ensures
            match r {
                Some(node) => exists|i: int| 0 <= i < self.rules().len() && self.rules()[i] == node@ && node@.id == id@,
                None => forall|i: int| 0 <= i < self.rules().len() ==> (#[trigger] self.rules()[i]).id != id@,
            },
    {
        match self.find(id) {
            Some(i) => {
                assert(self.rules()[i as int] == self.nodes@[i as int]@);
                Some(&self.nodes[i])
            },
            None => None,
        }
    }

    /// Get dependencies of a rule (rules that must execute before it): the
    /// producers of its inputs, the most recently added edge first.
    pub fn dependencies(&self, id: &String) -> (r: Vec<String>)
        ensures
            forall|i: int| 0 <= i < self.rules().len() && (#[trigger] self.rules()[i]).id == id@ ==> strings_view(r@)
                == ids_of(self.rules(), incoming(dag_edges(self.rules()), i as usize)),
            (forall|i: int| 0 <= i < self.rules().len() ==> (#[trigger] self.rules()[i]).id != id@) ==> r@.len() == 0,
    {
        proof {
            use_type_invariant(self);
            lemma_unique_ids(self.rules());
        }
        match self.find(id) {
            Some(i) => {
                let preds = graph_incoming(&self.graph, i);
                proof {
                    lemma_dag_edges_within(self.rules());
                    lemma_incoming(graph_edges(self.graph), i);
                    assert forall|k: int| 0 <= k < preds@.len() implies #[trigger] preds@[k] < self.rules().len() by {
                        assert(has_edge(graph_edges(self.graph), preds@[k], i));
                    }
                }
                self.ids_at(&preds)
            },
            None => Vec::new(),
        }
    }

    /// Get dependents of a rule (rules that depend on it): the consumers of
    /// its outputs, the most recently added edge first.
    pub fn dependents(&self, id: &String) -> (r: Vec<String>)
        ensures
            forall|i: int| 0 <= i < self.rules().len() && (#[trigger] self.rules()[i]).id == id@ ==> strings_view(r@)
                == ids_of(self.rules(), outgoing(dag_edges(self.rules()), i as usize)),
            (forall|i: int| 0 <= i < self.rules().len() ==> (#[trigger] self.rules()[i]).id != id@) ==> r@.len() == 0,
    {
        proof {
            use_type_invariant(self);
            lemma_unique_ids(self.rules());
        }
        match self.find(id) {
            Some(i) => {
                let succs = graph_outgoing(&self.graph, i);
                proof {
                    lemma_dag_edges_within(self.rules());
                    lemma_outgoing(graph_edges(self.graph), i);
                    assert forall|k: int| 0 <= k < succs@.len() implies #[trigger] succs@[k] < self.rules().len() by {
                        assert(has_edge(graph_edges(self.graph), i, succs@[k]));
                    }
                }
                self.ids_at(&succs)
            },
            None => Vec::new(),
        }
    }

    /// Check if a rule ID exists in the DAG
    pub fn contains(&self, id: &String) -> (r: bool)
        ensures
            r == exists|i: int| 0 <= i < self.rules().len() && (#[trigger] self.rules()[i]).id == id@,
    {
        self.find(id).is_some()
    }

    /// Get the number of rules in the DAG
    pub fn len(&self) -> (n: usize)
        ensures
            n == self.rules().len(),
    {
        self.nodes.len()
    }

    /// Check if the DAG is empty
    pub fn is_empty(&self) -> (r: bool)
        ensures
            r == (self.rules().len() == 0),
    {
        self.nodes.len() == 0
    }

    /// Get all rule IDs, in the order the rules were given
    pub fn rule_ids(&self) -> (r: Vec<String>)
        ensures
            strings_view(r@) == self.rules().map_values(|n: SpecRuleNode| n.id),
    {
        let mut r: Vec<String> = Vec::new();
        let mut i: usize = 0;
        while i < self.nodes.len()
            invariant
                0 <= i <= self.nodes@.len(),
                r@.len() == i,
                forall|k: int| 0 <= k < i ==> (#[trigger] r@[k])@ == self.rules()[k].id,
            decreases self.nodes@.len() - i,
        {
            r.push(self.nodes[i].id.clone());
            i = i + 1;
        }
        assert(strings_view(r@) =~= self.rules().map_values(|n: SpecRuleNode| n.id));
        r
    }

    /// Find missing inputs (inputs not provided by any rule or external data)
    pub fn find_missing_inputs(&self, available_inputs: &Vec<String>) -> (r: Vec<(String, String)>)
        ensures
            pairs_view(r@) == missing_upto(self.rules(), strings_view(available_inputs@), self.rules().len() as int),
            forall|p: (Seq<char>, Seq<char>)|
                pairs_view(r@).contains(p) <==> is_missing_pair(self.rules(), strings_view(available_inputs@), p),
    {
        proof {
            assert forall|p: (Seq<char>, Seq<char>)|
                missing_upto(self.rules(), strings_view(available_inputs@), self.rules().len() as int).contains(p)
                    <==> is_missing_pair(self.rules(), strings_view(available_inputs@), p) by {
                lemma_missing_inputs_exact(self.rules(), strings_view(available_inputs@), p);
            }
        }
        let ghost rules = self.rules();
        let ghost av = strings_view(available_inputs@);
        let mut missing: Vec<(String, String)> = Vec::new();
        let mut v: usize = 0;
        while v < self.nodes.len()
            invariant
                0 <= v <= self.nodes@.len(),
                rules == self.rules(),
                av == strings_view(available_inputs@),
                pairs_view(missing@) == missing_upto(rules, av, v as int),
            decreases self.nodes@.len() - v,
        {
            let node = &self.nodes[v];
            let mut j: usize = 0;
            while j < node.inputs.len()
                invariant
                    0 <= v < self.nodes@.len(),
                    0 <= j <= node.inputs@.len(),
                    node == &self.nodes@[v as int],
                    rules == self.rules(),
                    av == strings_view(available_inputs@),
                    pairs_view(missing@) == missing_upto(rules, av, v as int) + missing_of(rules, av, v as int, j as int),
                decreases node.inputs@.len() - j,
            {
                let input = &node.inputs[j];
                assert(rules[v as int].inputs[j as int] == input@);
                let produced = producer_index(&self.nodes, input).is_some();
                let ghost before = missing@;
                if !produced && !strings_contain(available_inputs, input) {
                    let pair = (node.id.clone(), input.clone());
                    assert(pair.0@ == rules[v as int].id);
                    missing.push(pair);
                    assert(pairs_view(missing@) =~= pairs_view(before).push((rules[v as int].id, input@)));
                }
                j = j + 1;
                assert(pairs_view(missing@) =~= missing_upto(rules, av, v as int) + missing_of(rules, av, v as int, j as int));
            }
            v = v + 1;
            assert(pairs_view(missing@) =~= missing_upto(rules, av, v as int));
        }
        missing
    }
}

impl Default for RuleDag {
    fn default() -> (d: Self)
        ensures
            d.rules() == Seq::<SpecRuleNode>::empty(),
    {
        Self::new()
    }
}

/// Distinct rules of a well-configured list have distinct identifiers.
pub proof fn lemma_unique_ids(rules: Seq<SpecRuleNode>)
    requires
        config_error(rules) is None,
    ensures
        forall|i: int, j: int| 0 <= i < rules.len() && 0 <= j < rules.len() && i != j ==> (#[trigger] rules[i]).id
            != (#[trigger] rules[j]).id,
{
    assert forall|i: int, j: int| 0 <= i < rules.len() && 0 <= j < rules.len() && i != j implies (#[trigger] rules[i]).id
        != (#[trigger] rules[j]).id by {
        let (a, b) = if i < j { (i, j) } else { (j, i) };
        lemma_config_error_from(rules, 0, b);
    }
}

proof fn lemma_config_error_from(rules: Seq<SpecRuleNode>, i: int, b: int)
    requires
        0 <= i <= b < rules.len(),
        config_error_from(rules, i) is None,
    ensures
        forall|j: int| 0 <= j < b ==> rules[j].id != rules[b].id,
        forall|j: int, k: int| 0 <= j < b && 0 <= k < rules[b].outputs.len() ==> !(#[trigger] rules[j].outputs.contains(
            rules[b].outputs[k],
        )),
    decreases b - i,
{
    if i < b {
        lemma_first_taken_none(rules, i, 0);
        lemma_config_error_from(rules, i + 1, b);
    } else {
        lemma_first_taken_none(rules, b, 0);
    }
}

proof fn lemma_first_taken_none(rules: Seq<SpecRuleNode>, i: int, k: int)
    requires
        0 <= i < rules.len(),
        0 <= k,
        first_taken_output(rules, i, k) is None,
    ensures
        forall|j: int, q: int| 0 <= j < i && k <= q < rules[i].outputs.len() ==> !(#[trigger] rules[j].outputs.contains(
            rules[i].outputs[q],
        )),
    decreases rules[i].outputs.len() - k,
{
    if k < rules[i].outputs.len() {
        lemma_first_taken_none(rules, i, k + 1);
    }
}

// ---------------------------------------------------------------------------
// Execution plan
// ---------------------------------------------------------------------------

/// Structured execution plan for API responses
#[derive(Debug)]
pub struct ExecutionPlan {
    /// Total number of rules
    pub total_rules: usize,
    /// Total number of execution stages
    pub total_stages: usize,
    /// Execution stages in order
    pub stages: Vec<ExecutionStage>,
}

/// A stage of execution (rules at the same level)
#[derive(Debug)]
pub struct ExecutionStage {
    /// Stage level (0-indexed)
    pub level: usize,
    /// Whether rules in this stage can run in parallel
    pub parallel: bool,
    /// Rules in this stage
    pub rules: Vec<ExecutionPlanRule>,
}

/// A rule in the execution plan
#[derive(Debug)]
pub struct ExecutionPlanRule {
    /// Rule ID
    pub id: String,
    /// Input attributes
    pub inputs: Vec<String>,
    /// Output attributes
    pub outputs: Vec<String>,
    /// Dependencies (rule IDs that must execute before this)
    pub dependencies: Vec<String>,
}

/// Model of an [`ExecutionPlanRule`].
#[verifier::ext_equal]
pub struct SpecPlanRule {
    pub id: Seq<char>,
    pub inputs: Seq<Seq<char>>,
    pub outputs: Seq<Seq<char>>,
    pub dependencies: Seq<Seq<char>>,
}

impl View for ExecutionPlanRule {
    type V = SpecPlanRule;

    open spec fn view(&self) -> SpecPlanRule {
        SpecPlanRule {
            id: self.id@,
            inputs: strings_view(self.inputs@),
            outputs: strings_view(self.outputs@),
            dependencies: strings_view(self.dependencies@),
        }
    }
}

/// The plan entry of rule `i`.
pub open spec fn plan_rule(rules: Seq<SpecRuleNode>, i: usize) -> SpecPlanRule {
    SpecPlanRule {
        id: rules[i as int].id,
        inputs: rules[i as int].inputs,
        outputs: rules[i as int].outputs,
        dependencies: ids_of(rules, incoming(dag_edges(rules), i)),
    }
}

pub open spec fn plan_rules_view(v: Seq<ExecutionPlanRule>) -> Seq<SpecPlanRule> {
    v.map_values(|r: ExecutionPlanRule| r@)
}

/// `plan` lists the level groups `g` of `rules` as its stages.
pub open spec fn is_plan_of(rules: Seq<SpecRuleNode>, g: Seq<Seq<usize>>, plan: ExecutionPlan) -> bool {
    &&& plan.total_rules == rules.len()
    &&& plan.total_stages == g.len()
    &&& plan.stages@.len() == g.len()
    &&& forall|l: int| 0 <= l < g.len() ==> (#[trigger] plan.stages@[l]).level == l && plan.stages@[l].parallel
        == (g[l].len() > 1) && plan_rules_view(plan.stages@[l].rules@) == g[l].map_values(
        |i: usize| plan_rule(rules, i),
    )
}

impl RuleDag {
    /// The identifiers of the dependencies of rule `i`.
    fn dependencies_of(&self, i: usize) -> (r: Vec<String>)
        requires
            i < self.rules().len(),
        ensures
            strings_view(r@) == ids_of(self.rules(), incoming(dag_edges(self.rules()), i)),
    {
        proof {
            use_type_invariant(self);
            lemma_dag_edges_within(self.rules());
            lemma_incoming(graph_edges(self.graph), i);
        }
        let preds = graph_incoming(&self.graph, i);
        assert forall|k: int| 0 <= k < preds@.len() implies #[trigger] preds@[k] < self.rules().len() by {
            assert(has_edge(graph_edges(self.graph), preds@[k], i));
        }
        self.ids_at(&preds)
    }

    /// Generate a structured execution plan
    pub fn execution_plan(&self) -> (r: Result<ExecutionPlan, RuleEngineError>)
        ensures
            match r {
                Ok(plan) => exists|lv: Seq<usize>, g: Seq<Seq<usize>>|
                    is_level_map(self.rules().len(), dag_edges(self.rules()), lv) && is_level_grouping(
                        self.rules(),
                        lv,
                        g,
                    ) && is_plan_of(self.rules(), g, plan),
                Err(_) => false,
            },
    {
        let ghost rules = self.rules();
        let groups = self.level_indices();
        let ghost gv = index_groups_view(groups@);
        let ghost lv = choose|lv: Seq<usize>| is_level_map(rules.len(), dag_edges(rules), lv)
            && is_level_grouping(rules, lv, gv);
        let mut stages: Vec<ExecutionStage> = Vec::new();
        let mut l: usize = 0;
        while l < groups.len()
            invariant
                0 <= l <= groups@.len(),
                rules == self.rules(),
                rules.len() == self.nodes@.len(),
                gv == index_groups_view(groups@),
                is_level_grouping(rules, lv, gv),
                stages@.len() == l,
                forall|q: int| 0 <= q < l ==> (#[trigger] stages@[q]).level == q && stages@[q].parallel == (gv[q].len()
                    > 1) && plan_rules_view(stages@[q].rules@) == gv[q].map_values(|i: usize| plan_rule(rules, i)),
            decreases groups@.len() - l,
        {
            let group = &groups[l];
            assert(gv[l as int] == group@);
            let mut entries: Vec<ExecutionPlanRule> = Vec::new();
            let mut k: usize = 0;
            while k < group.len()
                invariant
                    0 <= k <= group@.len(),
                    0 <= l < groups@.len(),
                    group == &groups@[l as int],
                    rules == self.rules(),
                    rules.len() == self.nodes@.len(),
                    gv == index_groups_view(groups@),
                    is_level_grouping(rules, lv, gv),
                    gv[l as int] == group@,
                    entries@.len() == k,
                    forall|q: int| 0 <= q < k ==> (#[trigger] entries@[q])@ == plan_rule(rules, group@[q]),
                decreases group@.len() - k,
            {
                let i = group[k];
                assert(i < rules.len()) by {
                    assert(gv[l as int][k as int] < rules.len());
                }
                let node = &self.nodes[i];
                let entry = ExecutionPlanRule {
                    id: node.id.clone(),
                    inputs: copy_strings(&node.inputs),
                    outputs: copy_strings(&node.outputs),
                    dependencies: self.dependencies_of(i),
                };
                assert(entry@ =~~= plan_rule(rules, i));
                entries.push(entry);
                k = k + 1;
            }
            assert(plan_rules_view(entries@) =~~= group@.map_values(|i: usize| plan_rule(rules, i)));
            let parallel = entries.len() > 1;
            stages.push(ExecutionStage { level: l, parallel, rules: entries });
            l = l + 1;
        }
        let total_rules = self.nodes.len();
        let total_stages = stages.len();
        let plan = ExecutionPlan { total_rules, total_stages, stages };
        assert(is_plan_of(rules, gv, plan));
        Ok(plan)
    }
}

// ---------------------------------------------------------------------------
// Text renderings
// ---------------------------------------------------------------------------

/// The parts joined by `sep`.
pub open spec fn join(parts: Seq<Seq<char>>, sep: Seq<char>) -> Seq<char>
    decreases parts.len(),
{
    if parts.len() == 0 {
        seq![]
    } else if parts.len() == 1 {
        parts[0]
    } else {
        join(parts.drop_last(), sep) + sep + parts.last()
    }
}

/// Appends the strings of `parts`, joined by `sep`, to `out`.
pub fn push_joined(out: &mut Vec<char>, parts: &Vec<String>, sep: &str)
    ensures
        final(out)@ == old(out)@ + join(strings_view(parts@), sep@),
{
    let ghost pv = strings_view(parts@);
    let ghost start = out@;
    let mut i: usize = 0;
    assert(pv.subrange(0, 0) =~= Seq::<Seq<char>>::empty());
    while i < parts.len()
        invariant
            0 <= i <= parts@.len(),
            pv == strings_view(parts@),
            out@ == start + join(pv.subrange(0, i as int), sep@),
        decreases parts@.len() - i,
    {
        if i > 0 {
            push_str(out, sep);
        }
        push_str(out, parts[i].as_str());
        i = i + 1;
        assert(pv.subrange(0, i as int).drop_last() =~= pv.subrange(0, i - 1));
        assert(out@ =~= start + join(pv.subrange(0, i as int), sep@));
    }
    assert(pv.subrange(0, parts@.len() as int) =~= pv);
}

/// How a rule is drawn in DOT.
pub open spec fn node_dot(r: SpecRuleNode) -> Seq<char> {
    "  \""@ + r.id + "\" [label=\""@ + r.id + "\\n[in: "@ + join(r.inputs, ", "@) + "]\\n[out: "@ + join(
        r.outputs,
        ", "@,
    ) + "]\"];\n"@
}

/// The DOT lines of the first `k` rules.
pub open spec fn nodes_dot(rules: Seq<SpecRuleNode>, k: int) -> Seq<char>
    decreases k,
{
    if k <= 0 {
        seq![]
    } else {
        nodes_dot(rules, k - 1) + node_dot(rules[k - 1])
    }
}

/// The DOT lines of the first `k` edges.
pub open spec fn edges_dot(rules: Seq<SpecRuleNode>, edges: Seq<(usize, usize)>, k: int) -> Seq<char>
    decreases k,
{
    if k <= 0 {
        seq![]
    } else {
        edges_dot(rules, edges, k - 1) + "  \""@ + rules[edges[k - 1].0 as int].id + "\" -> \""@
            + rules[edges[k - 1].1 as int].id + "\";\n"@
    }
}

/// The DOT (Graphviz) text of a list of rules.
pub open spec fn dot_text(rules: Seq<SpecRuleNode>) -> Seq<char> {
    "digraph RuleDag {\n  rankdir=TB;\n  node [shape=box, style=rounded];\n\n"@ + nodes_dot(
        rules,
        rules.len() as int,
    ) + "\n"@ + edges_dot(rules, dag_edges(rules), dag_edges(rules).len() as int) + "}\n"@
}

/// A rule identifier with each `-` replaced by `_`.
pub open spec fn mermaid_id(id: Seq<char>) -> Seq<char> {
    id.map_values(|c: char| if c == '-' { '_' } else { c })
}

/// How a rule is drawn in Mermaid.
pub open spec fn node_mermaid(r: SpecRuleNode) -> Seq<char> {
    "  "@ + mermaid_id(r.id) + "[\""@ + r.id + "\\n["@ + join(r.inputs, ", "@) + "] \u{2192} ["@ + join(
        r.outputs,
        ", "@,
    ) + "]\"]\n"@
}

/// The Mermaid lines of the first `k` rules.
pub open spec fn nodes_mermaid(rules: Seq<SpecRuleNode>, k: int) -> Seq<char>
    decreases k,
{
    if k <= 0 {
        seq![]
    } else {
        nodes_mermaid(rules, k - 1) + node_mermaid(rules[k - 1])
    }
}

/// The Mermaid lines of the first `k` edges.
pub open spec fn edges_mermaid(rules: Seq<SpecRuleNode>, edges: Seq<(usize, usize)>, k: int) -> Seq<char>
    decreases k,
{
    if k <= 0 {
        seq![]
    } else {
        edges_mermaid(rules, edges, k - 1) + "  "@ + mermaid_id(rules[edges[k - 1].0 as int].id) + " --> "@
            + mermaid_id(rules[edges[k - 1].1 as int].id) + "\n"@
    }
}

/// The Mermaid text of a list of rules.
pub open spec fn mermaid_text(rules: Seq<SpecRuleNode>) -> Seq<char> {
    "graph TD\n"@ + nodes_mermaid(rules, rules.len() as int) + edges_mermaid(
        rules,
        dag_edges(rules),
        dag_edges(rules).len() as int,
    )
}

fn mermaid_id_chars(id: &String) -> (r: Vec<char>)
    ensures
        r@ == mermaid_id(id@),
{
    let cs = str_chars(id.as_str());
    let mut r: Vec<char> = Vec::new();
    let mut i: usize = 0;
    while i < cs.len()
        invariant
            0 <= i <= cs@.len(),
            cs@ == id@,
            r@ == mermaid_id(cs@.subrange(0, i as int)),
        decreases cs@.len() - i,
    {
        let c = cs[i];
        r.push(if c == '-' { '_' } else { c });
        i = i + 1;
        assert(r@ =~= mermaid_id(cs@.subrange(0, i as int)));
    }
    assert(cs@.subrange(0, cs@.len() as int) =~= cs@);
    r
}

impl RuleDag {
    /// Export to DOT format (for Graphviz visualization)
    pub fn to_dot(&self) -> (r: String)
        ensures
            r@ == dot_text(self.rules()),
    {
        proof {
            use_type_invariant(self);
            lemma_dag_edges_within(self.rules());
        }
        let ghost rules = self.rules();
        let mut dot: Vec<char> = Vec::new();
        push_str(&mut dot, "digraph RuleDag {\n  rankdir=TB;\n  node [shape=box, style=rounded];\n\n");
        let ghost head = dot@;
        let mut i: usize = 0;
        while i < self.nodes.len()
            invariant
                0 <= i <= self.nodes@.len(),
                rules == self.rules(),
                dot@ == head + nodes_dot(rules, i as int),
            decreases self.nodes@.len() - i,
        {
            let node = &self.nodes[i];
            assert(rules[i as int] == node@);
            push_str(&mut dot, "  \"");
            push_str(&mut dot, node.id.as_str());
            push_str(&mut dot, "\" [label=\"");
            push_str(&mut dot, node.id.as_str());
            push_str(&mut dot, "\\n[in: ");
            push_joined(&mut dot, &node.inputs, ", ");
            push_str(&mut dot, "]\\n[out: ");
            push_joined(&mut dot, &node.outputs, ", ");
            push_str(&mut dot, "]\"];\n");
            i = i + 1;
            assert(dot@ =~= head + nodes_dot(rules, i as int));
        }
        push_str(&mut dot, "\n");
        let edges = graph_edge_list(&self.graph);
        let ghost mid = dot@;
        let mut e: usize = 0;
        while e < edges.len()
            invariant
                0 <= e <= edges@.len(),
                rules == self.rules(),
                rules.len() == self.nodes@.len(),
                edges@ == dag_edges(rules),
                edges_within(rules.len(), edges@),
                dot@ == mid + edges_dot(rules, edges@, e as int),
            decreases edges@.len() - e,
        {
            let (from, to) = edges[e];
            assert(rules[from as int] == self.nodes@[from as int]@);
            assert(rules[to as int] == self.nodes@[to as int]@);
            push_str(&mut dot, "  \"");
            push_str(&mut dot, self.nodes[from].id.as_str());
            push_str(&mut dot, "\" -> \"");
            push_str(&mut dot, self.nodes[to].id.as_str());
            push_str(&mut dot, "\";\n");
            e = e + 1;
            assert(dot@ =~= mid + edges_dot(rules, edges@, e as int));
        }
        push_str(&mut dot, "}\n");
        assert(dot@ =~= dot_text(rules));
        string_from_chars(dot.as_slice())
    }

    /// Export to Mermaid format (for markdown documentation)
    pub fn to_mermaid(&self) -> (r: String)
        ensures
            r@ == mermaid_text(self.rules()),
    {
        proof {
            use_type_invariant(self);
            lemma_dag_edges_within(self.rules());
        }
        let ghost rules = self.rules();
        let mut mermaid: Vec<char> = Vec::new();
        push_str(&mut mermaid, "graph TD\n");
        let ghost head = mermaid@;
        let mut i: usize = 0;
        while i < self.nodes.len()
            invariant
                0 <= i <= self.nodes@.len(),
                rules == self.rules(),
                mermaid@ == head + nodes_mermaid(rules, i as int),
            decreases self.nodes@.len() - i,
        {
            let node = &self.nodes[i];
            assert(rules[i as int] == node@);
            push_str(&mut mermaid, "  ");
            let safe = mermaid_id_chars(&node.id);
            push_chars(&mut mermaid, safe.as_slice());
            push_str(&mut mermaid, "[\"");
            push_str(&mut mermaid, node.id.as_str());
            push_str(&mut mermaid, "\\n[");
            push_joined(&mut mermaid, &node.inputs, ", ");
            push_str(&mut mermaid, "] \u{2192} [");
            push_joined(&mut mermaid, &node.outputs, ", ");
            push_str(&mut mermaid, "]\"]\n");
            i = i + 1;
            assert(mermaid@ =~= head + nodes_mermaid(rules, i as int));
        }
        let edges = graph_edge_list(&self.graph);
        let ghost mid = mermaid@;
        let mut e: usize = 0;
        while e < edges.len()
            invariant
                0 <= e <= edges@.len(),
                rules == self.rules(),
                rules.len() == self.nodes@.len(),
                edges@ == dag_edges(rules),
                edges_within(rules.len(), edges@),
                mermaid@ == mid + edges_mermaid(rules, edges@, e as int),
            decreases edges@.len() - e,
        {
            let (from, to) = edges[e];
            assert(rules[from as int] == self.nodes@[from as int]@);
            assert(rules[to as int] == self.nodes@[to as int]@);
            push_str(&mut mermaid, "  ");
            let a = mermaid_id_chars(&self.nodes[from].id);
            push_chars(&mut mermaid, a.as_slice());
            push_str(&mut mermaid, " --> ");
            let b = mermaid_id_chars(&self.nodes[to].id);
            push_chars(&mut mermaid, b.as_slice());
            push_str(&mut mermaid, "\n");
            e = e + 1;
            assert(mermaid@ =~= mid + edges_mermaid(rules, edges@, e as int));
        }
        assert(mermaid@ =~= mermaid_text(rules));
        string_from_chars(mermaid.as_slice())
    }
}

/// How a rule is listed in the ASCII plan.
pub open spec fn rule_ascii(rules: Seq<SpecRuleNode>, i: usize) -> Seq<char> {
    let r = rules[i as int];
    let deps = ids_of(rules, incoming(dag_edges(rules), i));
    "  \u{251c}\u{2500} "@ + r.id + "\n"@ + "  \u{2502}   inputs:  ["@ + join(r.inputs, ", "@) + "]\n"@
        + "  \u{2502}   outputs: ["@ + join(r.outputs, ", "@) + "]\n"@ + if deps.len() > 0 {
        "  \u{2502}   depends: ["@ + join(deps, ", "@) + "]\n"@
    } else {
        seq![]
    }
}

/// The ASCII listing of the first `k` rules of a group.
pub open spec fn group_ascii(rules: Seq<SpecRuleNode>, grp: Seq<usize>, k: int) -> Seq<char>
    decreases k,
{
    if k <= 0 {
        seq![]
    } else {
        group_ascii(rules, grp, k - 1) + rule_ascii(rules, grp[k - 1])
    }
}

/// The ASCII section of stage `l`.
pub open spec fn stage_ascii(rules: Seq<SpecRuleNode>, grp: Seq<usize>, l: nat) -> Seq<char> {
    "Stage "@ + decimal_nat(l) + (if grp.len() > 1 {
        " (parallel)"@
    } else {
        seq![]
    }) + ":\n"@ + group_ascii(rules, grp, grp.len() as int) + "\n"@
}

/// The ASCII sections of the first `k` stages.
pub open spec fn stages_ascii(rules: Seq<SpecRuleNode>, g: Seq<Seq<usize>>, k: int) -> Seq<char>
    decreases k,
{
    if k <= 0 {
        seq![]
    } else {
        stages_ascii(rules, g, k - 1) + stage_ascii(rules, g[k - 1], (k - 1) as nat)
    }
}

/// The ASCII execution plan of the level groups `g`.
pub open spec fn ascii_text(rules: Seq<SpecRuleNode>, g: Seq<Seq<usize>>) -> Seq<char> {
    "Execution Plan\n==============\n\n"@ + stages_ascii(rules, g, g.len() as int)
}

impl RuleDag {
    /// Appends the ASCII listing of rule `i` to `out`.
    fn push_rule_ascii(&self, out: &mut Vec<char>, i: usize)
        requires
            i < self.rules().len(),
        ensures
            final(out)@ == old(out)@ + rule_ascii(self.rules(), i),
    {
        let ghost rules = self.rules();
        let ghost start = out@;
        let node = &self.nodes[i];
        assert(rules[i as int] == node@);
        push_str(out, "  \u{251c}\u{2500} ");
        push_str(out, node.id.as_str());
        push_str(out, "\n");
        push_str(out, "  \u{2502}   inputs:  [");
        push_joined(out, &node.inputs, ", ");
        push_str(out, "]\n");
        push_str(out, "  \u{2502}   outputs: [");
        push_joined(out, &node.outputs, ", ");
        push_str(out, "]\n");
        let deps = self.dependencies_of(i);
        if deps.len() > 0 {
            push_str(out, "  \u{2502}   depends: [");
            push_joined(out, &deps, ", ");
            push_str(out, "]\n");
        }
        proof {
            reveal_strlit("");
        }
        assert(out@ =~= start + rule_ascii(rules, i));
    }

    /// Appends the ASCII section of stage `l`, made of the rules `group`.
    fn push_stage_ascii(&self, out: &mut Vec<char>, group: &Vec<usize>, l: usize)
        requires
            forall|k: int| 0 <= k < group@.len() ==> #[trigger] group@[k] < self.rules().len(),
        ensures
            final(out)@ == old(out)@ + stage_ascii(self.rules(), group@, l as nat),
    {
        let ghost rules = self.rules();
        let ghost start = out@;
        push_str(out, "Stage ");
        let digits = nat_to_chars(l as u64);
        push_chars(out, digits.as_slice());
        if group.len() > 1 {
            push_str(out, " (parallel)");
        }
        push_str(out, ":\n");
        let ghost stage_head = out@;
        let mut k: usize = 0;
        while k < group.len()
            invariant
                0 <= k <= group@.len(),
                rules == self.rules(),
                forall|q: int| 0 <= q < group@.len() ==> #[trigger] group@[q] < rules.len(),
                out@ == stage_head + group_ascii(rules, group@, k as int),
            decreases group@.len() - k,
        {
            self.push_rule_ascii(out, group[k]);
            k = k + 1;
            assert(out@ =~= stage_head + group_ascii(rules, group@, k as int));
        }
        push_str(out, "\n");
        proof {
            reveal_strlit("");
        }
        assert(out@ =~= start + stage_ascii(rules, group@, l as nat));
    }

    /// Export to ASCII art representation
    pub fn to_ascii(&self) -> (r: Result<String, RuleEngineError>)
        ensures
            match r {
                Ok(text) => exists|lv: Seq<usize>, g: Seq<Seq<usize>>|
                    is_level_map(self.rules().len(), dag_edges(self.rules()), lv) && is_level_grouping(
                        self.rules(),
                        lv,
                        g,
                    ) && text@ == ascii_text(self.rules(), g),
                Err(_) => false,
            },
    {
        let ghost rules = self.rules();
        let groups = self.level_indices();
        let ghost gv = index_groups_view(groups@);
        let ghost lv = choose|lv: Seq<usize>| is_level_map(rules.len(), dag_edges(rules), lv)
            && is_level_grouping(rules, lv, gv);
        let mut output: Vec<char> = Vec::new();
        push_str(&mut output, "Execution Plan\n==============\n\n");
        let ghost head = output@;
        let mut l: usize = 0;
        while l < groups.len()
            invariant
                0 <= l <= groups@.len(),
                rules == self.rules(),
                rules.len() == self.nodes@.len(),
                gv == index_groups_view(groups@),
                is_level_grouping(rules, lv, gv),
                output@ == head + stages_ascii(rules, gv, l as int),
            decreases groups@.len() - l,
        {
            let group = &groups[l];
            assert(gv[l as int] == group@);
            assert forall|k: int| 0 <= k < group@.len() implies #[trigger] group@[k] < rules.len() by {
                assert(gv[l as int][k] < rules.len());
            }
            self.push_stage_ascii(&mut output, group, l);
            l = l + 1;
            proof {
                reveal_strlit("");
            }
            assert(output@ =~= head + stages_ascii(rules, gv, l as int));
        }
        Ok(string_from_chars(output.as_slice()))
    }
}

/// Rules of the same execution level have no dependencies on each other:
/// no dependency edge joins two rules of one group.
pub proof fn lemma_same_level_independent(rules: Seq<SpecRuleNode>, lv: Seq<usize>, g: Seq<Seq<usize>>)
    requires
        rules.len() <= usize::MAX,
        is_level_map(rules.len(), dag_edges(rules), lv),
        is_level_grouping(rules, lv, g),
    ensures
        forall|l: int, i: int, j: int|
            0 <= l < g.len() && 0 <= i < g[l].len() && 0 <= j < g[l].len() ==> !has_edge(
                dag_edges(rules),
                #[trigger] g[l][i],
                #[trigger] g[l][j],
            ),
{
    lemma_dag_edges_within(rules);
    lemma_levels_respect_dependencies(rules.len(), dag_edges(rules), lv);
    assert forall|l: int, i: int, j: int|
        0 <= l < g.len() && 0 <= i < g[l].len() && 0 <= j < g[l].len() implies !has_edge(
            dag_edges(rules),
            #[trigger] g[l][i],
            #[trigger] g[l][j],
        ) by {
        if has_edge(dag_edges(rules), g[l][i], g[l][j]) {
            let e = choose|e: int| 0 <= e < dag_edges(rules).len() && #[trigger] dag_edges(rules)[e] == (g[l][i], g[l][j]);
            assert(lv[g[l][i] as int] == l && lv[g[l][j] as int] == l);
        }
    }
}

/// A rule's dependencies come in earlier execution levels: for every
/// dependency edge, the producer's group precedes the consumer's.
pub proof fn lemma_dependencies_in_earlier_levels(rules: Seq<SpecRuleNode>, lv: Seq<usize>, g: Seq<Seq<usize>>)
    requires
        rules.len() <= usize::MAX,
        is_level_map(rules.len(), dag_edges(rules), lv),
        is_level_grouping(rules, lv, g),
    ensures
        forall|e: int| 0 <= e < dag_edges(rules).len() ==> appears_in(
            g[lv[(#[trigger] dag_edges(rules)[e]).0 as int] as int],
            dag_edges(rules)[e].0,
        ) && appears_in(g[lv[dag_edges(rules)[e].1 as int] as int], dag_edges(rules)[e].1)
            && lv[dag_edges(rules)[e].0 as int] < lv[dag_edges(rules)[e].1 as int],
{
    lemma_dag_edges_within(rules);
    lemma_levels_respect_dependencies(rules.len(), dag_edges(rules), lv);
    assert forall|e: int| 0 <= e < dag_edges(rules).len() implies appears_in(
        g[lv[(#[trigger] dag_edges(rules)[e]).0 as int] as int],
        dag_edges(rules)[e].0,
    ) && appears_in(g[lv[dag_edges(rules)[e].1 as int] as int], dag_edges(rules)[e].1)
        && lv[dag_edges(rules)[e].0 as int] < lv[dag_edges(rules)[e].1 as int] by {
        let u = dag_edges(rules)[e].0;
        let v = dag_edges(rules)[e].1;
        assert(appears_in(g[lv[u as int] as int], u));
        assert(appears_in(g[lv[v as int] as int], v));
    }
}

} // verus!
