//! The knowledge graph: tags as nodes, "taught after" links as edges.

use std::collections::HashMap;

use vstd::prelude::*;

use crate::text::str_eq;

verus! {

#[derive(Debug, Clone)]
pub struct GraphNode {
    pub id: String,
    pub name: String,
    pub names: HashMap<String, String>,
    pub lit: bool,
}

#[derive(Debug, Clone)]
pub struct GraphEdge {
    pub from: String,
    pub to: String,
    pub edge_type: String,
}

#[derive(Debug, Clone)]
pub struct GraphData {
    pub nodes: Vec<GraphNode>,
    pub edges: Vec<GraphEdge>,
}

/// A tag with a live label: its canonical label id, that label's name and
/// its names by language.
#[derive(Debug, Clone)]
pub struct GraphTagRow {
    pub tag_id: String,
    pub label_id: String,
    pub name: String,
    pub names: HashMap<String, String>,
}

/// Some content teaches `to_tag` and requires `from_tag`.
#[derive(Debug, Clone)]
pub struct GraphEdgeRow {
    pub from_tag: String,
    pub to_tag: String,
    pub prereq_type: String,
}

pub open spec fn edge_key(e: GraphEdgeRow) -> (Seq<char>, Seq<char>, Seq<char>) {
    (e.from_tag@, e.to_tag@, e.prereq_type@)
}

/// The canonical label of a tag: that of the last row for it.
pub open spec fn label_of(rows: Seq<GraphTagRow>, tag: Seq<char>) -> Option<Seq<char>>
    decreases rows.len(),
{
    if rows.len() == 0 {
        None
    } else if rows.last().tag_id@ == tag {
        Some(rows.last().label_id@)
    } else {
        label_of(rows.drop_last(), tag)
    }
}

/// Edge `i` is the first with its endpoints and type.
pub open spec fn first_of_kind(er: Seq<GraphEdgeRow>, i: int) -> bool {
    forall|j: int| 0 <= j < i ==> edge_key(#[trigger] er[j]) != edge_key(er[i])
}

/// The edges of the graph: each distinct link once, in first-seen order,
/// between the labels of its tags; links from or to a tag without a label
/// are left out.
pub open spec fn graph_edges(rows: Seq<GraphTagRow>, er: Seq<GraphEdgeRow>) -> Seq<
    (Seq<char>, Seq<char>, Seq<char>),
>
    decreases er.len(),
{
    if er.len() == 0 {
        Seq::empty()
    } else {
        let i = er.len() - 1;
        let e = er[i];
        graph_edges(rows, er.drop_last()) + if first_of_kind(er, i) && label_of(
            rows,
            e.from_tag@,
        ).is_some() && label_of(rows, e.to_tag@).is_some() {
            seq![(label_of(rows, e.from_tag@).unwrap(), label_of(rows, e.to_tag@).unwrap(), e.prereq_type@)]
        } else {
            Seq::empty()
        }
    }
}

pub open spec fn edge_view(e: GraphEdge) -> (Seq<char>, Seq<char>, Seq<char>) {
    (e.from@, e.to@, e.edge_type@)
}

/// Whether `tag` is among the tags the viewer has learned.
pub open spec fn is_lit(lit_tags: Seq<String>, tag: Seq<char>) -> bool {
    exists|i: int| 0 <= i < lit_tags.len() && (#[trigger] lit_tags[i])@ == tag
}

fn label_of_exec(rows: &Vec<GraphTagRow>, tag: &str) -> (r: Option<String>)
    ensures
        match label_of(rows@, tag@) {
            Some(l) => r.is_some() && r.unwrap()@ == l,
            None => r.is_none(),
        },
{
    let mut n = rows.len();
    assert(rows@.take(n as int) =~= rows@);
    while n > 0
        invariant
            n <= rows@.len(),
            label_of(rows@, tag@) == label_of(rows@.take(n as int), tag@),
        decreases n,
    {
        let ghost t = rows@.take(n as int);
        assert(t.drop_last() =~= rows@.take(n - 1));
        assert(t.last() == rows@[n - 1]);
        if str_eq(rows[n - 1].tag_id.as_str(), tag) {
            return Some(rows[n - 1].label_id.clone());
        }
        n = n - 1;
    }
    None
}

fn same_edge(a: &GraphEdgeRow, b: &GraphEdgeRow) -> (r: bool)
    ensures
        r == (edge_key(*a) == edge_key(*b)),
{
    str_eq(a.from_tag.as_str(), b.from_tag.as_str()) && str_eq(a.to_tag.as_str(), b.to_tag.as_str())
        && str_eq(a.prereq_type.as_str(), b.prereq_type.as_str())
}

fn first_of_kind_exec(er: &Vec<GraphEdgeRow>, i: usize) -> (r: bool)
    requires
        i < er@.len(),
    ensures
        r == first_of_kind(er@, i as int),
{
    let mut j: usize = 0;
    while j < i
        invariant
            i < er@.len(),
            j <= i,
            forall|l: int| 0 <= l < j ==> edge_key(#[trigger] er@[l]) != edge_key(er@[i as int]),
        decreases i - j,
    {
        if same_edge(&er[j], &er[i]) {
            return false;
        }
        j = j + 1;
    }
    true
}

fn is_lit_exec(lit_tags: &Vec<String>, tag: &str) -> (r: bool)
    ensures
        r == is_lit(lit_tags@, tag@),
{
    let mut i: usize = 0;
    while i < lit_tags.len()
        invariant
            i <= lit_tags@.len(),
            forall|l: int| 0 <= l < i ==> (#[trigger] lit_tags@[l])@ != tag@,
        decreases lit_tags@.len() - i,
    {
        if str_eq(lit_tags[i].as_str(), tag) {
            return true;
        }
        i = i + 1;
    }
    false
}

/// Assemble the graph from its query results: one node per tag row, in
/// order, keyed by the canonical label, lit when the viewer learned the
/// tag; the edges as `graph_edges` says.
pub fn assemble_graph(rows: Vec<GraphTagRow>, lit_tags: &Vec<String>, edge_rows: &Vec<GraphEdgeRow>) -> (r: GraphData)
    ensures
        r.nodes@.len() == rows@.len(),
        forall|i: int|
            0 <= i < rows@.len() ==> {
                let n = #[trigger] r.nodes@[i];
                &&& n.id@ == rows@[i].label_id@
                &&& n.name@ == rows@[i].name@
                &&& n.names@ == rows@[i].names@
                &&& n.lit == is_lit(lit_tags@, rows@[i].tag_id@)
            },
        r.edges@.map_values(|e: GraphEdge| edge_view(e)) == graph_edges(rows@, edge_rows@),
{
    let mut edges: Vec<GraphEdge> = Vec::new();
    let mut i: usize = 0;
    while i < edge_rows.len()
        invariant
            i <= edge_rows@.len(),
            edges@.map_values(|e: GraphEdge| edge_view(e)) == graph_edges(rows@, edge_rows@.take(i as int)),
        decreases edge_rows@.len() - i,
    {
        let ghost t = edge_rows@.take(i + 1);
        assert(t.drop_last() =~= edge_rows@.take(i as int));
        assert(t[i as int] == edge_rows@[i as int]);
        assert(first_of_kind(t, i as int) == first_of_kind(edge_rows@, i as int)) by {
            assert forall|j: int| 0 <= j < i implies t[j] == edge_rows@[j] by {}
            if first_of_kind(edge_rows@, i as int) {
                assert forall|j: int| 0 <= j < i implies edge_key(#[trigger] t[j]) != edge_key(t[i as int]) by {
                    assert(t[j] == edge_rows@[j]);
                }
            } else {
                let j = choose|j: int| 0 <= j < i && edge_key(#[trigger] edge_rows@[j]) == edge_key(edge_rows@[i as int]);
                assert(t[j] == edge_rows@[j]);
            }
        }
        let ghost before = edges@.map_values(|e: GraphEdge| edge_view(e));
        if first_of_kind_exec(edge_rows, i) {
            let e = &edge_rows[i];
            match (label_of_exec(&rows, e.from_tag.as_str()), label_of_exec(&rows, e.to_tag.as_str())) {
                (Some(from), Some(to)) => {
                    edges.push(GraphEdge { from, to, edge_type: e.prereq_type.clone() });
                    assert(edges@.map_values(|e: GraphEdge| edge_view(e)) =~= before.push(
                        (
                            label_of(rows@, edge_rows@[i as int].from_tag@).unwrap(),
                            label_of(rows@, edge_rows@[i as int].to_tag@).unwrap(),
                            edge_rows@[i as int].prereq_type@,
                        ),
                    ));
                },
                _ => {},
            }
        }
        i = i + 1;
        assert(edges@.map_values(|e: GraphEdge| edge_view(e)) =~= graph_edges(rows@, edge_rows@.take(i as int)));
    }
    assert(edge_rows@.take(i as int) =~= edge_rows@);
    let ghost all = rows@;
    let mut rest = rows;
    let mut nodes: Vec<GraphNode> = Vec::new();
    while rest.len() > 0
        invariant
            nodes@.len() + rest@.len() == all.len(),
            rest@ == all.skip(nodes@.len() as int),
            forall|i: int|
                0 <= i < nodes@.len() ==> {
                    let n = #[trigger] nodes@[i];
                    &&& n.id@ == all[i].label_id@
                    &&& n.name@ == all[i].name@
                    &&& n.names@ == all[i].names@
                    &&& n.lit == is_lit(lit_tags@, all[i].tag_id@)
                },
        decreases rest@.len(),
    {
        let row = rest.remove(0);
        assert(row == all[nodes@.len() as int]);
        let lit = is_lit_exec(lit_tags, row.tag_id.as_str());
        nodes.push(GraphNode { id: row.label_id, name: row.name, names: row.names, lit });
        assert(rest@ =~= all.skip(nodes@.len() as int));
    }
    GraphData { nodes, edges }
}

/// The edge an input link stands for, when both its tags have labels.
pub open spec fn labeled_edge(rows: Seq<GraphTagRow>, e: GraphEdgeRow) -> Option<(Seq<char>, Seq<char>, Seq<char>)> {
    match (label_of(rows, e.from_tag@), label_of(rows, e.to_tag@)) {
        (Some(f), Some(t)) => Some((f, t, e.prereq_type@)),
        _ => None,
    }
}

/// An edge is in the graph exactly when some input link between two
/// labelled tags stands for it: no link is lost and none is made up.
pub proof fn lemma_graph_edges_members(rows: Seq<GraphTagRow>, er: Seq<GraphEdgeRow>, x: (Seq<char>, Seq<char>, Seq<char>))
    ensures
        graph_edges(rows, er).contains(x) <==> exists|i: int|
            0 <= i < er.len() && labeled_edge(rows, #[trigger] er[i]) == Some(x),
    decreases er.len(),
{
    if er.len() > 0 {
        let n = er.len() - 1;
        let pre = er.drop_last();
        lemma_graph_edges_members(rows, pre, x);
        let tail = if first_of_kind(er, n) && label_of(rows, er[n].from_tag@).is_some() && label_of(
            rows,
            er[n].to_tag@,
        ).is_some() {
            seq![(label_of(rows, er[n].from_tag@).unwrap(), label_of(rows, er[n].to_tag@).unwrap(), er[n].prereq_type@)]
        } else {
            Seq::empty()
        };
        assert(graph_edges(rows, er) == graph_edges(rows, pre) + tail);
        if graph_edges(rows, er).contains(x) {
            let k = choose|k: int| 0 <= k < graph_edges(rows, er).len() && graph_edges(rows, er)[k] == x;
            if k < graph_edges(rows, pre).len() {
                assert(graph_edges(rows, pre)[k] == x);
                assert(graph_edges(rows, pre).contains(x));
                let i = choose|i: int| 0 <= i < pre.len() && labeled_edge(rows, #[trigger] pre[i]) == Some(x);
                assert(er[i] == pre[i]);
            } else {
                assert(labeled_edge(rows, er[n]) == Some(x));
            }
        }
        if exists|i: int| 0 <= i < er.len() && labeled_edge(rows, #[trigger] er[i]) == Some(x) {
            let i = choose|i: int| 0 <= i < er.len() && labeled_edge(rows, #[trigger] er[i]) == Some(x);
            if i < n {
                assert(pre[i] == er[i]);
                let k = choose|k: int| 0 <= k < graph_edges(rows, pre).len() && graph_edges(rows, pre)[k] == x;
                assert((graph_edges(rows, pre) + tail)[k] == x);
            } else if first_of_kind(er, n) {
                assert((graph_edges(rows, pre) + tail)[graph_edges(rows, pre).len() as int] == x);
            } else {
                let j = choose|j: int| 0 <= j < n && edge_key(#[trigger] er[j]) == edge_key(er[n]);
                assert(labeled_edge(rows, er[j]) == Some(x));
                assert(pre[j] == er[j]);
                let k = choose|k: int| 0 <= k < graph_edges(rows, pre).len() && graph_edges(rows, pre)[k] == x;
                assert((graph_edges(rows, pre) + tail)[k] == x);
            }
        }
    }
}

} // verus!
