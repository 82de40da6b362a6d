use vstd::prelude::*;

use crate::package_graph::DependencyType;
use petgraph::visit::EdgeRef;

verus! {

// ---------------------------------------------------------------------------
// The package graph is held in a petgraph directed graph.  The crate speaks
// of it through two named contents — its node weights and its edge list —
// and a wrapper per method the logic calls.  Every clause below is read off
// petgraph's `graph_impl` source.
// ---------------------------------------------------------------------------

#[verifier::external_type_specification]
#[verifier::external_body]
#[verifier::reject_recursive_types(N)]
#[verifier::reject_recursive_types(E)]
#[verifier::reject_recursive_types(Ty)]
#[verifier::reject_recursive_types(Ix)]
pub struct ExPetgraphGraph<N, E, Ty, Ix>(petgraph::graph::Graph<N, E, Ty, Ix>);

#[verifier::external_type_specification]
#[verifier::external_body]
pub struct ExPetgraphDirected(petgraph::Directed);

/// The node weights of the package graph, in insertion order.
pub uninterp spec fn pg_nodes(g: petgraph::graph::DiGraph<String, DependencyType>) -> Seq<String>;

/// The edges of the package graph, in insertion order, each as source
/// index, target index and weight.
pub uninterp spec fn pg_edges(g: petgraph::graph::DiGraph<String, DependencyType>) -> Seq<
    (usize, usize, DependencyType),
>;

/// The outgoing edges of `a`, each as target index and weight, in the order
/// petgraph's `edges_directed` walks them: most recently added first.
pub open spec fn out_edges_rev(es: Seq<(usize, usize, DependencyType)>, a: usize) -> Seq<
    (usize, DependencyType),
>
    decreases es.len(),
{
    if es.len() == 0 {
        Seq::empty()
    } else if es.last().0 == a {
        seq![(es.last().1, es.last().2)] + out_edges_rev(es.drop_last(), a)
    } else {
        out_edges_rev(es.drop_last(), a)
    }
}

/// The incoming edges of `a`, each as source index and weight, most
/// recently added first.
pub open spec fn in_edges_rev(es: Seq<(usize, usize, DependencyType)>, a: usize) -> Seq<
    (usize, DependencyType),
>
    decreases es.len(),
{
    if es.len() == 0 {
        Seq::empty()
    } else if es.last().1 == a {
        seq![(es.last().0, es.last().2)] + in_edges_rev(es.drop_last(), a)
    } else {
        in_edges_rev(es.drop_last(), a)
    }
}

/// Make an empty directed graph.
///
/// Relies on `petgraph::graph::Graph::new`: the graph starts with no nodes
/// and no edges.
#[verifier::external_body]
pub fn pg_new() -> (g: petgraph::graph::DiGraph<String, DependencyType>)
    ensures
        pg_nodes(g) == Seq::<String>::empty(),
        pg_edges(g) == Seq::<(usize, usize, DependencyType)>::empty(),
{
    petgraph::graph::DiGraph::new()
}

/// Add a node and get its index.
///
/// Relies on `petgraph::graph::Graph::add_node`: the new node is appended
/// and its index is the previous node count.
#[verifier::external_body]
pub fn pg_add_node(
    g: &mut petgraph::graph::DiGraph<String, DependencyType>,
    w: String,
) -> (r: usize)
    requires
        pg_nodes(*old(g)).len() < 1000000000,
    ensures
        pg_nodes(*final(g)) == pg_nodes(*old(g)).push(w),
        pg_edges(*final(g)) == pg_edges(*old(g)),
        r as int == pg_nodes(*old(g)).len(),
{
    g.add_node(w).index()
}

/// Add an edge between two existing nodes.
///
/// Relies on `petgraph::graph::Graph::add_edge`: the edge is appended, and
/// it is prepended to each endpoint's adjacency list, so later walks see it
/// first.  It panics on an index out of bounds, which the precondition
/// rules out.
#[verifier::external_body]
pub fn pg_add_edge(
    g: &mut petgraph::graph::DiGraph<String, DependencyType>,
    a: usize,
    b: usize,
    w: DependencyType,
)
    requires
        a < pg_nodes(*old(g)).len(),
        b < pg_nodes(*old(g)).len(),
        pg_edges(*old(g)).len() < 1000000000,
    ensures
        pg_nodes(*final(g)) == pg_nodes(*old(g)),
        pg_edges(*final(g)) == pg_edges(*old(g)).push((a, b, w)),
{
    g.add_edge(
        petgraph::graph::NodeIndex::new(a),
        petgraph::graph::NodeIndex::new(b),
        w,
    );
}

/// Read a node's weight.
///
/// Relies on `petgraph::graph::Graph::node_weight`.
#[verifier::external_body]
pub fn pg_node_weight(
    g: &petgraph::graph::DiGraph<String, DependencyType>,
    a: usize,
) -> (r: String)
    requires
        a < pg_nodes(*g).len(),
    ensures
        r == pg_nodes(*g)[a as int],
{
    g.node_weight(petgraph::graph::NodeIndex::new(a)).unwrap().clone()
}

/// The number of nodes.
///
/// Relies on `petgraph::graph::Graph::node_count`.
#[verifier::external_body]
pub fn pg_node_count(g: &petgraph::graph::DiGraph<String, DependencyType>) -> (r: usize)
    ensures
        r as int == pg_nodes(*g).len(),
{
    g.node_count()
}

/// Walk every edge, in insertion order.
///
/// Relies on `petgraph::graph::Graph::edge_references`, which walks the
/// edge list by index, the order the edges were added in.
#[verifier::external_body]
pub fn pg_edge_list(g: &petgraph::graph::DiGraph<String, DependencyType>) -> (r: Vec<
    (usize, usize, DependencyType),
>)
    ensures
        r@ == pg_edges(*g),
{
    g.edge_references().map(|e| (e.source().index(), e.target().index(), *e.weight())).collect()
}

/// Walk the outgoing edges of `a`.
///
/// Relies on `petgraph::graph::Graph::edges_directed` with the outgoing
/// direction: it yields the edges whose source is `a`, most recently added
/// first, since `add_edge` prepends to the adjacency list.
#[verifier::external_body]
pub fn pg_edges_out(
    g: &petgraph::graph::DiGraph<String, DependencyType>,
    a: usize,
) -> (r: Vec<(usize, DependencyType)>)
    requires
        a < pg_nodes(*g).len(),
    ensures
        r@ == out_edges_rev(pg_edges(*g), a),
{
    g.edges_directed(petgraph::graph::NodeIndex::new(a), petgraph::Direction::Outgoing).map(
        |e| (e.target().index(), *e.weight()),
    ).collect()
}

/// Walk the incoming edges of `a`.
///
/// Relies on `petgraph::graph::Graph::edges_directed` with the incoming
/// direction: it yields the edges whose target is `a`, most recently added
/// first.
#[verifier::external_body]
pub fn pg_edges_in(
    g: &petgraph::graph::DiGraph<String, DependencyType>,
    a: usize,
) -> (r: Vec<(usize, DependencyType)>)
    requires
        a < pg_nodes(*g).len(),
    ensures
        r@ == in_edges_rev(pg_edges(*g), a),
{
    g.edges_directed(petgraph::graph::NodeIndex::new(a), petgraph::Direction::Incoming).map(
        |e| (e.source().index(), *e.weight()),
    ).collect()
}

} // verus!
