use vstd::prelude::*;

use crate::infra_cache::{InfraCache, TrackSectionLinkCache};
use crate::objects::{same_endpoint, TrackEndpoint};

verus! {

/// A directed edge of the adjacency graph.
#[derive(Debug, Clone, PartialEq, Eq)]
pub struct GraphEdge {
    pub from: TrackEndpoint,
    pub to: TrackEndpoint,
}

/// Topological adjacency between track endpoints of one infra.
#[derive(Debug, Clone, PartialEq, Eq)]
pub struct Graph {
    pub edges: Vec<GraphEdge>,
}

/// `b` is among the neighbours of `a`.
pub open spec fn connected(g: Graph, a: TrackEndpoint, b: TrackEndpoint) -> bool {
    exists|k: int|
        0 <= k < g.edges@.len() && same_endpoint(#[trigger] g.edges@[k].from, a) && same_endpoint(
            g.edges@[k].to,
            b,
        )
}

/// Some link of `links` joins `a` and `b`, in either orientation.
pub open spec fn linked(links: Seq<TrackSectionLinkCache>, a: TrackEndpoint, b: TrackEndpoint) -> bool {
    exists|k: int|
        0 <= k < links.len() && ((same_endpoint(#[trigger] links[k].src, a) && same_endpoint(links[k].dst, b))
            || (same_endpoint(links[k].dst, a) && same_endpoint(links[k].src, b)))
}

impl Graph {
    /// Builds the graph of an infra from its track section links; each link
    /// connects its two endpoints both ways.
    pub fn load(infra_cache: &InfraCache) -> (r: Graph)
        ensures
            forall|a: TrackEndpoint, b: TrackEndpoint|
                connected(r, a, b) <==> linked(infra_cache.track_section_links@, a, b),
    {
        let links = &infra_cache.track_section_links;
        let mut edges: Vec<GraphEdge> = Vec::new();
        let mut i: usize = 0;
        while i < links.len()
            invariant
                i <= links@.len(),
                edges@.len() == 2 * i,
                forall|k: int|
                    0 <= k < i ==> (#[trigger] edges@[2 * k]).from == links@[k].src && edges@[2 * k].to
                        == links@[k].dst && edges@[2 * k + 1].from == links@[k].dst && edges@[2 * k
                        + 1].to == links@[k].src,
            decreases links@.len() - i,
        {
            let link = &links[i];
            edges.push(GraphEdge { from: link.src.clone(), to: link.dst.clone() });
            edges.push(GraphEdge { from: link.dst.clone(), to: link.src.clone() });
            i += 1;
        }
        let r = Graph { edges };
        assert forall|a: TrackEndpoint, b: TrackEndpoint|
            connected(r, a, b) <==> linked(links@, a, b) by {
            if connected(r, a, b) {
                let k = choose|k: int|
                    0 <= k < r.edges@.len() && same_endpoint(#[trigger] r.edges@[k].from, a)
                        && same_endpoint(r.edges@[k].to, b);
                let l = k / 2;
                assert(edges@[2 * l].from == links@[l].src);
                assert(k == 2 * l || k == 2 * l + 1);
                assert(same_endpoint(links@[l].src, a) || same_endpoint(links@[l].dst, a));
            }
            if linked(links@, a, b) {
                let l = choose|l: int|
                    0 <= l < links@.len() && ((same_endpoint(#[trigger] links@[l].src, a)
                        && same_endpoint(links@[l].dst, b)) || (same_endpoint(links@[l].dst, a)
                        && same_endpoint(links@[l].src, b)));
                assert(edges@[2 * l].from == links@[l].src);
                if same_endpoint(links@[l].src, a) && same_endpoint(links@[l].dst, b) {
                    assert(same_endpoint(r.edges@[2 * l].from, a));
                } else {
                    assert(same_endpoint(r.edges@[2 * l + 1].from, a));
                }
            }
        }
        r
    }

    /// Whether `b` is a neighbour of `a`.
    pub fn is_connected(&self, a: &TrackEndpoint, b: &TrackEndpoint) -> (r: bool)
        ensures
            r == connected(*self, *a, *b),
    {
        let mut i: usize = 0;
        while i < self.edges.len()
            invariant
                i <= self.edges@.len(),
                forall|k: int|
                    0 <= k < i ==> !(same_endpoint(#[trigger] self.edges@[k].from, *a) && same_endpoint(
                        self.edges@[k].to,
                        *b,
                    )),
            decreases self.edges@.len() - i,
        {
            if self.edges[i].from.same_as(a) && self.edges[i].to.same_as(b) {
                return true;
            }
            i += 1;
        }
        false
    }
}

} // verus!
