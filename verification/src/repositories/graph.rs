//! The edges of version graphs. A document and a document set each have a
//! graph of their own, in which every version but the first derives from
//! earlier versions.

use vstd::prelude::*;

use crate::ident::Id;

verus! {

/// An edge of a version graph: within the graph `graph_id`, that of one
/// document or of one document set, `child_version_id` derives from
/// `parent_version_id`.
#[derive(Debug, Clone, Copy, PartialEq, Eq, Structural)]
pub struct Dependency {
    pub graph_id: Id,
    pub parent_version_id: Id,
    pub child_version_id: Id,
}

/// The parents of version `version_id` of the graph `graph_id` among `edges`, in the
/// order in which the edges were recorded.
pub open spec fn parents_among(edges: Seq<Dependency>, graph_id: Id, version_id: Id) -> Seq<Id>
    decreases edges.len(),
{
    if edges.len() == 0 {
        Seq::empty()
    } else {
        let earlier = parents_among(edges.drop_last(), graph_id, version_id);
        let edge = edges.last();
        if edge.graph_id == graph_id && edge.child_version_id == version_id {
            earlier.push(edge.parent_version_id)
        } else {
            earlier
        }
    }
}

/// The children of version `version_id` of the graph `graph_id` among `edges`, in the
/// order in which the edges were recorded.
pub open spec fn children_among(edges: Seq<Dependency>, graph_id: Id, version_id: Id) -> Seq<Id>
    decreases edges.len(),
{
    if edges.len() == 0 {
        Seq::empty()
    } else {
        let earlier = children_among(edges.drop_last(), graph_id, version_id);
        let edge = edges.last();
        if edge.graph_id == graph_id && edge.parent_version_id == version_id {
            earlier.push(edge.child_version_id)
        } else {
            earlier
        }
    }
}

/// The edges from `child` to each of `parents`, in their order.
pub open spec fn edges_to(graph_id: Id, child: Id, parents: Seq<Id>) -> Seq<Dependency> {
    Seq::new(
        parents.len(),
        |k: int|
            Dependency { graph_id, parent_version_id: parents[k], child_version_id: child },
    )
}

/// A version is among the parents of another exactly if an edge says so.
pub proof fn lemma_parents_among(edges: Seq<Dependency>, graph_id: Id, version_id: Id)
    ensures
        forall|parent: Id| #[trigger]
            parents_among(edges, graph_id, version_id).contains(parent) <==> edges.contains(
                Dependency { graph_id, parent_version_id: parent, child_version_id: version_id },
            ),
        parents_among(edges, graph_id, version_id).len() == 0 <==> forall|k: int|
            0 <= k < edges.len() ==> !((#[trigger] edges[k]).graph_id == graph_id
                && edges[k].child_version_id == version_id),
    decreases edges.len(),
{
    let parents = parents_among(edges, graph_id, version_id);
    if edges.len() > 0 {
        let earlier = parents_among(edges.drop_last(), graph_id, version_id);
        let edge = edges.last();
        lemma_parents_among(edges.drop_last(), graph_id, version_id);
        assert forall|parent: Id| #[trigger] parents.contains(parent) implies edges.contains(
            Dependency { graph_id, parent_version_id: parent, child_version_id: version_id },
        ) by {
            let wanted = Dependency {
                graph_id,
                parent_version_id: parent,
                child_version_id: version_id,
            };
            if earlier.contains(parent) {
                let k = choose|k: int|
                    0 <= k < edges.drop_last().len() && edges.drop_last()[k] == wanted;
                assert(edges[k] == wanted);
            } else {
                let at = choose|at: int| 0 <= at < parents.len() && parents[at] == parent;
                assert(at == earlier.len());
                assert(edges[edges.len() - 1] == wanted);
            }
        }
        assert forall|parent: Id|
            edges.contains(
                Dependency { graph_id, parent_version_id: parent, child_version_id: version_id },
            ) implies #[trigger] parents.contains(parent) by {
            let wanted = Dependency {
                graph_id,
                parent_version_id: parent,
                child_version_id: version_id,
            };
            let k = choose|k: int| 0 <= k < edges.len() && edges[k] == wanted;
            if k < edges.len() - 1 {
                assert(edges.drop_last()[k] == wanted);
                assert(earlier.contains(parent));
                let at = choose|at: int| 0 <= at < earlier.len() && earlier[at] == parent;
                assert(parents[at] == parent);
            } else {
                assert(parents[earlier.len() as int] == parent);
            }
        }
        if parents.len() == 0 {
            assert forall|k: int| 0 <= k < edges.len() implies !((#[trigger] edges[k]).graph_id
                == graph_id && edges[k].child_version_id == version_id) by {
                if k < edges.len() - 1 {
                    assert(edges.drop_last()[k] == edges[k]);
                }
            }
        } else if earlier.len() > 0 {
            let k = choose|k: int|
                0 <= k < edges.drop_last().len() && (#[trigger] edges.drop_last()[k]).graph_id
                    == graph_id && edges.drop_last()[k].child_version_id == version_id;
            assert(edges[k] == edges.drop_last()[k]);
        } else {
            assert(edges[edges.len() - 1] == edge);
        }
    }
}

/// Edges appended for another child leave a version's parents as they were,
/// and edges appended for the version itself add their parents in order.
pub proof fn lemma_parents_among_appended(
    edges: Seq<Dependency>,
    graph_id: Id,
    child: Id,
    parents: Seq<Id>,
    of_graph: Id,
    of_version: Id,
)
    ensures
        parents_among(edges + edges_to(graph_id, child, parents), of_graph, of_version)
            == if of_graph == graph_id && of_version == child {
            parents_among(edges, of_graph, of_version) + parents
        } else {
            parents_among(edges, of_graph, of_version)
        },
    decreases parents.len(),
{
    let appended = edges + edges_to(graph_id, child, parents);
    if parents.len() == 0 {
        assert(appended == edges);
        assert(parents_among(edges, of_graph, of_version) + parents == parents_among(
            edges,
            of_graph,
            of_version,
        ));
    } else {
        let shorter = edges + edges_to(graph_id, child, parents.drop_last());
        assert(appended.drop_last() == shorter);
        lemma_parents_among_appended(
            edges,
            graph_id,
            child,
            parents.drop_last(),
            of_graph,
            of_version,
        );
        assert(appended.last() == Dependency {
            graph_id,
            parent_version_id: parents.last(),
            child_version_id: child,
        });
        if of_graph == graph_id && of_version == child {
            assert((parents_among(edges, of_graph, of_version) + parents.drop_last()).push(
                parents.last(),
            ) == parents_among(edges, of_graph, of_version) + parents);
        }
    }
}

/// Edges appended from a new child add that child to the children of each of
/// its parents that is the version asked about, and to no other version.
pub proof fn lemma_children_among_appended(
    edges: Seq<Dependency>,
    graph_id: Id,
    child: Id,
    parents: Seq<Id>,
    of_graph: Id,
    of_version: Id,
)
    requires
        !(of_graph == graph_id && parents.contains(of_version)),
    ensures
        children_among(edges + edges_to(graph_id, child, parents), of_graph, of_version)
            == children_among(edges, of_graph, of_version),
    decreases parents.len(),
{
    let appended = edges + edges_to(graph_id, child, parents);
    if parents.len() == 0 {
        assert(appended == edges);
    } else {
        let shorter = edges + edges_to(graph_id, child, parents.drop_last());
        assert(appended.drop_last() == shorter);
        assert forall|k: int| 0 <= k < parents.drop_last().len() implies parents.drop_last()[k]
            != of_version || of_graph != graph_id by {
            assert(parents[k] == parents.drop_last()[k]);
        }
        lemma_children_among_appended(
            edges,
            graph_id,
            child,
            parents.drop_last(),
            of_graph,
            of_version,
        );
        assert(appended.last() == Dependency {
            graph_id,
            parent_version_id: parents.last(),
            child_version_id: child,
        });
        assert(parents[parents.len() - 1] == parents.last());
    }
}

/// Edges appended from a new child to distinct parents add that child, once,
/// to the children of each of the parents.
pub proof fn lemma_children_among_gained(
    edges: Seq<Dependency>,
    graph_id: Id,
    child: Id,
    parents: Seq<Id>,
    of_version: Id,
)
    requires
        parents.no_duplicates(),
        parents.contains(of_version),
    ensures
        children_among(edges + edges_to(graph_id, child, parents), graph_id, of_version)
            == children_among(edges, graph_id, of_version).push(child),
    decreases parents.len(),
{
    let appended = edges + edges_to(graph_id, child, parents);
    let shorter = edges + edges_to(graph_id, child, parents.drop_last());
    assert(appended.drop_last() == shorter);
    assert(appended.last() == Dependency {
        graph_id,
        parent_version_id: parents.last(),
        child_version_id: child,
    });
    assert(parents.drop_last().no_duplicates());
    if parents.last() == of_version {
        assert(!parents.drop_last().contains(of_version)) by {
            if parents.drop_last().contains(of_version) {
                let k = choose|k: int|
                    0 <= k < parents.drop_last().len() && parents.drop_last()[k] == of_version;
                assert(parents[k] == parents[parents.len() - 1]);
            }
        }
        lemma_children_among_appended(
            edges,
            graph_id,
            child,
            parents.drop_last(),
            graph_id,
            of_version,
        );
    } else {
        let k = choose|k: int| 0 <= k < parents.len() && parents[k] == of_version;
        assert(parents.drop_last()[k] == of_version);
        lemma_children_among_gained(edges, graph_id, child, parents.drop_last(), of_version);
    }
}

} // verus!
