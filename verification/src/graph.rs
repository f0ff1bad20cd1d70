//! The connection graph of the platform model: application, infrastructure
//! and external nodes, with edges for infrastructure use and dependencies,
//! optionally focused on one application and its direct neighbours.

use vstd::prelude::*;
use crate::ids::{uuid_string, uuid_text};
use crate::keyed::{KeyedList, lookup, lemma_lookup_insert};
use crate::text::{push_str, string_of, str_eq, opt_view};

verus! {

broadcast use vstd::seq_lib::group_seq_properties;

/// Application nodes included when no limit is given.
pub const DEFAULT_LIMIT: i64 = 300;

/// Scope of a graph query.
pub struct GraphScope {
    /// Centre the graph on one application (only it and its direct
    /// neighbours).
    pub center: Option<u128>,
    /// Maximum number of application nodes to include.
    pub limit: i64,
}

impl GraphScope {
    /// The scope with `limit` (default `DEFAULT_LIMIT`) clamped to `[1, 2000]`.
    pub fn new(center: Option<u128>, limit: Option<i64>) -> (s: GraphScope)
        ensures
            s.center == center,
            s.limit == {
                let l = match limit {
                    Some(l) => l as int,
                    None => DEFAULT_LIMIT as int,
                };
                if l < 1 {
                    1
                } else if l > 2000 {
                    2000
                } else {
                    l
                }
            },
    {
        let l = match limit {
            Some(l) => l,
            None => DEFAULT_LIMIT,
        };
        let limit = if l < 1 {
            1
        } else if l > 2000 {
            2000
        } else {
            l
        };
        GraphScope { center, limit }
    }
}

/// A graph node: id, label, kind and optional sub-kind.
pub struct GraphNode {
    pub id: String,
    pub label: String,
    pub kind: String,
    pub sub: Option<String>,
}

/// A graph edge: id (`source->target:kind`), endpoints and kind.
pub struct GraphEdge {
    pub id: String,
    pub source: String,
    pub target: String,
    pub kind: String,
}

/// The character view of a node.
pub open spec fn node_view(n: GraphNode) -> (Seq<char>, Seq<char>, Seq<char>, Option<Seq<char>>) {
    (n.id@, n.label@, n.kind@, opt_view(n.sub))
}

/// The character view of an edge.
pub open spec fn edge_view(e: GraphEdge) -> (Seq<char>, Seq<char>, Seq<char>, Seq<char>) {
    (e.id@, e.source@, e.target@, e.kind@)
}

/// Character views of nodes.
pub open spec fn nodes_view(s: Seq<GraphNode>) -> Seq<(Seq<char>, Seq<char>, Seq<char>, Option<Seq<char>>)> {
    s.map_values(|n: GraphNode| node_view(n))
}

/// Character views of edges.
pub open spec fn edges_view(s: Seq<GraphEdge>) -> Seq<(Seq<char>, Seq<char>, Seq<char>, Seq<char>)> {
    s.map_values(|e: GraphEdge| edge_view(e))
}

/// Some node has id `id`.
pub open spec fn has_id(nodes: Seq<(Seq<char>, Seq<char>, Seq<char>, Option<Seq<char>>)>, id: Seq<char>) -> bool {
    exists|i: int| 0 <= i < nodes.len() && (#[trigger] nodes[i]).0 == id
}

/// No two nodes share an id.
pub open spec fn distinct_ids(nodes: Seq<(Seq<char>, Seq<char>, Seq<char>, Option<Seq<char>>)>) -> bool {
    forall|i: int, j: int| 0 <= i < j < nodes.len() ==> (#[trigger] nodes[i]).0 != (#[trigger] nodes[j]).0
}

/// The nodes after adding one: unchanged when a node with that id exists.
pub open spec fn with_node(
    nodes: Seq<(Seq<char>, Seq<char>, Seq<char>, Option<Seq<char>>)>,
    id: Seq<char>,
    label: Seq<char>,
    kind: Seq<char>,
    sub: Option<Seq<char>>,
) -> Seq<(Seq<char>, Seq<char>, Seq<char>, Option<Seq<char>>)> {
    if has_id(nodes, id) {
        nodes
    } else {
        nodes.push((id, label, kind, sub))
    }
}

/// The edge from `source` to `target` of `kind`.
pub open spec fn edge_of(source: Seq<char>, target: Seq<char>, kind: Seq<char>) -> (Seq<char>, Seq<char>, Seq<char>, Seq<char>) {
    (source + "->"@ + target + ":"@ + kind, source, target, kind)
}

/// Accumulates nodes (each id once) and edges while the graph is assembled.
pub struct GraphBuilder {
    nodes: Vec<GraphNode>,
    edges: Vec<GraphEdge>,
    node_ids: KeyedList<()>,
    app_names: KeyedList<u128>,
}

impl GraphBuilder {
    /// The nodes added so far.
    pub closed spec fn node_list(&self) -> Seq<(Seq<char>, Seq<char>, Seq<char>, Option<Seq<char>>)> {
        nodes_view(self.nodes@)
    }

    /// The edges added so far.
    pub closed spec fn edge_list(&self) -> Seq<(Seq<char>, Seq<char>, Seq<char>, Seq<char>)> {
        edges_view(self.edges@)
    }

    /// Application names and their node ids.
    pub closed spec fn app_ids(&self) -> Seq<(Seq<char>, u128)> {
        self.app_names@
    }

    #[verifier::type_invariant]
    closed spec fn inv(self) -> bool {
        &&& forall|k: Seq<char>| (lookup(self.node_ids@, k) is Some) == has_id(nodes_view(self.nodes@), k)
        &&& forall|i: int, j: int| 0 <= i < j < self.nodes@.len() ==> (#[trigger] self.nodes@[i]).id@
            != (#[trigger] self.nodes@[j]).id@
    }

    /// An empty graph.
    pub fn new() -> (b: GraphBuilder)
        ensures
            b.node_list().len() == 0,
            b.edge_list().len() == 0,
            b.app_ids().len() == 0,
    {
        GraphBuilder { nodes: Vec::new(), edges: Vec::new(), node_ids: KeyedList::new(), app_names: KeyedList::new() }
    }

    /// Whether a node with id `id` was added.
    pub fn has_node(&self, id: &str) -> (b: bool)
        ensures
            b == has_id(self.node_list(), id@),
    {
        proof {
            use_type_invariant(self);
        }
        self.node_ids.get(id).is_some()
    }

    /// Adds a node unless one with the same id exists (so node ids stay
    /// distinct).
    pub fn add_node(&mut self, id: String, label: String, kind: &str, sub: Option<String>)
        ensures
            final(self).node_list() == with_node(old(self).node_list(), id@, label@, kind@, opt_view(sub)),
            distinct_ids(final(self).node_list()),
            final(self).edge_list() == old(self).edge_list(),
            final(self).app_ids() == old(self).app_ids(),
    {
        proof {
            use_type_invariant(&*self);
        }
        if self.node_ids.get(id.as_str()).is_none() {
            let mut b = GraphBuilder::new();
            std::mem::swap(&mut b, self);
            proof {
                use_type_invariant(&b);
            }
            let GraphBuilder { nodes: old_nodes_v, edges, node_ids, app_names } = b;
            let ghost old_ids = node_ids@;
            let ghost old_nodes = old_nodes_v@;
            assert(!has_id(nodes_view(old_nodes), id@));
            let mut ids = node_ids;
            ids.insert(id.clone(), ());
            proof {
                lemma_lookup_insert(old_ids, id@, ());
            }
            let mut nodes = old_nodes_v;
            nodes.push(GraphNode { id, label, kind: String::from_str(kind), sub });
            assert(nodes_view(nodes@) == nodes_view(old_nodes).push(node_view(nodes@.last())));
            assert forall|k: Seq<char>| (lookup(ids@, k) is Some) == has_id(nodes_view(nodes@), k) by {
                if has_id(nodes_view(nodes@), k) && k != nodes@.last().id@ {
                    let i = choose|i: int| 0 <= i < nodes_view(nodes@).len() && (#[trigger] nodes_view(nodes@)[i]).0 == k;
                    assert(nodes_view(old_nodes)[i].0 == k);
                }
                if k == nodes@.last().id@ {
                    assert(nodes_view(nodes@)[nodes@.len() - 1].0 == k);
                }
                if has_id(nodes_view(old_nodes), k) {
                    let i = choose|i: int| 0 <= i < nodes_view(old_nodes).len() && (#[trigger] nodes_view(old_nodes)[i]).0 == k;
                    assert(nodes_view(nodes@)[i].0 == k);
                }
            }
            assert forall|i: int, j: int| 0 <= i < j < nodes@.len() implies (#[trigger] nodes@[i]).id@
                != (#[trigger] nodes@[j]).id@ by {
                if j == nodes@.len() - 1 {
                    assert(nodes_view(old_nodes)[i].0 == nodes@[i].id@);
                    if nodes@[i].id@ == nodes@[j].id@ {
                        assert(has_id(nodes_view(old_nodes), id@));
                    }
                } else {
                    assert(nodes@[i] == old_nodes[i]);
                    assert(nodes@[j] == old_nodes[j]);
                }
            }
            *self = GraphBuilder { nodes, edges, node_ids: ids, app_names };
        }
        proof {
            use_type_invariant(&*self);
            assert forall|i: int, j: int| 0 <= i < j < self.node_list().len() implies (#[trigger] self.node_list()[i]).0
                != (#[trigger] self.node_list()[j]).0 by {
                assert(self.node_list()[i].0 == self.nodes@[i].id@);
                assert(self.node_list()[j].0 == self.nodes@[j].id@);
            }
        }
    }

    /// Adds the edge `source->target:kind`.
    pub fn add_edge(&mut self, source: String, target: String, kind: &str)
        ensures
            final(self).edge_list() == old(self).edge_list().push(edge_of(source@, target@, kind@)),
            final(self).node_list() == old(self).node_list(),
            final(self).app_ids() == old(self).app_ids(),
    {
        let mut id: Vec<char> = Vec::new();
        push_str(&mut id, source.as_str());
        push_str(&mut id, "->");
        push_str(&mut id, target.as_str());
        push_str(&mut id, ":");
        push_str(&mut id, kind);
        let edge = GraphEdge { id: string_of(&id), source, target, kind: String::from_str(kind) };
        proof {
            use_type_invariant(&*self);
        }
        let mut edges: Vec<GraphEdge> = Vec::new();
        std::mem::swap(&mut edges, &mut self.edges);
        let ghost old_edges = edges@;
        edges.push(edge);
        assert(edges_view(edges@) == edges_view(old_edges).push(edge_view(edge)));
        self.edges = edges;
    }

    /// Records the node id of an application name.
    pub fn name_app(&mut self, name: String, id: u128)
        ensures
            final(self).app_ids() == crate::keyed::insert_sorted(old(self).app_ids(), name@, id),
            final(self).node_list() == old(self).node_list(),
            final(self).edge_list() == old(self).edge_list(),
    {
        proof {
            use_type_invariant(&*self);
        }
        let mut names: KeyedList<u128> = KeyedList::new();
        std::mem::swap(&mut names, &mut self.app_names);
        names.insert(name, id);
        self.app_names = names;
    }

    /// The node id of an application name.
    pub fn app_id(&self, name: &str) -> (r: Option<u128>)
        ensures
            r == lookup(self.app_ids(), name@),
    {
        match self.app_names.get(name) {
            Some(id) => Some(*id),
            None => None,
        }
    }
}

/// A node as the graph sees it: id, label, kind, sub-kind.
pub type NodeV = (Seq<char>, Seq<char>, Seq<char>, Option<Seq<char>>);

/// An edge as the graph sees it: id, source, target, kind.
pub type EdgeV = (Seq<char>, Seq<char>, Seq<char>, Seq<char>);

/// The state of an assembly: nodes, edges, application ids by name.
pub type GraphState = (Seq<NodeV>, Seq<EdgeV>, Seq<(Seq<char>, u128)>);

/// An application row: id, name, type.
pub struct AppRow {
    pub id: u128,
    pub name: String,
    pub app_type: Option<String>,
}

/// An infrastructure-use row: the infrastructure's id, name and kind, and
/// the application using it.
pub struct InfraRow {
    pub infra_id: u128,
    pub name: String,
    pub kind: String,
    pub application_id: u128,
}

/// A dependency row: the source application, the target's name, the kind.
pub struct DependencyRow {
    pub source_app_id: u128,
    pub target_name: String,
    pub kind: Option<String>,
}

/// The assembly state after adding application rows: one `application` node
/// each (typed by the application type) and the name-to-id index.
pub open spec fn after_apps(st: GraphState, apps: Seq<AppRow>) -> GraphState
    decreases apps.len(),
{
    if apps.len() == 0 {
        st
    } else {
        let s = after_apps(st, apps.drop_last());
        let a = apps.last();
        (
            with_node(s.0, uuid_text(a.id), a.name@, "application"@, opt_view(a.app_type)),
            s.1,
            crate::keyed::insert_sorted(s.2, a.name@, a.id),
        )
    }
}

/// The assembly state after adding infrastructure rows: for a row whose
/// application is a node, an `infrastructure` node `infra:<id>` and an edge
/// from the application to it, of the infrastructure's kind.
pub open spec fn after_infra(st: GraphState, rows: Seq<InfraRow>) -> GraphState
    decreases rows.len(),
{
    if rows.len() == 0 {
        st
    } else {
        let s = after_infra(st, rows.drop_last());
        let r = rows.last();
        let app = uuid_text(r.application_id);
        if !has_id(s.0, app) {
            s
        } else {
            let n = "infra:"@ + uuid_text(r.infra_id);
            (with_node(s.0, n, r.name@, "infrastructure"@, Some(r.kind@)), s.1.push(edge_of(app, n, r.kind@)), s.2)
        }
    }
}

/// The assembly state after adding dependency rows: for a row whose source
/// is a node, an edge (of the row's kind, default `depends`) to the
/// application of that name, or else to an `external` node `ext:<name>`.
pub open spec fn after_deps(st: GraphState, rows: Seq<DependencyRow>) -> GraphState
    decreases rows.len(),
{
    if rows.len() == 0 {
        st
    } else {
        let s = after_deps(st, rows.drop_last());
        let r = rows.last();
        let src = uuid_text(r.source_app_id);
        let kind = match r.kind {
            Some(k) => k@,
            None => "depends"@,
        };
        if !has_id(s.0, src) {
            s
        } else {
            match lookup(s.2, r.target_name@) {
                Some(id) => (s.0, s.1.push(edge_of(src, uuid_text(id), kind)), s.2),
                None => {
                    let ext = "ext:"@ + r.target_name@;
                    (with_node(s.0, ext, r.target_name@, "external"@, None), s.1.push(edge_of(src, ext, kind)), s.2)
                },
            }
        }
    }
}

impl GraphBuilder {
    /// The builder's assembly state.
    pub open spec fn state(&self) -> GraphState {
        (self.node_list(), self.edge_list(), self.app_ids())
    }

    /// Adds an `application` node per row and indexes it by name.
    pub fn add_applications(&mut self, apps: &Vec<AppRow>)
        ensures
            final(self).state() == after_apps(old(self).state(), apps@),
    {
        let ghost st = self.state();
        let mut i: usize = 0;
        while i < apps.len()
            invariant
                i <= apps@.len(),
                self.state() == after_apps(st, apps@.take(i as int)),
            decreases apps.len() - i,
        {
            let a = &apps[i];
            assert(apps@.take(i + 1).drop_last() == apps@.take(i as int));
            self.name_app(a.name.clone(), a.id);
            let sub = match &a.app_type {
                Some(t) => Some(t.clone()),
                None => None,
            };
            self.add_node(uuid_string(a.id), a.name.clone(), "application", sub);
            proof {
                reveal_strlit("application");
            }
            i = i + 1;
        }
        assert(apps@.take(apps@.len() as int) == apps@);
    }

    /// Adds infrastructure nodes and use edges for rows whose application is
    /// a node.
    pub fn add_infrastructure(&mut self, rows: &Vec<InfraRow>)
        ensures
            final(self).state() == after_infra(old(self).state(), rows@),
    {
        let ghost st = self.state();
        let mut i: usize = 0;
        while i < rows.len()
            invariant
                i <= rows@.len(),
                self.state() == after_infra(st, rows@.take(i as int)),
            decreases rows.len() - i,
        {
            let r = &rows[i];
            assert(rows@.take(i + 1).drop_last() == rows@.take(i as int));
            let app = uuid_string(r.application_id);
            if self.has_node(app.as_str()) {
                let mut n: Vec<char> = Vec::new();
                push_str(&mut n, "infra:");
                push_str(&mut n, uuid_string(r.infra_id).as_str());
                let node = string_of(&n);
                self.add_node(node.clone(), r.name.clone(), "infrastructure", Some(r.kind.clone()));
                self.add_edge(app, node, r.kind.as_str());
                proof {
                    reveal_strlit("infrastructure");
                }
            }
            i = i + 1;
        }
        assert(rows@.take(rows@.len() as int) == rows@);
    }

    /// Adds dependency edges for rows whose source is a node: to the named
    /// application, or to an external node.
    pub fn add_dependencies(&mut self, rows: &Vec<DependencyRow>)
        ensures
            final(self).state() == after_deps(old(self).state(), rows@),
    {
        let ghost st = self.state();
        let mut i: usize = 0;
        while i < rows.len()
            invariant
                i <= rows@.len(),
                self.state() == after_deps(st, rows@.take(i as int)),
            decreases rows.len() - i,
        {
            let r = &rows[i];
            assert(rows@.take(i + 1).drop_last() == rows@.take(i as int));
            let src = uuid_string(r.source_app_id);
            if self.has_node(src.as_str()) {
                proof {
                    reveal_strlit("depends");
                    reveal_strlit("external");
                }
                let kind = match &r.kind {
                    Some(k) => k.clone(),
                    None => String::from_str("depends"),
                };
                match self.app_id(r.target_name.as_str()) {
                    Some(id) => {
                        self.add_edge(src, uuid_string(id), kind.as_str());
                    },
                    None => {
                        let mut e: Vec<char> = Vec::new();
                        push_str(&mut e, "ext:");
                        push_str(&mut e, r.target_name.as_str());
                        let ext = string_of(&e);
                        self.add_node(ext.clone(), r.target_name.clone(), "external", None);
                        self.add_edge(src, ext, kind.as_str());
                    },
                }
            }
            i = i + 1;
        }
        assert(rows@.take(rows@.len() as int) == rows@);
    }
}

/// The edge touches node `c`.
pub open spec fn touches(e: EdgeV, c: Seq<char>) -> bool {
    e.1 == c || e.2 == c
}

/// The edges touching the centre.
pub open spec fn focus_edges(edges: Seq<EdgeV>, c: Seq<char>) -> Seq<EdgeV> {
    edges.filter(|e: EdgeV| touches(e, c))
}

/// A node stays in focus: it is the centre or an endpoint of a kept edge.
pub open spec fn in_focus(kept: Seq<EdgeV>, c: Seq<char>, id: Seq<char>) -> bool {
    id == c || exists|i: int| 0 <= i < kept.len() && ((#[trigger] kept[i]).1 == id || kept[i].2 == id)
}

/// The nodes in focus, in order.
pub open spec fn focus_nodes(nodes: Seq<NodeV>, edges: Seq<EdgeV>, c: Seq<char>) -> Seq<NodeV> {
    nodes.filter(|n: NodeV| in_focus(focus_edges(edges, c), c, n.0))
}

/// The nodes and edges of a graph.
pub struct Graph {
    pub nodes: Vec<GraphNode>,
    pub edges: Vec<GraphEdge>,
}

/// Restricts the graph to the centre node and its direct neighbours when a
/// centre is set (the edges touching it, the nodes at their ends and the
/// centre itself); without a centre, the whole graph.
pub fn focus(builder: GraphBuilder, center: Option<u128>) -> (g: Graph)
    ensures
        match center {
            None => nodes_view(g.nodes@) == builder.node_list() && edges_view(g.edges@) == builder.edge_list(),
            Some(c) => nodes_view(g.nodes@) == focus_nodes(builder.node_list(), builder.edge_list(), uuid_text(c))
                && edges_view(g.edges@) == focus_edges(builder.edge_list(), uuid_text(c)),
        },
{
    let ghost nodes0 = builder.node_list();
    let ghost edges0 = builder.edge_list();
    let GraphBuilder { nodes, edges, node_ids: _, app_names: _ } = builder;
    assert(nodes_view(nodes@) == nodes0);
    assert(edges_view(edges@) == edges0);
    let c = match center {
        None => {
            return Graph { nodes, edges };
        },
        Some(c) => c,
    };
    let cs = uuid_string(c);
    let ghost cv = uuid_text(c);
    let ghost te = |e: EdgeV| touches(e, cv);
    let mut keep: KeyedList<()> = KeyedList::new();
    keep.insert(cs.clone(), ());
    proof {
        lemma_lookup_insert(Seq::<(Seq<char>, ())>::empty(), cv, ());
        reveal(Seq::filter);
        assert(edges0.take(0).filter(te) == Seq::<EdgeV>::empty());
        assert forall|k: Seq<char>| (lookup(keep@, k) is Some) == in_focus(edges0.take(0).filter(te), cv, k) by {
            if k != cv {
                assert(lookup(Seq::<(Seq<char>, ())>::empty(), k) is None);
            }
        }
    }
    let mut kept: Vec<GraphEdge> = Vec::new();
    let mut i: usize = 0;
    while i < edges.len()
        invariant
            i <= edges@.len(),
            edges_view(edges@) == edges0,
            cs@ == cv,
            te == (|e: EdgeV| touches(e, cv)),
            edges_view(kept@) == edges0.take(i as int).filter(te),
            forall|k: Seq<char>| (lookup(keep@, k) is Some) == in_focus(edges0.take(i as int).filter(te), cv, k),
        decreases edges.len() - i,
    {
        let e = &edges[i];
        assert(edges0[i as int] == edge_view(*e));
        assert(edges0.take(i + 1) == edges0.take(i as int).push(edges0[i as int]));
        proof {
            edges0.take(i as int).lemma_filter_push(edges0[i as int], te);
        }
        let hit = str_eq(e.source.as_str(), cs.as_str()) || str_eq(e.target.as_str(), cs.as_str());
        assert(te(edges0[i as int]) == hit);
        if hit {
            let ghost k0 = keep@;
            let ghost prior = edges0.take(i as int).filter(te);
            let ghost now = prior.push(edge_view(*e));
            keep.insert(e.source.clone(), ());
            let ghost k1 = keep@;
            keep.insert(e.target.clone(), ());
            proof {
                lemma_lookup_insert(k0, e.source@, ());
                lemma_lookup_insert(k1, e.target@, ());
                assert forall|k: Seq<char>| (lookup(keep@, k) is Some) == in_focus(now, cv, k) by {
                    if in_focus(prior, cv, k) && k != cv {
                        let j = choose|j: int| 0 <= j < prior.len() && ((#[trigger] prior[j]).1 == k || prior[j].2 == k);
                        assert(now[j] == prior[j]);
                    }
                    if in_focus(now, cv, k) && k != cv && k != e.source@ && k != e.target@ {
                        let j = choose|j: int| 0 <= j < now.len() && ((#[trigger] now[j]).1 == k || now[j].2 == k);
                        assert(j < prior.len());
                        assert(prior[j] == now[j]);
                    }
                    if k == e.source@ || k == e.target@ {
                        assert(now[prior.len() as int] == edge_view(*e));
                    }
                }
            }
            let ghost before = kept@;
            kept.push(GraphEdge {
                id: e.id.clone(),
                source: e.source.clone(),
                target: e.target.clone(),
                kind: e.kind.clone(),
            });
            assert(edges_view(kept@) == edges_view(before).push(edge_view(*e)));
        }
        i = i + 1;
    }
    assert(edges0.take(edges@.len() as int) == edges0);
    let ghost fe = focus_edges(edges0, cv);
    let ghost tn = |n: NodeV| in_focus(fe, cv, n.0);
    let mut out: Vec<GraphNode> = Vec::new();
    let mut rest = nodes;
    let ghost mut k: int = 0;
    while rest.len() > 0
        invariant
            0 <= k <= nodes0.len(),
            nodes_view(rest@) == nodes0.skip(k),
            tn == (|n: NodeV| in_focus(fe, cv, n.0)),
            forall|x: Seq<char>| (lookup(keep@, x) is Some) == in_focus(fe, cv, x),
            nodes_view(out@) == nodes0.take(k).filter(tn),
        decreases rest.len(),
    {
        assert(nodes_view(rest@).len() == rest@.len());
        let ghost before_rest = rest@;
        let n = rest.remove(0);
        assert(nodes_view(rest@) =~= nodes_view(before_rest).drop_first());
        assert(nodes0.skip(k)[0] == node_view(n));
        assert(nodes0[k] == node_view(n));
        assert(nodes0.take(k + 1) == nodes0.take(k).push(nodes0[k]));
        proof {
            nodes0.take(k).lemma_filter_push(nodes0[k], tn);
        }
        let hit = keep.get(n.id.as_str()).is_some();
        assert(tn(nodes0[k]) == hit);
        if hit {
            let ghost before = out@;
            out.push(n);
            assert(nodes_view(out@) == nodes_view(before).push(nodes0[k]));
        }
        assert(nodes0.skip(k).drop_first() =~= nodes0.skip(k + 1));
        proof {
            k = k + 1;
        }
    }
    assert(nodes0.take(k) == nodes0);
    Graph { nodes: out, edges: kept }
}

/// A graph with whether the application list was cut at the limit, and how
/// many applications there are.
pub struct GraphResult {
    pub graph: Graph,
    pub truncated: bool,
    pub total_applications: i64,
}

/// Finishes an assembly: focuses it per the scope and reports whether the
/// applications were truncated (more exist than the limit).
pub fn finish(builder: GraphBuilder, scope: &GraphScope, total_applications: i64) -> (r: GraphResult)
    ensures
        r.truncated == (total_applications > scope.limit),
        r.total_applications == total_applications,
        match scope.center {
            None => nodes_view(r.graph.nodes@) == builder.node_list() && edges_view(r.graph.edges@)
                == builder.edge_list(),
            Some(c) => nodes_view(r.graph.nodes@) == focus_nodes(builder.node_list(), builder.edge_list(), uuid_text(c))
                && edges_view(r.graph.edges@) == focus_edges(builder.edge_list(), uuid_text(c)),
        },
{
    let graph = focus(builder, scope.center);
    GraphResult { graph, truncated: total_applications > scope.limit, total_applications }
}

/// Focus keeps only what touches the centre: every kept edge has the centre
/// as an endpoint, and every kept node is the centre or an endpoint of a kept
/// edge.
pub proof fn lemma_focus_neighbourhood(nodes: Seq<NodeV>, edges: Seq<EdgeV>, c: Seq<char>)
    ensures
        forall|i: int| 0 <= i < focus_edges(edges, c).len() ==> touches(#[trigger] focus_edges(edges, c)[i], c),
        forall|i: int| 0 <= i < focus_nodes(nodes, edges, c).len() ==> in_focus(
            focus_edges(edges, c),
            c,
            (#[trigger] focus_nodes(nodes, edges, c)[i]).0,
        ),
{
    let te = |e: EdgeV| touches(e, c);
    let tn = |n: NodeV| in_focus(focus_edges(edges, c), c, n.0);
    assert forall|i: int| 0 <= i < focus_edges(edges, c).len() implies touches(#[trigger] focus_edges(edges, c)[i], c) by {
        edges.lemma_filter_pred(te, i);
    }
    assert forall|i: int| 0 <= i < focus_nodes(nodes, edges, c).len() implies in_focus(
        focus_edges(edges, c),
        c,
        (#[trigger] focus_nodes(nodes, edges, c)[i]).0,
    ) by {
        nodes.lemma_filter_pred(tn, i);
    }
}

} // verus!
