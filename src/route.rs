//! Route nodes: each is registered with the next identifier of a counter and
//! keeps, in order, those of its child descriptors that are routes.

use leptos_router::{Method, SsrMode};
use vstd::prelude::*;

verus! {

/// leptos_router's server-side rendering mode, carried through unread.
#[verifier::external_type_specification]
#[verifier::external_body]
pub struct ExSsrMode(SsrMode);

/// leptos_router's HTTP method, carried through unread.
#[verifier::external_type_specification]
#[verifier::external_body]
pub struct ExMethod(Method);

/// A registered route: its identifier, path, nested routes, the view it
/// shows when matched, its rendering mode and the methods it handles.
#[verifier::reject_recursive_types(V)]
pub struct RouteNode<V> {
    pub id: usize,
    pub path: String,
    pub children: Vec<RouteNode<V>>,
    pub view: V,
    pub ssr_mode: SsrMode,
    pub methods: &'static [Method],
}

/// One item of a route's children: a route node, or any other content.
#[verifier::reject_recursive_types(V)]
pub enum Child<V> {
    Route(RouteNode<V>),
    Other,
}

/// The route nodes among `s`, in their order in `s`.
pub open spec fn routes_of<V>(s: Seq<Child<V>>) -> Seq<RouteNode<V>>
    decreases s.len(),
{
    if s.len() == 0 {
        Seq::empty()
    } else {
        let rest = routes_of(s.drop_first());
        match s[0] {
            Child::Route(node) => seq![node] + rest,
            Child::Other => rest,
        }
    }
}

/// Keeps the route nodes among `children`, in order; other content is dropped.
pub fn collect_routes<V>(children: Vec<Child<V>>) -> (r: Vec<RouteNode<V>>)
    ensures
        r@ == routes_of(children@),
{
    let mut rest = children;
    let mut routes: Vec<RouteNode<V>> = Vec::new();
    while rest.len() > 0
        invariant
            routes@ + routes_of(rest@) == routes_of(children@),
        decreases rest.len(),
    {
        let ghost before = rest@;
        let child = rest.remove(0);
        assert(rest@ == before.drop_first());
        match child {
            Child::Route(node) => {
                assert(routes@.push(node) + routes_of(rest@) == routes@ + (seq![node] + routes_of(
                    rest@,
                )));
                routes.push(node);
            },
            Child::Other => {},
        }
    }
    assert(routes_of(rest@) == Seq::<RouteNode<V>>::empty());
    assert(routes@ + Seq::<RouteNode<V>>::empty() == routes@);
    routes
}

/// The counter that hands out route identifiers: it starts at zero and each
/// route built takes the next value, so identifiers are never reused.
pub struct RouteIds {
    last: usize,
}

impl RouteIds {
    /// The last identifier handed out; zero before the first.
    pub closed spec fn last_issued(&self) -> nat {
        self.last as nat
    }

    /// A counter that has handed out nothing.
    pub fn new() -> (r: RouteIds)
        ensures
            r.last_issued() == 0,
    {
        RouteIds { last: 0 }
    }

    /// The last identifier handed out; zero before the first.
    pub fn last(&self) -> (r: usize)
        ensures
            r == self.last_issued(),
    {
        self.last
    }

    /// Whether another identifier can be handed out.
    pub fn can_issue(&self) -> (r: bool)
        ensures
            r == (self.last_issued() < usize::MAX),
    {
        self.last < usize::MAX
    }

    /// Hands out the next identifier.
    pub fn next_id(&mut self) -> (r: usize)
        requires
            old(self).last_issued() < usize::MAX,
        ensures
            r == old(self).last_issued() + 1,
            final(self).last_issued() == r,
    {
        self.last = self.last + 1;
        self.last
    }
}

/// How `node` was built from a counter that stood at `before` and was left at
/// `after`: it took the next identifier.
pub open spec fn took_next_id<V>(before: RouteIds, node: RouteNode<V>, after: RouteIds) -> bool {
    &&& node.id == before.last_issued() + 1
    &&& after.last_issued() == before.last_issued() + 1
}

/// Builds a route node. Its children are the route nodes that `children`
/// yields, in order (none where `children` is absent), and its identifier is
/// the next one of `ids`.
pub fn define_route<V>(
    ids: &mut RouteIds,
    children: Option<Vec<Child<V>>>,
    path: String,
    view: V,
    ssr_mode: SsrMode,
    methods: &'static [Method],
) -> (r: RouteNode<V>)
    requires
        old(ids).last_issued() < usize::MAX,
    ensures
        took_next_id(*old(ids), r, *final(ids)),
        r.path@ == path@,
        r.view == view,
        r.ssr_mode == ssr_mode,
        r.methods == methods,
        r.children@ == match children {
            Some(c) => routes_of(c@),
            None => Seq::empty(),
        },
{
    let children = match children {
        Some(c) => collect_routes(c),
        None => Vec::new(),
    };
    let id = ids.next_id();
    RouteNode { id, path, children, view, ssr_mode, methods }
}

/// Route nodes built one after another from one counter have distinct
/// identifiers, increasing in the order in which the nodes were built.
pub proof fn lemma_ids_unique_in_build_order<V>(counters: Seq<RouteIds>, nodes: Seq<RouteNode<V>>)
    requires
        nodes.len() >= 1,
        counters.len() == nodes.len() + 1,
        forall|k: int|
            0 <= k < nodes.len() ==> #[trigger] took_next_id(counters[k], nodes[k], counters[k + 1]),
    ensures
        forall|i: int, j: int| 0 <= i < j < nodes.len() ==> nodes[i].id < nodes[j].id,
        forall|i: int, j: int| 0 <= i < nodes.len() && 0 <= j < nodes.len() && i != j
            ==> nodes[i].id != nodes[j].id,
{
    assert forall|k: int| 0 <= k < nodes.len() implies nodes[k].id == counters[0].last_issued() + k + 1
        && counters[k + 1].last_issued() == counters[0].last_issued() + k + 1 by {
        lemma_id_after_steps(counters, nodes, k);
    }
}

proof fn lemma_id_after_steps<V>(counters: Seq<RouteIds>, nodes: Seq<RouteNode<V>>, k: int)
    requires
        0 <= k < nodes.len(),
        counters.len() == nodes.len() + 1,
        forall|m: int|
            0 <= m < nodes.len() ==> #[trigger] took_next_id(counters[m], nodes[m], counters[m + 1]),
    ensures
        nodes[k].id == counters[0].last_issued() + k + 1,
        counters[k + 1].last_issued() == counters[0].last_issued() + k + 1,
    decreases k,
{
    assert(took_next_id(counters[k], nodes[k], counters[k + 1]));
    if k > 0 {
        lemma_id_after_steps(counters, nodes, k - 1);
    }
}

} // verus!
