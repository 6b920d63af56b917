//! Path stitching: the combination rule that derives new paths from an entity
//! and its friends.
use vstd::prelude::*;
use crate::entity::{
    entity_views, view_of, Edge, EdgeView, Entity, EntityView, GraphPath, Node, NodeView,
    PathView,
};

verus! {

/// The run of edges that an entity contributes to a path: an edge alone, the
/// edges of a path, and nothing for a node or an input file.
pub open spec fn segment(entity: EntityView) -> Seq<EdgeView> {
    match entity {
        EntityView::Edge(e) => seq![e],
        EntityView::GraphPath(p) => p.edges,
        _ => Seq::empty(),
    }
}

/// Whether the segment of `entity` ends in `node`.
pub open spec fn ends_at(entity: EntityView, node: NodeView) -> bool {
    segment(entity).len() > 0 && segment(entity).last().to == node
}

/// Whether the segment of `entity` starts from `node`.
pub open spec fn starts_at(entity: EntityView, node: NodeView) -> bool {
    segment(entity).len() > 0 && segment(entity).first().from == node
}

/// The path that runs over the segment of `left` and then that of `right`.
pub open spec fn joined(left: EntityView, right: EntityView) -> EntityView {
    EntityView::GraphPath(PathView { edges: segment(left) + segment(right) })
}

/// `left` and `right` joined through `node`: `left` has to end there, `right`
/// has to start there, and at most one of the two may be a path. Two edges
/// give a two-edge path; a path and an edge give the path made one edge
/// longer at that end.
pub open spec fn join_at(node: NodeView, left: EntityView, right: EntityView) -> Option<
    EntityView,
> {
    if ends_at(left, node) && starts_at(right, node) && !(left is GraphPath && right is GraphPath) {
        Some(joined(left, right))
    } else {
        None
    }
}

/// `left` joined through `node` with a given right-hand side.
pub open spec fn join_after(node: NodeView, left: EntityView) -> spec_fn(EntityView) -> Option<
    EntityView,
> {
    |right: EntityView| join_at(node, left, right)
}

/// A given left-hand side joined through `node` with each of `friends`.
pub open spec fn joins_through(node: NodeView, friends: Seq<EntityView>) -> spec_fn(
    EntityView,
) -> Seq<EntityView> {
    |left: EntityView| friends.filter_map(join_after(node, left))
}

/// What a node derives: every friend that ends in the node joined with every
/// friend that starts from it, by the position of the first and then of the
/// second.
pub open spec fn node_search(node: NodeView, friends: Seq<EntityView>) -> Seq<EntityView> {
    friends.map_values(joins_through(node, friends)).flatten()
}

/// The one element of `found`, or nothing.
pub open spec fn listed(found: Option<EntityView>) -> Seq<EntityView> {
    match found {
        Some(entity) => seq![entity],
        None => Seq::empty(),
    }
}

/// What an edge derives with one friend: the friend and then the edge, where
/// the friend ends at the edge's start; the edge and then the friend, where
/// the friend starts from the edge's end.
pub open spec fn around(edge: EdgeView) -> spec_fn(EntityView) -> Seq<EntityView> {
    |friend: EntityView|
        listed(join_at(edge.from, friend, EntityView::Edge(edge))) + listed(
            join_at(edge.to, EntityView::Edge(edge), friend),
        )
}

/// What an edge derives: what it derives with each friend, by the friend's
/// position.
pub open spec fn edge_search(edge: EdgeView, friends: Seq<EntityView>) -> Seq<EntityView> {
    friends.map_values(around(edge)).flatten()
}

/// What `subject` derives from `friends`. Only nodes and edges derive
/// anything; all that is derived is paths.
pub open spec fn derived(subject: EntityView, friends: Seq<EntityView>) -> Seq<EntityView> {
    match subject {
        EntityView::Node(n) => node_search(n, friends),
        EntityView::Edge(e) => edge_search(e, friends),
        _ => Seq::empty(),
    }
}

/// Whether every entity of the sequence is a path that is a walk.
pub open spec fn all_walks(entities: Seq<EntityView>) -> bool {
    forall|i: int|
        0 <= i < entities.len() ==> (#[trigger] entities[i]) is GraphPath
            && entities[i].well_formed()
}

/// Whether every entity of the sequence is well formed.
pub open spec fn all_well_formed(entities: Seq<EntityView>) -> bool {
    forall|i: int| 0 <= i < entities.len() ==> (#[trigger] entities[i]).well_formed()
}

/// Whatever is derived is a path.
pub proof fn lemma_derived_are_paths(subject: EntityView, friends: Seq<EntityView>)
    ensures
        forall|i: int|
            0 <= i < derived(subject, friends).len() ==> (#[trigger] derived(
                subject,
                friends,
            )[i]) is GraphPath,
{
    let out = derived(subject, friends);
    assert forall|i: int| 0 <= i < out.len() implies (#[trigger] out[i]) is GraphPath by {
        let x = out[i];
        match subject {
            EntityView::Node(n) => {
                let parts = friends.map_values(joins_through(n, friends));
                lemma_flatten_member(parts, x);
                let a = choose|a: int| 0 <= a < parts.len() && (#[trigger] parts[a]).contains(x);
                let left = friends[a];
                friends.lemma_filter_map_contains(join_after(n, left), x);
            },
            EntityView::Edge(e) => {
                let parts = friends.map_values(around(e));
                lemma_flatten_member(parts, x);
            },
            _ => {},
        }
    }
}

/// A join of two well-formed entities is a walk.
pub proof fn lemma_join_is_walk(node: NodeView, left: EntityView, right: EntityView)
    requires
        left.well_formed(),
        right.well_formed(),
        join_at(node, left, right) is Some,
    ensures
        join_at(node, left, right)->0 is GraphPath,
        join_at(node, left, right)->0.well_formed(),
{
    let l = segment(left);
    let r = segment(right);
    let edges = l + r;
    assert forall|i: int| 0 <= i < edges.len() - 1 implies (#[trigger] edges[i]).to == edges[i
        + 1].from by {}
}

/// An element of a flattened sequence lies in one of its parts.
pub proof fn lemma_flatten_member<A>(parts: Seq<Seq<A>>, x: A)
    requires
        parts.flatten().contains(x),
    ensures
        exists|i: int| 0 <= i < parts.len() && (#[trigger] parts[i]).contains(x),
    decreases parts.len(),
{
    if parts.len() > 0 {
        let head = parts.first();
        let tail = parts.drop_first();
        let k = choose|k: int| 0 <= k < parts.flatten().len() && parts.flatten()[k] == x;
        if k >= head.len() {
            lemma_flatten_member(tail, x);
        }
    }
}

/// Path well-formedness: whatever is derived from well-formed friends is a
/// path with at least one edge, each edge ending where the next one starts.
pub proof fn lemma_derived_are_walks(subject: EntityView, friends: Seq<EntityView>)
    requires
        all_well_formed(friends),
    ensures
        all_walks(derived(subject, friends)),
{
    let out = derived(subject, friends);
    assert forall|i: int| 0 <= i < out.len() implies (#[trigger] out[i]) is GraphPath
        && out[i].well_formed() by {
        let x = out[i];
        match subject {
            EntityView::Node(n) => {
                let parts = friends.map_values(joins_through(n, friends));
                lemma_flatten_member(parts, x);
                let a = choose|a: int| 0 <= a < parts.len() && (#[trigger] parts[a]).contains(x);
                let left = friends[a];
                friends.lemma_filter_map_contains(join_after(n, left), x);
                let right = choose|right: EntityView| #[trigger]
                    friends.contains(right) && join_after(n, left)(right) == Some(x);
                lemma_join_is_walk(n, left, right);
            },
            EntityView::Edge(e) => {
                let parts = friends.map_values(around(e));
                lemma_flatten_member(parts, x);
                let a = choose|a: int| 0 <= a < parts.len() && (#[trigger] parts[a]).contains(x);
                let friend = friends[a];
                let before = join_at(e.from, friend, EntityView::Edge(e));
                let k = choose|k: int| 0 <= k < parts[a].len() && parts[a][k] == x;
                if k < listed(before).len() {
                    lemma_join_is_walk(e.from, friend, EntityView::Edge(e));
                } else {
                    lemma_join_is_walk(e.to, EntityView::Edge(e), friend);
                }
            },
            _ => {},
        }
    }
}

/// Computes [`join_at`].
pub fn join(node: &Node, left: &Entity, right: &Entity) -> (path: Option<Entity>)
    ensures
        view_of(path) == join_at(node@, left@, right@),
        path matches Some(joined) ==> joined@ is GraphPath && joined@.well_formed(),
{
    match (left, right) {
        (Entity::Edge(a), Entity::Edge(b)) => {
            if a.to.same(node) && b.from.same(node) {
                match GraphPath::pair(a, b) {
                    Some(path) => {
                        assert(path@.edges =~= segment(left@) + segment(right@));
                        proof {
                            use_type_invariant(&path);
                        }
                        Some(Entity::GraphPath(path))
                    },
                    None => None,
                }
            } else {
                None
            }
        },
        (Entity::GraphPath(p), Entity::Edge(b)) => {
            if p.target().same(node) && b.from.same(node) {
                match p.extended(b) {
                    Some(path) => {
                        assert(path@.edges =~= segment(left@) + segment(right@));
                        proof {
                            use_type_invariant(&path);
                        }
                        Some(Entity::GraphPath(path))
                    },
                    None => None,
                }
            } else {
                None
            }
        },
        (Entity::Edge(a), Entity::GraphPath(p)) => {
            if a.to.same(node) && p.source().same(node) {
                match p.preceded(a) {
                    Some(path) => {
                        proof {
                            use_type_invariant(&path);
                        }
                        Some(Entity::GraphPath(path))
                    },
                    None => None,
                }
            } else {
                None
            }
        },
        (Entity::GraphPath(p), Entity::GraphPath(q)) => {
            None
        },
        _ => {
            None
        },
    }
}

/// Computes [`node_search`].
pub fn search_node(node: &Node, friends: &Vec<Entity>) -> (found: Vec<Entity>)
    ensures
        entity_views(found@) == node_search(node@, entity_views(friends@)),
        all_walks(entity_views(found@)),
{
    let ghost all = entity_views(friends@);
    let ghost each = joins_through(node@, all);
    let mut found: Vec<Entity> = Vec::new();
    let mut i: usize = 0;
    while i < friends.len()
        invariant
            i <= friends.len(),
            all == entity_views(friends@),
            each == joins_through(node@, all),
            entity_views(found@) == all.take(i as int).map_values(each).flatten(),
            all_walks(entity_views(found@)),
        decreases friends.len() - i,
    {
        let ghost base = entity_views(found@);
        let ghost pick = join_after(node@, all[i as int]);
        let mut j: usize = 0;
        while j < friends.len()
            invariant
                j <= friends.len(),
                i < friends.len(),
                all == entity_views(friends@),
                pick == join_after(node@, all[i as int]),
                entity_views(found@) == base + all.take(j as int).filter_map(pick),
                all_walks(entity_views(found@)),
            decreases friends.len() - j,
        {
            proof {
                all.lemma_filter_map_take_succ(pick, j as int);
            }
            match join(node, &friends[i], &friends[j]) {
                Some(path) => {
                    let ghost before = found@;
                    found.push(path);
                    assert(entity_views(found@) =~= entity_views(before).push(path@));
                },
                None => {},
            }
            j += 1;
        }
        proof {
            assert(all.take(j as int) == all);
            let parts = all.take(i as int).map_values(each);
            assert(all.take(i + 1).map_values(each) =~= parts.push(each(all[i as int])));
            parts.lemma_flatten_push(each(all[i as int]));
        }
        i += 1;
    }
    assert(all.take(i as int) == all);
    found
}

/// Computes [`edge_search`].
pub fn search_edge(edge: &Edge, friends: &Vec<Entity>) -> (found: Vec<Entity>)
    ensures
        entity_views(found@) == edge_search(edge@, entity_views(friends@)),
        all_walks(entity_views(found@)),
{
    let ghost all = entity_views(friends@);
    let ghost each = around(edge@);
    let own = Entity::Edge(edge.clone());
    let mut found: Vec<Entity> = Vec::new();
    let mut i: usize = 0;
    while i < friends.len()
        invariant
            i <= friends.len(),
            all == entity_views(friends@),
            each == around(edge@),
            own@ == EntityView::Edge(edge@),
            entity_views(found@) == all.take(i as int).map_values(each).flatten(),
            all_walks(entity_views(found@)),
        decreases friends.len() - i,
    {
        let ghost base = entity_views(found@);
        match join(&edge.from, &friends[i], &own) {
            Some(path) => {
                found.push(path);
            },
            None => {},
        }
        match join(&edge.to, &own, &friends[i]) {
            Some(path) => {
                found.push(path);
            },
            None => {},
        }
        proof {
            assert(entity_views(found@) =~= base + each(all[i as int]));
            let parts = all.take(i as int).map_values(each);
            assert(all.take(i + 1).map_values(each) =~= parts.push(each(all[i as int])));
            parts.lemma_flatten_push(each(all[i as int]));
        }
        i += 1;
    }
    assert(all.take(i as int) == all);
    found
}

/// Computes what `subject` derives from `friends`: see [`derived`].
pub fn search(subject: &Entity, friends: &Vec<Entity>) -> (found: Vec<Entity>)
    ensures
        entity_views(found@) == derived(subject@, entity_views(friends@)),
        all_walks(entity_views(found@)),
{
    match subject {
        Entity::Node(node) => search_node(node, friends),
        Entity::Edge(edge) => search_edge(edge, friends),
        _ => {
            let found: Vec<Entity> = Vec::new();
            found
        },
    }
}

} // verus!
