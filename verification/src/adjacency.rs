//! Friends: the stored edges and paths that are structurally adjacent to an
//! entity, as far as the database can realise the adjacency.
use vstd::prelude::*;
use crate::database::{Database, DatabaseView};
use crate::entity::{
    entity_views, Edge, EdgeView, Entity, EntityKind, EntityView, GraphPath, PathView,
};
use crate::table::{key_order, values_in_key_order};

verus! {

/// The stored edges, by increasing content hash.
pub open spec fn edges_in_order(db: DatabaseView) -> Seq<EdgeView> {
    values_in_key_order(db.edges)
}

/// The stored paths, by increasing content hash.
pub open spec fn paths_in_order(db: DatabaseView) -> Seq<PathView> {
    values_in_key_order(db.paths)
}

/// Whether the stored edge `edge` is a friend of `subject`.
///
/// - Of a node: the node is one endpoint and the database holds the other.
/// - Of an edge: the two share the node where one ends and the other starts,
///   and the database holds both endpoints of `edge`.
/// - Of a path: `edge` is one of the path's edges.
/// - An input file has no friends.
pub open spec fn edge_befriends(db: DatabaseView, subject: EntityView, edge: EdgeView) -> bool {
    match subject {
        EntityView::Node(n) => (edge.from == n && db.has_node(edge.to)) || (edge.to == n
            && db.has_node(edge.from)),
        EntityView::Edge(e) => (edge.to == e.from || edge.from == e.to) && db.has_node(edge.from)
            && db.has_node(edge.to),
        EntityView::GraphPath(p) => p.edges.contains(edge),
        EntityView::InputFile(_) => false,
    }
}

/// Whether the stored path `path` is a friend of `subject`: it starts or ends
/// at the node, or it ends where the edge starts or starts where the edge
/// ends. Paths and input files have no paths for friends.
pub open spec fn path_befriends(subject: EntityView, path: PathView) -> bool {
    match subject {
        EntityView::Node(n) => path.source() == n || path.target() == n,
        EntityView::Edge(e) => path.target() == e.from || path.source() == e.to,
        _ => false,
    }
}

/// Keeps an edge that is a friend of `subject`, as an entity.
pub open spec fn edge_friend(db: DatabaseView, subject: EntityView) -> spec_fn(EdgeView) -> Option<
    EntityView,
> {
    |edge: EdgeView|
        if edge_befriends(db, subject, edge) {
            Some(EntityView::Edge(edge))
        } else {
            None
        }
}

/// Keeps a path that is a friend of `subject`, as an entity.
pub open spec fn path_friend(subject: EntityView) -> spec_fn(PathView) -> Option<EntityView> {
    |path: PathView|
        if path_befriends(subject, path) {
            Some(EntityView::GraphPath(path))
        } else {
            None
        }
}

/// The friends of `subject` in `db`: the friendly edges by increasing content
/// hash, then the friendly paths by increasing content hash.
pub open spec fn friends_of(db: DatabaseView, subject: EntityView) -> Seq<EntityView> {
    edges_in_order(db).filter_map(edge_friend(db, subject)) + paths_in_order(db).filter_map(
        path_friend(subject),
    )
}

/// Decides [`edge_befriends`].
pub fn check_edge(db: &Database, subject: &Entity, edge: &Edge) -> (friend: bool)
    ensures
        friend == edge_befriends(db@, subject@, edge@),
{
    match subject {
        Entity::Node(n) => (edge.from.same(n) && db.has_node(&edge.to)) || (edge.to.same(n)
            && db.has_node(&edge.from)),
        Entity::Edge(e) => (edge.to.same(&e.from) || edge.from.same(&e.to)) && db.has_node(
            &edge.from,
        ) && db.has_node(&edge.to),
        Entity::GraphPath(p) => p.has_edge(edge),
        Entity::InputFile(_) => false,
    }
}

/// Decides [`path_befriends`].
pub fn check_path(subject: &Entity, path: &GraphPath) -> (friend: bool)
    ensures
        friend == path_befriends(subject@, path@),
{
    match subject {
        Entity::Node(n) => path.source().same(n) || path.target().same(n),
        Entity::Edge(e) => path.target().same(&e.from) || path.source().same(&e.to),
        _ => false,
    }
}

/// Scans the edges and the paths of `db` for the friends of `subject`.
pub fn gather_friends(db: &Database, subject: &Entity) -> (found: Vec<Entity>)
    ensures
        entity_views(found@) == friends_of(db@, subject@),
{
    let mut found: Vec<Entity> = Vec::new();
    let edge_keys = db.keys(EntityKind::Edge);
    let ghost edges = edges_in_order(db@);
    let ghost keep_edge = edge_friend(db@, subject@);
    let mut i: usize = 0;
    while i < edge_keys.len()
        invariant
            i <= edge_keys.len(),
            edge_keys@ == key_order(db@.edges.dom()),
            edge_keys@.to_set() == db@.edges.dom(),
            edges == edges_in_order(db@),
            keep_edge == edge_friend(db@, subject@),
            entity_views(found@) == edges.take(i as int).filter_map(keep_edge),
        decreases edge_keys.len() - i,
    {
        let key = edge_keys[i];
        proof {
            edges.lemma_filter_map_take_succ(keep_edge, i as int);
        }
        match db.edge(key) {
            Some(edge) => {
                if check_edge(db, subject, edge) {
                    found.push(Entity::Edge(edge.clone()));
                }
            },
            None => {},
        }
        i += 1;
    }
    assert(edges.take(i as int) == edges);
    let path_keys = db.keys(EntityKind::GraphPath);
    let ghost paths = paths_in_order(db@);
    let ghost keep_path = path_friend(subject@);
    let ghost head = entity_views(found@);
    let mut j: usize = 0;
    while j < path_keys.len()
        invariant
            j <= path_keys.len(),
            path_keys@ == key_order(db@.paths.dom()),
            path_keys@.to_set() == db@.paths.dom(),
            paths == paths_in_order(db@),
            keep_path == path_friend(subject@),
            entity_views(found@) == head + paths.take(j as int).filter_map(keep_path),
        decreases path_keys.len() - j,
    {
        let key = path_keys[j];
        proof {
            paths.lemma_filter_map_take_succ(keep_path, j as int);
        }
        match db.path(key) {
            Some(path) => {
                if check_path(subject, path) {
                    let ghost before = found@;
                    found.push(Entity::GraphPath(path.clone()));
                    assert(entity_views(found@) =~= entity_views(before).push(
                        EntityView::GraphPath(path@),
                    ));
                }
            },
            None => {},
        }
        j += 1;
    }
    assert(paths.take(j as int) == paths);
    found
}

} // verus!
