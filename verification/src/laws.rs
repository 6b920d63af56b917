//! Laws of the library: what holds of saving, of merging, of dangling routes
//! and of a pass, for every database.
use vstd::prelude::*;
use crate::cycle::{
    cycle_of, data_at, found_by, friends_at, is_public, stops_on_data, Ending,
};
use crate::adjacency::{
    edge_befriends, edge_friend, edges_in_order, friends_of, path_befriends, path_friend,
    paths_in_order,
};
use crate::database::DatabaseView;
use crate::entity::{EdgeView, EntityKind, EntityView, PathView};
use crate::table::{key_order, lemma_key_order};
use crate::worker::{
    db_place, followed, merge_followed, merge_script, pass_script, queue_place, worked,
    MergeFacts, PassFacts, WorkerError, MERGE_PAIR,
};
use crate::merge::{reconciled, replayed};
use crate::pass::{drained, lemma_fresh_are_paths, lemma_queue_shrinks, sources, PassView};
use crate::registry::{Effect, Journal};
use crate::route::{route_of, Route};
use crate::stitch::{all_well_formed, lemma_derived_are_paths, lemma_derived_are_walks};

verus! {

/// Saving is idempotent: saving an entity a second time changes nothing and
/// returns no route, and after the first save the entity's content hash is a
/// key of its table, which has gained no other key.
pub proof fn lemma_save_is_idempotent(db: DatabaseView, entity: EntityView)
    ensures
        db.saved(entity).saved(entity) == db.saved(entity),
        db.saved(entity).fresh_route(entity) is None,
        db.save_routes(seq![entity, entity])[1] is None,
        db.saved_all(seq![entity, entity]) == db.saved(entity),
        db.saved(entity).keys(entity.kind()) == db.keys(entity.kind()).insert(
            route_of(entity).hash,
        ),
{
    let once = db.saved(entity);
    let pair = seq![entity, entity];
    assert(db.saved_all(seq![entity]) == once) by {
        reveal_with_fuel(DatabaseView::saved_all, 2);
    }
    assert(db.saved_all(pair) == once) by {
        reveal_with_fuel(DatabaseView::saved_all, 2);
    }
}

/// A saved entity is the one stored under its route, unless another entity
/// held its content hash before.
pub proof fn lemma_saved_is_held(db: DatabaseView, entity: EntityView)
    ensures
        db.saved(entity).occupied(route_of(entity)),
        !db.occupied(route_of(entity)) ==> db.saved(entity).holds(entity),
        db.holds(entity) ==> db.saved(entity) == db,
{
}

/// The union of a database with itself is that database.
pub proof fn lemma_union_is_idempotent(db: DatabaseView)
    ensures
        db.union(db) == db,
{
    assert(db.union(db).nodes =~= db.nodes);
    assert(db.union(db).edges =~= db.edges);
    assert(db.union(db).input_files =~= db.input_files);
    assert(db.union(db).paths =~= db.paths);
}

/// The union of two databases is the same either way round exactly where the
/// two agree.
pub proof fn lemma_union_commutes(left: DatabaseView, right: DatabaseView)
    ensures
        left.union(right) == right.union(left) <==> left.agrees(right),
{
    let a = left.union(right);
    let b = right.union(left);
    if left.agrees(right) {
        assert forall|kind: EntityKind, hash: u64|
            a.lookup(Route { kind, hash }) == b.lookup(Route { kind, hash }) by {
            let route = Route { kind, hash };
            if left.occupied(route) && right.occupied(route) {
                assert(left.lookup(route) == right.lookup(route));
            }
        }
        lemma_same_lookups(a, b);
    }
    if a == b {
        assert forall|route: Route| #[trigger]
            left.occupied(route) && right.occupied(route) implies left.lookup(route)
            == right.lookup(route) by {
            assert(b.lookup(route) == right.lookup(route));
        }
    }
}

/// The union is associative.
pub proof fn lemma_union_associates(a: DatabaseView, b: DatabaseView, c: DatabaseView)
    ensures
        a.union(b).union(c) == a.union(b.union(c)),
{
    let l = a.union(b).union(c);
    let r = a.union(b.union(c));
    assert(l.nodes =~= r.nodes);
    assert(l.edges =~= r.edges);
    assert(l.input_files =~= r.input_files);
    assert(l.paths =~= r.paths);
}

/// Merging `a` with `b` and the result with `c` gives what merging `b` with
/// `c` and the result with `a` gives exactly where `a` agrees with the union
/// of the two others.
pub proof fn lemma_merge_order(a: DatabaseView, b: DatabaseView, c: DatabaseView)
    ensures
        a.union(b).union(c) == b.union(c).union(a) <==> a.agrees(b.union(c)),
{
    lemma_union_associates(a, b, c);
    lemma_union_commutes(a, b.union(c));
}

/// No two different entities of the set share a content hash.
pub open spec fn collision_free(entities: Set<EntityView>) -> bool {
    forall|x: EntityView, y: EntityView|
        #![trigger entities.contains(x), entities.contains(y)]
        entities.contains(x) && entities.contains(y) && route_of(x) == route_of(y) ==> x == y
}

/// The database is well formed and stores entities of the set only.
pub open spec fn drawn_from(db: DatabaseView, entities: Set<EntityView>) -> bool {
    &&& db.well_formed()
    &&& forall|route: Route| #[trigger]
        db.occupied(route) ==> entities.contains(db.lookup(route)->0)
}

/// Two databases drawn from one collision-free set of entities agree.
pub proof fn lemma_drawn_from_one_set_agree(
    entities: Set<EntityView>,
    left: DatabaseView,
    right: DatabaseView,
)
    requires
        collision_free(entities),
        drawn_from(left, entities),
        drawn_from(right, entities),
    ensures
        left.agrees(right),
{
    assert forall|route: Route| #[trigger]
        left.occupied(route) && right.occupied(route) implies left.lookup(route) == right.lookup(
        route,
    ) by {}
}

/// The union of two databases drawn from a set is drawn from it.
pub proof fn lemma_union_is_drawn(
    entities: Set<EntityView>,
    left: DatabaseView,
    right: DatabaseView,
)
    requires
        drawn_from(left, entities),
        drawn_from(right, entities),
    ensures
        drawn_from(left.union(right), entities),
{
    left.lemma_union_well_formed(right);
    let both = left.union(right);
    assert forall|route: Route| #[trigger] both.occupied(route) implies entities.contains(
        both.lookup(route)->0,
    ) by {
        if !left.occupied(route) {
            assert(right.occupied(route));
        }
    }
}

/// The union converges whatever the pairing: for three databases drawn from
/// one set of entities in which no two share a content hash, the union of
/// the first with the second and then with the third is the union of the
/// second with the third and then with the first; and the union of two is
/// the same either way round. This is said of the union alone: what a merge
/// leaves is the union grown by its replays, for which see
/// [`lemma_merges_converge_on_the_graph`].
pub proof fn lemma_union_converges(
    entities: Set<EntityView>,
    a: DatabaseView,
    b: DatabaseView,
    c: DatabaseView,
)
    requires
        collision_free(entities),
        drawn_from(a, entities),
        drawn_from(b, entities),
        drawn_from(c, entities),
    ensures
        a.union(b).union(c) == b.union(c).union(a),
        a.union(b) == b.union(a),
        b.union(c) == c.union(b),
        a.union(c) == c.union(a),
{
    lemma_union_is_drawn(entities, b, c);
    lemma_drawn_from_one_set_agree(entities, a, b.union(c));
    lemma_merge_order(a, b, c);
    lemma_drawn_from_one_set_agree(entities, a, b);
    lemma_union_commutes(a, b);
    lemma_drawn_from_one_set_agree(entities, b, c);
    lemma_union_commutes(b, c);
    lemma_drawn_from_one_set_agree(entities, a, c);
    lemma_union_commutes(a, c);
}

/// Databases that resolve every route alike are equal.
pub proof fn lemma_same_lookups(left: DatabaseView, right: DatabaseView)
    requires
        forall|kind: EntityKind, hash: u64|
            left.lookup(Route { kind, hash }) == right.lookup(Route { kind, hash }),
    ensures
        left == right,
{
    assert forall|hash: u64|
        (#[trigger] left.nodes.contains_key(hash)) == right.nodes.contains_key(hash) && (
        left.nodes.contains_key(hash) ==> left.nodes[hash] == right.nodes[hash]) by {
        assert(left.lookup(Route { kind: EntityKind::Node, hash }) == right.lookup(
            Route { kind: EntityKind::Node, hash },
        ));
    }
    assert forall|hash: u64|
        (#[trigger] left.edges.contains_key(hash)) == right.edges.contains_key(hash) && (
        left.edges.contains_key(hash) ==> left.edges[hash] == right.edges[hash]) by {
        assert(left.lookup(Route { kind: EntityKind::Edge, hash }) == right.lookup(
            Route { kind: EntityKind::Edge, hash },
        ));
    }
    assert forall|hash: u64|
        (#[trigger] left.input_files.contains_key(hash)) == right.input_files.contains_key(hash) && (
        left.input_files.contains_key(hash) ==> left.input_files[hash]
            == right.input_files[hash]) by {
        assert(left.lookup(Route { kind: EntityKind::InputFile, hash }) == right.lookup(
            Route { kind: EntityKind::InputFile, hash },
        ));
    }
    assert forall|hash: u64|
        (#[trigger] left.paths.contains_key(hash)) == right.paths.contains_key(hash) && (
        left.paths.contains_key(hash) ==> left.paths[hash] == right.paths[hash]) by {
        assert(left.lookup(Route { kind: EntityKind::GraphPath, hash }) == right.lookup(
            Route { kind: EntityKind::GraphPath, hash },
        ));
    }
    assert(left.nodes =~= right.nodes);
    assert(left.edges =~= right.edges);
    assert(left.input_files =~= right.input_files);
    assert(left.paths =~= right.paths);
}

/// A dangling route is safe: it resolves to nothing, it has no friends, and
/// its cycle ends at the data test with the database as it was and nothing
/// newly stored, unless the categorical test ended it before.
pub proof fn lemma_dangling_route_is_safe(kind: EntityKind, db: DatabaseView, route: Route)
    requires
        !db.occupied(route),
    ensures
        data_at(kind, db, route) is None,
        friends_at(kind, db, route) == Seq::<EntityView>::empty(),
        cycle_of(kind, db, route).db == db,
        cycle_of(kind, db, route).fresh == Seq::<Route>::empty(),
        cycle_of(kind, db, route).ending == Ending::StoppedCategorically || cycle_of(
            kind,
            db,
            route,
        ).ending == Ending::StoppedOnData,
{
}

/// An entity that the database does not hold counts as missing: the data
/// test stops on a node or an input file that is not stored, and on an edge
/// of which an endpoint is not stored.
pub proof fn lemma_missing_data_stops(kind: EntityKind, db: DatabaseView, entity: EntityView)
    ensures
        entity matches EntityView::Node(n) ==> (stops_on_data(kind, entity, db) <==> kind
            != EntityKind::Node || !db.has_node(n)),
        entity matches EntityView::InputFile(_) ==> (stops_on_data(kind, entity, db) <==> kind
            != EntityKind::InputFile || !db.holds(entity)),
        entity matches EntityView::Edge(e) ==> (stops_on_data(kind, entity, db) <==> kind
            != EntityKind::Edge || !db.has_node(e.from) || !db.has_node(e.to)),
{
}

/// No work is lost under merge: every route that either worker left in its
/// queue is in the reconciled queue, the first worker's routes before the
/// second's, each as often as it was left.
pub proof fn lemma_no_work_is_lost(
    first_db: DatabaseView,
    first_queue: Seq<Route>,
    second_db: DatabaseView,
    second_queue: Seq<Route>,
)
    ensures
        reconciled(first_db, first_queue, second_db, second_queue).queue == first_queue
            + second_queue,
        forall|i: int|
            0 <= i < first_queue.len() ==> reconciled(
                first_db,
                first_queue,
                second_db,
                second_queue,
            ).queue[i] == #[trigger] first_queue[i],
        forall|i: int|
            0 <= i < second_queue.len() ==> reconciled(
                first_db,
                first_queue,
                second_db,
                second_queue,
            ).queue[first_queue.len() + i] == #[trigger] second_queue[i],
        forall|route: Route|
            first_queue.contains(route) || second_queue.contains(route) ==> #[trigger] reconciled(
                first_db,
                first_queue,
                second_db,
                second_queue,
            ).queue.contains(route),
{
    let queue = reconciled(first_db, first_queue, second_db, second_queue).queue;
    assert forall|route: Route|
        first_queue.contains(route) || second_queue.contains(route) implies #[trigger] queue.contains(
        route,
    ) by {
        if first_queue.contains(route) {
            let i = choose|i: int| 0 <= i < first_queue.len() && first_queue[i] == route;
            assert(queue[i] == route);
        } else {
            let i = choose|i: int| 0 <= i < second_queue.len() && second_queue[i] == route;
            assert(queue[first_queue.len() + i] == route);
        }
    }
}

/// Saving never takes anything away: the database after saving a batch holds
/// all that it held before.
pub proof fn lemma_saving_keeps_entities(db: DatabaseView, entities: Seq<EntityView>)
    ensures
        db.saved_all(entities).extends(db),
    decreases entities.len(),
{
    if entities.len() > 0 {
        lemma_saving_keeps_entities(db, entities.drop_last());
        assert forall|route: Route| #[trigger] db.occupied(route) implies db.saved_all(
            entities,
        ).lookup(route) == db.lookup(route) by {}
    }
}

/// A pass never takes anything away: the database after a pass holds all
/// that it held before.
pub proof fn lemma_pass_keeps_entities(db: DatabaseView, queue: Seq<Route>)
    ensures
        drained(db, queue).db.extends(db),
    decreases sources(queue), queue.len(),
{
    if queue.len() > 0 {
        let route = queue[0];
        let turn = cycle_of(route.kind, db, route);
        lemma_fresh_are_paths(route.kind, db, route);
        lemma_queue_shrinks(queue, turn.fresh);
        assert(turn.db.extends(db)) by {
            if turn.ending == Ending::Saved {
                let data = data_at(route.kind, db, route)->0;
                let found = found_by(route.kind, data, friends_at(route.kind, db, route));
                lemma_saving_keeps_entities(db, found);
            }
        }
        let next = if is_public(route.kind) {
            queue.drop_first()
        } else {
            queue.drop_first() + turn.fresh
        };
        lemma_pass_keeps_entities(turn.db, next);
        assert forall|r: Route| #[trigger] db.occupied(r) implies drained(db, queue).db.lookup(r)
            == db.lookup(r) by {
            assert(turn.db.occupied(r));
        }
    }
}

/// A merge never takes anything away: the merged database holds all that the
/// union of the two databases holds, and so all of the first database, and
/// whatever the second holds under a content hash that is free in the first.
pub proof fn lemma_merge_keeps_entities(
    first_db: DatabaseView,
    first_queue: Seq<Route>,
    second_db: DatabaseView,
    second_queue: Seq<Route>,
)
    ensures
        reconciled(first_db, first_queue, second_db, second_queue).db.extends(
            first_db.union(second_db),
        ),
        reconciled(first_db, first_queue, second_db, second_queue).db.extends(first_db),
        forall|route: Route|
            second_db.occupied(route) && !first_db.occupied(route) ==> #[trigger] reconciled(
                first_db,
                first_queue,
                second_db,
                second_queue,
            ).db.lookup(route) == second_db.lookup(route),
{
    let union = first_db.union(second_db);
    let start = PassView { db: union, publish: Seq::empty() };
    let merged = reconciled(first_db, first_queue, second_db, second_queue).db;
    lemma_replay_keeps_entities(first_db, second_db, start, first_queue + second_queue);
    assert forall|route: Route| #[trigger] first_db.occupied(route) implies merged.lookup(route)
        == first_db.lookup(route) by {
        assert(union.occupied(route));
    }
    assert forall|route: Route|
        second_db.occupied(route) && !first_db.occupied(route) implies #[trigger] merged.lookup(
        route,
    ) == second_db.lookup(route) by {
        assert(union.occupied(route));
    }
}

/// Replays never take anything away.
pub proof fn lemma_replay_keeps_entities(
    first: DatabaseView,
    second: DatabaseView,
    start: PassView,
    routes: Seq<Route>,
)
    ensures
        replayed(first, second, start, routes).db.extends(start.db),
    decreases routes.len(),
{
    if routes.len() > 0 {
        lemma_replay_keeps_entities(first, second, start, routes.drop_last());
        let so_far = replayed(first, second, start, routes.drop_last());
        lemma_pass_keeps_entities(so_far.db, seq![routes.last()]);
        assert forall|route: Route| #[trigger] start.db.occupied(route) implies replayed(
            first,
            second,
            start,
            routes,
        ).db.lookup(route) == start.db.lookup(route) by {
            assert(so_far.db.occupied(route));
        }
    }
}

/// Friends are stored and adjacent: every friend of an entity is an edge or a
/// path that the database holds, and it meets the test of adjacency for the
/// entity. So an edge is no friend of a node unless the database holds the
/// edge's other endpoint.
pub proof fn lemma_friends_are_stored(db: DatabaseView, subject: EntityView)
    requires
        db.well_formed(),
    ensures
        forall|i: int|
            0 <= i < friends_of(db, subject).len() ==> {
                let friend = #[trigger] friends_of(db, subject)[i];
                &&& db.holds(friend)
                &&& friend.well_formed()
                &&& match friend {
                    EntityView::Edge(edge) => edge_befriends(db, subject, edge),
                    EntityView::GraphPath(path) => path_befriends(subject, path),
                    _ => false,
                }
            },
{
    let edges = edges_in_order(db);
    let paths = paths_in_order(db);
    let keep_edge = edge_friend(db, subject);
    let keep_path = path_friend(subject);
    let first = edges.filter_map(keep_edge);
    lemma_key_order(db.edges.dom());
    lemma_key_order(db.paths.dom());
    assert forall|i: int| 0 <= i < friends_of(db, subject).len() implies {
        let friend = #[trigger] friends_of(db, subject)[i];
        &&& db.holds(friend)
        &&& friend.well_formed()
        &&& match friend {
            EntityView::Edge(edge) => edge_befriends(db, subject, edge),
            EntityView::GraphPath(path) => path_befriends(subject, path),
            _ => false,
        }
    } by {
        let friend = friends_of(db, subject)[i];
        if i < first.len() {
            edges.lemma_filter_map_contains(keep_edge, friend);
            let edge = choose|edge: EdgeView| #[trigger]
                edges.contains(edge) && keep_edge(edge) == Some(friend);
            let j = choose|j: int| 0 <= j < edges.len() && edges[j] == edge;
            let key = key_order(db.edges.dom())[j];
            assert(db.occupied(Route { kind: EntityKind::Edge, hash: key }));
        } else {
            paths.lemma_filter_map_contains(keep_path, friend);
            let path = choose|path: PathView| #[trigger]
                paths.contains(path) && keep_path(path) == Some(friend);
            let j = choose|j: int| 0 <= j < paths.len() && paths[j] == path;
            let key = key_order(db.paths.dom())[j];
            assert(db.occupied(Route { kind: EntityKind::GraphPath, hash: key }));
        }
    }
}

/// Saving well-formed entities keeps a database well formed.
pub proof fn lemma_saving_keeps_well_formed(db: DatabaseView, entities: Seq<EntityView>)
    requires
        db.well_formed(),
        all_well_formed(entities),
    ensures
        db.saved_all(entities).well_formed(),
    decreases entities.len(),
{
    if entities.len() > 0 {
        let before = entities.drop_last();
        assert forall|i: int| 0 <= i < before.len() implies (#[trigger] before[i]).well_formed() by {}
        lemma_saving_keeps_well_formed(db, before);
        db.saved_all(before).lemma_saved_well_formed(entities.last());
    }
}

/// A cycle keeps a database well formed: what it derives from the friends
/// it finds there are walks, and each is stored under its own content hash.
pub proof fn lemma_cycle_keeps_well_formed(kind: EntityKind, db: DatabaseView, route: Route)
    requires
        db.well_formed(),
    ensures
        cycle_of(kind, db, route).db.well_formed(),
{
    if cycle_of(kind, db, route).ending == Ending::Saved {
        let data = data_at(kind, db, route)->0;
        let friends = friends_at(kind, db, route);
        let found = found_by(kind, data, friends);
        lemma_friends_are_stored(db, data);
        lemma_derived_are_walks(data, friends);
        lemma_saving_keeps_well_formed(db, found);
    }
}

/// A pass keeps a database well formed.
pub proof fn lemma_pass_keeps_well_formed(db: DatabaseView, queue: Seq<Route>)
    requires
        db.well_formed(),
    ensures
        drained(db, queue).db.well_formed(),
    decreases sources(queue), queue.len(),
{
    if queue.len() > 0 {
        let route = queue[0];
        let turn = cycle_of(route.kind, db, route);
        lemma_fresh_are_paths(route.kind, db, route);
        lemma_queue_shrinks(queue, turn.fresh);
        lemma_cycle_keeps_well_formed(route.kind, db, route);
        let next = if is_public(route.kind) {
            queue.drop_first()
        } else {
            queue.drop_first() + turn.fresh
        };
        lemma_pass_keeps_well_formed(turn.db, next);
    }
}

/// The merge of two well-formed databases is well formed.
pub proof fn lemma_merge_is_well_formed(
    first_db: DatabaseView,
    first_queue: Seq<Route>,
    second_db: DatabaseView,
    second_queue: Seq<Route>,
)
    requires
        first_db.well_formed(),
        second_db.well_formed(),
    ensures
        reconciled(first_db, first_queue, second_db, second_queue).db.well_formed(),
{
    first_db.lemma_union_well_formed(second_db);
    let start = PassView { db: first_db.union(second_db), publish: Seq::empty() };
    lemma_replay_keeps_well_formed(first_db, second_db, start, first_queue + second_queue);
}

/// Replays keep a database well formed.
pub proof fn lemma_replay_keeps_well_formed(
    first: DatabaseView,
    second: DatabaseView,
    start: PassView,
    routes: Seq<Route>,
)
    requires
        start.db.well_formed(),
    ensures
        replayed(first, second, start, routes).db.well_formed(),
    decreases routes.len(),
{
    if routes.len() > 0 {
        lemma_replay_keeps_well_formed(first, second, start, routes.drop_last());
        let so_far = replayed(first, second, start, routes.drop_last());
        lemma_pass_keeps_well_formed(so_far.db, seq![routes.last()]);
    }
}

/// Saving paths touches no table but that of the paths.
pub proof fn lemma_saving_paths_adds_paths_only(db: DatabaseView, entities: Seq<EntityView>)
    requires
        forall|i: int| 0 <= i < entities.len() ==> (#[trigger] entities[i]) is GraphPath,
    ensures
        db.saved_all(entities).nodes == db.nodes,
        db.saved_all(entities).edges == db.edges,
        db.saved_all(entities).input_files == db.input_files,
    decreases entities.len(),
{
    if entities.len() > 0 {
        let before = entities.drop_last();
        assert forall|i: int| 0 <= i < before.len() implies (#[trigger] before[i]) is GraphPath by {}
        lemma_saving_paths_adds_paths_only(db, before);
    }
}

/// Derivation adds paths only: a pass leaves the nodes, the edges and the
/// input files of a database as they were.
pub proof fn lemma_pass_adds_paths_only(db: DatabaseView, queue: Seq<Route>)
    ensures
        drained(db, queue).db.nodes == db.nodes,
        drained(db, queue).db.edges == db.edges,
        drained(db, queue).db.input_files == db.input_files,
    decreases sources(queue), queue.len(),
{
    if queue.len() > 0 {
        let route = queue[0];
        let turn = cycle_of(route.kind, db, route);
        lemma_fresh_are_paths(route.kind, db, route);
        lemma_queue_shrinks(queue, turn.fresh);
        if turn.ending == Ending::Saved {
            let data = data_at(route.kind, db, route)->0;
            let friends = friends_at(route.kind, db, route);
            lemma_derived_are_paths(data, friends);
            lemma_saving_paths_adds_paths_only(db, found_by(route.kind, data, friends));
        }
        let next = if is_public(route.kind) {
            queue.drop_first()
        } else {
            queue.drop_first() + turn.fresh
        };
        lemma_pass_adds_paths_only(turn.db, next);
    }
}

/// A pass announces nothing: only the cycle of a path is public, and it
/// derives nothing, so no route ever goes to the global queue.
pub proof fn lemma_pass_announces_nothing(db: DatabaseView, queue: Seq<Route>)
    ensures
        drained(db, queue).publish == Seq::<Route>::empty(),
    decreases sources(queue), queue.len(),
{
    if queue.len() > 0 {
        let route = queue[0];
        let turn = cycle_of(route.kind, db, route);
        lemma_fresh_are_paths(route.kind, db, route);
        lemma_queue_shrinks(queue, turn.fresh);
        if is_public(route.kind) {
            lemma_pass_announces_nothing(turn.db, queue.drop_first());
            assert(turn.fresh + drained(turn.db, queue.drop_first()).publish =~= Seq::<
                Route,
            >::empty());
        } else {
            lemma_pass_announces_nothing(turn.db, queue.drop_first() + turn.fresh);
        }
    }
}

/// A merge announces nothing.
pub proof fn lemma_merge_announces_nothing(
    first_db: DatabaseView,
    first_queue: Seq<Route>,
    second_db: DatabaseView,
    second_queue: Seq<Route>,
)
    ensures
        reconciled(first_db, first_queue, second_db, second_queue).publish == Seq::<
            Route,
        >::empty(),
{
    let start = PassView { db: first_db.union(second_db), publish: Seq::empty() };
    lemma_replay_announces_nothing(first_db, second_db, start, first_queue + second_queue);
}

/// Replays announce nothing.
pub proof fn lemma_replay_announces_nothing(
    first: DatabaseView,
    second: DatabaseView,
    start: PassView,
    routes: Seq<Route>,
)
    ensures
        replayed(first, second, start, routes).publish == start.publish,
    decreases routes.len(),
{
    if routes.len() > 0 {
        lemma_replay_announces_nothing(first, second, start, routes.drop_last());
        let so_far = replayed(first, second, start, routes.drop_last());
        lemma_pass_announces_nothing(so_far.db, seq![routes.last()]);
        assert(so_far.publish + Seq::<Route>::empty() =~= so_far.publish);
    }
}

/// A merge adds paths only: the nodes, the edges and the input files of the
/// merged database are those of the union of the two databases.
pub proof fn lemma_merge_adds_paths_only(
    first_db: DatabaseView,
    first_queue: Seq<Route>,
    second_db: DatabaseView,
    second_queue: Seq<Route>,
)
    ensures
        reconciled(first_db, first_queue, second_db, second_queue).db.nodes == first_db.union(
            second_db,
        ).nodes,
        reconciled(first_db, first_queue, second_db, second_queue).db.edges == first_db.union(
            second_db,
        ).edges,
        reconciled(first_db, first_queue, second_db, second_queue).db.input_files
            == first_db.union(second_db).input_files,
{
    let start = PassView { db: first_db.union(second_db), publish: Seq::empty() };
    lemma_replay_adds_paths_only(first_db, second_db, start, first_queue + second_queue);
}

/// Replays add paths only.
pub proof fn lemma_replay_adds_paths_only(
    first: DatabaseView,
    second: DatabaseView,
    start: PassView,
    routes: Seq<Route>,
)
    ensures
        replayed(first, second, start, routes).db.nodes == start.db.nodes,
        replayed(first, second, start, routes).db.edges == start.db.edges,
        replayed(first, second, start, routes).db.input_files == start.db.input_files,
    decreases routes.len(),
{
    if routes.len() > 0 {
        lemma_replay_adds_paths_only(first, second, start, routes.drop_last());
        let so_far = replayed(first, second, start, routes.drop_last());
        lemma_pass_adds_paths_only(so_far.db, seq![routes.last()]);
    }
}

/// What converges under merge, whatever the pairing: the graph. For three
/// workers whose databases are drawn from one set of entities in which no
/// two share a content hash, merging the first with the second and the
/// result with the third leaves the nodes, the edges and the input files
/// that merging the second with the third and the result with the first
/// leaves, and either way the reconciled queue holds each leftover route as
/// often as the three queues together. The paths need not be the same: which
/// routes are replayed, and on what, depends on the pairing.
pub proof fn lemma_merges_converge_on_the_graph(
    entities: Set<EntityView>,
    a: DatabaseView,
    a_queue: Seq<Route>,
    b: DatabaseView,
    b_queue: Seq<Route>,
    c: DatabaseView,
    c_queue: Seq<Route>,
)
    requires
        collision_free(entities),
        drawn_from(a, entities),
        drawn_from(b, entities),
        drawn_from(c, entities),
    ensures
        ({
            let ab = reconciled(a, a_queue, b, b_queue);
            let ab_c = reconciled(ab.db, ab.queue, c, c_queue);
            let bc = reconciled(b, b_queue, c, c_queue);
            let bc_a = reconciled(bc.db, bc.queue, a, a_queue);
            &&& ab_c.db.nodes == bc_a.db.nodes
            &&& ab_c.db.edges == bc_a.db.edges
            &&& ab_c.db.input_files == bc_a.db.input_files
            &&& ab_c.queue.to_multiset() == bc_a.queue.to_multiset()
        }),
{
    let ab = reconciled(a, a_queue, b, b_queue);
    let ab_c = reconciled(ab.db, ab.queue, c, c_queue);
    let bc = reconciled(b, b_queue, c, c_queue);
    let bc_a = reconciled(bc.db, bc.queue, a, a_queue);
    let all = a.union(b).union(c);
    lemma_union_converges(entities, a, b, c);
    lemma_merge_adds_paths_only(a, a_queue, b, b_queue);
    lemma_merge_adds_paths_only(ab.db, ab.queue, c, c_queue);
    lemma_merge_adds_paths_only(b, b_queue, c, c_queue);
    lemma_merge_adds_paths_only(bc.db, bc.queue, a, a_queue);
    assert(ab.db.union(c).nodes =~= all.nodes);
    assert(ab.db.union(c).edges =~= all.edges);
    assert(ab.db.union(c).input_files =~= all.input_files);
    assert(bc.db.union(a).nodes =~= all.nodes);
    assert(bc.db.union(a).edges =~= all.edges);
    assert(bc.db.union(a).input_files =~= all.input_files);
    vstd::seq_lib::lemma_multiset_commutative(a_queue + b_queue, c_queue);
    vstd::seq_lib::lemma_multiset_commutative(a_queue, b_queue);
    vstd::seq_lib::lemma_multiset_commutative(b_queue + c_queue, a_queue);
    vstd::seq_lib::lemma_multiset_commutative(b_queue, c_queue);
    assert(ab_c.queue.to_multiset() =~= bc_a.queue.to_multiset());
}

/// The order of a pass. A run that followed the script of a pass deleted
/// nothing, reserved no merge request and acknowledged at most once, and
/// that after it had written the database and the queue and published their
/// merge request. A pass that failed acknowledged nothing. A pass that
/// succeeded ran the whole script.
pub proof fn lemma_pass_protocol<Receipt, E>(
    before: Journal<Receipt>,
    after: Journal<Receipt>,
    facts: PassFacts<Receipt>,
    n: int,
    outcome: Result<(), WorkerError<E>>,
)
    requires
        followed(before, after, pass_script(facts), n, outcome),
    ensures
        outcome is Ok ==> after.effects == before.effects + pass_script(facts),
        outcome matches Err(error) ==> error.leaves_retry_safe(),
        forall|i: int|
            before.effects.len() <= i < after.effects.len() ==> !((#[trigger] after.effects[i])
                is Deleted) && !(after.effects[i] is ReservedMerge),
        forall|i: int|
            before.effects.len() <= i < after.effects.len() && (#[trigger] after.effects[i])
                is Acked ==> {
                let first = before.effects.len() as int;
                &&& outcome is Ok
                &&& i == first + 8
                &&& after.effects[i] == Effect::Acked(facts.receipt)
                &&& after.effects[first + 3] == Effect::ReservedJob(facts.seed, facts.receipt)
                &&& after.effects[first + 4] is WroteDb
                &&& after.effects[first + 6] == Effect::<Receipt>::WroteQueue(
                    queue_place(facts.name, facts.queue_unique),
                    seq![facts.seed],
                )
                &&& after.effects[first + 7] is Published
            },
{
    let script = pass_script(facts);
    let first = before.effects.len() as int;
    assert(script.take(script.len() as int) =~= script);
    assert forall|i: int| first <= i < after.effects.len() implies (#[trigger] after.effects[i])
        == script[i - first] by {}
}

/// The order of a merge. A run that followed the script of a merge reserved
/// no job. Where it did not merge, it only counted. It acknowledged only
/// after it had written the merged database and the reconciled queue and
/// published their merge request; it deleted only after both
/// acknowledgements, and only the two databases that the requests named. It
/// failed in cleanup exactly where both requests were acknowledged by then.
pub proof fn lemma_merge_protocol<Receipt, E>(
    before: Journal<Receipt>,
    after: Journal<Receipt>,
    facts: MergeFacts<Receipt>,
    n: int,
    outcome: Result<bool, WorkerError<E>>,
)
    requires
        merge_followed(before, after, facts, n, outcome),
    ensures
        outcome matches Ok(merged) && !merged ==> facts.pending < MERGE_PAIR && after
            == before.with(Effect::Counted(facts.pending)),
        outcome matches Ok(merged) && merged ==> after.effects == before.effects + merge_script(
            facts,
        ),
        outcome matches Err(error) ==> (error is Cleanup <==> n >= 15),
        forall|i: int|
            before.effects.len() <= i < after.effects.len() ==> !((#[trigger] after.effects[i])
                is ReservedJob) && !(after.effects[i] is Opened),
        forall|i: int|
            before.effects.len() <= i < after.effects.len() && (#[trigger] after.effects[i])
                is Acked ==> {
                let first = before.effects.len() as int;
                &&& i >= first + 13
                &&& after.effects[first + 10] == Effect::<Receipt>::WroteDb(
                    db_place(facts.name, facts.db_unique),
                    reconciled(
                        facts.first_db,
                        facts.first_queue,
                        facts.second_db,
                        facts.second_queue,
                    ).db,
                )
                &&& after.effects[first + 11] == Effect::<Receipt>::WroteQueue(
                    queue_place(facts.name, facts.queue_unique),
                    facts.first_queue + facts.second_queue,
                )
                &&& after.effects[first + 12] is Published
            },
        forall|i: int|
            before.effects.len() <= i < after.effects.len() && (#[trigger] after.effects[i])
                is Deleted ==> {
                let first = before.effects.len() as int;
                &&& i >= first + 15
                &&& after.effects[first + 13] == Effect::Acked(facts.first_receipt)
                &&& after.effects[first + 14] == Effect::Acked(facts.second_receipt)
                &&& after.effects[i] == Effect::<Receipt>::Deleted(facts.first_db_loc)
                    || after.effects[i] == Effect::<Receipt>::Deleted(facts.second_db_loc)
            },
{
    let script = merge_script(facts);
    let first = before.effects.len() as int;
    if n == 1 && facts.pending < MERGE_PAIR {
        assert forall|i: int| first <= i < after.effects.len() implies (
        #[trigger] after.effects[i]) == script[0] by {}
    } else {
        assert(script.take(script.len() as int) =~= script);
        assert forall|i: int| first <= i < after.effects.len() implies (
        #[trigger] after.effects[i]) == script[i - first] by {}
    }
}

/// Whether the journal, from position `start` on, acknowledged only after a
/// database and a queue were written and their merge request was published,
/// in this order, and deleted only after two acknowledgements.
pub open spec fn in_order<Receipt>(effects: Seq<Effect<Receipt>>, start: int) -> bool {
    &&& forall|i: int|
        start <= i < effects.len() && (#[trigger] effects[i]) is Acked ==> exists|
            w: int,
            q: int,
            p: int,
        |
            #![trigger effects[w], effects[q], effects[p]]
            start <= w < q < p < i && effects[w] is WroteDb && effects[q] is WroteQueue
                && effects[p] is Published
    &&& forall|i: int|
        start <= i < effects.len() && (#[trigger] effects[i]) is Deleted ==> exists|
            x: int,
            y: int,
        |
            #![trigger effects[x], effects[y]]
            start <= x < y < i && effects[x] is Acked && effects[y] is Acked
}

proof fn lemma_pass_in_order<Receipt>(
    effects: Seq<Effect<Receipt>>,
    start: int,
    first: int,
    facts: PassFacts<Receipt>,
    n: int,
)
    requires
        0 <= start <= first <= start + 2,
        0 <= n <= 9,
        effects.len() == first + n,
        forall|i: int| start <= i < first ==> !((#[trigger] effects[i]) is Acked) && !(effects[i]
            is Deleted),
        forall|i: int| first <= i < first + n ==> (#[trigger] effects[i]) == pass_script(facts)[i
            - first],
    ensures
        in_order(effects, start),
{
    assert forall|i: int|
        start <= i < effects.len() && (#[trigger] effects[i]) is Acked implies exists|
        w: int,
        q: int,
        p: int,
    |
        #![trigger effects[w], effects[q], effects[p]]
        start <= w < q < p < i && effects[w] is WroteDb && effects[q] is WroteQueue && effects[p]
            is Published by {
        assert(i == first + 8);
        assert(effects[first + 4] is WroteDb && effects[first + 6] is WroteQueue && effects[first
            + 7] is Published);
    }
    assert forall|i: int| start <= i < effects.len() implies !((#[trigger] effects[i])
        is Deleted) by {}
}

proof fn lemma_merge_in_order<Receipt>(
    effects: Seq<Effect<Receipt>>,
    start: int,
    first: int,
    facts: MergeFacts<Receipt>,
    n: int,
)
    requires
        0 <= start <= first <= start + 1,
        0 <= n <= 17,
        effects.len() == first + n,
        forall|i: int| start <= i < first ==> !((#[trigger] effects[i]) is Acked) && !(effects[i]
            is Deleted),
        forall|i: int| first <= i < first + n ==> (#[trigger] effects[i]) == merge_script(
            facts,
        )[i - first],
    ensures
        in_order(effects, start),
{
    assert forall|i: int|
        start <= i < effects.len() && (#[trigger] effects[i]) is Acked implies exists|
        w: int,
        q: int,
        p: int,
    |
        #![trigger effects[w], effects[q], effects[p]]
        start <= w < q < p < i && effects[w] is WroteDb && effects[q] is WroteQueue && effects[p]
            is Published by {
        assert(i >= first + 13);
        assert(effects[first + 10] is WroteDb && effects[first + 11] is WroteQueue
            && effects[first + 12] is Published);
    }
    assert forall|i: int|
        start <= i < effects.len() && (#[trigger] effects[i]) is Deleted implies exists|
        x: int,
        y: int,
    |
        #![trigger effects[x], effects[y]]
        start <= x < y < i && effects[x] is Acked && effects[y] is Acked by {
        assert(i >= first + 15);
        assert(effects[first + 13] is Acked && effects[first + 14] is Acked);
    }
}

/// The order of a run, be it a merge or a pass: the journal only grew;
/// whatever the run acknowledged, it had written a database and a queue and
/// published their merge request before; whatever it deleted, it had
/// acknowledged twice before; and a run that succeeded did acknowledge.
pub proof fn lemma_worker_protocol<Receipt, E>(
    before: Journal<Receipt>,
    after: Journal<Receipt>,
    merge: MergeFacts<Receipt>,
    n: int,
    pass: PassFacts<Receipt>,
    m: int,
    outcome: Result<(), WorkerError<E>>,
)
    requires
        worked(before, after, merge, n, pass, m, outcome),
    ensures
        before.effects.len() <= after.effects.len(),
        after.effects.take(before.effects.len() as int) == before.effects,
        in_order(after.effects, before.effects.len() as int),
        outcome is Ok ==> exists|i: int|
            before.effects.len() <= i < after.effects.len() && (#[trigger] after.effects[i])
                is Acked,
{
    let start = before.effects.len() as int;
    let connected = before.with(Effect::Connected);
    if after == before {
        assert(after.effects.take(start) =~= before.effects);
        assert(outcome is Err);
    } else if n == 1 && merge.pending < MERGE_PAIR {
        let script = pass_script(pass);
        let counted = connected.with(Effect::Counted(merge.pending));
        assert(followed(counted, after, script, m, outcome));
        assert(after.effects.take(start) =~= before.effects);
        assert(script.take(script.len() as int) =~= script);
        lemma_pass_in_order(after.effects, start, start + 2, pass, m);
        if outcome is Ok {
            assert(after.effects[start + 2 + 8] is Acked);
        }
    } else {
        let script = merge_script(merge);
        assert(followed(connected, after, script, n, outcome));
        assert(after.effects.take(start) =~= before.effects);
        assert(script.take(script.len() as int) =~= script);
        lemma_merge_in_order(after.effects, start, start + 1, merge, n);
        if outcome is Ok {
            assert(after.effects[start + 1 + 13] is Acked);
        }
    }
}

} // verus!
