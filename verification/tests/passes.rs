use silkworm::{
    classify, derive_from, drain, reconcile, run_cycle, run_job, Cycle, DataCycle, Database, Edge,
    Ending, Entity, EntityKind, GraphPath, InputFile, LocalQueue, Node, Resolution, Route,
};

fn node(label: &str) -> Entity {
    Entity::Node(Node::new(label))
}

fn edge(from: &str, to: &str) -> Entity {
    Entity::Edge(Edge::new(Node::new(from), Node::new(to)))
}

fn file(contents: &str) -> Entity {
    Entity::InputFile(InputFile::new(contents))
}

fn path(steps: &[(&str, &str)]) -> Entity {
    let edges = steps.iter().map(|(a, b)| Edge::new(Node::new(a), Node::new(b))).collect();
    Entity::GraphPath(GraphPath::new(edges).unwrap())
}

fn with(entities: Vec<Entity>) -> Database {
    let mut db = Database::new();
    for entity in entities {
        db.insert(entity);
    }
    db
}

fn queue_of(routes: &[Route]) -> LocalQueue {
    let mut queue = LocalQueue::new();
    for route in routes {
        queue.produce(*route);
    }
    queue
}

fn routes_of(queue: &LocalQueue) -> Vec<Route> {
    (0..queue.len()).map(|i| queue.get(i).unwrap()).collect()
}

fn contents(db: &Database) -> Vec<Entity> {
    let mut all = db.entities(EntityKind::Node);
    all.extend(db.entities(EntityKind::Edge));
    all.extend(db.entities(EntityKind::InputFile));
    all.extend(db.entities(EntityKind::GraphPath));
    all
}

#[test]
fn a_queue_is_first_in_first_out() {
    let x = Route::to(&node("X"));
    let y = Route::to(&node("Y"));
    let z = Route::to(&node("Z"));
    let mut queue = LocalQueue::new();
    assert!(queue.is_empty());
    assert_eq!(queue.len(), 0);
    assert_eq!(queue.consume(), None);
    queue.produce(x);
    queue.produce(y);
    queue.produce_all(&vec![z, x]);
    assert_eq!(queue.len(), 4);
    assert!(!queue.is_empty());
    assert_eq!(queue.get(0), Some(x));
    assert_eq!(queue.get(3), Some(x));
    assert_eq!(queue.get(4), None);
    assert_eq!(queue.consume(), Some(x));
    assert_eq!(queue.consume(), Some(y));
    assert_eq!(queue.consume(), Some(z));
    assert_eq!(queue.consume(), Some(x));
    assert_eq!(queue.consume(), None);
    assert!(queue.is_empty());
}

#[test]
fn a_cloned_queue_goes_its_own_way() {
    let x = Route::to(&node("X"));
    let mut queue = queue_of(&[x]);
    let snapshot = queue.clone();
    assert_eq!(queue.consume(), Some(x));
    assert_eq!(routes_of(&snapshot), vec![x]);
    assert!(queue.is_empty());
}

#[test]
fn a_node_whose_neighbour_is_absent_ends_the_pass_with_nothing_new() {
    let mut db = with(vec![node("X"), edge("X", "Y")]);
    let before = contents(&db);
    let x = Route::to(&node("X"));
    let cycle = Cycle::for_route(&x);
    let friends = cycle.get_friends(&db, &x);
    assert!(friends.is_empty());
    assert!(cycle.stop_friends(&friends));
    let turn = run_cycle(&cycle, &mut db, &x);
    assert_eq!(turn.ending, Ending::StoppedOnFriends);
    let publish = derive_from(&mut db, x);
    assert!(publish.is_empty());
    assert_eq!(contents(&db), before);
    assert_eq!(db.count(EntityKind::GraphPath), 0);
}

#[test]
fn with_the_neighbour_present_the_edge_is_a_friend() {
    let db = with(vec![node("X"), node("Y"), edge("X", "Y")]);
    let x = Route::to(&node("X"));
    assert_eq!(Cycle::for_route(&x).get_friends(&db, &x), vec![edge("X", "Y")]);
}

#[test]
fn after_a_merge_the_shared_node_finds_the_path_through_it() {
    let a = with(vec![node("X"), node("Y"), edge("X", "Y")]);
    let b = with(vec![edge("Y", "Z"), node("Z")]);
    let mut merged = a.union(&b);
    let y = Route::to(&node("Y"));
    let friends = Cycle::for_route(&y).get_friends(&merged, &y);
    assert_eq!(friends, vec![edge("Y", "Z"), edge("X", "Y")]);
    let turn = run_cycle(&Cycle::for_route(&y), &mut merged, &y);
    assert_eq!(turn.ending, Ending::Saved);
    let xyz = path(&[("X", "Y"), ("Y", "Z")]);
    assert_eq!(turn.fresh, vec![Route::to(&xyz)]);
    assert_eq!(merged.keys(EntityKind::GraphPath), vec![xyz.content_hash()]);
    assert_eq!(merged.keys(EntityKind::GraphPath), vec![0xbdb887b7ad1b9bc9]);
    assert_eq!(merged.get(&Route::new(EntityKind::GraphPath, xyz.content_hash())), Some(xyz));
}

#[test]
fn before_the_merge_neither_side_finds_the_path() {
    let mut a = with(vec![node("X"), node("Y"), edge("X", "Y")]);
    let mut b = with(vec![edge("Y", "Z"), node("Z")]);
    let y = Route::to(&node("Y"));
    assert!(derive_from(&mut a, y).is_empty());
    assert!(derive_from(&mut b, y).is_empty());
    assert_eq!(a.count(EntityKind::GraphPath), 0);
    assert_eq!(b.count(EntityKind::GraphPath), 0);
}

#[test]
fn a_pass_works_the_queue_off() {
    let mut db = with(vec![node("X"), node("Y"), node("Z"), edge("X", "Y"), edge("Y", "Z")]);
    let mut queue = queue_of(&[Route::to(&node("Y")), Route::to(&edge("X", "Y"))]);
    let publish = drain(&mut db, &mut queue);
    assert!(queue.is_empty());
    assert!(publish.is_empty());
    assert_eq!(db.entities(EntityKind::GraphPath), vec![path(&[("X", "Y"), ("Y", "Z")])]);
    assert_eq!(db.count(EntityKind::Node), 3);
    assert_eq!(db.count(EntityKind::Edge), 2);
}

#[test]
fn a_pass_follows_what_it_derived() {
    let mut db = with(vec![
        node("W"),
        node("X"),
        node("Y"),
        node("Z"),
        edge("W", "X"),
        edge("X", "Y"),
        edge("Y", "Z"),
    ]);
    let publish = derive_from(&mut db, Route::to(&edge("X", "Y")));
    assert!(publish.is_empty());
    let mut expected = vec![path(&[("W", "X"), ("X", "Y")]), path(&[("X", "Y"), ("Y", "Z")])];
    expected.sort_by_key(|p| p.content_hash());
    assert_eq!(db.entities(EntityKind::GraphPath), expected);
    let publish = derive_from(&mut db, Route::to(&edge("X", "Y")));
    assert!(publish.is_empty());
    assert_eq!(db.count(EntityKind::GraphPath), 2);
    let publish = derive_from(&mut db, Route::to(&edge("Y", "Z")));
    assert!(publish.is_empty());
    let mut expected = vec![
        path(&[("W", "X"), ("X", "Y")]),
        path(&[("X", "Y"), ("Y", "Z")]),
        path(&[("W", "X"), ("X", "Y"), ("Y", "Z")]),
    ];
    expected.sort_by_key(|p| p.content_hash());
    assert_eq!(db.entities(EntityKind::GraphPath), expected);
}

#[test]
fn a_pass_on_an_empty_queue_does_nothing() {
    let mut db = with(vec![node("X"), node("Y"), edge("X", "Y")]);
    let before = contents(&db);
    let mut queue = LocalQueue::new();
    assert!(drain(&mut db, &mut queue).is_empty());
    assert_eq!(contents(&db), before);
}

#[test]
fn a_pass_on_a_dangling_seed_changes_nothing() {
    let mut db = with(vec![node("X"), node("Y"), edge("X", "Y")]);
    let before = contents(&db);
    for seed in [
        Route::to(&node("Q")),
        Route::to(&edge("Q", "R")),
        Route::to(&file("f")),
        Route::to(&path(&[("X", "Y")])),
        Route::new(EntityKind::Edge, 0),
    ] {
        assert!(derive_from(&mut db, seed).is_empty());
        assert_eq!(contents(&db), before);
    }
}

#[test]
fn a_path_cycle_derives_nothing_and_announces_nothing() {
    let xy = path(&[("X", "Y")]);
    let mut db = with(vec![node("X"), node("Y"), edge("X", "Y"), xy.clone()]);
    let before = contents(&db);
    let publish = derive_from(&mut db, Route::to(&xy));
    assert!(publish.is_empty());
    assert_eq!(contents(&db), before);
}

#[test]
fn a_route_that_both_sides_hold_is_resolved() {
    let a = with(vec![node("Y")]);
    let b = with(vec![node("Y"), node("Z")]);
    assert_eq!(classify(&a, &b, &Route::to(&node("Y"))), Resolution::Resolved);
}

#[test]
fn a_route_with_data_and_friends_on_one_side_only_is_resolved() {
    let a = with(vec![node("X"), node("Y"), edge("X", "Y")]);
    let b = with(vec![edge("Y", "Z"), node("Z")]);
    let y = Route::to(&node("Y"));
    assert_eq!(classify(&a, &b, &y), Resolution::Resolved);
    assert_eq!(classify(&b, &a, &y), Resolution::Resolved);
}

#[test]
fn a_route_known_in_part_is_replayed() {
    let lonely = with(vec![node("Y")]);
    let rest = with(vec![node("X"), node("Z"), edge("X", "Y"), edge("Y", "Z")]);
    let y = Route::to(&node("Y"));
    assert_eq!(classify(&lonely, &rest, &y), Resolution::Replay);
    assert_eq!(classify(&rest, &lonely, &y), Resolution::Replay);
}

#[test]
fn a_route_that_neither_side_knows_is_replayed() {
    let a = with(vec![node("X")]);
    let b = with(vec![node("Z")]);
    assert_eq!(classify(&a, &b, &Route::to(&node("Y"))), Resolution::Replay);
    assert_eq!(
        classify(&Database::new(), &Database::new(), &Route::to(&edge("X", "Y"))),
        Resolution::Replay
    );
}

#[test]
fn a_merge_carries_every_leftover_route_over() {
    let a = with(vec![node("X"), node("Y"), edge("X", "Y")]);
    let b = with(vec![edge("Y", "Z"), node("Z")]);
    let x = Route::to(&node("X"));
    let y = Route::to(&node("Y"));
    let z = Route::to(&node("Z"));
    let q = Route::to(&node("Q"));
    let merged = reconcile(&a, &queue_of(&[y, x, q]), &b, &queue_of(&[z, y]));
    assert_eq!(routes_of(&merged.queue), vec![y, x, q, z, y]);
    let none = reconcile(&a, &LocalQueue::new(), &b, &LocalQueue::new());
    assert!(routes_of(&none.queue).is_empty());
    assert_eq!(contents(&none.db), contents(&a.union(&b)));
}

#[test]
fn a_merge_without_replay_is_the_union() {
    let a = with(vec![node("X"), node("Y"), edge("X", "Y")]);
    let b = with(vec![edge("Y", "Z"), node("Z")]);
    let y = Route::to(&node("Y"));
    let merged = reconcile(&a, &queue_of(&[y]), &b, &LocalQueue::new());
    assert_eq!(contents(&merged.db), contents(&a.union(&b)));
    assert!(merged.publish.is_empty());
    assert_eq!(routes_of(&merged.queue), vec![y]);
}

#[test]
fn a_replayed_route_completes_one_side_with_the_other() {
    let lonely = with(vec![node("Y")]);
    let rest = with(vec![node("X"), node("Z"), edge("X", "Y"), edge("Y", "Z")]);
    let y = Route::to(&node("Y"));
    let merged = reconcile(&lonely, &queue_of(&[y]), &rest, &LocalQueue::new());
    let xyz = path(&[("X", "Y"), ("Y", "Z")]);
    assert!(merged.db.holds(&xyz));
    assert_eq!(merged.db.entities(EntityKind::GraphPath), vec![xyz]);
    for kept in [node("X"), node("Y"), node("Z"), edge("X", "Y"), edge("Y", "Z")] {
        assert!(merged.db.holds(&kept));
    }
    assert_eq!(routes_of(&merged.queue), vec![y]);
    assert!(merged.publish.is_empty());
    let other_way = reconcile(&rest, &LocalQueue::new(), &lonely, &queue_of(&[y]));
    assert_eq!(contents(&other_way.db), contents(&merged.db));
    assert_eq!(routes_of(&other_way.queue), vec![y]);
}

#[test]
fn a_merge_leaves_its_inputs_alone() {
    let lonely = with(vec![node("Y")]);
    let rest = with(vec![node("X"), node("Z"), edge("X", "Y"), edge("Y", "Z")]);
    let queue = queue_of(&[Route::to(&node("Y"))]);
    let _ = reconcile(&lonely, &queue, &rest, &LocalQueue::new());
    assert_eq!(contents(&lonely), vec![node("Y")]);
    assert_eq!(rest.count(EntityKind::GraphPath), 0);
    assert_eq!(routes_of(&queue), vec![Route::to(&node("Y"))]);
}

#[test]
fn merging_the_same_pair_again_gives_the_same() {
    let lonely = with(vec![node("Y")]);
    let rest = with(vec![node("X"), node("Z"), edge("X", "Y"), edge("Y", "Z")]);
    let queue = queue_of(&[Route::to(&node("Y"))]);
    let once = reconcile(&lonely, &queue, &rest, &LocalQueue::new());
    let twice = reconcile(&lonely, &queue, &rest, &LocalQueue::new());
    assert_eq!(contents(&once.db), contents(&twice.db));
    assert_eq!(routes_of(&once.queue), routes_of(&twice.queue));
}

#[test]
fn the_pass_of_a_job_keeps_the_seed_for_the_merge() {
    let db = with(vec![node("X"), node("Y"), node("Z"), edge("X", "Y"), edge("Y", "Z")]);
    let y = Route::to(&node("Y"));
    let pass = run_job(db, y);
    assert_eq!(routes_of(&pass.queue), vec![y]);
    assert!(pass.publish.is_empty());
    assert_eq!(pass.db.entities(EntityKind::GraphPath), vec![path(&[("X", "Y"), ("Y", "Z")])]);
    let idle = run_job(Database::new(), y);
    assert_eq!(routes_of(&idle.queue), vec![y]);
    assert!(contents(&idle.db).is_empty());
}
