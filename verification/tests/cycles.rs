use silkworm::adjacency::{check_edge, check_path, gather_friends};
use silkworm::cycle::check_supported;
use silkworm::stitch::{join, search, search_edge, search_node};
use silkworm::{
    run_cycle, Cycle, DataCycle, Database, Edge, EdgeCycle, Ending, Entity, EntityKind, GraphPath,
    GraphPathCycle, InputFile, InputFileCycle, Node, NodeCycle, Route,
};

fn n(label: &str) -> Node {
    Node::new(label)
}

fn e(from: &str, to: &str) -> Edge {
    Edge::new(n(from), n(to))
}

fn p(steps: &[(&str, &str)]) -> GraphPath {
    GraphPath::new(steps.iter().map(|(a, b)| e(a, b)).collect()).unwrap()
}

fn node(label: &str) -> Entity {
    Entity::Node(n(label))
}

fn edge(from: &str, to: &str) -> Entity {
    Entity::Edge(e(from, to))
}

fn file(contents: &str) -> Entity {
    Entity::InputFile(InputFile::new(contents))
}

fn path(steps: &[(&str, &str)]) -> Entity {
    Entity::GraphPath(p(steps))
}

fn with(entities: Vec<Entity>) -> Database {
    let mut db = Database::new();
    for entity in entities {
        db.insert(entity);
    }
    db
}

fn contents(db: &Database) -> Vec<Entity> {
    let mut all = db.entities(EntityKind::Node);
    all.extend(db.entities(EntityKind::Edge));
    all.extend(db.entities(EntityKind::InputFile));
    all.extend(db.entities(EntityKind::GraphPath));
    all
}

fn is_contiguous(entity: &Entity) -> bool {
    match entity {
        Entity::GraphPath(path) => {
            let edges = path.edges();
            !edges.is_empty() && edges.windows(2).all(|w| w[0].to == w[1].from)
        }
        _ => false,
    }
}

#[test]
fn a_node_cycle_refuses_to_run_without_edges() {
    let no_edges = with(vec![node("X"), node("Y"), file("f")]);
    assert!(NodeCycle.stop_categorically(&no_edges));
    assert!(NodeCycle.stop_categorically(&Database::new()));
    let some_edge = with(vec![edge("X", "Y")]);
    assert!(!NodeCycle.stop_categorically(&some_edge));
}

#[test]
fn each_kind_has_its_categorical_test() {
    let nodes_only = with(vec![node("X")]);
    let edges_only = with(vec![edge("X", "Y")]);
    let files_only = with(vec![file("f")]);
    let paths_only = with(vec![path(&[("X", "Y")])]);
    assert!(EdgeCycle.stop_categorically(&edges_only));
    assert!(!EdgeCycle.stop_categorically(&nodes_only));
    assert!(InputFileCycle.stop_categorically(&nodes_only));
    assert!(!InputFileCycle.stop_categorically(&files_only));
    assert!(GraphPathCycle.stop_categorically(&paths_only));
    assert!(!GraphPathCycle.stop_categorically(&edges_only));
    assert!(NodeCycle.stop_categorically(&paths_only));
}

#[test]
fn get_data_resolves_a_route_of_its_kind() {
    let db = with(vec![node("X"), edge("X", "Y"), file("f"), path(&[("X", "Y")])]);
    assert_eq!(NodeCycle.get_data(&db, &Route::to(&node("X"))), Some(node("X")));
    assert_eq!(EdgeCycle.get_data(&db, &Route::to(&edge("X", "Y"))), Some(edge("X", "Y")));
    assert_eq!(InputFileCycle.get_data(&db, &Route::to(&file("f"))), Some(file("f")));
    assert_eq!(
        GraphPathCycle.get_data(&db, &Route::to(&path(&[("X", "Y")]))),
        Some(path(&[("X", "Y")]))
    );
}

#[test]
fn get_data_on_a_dangling_route_is_absent() {
    let db = with(vec![node("X"), edge("X", "Y")]);
    assert_eq!(NodeCycle.get_data(&db, &Route::to(&node("Y"))), None);
    assert_eq!(EdgeCycle.get_data(&db, &Route::to(&edge("Y", "X"))), None);
    assert_eq!(InputFileCycle.get_data(&db, &Route::to(&file("f"))), None);
    assert_eq!(GraphPathCycle.get_data(&db, &Route::to(&path(&[("X", "Y")]))), None);
    assert_eq!(NodeCycle.get_data(&Database::new(), &Route::to(&node("X"))), None);
}

#[test]
fn get_data_on_a_route_of_another_kind_is_absent() {
    let db = with(vec![node("X"), edge("X", "Y")]);
    assert_eq!(EdgeCycle.get_data(&db, &Route::to(&node("X"))), None);
    assert_eq!(NodeCycle.get_data(&db, &Route::to(&edge("X", "Y"))), None);
}

#[test]
fn an_edge_needs_both_endpoints() {
    let xy = edge("X", "Y");
    assert!(!EdgeCycle.stop_data(&xy, &with(vec![node("X"), node("Y")])));
    assert!(EdgeCycle.stop_data(&xy, &with(vec![node("X")])));
    assert!(EdgeCycle.stop_data(&xy, &with(vec![node("Y")])));
    assert!(EdgeCycle.stop_data(&xy, &Database::new()));
    assert!(!EdgeCycle.stop_data(&edge("X", "X"), &with(vec![node("X")])));
}

#[test]
fn stop_data_counts_what_is_missing_as_unmet() {
    let db = with(vec![node("X"), edge("X", "Y"), file("f")]);
    assert!(!NodeCycle.stop_data(&node("X"), &db));
    assert!(NodeCycle.stop_data(&node("Y"), &db));
    assert!(!InputFileCycle.stop_data(&file("f"), &db));
    assert!(InputFileCycle.stop_data(&file("g"), &db));
    assert!(!GraphPathCycle.stop_data(&path(&[("X", "Y")]), &db));
    assert!(GraphPathCycle.stop_data(&path(&[("X", "Y"), ("Y", "Z")]), &db));
    assert!(GraphPathCycle.stop_data(&path(&[("Y", "Z")]), &Database::new()));
}

#[test]
fn stop_data_stops_on_another_kind() {
    let db = with(vec![node("X"), node("Y"), edge("X", "Y")]);
    assert!(NodeCycle.stop_data(&edge("X", "Y"), &db));
    assert!(EdgeCycle.stop_data(&node("X"), &db));
    assert!(InputFileCycle.stop_data(&node("X"), &db));
    assert!(GraphPathCycle.stop_data(&edge("X", "Y"), &db));
}

#[test]
fn support_is_decided_per_kind() {
    let db = with(vec![node("X"), node("Y"), edge("X", "Y"), file("f")]);
    assert!(check_supported(&db, &node("X")));
    assert!(!check_supported(&db, &node("Z")));
    assert!(check_supported(&db, &edge("X", "Y")));
    assert!(check_supported(&db, &edge("Y", "X")));
    assert!(!check_supported(&db, &edge("X", "Z")));
    assert!(check_supported(&db, &file("f")));
    assert!(!check_supported(&db, &file("g")));
    assert!(check_supported(&db, &path(&[("X", "Y")])));
    assert!(!check_supported(&db, &path(&[("Y", "X")])));
}

#[test]
fn a_node_befriends_an_edge_whose_other_end_is_stored() {
    let db = with(vec![node("X"), node("Y"), edge("X", "Y"), edge("Z", "X"), edge("Y", "W")]);
    let friends = NodeCycle.get_friends(&db, &Route::to(&node("X")));
    assert_eq!(friends, vec![edge("X", "Y")]);
    let friends = NodeCycle.get_friends(&db, &Route::to(&node("Y")));
    assert_eq!(friends, vec![edge("X", "Y")]);
}

#[test]
fn an_edge_to_an_absent_node_is_no_friend() {
    let db = with(vec![node("X"), edge("X", "Y")]);
    let friends = NodeCycle.get_friends(&db, &Route::to(&node("X")));
    assert!(friends.is_empty());
    assert!(NodeCycle.stop_friends(&friends));
}

#[test]
fn a_loop_is_a_friend_of_its_node() {
    let db = with(vec![node("X"), edge("X", "X")]);
    let friends = NodeCycle.get_friends(&db, &Route::to(&node("X")));
    assert_eq!(friends, vec![edge("X", "X")]);
}

#[test]
fn friends_come_edges_first_and_by_hash() {
    let db = with(vec![
        node("X"),
        node("Y"),
        node("Z"),
        edge("X", "Y"),
        edge("Y", "Z"),
        path(&[("Y", "Z"), ("Z", "X")]),
        path(&[("W", "X"), ("X", "Y")]),
        path(&[("X", "Z")]),
    ]);
    let friends = NodeCycle.get_friends(&db, &Route::to(&node("Y")));
    let mut expected_paths = vec![path(&[("Y", "Z"), ("Z", "X")]), path(&[("W", "X"), ("X", "Y")])];
    expected_paths.sort_by_key(|path| path.content_hash());
    let mut expected = vec![edge("Y", "Z"), edge("X", "Y")];
    assert!(edge("Y", "Z").content_hash() < edge("X", "Y").content_hash());
    expected.extend(expected_paths);
    assert_eq!(friends, expected);
}

#[test]
fn a_node_befriends_paths_that_start_or_end_at_it() {
    let db = with(vec![
        node("Y"),
        edge("Q", "R"),
        path(&[("X", "Y")]),
        path(&[("Y", "Z")]),
        path(&[("X", "Z")]),
        path(&[("X", "Y"), ("Y", "Z")]),
    ]);
    let mut friends = NodeCycle.get_friends(&db, &Route::to(&node("Y")));
    let mut expected = vec![path(&[("X", "Y")]), path(&[("Y", "Z")])];
    friends.sort_by_key(|f| f.content_hash());
    expected.sort_by_key(|f| f.content_hash());
    assert_eq!(friends, expected);
}

#[test]
fn an_edge_befriends_what_meets_it_at_either_end() {
    let db = with(vec![
        node("W"),
        node("X"),
        node("Y"),
        node("Z"),
        edge("X", "Y"),
        edge("W", "X"),
        edge("Y", "Z"),
        edge("Z", "W"),
        edge("Q", "X"),
        path(&[("Z", "W"), ("W", "X")]),
        path(&[("Y", "Z"), ("Z", "W")]),
        path(&[("Z", "W")]),
    ]);
    let mut friends = EdgeCycle.get_friends(&db, &Route::to(&edge("X", "Y")));
    let mut expected = vec![
        edge("W", "X"),
        edge("Y", "Z"),
        path(&[("Z", "W"), ("W", "X")]),
        path(&[("Y", "Z"), ("Z", "W")]),
    ];
    let by_kind_and_hash = |f: &Entity| (matches!(f, Entity::GraphPath(_)), f.content_hash());
    expected.sort_by_key(by_kind_and_hash);
    assert_eq!(friends, expected);
    friends.clear();
}

#[test]
fn a_path_befriends_its_stored_edges() {
    let db = with(vec![
        edge("X", "Y"),
        edge("Z", "W"),
        edge("Q", "R"),
        path(&[("X", "Y"), ("Y", "Z"), ("Z", "W")]),
    ]);
    let route = Route::to(&path(&[("X", "Y"), ("Y", "Z"), ("Z", "W")]));
    let mut friends = GraphPathCycle.get_friends(&db, &route);
    let mut expected = vec![edge("X", "Y"), edge("Z", "W")];
    friends.sort_by_key(|f| f.content_hash());
    expected.sort_by_key(|f| f.content_hash());
    assert_eq!(friends, expected);
}

#[test]
fn an_input_file_has_no_friends() {
    let db = with(vec![file("f"), node("X"), node("Y"), edge("X", "Y"), path(&[("X", "Y")])]);
    let friends = InputFileCycle.get_friends(&db, &Route::to(&file("f")));
    assert!(friends.is_empty());
}

#[test]
fn a_dangling_route_has_no_friends() {
    let db = with(vec![node("X"), node("Z"), edge("Y", "Z"), edge("X", "Y")]);
    assert!(NodeCycle.get_friends(&db, &Route::to(&node("Y"))).is_empty());
    assert!(EdgeCycle.get_friends(&db, &Route::to(&edge("Z", "X"))).is_empty());
    assert!(GraphPathCycle.get_friends(&db, &Route::to(&path(&[("X", "Y")]))).is_empty());
    assert!(NodeCycle.get_friends(&Database::new(), &Route::to(&node("Y"))).is_empty());
}

#[test]
fn friendship_tests_agree_with_the_scan() {
    let db = with(vec![node("X"), node("Y"), edge("X", "Y")]);
    assert!(check_edge(&db, &node("X"), &e("X", "Y")));
    assert!(!check_edge(&db, &node("X"), &e("X", "Z")));
    assert!(!check_edge(&db, &node("Z"), &e("X", "Y")));
    assert!(check_edge(&db, &edge("Y", "X"), &e("X", "Y")));
    assert!(!check_edge(&db, &edge("Q", "R"), &e("X", "Y")));
    assert!(check_edge(&db, &path(&[("X", "Y")]), &e("X", "Y")));
    assert!(!check_edge(&db, &file("f"), &e("X", "Y")));
    assert!(check_path(&node("X"), &p(&[("X", "Y")])));
    assert!(check_path(&node("Y"), &p(&[("X", "Y")])));
    assert!(!check_path(&node("Z"), &p(&[("X", "Y")])));
    assert!(check_path(&edge("Y", "Z"), &p(&[("X", "Y")])));
    assert!(check_path(&edge("W", "X"), &p(&[("X", "Y")])));
    assert!(!check_path(&edge("X", "Z"), &p(&[("X", "Y")])));
    assert!(!check_path(&path(&[("X", "Y")]), &p(&[("X", "Y")])));
    assert!(!check_path(&file("f"), &p(&[("X", "Y")])));
    assert_eq!(gather_friends(&db, &node("X")), vec![edge("X", "Y")]);
}

#[test]
fn stop_friends_is_emptiness() {
    assert!(NodeCycle.stop_friends(&vec![]));
    assert!(!NodeCycle.stop_friends(&vec![edge("X", "Y")]));
    assert!(EdgeCycle.stop_friends(&vec![]));
    assert!(!GraphPathCycle.stop_friends(&vec![edge("X", "Y")]));
    assert!(InputFileCycle.stop_friends(&vec![]));
}

#[test]
fn join_takes_two_that_meet_at_the_node() {
    assert_eq!(
        join(&n("Y"), &edge("X", "Y"), &edge("Y", "Z")),
        Some(path(&[("X", "Y"), ("Y", "Z")]))
    );
    assert_eq!(join(&n("Y"), &edge("Y", "Z"), &edge("X", "Y")), None);
    assert_eq!(join(&n("X"), &edge("X", "Y"), &edge("Y", "Z")), None);
    assert_eq!(
        join(&n("Z"), &path(&[("X", "Y"), ("Y", "Z")]), &edge("Z", "W")),
        Some(path(&[("X", "Y"), ("Y", "Z"), ("Z", "W")]))
    );
    assert_eq!(
        join(&n("X"), &edge("W", "X"), &path(&[("X", "Y"), ("Y", "Z")])),
        Some(path(&[("W", "X"), ("X", "Y"), ("Y", "Z")]))
    );
    assert_eq!(join(&n("Y"), &path(&[("X", "Y")]), &path(&[("Y", "Z")])), None);
    assert_eq!(join(&n("Y"), &node("Y"), &edge("Y", "Z")), None);
    assert_eq!(join(&n("Y"), &edge("X", "Y"), &file("Y")), None);
}

#[test]
fn a_node_joins_what_ends_at_it_with_what_starts_from_it() {
    let friends = vec![edge("Y", "Z"), edge("X", "Y")];
    let found = NodeCycle.search(&node("Y"), &friends);
    assert_eq!(found, vec![path(&[("X", "Y"), ("Y", "Z")])]);
}

#[test]
fn a_node_pairs_every_way_in_with_every_way_out() {
    let friends = vec![edge("A", "Y"), edge("Y", "C"), edge("B", "Y"), edge("Y", "D")];
    let found = search_node(&n("Y"), &friends);
    assert_eq!(
        found,
        vec![
            path(&[("A", "Y"), ("Y", "C")]),
            path(&[("A", "Y"), ("Y", "D")]),
            path(&[("B", "Y"), ("Y", "C")]),
            path(&[("B", "Y"), ("Y", "D")]),
        ]
    );
}

#[test]
fn a_node_extends_paths_at_their_open_end() {
    let friends = vec![
        edge("Y", "Z"),
        edge("X", "Y"),
        path(&[("W", "X"), ("X", "Y")]),
        path(&[("Y", "Z"), ("Z", "Q")]),
    ];
    let found = search_node(&n("Y"), &friends);
    assert_eq!(
        found,
        vec![
            path(&[("X", "Y"), ("Y", "Z")]),
            path(&[("X", "Y"), ("Y", "Z"), ("Z", "Q")]),
            path(&[("W", "X"), ("X", "Y"), ("Y", "Z")]),
        ]
    );
}

#[test]
fn a_node_with_a_loop_walks_it_twice() {
    let found = search_node(&n("X"), &vec![edge("X", "X")]);
    assert_eq!(found, vec![path(&[("X", "X"), ("X", "X")])]);
}

#[test]
fn an_edge_is_stitched_in_at_the_right_end() {
    let friends = vec![
        edge("W", "X"),
        edge("Y", "Z"),
        path(&[("V", "W"), ("W", "X")]),
        path(&[("Y", "Z"), ("Z", "Q")]),
        edge("Q", "R"),
    ];
    let found = EdgeCycle.search(&edge("X", "Y"), &friends);
    assert_eq!(
        found,
        vec![
            path(&[("W", "X"), ("X", "Y")]),
            path(&[("X", "Y"), ("Y", "Z")]),
            path(&[("V", "W"), ("W", "X"), ("X", "Y")]),
            path(&[("X", "Y"), ("Y", "Z"), ("Z", "Q")]),
        ]
    );
    assert_eq!(search_edge(&e("X", "Y"), &friends), found);
}

#[test]
fn a_friend_at_both_ends_is_stitched_twice() {
    let found = search_edge(&e("X", "Y"), &vec![edge("Y", "X")]);
    assert_eq!(found, vec![path(&[("Y", "X"), ("X", "Y")]), path(&[("X", "Y"), ("Y", "X")])]);
}

#[test]
fn paths_and_input_files_derive_nothing() {
    let friends = vec![edge("X", "Y"), edge("Y", "Z"), path(&[("X", "Y")])];
    assert!(GraphPathCycle.search(&path(&[("X", "Y")]), &friends).is_empty());
    assert!(InputFileCycle.search(&file("f"), &friends).is_empty());
    assert!(search(&path(&[("X", "Y")]), &friends).is_empty());
    assert!(search(&file("f"), &friends).is_empty());
}

#[test]
fn search_dispatches_on_the_subject() {
    let friends = vec![edge("Y", "Z"), edge("X", "Y")];
    assert_eq!(search(&node("Y"), &friends), search_node(&n("Y"), &friends));
    assert_eq!(search(&edge("X", "Y"), &friends), search_edge(&e("X", "Y"), &friends));
}

#[test]
fn a_cycle_derives_nothing_from_another_kind() {
    let friends = vec![edge("Y", "Z"), edge("X", "Y")];
    assert!(NodeCycle.search(&edge("X", "Y"), &friends).is_empty());
    assert!(EdgeCycle.search(&node("Y"), &friends).is_empty());
}

#[test]
fn search_without_friends_finds_nothing() {
    assert!(NodeCycle.search(&node("Y"), &vec![]).is_empty());
    assert!(EdgeCycle.search(&edge("X", "Y"), &vec![]).is_empty());
}

#[test]
fn every_derived_path_is_a_walk() {
    let friends = vec![
        edge("A", "Y"),
        edge("Y", "C"),
        edge("Y", "Y"),
        edge("C", "D"),
        path(&[("Q", "A"), ("A", "Y")]),
        path(&[("Y", "C"), ("C", "D")]),
        path(&[("Y", "Y")]),
        node("Y"),
        file("Y"),
    ];
    let from_node = search_node(&n("Y"), &friends);
    assert!(!from_node.is_empty());
    assert!(from_node.iter().all(is_contiguous));
    let from_edge = search_edge(&e("Y", "C"), &friends);
    assert!(!from_edge.is_empty());
    assert!(from_edge.iter().all(is_contiguous));
    let from_loop = search_edge(&e("Y", "Y"), &friends);
    assert!(from_loop.iter().all(is_contiguous));
}

#[test]
fn save_through_a_cycle_drops_duplicates() {
    let mut db = with(vec![path(&[("X", "Y")])]);
    let candidates = vec![path(&[("X", "Y")]), path(&[("Y", "Z")]), path(&[("Y", "Z")])];
    let routes = NodeCycle.save(&mut db, candidates);
    assert_eq!(routes, vec![None, Some(Route::to(&path(&[("Y", "Z")]))), None]);
    assert_eq!(db.count(EntityKind::GraphPath), 2);
    let again = EdgeCycle.save(&mut db, vec![path(&[("Y", "Z")])]);
    assert_eq!(again, vec![None]);
    assert_eq!(db.count(EntityKind::GraphPath), 2);
}

#[test]
fn only_the_path_cycle_is_public() {
    assert!(!NodeCycle.public());
    assert!(!EdgeCycle.public());
    assert!(!InputFileCycle.public());
    assert!(GraphPathCycle.public());
}

#[test]
fn the_route_picks_the_cycle() {
    assert!(matches!(Cycle::for_route(&Route::to(&node("X"))), Cycle::Node(_)));
    assert!(matches!(Cycle::for_route(&Route::to(&edge("X", "Y"))), Cycle::Edge(_)));
    assert!(matches!(Cycle::for_route(&Route::to(&file("f"))), Cycle::InputFile(_)));
    assert!(matches!(Cycle::for_route(&Route::to(&path(&[("X", "Y")]))), Cycle::GraphPath(_)));
    assert!(matches!(Cycle::of(EntityKind::Edge), Cycle::Edge(_)));
    assert!(Cycle::of(EntityKind::GraphPath).public());
    assert!(!Cycle::of(EntityKind::Node).public());
}

#[test]
fn the_picked_cycle_follows_its_kind() {
    let db = with(vec![node("X"), node("Y"), edge("X", "Y")]);
    let route = Route::to(&node("X"));
    let cycle = Cycle::for_route(&route);
    assert!(!cycle.stop_categorically(&db));
    assert_eq!(cycle.get_data(&db, &route), Some(node("X")));
    assert!(!cycle.stop_data(&node("X"), &db));
    assert_eq!(cycle.get_friends(&db, &route), vec![edge("X", "Y")]);
    assert!(!cycle.stop_friends(&vec![edge("X", "Y")]));
    assert!(cycle.search(&node("X"), &vec![edge("X", "Y")]).is_empty());
    let edge_route = Route::to(&edge("X", "Y"));
    let edge_cycle = Cycle::for_route(&edge_route);
    assert_eq!(edge_cycle.get_data(&db, &edge_route), Some(edge("X", "Y")));
    assert_eq!(edge_cycle.get_data(&db, &route), None);
}

#[test]
fn a_cycle_ends_at_the_first_test_that_holds() {
    let x = Route::to(&node("X"));
    let mut no_edges = with(vec![node("X")]);
    let turn = run_cycle(&NodeCycle, &mut no_edges, &x);
    assert_eq!(turn.ending, Ending::StoppedCategorically);
    assert!(turn.fresh.is_empty());

    let mut dangling = with(vec![edge("X", "Y")]);
    let turn = run_cycle(&NodeCycle, &mut dangling, &x);
    assert_eq!(turn.ending, Ending::StoppedOnData);
    assert!(turn.fresh.is_empty());

    let xy = Route::to(&edge("X", "Y"));
    let mut unsupported = with(vec![node("X"), edge("X", "Y")]);
    let turn = run_cycle(&EdgeCycle, &mut unsupported, &xy);
    assert_eq!(turn.ending, Ending::StoppedOnData);

    let mut friendless = with(vec![node("X"), edge("X", "Y")]);
    let before = contents(&friendless);
    let turn = run_cycle(&NodeCycle, &mut friendless, &x);
    assert_eq!(turn.ending, Ending::StoppedOnFriends);
    assert!(turn.fresh.is_empty());
    assert_eq!(contents(&friendless), before);
}

#[test]
fn a_cycle_that_runs_through_saves_what_it_found() {
    let mut db = with(vec![node("X"), node("Y"), node("Z"), edge("X", "Y"), edge("Y", "Z")]);
    let y = Route::to(&node("Y"));
    let turn = run_cycle(&Cycle::for_route(&y), &mut db, &y);
    assert_eq!(turn.ending, Ending::Saved);
    let xyz = path(&[("X", "Y"), ("Y", "Z")]);
    assert_eq!(turn.fresh, vec![Route::to(&xyz)]);
    assert!(db.holds(&xyz));
    assert_eq!(db.count(EntityKind::GraphPath), 1);

    let again = run_cycle(&Cycle::for_route(&y), &mut db, &y);
    assert_eq!(again.ending, Ending::Saved);
    assert!(again.fresh.is_empty());
    assert_eq!(db.count(EntityKind::GraphPath), 1);
}

#[test]
fn a_cycle_with_the_rules_of_another_kind_stops_on_data() {
    let mut db = with(vec![node("X"), node("Y"), edge("X", "Y")]);
    let x = Route::to(&node("X"));
    let turn = run_cycle(&EdgeCycle, &mut db, &x);
    assert_eq!(turn.ending, Ending::StoppedOnData);
}
