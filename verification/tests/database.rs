use silkworm::{Database, Edge, Entity, EntityKind, GraphPath, InputFile, Node, Route};

fn node(label: &str) -> Entity {
    Entity::Node(Node::new(label))
}

fn edge(from: &str, to: &str) -> Entity {
    Entity::Edge(Edge::new(Node::new(from), Node::new(to)))
}

fn file(contents: &str) -> Entity {
    Entity::InputFile(InputFile::new(contents))
}

fn path(steps: &[(&str, &str)]) -> Entity {
    let edges = steps.iter().map(|(a, b)| Edge::new(Node::new(a), Node::new(b))).collect();
    Entity::GraphPath(GraphPath::new(edges).unwrap())
}

fn with(entities: Vec<Entity>) -> Database {
    let mut db = Database::new();
    for e in entities {
        db.insert(e);
    }
    db
}

fn contents(db: &Database) -> Vec<Entity> {
    let mut all = db.entities(EntityKind::Node);
    all.extend(db.entities(EntityKind::Edge));
    all.extend(db.entities(EntityKind::InputFile));
    all.extend(db.entities(EntityKind::GraphPath));
    all
}

const KINDS: [EntityKind; 4] =
    [EntityKind::Node, EntityKind::Edge, EntityKind::InputFile, EntityKind::GraphPath];

#[test]
fn a_new_database_is_empty() {
    let db = Database::new();
    for kind in KINDS {
        assert_eq!(db.count(kind), 0);
        assert!(db.keys(kind).is_empty());
        assert!(db.entities(kind).is_empty());
    }
}

#[test]
fn insert_returns_the_route_of_a_new_entity() {
    let mut db = Database::new();
    let route = db.insert(node("X"));
    assert_eq!(route, Some(Route::new(EntityKind::Node, 0xe49804263241642f)));
    assert_eq!(db.count(EntityKind::Node), 1);
    assert_eq!(db.get(&route.unwrap()), Some(node("X")));
}

#[test]
fn saving_twice_stores_once() {
    for entity in [node("X"), edge("X", "Y"), file("hello"), path(&[("X", "Y"), ("Y", "Z")])] {
        let mut db = Database::new();
        let first = db.insert(entity.clone());
        assert_eq!(first, Some(Route::to(&entity)));
        let after_first = contents(&db);
        let second = db.insert(entity.clone());
        assert_eq!(second, None);
        assert_eq!(contents(&db), after_first);
        assert_eq!(db.count(entity.kind()), 1);
        assert_eq!(db.keys(entity.kind()), vec![entity.content_hash()]);
    }
}

#[test]
fn each_kind_has_its_own_table() {
    let db = with(vec![node("X"), edge("X", "Y"), file("hello"), path(&[("X", "Y")])]);
    for kind in KINDS {
        assert_eq!(db.count(kind), 1);
    }
    assert_eq!(db.entities(EntityKind::Node), vec![node("X")]);
    assert_eq!(db.entities(EntityKind::Edge), vec![edge("X", "Y")]);
    assert_eq!(db.entities(EntityKind::InputFile), vec![file("hello")]);
    assert_eq!(db.entities(EntityKind::GraphPath), vec![path(&[("X", "Y")])]);
}

#[test]
fn a_dangling_route_resolves_to_nothing() {
    let db = with(vec![node("X")]);
    let missing = Route::to(&node("Y"));
    assert_eq!(db.get(&missing), None);
    assert!(!db.occupied(&missing));
    let empty = Database::new();
    assert_eq!(empty.get(&Route::to(&node("X"))), None);
}

#[test]
fn a_route_resolves_in_the_table_of_its_kind_only() {
    let db = with(vec![node("X")]);
    let hash = node("X").content_hash();
    assert_eq!(db.get(&Route::new(EntityKind::Node, hash)), Some(node("X")));
    assert_eq!(db.get(&Route::new(EntityKind::Edge, hash)), None);
    assert_eq!(db.get(&Route::new(EntityKind::InputFile, hash)), None);
    assert_eq!(db.get(&Route::new(EntityKind::GraphPath, hash)), None);
}

#[test]
fn holds_asks_for_the_very_entity() {
    let db = with(vec![node("X"), edge("X", "Y"), file("f"), path(&[("X", "Y")])]);
    assert!(db.holds(&node("X")));
    assert!(!db.holds(&node("Y")));
    assert!(db.holds(&edge("X", "Y")));
    assert!(!db.holds(&edge("Y", "X")));
    assert!(db.holds(&file("f")));
    assert!(!db.holds(&file("g")));
    assert!(db.holds(&path(&[("X", "Y")])));
    assert!(!db.holds(&path(&[("X", "Y"), ("Y", "Z")])));
    assert!(db.has_node(&Node::new("X")));
    assert!(!db.has_node(&Node::new("Z")));
    assert!(db.has_edge(&Edge::new(Node::new("X"), Node::new("Y"))));
    assert!(!db.has_edge(&Edge::new(Node::new("X"), Node::new("Z"))));
}

#[test]
fn typed_lookups_go_by_hash() {
    let db = with(vec![node("X"), edge("X", "Y"), file("f"), path(&[("X", "Y")])]);
    assert_eq!(db.node(node("X").content_hash()), Some(&Node::new("X")));
    assert_eq!(db.node(node("Y").content_hash()), None);
    assert_eq!(
        db.edge(edge("X", "Y").content_hash()),
        Some(&Edge::new(Node::new("X"), Node::new("Y")))
    );
    assert_eq!(db.edge(0), None);
    assert_eq!(db.input_file(file("f").content_hash()), Some(&InputFile::new("f")));
    assert_eq!(db.input_file(1), None);
    assert!(db.path(path(&[("X", "Y")]).content_hash()).is_some());
    assert!(db.path(2).is_none());
}

#[test]
fn keys_come_smallest_first() {
    let db = with(vec![node("W"), node("X"), node("Y"), node("Z")]);
    assert_eq!(
        db.keys(EntityKind::Node),
        vec![
            16471919099694375548,
            16471920199206003759,
            16471922398229260181,
            16471925696764144814
        ]
    );
    assert_eq!(db.entities(EntityKind::Node), vec![node("Y"), node("X"), node("Z"), node("W")]);
}

#[test]
fn insertion_order_is_irrelevant() {
    let forward = with(vec![node("X"), node("Y"), edge("X", "Y"), edge("Y", "Z")]);
    let backward = with(vec![edge("Y", "Z"), edge("X", "Y"), node("Y"), node("X")]);
    assert_eq!(contents(&forward), contents(&backward));
}

#[test]
fn save_reports_each_candidate() {
    let mut db = with(vec![node("X")]);
    let routes = db.save(vec![node("X"), node("Y"), node("Y"), edge("X", "Y")]);
    assert_eq!(
        routes,
        vec![None, Some(Route::to(&node("Y"))), None, Some(Route::to(&edge("X", "Y")))]
    );
    assert_eq!(db.count(EntityKind::Node), 2);
    assert_eq!(db.count(EntityKind::Edge), 1);
    assert_eq!(db.save(vec![]), vec![]);
}

#[test]
fn union_holds_what_either_holds() {
    let a = with(vec![node("X"), node("Y"), edge("X", "Y")]);
    let b = with(vec![node("Z"), edge("Y", "Z"), node("Y")]);
    let both = a.union(&b);
    for e in [node("X"), node("Y"), node("Z"), edge("X", "Y"), edge("Y", "Z")] {
        assert!(both.holds(&e));
    }
    assert_eq!(both.count(EntityKind::Node), 3);
    assert_eq!(both.count(EntityKind::Edge), 2);
    assert_eq!(both.count(EntityKind::InputFile), 0);
    assert_eq!(both.count(EntityKind::GraphPath), 0);
}

#[test]
fn union_leaves_its_operands_alone() {
    let a = with(vec![node("X")]);
    let b = with(vec![node("Y")]);
    let _ = a.union(&b);
    assert_eq!(contents(&a), vec![node("X")]);
    assert_eq!(contents(&b), vec![node("Y")]);
}

#[test]
fn union_is_commutative() {
    let a = with(vec![node("X"), node("Y"), edge("X", "Y"), file("f")]);
    let b = with(vec![node("Z"), edge("Y", "Z"), node("Y"), path(&[("X", "Y"), ("Y", "Z")])]);
    assert_eq!(contents(&a.union(&b)), contents(&b.union(&a)));
}

#[test]
fn union_with_nothing_and_with_itself() {
    let a = with(vec![node("X"), edge("X", "Y")]);
    assert_eq!(contents(&a.union(&Database::new())), contents(&a));
    assert_eq!(contents(&Database::new().union(&a)), contents(&a));
    assert_eq!(contents(&a.union(&a)), contents(&a));
}

#[test]
fn merge_order_is_irrelevant_for_every_partition() {
    let all = vec![
        node("X"),
        node("Y"),
        node("Z"),
        edge("X", "Y"),
        edge("Y", "Z"),
        file("f"),
        path(&[("X", "Y"), ("Y", "Z")]),
    ];
    let expected = contents(&with(all.clone()));
    let parts = 3usize;
    let mut assignment = vec![0usize; all.len()];
    loop {
        let mut dbs = vec![Database::new(), Database::new(), Database::new()];
        for (entity, part) in all.iter().zip(assignment.iter()) {
            dbs[*part].insert(entity.clone());
        }
        let ab_c = dbs[0].union(&dbs[1]).union(&dbs[2]);
        let bc_a = dbs[1].union(&dbs[2]).union(&dbs[0]);
        let a_bc = dbs[0].union(&dbs[1].union(&dbs[2]));
        assert_eq!(contents(&ab_c), expected);
        assert_eq!(contents(&bc_a), expected);
        assert_eq!(contents(&a_bc), expected);
        let mut i = 0;
        while i < assignment.len() {
            assignment[i] += 1;
            if assignment[i] < parts {
                break;
            }
            assignment[i] = 0;
            i += 1;
        }
        if i == assignment.len() {
            break;
        }
    }
}

#[test]
fn a_clone_holds_the_same() {
    let a = with(vec![node("X"), edge("X", "Y"), file("f"), path(&[("X", "Y")])]);
    let mut b = a.clone();
    assert_eq!(contents(&a), contents(&b));
    b.insert(node("Q"));
    assert_eq!(a.count(EntityKind::Node), 1);
    assert_eq!(b.count(EntityKind::Node), 2);
}

const TWIN_A: &str = "cb3b9f652ed7319f";
const TWIN_B: &str = "97221e15280c0c85";

#[test]
fn two_different_nodes_can_share_a_content_hash() {
    assert_ne!(node(TWIN_A), node(TWIN_B));
    assert_ne!(node(TWIN_A).encoding(), node(TWIN_B).encoding());
    assert_eq!(node(TWIN_A).content_hash(), 0xf69b6a28a4ee0889);
    assert_eq!(node(TWIN_B).content_hash(), 0xf69b6a28a4ee0889);
    assert_eq!(node("78985aa48c362832").content_hash(), node("d8cda62b206c7dd8").content_hash());
}

#[test]
fn the_second_of_two_that_share_a_hash_is_taken_for_a_duplicate() {
    let mut db = Database::new();
    let first = db.insert(node(TWIN_A));
    assert_eq!(first, Some(Route::new(EntityKind::Node, 0xf69b6a28a4ee0889)));
    assert_eq!(db.insert(node(TWIN_B)), None);
    assert_eq!(db.count(EntityKind::Node), 1);
    assert!(db.holds(&node(TWIN_A)));
    assert!(!db.holds(&node(TWIN_B)));
    assert!(db.occupied(&Route::to(&node(TWIN_B))));
    assert_eq!(db.get(&Route::to(&node(TWIN_B))), Some(node(TWIN_A)));
}

#[test]
fn union_keeps_the_entry_of_the_left_where_two_share_a_hash() {
    let a = with(vec![node(TWIN_A), node("X")]);
    let b = with(vec![node(TWIN_B), node("Y")]);
    let ab = a.union(&b);
    let ba = b.union(&a);
    assert!(ab.holds(&node(TWIN_A)));
    assert!(!ab.holds(&node(TWIN_B)));
    assert!(ba.holds(&node(TWIN_B)));
    assert!(!ba.holds(&node(TWIN_A)));
    assert_ne!(contents(&ab), contents(&ba));
    assert_eq!(ab.count(EntityKind::Node), 3);
    assert_eq!(ba.count(EntityKind::Node), 3);
    assert!(ab.holds(&node("X")) && ab.holds(&node("Y")));
}
