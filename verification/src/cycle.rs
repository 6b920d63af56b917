//! The derivation cycle: the rules that decide, for one queued route, whether
//! to go on, what is adjacent, what to derive and what to keep.
use vstd::prelude::*;
use crate::adjacency::{friends_of, gather_friends};
use crate::database::{Database, DatabaseView};
use crate::entity::{
    edge_views, entity_views, view_of, Entity, EntityKind, EntityView, PathView,
};
use crate::route::Route;
use crate::stitch::{all_walks, derived, search_edge, search_node};

verus! {

/// The table that a cycle of `kind` cannot work without: a node needs edges
/// to connect to, an edge needs nodes for endpoints, a path needs the edges it
/// runs over, an input file needs input files.
pub open spec fn needs(kind: EntityKind) -> EntityKind {
    match kind {
        EntityKind::Node => EntityKind::Edge,
        EntityKind::Edge => EntityKind::Node,
        EntityKind::InputFile => EntityKind::InputFile,
        EntityKind::GraphPath => EntityKind::Edge,
    }
}

/// Whether a cycle of `kind` stops before it looks at any entity: the table
/// that it needs is empty.
pub open spec fn stops_categorically(kind: EntityKind, db: DatabaseView) -> bool {
    db.keys(needs(kind)).len() == 0
}

/// What a cycle of `kind` resolves `route` to: the entity stored there, if
/// the route is of that kind and does not dangle.
pub open spec fn data_at(kind: EntityKind, db: DatabaseView, route: Route) -> Option<EntityView> {
    if route.kind == kind {
        db.lookup(route)
    } else {
        None
    }
}

/// Whether the database holds every edge of `path`.
pub open spec fn path_supported(db: DatabaseView, path: PathView) -> bool {
    forall|i: int| 0 <= i < path.edges.len() ==> #[trigger] db.has_edge(path.edges[i])
}

/// Whether the database holds what `entity` structurally rests on: a node or
/// an input file itself, both endpoints of an edge, every edge of a path.
pub open spec fn supported(db: DatabaseView, entity: EntityView) -> bool {
    match entity {
        EntityView::Node(n) => db.has_node(n),
        EntityView::Edge(e) => db.has_node(e.from) && db.has_node(e.to),
        EntityView::InputFile(_) => db.holds(entity),
        EntityView::GraphPath(p) => path_supported(db, p),
    }
}

/// Whether a cycle of `kind` stops on `data`: the entity is of another kind,
/// or the database does not support it. What is missing counts as unmet.
pub open spec fn stops_on_data(kind: EntityKind, data: EntityView, db: DatabaseView) -> bool {
    data.kind() != kind || !supported(db, data)
}

/// The friends that a cycle of `kind` finds for `route`: those of the entity
/// it resolves to, and none where the route dangles.
pub open spec fn friends_at(kind: EntityKind, db: DatabaseView, route: Route) -> Seq<EntityView> {
    match data_at(kind, db, route) {
        Some(entity) => friends_of(db, entity),
        None => Seq::empty(),
    }
}

/// What a cycle of `kind` derives from `data` and `friends`; nothing from an
/// entity of another kind.
pub open spec fn found_by(kind: EntityKind, data: EntityView, friends: Seq<EntityView>) -> Seq<
    EntityView,
> {
    if data.kind() == kind {
        derived(data, friends)
    } else {
        Seq::empty()
    }
}

/// Whether what a cycle of `kind` newly saves goes to the global queue. Only
/// the path cycle is public.
pub open spec fn is_public(kind: EntityKind) -> bool {
    kind == EntityKind::GraphPath
}

/// Decides [`supported`].
pub fn check_supported(db: &Database, entity: &Entity) -> (held: bool)
    ensures
        held == supported(db@, entity@),
{
    match entity {
        Entity::Node(n) => db.has_node(n),
        Entity::Edge(e) => db.has_node(&e.from) && db.has_node(&e.to),
        Entity::InputFile(_) => db.holds(entity),
        Entity::GraphPath(p) => {
            let edges = p.edges();
            let mut i: usize = 0;
            while i < edges.len()
                invariant
                    i <= edges.len(),
                    entity@ == EntityView::GraphPath(p@),
                    edge_views(edges@) == p@.edges,
                    forall|j: int| 0 <= j < i ==> #[trigger] db@.has_edge(p@.edges[j]),
                decreases edges.len() - i,
            {
                if !db.has_edge(&edges[i]) {
                    assert(!db@.has_edge(p@.edges[i as int]));
                    return false;
                }
                i += 1;
            }
            true
        },
    }
}

/// The rule set of one entity kind: the steps of the derivation cycle, each
/// decided for that kind.
pub trait DataCycle {
    /// The kind of entity whose rules these are.
    spec fn kind(&self) -> EntityKind;

    /// A cheap test on the whole database that ends the cycle before any
    /// entity is looked at.
    fn stop_categorically(&self, db: &Database) -> (stop: bool)
        ensures
            stop == stops_categorically(self.kind(), db@),
    ;

    /// Resolves `route` in `db`. A dangling route, or one of another kind,
    /// resolves to nothing.
    fn get_data(&self, db: &Database, route: &Route) -> (data: Option<Entity>)
        ensures
            view_of(data) == data_at(self.kind(), db@, *route),
    ;

    /// Whether the cycle ends because `db` does not hold what `data` rests on.
    fn stop_data(&self, data: &Entity, db: &Database) -> (stop: bool)
        ensures
            stop == stops_on_data(self.kind(), data@, db@),
    ;

    /// The entities of `db` adjacent to the one that `route` points at.
    fn get_friends(&self, db: &Database, route: &Route) -> (friends: Vec<Entity>)
        ensures
            entity_views(friends@) == friends_at(self.kind(), db@, *route),
    ;

    /// Whether the cycle ends for want of friends.
    fn stop_friends(&self, friends: &Vec<Entity>) -> (stop: bool)
        ensures
            stop == (friends@.len() == 0),
    ;

    /// The combination rule: what `data` and `friends` derive.
    fn search(&self, data: &Entity, friends: &Vec<Entity>) -> (found: Vec<Entity>)
        ensures
            entity_views(found@) == found_by(self.kind(), data@, entity_views(friends@)),
            all_walks(entity_views(found@)),
    ;

    /// Saves the candidates in order and returns, for each, its route if it
    /// was new and nothing if it was a duplicate.
    fn save(&self, db: &mut Database, new_data: Vec<Entity>) -> (routes: Vec<Option<Route>>)
        ensures
            final(db)@ == old(db)@.saved_all(entity_views(new_data@)),
            routes@ == old(db)@.save_routes(entity_views(new_data@)),
    ;

    /// Whether newly saved entities are announced on the global queue rather
    /// than worked off locally.
    fn public(&self) -> (public: bool)
        ensures
            public == is_public(self.kind()),
    ;
}

/// The rules of a node.
#[derive(Clone, Copy, Debug)]
pub struct NodeCycle;

/// The rules of an edge.
#[derive(Clone, Copy, Debug)]
pub struct EdgeCycle;

/// The rules of an input file.
#[derive(Clone, Copy, Debug)]
pub struct InputFileCycle;

/// The rules of a path.
#[derive(Clone, Copy, Debug)]
pub struct GraphPathCycle;

fn resolve(kind: EntityKind, db: &Database, route: &Route) -> (data: Option<Entity>)
    ensures
        view_of(data) == data_at(kind, db@, *route),
{
    if route.kind == kind {
        db.get(route)
    } else {
        None
    }
}

fn friends_through(kind: EntityKind, db: &Database, route: &Route) -> (friends: Vec<Entity>)
    ensures
        entity_views(friends@) == friends_at(kind, db@, *route),
{
    match resolve(kind, db, route) {
        Some(entity) => gather_friends(db, &entity),
        None => {
            let friends: Vec<Entity> = Vec::new();
            friends
        },
    }
}

fn nothing_found() -> (found: Vec<Entity>)
    ensures
        entity_views(found@) == Seq::<EntityView>::empty(),
{
    let found: Vec<Entity> = Vec::new();
    found
}

impl DataCycle for NodeCycle {
    open spec fn kind(&self) -> EntityKind {
        EntityKind::Node
    }

    fn stop_categorically(&self, db: &Database) -> (stop: bool) {
        db.count(EntityKind::Edge) == 0
    }

    fn get_data(&self, db: &Database, route: &Route) -> (data: Option<Entity>) {
        resolve(EntityKind::Node, db, route)
    }

    fn stop_data(&self, data: &Entity, db: &Database) -> (stop: bool) {
        match data {
            Entity::Node(node) => !db.has_node(node),
            _ => true,
        }
    }

    fn get_friends(&self, db: &Database, route: &Route) -> (friends: Vec<Entity>) {
        friends_through(EntityKind::Node, db, route)
    }

    fn stop_friends(&self, friends: &Vec<Entity>) -> (stop: bool) {
        friends.len() == 0
    }

    fn search(&self, data: &Entity, friends: &Vec<Entity>) -> (found: Vec<Entity>) {
        match data {
            Entity::Node(node) => search_node(node, friends),
            _ => nothing_found(),
        }
    }

    fn save(&self, db: &mut Database, new_data: Vec<Entity>) -> (routes: Vec<Option<Route>>) {
        db.save(new_data)
    }

    fn public(&self) -> (public: bool) {
        false
    }
}

impl DataCycle for EdgeCycle {
    open spec fn kind(&self) -> EntityKind {
        EntityKind::Edge
    }

    fn stop_categorically(&self, db: &Database) -> (stop: bool) {
        db.count(EntityKind::Node) == 0
    }

    fn get_data(&self, db: &Database, route: &Route) -> (data: Option<Entity>) {
        resolve(EntityKind::Edge, db, route)
    }

    fn stop_data(&self, data: &Entity, db: &Database) -> (stop: bool) {
        match data {
            Entity::Edge(edge) => !(db.has_node(&edge.from) && db.has_node(&edge.to)),
            _ => true,
        }
    }

    fn get_friends(&self, db: &Database, route: &Route) -> (friends: Vec<Entity>) {
        friends_through(EntityKind::Edge, db, route)
    }

    fn stop_friends(&self, friends: &Vec<Entity>) -> (stop: bool) {
        friends.len() == 0
    }

    fn search(&self, data: &Entity, friends: &Vec<Entity>) -> (found: Vec<Entity>) {
        match data {
            Entity::Edge(edge) => search_edge(edge, friends),
            _ => nothing_found(),
        }
    }

    fn save(&self, db: &mut Database, new_data: Vec<Entity>) -> (routes: Vec<Option<Route>>) {
        db.save(new_data)
    }

    fn public(&self) -> (public: bool) {
        false
    }
}

impl DataCycle for InputFileCycle {
    open spec fn kind(&self) -> EntityKind {
        EntityKind::InputFile
    }

    fn stop_categorically(&self, db: &Database) -> (stop: bool) {
        db.count(EntityKind::InputFile) == 0
    }

    fn get_data(&self, db: &Database, route: &Route) -> (data: Option<Entity>) {
        resolve(EntityKind::InputFile, db, route)
    }

    fn stop_data(&self, data: &Entity, db: &Database) -> (stop: bool) {
        match data {
            Entity::InputFile(_) => !db.holds(data),
            _ => true,
        }
    }

    fn get_friends(&self, db: &Database, route: &Route) -> (friends: Vec<Entity>) {
        friends_through(EntityKind::InputFile, db, route)
    }

    fn stop_friends(&self, friends: &Vec<Entity>) -> (stop: bool) {
        friends.len() == 0
    }

    fn search(&self, data: &Entity, friends: &Vec<Entity>) -> (found: Vec<Entity>) {
        nothing_found()
    }

    fn save(&self, db: &mut Database, new_data: Vec<Entity>) -> (routes: Vec<Option<Route>>) {
        db.save(new_data)
    }

    fn public(&self) -> (public: bool) {
        false
    }
}

impl DataCycle for GraphPathCycle {
    open spec fn kind(&self) -> EntityKind {
        EntityKind::GraphPath
    }

    fn stop_categorically(&self, db: &Database) -> (stop: bool) {
        db.count(EntityKind::Edge) == 0
    }

    fn get_data(&self, db: &Database, route: &Route) -> (data: Option<Entity>) {
        resolve(EntityKind::GraphPath, db, route)
    }

    fn stop_data(&self, data: &Entity, db: &Database) -> (stop: bool) {
        match data {
            Entity::GraphPath(_) => !check_supported(db, data),
            _ => true,
        }
    }

    fn get_friends(&self, db: &Database, route: &Route) -> (friends: Vec<Entity>) {
        friends_through(EntityKind::GraphPath, db, route)
    }

    fn stop_friends(&self, friends: &Vec<Entity>) -> (stop: bool) {
        friends.len() == 0
    }

    fn search(&self, data: &Entity, friends: &Vec<Entity>) -> (found: Vec<Entity>) {
        nothing_found()
    }

    fn save(&self, db: &mut Database, new_data: Vec<Entity>) -> (routes: Vec<Option<Route>>) {
        db.save(new_data)
    }

    fn public(&self) -> (public: bool) {
        true
    }
}

/// The rule set picked by a route's kind tag.
#[derive(Clone, Copy, Debug)]
pub enum Cycle {
    Node(NodeCycle),
    Edge(EdgeCycle),
    InputFile(InputFileCycle),
    GraphPath(GraphPathCycle),
}

impl Cycle {
    /// The rules of `kind`.
    pub fn of(kind: EntityKind) -> (cycle: Self)
        ensures
            cycle.kind() == kind,
    {
        match kind {
            EntityKind::Node => Cycle::Node(NodeCycle),
            EntityKind::Edge => Cycle::Edge(EdgeCycle),
            EntityKind::InputFile => Cycle::InputFile(InputFileCycle),
            EntityKind::GraphPath => Cycle::GraphPath(GraphPathCycle),
        }
    }

    /// The rules that apply to `route`.
    pub fn for_route(route: &Route) -> (cycle: Self)
        ensures
            cycle.kind() == route.kind,
    {
        Cycle::of(route.kind)
    }
}

impl DataCycle for Cycle {
    open spec fn kind(&self) -> EntityKind {
        match self {
            Cycle::Node(c) => c.kind(),
            Cycle::Edge(c) => c.kind(),
            Cycle::InputFile(c) => c.kind(),
            Cycle::GraphPath(c) => c.kind(),
        }
    }

    fn stop_categorically(&self, db: &Database) -> (stop: bool) {
        match self {
            Cycle::Node(c) => c.stop_categorically(db),
            Cycle::Edge(c) => c.stop_categorically(db),
            Cycle::InputFile(c) => c.stop_categorically(db),
            Cycle::GraphPath(c) => c.stop_categorically(db),
        }
    }

    fn get_data(&self, db: &Database, route: &Route) -> (data: Option<Entity>) {
        match self {
            Cycle::Node(c) => c.get_data(db, route),
            Cycle::Edge(c) => c.get_data(db, route),
            Cycle::InputFile(c) => c.get_data(db, route),
            Cycle::GraphPath(c) => c.get_data(db, route),
        }
    }

    fn stop_data(&self, data: &Entity, db: &Database) -> (stop: bool) {
        match self {
            Cycle::Node(c) => c.stop_data(data, db),
            Cycle::Edge(c) => c.stop_data(data, db),
            Cycle::InputFile(c) => c.stop_data(data, db),
            Cycle::GraphPath(c) => c.stop_data(data, db),
        }
    }

    fn get_friends(&self, db: &Database, route: &Route) -> (friends: Vec<Entity>) {
        match self {
            Cycle::Node(c) => c.get_friends(db, route),
            Cycle::Edge(c) => c.get_friends(db, route),
            Cycle::InputFile(c) => c.get_friends(db, route),
            Cycle::GraphPath(c) => c.get_friends(db, route),
        }
    }

    fn stop_friends(&self, friends: &Vec<Entity>) -> (stop: bool) {
        match self {
            Cycle::Node(c) => c.stop_friends(friends),
            Cycle::Edge(c) => c.stop_friends(friends),
            Cycle::InputFile(c) => c.stop_friends(friends),
            Cycle::GraphPath(c) => c.stop_friends(friends),
        }
    }

    fn search(&self, data: &Entity, friends: &Vec<Entity>) -> (found: Vec<Entity>) {
        match self {
            Cycle::Node(c) => c.search(data, friends),
            Cycle::Edge(c) => c.search(data, friends),
            Cycle::InputFile(c) => c.search(data, friends),
            Cycle::GraphPath(c) => c.search(data, friends),
        }
    }

    fn save(&self, db: &mut Database, new_data: Vec<Entity>) -> (routes: Vec<Option<Route>>) {
        match self {
            Cycle::Node(c) => c.save(db, new_data),
            Cycle::Edge(c) => c.save(db, new_data),
            Cycle::InputFile(c) => c.save(db, new_data),
            Cycle::GraphPath(c) => c.save(db, new_data),
        }
    }

    fn public(&self) -> (public: bool) {
        match self {
            Cycle::Node(c) => c.public(),
            Cycle::Edge(c) => c.public(),
            Cycle::InputFile(c) => c.public(),
            Cycle::GraphPath(c) => c.public(),
        }
    }
}

/// How the cycle of one route ended.
#[derive(Clone, Copy, PartialEq, Eq, Structural, Debug)]
pub enum Ending {
    /// The whole-database test refused to run.
    StoppedCategorically,
    /// The route dangles, or the database does not support its entity.
    StoppedOnData,
    /// The entity has no friends.
    StoppedOnFriends,
    /// The cycle ran through: what it derived was saved.
    Saved,
}

/// What the cycle of one route comes to.
pub struct CycleView {
    pub ending: Ending,
    /// The database after the cycle.
    pub db: DatabaseView,
    /// The routes of the entities that the cycle newly stored, in the order in
    /// which they were derived.
    pub fresh: Seq<Route>,
}

/// The routes that are there.
pub open spec fn present(routes: Seq<Option<Route>>) -> Seq<Route> {
    routes.filter_map(|route: Option<Route>| route)
}

/// The cycle of `route` under the rules of `kind`: at each stop test that
/// holds it ends with the database as it was; else it saves what the search
/// derives.
pub open spec fn cycle_of(kind: EntityKind, db: DatabaseView, route: Route) -> CycleView {
    let stopped = |ending: Ending| CycleView { ending, db, fresh: Seq::empty() };
    if stops_categorically(kind, db) {
        stopped(Ending::StoppedCategorically)
    } else {
        match data_at(kind, db, route) {
            None => stopped(Ending::StoppedOnData),
            Some(data) => {
                let friends = friends_at(kind, db, route);
                if stops_on_data(kind, data, db) {
                    stopped(Ending::StoppedOnData)
                } else if friends.len() == 0 {
                    stopped(Ending::StoppedOnFriends)
                } else {
                    let found = found_by(kind, data, friends);
                    CycleView {
                        ending: Ending::Saved,
                        db: db.saved_all(found),
                        fresh: present(db.save_routes(found)),
                    }
                }
            },
        }
    }
}

/// What [`run_cycle`] hands back.
#[derive(Debug)]
pub struct Turn {
    pub ending: Ending,
    /// The routes of the newly stored entities.
    pub fresh: Vec<Route>,
}

/// Runs the cycle of one queued route: the stop tests in their order, then
/// search and save. A test that holds ends the cycle for this route and
/// leaves the database as it was.
pub fn run_cycle<C: DataCycle>(cycle: &C, db: &mut Database, route: &Route) -> (turn: Turn)
    ensures
        turn.ending == cycle_of(cycle.kind(), old(db)@, *route).ending,
        turn.fresh@ == cycle_of(cycle.kind(), old(db)@, *route).fresh,
        final(db)@ == cycle_of(cycle.kind(), old(db)@, *route).db,
{
    if cycle.stop_categorically(db) {
        return Turn { ending: Ending::StoppedCategorically, fresh: Vec::new() };
    }
    let data = match cycle.get_data(db, route) {
        Some(data) => data,
        None => {
            return Turn { ending: Ending::StoppedOnData, fresh: Vec::new() };
        },
    };
    if cycle.stop_data(&data, db) {
        return Turn { ending: Ending::StoppedOnData, fresh: Vec::new() };
    }
    let friends = cycle.get_friends(db, route);
    if cycle.stop_friends(&friends) {
        return Turn { ending: Ending::StoppedOnFriends, fresh: Vec::new() };
    }
    let found = cycle.search(&data, &friends);
    let routes = cycle.save(db, found);
    let ghost keep = |route: Option<Route>| route;
    let mut fresh: Vec<Route> = Vec::new();
    let mut i: usize = 0;
    while i < routes.len()
        invariant
            i <= routes.len(),
            keep == (|route: Option<Route>| route),
            fresh@ == routes@.take(i as int).filter_map(keep),
        decreases routes.len() - i,
    {
        proof {
            routes@.lemma_filter_map_take_succ(keep, i as int);
        }
        match routes[i] {
            Some(route) => {
                fresh.push(route);
            },
            None => {},
        }
        i += 1;
    }
    assert(routes@.take(i as int) == routes@);
    Turn { ending: Ending::Saved, fresh }
}

} // verus!
