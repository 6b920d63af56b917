//! The content-addressed database: one table per entity kind, each keyed by the
//! content hash of the value it holds.
use vstd::prelude::*;
use std::collections::BTreeMap;
use crate::entity::{
    content_hash, entity_views, view_of, Edge, EdgeView, Entity, EntityKind, EntityView,
    GraphPath, InputFile, InputFileView, Node, NodeView, PathView, Replicate,
};
use crate::route::{route_of, Route};
use crate::table::{increasing, key_order, keys_in_order};

verus! {

/// What a [`Database`] is: four maps from content hash to value.
pub struct DatabaseView {
    pub nodes: Map<u64, NodeView>,
    pub edges: Map<u64, EdgeView>,
    pub input_files: Map<u64, InputFileView>,
    pub paths: Map<u64, PathView>,
}

impl DatabaseView {
    /// The database that holds nothing.
    pub open spec fn empty() -> Self {
        DatabaseView {
            nodes: Map::empty(),
            edges: Map::empty(),
            input_files: Map::empty(),
            paths: Map::empty(),
        }
    }

    /// The entity that `route` points at, if the database holds one there.
    pub open spec fn lookup(self, route: Route) -> Option<EntityView> {
        match route.kind {
            EntityKind::Node => if self.nodes.contains_key(route.hash) {
                Some(EntityView::Node(self.nodes[route.hash]))
            } else {
                None
            },
            EntityKind::Edge => if self.edges.contains_key(route.hash) {
                Some(EntityView::Edge(self.edges[route.hash]))
            } else {
                None
            },
            EntityKind::InputFile => if self.input_files.contains_key(route.hash) {
                Some(EntityView::InputFile(self.input_files[route.hash]))
            } else {
                None
            },
            EntityKind::GraphPath => if self.paths.contains_key(route.hash) {
                Some(EntityView::GraphPath(self.paths[route.hash]))
            } else {
                None
            },
        }
    }

    /// Whether something is stored where `route` points.
    pub open spec fn occupied(self, route: Route) -> bool {
        self.lookup(route) is Some
    }

    /// Whether the database stores exactly this entity.
    pub open spec fn holds(self, entity: EntityView) -> bool {
        self.lookup(route_of(entity)) == Some(entity)
    }

    pub open spec fn has_node(self, node: NodeView) -> bool {
        self.holds(EntityView::Node(node))
    }

    pub open spec fn has_edge(self, edge: EdgeView) -> bool {
        self.holds(EntityView::Edge(edge))
    }

    /// The keys of the table for `kind`.
    pub open spec fn keys(self, kind: EntityKind) -> Set<u64> {
        match kind {
            EntityKind::Node => self.nodes.dom(),
            EntityKind::Edge => self.edges.dom(),
            EntityKind::InputFile => self.input_files.dom(),
            EntityKind::GraphPath => self.paths.dom(),
        }
    }

    /// The database with `entity` stored under its content hash, whatever was
    /// there before.
    pub open spec fn with(self, entity: EntityView) -> Self {
        let hash = content_hash(entity);
        match entity {
            EntityView::Node(n) => DatabaseView { nodes: self.nodes.insert(hash, n), ..self },
            EntityView::Edge(e) => DatabaseView { edges: self.edges.insert(hash, e), ..self },
            EntityView::InputFile(f) => DatabaseView {
                input_files: self.input_files.insert(hash, f),
                ..self
            },
            EntityView::GraphPath(p) => DatabaseView { paths: self.paths.insert(hash, p), ..self },
        }
    }

    /// The database after saving `entity`: unchanged where its content hash is
    /// taken, else with the entity stored under it.
    pub open spec fn saved(self, entity: EntityView) -> Self {
        if self.occupied(route_of(entity)) {
            self
        } else {
            self.with(entity)
        }
    }

    /// The route that saving `entity` returns: its own where the content hash
    /// is free, none where it is taken.
    pub open spec fn fresh_route(self, entity: EntityView) -> Option<Route> {
        if self.occupied(route_of(entity)) {
            None
        } else {
            Some(route_of(entity))
        }
    }

    /// The database after saving `entities` one after another.
    pub open spec fn saved_all(self, entities: Seq<EntityView>) -> Self
        decreases entities.len(),
    {
        if entities.len() == 0 {
            self
        } else {
            self.saved_all(entities.drop_last()).saved(entities.last())
        }
    }

    /// What saving `entities` one after another returns: for each, its route
    /// if it was new when its turn came, and nothing if it was a duplicate
    /// of a stored entity or of an earlier one of the batch.
    pub open spec fn save_routes(self, entities: Seq<EntityView>) -> Seq<Option<Route>> {
        Seq::new(
            entities.len(),
            |i: int| self.saved_all(entities.take(i)).fresh_route(entities[i]),
        )
    }

    /// The union of two databases, table by table. Where both hold a key,
    /// the entry of `self` stays.
    pub open spec fn union(self, other: Self) -> Self {
        DatabaseView {
            nodes: other.nodes.union_prefer_right(self.nodes),
            edges: other.edges.union_prefer_right(self.edges),
            input_files: other.input_files.union_prefer_right(self.input_files),
            paths: other.paths.union_prefer_right(self.paths),
        }
    }

    /// Whether the two databases store the same entity wherever both store
    /// one.
    pub open spec fn agrees(self, other: Self) -> bool {
        forall|route: Route| #[trigger]
            self.occupied(route) && other.occupied(route) ==> self.lookup(route) == other.lookup(
                route,
            )
    }

    /// Whether this database holds all that `base` holds, each entity under
    /// the route it has there.
    pub open spec fn extends(self, base: Self) -> bool {
        forall|route: Route| #[trigger]
            base.occupied(route) ==> self.lookup(route) == base.lookup(route)
    }

    /// Content addressing: every stored entity sits under its own route, every
    /// stored path is a walk, and every table is finite.
    pub open spec fn well_formed(self) -> bool {
        &&& forall|route: Route| #[trigger]
            self.occupied(route) ==> route_of(self.lookup(route)->0) == route && self.lookup(
                route,
            )->0.well_formed()
        &&& self.nodes.dom().finite()
        &&& self.edges.dom().finite()
        &&& self.input_files.dom().finite()
        &&& self.paths.dom().finite()
    }
}

impl DatabaseView {
    /// Saving a well-formed entity keeps the database well formed.
    pub proof fn lemma_saved_well_formed(self, entity: EntityView)
        requires
            self.well_formed(),
            entity.well_formed(),
        ensures
            self.saved(entity).well_formed(),
    {
        let after = self.saved(entity);
        assert forall|route: Route| #[trigger] after.occupied(route) implies route_of(
            after.lookup(route)->0,
        ) == route && after.lookup(route)->0.well_formed() by {
            if route != route_of(entity) {
                assert(self.occupied(route));
            }
        }
    }

    /// The union of two well-formed databases is well formed.
    pub proof fn lemma_union_well_formed(self, other: Self)
        requires
            self.well_formed(),
            other.well_formed(),
        ensures
            self.union(other).well_formed(),
    {
        let both = self.union(other);
        assert forall|route: Route| #[trigger] both.occupied(route) implies route_of(
            both.lookup(route)->0,
        ) == route && both.lookup(route)->0.well_formed() by {
            if !self.occupied(route) {
                assert(other.occupied(route));
            }
        }
        assert(both.nodes.dom() =~= self.nodes.dom().union(other.nodes.dom()));
        assert(both.edges.dom() =~= self.edges.dom().union(other.edges.dom()));
        assert(both.input_files.dom() =~= self.input_files.dom().union(other.input_files.dom()));
        assert(both.paths.dom() =~= self.paths.dom().union(other.paths.dom()));
    }

    /// The empty database is well formed.
    pub proof fn lemma_empty_well_formed()
        ensures
            Self::empty().well_formed(),
    {
        assert forall|route: Route| !(#[trigger] Self::empty().occupied(route)) by {}
    }
}

/// The views of the values of a table.
pub open spec fn table_view<V: View>(table: Map<u64, V>) -> Map<u64, V::V> {
    table.map_values(|value: V| value@)
}

/// Copies into `into` every entry of `from` whose key `into` does not hold.
fn absorb<V: Replicate>(into: &mut BTreeMap<u64, V>, from: &BTreeMap<u64, V>)
    ensures
        table_view(final(into)@) == table_view(from@).union_prefer_right(table_view(old(into)@)),
{
    let keys = keys_in_order(from);
    let ghost start = table_view(into@);
    let ghost source = table_view(from@);
    let mut i: usize = 0;
    while i < keys.len()
        invariant
            i <= keys.len(),
            keys@.to_set() == from@.dom(),
            source == table_view(from@),
            table_view(into@) == source.restrict(keys@.take(i as int).to_set()).union_prefer_right(
                start,
            ),
        decreases keys.len() - i,
    {
        let key = keys[i];
        let ghost before = table_view(into@);
        if !into.contains_key(&key) {
            assert(!before.contains_key(key));
            match from.get(&key) {
                Some(value) => {
                    let copy = value.replicate();
                    into.insert(key, copy);
                    assert(table_view(into@) =~= before.insert(key, source[key]));
                },
                None => {},
            }
        }
        proof {
            assert(keys@.take(i + 1) =~= keys@.take(i as int).push(key));
            keys@.take(i as int).lemma_push_to_set_commute(key);
        }
        i += 1;
    }
    assert(keys@.take(i as int) == keys@);
}

/// A content-addressed store of entities.
///
/// A value can only be put in through [`Database::insert`], which files it
/// under its content hash, so what is stored under a key never changes.
#[derive(Debug)]
pub struct Database {
    nodes: BTreeMap<u64, Node>,
    edges: BTreeMap<u64, Edge>,
    input_files: BTreeMap<u64, InputFile>,
    paths: BTreeMap<u64, GraphPath>,
}

impl View for Database {
    type V = DatabaseView;

    closed spec fn view(&self) -> DatabaseView {
        DatabaseView {
            nodes: table_view(self.nodes@),
            edges: table_view(self.edges@),
            input_files: table_view(self.input_files@),
            paths: table_view(self.paths@),
        }
    }
}

impl Database {
    /// Holds of every database: see [`DatabaseView::well_formed`].
    #[verifier::type_invariant]
    pub open spec fn content_addressed(&self) -> bool {
        self@.well_formed()
    }

    /// The database that holds nothing.
    pub fn new() -> (db: Self)
        ensures
            db@ == DatabaseView::empty(),
    {
        let nodes: BTreeMap<u64, Node> = BTreeMap::new();
        let edges: BTreeMap<u64, Edge> = BTreeMap::new();
        let input_files: BTreeMap<u64, InputFile> = BTreeMap::new();
        let paths: BTreeMap<u64, GraphPath> = BTreeMap::new();
        proof {
            assert(table_view(nodes@) =~= Map::empty());
            assert(table_view(edges@) =~= Map::empty());
            assert(table_view(input_files@) =~= Map::empty());
            assert(table_view(paths@) =~= Map::empty());
            DatabaseView::lemma_empty_well_formed();
        }
        Database { nodes, edges, input_files, paths }
    }

    /// The entity that `route` points at, if the database holds one there.
    pub fn get(&self, route: &Route) -> (found: Option<Entity>)
        ensures
            view_of(found) == self@.lookup(*route),
    {
        match route.kind {
            EntityKind::Node => match self.nodes.get(&route.hash) {
                Some(node) => Some(Entity::Node(node.clone())),
                None => None,
            },
            EntityKind::Edge => match self.edges.get(&route.hash) {
                Some(edge) => Some(Entity::Edge(edge.clone())),
                None => None,
            },
            EntityKind::InputFile => match self.input_files.get(&route.hash) {
                Some(file) => Some(Entity::InputFile(file.clone())),
                None => None,
            },
            EntityKind::GraphPath => match self.paths.get(&route.hash) {
                Some(path) => Some(Entity::GraphPath(path.clone())),
                None => None,
            },
        }
    }

    /// Whether something is stored where `route` points.
    pub fn occupied(&self, route: &Route) -> (occupied: bool)
        ensures
            occupied == self@.occupied(*route),
    {
        match route.kind {
            EntityKind::Node => self.nodes.contains_key(&route.hash),
            EntityKind::Edge => self.edges.contains_key(&route.hash),
            EntityKind::InputFile => self.input_files.contains_key(&route.hash),
            EntityKind::GraphPath => self.paths.contains_key(&route.hash),
        }
    }

    /// Saves `entity`: stores it under its content hash unless that hash is
    /// taken. Returns the route of a newly stored entity, and nothing for a
    /// duplicate.
    pub fn insert(&mut self, entity: Entity) -> (route: Option<Route>)
        ensures
            final(self)@ == old(self)@.saved(entity@),
            route == old(self)@.fresh_route(entity@),
    {
        proof {
            use_type_invariant(&*self);
        }
        let route = Route::to(&entity);
        if self.occupied(&route) {
            return None;
        }
        let mut taken = Database::new();
        std::mem::swap(self, &mut taken);
        let Database { mut nodes, mut edges, mut input_files, mut paths } = taken;
        match entity {
            Entity::Node(node) => {
                nodes.insert(route.hash, node);
                assert(table_view(nodes@) =~= old(self)@.nodes.insert(route.hash, node@));
            },
            Entity::Edge(edge) => {
                edges.insert(route.hash, edge);
                assert(table_view(edges@) =~= old(self)@.edges.insert(route.hash, edge@));
            },
            Entity::InputFile(file) => {
                input_files.insert(route.hash, file);
                assert(table_view(input_files@) =~= old(self)@.input_files.insert(
                    route.hash,
                    file@,
                ));
            },
            Entity::GraphPath(path) => {
                proof {
                    use_type_invariant(&path);
                }
                paths.insert(route.hash, path);
                assert(table_view(paths@) =~= old(self)@.paths.insert(route.hash, path@));
            },
        }
        proof {
            old(self)@.lemma_saved_well_formed(entity@);
        }
        *self = Database { nodes, edges, input_files, paths };
        Some(route)
    }

    /// Saves each of `entities` in order: see [`Database::insert`]. This is the
    /// one place where duplicates are dropped.
    pub fn save(&mut self, entities: Vec<Entity>) -> (routes: Vec<Option<Route>>)
        ensures
            final(self)@ == old(self)@.saved_all(entity_views(entities@)),
            routes@ == old(self)@.save_routes(entity_views(entities@)),
    {
        let ghost all = entity_views(entities@);
        let ghost start = self@;
        let mut routes: Vec<Option<Route>> = Vec::new();
        for entity in feed: entities
            invariant
                all == entity_views(feed.seq()),
                self@ == start.saved_all(all.take(feed.index())),
                routes@ == start.save_routes(all).take(feed.index()),
        {
            assert(all.take(feed.index() + 1).drop_last() == all.take(feed.index()));
            let route = self.insert(entity);
            routes.push(route);
        }
        assert(all.take(all.len() as int) == all);
        routes
    }

    /// Whether the database stores exactly this entity.
    pub fn holds(&self, entity: &Entity) -> (held: bool)
        ensures
            held == self@.holds(entity@),
    {
        match entity {
            Entity::Node(node) => self.has_node(node),
            Entity::Edge(edge) => self.has_edge(edge),
            Entity::InputFile(file) => match self.input_files.get(&file.content_hash()) {
                Some(stored) => stored.same(file),
                None => false,
            },
            Entity::GraphPath(path) => match self.paths.get(&path.content_hash()) {
                Some(stored) => stored.same(path),
                None => false,
            },
        }
    }

    /// Whether the database stores this node.
    pub fn has_node(&self, node: &Node) -> (held: bool)
        ensures
            held == self@.has_node(node@),
    {
        match self.nodes.get(&node.content_hash()) {
            Some(stored) => stored.same(node),
            None => false,
        }
    }

    /// Whether the database stores this edge.
    pub fn has_edge(&self, edge: &Edge) -> (held: bool)
        ensures
            held == self@.has_edge(edge@),
    {
        match self.edges.get(&edge.content_hash()) {
            Some(stored) => stored.same(edge),
            None => false,
        }
    }

    /// Number of stored entities of `kind`.
    pub fn count(&self, kind: EntityKind) -> (n: usize)
        ensures
            n == self@.keys(kind).len(),
    {
        match kind {
            EntityKind::Node => {
                assert(table_view(self.nodes@).dom() =~= self.nodes@.dom());
                self.nodes.len()
            },
            EntityKind::Edge => {
                assert(table_view(self.edges@).dom() =~= self.edges@.dom());
                self.edges.len()
            },
            EntityKind::InputFile => {
                assert(table_view(self.input_files@).dom() =~= self.input_files@.dom());
                self.input_files.len()
            },
            EntityKind::GraphPath => {
                assert(table_view(self.paths@).dom() =~= self.paths@.dom());
                self.paths.len()
            },
        }
    }

    /// The content hashes of the stored entities of `kind`, smallest first.
    pub fn keys(&self, kind: EntityKind) -> (keys: Vec<u64>)
        ensures
            keys@ == key_order(self@.keys(kind)),
            increasing(keys@),
            keys@.to_set() == self@.keys(kind),
    {
        match kind {
            EntityKind::Node => {
                assert(table_view(self.nodes@).dom() =~= self.nodes@.dom());
                keys_in_order(&self.nodes)
            },
            EntityKind::Edge => {
                assert(table_view(self.edges@).dom() =~= self.edges@.dom());
                keys_in_order(&self.edges)
            },
            EntityKind::InputFile => {
                assert(table_view(self.input_files@).dom() =~= self.input_files@.dom());
                keys_in_order(&self.input_files)
            },
            EntityKind::GraphPath => {
                assert(table_view(self.paths@).dom() =~= self.paths@.dom());
                keys_in_order(&self.paths)
            },
        }
    }

    /// The node stored under `hash`, if there is one.
    pub fn node(&self, hash: u64) -> (found: Option<&Node>)
        ensures
            found is Some == self@.nodes.contains_key(hash),
            found matches Some(node) ==> node@ == self@.nodes[hash],
    {
        self.nodes.get(&hash)
    }

    /// The edge stored under `hash`, if there is one.
    pub fn edge(&self, hash: u64) -> (found: Option<&Edge>)
        ensures
            found is Some == self@.edges.contains_key(hash),
            found matches Some(edge) ==> edge@ == self@.edges[hash],
    {
        self.edges.get(&hash)
    }

    /// The input file stored under `hash`, if there is one.
    pub fn input_file(&self, hash: u64) -> (found: Option<&InputFile>)
        ensures
            found is Some == self@.input_files.contains_key(hash),
            found matches Some(file) ==> file@ == self@.input_files[hash],
    {
        self.input_files.get(&hash)
    }

    /// The path stored under `hash`, if there is one.
    pub fn path(&self, hash: u64) -> (found: Option<&GraphPath>)
        ensures
            found is Some == self@.paths.contains_key(hash),
            found matches Some(path) ==> path@ == self@.paths[hash] && path@.is_walk(),
    {
        proof {
            use_type_invariant(self);
        }
        let found = self.paths.get(&hash);
        proof {
            if found is Some {
                assert(self@.occupied(Route { kind: EntityKind::GraphPath, hash }));
            }
        }
        found
    }

    /// The stored entities of `kind`, by increasing content hash.
    pub fn entities(&self, kind: EntityKind) -> (found: Vec<Entity>)
        ensures
            found@.len() == self@.keys(kind).len(),
            forall|i: int|
                0 <= i < found@.len() ==> self@.lookup(
                    Route { kind, hash: key_order(self@.keys(kind))[i] },
                ) == Some(#[trigger] found@[i]@),
    {
        let keys = self.keys(kind);
        proof {
            use_type_invariant(self);
            keys@.unique_seq_to_set();
        }
        let mut found: Vec<Entity> = Vec::new();
        let mut i: usize = 0;
        while i < keys.len()
            invariant
                i <= keys.len(),
                keys@ == key_order(self@.keys(kind)),
                keys@.to_set() == self@.keys(kind),
                found@.len() == i,
                forall|j: int|
                    0 <= j < i ==> self@.lookup(Route { kind, hash: keys@[j] }) == Some(
                        #[trigger] found@[j]@,
                    ),
            decreases keys.len() - i,
        {
            match self.get(&Route::new(kind, keys[i])) {
                Some(entity) => {
                    found.push(entity);
                },
                None => {},
            }
            i += 1;
        }
        found
    }

    /// The union of the two databases, table by table. Where both hold a key,
    /// the entry of `self` is the one kept; content addressing makes the two
    /// entries equal unless two different values share a content hash.
    pub fn union(&self, other: &Database) -> (merged: Database)
        ensures
            merged@ == self@.union(other@),
    {
        proof {
            use_type_invariant(self);
            use_type_invariant(other);
            self@.lemma_union_well_formed(other@);
        }
        let mut nodes: BTreeMap<u64, Node> = BTreeMap::new();
        absorb(&mut nodes, &self.nodes);
        absorb(&mut nodes, &other.nodes);
        let mut edges: BTreeMap<u64, Edge> = BTreeMap::new();
        absorb(&mut edges, &self.edges);
        absorb(&mut edges, &other.edges);
        let mut input_files: BTreeMap<u64, InputFile> = BTreeMap::new();
        absorb(&mut input_files, &self.input_files);
        absorb(&mut input_files, &other.input_files);
        let mut paths: BTreeMap<u64, GraphPath> = BTreeMap::new();
        absorb(&mut paths, &self.paths);
        absorb(&mut paths, &other.paths);
        proof {
            assert(table_view(nodes@) =~= self@.union(other@).nodes);
            assert(table_view(edges@) =~= self@.union(other@).edges);
            assert(table_view(input_files@) =~= self@.union(other@).input_files);
            assert(table_view(paths@) =~= self@.union(other@).paths);
        }
        Database { nodes, edges, input_files, paths }
    }
}

impl Clone for Database {
    fn clone(&self) -> (copy: Self)
        ensures
            copy@ == self@,
    {
        proof {
            use_type_invariant(self);
        }
        let mut nodes: BTreeMap<u64, Node> = BTreeMap::new();
        absorb(&mut nodes, &self.nodes);
        let mut edges: BTreeMap<u64, Edge> = BTreeMap::new();
        absorb(&mut edges, &self.edges);
        let mut input_files: BTreeMap<u64, InputFile> = BTreeMap::new();
        absorb(&mut input_files, &self.input_files);
        let mut paths: BTreeMap<u64, GraphPath> = BTreeMap::new();
        absorb(&mut paths, &self.paths);
        proof {
            assert(table_view(nodes@) =~= self@.nodes);
            assert(table_view(edges@) =~= self@.edges);
            assert(table_view(input_files@) =~= self@.input_files);
            assert(table_view(paths@) =~= self@.paths);
        }
        Database { nodes, edges, input_files, paths }
    }
}

} // verus!
