//! The entity model: nodes, edges, input files and graph paths, each with its
//! mathematical view, canonical encoding and content hash.
use vstd::prelude::*;
use vstd::bytes::{spec_u64_to_le_bytes, u64_to_le_bytes};
use vstd::utf8::encode_utf8;
use vstd::std_specs::cmp::PartialEqSpecImpl;
use crate::canon::{edge_fits, edges_fit, fits, node_fits, text_fits};
use crate::digest::{digest, fnv1a};

verus! {

/// The four kinds of entity.
#[derive(Clone, Copy, PartialEq, Eq, Structural, Debug)]
pub enum EntityKind {
    Node,
    Edge,
    InputFile,
    GraphPath,
}

/// What a [`Node`] is: its label.
pub struct NodeView {
    pub label: Seq<char>,
}

/// What an [`Edge`] is: an ordered pair of nodes.
pub struct EdgeView {
    pub from: NodeView,
    pub to: NodeView,
}

/// What an [`InputFile`] is: its contents.
pub struct InputFileView {
    pub contents: Seq<char>,
}

/// What a [`GraphPath`] is: its edges, first to last.
pub struct PathView {
    pub edges: Seq<EdgeView>,
}

/// What an [`Entity`] is.
pub enum EntityView {
    Node(NodeView),
    Edge(EdgeView),
    InputFile(InputFileView),
    GraphPath(PathView),
}

impl PathView {
    /// Every edge ends where the next one starts.
    pub open spec fn contiguous(self) -> bool {
        forall|i: int, j: int|
            0 <= i && j == i + 1 && j < self.edges.len() ==> (#[trigger] self.edges[i]).to == (
            #[trigger] self.edges[j]).from
    }

    /// A walk: at least one edge, and contiguous.
    pub open spec fn is_walk(self) -> bool {
        self.edges.len() > 0 && self.contiguous()
    }

    /// The node the walk starts from.
    pub open spec fn source(self) -> NodeView
        recommends
            self.edges.len() > 0,
    {
        self.edges.first().from
    }

    /// The node the walk ends in.
    pub open spec fn target(self) -> NodeView
        recommends
            self.edges.len() > 0,
    {
        self.edges.last().to
    }
}

impl EntityView {
    pub open spec fn kind(self) -> EntityKind {
        match self {
            EntityView::Node(_) => EntityKind::Node,
            EntityView::Edge(_) => EntityKind::Edge,
            EntityView::InputFile(_) => EntityKind::InputFile,
            EntityView::GraphPath(_) => EntityKind::GraphPath,
        }
    }

    /// Holds of every value but a path that is not a walk.
    pub open spec fn well_formed(self) -> bool {
        self matches EntityView::GraphPath(p) ==> p.is_walk()
    }
}

pub const TAG_NODE: u8 = 1;

pub const TAG_EDGE: u8 = 2;

pub const TAG_INPUT_FILE: u8 = 3;

pub const TAG_GRAPH_PATH: u8 = 4;

/// A text as its UTF-8 bytes behind their count, the count as eight
/// little-endian bytes.
pub open spec fn encode_text(text: Seq<char>) -> Seq<u8> {
    let bytes = encode_utf8(text);
    spec_u64_to_le_bytes(bytes.len() as u64) + bytes
}

pub open spec fn encode_node(node: NodeView) -> Seq<u8> {
    seq![TAG_NODE] + encode_text(node.label)
}

pub open spec fn encode_edge(edge: EdgeView) -> Seq<u8> {
    seq![TAG_EDGE] + encode_node(edge.from) + encode_node(edge.to)
}

pub open spec fn encode_input_file(file: InputFileView) -> Seq<u8> {
    seq![TAG_INPUT_FILE] + encode_text(file.contents)
}

/// The encodings of the edges, one after another.
pub open spec fn encode_edges(edges: Seq<EdgeView>) -> Seq<u8>
    decreases edges.len(),
{
    if edges.len() == 0 {
        Seq::empty()
    } else {
        encode_edges(edges.drop_last()) + encode_edge(edges.last())
    }
}

pub open spec fn encode_path(path: PathView) -> Seq<u8> {
    seq![TAG_GRAPH_PATH] + spec_u64_to_le_bytes(path.edges.len() as u64) + encode_edges(path.edges)
}

/// The canonical encoding of an entity: a tag for its kind, then its parts.
pub open spec fn encode(entity: EntityView) -> Seq<u8> {
    match entity {
        EntityView::Node(n) => encode_node(n),
        EntityView::Edge(e) => encode_edge(e),
        EntityView::InputFile(f) => encode_input_file(f),
        EntityView::GraphPath(p) => encode_path(p),
    }
}

/// The content hash of an entity: the digest of its canonical encoding.
pub open spec fn content_hash(entity: EntityView) -> u64 {
    fnv1a(encode(entity))
}

fn append_text(out: &mut Vec<u8>, text: &str)
    ensures
        final(out)@ == old(out)@ + encode_text(text@),
        text_fits(text@),
{
    let bytes = text.as_bytes();
    let mut count = u64_to_le_bytes(bytes.len() as u64);
    out.append(&mut count);
    out.extend_from_slice(bytes);
}

/// A vertex of the graph, named by its label.
#[derive(Debug)]
pub struct Node {
    pub label: String,
}

impl View for Node {
    type V = NodeView;

    open spec fn view(&self) -> NodeView {
        NodeView { label: self.label@ }
    }
}

impl Clone for Node {
    fn clone(&self) -> (copy: Self)
        ensures
            copy@ == self@,
    {
        Node { label: self.label.clone() }
    }
}

impl Node {
    pub fn new(label: &str) -> (node: Self)
        ensures
            node@.label == label@,
    {
        Node { label: label.to_owned() }
    }

    /// Whether both nodes carry the same label.
    pub fn same(&self, other: &Node) -> (same: bool)
        ensures
            same == (self@ == other@),
    {
        self.label == other.label
    }

    /// The content hash of this node.
    pub fn content_hash(&self) -> (hash: u64)
        ensures
            hash == content_hash(EntityView::Node(self@)),
    {
        let mut bytes: Vec<u8> = Vec::new();
        self.append_encoding(&mut bytes);
        digest(bytes.as_slice())
    }

    fn append_encoding(&self, out: &mut Vec<u8>)
        ensures
            final(out)@ == old(out)@ + encode_node(self@),
            node_fits(self@),
    {
        out.push(TAG_NODE);
        append_text(out, self.label.as_str());
    }
}

/// A directed edge between two nodes.
#[derive(Debug)]
pub struct Edge {
    pub from: Node,
    pub to: Node,
}

impl View for Edge {
    type V = EdgeView;

    open spec fn view(&self) -> EdgeView {
        EdgeView { from: self.from@, to: self.to@ }
    }
}

impl Clone for Edge {
    fn clone(&self) -> (copy: Self)
        ensures
            copy@ == self@,
    {
        Edge { from: self.from.clone(), to: self.to.clone() }
    }
}

impl Edge {
    pub fn new(from: Node, to: Node) -> (edge: Self)
        ensures
            edge@ == (EdgeView { from: from@, to: to@ }),
    {
        Edge { from, to }
    }

    /// Whether both edges join the same nodes in the same direction.
    pub fn same(&self, other: &Edge) -> (same: bool)
        ensures
            same == (self@ == other@),
    {
        self.from.same(&other.from) && self.to.same(&other.to)
    }

    /// The content hash of this edge.
    pub fn content_hash(&self) -> (hash: u64)
        ensures
            hash == content_hash(EntityView::Edge(self@)),
    {
        let mut bytes: Vec<u8> = Vec::new();
        self.append_encoding(&mut bytes);
        digest(bytes.as_slice())
    }

    fn append_encoding(&self, out: &mut Vec<u8>)
        ensures
            final(out)@ == old(out)@ + encode_edge(self@),
            edge_fits(self@),
    {
        out.push(TAG_EDGE);
        self.from.append_encoding(out);
        self.to.append_encoding(out);
    }
}

/// A source document.
#[derive(Debug)]
pub struct InputFile {
    pub contents: String,
}

impl View for InputFile {
    type V = InputFileView;

    open spec fn view(&self) -> InputFileView {
        InputFileView { contents: self.contents@ }
    }
}

impl Clone for InputFile {
    fn clone(&self) -> (copy: Self)
        ensures
            copy@ == self@,
    {
        InputFile { contents: self.contents.clone() }
    }
}

impl InputFile {
    pub fn new(contents: &str) -> (file: Self)
        ensures
            file@.contents == contents@,
    {
        InputFile { contents: contents.to_owned() }
    }

    /// Whether both files hold the same text.
    pub fn same(&self, other: &InputFile) -> (same: bool)
        ensures
            same == (self@ == other@),
    {
        self.contents == other.contents
    }

    /// The content hash of this file.
    pub fn content_hash(&self) -> (hash: u64)
        ensures
            hash == content_hash(EntityView::InputFile(self@)),
    {
        let mut bytes: Vec<u8> = Vec::new();
        self.append_encoding(&mut bytes);
        digest(bytes.as_slice())
    }

    fn append_encoding(&self, out: &mut Vec<u8>)
        ensures
            final(out)@ == old(out)@ + encode_input_file(self@),
            text_fits(self@.contents),
    {
        out.push(TAG_INPUT_FILE);
        append_text(out, self.contents.as_str());
    }
}

/// The views of a sequence of edges.
pub open spec fn edge_views(edges: Seq<Edge>) -> Seq<EdgeView> {
    edges.map_values(|e: Edge| e@)
}

/// Whether the edges, in this order, form a walk.
pub fn edges_form_walk(edges: &Vec<Edge>) -> (walk: bool)
    ensures
        walk == (PathView { edges: edge_views(edges@) }).is_walk(),
{
    if edges.len() == 0 {
        return false;
    }
    let ghost views = edge_views(edges@);
    let mut i: usize = 0;
    while i + 1 < edges.len()
        invariant
            i < edges.len(),
            views == edge_views(edges@),
            forall|j: int| 0 <= j < i ==> (#[trigger] views[j]).to == views[j + 1].from,
        decreases edges.len() - i,
    {
        if !edges[i].to.same(&edges[i + 1].from) {
            assert(views[i as int].to != views[i + 1].from);
            return false;
        }
        i += 1;
    }
    true
}

/// A walk through the graph: a non-empty run of edges, each ending where the
/// next one starts.
#[derive(Debug)]
pub struct GraphPath {
    edges: Vec<Edge>,
}

impl View for GraphPath {
    type V = PathView;

    closed spec fn view(&self) -> PathView {
        PathView { edges: edge_views(self.edges@) }
    }
}

impl GraphPath {
    /// Holds of every path: see [`PathView::is_walk`].
    #[verifier::type_invariant]
    pub open spec fn is_walk(&self) -> bool {
        self@.is_walk()
    }

    /// The path over `edges`, if they form a walk.
    pub fn new(edges: Vec<Edge>) -> (path: Option<Self>)
        ensures
            path is Some <==> (PathView { edges: edge_views(edges@) }).is_walk(),
            path matches Some(p) ==> p@.edges == edge_views(edges@),
    {
        if edges_form_walk(&edges) {
            Some(GraphPath { edges })
        } else {
            None
        }
    }

    /// The edges of the path, first to last.
    pub fn edges(&self) -> (edges: &Vec<Edge>)
        ensures
            edge_views(edges@) == self@.edges,
            self@.is_walk(),
    {
        proof {
            use_type_invariant(self);
        }
        &self.edges
    }

    /// Number of edges; never zero.
    pub fn len(&self) -> (n: usize)
        ensures
            n == self@.edges.len(),
            n > 0,
    {
        proof {
            use_type_invariant(self);
        }
        self.edges.len()
    }

    /// The node the walk starts from.
    pub fn source(&self) -> (node: &Node)
        ensures
            node@ == self@.source(),
            self@.is_walk(),
    {
        proof {
            use_type_invariant(self);
        }
        &self.edges[0].from
    }

    /// The node the walk ends in.
    pub fn target(&self) -> (node: &Node)
        ensures
            node@ == self@.target(),
            self@.is_walk(),
    {
        proof {
            use_type_invariant(self);
        }
        &self.edges[self.edges.len() - 1].to
    }

    /// The two-edge path `first`, `second`, if `first` ends where `second`
    /// starts.
    pub fn pair(first: &Edge, second: &Edge) -> (path: Option<Self>)
        ensures
            path is Some <==> first@.to == second@.from,
            path matches Some(p) ==> p@.edges == seq![first@, second@],
    {
        if !first.to.same(&second.from) {
            return None;
        }
        let mut edges: Vec<Edge> = Vec::new();
        edges.push(first.clone());
        edges.push(second.clone());
        Some(GraphPath { edges })
    }

    /// This path with `edge` behind its last edge, if the path ends where
    /// `edge` starts.
    pub fn extended(&self, edge: &Edge) -> (path: Option<Self>)
        ensures
            path is Some <==> self@.target() == edge@.from,
            path matches Some(p) ==> p@.edges == self@.edges.push(edge@),
    {
        proof {
            use_type_invariant(self);
        }
        if !self.target().same(&edge.from) {
            return None;
        }
        let mut edges = clone_edges(&self.edges);
        edges.push(edge.clone());
        assert(edge_views(edges@) == self@.edges.push(edge@));
        Some(GraphPath { edges })
    }

    /// This path with `edge` before its first edge, if `edge` ends where the
    /// path starts.
    pub fn preceded(&self, edge: &Edge) -> (path: Option<Self>)
        ensures
            path is Some <==> edge@.to == self@.source(),
            path matches Some(p) ==> p@.edges == seq![edge@] + self@.edges,
    {
        proof {
            use_type_invariant(self);
        }
        if !edge.to.same(self.source()) {
            return None;
        }
        let mut edges: Vec<Edge> = Vec::new();
        edges.push(edge.clone());
        let mut rest = clone_edges(&self.edges);
        edges.append(&mut rest);
        assert(edge_views(edges@) == seq![edge@] + self@.edges);
        Some(GraphPath { edges })
    }

    /// Whether `edge` is one of the edges of the path.
    pub fn has_edge(&self, edge: &Edge) -> (found: bool)
        ensures
            found == self@.edges.contains(edge@),
    {
        let mut i: usize = 0;
        while i < self.edges.len()
            invariant
                i <= self.edges.len(),
                forall|j: int| 0 <= j < i ==> edge_views(self.edges@)[j] != edge@,
            decreases self.edges.len() - i,
        {
            if self.edges[i].same(edge) {
                assert(edge_views(self.edges@)[i as int] == edge@);
                return true;
            }
            i += 1;
        }
        false
    }

    /// Whether both paths run over the same edges in the same order.
    pub fn same(&self, other: &GraphPath) -> (same: bool)
        ensures
            same == (self@ == other@),
    {
        let same = same_edges(&self.edges, &other.edges);
        same
    }

    /// The content hash of this path.
    pub fn content_hash(&self) -> (hash: u64)
        ensures
            hash == content_hash(EntityView::GraphPath(self@)),
    {
        let mut bytes: Vec<u8> = Vec::new();
        self.append_encoding(&mut bytes);
        digest(bytes.as_slice())
    }

    fn append_encoding(&self, out: &mut Vec<u8>)
        ensures
            final(out)@ == old(out)@ + encode_path(self@),
            self@.edges.len() <= u64::MAX,
            edges_fit(self@.edges),
    {
        out.push(TAG_GRAPH_PATH);
        let mut count = u64_to_le_bytes(self.edges.len() as u64);
        out.append(&mut count);
        let ghost head = out@;
        let mut i: usize = 0;
        while i < self.edges.len()
            invariant
                i <= self.edges.len(),
                out@ == head + encode_edges(edge_views(self.edges@).take(i as int)),
                edges_fit(edge_views(self.edges@).take(i as int)),
            decreases self.edges.len() - i,
        {
            proof {
                let views = edge_views(self.edges@);
                assert(views.take(i + 1).drop_last() == views.take(i as int));
            }
            self.edges[i].append_encoding(out);
            i += 1;
        }
        assert(edge_views(self.edges@).take(i as int) == edge_views(self.edges@));
    }
}

impl Clone for GraphPath {
    fn clone(&self) -> (copy: Self)
        ensures
            copy@ == self@,
    {
        proof {
            use_type_invariant(self);
        }
        GraphPath { edges: clone_edges(&self.edges) }
    }
}

/// A copy of the edges.
pub fn clone_edges(edges: &Vec<Edge>) -> (copy: Vec<Edge>)
    ensures
        edge_views(copy@) == edge_views(edges@),
{
    let mut copy: Vec<Edge> = Vec::new();
    let mut i: usize = 0;
    while i < edges.len()
        invariant
            i <= edges.len(),
            edge_views(copy@) == edge_views(edges@).take(i as int),
        decreases edges.len() - i,
    {
        let ghost before = copy@;
        copy.push(edges[i].clone());
        assert(edge_views(copy@) =~= edge_views(before).push(edges@[i as int]@));
        i += 1;
    }
    copy
}

/// Whether the two runs hold the same edges in the same order.
pub fn same_edges(left: &Vec<Edge>, right: &Vec<Edge>) -> (same: bool)
    ensures
        same == (edge_views(left@) == edge_views(right@)),
{
    if left.len() != right.len() {
        assert(edge_views(left@).len() != edge_views(right@).len());
        return false;
    }
    let mut i: usize = 0;
    while i < left.len()
        invariant
            i <= left.len(),
            left.len() == right.len(),
            forall|j: int| 0 <= j < i ==> edge_views(left@)[j] == edge_views(right@)[j],
        decreases left.len() - i,
    {
        if !left[i].same(&right[i]) {
            assert(edge_views(left@)[i as int] != edge_views(right@)[i as int]);
            return false;
        }
        i += 1;
    }
    assert(edge_views(left@) =~= edge_views(right@));
    true
}

/// One stored value of the graph.
#[derive(Debug)]
pub enum Entity {
    Node(Node),
    Edge(Edge),
    InputFile(InputFile),
    GraphPath(GraphPath),
}

impl View for Entity {
    type V = EntityView;

    open spec fn view(&self) -> EntityView {
        match self {
            Entity::Node(n) => EntityView::Node(n@),
            Entity::Edge(e) => EntityView::Edge(e@),
            Entity::InputFile(f) => EntityView::InputFile(f@),
            Entity::GraphPath(p) => EntityView::GraphPath(p@),
        }
    }
}

impl Clone for Entity {
    fn clone(&self) -> (copy: Self)
        ensures
            copy@ == self@,
    {
        match self {
            Entity::Node(n) => Entity::Node(n.clone()),
            Entity::Edge(e) => Entity::Edge(e.clone()),
            Entity::InputFile(f) => Entity::InputFile(f.clone()),
            Entity::GraphPath(p) => Entity::GraphPath(p.clone()),
        }
    }
}

impl Entity {
    /// Which of the four kinds this is.
    pub fn kind(&self) -> (kind: EntityKind)
        ensures
            kind == self@.kind(),
            self@.well_formed(),
    {
        match self {
            Entity::Node(_) => EntityKind::Node,
            Entity::Edge(_) => EntityKind::Edge,
            Entity::InputFile(_) => EntityKind::InputFile,
            Entity::GraphPath(p) => {
                proof {
                    use_type_invariant(p);
                }
                EntityKind::GraphPath
            },
        }
    }

    /// Whether both values are of one kind and hold the same content.
    pub fn same(&self, other: &Entity) -> (same: bool)
        ensures
            same == (self@ == other@),
    {
        match (self, other) {
            (Entity::Node(a), Entity::Node(b)) => a.same(b),
            (Entity::Edge(a), Entity::Edge(b)) => a.same(b),
            (Entity::InputFile(a), Entity::InputFile(b)) => a.same(b),
            (Entity::GraphPath(a), Entity::GraphPath(b)) => a.same(b),
            _ => false,
        }
    }

    /// The canonical encoding.
    pub fn encoding(&self) -> (bytes: Vec<u8>)
        ensures
            bytes@ == encode(self@),
            fits(self@),
    {
        let mut bytes: Vec<u8> = Vec::new();
        match self {
            Entity::Node(n) => n.append_encoding(&mut bytes),
            Entity::Edge(e) => e.append_encoding(&mut bytes),
            Entity::InputFile(f) => f.append_encoding(&mut bytes),
            Entity::GraphPath(p) => p.append_encoding(&mut bytes),
        }
        bytes
    }

    /// The content hash: the key under which a database stores this value.
    pub fn content_hash(&self) -> (hash: u64)
        ensures
            hash == content_hash(self@),
    {
        let bytes = self.encoding();
        digest(bytes.as_slice())
    }
}

impl PartialEq for Node {
    fn eq(&self, other: &Self) -> (same: bool) {
        self.same(other)
    }
}

impl PartialEqSpecImpl for Node {
    open spec fn obeys_eq_spec() -> bool {
        true
    }

    open spec fn eq_spec(&self, other: &Self) -> bool {
        self@ == other@
    }
}

impl PartialEq for Edge {
    fn eq(&self, other: &Self) -> (same: bool) {
        self.same(other)
    }
}

impl PartialEqSpecImpl for Edge {
    open spec fn obeys_eq_spec() -> bool {
        true
    }

    open spec fn eq_spec(&self, other: &Self) -> bool {
        self@ == other@
    }
}

impl PartialEq for InputFile {
    fn eq(&self, other: &Self) -> (same: bool) {
        self.same(other)
    }
}

impl PartialEqSpecImpl for InputFile {
    open spec fn obeys_eq_spec() -> bool {
        true
    }

    open spec fn eq_spec(&self, other: &Self) -> bool {
        self@ == other@
    }
}

impl PartialEq for GraphPath {
    fn eq(&self, other: &Self) -> (same: bool) {
        self.same(other)
    }
}

impl PartialEqSpecImpl for GraphPath {
    open spec fn obeys_eq_spec() -> bool {
        true
    }

    open spec fn eq_spec(&self, other: &Self) -> bool {
        self@ == other@
    }
}

impl PartialEq for Entity {
    fn eq(&self, other: &Self) -> (same: bool) {
        self.same(other)
    }
}

impl PartialEqSpecImpl for Entity {
    open spec fn obeys_eq_spec() -> bool {
        true
    }

    open spec fn eq_spec(&self, other: &Self) -> bool {
        self@ == other@
    }
}

/// The view of an entity that may be absent.
pub open spec fn view_of(entity: Option<Entity>) -> Option<EntityView> {
    match entity {
        Some(e) => Some(e@),
        None => None,
    }
}

/// The views of a sequence of entities.
pub open spec fn entity_views(entities: Seq<Entity>) -> Seq<EntityView> {
    entities.map_values(|e: Entity| e@)
}

/// Values that can be copied with their view kept.
pub trait Replicate: View + Sized {
    fn replicate(&self) -> (copy: Self)
        ensures
            copy@ == self@,
    ;
}

impl Replicate for Node {
    fn replicate(&self) -> (copy: Self) {
        self.clone()
    }
}

impl Replicate for Edge {
    fn replicate(&self) -> (copy: Self) {
        self.clone()
    }
}

impl Replicate for InputFile {
    fn replicate(&self) -> (copy: Self) {
        self.clone()
    }
}

impl Replicate for GraphPath {
    fn replicate(&self) -> (copy: Self) {
        self.clone()
    }
}

} // verus!
