//! The canonical encoding is faithful: it tells any two different entities
//! apart, so that only the digest can make two of them share a content hash.
use vstd::prelude::*;
use vstd::bytes::{lemma_auto_spec_u64_to_from_le_bytes, spec_u64_to_le_bytes};
use vstd::utf8::{encode_utf8, encode_utf8_decode_utf8};
use crate::entity::{
    encode, encode_edge, encode_edges, encode_node, encode_text, EdgeView, EntityView, NodeView,
    TAG_EDGE, TAG_GRAPH_PATH, TAG_INPUT_FILE, TAG_NODE,
};

verus! {

/// The UTF-8 form of the text has a length that eight bytes can hold.
pub open spec fn text_fits(text: Seq<char>) -> bool {
    encode_utf8(text).len() <= u64::MAX
}

pub open spec fn node_fits(node: NodeView) -> bool {
    text_fits(node.label)
}

pub open spec fn edge_fits(edge: EdgeView) -> bool {
    node_fits(edge.from) && node_fits(edge.to)
}

pub open spec fn edges_fit(edges: Seq<EdgeView>) -> bool {
    forall|i: int| 0 <= i < edges.len() ==> edge_fits(#[trigger] edges[i])
}

/// Every count that the encoding of the entity writes down fits into the
/// eight bytes it has. This holds of every entity that a machine can hold.
pub open spec fn fits(entity: EntityView) -> bool {
    match entity {
        EntityView::Node(n) => node_fits(n),
        EntityView::Edge(e) => edge_fits(e),
        EntityView::InputFile(f) => text_fits(f.contents),
        EntityView::GraphPath(p) => p.edges.len() <= u64::MAX && edges_fit(p.edges),
    }
}

proof fn lemma_text_parts(a: Seq<char>, after_a: Seq<u8>, b: Seq<char>, after_b: Seq<u8>)
    requires
        text_fits(a),
        text_fits(b),
        encode_text(a) + after_a == encode_text(b) + after_b,
    ensures
        a == b,
        after_a == after_b,
{
    lemma_auto_spec_u64_to_from_le_bytes();
    let bytes_a = encode_utf8(a);
    let bytes_b = encode_utf8(b);
    let count_a = spec_u64_to_le_bytes(bytes_a.len() as u64);
    let count_b = spec_u64_to_le_bytes(bytes_b.len() as u64);
    let whole = encode_text(a) + after_a;
    assert(whole.subrange(0, 8) =~= count_a);
    assert(whole.subrange(0, 8) =~= count_b);
    let n = bytes_a.len() as int;
    assert(whole.subrange(8, 8 + n) =~= bytes_a);
    assert(whole.subrange(8, 8 + n) =~= bytes_b);
    encode_utf8_decode_utf8(a);
    encode_utf8_decode_utf8(b);
    assert(whole.subrange(8 + n, whole.len() as int) =~= after_b);
}

proof fn lemma_node_parts(a: NodeView, after_a: Seq<u8>, b: NodeView, after_b: Seq<u8>)
    requires
        node_fits(a),
        node_fits(b),
        encode_node(a) + after_a == encode_node(b) + after_b,
    ensures
        a == b,
        after_a == after_b,
{
    let whole = encode_node(a) + after_a;
    assert(whole.subrange(1, whole.len() as int) =~= encode_text(a.label) + after_a);
    assert(whole.subrange(1, whole.len() as int) =~= encode_text(b.label) + after_b);
    lemma_text_parts(a.label, after_a, b.label, after_b);
}

proof fn lemma_edge_parts(a: EdgeView, after_a: Seq<u8>, b: EdgeView, after_b: Seq<u8>)
    requires
        edge_fits(a),
        edge_fits(b),
        encode_edge(a) + after_a == encode_edge(b) + after_b,
    ensures
        a == b,
        after_a == after_b,
{
    let whole = encode_edge(a) + after_a;
    let rest_a = encode_node(a.to) + after_a;
    let rest_b = encode_node(b.to) + after_b;
    assert(whole.subrange(1, whole.len() as int) =~= encode_node(a.from) + rest_a);
    assert(whole.subrange(1, whole.len() as int) =~= encode_node(b.from) + rest_b);
    lemma_node_parts(a.from, rest_a, b.from, rest_b);
    lemma_node_parts(a.to, after_a, b.to, after_b);
}

proof fn lemma_edges_from_the_front(edges: Seq<EdgeView>)
    requires
        edges.len() > 0,
    ensures
        encode_edges(edges) == encode_edge(edges.first()) + encode_edges(edges.drop_first()),
    decreases edges.len(),
{
    if edges.len() == 1 {
        assert(edges.drop_last() =~= Seq::<EdgeView>::empty());
        assert(edges.drop_first() =~= Seq::<EdgeView>::empty());
    } else {
        let shorter = edges.drop_last();
        lemma_edges_from_the_front(shorter);
        assert(shorter.drop_first() =~= edges.drop_first().drop_last());
    }
}

proof fn lemma_edges_parts(
    a: Seq<EdgeView>,
    after_a: Seq<u8>,
    b: Seq<EdgeView>,
    after_b: Seq<u8>,
)
    requires
        edges_fit(a),
        edges_fit(b),
        a.len() == b.len(),
        encode_edges(a) + after_a == encode_edges(b) + after_b,
    ensures
        a == b,
        after_a == after_b,
    decreases a.len(),
{
    if a.len() > 0 {
        lemma_edges_from_the_front(a);
        lemma_edges_from_the_front(b);
        let rest_a = encode_edges(a.drop_first()) + after_a;
        let rest_b = encode_edges(b.drop_first()) + after_b;
        assert(encode_edges(a) + after_a =~= encode_edge(a.first()) + rest_a);
        assert(encode_edges(b) + after_b =~= encode_edge(b.first()) + rest_b);
        lemma_edge_parts(a.first(), rest_a, b.first(), rest_b);
        assert forall|i: int| 0 <= i < a.drop_first().len() implies edge_fits(
            #[trigger] a.drop_first()[i],
        ) by {}
        assert forall|i: int| 0 <= i < b.drop_first().len() implies edge_fits(
            #[trigger] b.drop_first()[i],
        ) by {}
        lemma_edges_parts(a.drop_first(), after_a, b.drop_first(), after_b);
        assert(b =~= seq![b.first()] + b.drop_first());
    }
}

/// The encoding of an entity starts with the tag of its kind.
pub proof fn lemma_encoding_starts_with_tag(entity: EntityView)
    ensures
        encode(entity).len() > 0,
        encode(entity)[0] == match entity {
            EntityView::Node(_) => TAG_NODE,
            EntityView::Edge(_) => TAG_EDGE,
            EntityView::InputFile(_) => TAG_INPUT_FILE,
            EntityView::GraphPath(_) => TAG_GRAPH_PATH,
        },
{
}

/// The canonical encoding is injective: two entities with one encoding are
/// one entity. A content hash can therefore be shared by two different
/// entities only where the digest maps their two encodings to one value.
pub proof fn lemma_encoding_is_injective(a: EntityView, b: EntityView)
    requires
        fits(a),
        fits(b),
        encode(a) == encode(b),
    ensures
        a == b,
{
    let nothing = Seq::<u8>::empty();
    lemma_encoding_starts_with_tag(a);
    lemma_encoding_starts_with_tag(b);
    match (a, b) {
        (EntityView::Node(x), EntityView::Node(y)) => {
            lemma_node_parts(x, nothing, y, nothing);
        },
        (EntityView::Edge(x), EntityView::Edge(y)) => {
            lemma_edge_parts(x, nothing, y, nothing);
        },
        (EntityView::InputFile(x), EntityView::InputFile(y)) => {
            let whole = encode(a);
            assert(whole.subrange(1, whole.len() as int) =~= encode_text(x.contents) + nothing);
            assert(whole.subrange(1, whole.len() as int) =~= encode_text(y.contents) + nothing);
            lemma_text_parts(x.contents, nothing, y.contents, nothing);
        },
        (EntityView::GraphPath(x), EntityView::GraphPath(y)) => {
            lemma_auto_spec_u64_to_from_le_bytes();
            let whole = encode(a);
            let count_x = spec_u64_to_le_bytes(x.edges.len() as u64);
            let count_y = spec_u64_to_le_bytes(y.edges.len() as u64);
            assert(whole.subrange(1, 9) =~= count_x);
            assert(whole.subrange(1, 9) =~= count_y);
            assert(whole.subrange(9, whole.len() as int) =~= encode_edges(x.edges) + nothing);
            assert(whole.subrange(9, whole.len() as int) =~= encode_edges(y.edges) + nothing);
            lemma_edges_parts(x.edges, nothing, y.edges, nothing);
        },
        _ => {},
    }
}

} // verus!
