//! Routes: references to stored entities by kind and content hash.
use vstd::prelude::*;
use crate::entity::{content_hash, Entity, EntityKind, EntityView};

verus! {

/// A reference to one entity of some database: the entity's kind and its
/// content hash. A route says nothing of whether a given database holds the
/// entity; one that points at nothing is said to dangle there.
#[derive(Clone, Copy, PartialEq, Eq, Structural, Debug)]
pub struct Route {
    pub kind: EntityKind,
    pub hash: u64,
}

/// The route under which `entity` is stored.
pub open spec fn route_of(entity: EntityView) -> Route {
    Route { kind: entity.kind(), hash: content_hash(entity) }
}

impl Route {
    pub fn new(kind: EntityKind, hash: u64) -> (route: Self)
        ensures
            route == (Route { kind, hash }),
    {
        Route { kind, hash }
    }

    /// The route under which `entity` is stored.
    pub fn to(entity: &Entity) -> (route: Self)
        ensures
            route == route_of(entity@),
    {
        Route { kind: entity.kind(), hash: entity.content_hash() }
    }
}

} // verus!
