//! Reconciliation: one database and one queue out of the databases and the
//! leftover queues of two workers.
use vstd::prelude::*;
use crate::cycle::{data_at, friends_at, Cycle, DataCycle};
use crate::database::{Database, DatabaseView};
use crate::pass::{derive_from, drained, PassView};
use crate::queue::LocalQueue;
use crate::route::Route;

verus! {

/// What the merge makes of a leftover route.
#[derive(Clone, Copy, PartialEq, Eq, Structural, Debug)]
pub enum Resolution {
    /// The two sides settle the route between them: it is carried over as
    /// it is.
    Resolved,
    /// One side knows the route in part only: its cycle is run again, on the
    /// union.
    Replay,
}

/// How a leftover route is classified against the two databases it may come
/// from. It is resolved where both databases hold its entity, where it has
/// friends in both, or where one database holds the entity and friends of it
/// while the other holds neither. Anything else is replayed.
pub open spec fn resolution(first: DatabaseView, second: DatabaseView, route: Route) -> Resolution {
    let in_first = data_at(route.kind, first, route) is Some;
    let in_second = data_at(route.kind, second, route) is Some;
    let friends_in_first = friends_at(route.kind, first, route).len() > 0;
    let friends_in_second = friends_at(route.kind, second, route).len() > 0;
    if in_first && in_second {
        Resolution::Resolved
    } else if friends_in_first && friends_in_second {
        Resolution::Resolved
    } else if (in_first && !in_second && friends_in_first && !friends_in_second) || (!in_first
        && in_second && !friends_in_first && friends_in_second) {
        Resolution::Resolved
    } else {
        Resolution::Replay
    }
}

/// The merge goes through `routes` in order; each one that is to be replayed
/// has its pass run on the database as the replays before it left it.
pub open spec fn replayed(
    first: DatabaseView,
    second: DatabaseView,
    start: PassView,
    routes: Seq<Route>,
) -> PassView
    decreases routes.len(),
{
    if routes.len() == 0 {
        start
    } else {
        let so_far = replayed(first, second, start, routes.drop_last());
        match resolution(first, second, routes.last()) {
            Resolution::Resolved => so_far,
            Resolution::Replay => {
                let pass = drained(so_far.db, seq![routes.last()]);
                PassView { db: pass.db, publish: so_far.publish + pass.publish }
            },
        }
    }
}

/// What a merge comes to.
pub struct MergeView {
    /// The merged database.
    pub db: DatabaseView,
    /// The reconciled queue.
    pub queue: Seq<Route>,
    /// The routes to announce on the global queue.
    pub publish: Seq<Route>,
}

/// The merge of two workers' results: the union of the two databases, grown
/// by the replays; and every leftover route of either queue, the first
/// worker's before the second's.
pub open spec fn reconciled(
    first_db: DatabaseView,
    first_queue: Seq<Route>,
    second_db: DatabaseView,
    second_queue: Seq<Route>,
) -> MergeView {
    let union = PassView { db: first_db.union(second_db), publish: Seq::empty() };
    let pass = replayed(first_db, second_db, union, first_queue + second_queue);
    MergeView { db: pass.db, queue: first_queue + second_queue, publish: pass.publish }
}

/// Replaying one run of routes and then another is replaying the two runs
/// as one.
pub proof fn lemma_replayed_in_two(
    first: DatabaseView,
    second: DatabaseView,
    start: PassView,
    left: Seq<Route>,
    right: Seq<Route>,
)
    ensures
        replayed(first, second, start, left + right) == replayed(
            first,
            second,
            replayed(first, second, start, left),
            right,
        ),
    decreases right.len(),
{
    if right.len() > 0 {
        assert((left + right).drop_last() =~= left + right.drop_last());
        lemma_replayed_in_two(first, second, start, left, right.drop_last());
    }
}

/// Classifies a leftover route: see [`resolution`].
pub fn classify(first: &Database, second: &Database, route: &Route) -> (verdict: Resolution)
    ensures
        verdict == resolution(first@, second@, *route),
{
    let cycle = Cycle::for_route(route);
    let in_first = cycle.get_data(first, route).is_some();
    let in_second = cycle.get_data(second, route).is_some();
    if in_first && in_second {
        return Resolution::Resolved;
    }
    let friends_in_first = !cycle.get_friends(first, route).is_empty();
    let friends_in_second = !cycle.get_friends(second, route).is_empty();
    if friends_in_first && friends_in_second {
        return Resolution::Resolved;
    }
    if (in_first && !in_second && friends_in_first && !friends_in_second) || (!in_first
        && in_second && !friends_in_first && friends_in_second) {
        return Resolution::Resolved;
    }
    Resolution::Replay
}

/// Carries each route of `source` over into `queue`, and replays on `db`
/// those that are to be replayed.
fn replay(
    first: &Database,
    second: &Database,
    db: &mut Database,
    source: &LocalQueue,
    queue: &mut LocalQueue,
    publish: &mut Vec<Route>,
)
    ensures
        final(queue)@ == old(queue)@ + source@,
        (PassView { db: final(db)@, publish: final(publish)@ }) == replayed(
            first@,
            second@,
            PassView { db: old(db)@, publish: old(publish)@ },
            source@,
        ),
{
    let ghost start = PassView { db: db@, publish: publish@ };
    let mut i: usize = 0;
    while i < source.len()
        invariant
            i <= source@.len(),
            queue@ == old(queue)@ + source@.take(i as int),
            (PassView { db: db@, publish: publish@ }) == replayed(
                first@,
                second@,
                start,
                source@.take(i as int),
            ),
        decreases source@.len() - i,
    {
        assert(source@.take(i + 1).drop_last() == source@.take(i as int));
        match source.get(i) {
            Some(route) => {
                queue.produce(route);
                match classify(first, second, &route) {
                    Resolution::Resolved => {},
                    Resolution::Replay => {
                        let mut found = derive_from(db, route);
                        publish.append(&mut found);
                    },
                }
            },
            None => {},
        }
        i += 1;
    }
    assert(source@.take(i as int) == source@);
}

/// What [`reconcile`] hands back.
#[derive(Debug)]
pub struct Merged {
    /// The merged database.
    pub db: Database,
    /// The reconciled queue.
    pub queue: LocalQueue,
    /// The routes to announce on the global queue.
    pub publish: Vec<Route>,
}

/// Merges the results of two workers: see [`reconciled`].
pub fn reconcile(
    first_db: &Database,
    first_queue: &LocalQueue,
    second_db: &Database,
    second_queue: &LocalQueue,
) -> (merged: Merged)
    ensures
        merged.db@ == reconciled(first_db@, first_queue@, second_db@, second_queue@).db,
        merged.queue@ == reconciled(first_db@, first_queue@, second_db@, second_queue@).queue,
        merged.publish@ == reconciled(first_db@, first_queue@, second_db@, second_queue@).publish,
{
    let mut db = first_db.union(second_db);
    let mut queue = LocalQueue::new();
    let mut publish: Vec<Route> = Vec::new();
    let ghost union = PassView { db: db@, publish: publish@ };
    replay(first_db, second_db, &mut db, first_queue, &mut queue, &mut publish);
    replay(first_db, second_db, &mut db, second_queue, &mut queue, &mut publish);
    proof {
        lemma_replayed_in_two(first_db@, second_db@, union, first_queue@, second_queue@);
    }
    Merged { db, queue, publish }
}

} // verus!
