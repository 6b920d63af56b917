//! The derivation pass: working a local queue off until nothing is left.
use vstd::prelude::*;
use crate::cycle::{
    cycle_of, data_at, found_by, friends_at, is_public, run_cycle, Cycle, DataCycle, Ending,
};
use crate::database::{Database, DatabaseView};
use crate::entity::EntityKind;
use crate::queue::LocalQueue;
use crate::route::Route;
use crate::stitch::lemma_derived_are_paths;

verus! {

/// Whether a cycle of `kind` can derive anything: only those of nodes and of
/// edges can.
pub open spec fn derives(kind: EntityKind) -> bool {
    kind == EntityKind::Node || kind == EntityKind::Edge
}

/// Number of queued routes whose cycle can derive anything.
pub open spec fn sources(queue: Seq<Route>) -> nat
    decreases queue.len(),
{
    if queue.len() == 0 {
        0
    } else {
        sources(queue.drop_last()) + if derives(queue.last().kind) {
            1nat
        } else {
            0nat
        }
    }
}

/// What a pass comes to.
pub struct PassView {
    /// The database after the pass.
    pub db: DatabaseView,
    /// The routes to announce on the global queue, in the order in which they
    /// arose.
    pub publish: Seq<Route>,
}

/// The pass that starts from `db` with `queue` outstanding: the cycle of the
/// first route runs; what it newly stored goes behind the other routes, or,
/// where the cycle is public, to the global queue; and so on until the queue
/// is empty.
pub open spec fn drained(db: DatabaseView, queue: Seq<Route>) -> PassView
    decreases sources(queue), queue.len(),
    via drained_terminates
{
    if queue.len() == 0 {
        PassView { db, publish: Seq::empty() }
    } else {
        let route = queue[0];
        let turn = cycle_of(route.kind, db, route);
        if is_public(route.kind) {
            let rest = drained(turn.db, queue.drop_first());
            PassView { db: rest.db, publish: turn.fresh + rest.publish }
        } else {
            drained(turn.db, queue.drop_first() + turn.fresh)
        }
    }
}

#[via_fn]
proof fn drained_terminates(db: DatabaseView, queue: Seq<Route>) {
    if queue.len() > 0 {
        lemma_fresh_are_paths(queue[0].kind, db, queue[0]);
        lemma_queue_shrinks(queue, cycle_of(queue[0].kind, db, queue[0]).fresh);
    }
}

/// Taking the first route off a queue and putting routes to paths behind the
/// rest leaves fewer sources, or, where the first route was no source and
/// nothing was put behind, as many sources in a shorter queue.
pub proof fn lemma_queue_shrinks(queue: Seq<Route>, fresh: Seq<Route>)
    requires
        queue.len() > 0,
        forall|i: int| 0 <= i < fresh.len() ==> (#[trigger] fresh[i]).kind == EntityKind::GraphPath,
    ensures
        sources(queue.drop_first()) <= sources(queue),
        derives(queue[0].kind) ==> sources(queue.drop_first() + fresh) < sources(queue),
        sources(queue.drop_first() + fresh) == sources(queue.drop_first()),
{
    let route = queue[0];
    lemma_sources_of_paths(fresh);
    lemma_sources_split(seq![route], queue.drop_first());
    assert(seq![route] + queue.drop_first() =~= queue);
    lemma_sources_split(queue.drop_first(), fresh);
    assert(sources(seq![route]) == if derives(route.kind) { 1nat } else { 0nat }) by {
        reveal_with_fuel(sources, 2);
    }
}

/// The sources of a concatenation are those of its parts.
pub proof fn lemma_sources_split(left: Seq<Route>, right: Seq<Route>)
    ensures
        sources(left + right) == sources(left) + sources(right),
    decreases right.len(),
{
    if right.len() > 0 {
        assert((left + right).drop_last() =~= left + right.drop_last());
        lemma_sources_split(left, right.drop_last());
    }
}

/// Routes to paths hold no source.
pub proof fn lemma_sources_of_paths(routes: Seq<Route>)
    requires
        forall|i: int| 0 <= i < routes.len() ==> (#[trigger] routes[i]).kind == EntityKind::GraphPath,
    ensures
        sources(routes) == 0,
    decreases routes.len(),
{
    if routes.len() > 0 {
        lemma_sources_of_paths(routes.drop_last());
    }
}

/// What a cycle newly stores is paths, and only the cycles of nodes and of
/// edges store anything.
pub proof fn lemma_fresh_are_paths(kind: EntityKind, db: DatabaseView, route: Route)
    ensures
        forall|i: int|
            0 <= i < cycle_of(kind, db, route).fresh.len() ==> (#[trigger] cycle_of(
                kind,
                db,
                route,
            ).fresh[i]).kind == EntityKind::GraphPath,
        !derives(kind) ==> cycle_of(kind, db, route).fresh.len() == 0,
{
    let turn = cycle_of(kind, db, route);
    if turn.ending == Ending::Saved {
        let data = data_at(kind, db, route)->0;
        let friends = friends_at(kind, db, route);
        let found = found_by(kind, data, friends);
        let routes = db.save_routes(found);
        let keep = |route: Option<Route>| route;
        lemma_derived_are_paths(data, friends);
        assert forall|i: int| 0 <= i < turn.fresh.len() implies (#[trigger] turn.fresh[i]).kind
            == EntityKind::GraphPath by {
            let x = turn.fresh[i];
            routes.lemma_filter_map_contains(keep, x);
        }
    }
}

/// Works `queue` off against `db`: runs the cycle of each route in turn,
/// queues what the cycle newly stored behind the rest, or collects it for the
/// global queue where the cycle is public, and ends when the queue is empty.
/// Returns the routes to announce on the global queue.
pub fn drain(db: &mut Database, queue: &mut LocalQueue) -> (publish: Vec<Route>)
    ensures
        final(queue)@.len() == 0,
        final(db)@ == drained(old(db)@, old(queue)@).db,
        publish@ == drained(old(db)@, old(queue)@).publish,
{
    let ghost goal = drained(db@, queue@);
    let mut publish: Vec<Route> = Vec::new();
    loop
        invariant
            goal.db == drained(db@, queue@).db,
            goal.publish == publish@ + drained(db@, queue@).publish,
        ensures
            queue@.len() == 0,
            goal.db == db@,
            goal.publish == publish@,
        decreases sources(queue@), queue@.len(),
    {
        let ghost before = queue@;
        let ghost start = db@;
        let route = match queue.consume() {
            Some(route) => route,
            None => {
                break;
            },
        };
        let cycle = Cycle::for_route(&route);
        let mut turn = run_cycle(&cycle, db, &route);
        proof {
            lemma_fresh_are_paths(route.kind, start, route);
            lemma_queue_shrinks(before, turn.fresh@);
        }
        if cycle.public() {
            publish.append(&mut turn.fresh);
        } else {
            queue.produce_all(&turn.fresh);
        }
    }
    publish
}

/// The pass of one job: works off the queue that holds `seed` alone.
pub fn derive_from(db: &mut Database, seed: Route) -> (publish: Vec<Route>)
    ensures
        final(db)@ == drained(old(db)@, seq![seed]).db,
        publish@ == drained(old(db)@, seq![seed]).publish,
{
    let mut queue = LocalQueue::new();
    queue.produce(seed);
    drain(db, &mut queue)
}

/// What the pass of one job leaves to be written and sent.
#[derive(Debug)]
pub struct Pass {
    /// The database after the pass.
    pub db: Database,
    /// The queue to write beside the database: the job's route alone, so
    /// that a merge can take up what the pass started from.
    pub queue: LocalQueue,
    /// The routes to announce on the global queue.
    pub publish: Vec<Route>,
}

/// The pass of the job `seed` on `db`: see [`drained`].
pub fn run_job(db: Database, seed: Route) -> (pass: Pass)
    ensures
        pass.db@ == drained(db@, seq![seed]).db,
        pass.queue@ == seq![seed],
        pass.publish@ == drained(db@, seq![seed]).publish,
{
    let mut db = db;
    let mut queue = LocalQueue::new();
    queue.produce(seed);
    let publish = derive_from(&mut db, seed);
    Pass { db, queue, publish }
}

} // verus!
