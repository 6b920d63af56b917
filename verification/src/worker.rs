//! The worker: one run is a merge where two merge requests wait, and the pass
//! of one job otherwise.
use vstd::prelude::*;
use vstd::string::StringExecFns;
use crate::database::DatabaseView;
use crate::laws::{lemma_merge_announces_nothing, lemma_pass_announces_nothing};
use crate::merge::{reconcile, reconciled};
use crate::pass::{drained, run_job};
use crate::registry::{Effect, Journal, Registry};
use crate::route::Route;

verus! {

/// Why a run ended early.
#[derive(Debug)]
pub enum WorkerError<E> {
    /// A call on the global queue failed. Nothing was acknowledged, so what
    /// was reserved will be delivered again.
    Transport(E),
    /// A snapshot could not be read or written. Nothing was acknowledged.
    Storage(E),
    /// A superseded snapshot could not be deleted after its merge request was
    /// acknowledged. The run must not be tried again.
    Cleanup(E),
}

impl<E> WorkerError<E> {
    /// Whether the failed run left everything as a new run needs it: so it
    /// is after every failure but that of the cleanup.
    pub open spec fn leaves_retry_safe(self) -> bool {
        !(self is Cleanup)
    }
}

/// What a call on the global queue comes to: the value it gave, or the
/// transport error that holds the error it gave.
pub fn in_transport<T, E>(outcome: Result<T, E>) -> (settled: Result<T, WorkerError<E>>)
    ensures
        settled == (match outcome {
            Ok(value) => Ok::<T, WorkerError<E>>(value),
            Err(error) => Err(WorkerError::Transport(error)),
        }),
{
    match outcome {
        Ok(value) => Ok(value),
        Err(error) => Err(WorkerError::Transport(error)),
    }
}

/// What a read or a write of a snapshot comes to: the value it gave, or the
/// storage error that holds the error it gave.
pub fn in_storage<T, E>(outcome: Result<T, E>) -> (settled: Result<T, WorkerError<E>>)
    ensures
        settled == (match outcome {
            Ok(value) => Ok::<T, WorkerError<E>>(value),
            Err(error) => Err(WorkerError::Storage(error)),
        }),
{
    match outcome {
        Ok(value) => Ok(value),
        Err(error) => Err(WorkerError::Storage(error)),
    }
}

/// What the deletion of a superseded snapshot comes to: nothing, or the
/// cleanup error that holds the error it gave.
pub fn in_cleanup<T, E>(outcome: Result<T, E>) -> (settled: Result<T, WorkerError<E>>)
    ensures
        settled == (match outcome {
            Ok(value) => Ok::<T, WorkerError<E>>(value),
            Err(error) => Err(WorkerError::Cleanup(error)),
        }),
{
    match outcome {
        Ok(value) => Ok(value),
        Err(error) => Err(WorkerError::Cleanup(error)),
    }
}

/// The priority under which routes are announced on the global queue.
pub const PRIORITY: usize = 0;

/// Number of merge requests that a merge takes.
pub const MERGE_PAIR: usize = 2;

/// Whether a merge can be attempted: a merge takes a pair of requests.
pub fn merge_ready(pending: usize) -> (ready: bool)
    ensures
        ready == (pending >= MERGE_PAIR),
{
    pending >= MERGE_PAIR
}

/// Where a worker of this name puts a database snapshot.
pub open spec fn db_place(worker_name: Seq<char>, unique: Seq<char>) -> Seq<char> {
    "database"@ + worker_name + unique
}

/// Where a worker of this name puts a queue snapshot.
pub open spec fn queue_place(worker_name: Seq<char>, unique: Seq<char>) -> Seq<char> {
    "queue"@ + worker_name + unique
}

/// The location of a database snapshot.
pub fn db_location(worker_name: &str, unique: &str) -> (location: String)
    ensures
        location@ == db_place(worker_name@, unique@),
{
    String::from_str("database").concat(worker_name).concat(unique)
}

/// The location of a queue snapshot.
pub fn queue_location(worker_name: &str, unique: &str) -> (location: String)
    ensures
        location@ == queue_place(worker_name@, unique@),
{
    String::from_str("queue").concat(worker_name).concat(unique)
}

/// Whether `error` is what the worker returns where the call that would have
/// left `effect` fails: a storage error for a read or a write of a snapshot,
/// a cleanup error for a deletion, a transport error for a call on the
/// global queue. The calls for a name, a unique string and the starting
/// database do not fail.
pub open spec fn failed_at<Receipt, E>(effect: Effect<Receipt>, error: WorkerError<E>) -> bool {
    match effect {
        Effect::ReadDb(_, _) => error is Storage,
        Effect::ReadQueue(_, _) => error is Storage,
        Effect::WroteDb(_, _) => error is Storage,
        Effect::WroteQueue(_, _) => error is Storage,
        Effect::Deleted(_) => error is Cleanup,
        Effect::Named(_) => false,
        Effect::Drew(_) => false,
        Effect::Opened(_) => false,
        _ => error is Transport,
    }
}

/// Whether a run followed `script`: the journal grew by the first `n` calls
/// of the script, in their order, and by nothing else; the run succeeded
/// exactly if it made them all; and if it failed, it failed on the call that
/// was next, with the error of that call's kind.
pub open spec fn followed<Receipt, E, T>(
    before: Journal<Receipt>,
    after: Journal<Receipt>,
    script: Seq<Effect<Receipt>>,
    n: int,
    outcome: Result<T, WorkerError<E>>,
) -> bool {
    &&& 0 <= n <= script.len()
    &&& after.effects == before.effects + script.take(n)
    &&& outcome is Ok <==> n == script.len()
    &&& outcome matches Err(error) ==> n < script.len() && failed_at(script[n], error)
}

/// The announcement of each route, in their order.
pub open spec fn announcements<Receipt>(routes: Seq<Route>) -> Seq<Effect<Receipt>> {
    routes.map_values(|route: Route| Effect::Announced(route, PRIORITY))
}

/// Announces each of `routes` on the global queue, in their order, and stops
/// at the first that the queue refuses. With nothing to announce it calls
/// nothing and succeeds.
fn announce<R: Registry>(
    reg: &mut R,
    queue: &mut R::GlobalQueueLocation,
    routes: &Vec<Route>,
) -> (done: Result<(), WorkerError<R::Error>>)
    ensures
        exists|n: int| #[trigger]
            followed(old(reg).done(), final(reg).done(), announcements(routes@), n, done),
{
    let ghost start = reg.done();
    let ghost script = announcements::<R::JobReceipt>(routes@);
    let mut i: usize = 0;
    while i < routes.len()
        invariant
            i <= routes.len(),
            start == old(reg).done(),
            script == announcements::<R::JobReceipt>(routes@),
            reg.done().effects == start.effects + script.take(i as int),
        decreases routes.len() - i,
    {
        match in_transport(reg.produce_global(routes[i], queue, PRIORITY)) {
            Ok(_) => {},
            Err(error) => {
                let failure = Err(error);
                assert(followed(start, reg.done(), script, i as int, failure));
                return failure;
            },
        }
        assert(reg.done().effects =~= start.effects + script.take(i + 1));
        i += 1;
    }
    let done = Ok(());
    assert(followed(start, reg.done(), script, i as int, done));
    done
}

/// What a pass learns from the registry as it goes.
pub struct PassFacts<Receipt> {
    /// The worker's name.
    pub name: Seq<char>,
    /// The database that the pass starts with.
    pub db: DatabaseView,
    /// The unique string for the location of the database.
    pub db_unique: Seq<char>,
    /// The route of the reserved job.
    pub seed: Route,
    /// The receipt of the reserved job.
    pub receipt: Receipt,
    /// The unique string for the location of the queue.
    pub queue_unique: Seq<char>,
}

/// The calls of a pass, in their order: it asks for the name, the starting
/// database and a unique string, and reserves a job; it writes the database
/// that the pass of the job leaves; it draws a second unique string and
/// writes the queue that holds the job's route alone; it publishes the merge
/// request for the two; and last it acknowledges the job.
pub open spec fn pass_script<Receipt>(facts: PassFacts<Receipt>) -> Seq<Effect<Receipt>> {
    let db_loc = db_place(facts.name, facts.db_unique);
    let queue_loc = queue_place(facts.name, facts.queue_unique);
    seq![
        Effect::Named(facts.name),
        Effect::Opened(facts.db),
        Effect::Drew(facts.db_unique),
        Effect::ReservedJob(facts.seed, facts.receipt),
        Effect::WroteDb(db_loc, drained(facts.db, seq![facts.seed]).db),
        Effect::Drew(facts.queue_unique),
        Effect::WroteQueue(queue_loc, seq![facts.seed]),
        Effect::Published(db_loc, queue_loc),
        Effect::Acked(facts.receipt),
    ]
}

/// The pass of one job: see [`pass_script`] for the calls it makes and their
/// order. It stops at the first call that fails, so the job is acknowledged
/// only after both snapshots are written and their merge request is
/// published, and nothing is ever deleted.
pub fn run_pass<R: Registry>(reg: &mut R, queue: &mut R::GlobalQueueLocation) -> (done: Result<
    (),
    WorkerError<R::Error>,
>)
    ensures
        exists|facts: PassFacts<R::JobReceipt>, n: int| #[trigger]
            followed(old(reg).done(), final(reg).done(), pass_script(facts), n, done),
        done matches Err(error) ==> error.leaves_retry_safe(),
{
    let ghost start = reg.done();
    let name = reg.worker_name();
    let db = reg.create_db();
    let db_unique = reg.unique_string();
    let db_loc = db_location(name.as_str(), db_unique.as_str());
    let ghost mut facts = PassFacts {
        name: name@,
        db: db@,
        db_unique: db_unique@,
        ..arbitrary::<PassFacts<R::JobReceipt>>()
    };
    assert(reg.done().effects =~= start.effects + pass_script(facts).take(3));
    let (seed, receipt) = match in_transport(reg.consume_global(queue)) {
        Ok(job) => job,
        Err(error) => {
            let failure = Err(error);
            assert(followed(start, reg.done(), pass_script(facts), 3, failure));
            return failure;
        },
    };
    proof {
        facts = PassFacts { seed, receipt, ..facts };
        lemma_pass_announces_nothing(db@, seq![seed]);
    }
    assert(reg.done().effects =~= start.effects + pass_script(facts).take(4));
    let pass = run_job(db, seed);
    let ghost reserved = reg.done();
    match announce(reg, queue, &pass.publish) {
        Ok(_) => {},
        Err(error) => {
            let failure = Err(error);
            assert(followed(start, reg.done(), pass_script(facts), 4, failure));
            return failure;
        },
    }
    assert(reg.done().effects =~= reserved.effects);
    match in_storage(reg.write_db(&db_loc, &pass.db)) {
        Ok(_) => {},
        Err(error) => {
            let failure = Err(error);
            assert(followed(start, reg.done(), pass_script(facts), 4, failure));
            return failure;
        },
    }
    let queue_unique = reg.unique_string();
    let queue_loc = queue_location(name.as_str(), queue_unique.as_str());
    proof {
        facts = PassFacts { queue_unique: queue_unique@, ..facts };
    }
    assert(reg.done().effects =~= start.effects + pass_script(facts).take(6));
    match in_storage(reg.write_local_queue(&queue_loc, &pass.queue)) {
        Ok(_) => {},
        Err(error) => {
            let failure = Err(error);
            assert(followed(start, reg.done(), pass_script(facts), 6, failure));
            return failure;
        },
    }
    assert(reg.done().effects =~= start.effects + pass_script(facts).take(7));
    match in_transport(reg.produce_merge_event(queue, db_loc, queue_loc)) {
        Ok(_) => {},
        Err(error) => {
            let failure = Err(error);
            assert(followed(start, reg.done(), pass_script(facts), 7, failure));
            return failure;
        },
    }
    assert(reg.done().effects =~= start.effects + pass_script(facts).take(8));
    match in_transport(reg.ack_global(queue, receipt)) {
        Ok(_) => {},
        Err(error) => {
            let failure = Err(error);
            assert(followed(start, reg.done(), pass_script(facts), 8, failure));
            return failure;
        },
    }
    assert(reg.done().effects =~= start.effects + pass_script(facts).take(9));
    let done = Ok(());
    assert(followed(start, reg.done(), pass_script(facts), 9, done));
    done
}

/// What a merge learns from the registry as it goes.
pub struct MergeFacts<Receipt> {
    /// The number of waiting merge requests.
    pub pending: usize,
    /// Where the first request has its database.
    pub first_db_loc: Seq<char>,
    /// Where the first request has its queue.
    pub first_queue_loc: Seq<char>,
    /// The receipt of the first request.
    pub first_receipt: Receipt,
    /// Where the second request has its database.
    pub second_db_loc: Seq<char>,
    /// Where the second request has its queue.
    pub second_queue_loc: Seq<char>,
    /// The receipt of the second request.
    pub second_receipt: Receipt,
    /// The database of the first request.
    pub first_db: DatabaseView,
    /// The queue of the first request.
    pub first_queue: Seq<Route>,
    /// The database of the second request.
    pub second_db: DatabaseView,
    /// The queue of the second request.
    pub second_queue: Seq<Route>,
    /// The worker's name.
    pub name: Seq<char>,
    /// The unique string for the location of the merged database.
    pub db_unique: Seq<char>,
    /// The unique string for the location of the reconciled queue.
    pub queue_unique: Seq<char>,
}

/// The calls of a merge, in their order: it counts the waiting requests and
/// reserves two; it reads the database and the queue of each; it asks for
/// the name and two unique strings; it writes the merged database and the
/// reconciled queue, which holds every route of the first queue and then
/// every route of the second; it publishes the merge request for the two;
/// then it acknowledges the two requests; and last it deletes the two
/// databases that the merged one supersedes.
pub open spec fn merge_script<Receipt>(facts: MergeFacts<Receipt>) -> Seq<Effect<Receipt>> {
    let db_loc = db_place(facts.name, facts.db_unique);
    let queue_loc = queue_place(facts.name, facts.queue_unique);
    let merged = reconciled(
        facts.first_db,
        facts.first_queue,
        facts.second_db,
        facts.second_queue,
    );
    seq![
        Effect::Counted(facts.pending),
        Effect::ReservedMerge(facts.first_db_loc, facts.first_queue_loc, facts.first_receipt),
        Effect::ReservedMerge(facts.second_db_loc, facts.second_queue_loc, facts.second_receipt),
        Effect::ReadDb(facts.first_db_loc, facts.first_db),
        Effect::ReadQueue(facts.first_queue_loc, facts.first_queue),
        Effect::ReadDb(facts.second_db_loc, facts.second_db),
        Effect::ReadQueue(facts.second_queue_loc, facts.second_queue),
        Effect::Named(facts.name),
        Effect::Drew(facts.db_unique),
        Effect::Drew(facts.queue_unique),
        Effect::WroteDb(db_loc, merged.db),
        Effect::WroteQueue(queue_loc, facts.first_queue + facts.second_queue),
        Effect::Published(db_loc, queue_loc),
        Effect::Acked(facts.first_receipt),
        Effect::Acked(facts.second_receipt),
        Effect::Deleted(facts.first_db_loc),
        Effect::Deleted(facts.second_db_loc),
    ]
}

/// Whether a run was that of a merge. Where fewer than a pair of requests
/// waited, it counted them, did nothing else and returned that it did not
/// merge. Else it followed [`merge_script`], and where it returned, it
/// returned that it merged.
pub open spec fn merge_followed<Receipt, E>(
    before: Journal<Receipt>,
    after: Journal<Receipt>,
    facts: MergeFacts<Receipt>,
    n: int,
    outcome: Result<bool, WorkerError<E>>,
) -> bool {
    if n == 1 && facts.pending < MERGE_PAIR {
        &&& after == before.with(Effect::Counted(facts.pending))
        &&& outcome matches Ok(merged) && !merged
    } else {
        &&& followed(before, after, merge_script(facts), n, outcome)
        &&& outcome matches Ok(merged) ==> merged
        &&& n >= 1 ==> facts.pending >= MERGE_PAIR
    }
}

/// Merges two waiting merge requests into one, if two are waiting, and
/// returns whether it did: see [`merge_script`] for the calls it makes and
/// their order. It stops at the first call that fails, so nothing is
/// acknowledged before the merged snapshots are written and published, and
/// nothing is deleted before both requests are acknowledged.
pub fn try_merge<R: Registry>(reg: &mut R, queue: &mut R::GlobalQueueLocation) -> (merged: Result<
    bool,
    WorkerError<R::Error>,
>)
    ensures
        exists|facts: MergeFacts<R::JobReceipt>, n: int| #[trigger]
            merge_followed(old(reg).done(), final(reg).done(), facts, n, merged),
{
    let ghost start = reg.done();
    let ghost mut facts = arbitrary::<MergeFacts<R::JobReceipt>>();
    let pending = match in_transport(reg.pending_merges(queue)) {
        Ok(pending) => pending,
        Err(error) => {
            let failure = Err(error);
            assert(reg.done().effects =~= start.effects + merge_script(facts).take(0));
            assert(merge_followed(start, reg.done(), facts, 0, failure));
            return failure;
        },
    };
    proof {
        facts = MergeFacts { pending, ..facts };
    }
    if !merge_ready(pending) {
        let idle = Ok(false);
        assert(merge_followed(start, reg.done(), facts, 1, idle));
        return idle;
    }
    assert(reg.done().effects =~= start.effects + merge_script(facts).take(1));
    let first = match in_transport(reg.consume_merge_event(queue)) {
        Ok(request) => request,
        Err(error) => {
            let failure = Err(error);
            assert(merge_followed(start, reg.done(), facts, 1, failure));
            return failure;
        },
    };
    proof {
        facts = MergeFacts {
            first_db_loc: first.db_location@,
            first_queue_loc: first.queue_location@,
            first_receipt: first.receipt,
            ..facts
        };
    }
    assert(reg.done().effects =~= start.effects + merge_script(facts).take(2));
    let second = match in_transport(reg.consume_merge_event(queue)) {
        Ok(request) => request,
        Err(error) => {
            let failure = Err(error);
            assert(merge_followed(start, reg.done(), facts, 2, failure));
            return failure;
        },
    };
    proof {
        facts = MergeFacts {
            second_db_loc: second.db_location@,
            second_queue_loc: second.queue_location@,
            second_receipt: second.receipt,
            ..facts
        };
    }
    assert(reg.done().effects =~= start.effects + merge_script(facts).take(3));
    let first_db = match in_storage(reg.read_db(&first.db_location)) {
        Ok(db) => db,
        Err(error) => {
            let failure = Err(error);
            assert(merge_followed(start, reg.done(), facts, 3, failure));
            return failure;
        },
    };
    proof {
        facts = MergeFacts { first_db: first_db@, ..facts };
    }
    assert(reg.done().effects =~= start.effects + merge_script(facts).take(4));
    let first_queue = match in_storage(reg.read_queue(&first.queue_location)) {
        Ok(queue) => queue,
        Err(error) => {
            let failure = Err(error);
            assert(merge_followed(start, reg.done(), facts, 4, failure));
            return failure;
        },
    };
    proof {
        facts = MergeFacts { first_queue: first_queue@, ..facts };
    }
    assert(reg.done().effects =~= start.effects + merge_script(facts).take(5));
    let second_db = match in_storage(reg.read_db(&second.db_location)) {
        Ok(db) => db,
        Err(error) => {
            let failure = Err(error);
            assert(merge_followed(start, reg.done(), facts, 5, failure));
            return failure;
        },
    };
    proof {
        facts = MergeFacts { second_db: second_db@, ..facts };
    }
    assert(reg.done().effects =~= start.effects + merge_script(facts).take(6));
    let second_queue = match in_storage(reg.read_queue(&second.queue_location)) {
        Ok(queue) => queue,
        Err(error) => {
            let failure = Err(error);
            assert(merge_followed(start, reg.done(), facts, 6, failure));
            return failure;
        },
    };
    proof {
        facts = MergeFacts { second_queue: second_queue@, ..facts };
    }
    assert(reg.done().effects =~= start.effects + merge_script(facts).take(7));
    let name = reg.worker_name();
    let db_unique = reg.unique_string();
    let queue_unique = reg.unique_string();
    let db_loc = db_location(name.as_str(), db_unique.as_str());
    let queue_loc = queue_location(name.as_str(), queue_unique.as_str());
    proof {
        facts = MergeFacts {
            name: name@,
            db_unique: db_unique@,
            queue_unique: queue_unique@,
            ..facts
        };
        lemma_merge_announces_nothing(first_db@, first_queue@, second_db@, second_queue@);
    }
    assert(reg.done().effects =~= start.effects + merge_script(facts).take(10));
    let merged = reconcile(&first_db, &first_queue, &second_db, &second_queue);
    match in_storage(reg.write_db(&db_loc, &merged.db)) {
        Ok(_) => {},
        Err(error) => {
            let failure = Err(error);
            assert(merge_followed(start, reg.done(), facts, 10, failure));
            return failure;
        },
    }
    assert(reg.done().effects =~= start.effects + merge_script(facts).take(11));
    match in_storage(reg.write_local_queue(&queue_loc, &merged.queue)) {
        Ok(_) => {},
        Err(error) => {
            let failure = Err(error);
            assert(merge_followed(start, reg.done(), facts, 11, failure));
            return failure;
        },
    }
    assert(reg.done().effects =~= start.effects + merge_script(facts).take(12));
    let ghost written = reg.done();
    match announce(reg, queue, &merged.publish) {
        Ok(_) => {},
        Err(error) => {
            let failure = Err(error);
            assert(merge_followed(start, reg.done(), facts, 12, failure));
            return failure;
        },
    }
    assert(reg.done().effects =~= written.effects);
    match in_transport(reg.produce_merge_event(queue, db_loc, queue_loc)) {
        Ok(_) => {},
        Err(error) => {
            let failure = Err(error);
            assert(merge_followed(start, reg.done(), facts, 12, failure));
            return failure;
        },
    }
    assert(reg.done().effects =~= start.effects + merge_script(facts).take(13));
    match in_transport(reg.ack_global(queue, first.receipt)) {
        Ok(_) => {},
        Err(error) => {
            let failure = Err(error);
            assert(merge_followed(start, reg.done(), facts, 13, failure));
            return failure;
        },
    }
    assert(reg.done().effects =~= start.effects + merge_script(facts).take(14));
    match in_transport(reg.ack_global(queue, second.receipt)) {
        Ok(_) => {},
        Err(error) => {
            let failure = Err(error);
            assert(merge_followed(start, reg.done(), facts, 14, failure));
            return failure;
        },
    }
    assert(reg.done().effects =~= start.effects + merge_script(facts).take(15));
    match in_cleanup(reg.delete_db(first.db_location)) {
        Ok(_) => {},
        Err(error) => {
            let failure = Err(error);
            assert(merge_followed(start, reg.done(), facts, 15, failure));
            return failure;
        },
    }
    assert(reg.done().effects =~= start.effects + merge_script(facts).take(16));
    match in_cleanup(reg.delete_db(second.db_location)) {
        Ok(_) => {},
        Err(error) => {
            let failure = Err(error);
            assert(merge_followed(start, reg.done(), facts, 16, failure));
            return failure;
        },
    }
    assert(reg.done().effects =~= start.effects + merge_script(facts).take(17));
    let done = Ok(true);
    assert(merge_followed(start, reg.done(), facts, 17, done));
    done
}

/// Whether a run was that of a worker. Either the global queue could not be
/// connected to, and nothing else was done. Or the run connected and counted
/// the waiting merge requests; and then, where fewer than a pair waited, the
/// rest of the run followed [`pass_script`]; else the run, with the count,
/// followed [`merge_script`].
pub open spec fn worked<Receipt, E>(
    before: Journal<Receipt>,
    after: Journal<Receipt>,
    merge: MergeFacts<Receipt>,
    n: int,
    pass: PassFacts<Receipt>,
    m: int,
    outcome: Result<(), WorkerError<E>>,
) -> bool {
    let connected = before.with(Effect::Connected);
    ||| after == before && (outcome matches Err(error) && error is Transport)
    ||| if n == 1 && merge.pending < MERGE_PAIR {
        followed(
            connected.with(Effect::Counted(merge.pending)),
            after,
            pass_script(pass),
            m,
            outcome,
        )
    } else {
        &&& followed(connected, after, merge_script(merge), n, outcome)
        &&& n >= 1 ==> merge.pending >= MERGE_PAIR
    }
}

/// One run of a worker. Merging comes first: where two merge requests wait,
/// the run merges them and ends. Otherwise it is the pass of one job.
pub fn run_worker<R: Registry>(reg: &mut R) -> (done: Result<(), WorkerError<R::Error>>)
    ensures
        exists|merge: MergeFacts<R::JobReceipt>, n: int, pass: PassFacts<R::JobReceipt>, m: int|
            #[trigger] worked(old(reg).done(), final(reg).done(), merge, n, pass, m, done),
{
    let ghost start = reg.done();
    let mut queue = match in_transport(reg.create_global_queue()) {
        Ok(queue) => queue,
        Err(error) => {
            let failure = Err(error);
            assert(worked(start, reg.done(), arbitrary(), 0, arbitrary(), 0, failure));
            return failure;
        },
    };
    let ghost connected = reg.done();
    let merged = try_merge(reg, &mut queue);
    let ghost (merge, n) = choose|merge: MergeFacts<R::JobReceipt>, n: int|
        merge_followed(connected, reg.done(), merge, n, merged);
    match merged {
        Ok(true) => {
            let done = Ok(());
            assert(worked(start, reg.done(), merge, n, arbitrary(), 0, done));
            done
        },
        Ok(false) => {
            let ghost counted = reg.done();
            let done = run_pass(reg, &mut queue);
            let ghost (pass, m) = choose|pass: PassFacts<R::JobReceipt>, m: int|
                followed(counted, reg.done(), pass_script(pass), m, done);
            assert(worked(start, reg.done(), merge, n, pass, m, done));
            done
        },
        Err(error) => {
            let failure = Err(error);
            assert(worked(start, reg.done(), merge, n, arbitrary(), 0, failure));
            failure
        },
    }
}

} // verus!
