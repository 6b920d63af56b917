//! The collaborators of a worker: snapshot storage, the global queue, naming.
use vstd::prelude::*;
use crate::database::{Database, DatabaseView};
use crate::queue::LocalQueue;
use crate::route::Route;

verus! {

/// A reserved merge request: where a worker left its database and its
/// leftover queue, and the receipt that acknowledges the request.
pub struct MergeRequest<Receipt> {
    pub db_location: String,
    pub queue_location: String,
    pub receipt: Receipt,
}

/// One call on a registry that succeeded: what was asked and what came back.
pub enum Effect<Receipt> {
    /// The global queue was connected to.
    Connected,
    /// The worker's name was asked for.
    Named(Seq<char>),
    /// A unique string was drawn.
    Drew(Seq<char>),
    /// The database to start a pass with was handed out.
    Opened(DatabaseView),
    /// The waiting merge requests were counted.
    Counted(usize),
    /// A job was reserved: its route, and the receipt for it.
    ReservedJob(Route, Receipt),
    /// A merge request was reserved: the location of its database, that of
    /// its queue, and the receipt for it.
    ReservedMerge(Seq<char>, Seq<char>, Receipt),
    /// The database snapshot at a location was read.
    ReadDb(Seq<char>, DatabaseView),
    /// The queue snapshot at a location was read.
    ReadQueue(Seq<char>, Seq<Route>),
    /// A route was put on the global queue under a priority.
    Announced(Route, usize),
    /// A database was written at a location.
    WroteDb(Seq<char>, DatabaseView),
    /// A queue was written at a location.
    WroteQueue(Seq<char>, Seq<Route>),
    /// A merge request was published for the database and the queue at two
    /// locations.
    Published(Seq<char>, Seq<char>),
    /// A reserved message was acknowledged.
    Acked(Receipt),
    /// The database snapshot at a location was deleted.
    Deleted(Seq<char>),
}

/// The record of a registry: the calls on it that succeeded, oldest first.
pub struct Journal<Receipt> {
    pub effects: Seq<Effect<Receipt>>,
}

impl<Receipt> Journal<Receipt> {
    /// The journal with one more entry.
    pub open spec fn with(self, effect: Effect<Receipt>) -> Self {
        Journal { effects: self.effects.push(effect) }
    }
}

/// What a worker needs from the outside: durable storage for snapshots, a
/// global queue with a channel of jobs and a channel of merge requests, a name
/// and a source of unique strings.
///
/// No call is promised to succeed. What an implementation owes is its
/// journal: a call that succeeds adds the one entry that says what it did,
/// and a call that fails adds nothing. The worker's contracts are stated over
/// this journal, so they hold of a registry as far as it keeps it. A registry
/// written outside verified code never has `done` called.
pub trait Registry {
    /// A handle on the global queue.
    type GlobalQueueLocation;

    /// The token of a reserved, not yet acknowledged message.
    type JobReceipt;

    /// What a failed call reports.
    type Error;

    /// The calls that succeeded so far.
    spec fn done(&self) -> Journal<Self::JobReceipt>;

    /// A string that no earlier call returned.
    fn unique_string(&mut self) -> (unique: String)
        ensures
            final(self).done() == old(self).done().with(Effect::Drew(unique@)),
    ;

    /// The name of this worker.
    fn worker_name(&mut self) -> (name: String)
        ensures
            final(self).done() == old(self).done().with(Effect::Named(name@)),
    ;

    /// The database that this worker starts a pass with.
    fn create_db(&mut self) -> (db: Database)
        ensures
            final(self).done() == old(self).done().with(Effect::Opened(db@)),
    ;

    /// Writes a snapshot of `db` at `loc`.
    fn write_db(&mut self, loc: &String, db: &Database) -> (outcome: Result<(), Self::Error>)
        ensures
            outcome is Ok ==> final(self).done() == old(self).done().with(
                Effect::WroteDb(loc@, db@),
            ),
            outcome is Err ==> final(self).done() == old(self).done(),
    ;

    /// Deletes the snapshot at `loc`.
    fn delete_db(&mut self, loc: String) -> (outcome: Result<(), Self::Error>)
        ensures
            outcome is Ok ==> final(self).done() == old(self).done().with(Effect::Deleted(loc@)),
            outcome is Err ==> final(self).done() == old(self).done(),
    ;

    /// Reads the database snapshot at `loc`.
    fn read_db(&mut self, loc: &String) -> (outcome: Result<Database, Self::Error>)
        ensures
            outcome matches Ok(db) ==> final(self).done() == old(self).done().with(
                Effect::ReadDb(loc@, db@),
            ),
            outcome is Err ==> final(self).done() == old(self).done(),
    ;

    /// Reads the queue snapshot at `loc`.
    fn read_queue(&mut self, loc: &String) -> (outcome: Result<LocalQueue, Self::Error>)
        ensures
            outcome matches Ok(queue) ==> final(self).done() == old(self).done().with(
                Effect::ReadQueue(loc@, queue@),
            ),
            outcome is Err ==> final(self).done() == old(self).done(),
    ;

    /// Writes a snapshot of `queue` at `loc`.
    fn write_local_queue(&mut self, loc: &String, queue: &LocalQueue) -> (outcome: Result<
        (),
        Self::Error,
    >)
        ensures
            outcome is Ok ==> final(self).done() == old(self).done().with(
                Effect::WroteQueue(loc@, queue@),
            ),
            outcome is Err ==> final(self).done() == old(self).done(),
    ;

    /// Connects to the global queue.
    fn create_global_queue(&mut self) -> (outcome: Result<Self::GlobalQueueLocation, Self::Error>)
        ensures
            outcome is Ok ==> final(self).done() == old(self).done().with(Effect::Connected),
            outcome is Err ==> final(self).done() == old(self).done(),
    ;

    /// Reserves one job: waits until there is one.
    fn consume_global(&mut self, queue: &mut Self::GlobalQueueLocation) -> (outcome: Result<
        (Route, Self::JobReceipt),
        Self::Error,
    >)
        ensures
            outcome matches Ok(job) ==> final(self).done() == old(self).done().with(
                Effect::ReservedJob(job.0, job.1),
            ),
            outcome is Err ==> final(self).done() == old(self).done(),
    ;

    /// Puts a job on the global queue.
    fn produce_global(
        &mut self,
        data: Route,
        queue: &mut Self::GlobalQueueLocation,
        priority: usize,
    ) -> (outcome: Result<Self::JobReceipt, Self::Error>)
        ensures
            outcome is Ok ==> final(self).done() == old(self).done().with(
                Effect::Announced(data, priority),
            ),
            outcome is Err ==> final(self).done() == old(self).done(),
    ;

    /// Acknowledges a reserved message, which removes it for good.
    fn ack_global(
        &mut self,
        queue: &mut Self::GlobalQueueLocation,
        receipt: Self::JobReceipt,
    ) -> (outcome: Result<(), Self::Error>)
        ensures
            outcome is Ok ==> final(self).done() == old(self).done().with(Effect::Acked(receipt)),
            outcome is Err ==> final(self).done() == old(self).done(),
    ;

    /// Publishes a merge request for the snapshots at the two locations.
    fn produce_merge_event(
        &mut self,
        queue: &mut Self::GlobalQueueLocation,
        db_loc: String,
        queue_loc: String,
    ) -> (outcome: Result<Self::JobReceipt, Self::Error>)
        ensures
            outcome is Ok ==> final(self).done() == old(self).done().with(
                Effect::Published(db_loc@, queue_loc@),
            ),
            outcome is Err ==> final(self).done() == old(self).done(),
    ;

    /// Number of merge requests that are ready to be reserved.
    fn pending_merges(&mut self, queue: &mut Self::GlobalQueueLocation) -> (outcome: Result<
        usize,
        Self::Error,
    >)
        ensures
            outcome matches Ok(pending) ==> final(self).done() == old(self).done().with(
                Effect::Counted(pending),
            ),
            outcome is Err ==> final(self).done() == old(self).done(),
    ;

    /// Reserves one merge request.
    fn consume_merge_event(&mut self, queue: &mut Self::GlobalQueueLocation) -> (outcome: Result<
        MergeRequest<Self::JobReceipt>,
        Self::Error,
    >)
        ensures
            outcome matches Ok(request) ==> final(self).done() == old(self).done().with(
                Effect::ReservedMerge(
                    request.db_location@,
                    request.queue_location@,
                    request.receipt,
                ),
            ),
            outcome is Err ==> final(self).done() == old(self).done(),
    ;
}

} // verus!
