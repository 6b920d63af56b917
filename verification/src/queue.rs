//! The local queue: the outstanding routes of one worker pass.
use vstd::prelude::*;
use std::collections::VecDeque;
use crate::route::Route;

verus! {

/// A first-in, first-out worklist of routes.
#[derive(Debug)]
pub struct LocalQueue {
    routes: VecDeque<Route>,
}

impl View for LocalQueue {
    type V = Seq<Route>;

    /// The queued routes, the next one to leave first.
    closed spec fn view(&self) -> Seq<Route> {
        self.routes@
    }
}

impl Clone for LocalQueue {
    fn clone(&self) -> (copy: Self)
        ensures
            copy@ == self@,
    {
        LocalQueue { routes: self.routes.clone() }
    }
}

impl LocalQueue {
    /// The empty queue.
    pub fn new() -> (queue: Self)
        ensures
            queue@ == Seq::<Route>::empty(),
    {
        LocalQueue { routes: VecDeque::new() }
    }

    /// Number of queued routes.
    pub fn len(&self) -> (n: usize)
        ensures
            n == self@.len(),
    {
        self.routes.len()
    }

    pub fn is_empty(&self) -> (empty: bool)
        ensures
            empty == (self@.len() == 0),
    {
        self.routes.len() == 0
    }

    /// Puts `route` behind all queued routes.
    pub fn produce(&mut self, route: Route)
        ensures
            final(self)@ == old(self)@.push(route),
    {
        self.routes.push_back(route);
    }

    /// Puts `routes`, in their order, behind all queued routes.
    pub fn produce_all(&mut self, routes: &Vec<Route>)
        ensures
            final(self)@ == old(self)@ + routes@,
    {
        let mut i: usize = 0;
        while i < routes.len()
            invariant
                i <= routes.len(),
                self@ == old(self)@ + routes@.take(i as int),
            decreases routes.len() - i,
        {
            self.produce(routes[i]);
            i += 1;
        }
    }

    /// Takes the oldest route off the queue, if there is one.
    pub fn consume(&mut self) -> (route: Option<Route>)
        ensures
            old(self)@.len() == 0 ==> route is None && final(self)@ == old(self)@,
            old(self)@.len() > 0 ==> route == Some(old(self)@[0]) && final(self)@ == old(self)@.drop_first(),
    {
        let route = self.routes.pop_front();
        route
    }

    /// The route at position `index`, counted from the front.
    pub fn get(&self, index: usize) -> (route: Option<Route>)
        ensures
            route == (if index < self@.len() { Some(self@[index as int]) } else { None }),
    {
        if index < self.routes.len() {
            Some(self.routes[index])
        } else {
            None
        }
    }
}

} // verus!
