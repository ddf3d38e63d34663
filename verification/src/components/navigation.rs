//! Waypoints waiting to become the navigation target.

use vstd::prelude::*;
use std::collections::VecDeque;

verus! {

/// Waypoints in the order in which they are to be flown. `T` is the
/// waypoint: a target position with its arrival radius.
pub struct NavigationQueue<T> {
    pub waypoints: VecDeque<T>,
}

impl<T> NavigationQueue<T> {
    pub fn new() -> (queue: Self)
        ensures
            queue.waypoints@ == Seq::<T>::empty(),
    {
        Self { waypoints: VecDeque::new() }
    }

    /// Puts `waypoint` behind those already waiting.
    pub fn add_waypoint(&mut self, waypoint: T)
        ensures
            final(self).waypoints@ == old(self).waypoints@.push(waypoint),
    {
        self.waypoints.push_back(waypoint);
    }

    pub fn clear(&mut self)
        ensures
            final(self).waypoints@ == Seq::<T>::empty(),
    {
        self.waypoints.clear();
    }
}

} // verus!
