//! A sprint: a named, closed time window.

use vstd::prelude::*;

verus! {

/// A named aggregation window.  Both bounds are instants in nanoseconds
/// since the Unix epoch, and both are inside the window.
pub struct Sprint {
    pub name: String,
    pub since: i64,
    pub until: i64,
}

pub ghost struct SprintView {
    pub name: Seq<char>,
    pub since: int,
    pub until: int,
}

impl View for Sprint {
    type V = SprintView;

    open spec fn view(&self) -> SprintView {
        SprintView { name: self.name@, since: self.since as int, until: self.until as int }
    }
}

impl Sprint {
    /// A sprint is an interval: its start is not after its end.
    pub fn new(name: String, since: i64, until: i64) -> (r: Self)
        requires
            since <= until,
        ensures
            r@.name == name@,
            r@.since == since as int,
            r@.until == until as int,
    {
        Sprint { name, since, until }
    }
}

impl Clone for Sprint {
    fn clone(&self) -> (r: Self)
        ensures
            r@ == self@,
    {
        Sprint { name: self.name.clone(), since: self.since, until: self.until }
    }
}

} // verus!
