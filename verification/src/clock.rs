//! A log of the clock readings that a value was checked against, so that contracts can name
//! the reading an operation used. Only `ClockLog::read` adds to the log, and only with the
//! reading it hands back.
use vstd::prelude::*;
use crate::token::get_current_time;

verus! {

/// The successful clock readings taken through this log, oldest first.
pub struct ClockLog {
    readings: Ghost<Seq<u64>>,
}

impl ClockLog {
    /// The readings taken so far, oldest first.
    pub closed spec fn readings(&self) -> Seq<u64> {
        self.readings@
    }

    /// A log with no readings.
    pub fn new() -> (res: ClockLog)
        ensures
            res.readings() == Seq::<u64>::empty(),
    {
        ClockLog { readings: Ghost(Seq::empty()) }
    }

    /// Reads the clock by `get_current_time` and appends a successful reading to the log;
    /// a failed reading leaves the log as it was.
    pub fn read(&mut self) -> (res: Option<u64>)
        ensures
            match res {
                Some(now) => final(self).readings() == old(self).readings().push(now),
                None => *final(self) == *old(self),
            },
    {
        let res = get_current_time();
        match res {
            Some(now) => {
                let ghost next = self.readings@.push(now);
                self.readings = Ghost(next);
            },
            None => {},
        }
        res
    }
}

} // verus!
