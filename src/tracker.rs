//! The state kept for each traced process or thread.

use vstd::prelude::*;
use std::collections::HashMap;

verus! {

broadcast use vstd::std_specs::hash::group_hash_axioms;

/// Where a tracee stands in the alternation of syscall stops.
#[derive(PartialEq, Eq, Structural, Clone, Copy, Debug)]
pub enum Phase {
    /// The next syscall stop is the entry of a call.
    AwaitingEntry,
    /// The next syscall stop is the exit of the call that was entered.
    AwaitingExit,
}

pub open spec fn flipped(p: Phase) -> Phase {
    match p {
        Phase::AwaitingEntry => Phase::AwaitingExit,
        Phase::AwaitingExit => Phase::AwaitingEntry,
    }
}

/// One tracee: its phase and when it was first seen, in nanoseconds of the
/// tracer's monotonic clock.
#[derive(PartialEq, Eq, Structural, Clone, Copy, Debug)]
pub struct Tracee {
    pub phase: Phase,
    pub born_at: u64,
}

/// The live tracees, by process identifier.
#[derive(Debug)]
pub struct Tracker {
    tracees: HashMap<i32, Tracee>,
}

impl View for Tracker {
    type V = Map<i32, Tracee>;

    closed spec fn view(&self) -> Map<i32, Tracee> {
        self.tracees@
    }
}

impl Tracker {
    /// A tracker with no tracee.
    pub fn new() -> (r: Self)
        ensures
            r@ == Map::<i32, Tracee>::empty(),
    {
        Tracker { tracees: HashMap::new() }
    }

    /// `pid` has not been seen, or was removed.
    pub fn is_new(&self, pid: i32) -> (r: bool)
        ensures
            r == !self@.contains_key(pid),
    {
        !self.tracees.contains_key(&pid)
    }

    /// Records a tracee first seen at `now`, awaiting the entry of a call.
    pub fn register(&mut self, pid: i32, now: u64)
        ensures
            final(self)@ == old(self)@.insert(pid, Tracee { phase: Phase::AwaitingEntry, born_at: now }),
    {
        self.tracees.insert(pid, Tracee { phase: Phase::AwaitingEntry, born_at: now });
    }

    /// The tracee recorded for `pid`.
    pub fn get(&self, pid: i32) -> (r: Option<Tracee>)
        ensures
            r == (if self@.contains_key(pid) {
                Some(self@[pid])
            } else {
                None::<Tracee>
            }),
    {
        match self.tracees.get(&pid) {
            Some(t) => Some(*t),
            None => None,
        }
    }

    /// Flips the phase of a known tracee at a syscall stop and returns the
    /// phase it had: `AwaitingEntry` means that this stop is a call's entry.
    pub fn flip_and_get_phase(&mut self, pid: i32) -> (r: Phase)
        requires
            old(self)@.contains_key(pid),
        ensures
            r == old(self)@[pid].phase,
            final(self)@ == old(self)@.insert(
                pid,
                Tracee { phase: flipped(r), born_at: old(self)@[pid].born_at },
            ),
    {
        let t = *self.tracees.get(&pid).unwrap();
        let next = match t.phase {
            Phase::AwaitingEntry => Phase::AwaitingExit,
            Phase::AwaitingExit => Phase::AwaitingEntry,
        };
        self.tracees.insert(pid, Tracee { phase: next, born_at: t.born_at });
        t.phase
    }

    /// Forgets a tracee that has exited.
    pub fn remove(&mut self, pid: i32)
        ensures
            final(self)@ == old(self)@.remove(pid),
    {
        self.tracees.remove(&pid);
    }
}

} // verus!
