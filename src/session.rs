//! The decisions of the tracing loop: what to do with each wait
//! notification of the traced tree, and when tracing is over.
//!
//! The caller waits for a notification from any tracee, hands it to
//! [`Session::step`] as a [`WaitEvent`] with the current time, and carries
//! out the [`Action`] it gets back.

use vstd::prelude::*;
use crate::tracker::{flipped, Phase, Tracee, Tracker};

verus! {

/// Linux's number for `SIGTRAP`.
pub open spec fn sigtrap_number() -> i32 {
    5
}

/// Relies on `libc::SIGTRAP`: Linux numbers `SIGTRAP` 5.
#[verifier::external_body]
fn sigtrap() -> (r: i32)
    ensures
        r == sigtrap_number(),
{
    libc::SIGTRAP
}

/// How long after a tracee is first seen a `SIGTRAP` stop is taken for a
/// start-up artifact, in nanoseconds: one second.
pub const STARTUP_GRACE_NANOS: u64 = 1_000_000_000;

/// A wait notification, by kind, with the process it concerns.
#[derive(PartialEq, Eq, Structural, Clone, Copy, Debug)]
pub enum WaitEvent {
    /// The process exited.
    Exited { pid: i32 },
    /// The process was killed by a signal.
    Signaled { pid: i32 },
    /// The process stopped on a signal.
    Stopped { pid: i32, signal: i32 },
    /// A tracing extension event, such as the creation of a child.
    PtraceEvent { pid: i32 },
    /// A syscall stop, at the entry or at the exit of a call.
    SyscallStop { pid: i32 },
    /// Any other notification that names a process.
    Other { pid: i32 },
}

/// What the caller does next.
#[derive(PartialEq, Eq, Structural, Clone, Copy, Debug)]
pub enum Action {
    /// A tracee seen for the first time: enable the tracing options on it
    /// (follow fork, vfork and clone, kill on exit of the tracer, mark
    /// syscall stops) and resume it to its next syscall stop.
    Adopt { pid: i32 },
    /// Resume the tracee to its next syscall stop.
    Resume { pid: i32 },
    /// The tracee is at the entry of a call: inspect the call, block it if
    /// the policy says so, then resume the tracee to its next syscall stop.
    Inspect { pid: i32 },
    /// Resume the tracee to its next syscall stop, delivering the signal
    /// that stopped it.
    Deliver { pid: i32, signal: i32 },
    /// Nothing to resume: wait for the next notification.
    Wait,
    /// The root tracee ended: tracing is over.
    Finish,
}

pub open spec fn event_pid(ev: WaitEvent) -> i32 {
    match ev {
        WaitEvent::Exited { pid } => pid,
        WaitEvent::Signaled { pid } => pid,
        WaitEvent::Stopped { pid, .. } => pid,
        WaitEvent::PtraceEvent { pid } => pid,
        WaitEvent::SyscallStop { pid } => pid,
        WaitEvent::Other { pid } => pid,
    }
}

/// The process ended, by exit or by a signal.
pub open spec fn is_termination(ev: WaitEvent) -> bool {
    ev is Exited || ev is Signaled
}

/// `now` falls within the start-up grace window of a tracee born at `born`.
pub open spec fn within_grace(born: u64, now: u64) -> bool {
    now < born + STARTUP_GRACE_NANOS
}

/// One step of the loop: the tracees after the notification `ev` at time
/// `now`, and the action to take.
///
/// * Any notification from a process not yet known, whatever its kind,
///   adopts it.
/// * The end of a known tracee forgets it; tracing is over when it is the
///   root.
/// * A syscall stop flips the tracee's phase; the entry of a call is
///   inspected.
/// * A `SIGTRAP` stop within the start-up grace window is swallowed; any
///   other signal stop delivers its signal.
/// * Anything else resumes the tracee.
pub open spec fn step_spec(root: i32, m: Map<i32, Tracee>, ev: WaitEvent, now: u64) -> (
    Map<i32, Tracee>,
    Action,
) {
    let pid = event_pid(ev);
    if !m.contains_key(pid) {
        (m.insert(pid, Tracee { phase: Phase::AwaitingEntry, born_at: now }), Action::Adopt { pid })
    } else if is_termination(ev) {
        (m.remove(pid), if pid == root { Action::Finish } else { Action::Wait })
    } else {
        let t = m[pid];
        match ev {
            WaitEvent::SyscallStop { .. } => (
                m.insert(pid, Tracee { phase: flipped(t.phase), born_at: t.born_at }),
                if t.phase == Phase::AwaitingEntry {
                    Action::Inspect { pid }
                } else {
                    Action::Resume { pid }
                },
            ),
            WaitEvent::Stopped { signal, .. } => (
                m,
                if signal == sigtrap_number() && within_grace(t.born_at, now) {
                    Action::Resume { pid }
                } else {
                    Action::Deliver { pid, signal }
                },
            ),
            _ => (m, Action::Resume { pid }),
        }
    }
}

/// One tracing session: the root tracee and the live tracees of its tree.
#[derive(Debug)]
pub struct Session {
    root: i32,
    tracker: Tracker,
}

impl Session {
    pub closed spec fn root_pid(&self) -> i32 {
        self.root
    }

    pub closed spec fn tracees(&self) -> Map<i32, Tracee> {
        self.tracker@
    }

    /// A session for the tree rooted at `root`, with no tracee seen yet.
    pub fn new(root: i32) -> (r: Self)
        ensures
            r.root_pid() == root,
            r.tracees() == Map::<i32, Tracee>::empty(),
    {
        Session { root, tracker: Tracker::new() }
    }

    pub fn root(&self) -> (r: i32)
        ensures
            r == self.root_pid(),
    {
        self.root
    }

    /// The state kept for `pid`, if it is a live tracee.
    pub fn tracee(&self, pid: i32) -> (r: Option<Tracee>)
        ensures
            r == (if self.tracees().contains_key(pid) {
                Some(self.tracees()[pid])
            } else {
                None::<Tracee>
            }),
    {
        self.tracker.get(pid)
    }

    /// Takes in the notification `ev`, received at `now` (nanoseconds of a
    /// monotonic clock), and says what to do with it.
    pub fn step(&mut self, ev: WaitEvent, now: u64) -> (r: Action)
        ensures
            final(self).root_pid() == old(self).root_pid(),
            (final(self).tracees(), r) == step_spec(old(self).root_pid(), old(self).tracees(), ev, now),
    {
        let pid = match ev {
            WaitEvent::Exited { pid } => pid,
            WaitEvent::Signaled { pid } => pid,
            WaitEvent::Stopped { pid, .. } => pid,
            WaitEvent::PtraceEvent { pid } => pid,
            WaitEvent::SyscallStop { pid } => pid,
            WaitEvent::Other { pid } => pid,
        };
        if self.tracker.is_new(pid) {
            self.tracker.register(pid, now);
            return Action::Adopt { pid };
        }
        match ev {
            WaitEvent::Exited { .. } | WaitEvent::Signaled { .. } => {
                self.tracker.remove(pid);
                return if pid == self.root {
                    Action::Finish
                } else {
                    Action::Wait
                };
            },
            _ => {},
        }
        match ev {
            WaitEvent::SyscallStop { .. } => {
                match self.tracker.flip_and_get_phase(pid) {
                    Phase::AwaitingEntry => Action::Inspect { pid },
                    Phase::AwaitingExit => Action::Resume { pid },
                }
            },
            WaitEvent::Stopped { signal, .. } => {
                let born = self.tracker.get(pid).unwrap().born_at;
                let recent = now < born || now - born < STARTUP_GRACE_NANOS;
                if signal == sigtrap() && recent {
                    Action::Resume { pid }
                } else {
                    Action::Deliver { pid, signal }
                }
            },
            _ => Action::Resume { pid },
        }
    }
}

/// Every process of the tree comes under tracing: the first notification of
/// a process not yet known, whatever its kind, adopts it, with the tracing
/// options that carry tracing on to its own children, and from then on each
/// entry of a call it makes is inspected, its exit is not, and the two
/// alternate.
pub proof fn lemma_every_process_traced(root: i32, m: Map<i32, Tracee>, ev: WaitEvent, now: u64, later: u64)
    requires
        !m.contains_key(event_pid(ev)),
    ensures
        ({
            let pid = event_pid(ev);
            let (m1, a1) = step_spec(root, m, ev, now);
            let (m2, a2) = step_spec(root, m1, WaitEvent::SyscallStop { pid }, later);
            let (m3, a3) = step_spec(root, m2, WaitEvent::SyscallStop { pid }, later);
            &&& a1 == Action::Adopt { pid }
            &&& m1.contains_key(pid) && m1[pid].phase == Phase::AwaitingEntry
            &&& a2 == Action::Inspect { pid }
            &&& a3 == Action::Resume { pid }
            &&& m3.contains_key(pid) && m3[pid].phase == Phase::AwaitingEntry
        }),
{
}

/// A syscall stop of a known tracee that awaits the entry of a call is
/// inspected, whatever else the tree holds.
pub proof fn lemma_entry_inspected(root: i32, m: Map<i32, Tracee>, pid: i32, now: u64)
    requires
        m.contains_key(pid),
        m[pid].phase == Phase::AwaitingEntry,
    ensures
        step_spec(root, m, WaitEvent::SyscallStop { pid }, now).1 == (Action::Inspect { pid }),
{
}

/// Tracing ends exactly when the root, once it is known, ends: on its exit
/// or its death by a signal, and on no notification of any other process,
/// live or ended.
pub proof fn lemma_finish_exactly_at_root_end(root: i32, m: Map<i32, Tracee>, ev: WaitEvent, now: u64)
    ensures
        (step_spec(root, m, ev, now).1 == Action::Finish) <==> (is_termination(ev) && event_pid(ev)
            == root && m.contains_key(root)),
{
}

/// The `SIGTRAP` stop that follows a tracee's creation is neither taken for
/// the entry of a call nor handed to the tracee: within the grace window it
/// resumes the tracee and leaves its phase as it was, so that the next
/// syscall stop is still the entry of a call. The stop at which a tracee is
/// first seen adopts it awaiting an entry.
pub proof fn lemma_startup_trap_suppressed(
    root: i32,
    m: Map<i32, Tracee>,
    pid: i32,
    now: u64,
    later: u64,
)
    requires
        m.contains_key(pid),
        m[pid].phase == Phase::AwaitingEntry,
        within_grace(m[pid].born_at, now),
    ensures
        ({
            let (m1, a1) = step_spec(root, m, WaitEvent::Stopped { pid, signal: sigtrap_number() }, now);
            &&& a1 == Action::Resume { pid }
            &&& m1 == m
            &&& step_spec(root, m1, WaitEvent::SyscallStop { pid }, later).1 == (Action::Inspect { pid })
        }),
{
}

} // verus!
