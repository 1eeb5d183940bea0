//! The watch loop of `tray run`: while the command runs, a signal the client
//! receives is passed on to it once, and if it is still running two seconds
//! later it is killed.
//!
//! Each round of the loop hands in the signal seen so far (0 for none) and the
//! time in milliseconds on a monotonic clock; the round's answer says what to
//! send to the command.
use vstd::prelude::*;

verus! {

/// How long the command gets to exit after a forwarded signal, in milliseconds.
pub const KILL_GRACE_MS: u64 = 2000;

/// The state of the watch loop.
#[derive(Debug)]
pub struct Forwarder {
    pub forwarded: bool,
    pub kill_deadline: Option<u64>,
}

/// What one round sends to the command: the signal to forward, if any, and
/// whether to kill it.
#[derive(Debug, Clone, Copy, PartialEq, Eq)]
pub struct Actions {
    pub forward: Option<i32>,
    pub kill: bool,
}

/// The state of the loop as a value.
pub struct ForwarderView {
    pub forwarded: bool,
    pub kill_deadline: Option<u64>,
}

impl View for Forwarder {
    type V = ForwarderView;

    open spec fn view(&self) -> ForwarderView {
        ForwarderView { forwarded: self.forwarded, kill_deadline: self.kill_deadline }
    }
}

/// One round: a seen signal is forwarded if none was before, which sets the
/// kill deadline; a deadline that has come kills the command and is cleared.
pub open spec fn step_of(s: ForwarderView, sig: i32, now: u64) -> (ForwarderView, Actions) {
    let fwd = sig != 0 && !s.forwarded;
    let s1 = if fwd {
        ForwarderView { forwarded: true, kill_deadline: Some((now + KILL_GRACE_MS) as u64) }
    } else {
        s
    };
    let kill = match s1.kill_deadline {
        Some(d) => now >= d,
        None => false,
    };
    let s2 = if kill {
        ForwarderView { kill_deadline: None, ..s1 }
    } else {
        s1
    };
    (s2, Actions { forward: if fwd { Some(sig) } else { None }, kill })
}

impl Forwarder {
    /// The state before the command starts: nothing forwarded, no deadline.
    pub fn new() -> (f: Self)
        ensures
            f@ == start_state(),
    {
        Forwarder { forwarded: false, kill_deadline: None }
    }

    /// One round of the loop, with `sig` the signal seen so far (0 for none) and
    /// `now` the time in milliseconds.
    pub fn step(&mut self, sig: i32, now: u64) -> (a: Actions)
        requires
            now <= u64::MAX - KILL_GRACE_MS,
        ensures
            (final(self)@, a) == step_of(old(self)@, sig, now),
            a.forward is Some ==> a.forward == Some(sig),
            (a.forward is Some) == (sig != 0 && !old(self).forwarded),
    {
        proof {
            lemma_forwards_the_seen_signal(old(self)@, sig, now);
        }
        let fwd = sig != 0 && !self.forwarded;
        if fwd {
            self.forwarded = true;
            self.kill_deadline = Some(now + KILL_GRACE_MS);
        }
        let kill = match self.kill_deadline {
            Some(d) => now >= d,
            None => false,
        };
        if kill {
            self.kill_deadline = None;
        }
        Actions { forward: if fwd { Some(sig) } else { None }, kill }
    }
}

/// A round forwards exactly the signal it was handed, and does so only when a
/// signal was seen and none was forwarded before; afterwards one counts as
/// forwarded.
pub proof fn lemma_forwards_the_seen_signal(s: ForwarderView, sig: i32, now: u64)
    ensures
        step_of(s, sig, now).1.forward is Some ==> step_of(s, sig, now).1.forward == Some(sig),
        (step_of(s, sig, now).1.forward is Some) == (sig != 0 && !s.forwarded),
        step_of(s, sig, now).0.forwarded == (s.forwarded || sig != 0),
{
}

/// The states and actions of a run of rounds, one per event `(signal, time)`.
pub open spec fn run_of(s: ForwarderView, events: Seq<(i32, u64)>) -> (ForwarderView, Seq<Actions>)
    decreases events.len(),
{
    if events.len() == 0 {
        (s, Seq::empty())
    } else {
        let (s1, acts) = run_of(s, events.drop_last());
        let (s2, a) = step_of(s1, events.last().0, events.last().1);
        (s2, acts.push(a))
    }
}

/// How many rounds of `acts` forward a signal.
pub open spec fn forwards(acts: Seq<Actions>) -> nat
    decreases acts.len(),
{
    if acts.len() == 0 {
        0
    } else {
        forwards(acts.drop_last()) + if acts.last().forward is Some { 1nat } else { 0nat }
    }
}

/// How many rounds of `acts` kill the command.
pub open spec fn kills(acts: Seq<Actions>) -> nat
    decreases acts.len(),
{
    if acts.len() == 0 {
        0
    } else {
        kills(acts.drop_last()) + if acts.last().kill { 1nat } else { 0nat }
    }
}

/// From the start, over any run of rounds: a signal is forwarded at most once,
/// the command is killed at most once and never before a signal was forwarded,
/// and once a kill has happened the deadline stays cleared.
pub proof fn lemma_forward_and_kill_at_most_once(events: Seq<(i32, u64)>)
    ensures
        ({
            let (s, acts) = run_of(start_state(), events);
            &&& forwards(acts) <= 1
            &&& kills(acts) <= forwards(acts)
            &&& (forwards(acts) == 0) == !s.forwarded
            &&& s.kill_deadline is Some ==> kills(acts) == 0
            &&& kills(acts) == 1 ==> s.kill_deadline is None
            &&& !s.forwarded ==> s.kill_deadline is None
        }),
    decreases events.len(),
{
    if events.len() > 0 {
        let start = start_state();
        lemma_forward_and_kill_at_most_once(events.drop_last());
        let (s1, acts) = run_of(start, events.drop_last());
        let (s2, a) = step_of(s1, events.last().0, events.last().1);
        assert(acts.push(a).drop_last() =~= acts);
        assert(run_of(start, events) == (s2, acts.push(a)));
        assert(forwards(acts.push(a)) == forwards(acts) + if a.forward is Some { 1nat } else { 0nat });
        assert(kills(acts.push(a)) == kills(acts) + if a.kill { 1nat } else { 0nat });
    }
}

/// The state before the command starts.
pub open spec fn start_state() -> ForwarderView {
    ForwarderView { forwarded: false, kill_deadline: None }
}

/// Over any run of rounds from the start (with times that leave room for the
/// grace period), a round that kills the command comes after a round that
/// forwarded a signal, at least two seconds later; and a pending deadline is two
/// seconds after such a round.
pub proof fn lemma_kill_comes_after_grace(events: Seq<(i32, u64)>)
    requires
        forall|k: int| 0 <= k < events.len() ==> #[trigger] events[k].1 <= u64::MAX - KILL_GRACE_MS,
    ensures
        ({
            let (s, acts) = run_of(start_state(), events);
            &&& acts.len() == events.len()
            &&& forall|j: int| 0 <= j < acts.len() && #[trigger] acts[j].kill ==> exists|k: int|
                0 <= k < j && (#[trigger] acts[k]).forward is Some && events[j].1 >= events[k].1 + KILL_GRACE_MS
            &&& s.kill_deadline is Some ==> exists|k: int|
                0 <= k < acts.len() && (#[trigger] acts[k]).forward is Some && s.kill_deadline == Some((events[k].1 + KILL_GRACE_MS) as u64)
        }),
    decreases events.len(),
{
    if events.len() > 0 {
        let prev = events.drop_last();
        lemma_kill_comes_after_grace(prev);
        let (s1, acts) = run_of(start_state(), prev);
        let e = events.last();
        let (s2, a) = step_of(s1, e.0, e.1);
        let acts2 = acts.push(a);
        assert(run_of(start_state(), events) == (s2, acts2));
        let n = prev.len() as int;
        assert forall|j: int| 0 <= j < acts2.len() && #[trigger] acts2[j].kill implies exists|k: int|
            0 <= k < j && (#[trigger] acts2[k]).forward is Some && events[j].1 >= events[k].1 + KILL_GRACE_MS by {
            if j < n {
                assert(acts2[j] == acts[j]);
                assert(events[j] == prev[j]);
                let k = choose|k: int| 0 <= k < j && (#[trigger] acts[k]).forward is Some && prev[j].1 >= prev[k].1 + KILL_GRACE_MS;
                assert(acts2[k] == acts[k]);
                assert(events[k] == prev[k]);
            } else {
                assert(j == n);
                let fwd = e.0 != 0 && !s1.forwarded;
                assert(!fwd);
                let k = choose|k: int| 0 <= k < acts.len() && (#[trigger] acts[k]).forward is Some && s1.kill_deadline == Some((prev[k].1 + KILL_GRACE_MS) as u64);
                assert(acts2[k] == acts[k]);
                assert(events[k] == prev[k]);
            }
        }
        if s2.kill_deadline is Some {
            let fwd = e.0 != 0 && !s1.forwarded;
            if fwd {
                assert(acts2[n].forward is Some);
            } else {
                let k = choose|k: int| 0 <= k < acts.len() && (#[trigger] acts[k]).forward is Some && s1.kill_deadline == Some((prev[k].1 + KILL_GRACE_MS) as u64);
                assert(acts2[k] == acts[k]);
                assert(events[k] == prev[k]);
            }
        }
    }
}

} // verus!
