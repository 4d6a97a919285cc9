//! The timed answer collector and the continue gate, as step functions over
//! poll events: the blocking poll loops themselves live outside the library,
//! hand each observed event in, and act on the decision handed back.

use vstd::prelude::*;
use crate::text::{spec_to_upper, to_upper};

verus! {

/// How long one poll of the input surface waits before reporting that no key
/// arrived, in milliseconds.
pub const POLL_INTERVAL_MS: u64 = 100;

/// What one poll of the input surface observed: a character key, or nothing
/// within the poll interval (a non-character event counts as nothing).
#[derive(Clone, Copy, PartialEq, Eq, Structural, Debug)]
pub enum PollEvent {
    Key(char),
    NoKey,
}

/// The outcome of waiting for one answer: the first character key observed,
/// normalized to uppercase, or a timeout once the deadline passed.
#[derive(Clone, Copy, PartialEq, Eq, Structural, Debug)]
pub enum CollectResult {
    Answered(char),
    TimedOut,
}

/// The collector's progress: how much of the deadline has elapsed.
#[derive(Clone, Copy, PartialEq, Eq, Structural, Debug)]
pub struct CollectorState {
    pub elapsed_ms: u64,
    pub deadline_ms: u64,
}

impl CollectorState {
    /// The elapsed time never passes the deadline.
    pub open spec fn wf(self) -> bool {
        self.elapsed_ms <= self.deadline_ms
    }
}

/// What the collector decides after one poll: keep waiting, or finish.
#[derive(Clone, Copy, PartialEq, Eq, Structural, Debug)]
pub enum CollectStep {
    Pending(CollectorState),
    Done(CollectResult),
}

/// A collector that will wait up to `deadline_ms` for an answer.
pub fn collector_start(deadline_ms: u64) -> (r: CollectorState)
    ensures
        r.elapsed_ms == 0,
        r.deadline_ms == deadline_ms,
        r.wf(),
{
    CollectorState { elapsed_ms: 0, deadline_ms }
}

/// Advances the collector by one observed poll: the first character key ends
/// the wait at once with the uppercased key; with no key, the poll interval
/// is added to the elapsed time (capped at the deadline), and reaching the
/// deadline ends the wait with a timeout.
pub fn collector_step(st: CollectorState, ev: PollEvent) -> (r: CollectStep)
    requires
        st.wf(),
    ensures
        st.elapsed_ms >= st.deadline_ms ==> r == CollectStep::Done(CollectResult::TimedOut),
        (ev matches PollEvent::Key(c) ==> (st.elapsed_ms < st.deadline_ms ==> r
            == CollectStep::Done(CollectResult::Answered(spec_to_upper(c))))),
        st.elapsed_ms < st.deadline_ms && ev is NoKey ==> r == CollectStep::Pending(
            CollectorState {
                elapsed_ms: (
                if st.deadline_ms - st.elapsed_ms <= POLL_INTERVAL_MS {
                    st.deadline_ms
                } else {
                    (st.elapsed_ms + POLL_INTERVAL_MS) as u64
                }),
                deadline_ms: st.deadline_ms,
            },
        ),
        (r matches CollectStep::Pending(next) ==> next.wf() && next.elapsed_ms > st.elapsed_ms),
{
    if st.elapsed_ms >= st.deadline_ms {
        return CollectStep::Done(CollectResult::TimedOut);
    }
    match ev {
        PollEvent::Key(c) => CollectStep::Done(CollectResult::Answered(to_upper(c))),
        PollEvent::NoKey => {
            let remaining = st.deadline_ms - st.elapsed_ms;
            let elapsed_ms = if remaining <= POLL_INTERVAL_MS {
                st.deadline_ms
            } else {
                st.elapsed_ms + POLL_INTERVAL_MS
            };
            CollectStep::Pending(CollectorState { elapsed_ms, deadline_ms: st.deadline_ms })
        },
    }
}

/// Whether poll events hold a character key anywhere before position `j`.
pub open spec fn no_key_before(evs: Seq<PollEvent>, j: int) -> bool {
    forall|k: int| 0 <= k < j ==> evs[k] is NoKey
}

/// How many polls a deadline admits before the wait times out: one per poll
/// interval, with a last shorter slice still counting as one poll.
pub open spec fn spec_deadline_polls(deadline_ms: int) -> int {
    (deadline_ms + POLL_INTERVAL_MS - 1) / (POLL_INTERVAL_MS as int)
}

/// Runs the collector over a whole sequence of poll events, one event per
/// poll. Returns the outcome and how many polls were consumed: the first
/// character key that arrives within the deadline answers at once and no
/// later event is looked at; if the deadline passes, or the events run out,
/// with no key seen, the outcome is a timeout.
pub fn collect_from_events(events: &Vec<PollEvent>, deadline_ms: u64) -> (r: (
    CollectResult,
    usize,
))
    ensures
        forall|j: int|
            0 <= j < events@.len() ==> (#[trigger] events@[j] matches PollEvent::Key(c) ==> (
            no_key_before(events@, j) && j * POLL_INTERVAL_MS < deadline_ms ==> r.0
                == CollectResult::Answered(spec_to_upper(c)) && r.1 == j + 1)),
        (r.0 is TimedOut <==> !(exists|j: int|
            0 <= j < events@.len() && (#[trigger] events@[j]) is Key && no_key_before(events@, j)
                && j * POLL_INTERVAL_MS < deadline_ms)),
        r.0 is TimedOut ==> r.1 == (if spec_deadline_polls(deadline_ms as int) <= events@.len() {
            spec_deadline_polls(deadline_ms as int)
        } else {
            events@.len() as int
        }),
{
    let mut st = collector_start(deadline_ms);
    let mut i: usize = 0;
    loop
        invariant
            st.wf(),
            st.deadline_ms == deadline_ms,
            i <= events@.len(),
            no_key_before(events@, i as int),
            st.elapsed_ms == if i * POLL_INTERVAL_MS <= deadline_ms {
                (i * POLL_INTERVAL_MS) as u64
            } else {
                deadline_ms
            },
            i * POLL_INTERVAL_MS >= deadline_ms ==> st.elapsed_ms == deadline_ms,
            i > 0 ==> (i - 1) * POLL_INTERVAL_MS < deadline_ms,
        decreases events@.len() - i,
    {
        if i >= events.len() {
            proof {
                if i > 0 {
                    assert((i - 1) * POLL_INTERVAL_MS < deadline_ms);
                    assert(i <= spec_deadline_polls(deadline_ms as int));
                }
            }
            return (CollectResult::TimedOut, i);
        }
        let ev = events[i];
        let step = collector_step(st, ev);
        match step {
            CollectStep::Done(res) => {
                match res {
                    CollectResult::Answered(c) => {
                        return (CollectResult::Answered(c), i + 1);
                    },
                    CollectResult::TimedOut => {
                        proof {
                            assert(i * POLL_INTERVAL_MS >= deadline_ms);
                            if i > 0 {
                                assert(i <= spec_deadline_polls(deadline_ms as int));
                                assert(spec_deadline_polls(deadline_ms as int) <= i);
                            }
                        }
                        return (CollectResult::TimedOut, i);
                    },
                }
            },
            CollectStep::Pending(next) => {
                st = next;
                i = i + 1;
            },
        }
    }
}

/// What the continue gate decides on one poll: move on when the key is an
/// uppercase or lowercase R, remind the user which key moves on when some
/// other character key arrived, or keep waiting while no key arrives at all.
/// This wait is user-paced and never times out.
#[derive(Clone, Copy, PartialEq, Eq, Structural, Debug)]
pub enum GateStep {
    Proceed,
    Remind,
    KeepWaiting,
}

/// The continue gate's decision for one observed poll event.
pub fn gate_step(ev: PollEvent) -> (r: GateStep)
    ensures
        (ev matches PollEvent::Key(c) && (c == 'r' || c == 'R') <==> r == GateStep::Proceed),
        (ev matches PollEvent::Key(c) && !(c == 'r' || c == 'R') <==> r == GateStep::Remind),
        (ev is NoKey <==> r == GateStep::KeepWaiting),
{
    match ev {
        PollEvent::Key(c) => {
            if c == 'r' || c == 'R' {
                GateStep::Proceed
            } else {
                GateStep::Remind
            }
        },
        PollEvent::NoKey => GateStep::KeepWaiting,
    }
}

} // verus!
