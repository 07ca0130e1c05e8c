//! The order in which a pipe raises its events.
//!
//! A pipe raises `Opened` once, when the handshake is done, then any number
//! of `SentMsg`, `RecvMsg`, `CanSend` and `CanRecv`, then `Closed` once, and
//! nothing after that. A pipe that fails before the handshake is done raises
//! `Closed` alone.

use vstd::prelude::*;
use crate::transport::context::PipeEvt;

verus! {

/// Where a pipe stands in its life.
#[derive(Debug, PartialEq, Eq, Clone, Copy, Structural)]
pub enum Phase {
    Initial,
    HandshakeTx,
    HandshakeRx,
    Active,
    Dead,
}

/// How far the events of a pipe have come.
#[derive(Debug, PartialEq, Eq, Clone, Copy, Structural)]
pub enum Progress {
    /// Nothing was raised yet.
    Fresh,
    /// `Opened` was raised, `Closed` was not.
    Open,
    /// `Closed` was raised.
    Closed,
}

/// Where the events stand after `evt`, or `None` where `evt` is out of
/// order.
pub open spec fn after_event(at: Progress, evt: PipeEvt) -> Option<Progress> {
    match (at, evt) {
        (Progress::Fresh, PipeEvt::Opened) => Some(Progress::Open),
        (Progress::Fresh, PipeEvt::Closed) => Some(Progress::Closed),
        (Progress::Open, PipeEvt::SentMsg) => Some(Progress::Open),
        (Progress::Open, PipeEvt::RecvMsg(_)) => Some(Progress::Open),
        (Progress::Open, PipeEvt::CanSend) => Some(Progress::Open),
        (Progress::Open, PipeEvt::CanRecv) => Some(Progress::Open),
        (Progress::Open, PipeEvt::Closed) => Some(Progress::Closed),
        _ => None,
    }
}

/// Where the events stand after all of `events`, or `None` where one of
/// them is out of order.
pub open spec fn after_events(at: Progress, events: Seq<PipeEvt>) -> Option<Progress>
    decreases events.len(),
{
    if events.len() == 0 {
        Some(at)
    } else {
        match after_event(at, events.first()) {
            Some(next) => after_events(next, events.drop_first()),
            None => None,
        }
    }
}

/// The progress that a pipe in the given phase can have made. A dead pipe
/// may have died silently at any point.
pub open spec fn fits(phase: Phase, at: Progress) -> bool {
    match phase {
        Phase::Initial | Phase::HandshakeTx | Phase::HandshakeRx => at == Progress::Fresh,
        Phase::Active => at == Progress::Open,
        Phase::Dead => true,
    }
}

/// A step from `before` to `after` that raises `events` keeps the order:
/// wherever the events stood, they are in order afterwards too, and stand
/// where a pipe in the phase `after` can stand.
pub open spec fn in_order(before: Phase, after: Phase, events: Seq<PipeEvt>) -> bool {
    forall|at: Progress| #[trigger]
        fits(before, at) ==> match after_events(at, events) {
            Some(next) => fits(after, next),
            None => false,
        }
}

/// The phases of a pipe are only ever left for later ones.
pub open spec fn rank(phase: Phase) -> int {
    match phase {
        Phase::Initial => 0,
        Phase::HandshakeTx => 1,
        Phase::HandshakeRx => 2,
        Phase::Active => 3,
        Phase::Dead => 4,
    }
}

/// Events in order, followed by events in order, are in order.
pub proof fn lemma_after_events_concat(at: Progress, first: Seq<PipeEvt>, second: Seq<PipeEvt>)
    ensures
        after_events(at, first + second) == match after_events(at, first) {
            Some(mid) => after_events(mid, second),
            None => None,
        },
    decreases first.len(),
{
    if first.len() == 0 {
        assert(first + second =~= second);
    } else {
        assert((first + second).first() == first.first());
        assert((first + second).drop_first() =~= first.drop_first() + second);
        if let Some(next) = after_event(at, first.first()) {
            lemma_after_events_concat(next, first.drop_first(), second);
        }
    }
}

/// All the events of steps `from..` joined.
pub open spec fn joined(steps: Seq<Seq<PipeEvt>>, from: int) -> Seq<PipeEvt>
    decreases steps.len() - from,
{
    if from < 0 || from >= steps.len() {
        Seq::empty()
    } else {
        steps[from] + joined(steps, from + 1)
    }
}

/// Over any run of a pipe, the events raised are in order: `Opened` comes
/// first and once, `Closed` comes last and once, and the events of message
/// exchange come only between them. `phases` are the phases that the run goes
/// through and `steps` the events that each of its steps raises.
pub proof fn lemma_run_in_order(phases: Seq<Phase>, steps: Seq<Seq<PipeEvt>>, from: int, at: Progress)
    requires
        phases.len() == steps.len() + 1,
        0 <= from <= steps.len(),
        forall|i: int| 0 <= i < steps.len() ==> in_order(phases[i], phases[i + 1], #[trigger] steps[i]),
        fits(phases[from], at),
    ensures
        after_events(at, joined(steps, from)) matches Some(end) && fits(phases.last(), end),
    decreases steps.len() - from,
{
    if from < steps.len() {
        assert(in_order(phases[from], phases[from + 1], steps[from]));
        assert(fits(phases[from], at));
        let mid = after_events(at, steps[from])->0;
        lemma_run_in_order(phases, steps, from + 1, mid);
        lemma_after_events_concat(at, steps[from], joined(steps, from + 1));
    }
}

/// A run that starts with a new pipe raises its events in order.
pub proof fn lemma_events_of_a_pipe_are_in_order(phases: Seq<Phase>, steps: Seq<Seq<PipeEvt>>)
    requires
        phases.len() == steps.len() + 1,
        phases[0] == Phase::Initial,
        forall|i: int| 0 <= i < steps.len() ==> in_order(phases[i], phases[i + 1], #[trigger] steps[i]),
    ensures
        after_events(Progress::Fresh, joined(steps, 0)) is Some,
{
    lemma_run_in_order(phases, steps, 0, Progress::Fresh);
}

} // verus!
