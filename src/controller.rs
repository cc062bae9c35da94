use vstd::prelude::*;

use crate::aggregate::{list_sessions, spec_selected, spec_total, total_seconds};
use crate::range::DateRange;
use crate::session::{lemma_end_keeps_wf, spec_discard, spec_end, spec_start, ProjectLog, SessionError, SessionRecord};
use crate::time::Timestamp;

verus! {

/// What one invocation asks of a project.
#[derive(Clone, Copy, Debug, PartialEq, Eq, Structural)]
pub enum Operation {
    /// Start a session if none is open, else end the open one.
    Toggle,
    /// Total the closed sessions within the range.
    Hours,
    /// Report when the open session started.
    Start,
    /// List the closed sessions within the range.
    Times,
    /// Drop the open session without recording it.
    Delete,
}

/// What an operation did or found.
#[derive(Clone, Debug)]
pub enum Outcome {
    /// A session was opened at this instant.
    Started(Timestamp),
    /// The open session was closed into this record.
    Ended(SessionRecord),
    /// Seconds worked over the selected sessions.
    Hours(i128),
    /// The open session started at this instant.
    StartedAt(Timestamp),
    /// The selected sessions, in log order.
    Times(Vec<SessionRecord>),
    /// The open session, started at this instant, was dropped.
    Discarded(Timestamp),
}

/// Carries out `op` on a project's state at the instant `now`. Only `Toggle`
/// and `Delete` change the state; reports look at closed sessions only.
pub fn run_operation(log: &mut ProjectLog, op: Operation, range: &Option<DateRange>, now: Timestamp) -> (r: Result<
    Outcome,
    SessionError,
>)
    requires
        old(log)@.wf(),
        now.wf(),
        old(log)@.open matches Some(s) ==> s.secs <= now.secs,
    ensures
        final(log)@.wf(),
        op == Operation::Toggle && old(log)@.open is None ==> (r matches Ok(Outcome::Started(t))
            && t == now && final(log)@ == spec_start(old(log)@, now).1),
        op == Operation::Toggle && old(log)@.open is Some ==> (r matches Ok(Outcome::Ended(rec))
            && (Ok::<SessionRecord, SessionError>(rec), final(log)@) == spec_end(old(log)@, now)),
        op == Operation::Hours ==> (r matches Ok(Outcome::Hours(h)) && h == spec_total(
            old(log)@.records,
            *range,
        ) && final(log)@ == old(log)@),
        op == Operation::Start ==> final(log)@ == old(log)@ && match old(log)@.open {
            Some(s) => r matches Ok(Outcome::StartedAt(t)) && t == s,
            None => r == Err::<Outcome, SessionError>(SessionError::NoOpenSession),
        },
        op == Operation::Times ==> (r matches Ok(Outcome::Times(v)) && v@ == spec_selected(
            old(log)@.records,
            *range,
        ) && final(log)@ == old(log)@),
        op == Operation::Delete ==> final(log)@ == spec_discard(old(log)@).1 && match spec_discard(
            old(log)@,
        ).0 {
            Ok(s) => r matches Ok(Outcome::Discarded(t)) && t == s,
            Err(e) => r == Err::<Outcome, SessionError>(e),
        },
{
    match op {
        Operation::Toggle => {
            if log.has_open_session() {
                proof {
                    lemma_end_keeps_wf(log@, now);
                }
                match log.end_session(now) {
                    Ok(rec) => Ok(Outcome::Ended(rec)),
                    Err(e) => Err(e),
                }
            } else {
                match log.start_session(now) {
                    Ok(()) => Ok(Outcome::Started(now)),
                    Err(e) => Err(e),
                }
            }
        },
        Operation::Hours => Ok(Outcome::Hours(total_seconds(&log.records, range))),
        Operation::Start => match log.open {
            Some(s) => Ok(Outcome::StartedAt(s)),
            None => Err(SessionError::NoOpenSession),
        },
        Operation::Times => Ok(Outcome::Times(list_sessions(&log.records, range))),
        Operation::Delete => match log.discard_open_session() {
            Ok(s) => Ok(Outcome::Discarded(s)),
            Err(e) => Err(e),
        },
    }
}

} // verus!
