use vstd::prelude::*;

use crate::time::Timestamp;

verus! {

/// One closed interval of work.
#[derive(Clone, Copy, Debug, PartialEq, Eq, Structural)]
pub struct SessionRecord {
    pub start: Timestamp,
    pub end: Timestamp,
}

impl SessionRecord {
    pub open spec fn wf(self) -> bool {
        self.start.wf() && self.end.wf() && self.start.secs <= self.end.secs
    }

    /// Length of the session in seconds.
    pub open spec fn duration(self) -> int {
        self.end.secs - self.start.secs
    }

    /// Length of the session in whole seconds.
    pub fn length_secs(&self) -> (r: i64)
        requires
            self.wf(),
        ensures
            r == self.duration(),
    {
        self.end.secs - self.start.secs
    }
}

/// Misuse of the session state machine.
#[derive(Clone, Copy, Debug, PartialEq, Eq, Structural)]
pub enum SessionError {
    /// A session is already open for the project.
    AlreadyOpen,
    /// No session is open for the project.
    NoOpenSession,
}

/// What a project's store holds: its closed sessions in order of closing, and
/// the start of the open session, if one is open.
pub struct ProjectState {
    pub records: Seq<SessionRecord>,
    pub open: Option<Timestamp>,
}

/// A project's closed sessions and its open session, if any.
#[derive(Clone, Debug)]
pub struct ProjectLog {
    pub records: Vec<SessionRecord>,
    pub open: Option<Timestamp>,
}

impl View for ProjectLog {
    type V = ProjectState;

    open spec fn view(&self) -> ProjectState {
        ProjectState { records: self.records@, open: self.open }
    }
}

impl ProjectState {
    pub open spec fn wf(self) -> bool {
        &&& forall|i: int| 0 <= i < self.records.len() ==> (#[trigger] self.records[i]).wf()
        &&& self.open matches Some(t) ==> t.wf()
    }
}

/// Opening a session at `now`: refused while one is open.
pub open spec fn spec_start(st: ProjectState, now: Timestamp) -> (Result<(), SessionError>, ProjectState) {
    if st.open is Some {
        (Err(SessionError::AlreadyOpen), st)
    } else {
        (Ok(()), ProjectState { records: st.records, open: Some(now) })
    }
}

/// Closing the open session at `now`: the interval from its start to `now`
/// is appended to the records.
pub open spec fn spec_end(st: ProjectState, now: Timestamp) -> (Result<SessionRecord, SessionError>, ProjectState) {
    match st.open {
        None => (Err(SessionError::NoOpenSession), st),
        Some(s) => {
            let rec = SessionRecord { start: s, end: now };
            (Ok(rec), ProjectState { records: st.records.push(rec), open: None })
        },
    }
}

/// Dropping the open session without a record.
pub open spec fn spec_discard(st: ProjectState) -> (Result<Timestamp, SessionError>, ProjectState) {
    match st.open {
        None => (Err(SessionError::NoOpenSession), st),
        Some(s) => (Ok(s), ProjectState { records: st.records, open: None }),
    }
}

impl ProjectLog {
    /// A project with no history.
    pub fn new() -> (r: ProjectLog)
        ensures
            r@.records.len() == 0,
            r@.open is None,
    {
        ProjectLog { records: Vec::new(), open: None }
    }

    pub fn has_open_session(&self) -> (r: bool)
        ensures
            r == self@.open is Some,
    {
        self.open.is_some()
    }

    /// Opens a session at `now`; fails with `AlreadyOpen` while one is open.
    pub fn start_session(&mut self, now: Timestamp) -> (r: Result<(), SessionError>)
        ensures
            (r, final(self)@) == spec_start(old(self)@, now),
    {
        if self.open.is_some() {
            Err(SessionError::AlreadyOpen)
        } else {
            self.open = Some(now);
            Ok(())
        }
    }

    /// Closes the open session at `now` and records it; fails with
    /// `NoOpenSession` when none is open.
    pub fn end_session(&mut self, now: Timestamp) -> (r: Result<SessionRecord, SessionError>)
        ensures
            (r, final(self)@) == spec_end(old(self)@, now),
    {
        match self.open {
            None => Err(SessionError::NoOpenSession),
            Some(s) => {
                let rec = SessionRecord { start: s, end: now };
                self.records.push(rec);
                self.open = None;
                Ok(rec)
            },
        }
    }

    /// Drops the open session without recording it and returns its start;
    /// fails with `NoOpenSession` when none is open.
    pub fn discard_open_session(&mut self) -> (r: Result<Timestamp, SessionError>)
        ensures
            (r, final(self)@) == spec_discard(old(self)@),
    {
        match self.open {
            None => Err(SessionError::NoOpenSession),
            Some(s) => {
                self.open = None;
                Ok(s)
            },
        }
    }
}

/// Closing at `now` keeps the records well formed when the open session
/// started no later than `now`.
pub proof fn lemma_end_keeps_wf(st: ProjectState, now: Timestamp)
    requires
        st.wf(),
        now.wf(),
        st.open matches Some(s) ==> s.secs <= now.secs,
    ensures
        spec_end(st, now).1.wf(),
{
    let st2 = spec_end(st, now).1;
    if let Some(s) = st.open {
        assert forall|i: int| 0 <= i < st2.records.len() implies (#[trigger] st2.records[i]).wf() by {
            if i < st.records.len() {
                assert(st2.records[i] == st.records[i]);
            }
        }
    }
}

/// Discarding twice in a row: the first call drops the open session, the
/// second finds none.
pub proof fn lemma_discard_twice(st: ProjectState)
    requires
        st.open is Some,
    ensures
        spec_discard(st).0 == Ok::<Timestamp, SessionError>(st.open->Some_0),
        spec_discard(spec_discard(st).1).0 == Err::<Timestamp, SessionError>(
            SessionError::NoOpenSession,
        ),
        spec_discard(spec_discard(st).1).1 == spec_discard(st).1,
{
}

/// Starting at `t0` and then ending at `t1` records exactly the interval
/// `[t0, t1]`: its length is the time between the two calls.
pub proof fn lemma_start_then_end(st: ProjectState, t0: Timestamp, t1: Timestamp)
    requires
        st.open is None,
    ensures
        spec_start(st, t0).0 is Ok,
        spec_end(spec_start(st, t0).1, t1).0 == Ok::<SessionRecord, SessionError>(
            SessionRecord { start: t0, end: t1 },
        ),
        (SessionRecord { start: t0, end: t1 }).duration() == t1.secs - t0.secs,
        spec_end(spec_start(st, t0).1, t1).1.records == st.records.push(
            SessionRecord { start: t0, end: t1 },
        ),
        spec_end(spec_start(st, t0).1, t1).1.open is None,
{
}

/// Of two starts in a row with no session open, the first opens the session
/// and the second is refused with `AlreadyOpen`, leaving the first one's
/// session as the only open one.
pub proof fn lemma_racing_starts(st: ProjectState, t1: Timestamp, t2: Timestamp)
    requires
        st.open is None,
    ensures
        spec_start(st, t1).0 is Ok,
        spec_start(spec_start(st, t1).1, t2).0 == Err::<(), SessionError>(SessionError::AlreadyOpen),
        spec_start(spec_start(st, t1).1, t2).1.open == Some(t1),
{
}

} // verus!
