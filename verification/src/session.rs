use vstd::prelude::*;

use crate::record::{RecordView, TimerRecord};
use crate::text::{join_lines, join_lines_spec, trim_spec, trim_str, views_of};
use crate::time::{Timestamp, MAX_TIMESTAMP_SECONDS};

verus! {

/// A command that is not valid in the current session state.  It is
/// reported to the user and changes nothing.
#[derive(Debug)]
pub struct CommandError;

#[derive(Clone, Copy, PartialEq, Eq, Structural, Debug)]
pub enum TimerState {
    Idle,
    Running,
    Paused,
}

/// The live timer: one per process, reset to `Idle` after every completed
/// cycle.  `accumulated` holds the whole seconds banked from running
/// intervals that ended in a pause; while `Running`, time since
/// `last_start` is still accruing on top of it.  `paused_at` is the
/// instant of the pause that led to the current `Paused` state.
pub struct TimerSession {
    pub state: TimerState,
    pub category: String,
    pub description: String,
    pub detail: Vec<String>,
    pub start: Timestamp,
    pub last_start: Timestamp,
    pub paused_at: i64,
    pub accumulated: i64,
}

/// The mathematical value of a `TimerSession`.
#[verifier::ext_equal]
pub struct SessionView {
    pub state: TimerState,
    pub category: Seq<char>,
    pub description: Seq<char>,
    pub detail: Seq<Seq<char>>,
    pub start_seconds: int,
    pub start_text: Seq<char>,
    pub last_start_seconds: int,
    pub paused_at: int,
    pub accumulated: int,
}

impl View for TimerSession {
    type V = SessionView;

    open spec fn view(&self) -> SessionView {
        SessionView {
            state: self.state,
            category: self.category@,
            description: self.description@,
            detail: views_of(self.detail@),
            start_seconds: self.start.seconds as int,
            start_text: self.start.rfc3339@,
            last_start_seconds: self.last_start.seconds as int,
            paused_at: self.paused_at as int,
            accumulated: self.accumulated as int,
        }
    }
}

impl SessionView {
    /// The session invariant.  Banked time never exceeds the span of the
    /// session so far, which keeps every duration sum inside `i64`:
    /// while `Running`, everything banked comes from intervals that ended
    /// before the last (re)start; while `Paused`, from intervals that
    /// ended no later than the pause.
    pub open spec fn wf(&self) -> bool {
        &&& -(MAX_TIMESTAMP_SECONDS as int) <= self.start_seconds <= MAX_TIMESTAMP_SECONDS as int
        &&& -(MAX_TIMESTAMP_SECONDS as int) <= self.last_start_seconds
            <= MAX_TIMESTAMP_SECONDS as int
        &&& -(MAX_TIMESTAMP_SECONDS as int) <= self.paused_at <= MAX_TIMESTAMP_SECONDS as int
        &&& match self.state {
            TimerState::Idle => self.accumulated == 0,
            TimerState::Running => self.start_seconds <= self.last_start_seconds && 0
                <= self.accumulated <= self.last_start_seconds - self.start_seconds,
            TimerState::Paused => self.start_seconds <= self.last_start_seconds <= self.paused_at
                && 0 <= self.accumulated <= self.paused_at - self.start_seconds,
        }
    }
}

/// The value of a session that is idle with all fields at their defaults,
/// as a fresh session starts and as `stop` leaves it.
pub open spec fn idle_session() -> SessionView {
    SessionView {
        state: TimerState::Idle,
        category: Seq::empty(),
        description: Seq::empty(),
        detail: Seq::empty(),
        start_seconds: 0,
        start_text: Seq::empty(),
        last_start_seconds: 0,
        paused_at: 0,
        accumulated: 0,
    }
}

/// What `start` makes of an idle session: running from `now`, with fresh
/// category and description, no detail, and nothing banked.
pub open spec fn spec_start(
    now_seconds: int,
    now_text: Seq<char>,
    category: Seq<char>,
    description: Seq<char>,
) -> SessionView {
    SessionView {
        state: TimerState::Running,
        category: category,
        description: description,
        detail: Seq::empty(),
        start_seconds: now_seconds,
        start_text: now_text,
        last_start_seconds: now_seconds,
        paused_at: 0,
        accumulated: 0,
    }
}

/// What `pause` makes of a running session: the interval since the last
/// (re)start is banked; `last_start` is left alone until `resume`.
pub open spec fn spec_pause(s: SessionView, now_seconds: int) -> SessionView {
    SessionView {
        state: TimerState::Paused,
        paused_at: now_seconds,
        accumulated: s.accumulated + (now_seconds - s.last_start_seconds),
        ..s
    }
}

/// What `resume` makes of a paused session: accrual restarts at `now`;
/// the banked total is untouched.
pub open spec fn spec_resume(s: SessionView, now_seconds: int) -> SessionView {
    SessionView { state: TimerState::Running, last_start_seconds: now_seconds, ..s }
}

/// The total that `stop` records: while `Running` the still-accruing
/// interval is banked first; while `Paused` everything is banked already
/// and nothing is added.
pub open spec fn spec_stop_total(s: SessionView, now_seconds: int) -> int {
    if s.state == TimerState::Running {
        s.accumulated + (now_seconds - s.last_start_seconds)
    } else {
        s.accumulated
    }
}

/// The record that `stop` persists: trimmed category and description, the
/// detail lines newline-joined in entry order, the session's start text,
/// `now` as the end, and the accumulated running total.
pub open spec fn spec_stop_record(s: SessionView, now_seconds: int, now_text: Seq<char>) -> RecordView {
    RecordView {
        category: trim_spec(s.category),
        description: trim_spec(s.description),
        detail: join_lines_spec(s.detail),
        start_time: s.start_text,
        end_time: now_text,
        total_time_seconds: spec_stop_total(s, now_seconds),
    }
}

/// What `add_detail` makes of an active session: the line is appended to
/// the detail sequence and nothing else moves.
pub open spec fn spec_add_detail(s: SessionView, line: Seq<char>) -> SessionView {
    SessionView { detail: s.detail.push(line), ..s }
}

impl TimerSession {
    pub open spec fn wf(&self) -> bool {
        self@.wf()
    }

    pub fn new() -> (s: Self)
        ensures
            s@ == idle_session(),
            s.wf(),
    {
        let s = TimerSession {
            state: TimerState::Idle,
            category: String::new(),
            description: String::new(),
            detail: Vec::new(),
            start: Timestamp { seconds: 0, rfc3339: String::new() },
            last_start: Timestamp { seconds: 0, rfc3339: String::new() },
            paused_at: 0,
            accumulated: 0,
        };
        proof {
            assert(s@ =~= idle_session());
        }
        s
    }

    /// Begin tracking.  Valid only while `Idle`; in any other state the
    /// command is rejected and the session is unchanged.
    pub fn start(&mut self, now: &Timestamp, category: String, description: String) -> (r: Result<
        (),
        CommandError,
    >)
        requires
            old(self).wf(),
            now.wf(),
        ensures
            final(self).wf(),
            old(self)@.state == TimerState::Idle ==> r is Ok && final(self)@ == spec_start(
                now.seconds as int,
                now.rfc3339@,
                category@,
                description@,
            ),
            old(self)@.state != TimerState::Idle ==> r is Err && final(self)@ == old(self)@,
    {
        match self.state {
            TimerState::Idle => {
                self.state = TimerState::Running;
                self.category = category;
                self.description = description;
                self.detail = Vec::new();
                self.start = Timestamp { seconds: now.seconds, rfc3339: now.rfc3339.clone() };
                self.last_start = Timestamp { seconds: now.seconds, rfc3339: now.rfc3339.clone() };
                self.paused_at = 0;
                self.accumulated = 0;
                proof {
                    assert(self@ =~= spec_start(
                        now.seconds as int,
                        now.rfc3339@,
                        category@,
                        description@,
                    ));
                }
                Ok(())
            },
            _ => Err(CommandError),
        }
    }

    /// Suspend accrual.  Valid only while `Running`; otherwise rejected
    /// with the session unchanged.
    pub fn pause(&mut self, now: &Timestamp) -> (r: Result<(), CommandError>)
        requires
            old(self).wf(),
            now.wf(),
            old(self)@.state == TimerState::Running ==> now.seconds
                >= old(self).last_start.seconds,
        ensures
            final(self).wf(),
            old(self)@.state == TimerState::Running ==> r is Ok && final(self)@ == spec_pause(
                old(self)@,
                now.seconds as int,
            ),
            old(self)@.state != TimerState::Running ==> r is Err && final(self)@ == old(self)@,
    {
        match self.state {
            TimerState::Running => {
                let elapsed = now.seconds - self.last_start.seconds;
                self.accumulated = self.accumulated + elapsed;
                self.paused_at = now.seconds;
                self.state = TimerState::Paused;
                proof {
                    assert(self@ =~= spec_pause(old(self)@, now.seconds as int));
                }
                Ok(())
            },
            _ => Err(CommandError),
        }
    }

    /// Resume accrual.  Valid only while `Paused`; otherwise rejected
    /// with the session unchanged.
    pub fn resume(&mut self, now: &Timestamp) -> (r: Result<(), CommandError>)
        requires
            old(self).wf(),
            now.wf(),
            old(self)@.state == TimerState::Paused ==> now.seconds >= old(self).paused_at,
        ensures
            final(self).wf(),
            old(self)@.state == TimerState::Paused ==> r is Ok && final(self)@ == spec_resume(
                old(self)@,
                now.seconds as int,
            ),
            old(self)@.state != TimerState::Paused ==> r is Err && final(self)@ == old(self)@,
    {
        match self.state {
            TimerState::Paused => {
                self.last_start = Timestamp { seconds: now.seconds, rfc3339: now.rfc3339.clone() };
                self.state = TimerState::Running;
                proof {
                    assert(self@ =~= spec_resume(old(self)@, now.seconds as int));
                }
                Ok(())
            },
            _ => Err(CommandError),
        }
    }

    /// Append a free-text annotation line.  Valid while `Running` or
    /// `Paused`; while `Idle` it is rejected and nothing changes.
    pub fn add_detail(&mut self, line: String) -> (r: Result<(), CommandError>)
        requires
            old(self).wf(),
        ensures
            final(self).wf(),
            old(self)@.state != TimerState::Idle ==> r is Ok && final(self)@ == spec_add_detail(
                old(self)@,
                line@,
            ),
            old(self)@.state == TimerState::Idle ==> r is Err && final(self)@ == old(self)@,
    {
        match self.state {
            TimerState::Idle => Err(CommandError),
            _ => {
                let ghost prior = self@;
                self.detail.push(line);
                proof {
                    assert(views_of(self.detail@) =~= prior.detail.push(line@));
                    assert(self@ =~= spec_add_detail(prior, line@));
                }
                Ok(())
            },
        }
    }

    /// Finalize the session into a record and reset to `Idle`.  Valid
    /// from `Running` (the still-accruing interval is banked first) and
    /// from `Paused` (nothing is added beyond what pauses banked); while
    /// `Idle` it is rejected.  The caller persists the returned record;
    /// the session is reset regardless of what becomes of it.
    pub fn stop(&mut self, now: &Timestamp) -> (r: Result<TimerRecord, CommandError>)
        requires
            old(self).wf(),
            now.wf(),
            old(self)@.state == TimerState::Running ==> now.seconds
                >= old(self).last_start.seconds,
        ensures
            final(self).wf(),
            old(self)@.state != TimerState::Idle ==> (r matches Ok(rec) && rec@
                == spec_stop_record(old(self)@, now.seconds as int, now.rfc3339@)
                && rec.total_time_seconds >= 0 && final(self)@ == idle_session()),
            old(self)@.state == TimerState::Idle ==> r is Err && final(self)@ == old(self)@,
    {
        match self.state {
            TimerState::Idle => Err(CommandError),
            _ => {
                let total = if let TimerState::Running = self.state {
                    self.accumulated + (now.seconds - self.last_start.seconds)
                } else {
                    self.accumulated
                };
                let rec = TimerRecord {
                    category: trim_str(self.category.as_str()).to_owned(),
                    description: trim_str(self.description.as_str()).to_owned(),
                    detail: join_lines(&self.detail),
                    start_time: self.start.rfc3339.clone(),
                    end_time: now.rfc3339.clone(),
                    total_time_seconds: total,
                };
                let ghost prior = self@;
                *self = TimerSession::new();
                proof {
                    assert(rec@ =~= spec_stop_record(prior, now.seconds as int, now.rfc3339@));
                }
                Ok(rec)
            },
        }
    }
}

/// The session after appending each of `lines` as detail, in order.
pub open spec fn spec_add_details(s: SessionView, lines: Seq<Seq<char>>) -> SessionView
    decreases lines.len(),
{
    if lines.len() == 0 {
        s
    } else {
        spec_add_details(spec_add_detail(s, lines.first()), lines.drop_first())
    }
}

/// Law: detail lines are kept in entry order.  Appending `lines` one by
/// one extends the detail sequence by exactly `lines`, and the record a
/// stop then produces carries them newline-joined in that order.
pub proof fn lemma_details_preserved(s: SessionView, lines: Seq<Seq<char>>, t: int, tx: Seq<char>)
    ensures
        spec_add_details(s, lines).detail == s.detail + lines,
        spec_stop_record(spec_add_details(s, lines), t, tx).detail == join_lines_spec(
            s.detail + lines,
        ),
    decreases lines.len(),
{
    if lines.len() == 0 {
        assert(s.detail + lines =~= s.detail);
    } else {
        lemma_details_preserved(spec_add_detail(s, lines.first()), lines.drop_first(), t, tx);
        assert(s.detail.push(lines.first()) + lines.drop_first() =~= s.detail + lines);
    }
}

/// Law: over a whole cycle, the record persisted by the stop carries
/// exactly the lines entered since the start, newline-joined.
pub proof fn lemma_cycle_detail(
    t0: int,
    tx0: Seq<char>,
    category: Seq<char>,
    description: Seq<char>,
    lines: Seq<Seq<char>>,
    t: int,
    tx: Seq<char>,
)
    ensures
        spec_stop_record(
            spec_add_details(spec_start(t0, tx0, category, description), lines),
            t,
            tx,
        ).detail == join_lines_spec(lines),
{
    lemma_details_preserved(spec_start(t0, tx0, category, description), lines, t, tx);
    assert(Seq::<Seq<char>>::empty() + lines =~= lines);
}

/// Law: inserting a pause-resume break before a stop adds exactly the two
/// running intervals around the break and none of the paused time.  From
/// any well-formed running session, pausing at `p`, resuming at `r` and
/// stopping at `t` records the time banked so far, plus the interval that
/// ended at the pause, plus the interval from the resume to the stop.
pub proof fn lemma_pause_resume_accounting(s: SessionView, p: int, r: int, t: int)
    requires
        s.wf(),
        s.state == TimerState::Running,
    ensures
        spec_stop_total(spec_resume(spec_pause(s, p), r), t) == s.accumulated + (p
            - s.last_start_seconds) + (t - r),
{
}

/// Law: over a full start → pause → resume → stop cycle with instants
/// `t0 <= t1 <= t2 <= t3`, the recorded total is the sum of the two
/// running intervals, `(t1 - t0) + (t3 - t2)`; the paused interval
/// `[t1, t2]` is excluded.
pub proof fn lemma_cycle_total(
    t0: int,
    t1: int,
    t2: int,
    t3: int,
    start_text: Seq<char>,
    category: Seq<char>,
    description: Seq<char>,
)
    ensures
        spec_stop_total(
            spec_resume(spec_pause(spec_start(t0, start_text, category, description), t1), t2),
            t3,
        ) == (t1 - t0) + (t3 - t2),
{
}

/// The session after a pause at `p` and a resume at `r` for each pair
/// `(p, r)` in `breaks`, in order.
pub open spec fn spec_breaks(s: SessionView, breaks: Seq<(int, int)>) -> SessionView
    decreases breaks.len(),
{
    if breaks.len() == 0 {
        s
    } else {
        spec_breaks(
            spec_resume(spec_pause(s, breaks.first().0), breaks.first().1),
            breaks.drop_first(),
        )
    }
}

/// The time spent inside the breaks: the sum of resume minus pause.
pub open spec fn paused_total(breaks: Seq<(int, int)>) -> int
    decreases breaks.len(),
{
    if breaks.len() == 0 {
        0
    } else {
        (breaks.first().1 - breaks.first().0) + paused_total(breaks.drop_first())
    }
}

pub proof fn lemma_breaks_running(s: SessionView, breaks: Seq<(int, int)>, t: int)
    requires
        s.state == TimerState::Running,
    ensures
        spec_stop_total(spec_breaks(s, breaks), t) == s.accumulated + (t - s.last_start_seconds)
            - paused_total(breaks),
    decreases breaks.len(),
{
    if breaks.len() > 0 {
        lemma_breaks_running(
            spec_resume(spec_pause(s, breaks.first().0), breaks.first().1),
            breaks.drop_first(),
            t,
        );
    }
}

/// Law: for every sequence of transitions start, then any number of
/// pause-resume breaks, then stop, the recorded total is the whole span
/// `t - t0` minus exactly the time spent inside the breaks — that is, the
/// sum of the running sub-intervals and nothing of the paused ones.
pub proof fn lemma_total_excludes_paused_time(
    t0: int,
    start_text: Seq<char>,
    category: Seq<char>,
    description: Seq<char>,
    breaks: Seq<(int, int)>,
    t: int,
)
    ensures
        spec_stop_total(spec_breaks(spec_start(t0, start_text, category, description), breaks), t)
            == (t - t0) - paused_total(breaks),
{
    lemma_breaks_running(spec_start(t0, start_text, category, description), breaks, t);
}

/// Law: stopping while paused does not double-count.  After a pause at
/// `t1` banked the interval since the last (re)start, a stop at any later
/// `t2` records exactly what was banked at the pause and nothing for
/// `[t1, t2]`.
pub proof fn lemma_stop_while_paused(s: SessionView, t1: int, t2: int)
    requires
        s.wf(),
        s.state == TimerState::Running,
    ensures
        spec_stop_total(spec_pause(s, t1), t2) == s.accumulated + (t1 - s.last_start_seconds),
{
}

} // verus!
