//! The beat: re-fires recurring tasks whose next fire time has come, and
//! moves that time on along the task's cron expression.
//!
//! Instants are milliseconds since the Unix epoch, UTC.

use vstd::prelude::*;

verus! {

/// The first instant, in milliseconds, at which the cron expression `expr`
/// fires strictly after `after_ms`; `None` where `expr` does not parse or no
/// such instant can be represented.
pub uninterp spec fn cron_next(expr: Seq<char>, after_ms: int) -> Option<int>;

pub open spec fn opt_int(r: Option<i64>) -> Option<int> {
    match r {
        Some(t) => Some(t as int),
        None => None,
    }
}

/// Relies on cron_parser::parse, the first occurrence strictly after the
/// instant given, with chrono's `DateTime::<Utc>::from_timestamp_millis` and
/// `timestamp_millis` to carry instants as milliseconds.
#[verifier::external_body]
fn cron_next_after(expr: &str, after_ms: i64) -> (r: Option<i64>)
    ensures
        opt_int(r) == cron_next(expr@, after_ms as int),
        r matches Some(t) ==> t > after_ms,
{
    let after = chrono::DateTime::<chrono::Utc>::from_timestamp_millis(after_ms)?;
    cron_parser::parse(expr, &after).ok().map(|t| t.timestamp_millis())
}

/// The next fire time of `expr` after `previous_ms`; `None` where the
/// expression does not parse.
pub fn next_call(previous_ms: i64, expr: &str) -> (r: Option<i64>)
    ensures
        opt_int(r) == cron_next(expr@, previous_ms as int),
        r matches Some(t) ==> t > previous_ms,
{
    cron_next_after(expr, previous_ms)
}

/// How far, in whole seconds, a beat may run from a schedule's fire time and
/// still fire it.
pub const TIME_TOLERANCE_SECS: i64 = 60;

/// A recurring task definition held in the schedule store.
#[derive(Clone, Debug)]
pub struct Schedule {
    pub task: String,
    pub cron: String,
    pub next_call: Option<i64>,
    pub last_called_at: Option<i64>,
}

/// What one beat did with one schedule.
#[derive(Debug, Clone, Copy, PartialEq, Eq, Structural)]
pub enum BeatOutcome {
    /// The schedule has no next fire time: it never fires.
    Skipped,
    /// Its fire time is more than the tolerance away from now.
    NotDue,
    /// It was due, its times moved on, and its task is to be sent.
    Fired,
    /// It was due but its cron expression gave no next time; it is left as it was.
    BadCron,
}

pub open spec fn abs(x: int) -> int {
    if x < 0 {
        -x
    } else {
        x
    }
}

/// A schedule that fires at `next_call_ms` is due at `now_ms`: the two are at
/// most `TIME_TOLERANCE_SECS` whole seconds apart, either way.
pub open spec fn is_due(next_call_ms: int, now_ms: int) -> bool {
    abs(now_ms - next_call_ms) / 1000 <= TIME_TOLERANCE_SECS
}

/// What the cron expression gives for a schedule: its next time after the
/// schedule's current fire time.
pub open spec fn cron_next_of(s: Schedule) -> Option<int> {
    match s.next_call {
        Some(t) => cron_next(s.cron@, t as int),
        None => None,
    }
}

/// The outcome of a beat at `now_ms` for schedule `s`, given what its cron
/// expression yields from its current fire time.
pub open spec fn beat_outcome(s: Schedule, now_ms: int, cron_result: Option<int>) -> BeatOutcome {
    match s.next_call {
        None => BeatOutcome::Skipped,
        Some(t) => if !is_due(t as int, now_ms) {
            BeatOutcome::NotDue
        } else {
            match cron_result {
                Some(_) => BeatOutcome::Fired,
                None => BeatOutcome::BadCron,
            }
        },
    }
}

/// The schedule after that beat: on firing, it was last called now and next
/// fires at the cron's time; otherwise it is unchanged.
pub open spec fn beat_schedule_after(
    s: Schedule,
    now_ms: int,
    cron_result: Option<int>,
    r: Schedule,
) -> bool {
    if beat_outcome(s, now_ms, cron_result) == BeatOutcome::Fired {
        &&& r.task == s.task
        &&& r.cron == s.cron
        &&& r.last_called_at == Some(now_ms as i64)
        &&& cron_result matches Some(n) && r.next_call == Some(n as i64)
    } else {
        r == s
    }
}

/// Whether a schedule firing at `next_call_ms` is due at `now_ms`.
pub fn due(next_call_ms: i64, now_ms: i64) -> (r: bool)
    ensures
        r == is_due(next_call_ms as int, now_ms as int),
{
    let diff: i128 = now_ms as i128 - next_call_ms as i128;
    let dist: i128 = if diff < 0 {
        -diff
    } else {
        diff
    };
    dist / 1000 <= TIME_TOLERANCE_SECS as i128
}

/// One beat for schedule `s` at `now_ms`, where `cron_result` is what its cron
/// expression gives after its current fire time.
pub fn advance_schedule(s: &mut Schedule, now_ms: i64, cron_result: Option<i64>) -> (r:
    BeatOutcome)
    ensures
        r == beat_outcome(*old(s), now_ms as int, opt_int(cron_result)),
        beat_schedule_after(*old(s), now_ms as int, opt_int(cron_result), *final(s)),
{
    match s.next_call {
        None => BeatOutcome::Skipped,
        Some(t) => {
            if !due(t, now_ms) {
                BeatOutcome::NotDue
            } else {
                match cron_result {
                    Some(n) => {
                        s.last_called_at = Some(now_ms);
                        s.next_call = Some(n);
                        BeatOutcome::Fired
                    },
                    None => BeatOutcome::BadCron,
                }
            }
        },
    }
}

/// One beat for schedule `s` at `now_ms`: if it is due, it is stamped as last
/// called now and its next fire time is its cron's next time after the
/// previous fire time, not after now, so that the cadence does not drift.
pub fn beat_schedule(s: &mut Schedule, now_ms: i64) -> (r: BeatOutcome)
    ensures
        r == beat_outcome(*old(s), now_ms as int, cron_next_of(*old(s))),
        beat_schedule_after(*old(s), now_ms as int, cron_next_of(*old(s)), *final(s)),
        r == BeatOutcome::Fired ==> (final(s).next_call matches Some(n) && (old(
            s,
        ).next_call matches Some(t) && n > t)),
{
    match s.next_call {
        None => BeatOutcome::Skipped,
        Some(t) => {
            if !due(t, now_ms) {
                BeatOutcome::NotDue
            } else {
                let cron_result = next_call(t, s.cron.as_str());
                advance_schedule(s, now_ms, cron_result)
            }
        },
    }
}

/// One beat over all schedules at `now_ms`: each is handled as
/// `beat_schedule` does, and its outcome is given at its position.
pub fn beat_cycle(schedules: Vec<Schedule>, now_ms: i64) -> (r: (Vec<Schedule>, Vec<BeatOutcome>))
    ensures
        r.0@.len() == schedules@.len(),
        r.1@.len() == schedules@.len(),
        forall|i: int|
            0 <= i < schedules@.len() ==> {
                &&& #[trigger] r.1@[i] == beat_outcome(
                    schedules@[i],
                    now_ms as int,
                    cron_next_of(schedules@[i]),
                )
                &&& beat_schedule_after(
                    schedules@[i],
                    now_ms as int,
                    cron_next_of(schedules@[i]),
                    r.0@[i],
                )
            },
{
    let mut rest = schedules;
    let mut done: Vec<Schedule> = Vec::new();
    let mut outcomes: Vec<BeatOutcome> = Vec::new();
    while rest.len() > 0
        invariant
            done@.len() == outcomes@.len(),
            done@.len() + rest@.len() == schedules@.len(),
            rest@ == schedules@.subrange(done@.len() as int, schedules@.len() as int),
            forall|i: int|
                0 <= i < done@.len() ==> {
                    &&& #[trigger] outcomes@[i] == beat_outcome(
                        schedules@[i],
                        now_ms as int,
                        cron_next_of(schedules@[i]),
                    )
                    &&& beat_schedule_after(
                        schedules@[i],
                        now_ms as int,
                        cron_next_of(schedules@[i]),
                        done@[i],
                    )
                },
        decreases rest.len(),
    {
        let ghost k = done@.len() as int;
        let mut s = rest.remove(0);
        assert(s == schedules@[k]);
        let outcome = beat_schedule(&mut s, now_ms);
        done.push(s);
        outcomes.push(outcome);
        assert(rest@ =~= schedules@.subrange(done@.len() as int, schedules@.len() as int));
    }
    (done, outcomes)
}

} // verus!
