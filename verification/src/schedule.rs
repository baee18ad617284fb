//! The recurring daily scheduler: computes the next wall-clock fire time for
//! a configured hour and minute in a configured timezone, converts it to a
//! UTC instant to sleep until, and steps a small phase machine the host loop
//! drives. An ambiguous or non-existent local time — a clock transition — or
//! an unknown timezone name stops the scheduler rather than letting it guess
//! or busy-loop (it fails closed).
use vstd::prelude::*;

verus! {

/// Timestamps are kept well inside the range every calendar computation
/// accepts (roughly one hundred thousand years of seconds).
pub const MAX_TIMESTAMP: i64 = 4_000_000_000_000;

/// The guard pause after each fire, so an early wake-up cannot fire twice in
/// one target window.
pub const GUARD_SECONDS: u64 = 60;

/// The daily target: a wall-clock hour and minute in a named timezone.
pub struct DailyTarget {
    pub hour: u8,
    pub minute: u8,
    pub timezone: String,
}

impl DailyTarget {
    /// A target names a real wall-clock time.
    pub open spec fn wf(self) -> bool {
        self.hour < 24 && self.minute < 60
    }

    /// The target as a second-of-day.
    pub open spec fn target_second(self) -> int {
        self.hour * 3600 + self.minute * 60
    }
}

/// The civil (wall-clock) time the named timezone shows at a UTC instant,
/// encoded as seconds since the civil epoch; None for an unknown name or an
/// out-of-range instant. The timezone database is compiled in, so this is a
/// function of its arguments alone.
pub uninterp spec fn local_of_utc(tz: Seq<char>, utc: i64) -> Option<i64>;

/// The UTC instant at which the named timezone shows a civil time; None for
/// an unknown name or a civil time that a clock transition skips or repeats.
pub uninterp spec fn utc_of_local(tz: Seq<char>, local: i64) -> Option<i64>;

/// Relies on chrono's `timestamp_opt` and chrono-tz's timezone database: the
/// civil time the named timezone shows at a UTC instant. An unknown timezone
/// name yields None.
#[verifier::external_body]
fn local_from_utc(tz_name: &str, utc: i64) -> (r: Option<i64>)
    requires
        0 <= utc < MAX_TIMESTAMP,
    ensures
        r == local_of_utc(tz_name@, utc),
{
    let tz: chrono_tz::Tz = match tz_name.parse() {
        Ok(tz) => tz,
        Err(_) => return None,
    };
    match chrono::TimeZone::timestamp_opt(&tz, utc, 0) {
        chrono::LocalResult::Single(dt) => Some(dt.naive_local().and_utc().timestamp()),
        _ => None,
    }
}

/// Relies on chrono-tz's `from_local_datetime`: the UTC instant at which the
/// named timezone shows the given civil time, None when the name is unknown
/// or that civil time does not exist or is ambiguous in the zone.
#[verifier::external_body]
fn utc_from_local(tz_name: &str, local: i64) -> (r: Option<i64>)
    requires
        0 <= local < MAX_TIMESTAMP,
    ensures
        r == utc_of_local(tz_name@, local),
{
    let tz: chrono_tz::Tz = match tz_name.parse() {
        Ok(tz) => tz,
        Err(_) => return None,
    };
    let naive = match chrono::DateTime::from_timestamp(local, 0) {
        Some(dt) => dt.naive_utc(),
        None => return None,
    };
    match chrono::TimeZone::from_local_datetime(&tz, &naive) {
        chrono::LocalResult::Single(dt) => Some(dt.timestamp()),
        _ => None,
    }
}

/// The next wall-clock fire time strictly after a local instant: today's
/// target if that still lies ahead, otherwise tomorrow's.
pub open spec fn next_fire_local_spec(now_local: int, target_second: int) -> int {
    let today = (now_local / 86400) * 86400 + target_second;
    if now_local < today {
        today
    } else {
        today + 86400
    }
}

/// Computes the next wall-clock fire time: the unique instant on the target
/// second-of-day that lies strictly after now and at most one day ahead.
pub fn next_fire_local(now_local: i64, target_second: u32) -> (fire: i64)
    requires
        0 <= now_local,
        now_local + 2 * 86400 < MAX_TIMESTAMP,
        target_second < 86400,
    ensures
        fire == next_fire_local_spec(now_local as int, target_second as int),
        now_local < fire <= now_local + 86400,
        fire % 86400 == target_second,
{
    let nowu = now_local as u64;
    let day: u64 = nowu / 86400;
    let today: u64 = day * 86400 + target_second as u64;
    let fire_u: u64 = if nowu < today {
        today
    } else {
        today + 86400
    };
    proof {
        assert(day == nowu as int / 86400);
        assert(day * 86400 + (nowu as int % 86400) == nowu);
        assert((day * 86400 + target_second) % 86400 == target_second) by (nonlinear_arith)
            requires
                target_second < 86400,
        ;
        assert((day * 86400 + target_second + 86400) % 86400 == target_second)
            by (nonlinear_arith)
            requires
                target_second < 86400,
        ;
    }
    fire_u as i64
}

/// Everything one arming decides: the wall-clock fire time, its UTC instant,
/// and how long to sleep.
pub struct NextFire {
    pub fire_local: i64,
    pub fire_utc: i64,
    pub delay_seconds: u64,
}

/// Computes when the daily target next fires, from the current UTC instant:
/// the current wall-clock time in the target's timezone picks today's or
/// tomorrow's target, and that wall-clock time is converted back to the UTC
/// instant to sleep until. None — the scheduler fails closed — when the
/// timezone is unknown, the clock reads outside the supported range, or the
/// fire's civil time is skipped or repeated by a clock transition.
pub fn compute_next_fire(target: &DailyTarget, utc_now: i64) -> (r: Option<NextFire>)
    requires
        target.wf(),
    ensures
        match r {
            Some(p) => {
                &&& 0 <= utc_now < MAX_TIMESTAMP
                &&& match local_of_utc(target.timezone@, utc_now) {
                    Some(ln) => {
                        &&& 0 <= ln
                        &&& ln + 2 * 86400 < MAX_TIMESTAMP
                        &&& p.fire_local == next_fire_local_spec(
                            ln as int,
                            target.target_second(),
                        )
                        &&& ln < p.fire_local <= ln + 86400
                        &&& utc_of_local(target.timezone@, p.fire_local) == Some(p.fire_utc)
                        &&& p.delay_seconds == if p.fire_utc > utc_now {
                            (p.fire_utc - utc_now) as u64
                        } else {
                            0
                        }
                    },
                    None => false,
                }
            },
            None => {
                ||| !(0 <= utc_now < MAX_TIMESTAMP)
                ||| match local_of_utc(target.timezone@, utc_now) {
                    None => true,
                    Some(ln) => {
                        ||| !(0 <= ln && ln + 2 * 86400 < MAX_TIMESTAMP)
                        ||| utc_of_local(
                            target.timezone@,
                            next_fire_local_spec(ln as int, target.target_second()) as i64,
                        ) is None
                    },
                }
            },
        },
{
    if !(0 <= utc_now && utc_now < MAX_TIMESTAMP) {
        return None;
    }
    let ln = match local_from_utc(target.timezone.as_str(), utc_now) {
        Some(ln) => ln,
        None => {
            return None;
        },
    };
    if !(0 <= ln && ln < MAX_TIMESTAMP - 2 * 86400) {
        return None;
    }
    let target_second: u32 = target.hour as u32 * 3600 + target.minute as u32 * 60;
    let fire_local = next_fire_local(ln, target_second);
    let fire_utc = match utc_from_local(target.timezone.as_str(), fire_local) {
        Some(f) => f,
        None => {
            return None;
        },
    };
    let delay_seconds: u64 = if fire_utc > utc_now {
        (fire_utc - utc_now) as u64
    } else {
        0
    };
    Some(NextFire { fire_local, fire_utc, delay_seconds })
}

/// Where the scheduler loop stands.
#[derive(Clone, Copy)]
pub enum SchedulerPhase {
    /// Computing the next fire instant.
    Computing,
    /// Sleeping this many seconds until the fire instant.
    Sleeping(u64),
    /// Invoking the daily action.
    Firing,
    /// Pausing for the guard interval after a fire.
    GuardWait,
    /// Fail-closed: the time computation failed and the scheduler re-arms no
    /// more.
    Stopped,
}

/// What the host reports back to the scheduler.
#[derive(Clone, Copy)]
pub enum SchedulerEvent {
    /// The next fire was computed — the seconds to sleep — or the
    /// computation failed.
    Computed(Option<u64>),
    /// The sleep until the fire instant elapsed.
    SleepElapsed,
    /// The daily action was invoked.
    Fired,
    /// The guard pause elapsed.
    GuardElapsed,
}

/// The scheduler's transition relation: compute, sleep, fire, guard-wait,
/// compute again; a failed computation — and any event out of order — stops
/// the scheduler for good.
pub open spec fn scheduler_step_spec(p: SchedulerPhase, e: SchedulerEvent) -> SchedulerPhase {
    match (p, e) {
        (SchedulerPhase::Computing, SchedulerEvent::Computed(Some(d))) => SchedulerPhase::Sleeping(
            d,
        ),
        (SchedulerPhase::Computing, SchedulerEvent::Computed(None)) => SchedulerPhase::Stopped,
        (SchedulerPhase::Sleeping(_), SchedulerEvent::SleepElapsed) => SchedulerPhase::Firing,
        (SchedulerPhase::Firing, SchedulerEvent::Fired) => SchedulerPhase::GuardWait,
        (SchedulerPhase::GuardWait, SchedulerEvent::GuardElapsed) => SchedulerPhase::Computing,
        _ => SchedulerPhase::Stopped,
    }
}

/// Advances the scheduler by one event.
pub fn scheduler_step(phase: SchedulerPhase, event: SchedulerEvent) -> (next: SchedulerPhase)
    ensures
        next == scheduler_step_spec(phase, event),
{
    match (phase, event) {
        (SchedulerPhase::Computing, SchedulerEvent::Computed(Some(d))) => SchedulerPhase::Sleeping(
            d,
        ),
        (SchedulerPhase::Computing, SchedulerEvent::Computed(None)) => SchedulerPhase::Stopped,
        (SchedulerPhase::Sleeping(_), SchedulerEvent::SleepElapsed) => SchedulerPhase::Firing,
        (SchedulerPhase::Firing, SchedulerEvent::Fired) => SchedulerPhase::GuardWait,
        (SchedulerPhase::GuardWait, SchedulerEvent::GuardElapsed) => SchedulerPhase::Computing,
        _ => SchedulerPhase::Stopped,
    }
}

} // verus!
