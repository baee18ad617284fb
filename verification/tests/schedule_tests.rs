use notify_engine::schedule::{
    compute_next_fire, next_fire_local, scheduler_step, DailyTarget, SchedulerEvent,
    SchedulerPhase,
};

#[test]
fn test_invoked_just_before_target_fires_within_a_minute() {
    // Local time 10:59, target 11:00 -> the fire is 60 seconds ahead.
    let now = 10 * 3600 + 59 * 60;
    let fire = next_fire_local(now, 11 * 3600);
    assert_eq!(fire - now, 60);
}

#[test]
fn test_invoked_just_after_target_fires_next_day() {
    // Local time 11:01, target 11:00 -> the fire is 23 h 59 min ahead, not
    // now.
    let now = 11 * 3600 + 60;
    let fire = next_fire_local(now, 11 * 3600);
    assert_eq!(fire - now, 23 * 3600 + 59 * 60);
}

#[test]
fn test_compute_next_fire_in_utc() {
    let target = DailyTarget { hour: 11, minute: 0, timezone: String::from("UTC") };
    // 2023-11-14 22:13:20 UTC: past 11:00, so tomorrow 11:00 UTC.
    let plan = compute_next_fire(&target, 1_700_000_000).expect("UTC is a known timezone");
    assert_eq!(plan.fire_utc, 1_700_046_000);
    assert_eq!(plan.delay_seconds, 46_000);
}

#[test]
fn test_compute_next_fire_respects_timezone_offset() {
    // Same instant, but the target is 11:00 in Kyiv (UTC+2 in November):
    // there it is already 00:13:20 the next day, so the fire lands at 11:00
    // Kyiv time, 09:00 UTC — two hours earlier than the UTC run.
    let target = DailyTarget { hour: 11, minute: 0, timezone: String::from("Europe/Kyiv") };
    let plan = compute_next_fire(&target, 1_700_000_000).expect("Kyiv is a known timezone");
    assert_eq!(plan.fire_utc, 1_700_038_800);
    assert_eq!(plan.delay_seconds, 38_800);
}

#[test]
fn test_unknown_timezone_fails_closed() {
    let target = DailyTarget { hour: 11, minute: 0, timezone: String::from("Nowhere/City") };
    assert!(compute_next_fire(&target, 1_700_000_000).is_none());
}

#[test]
fn test_scheduler_phases() {
    let p = SchedulerPhase::Computing;
    let p = scheduler_step(p, SchedulerEvent::Computed(Some(46_000)));
    assert!(matches!(p, SchedulerPhase::Sleeping(46_000)));
    let p = scheduler_step(p, SchedulerEvent::SleepElapsed);
    assert!(matches!(p, SchedulerPhase::Firing));
    let p = scheduler_step(p, SchedulerEvent::Fired);
    assert!(matches!(p, SchedulerPhase::GuardWait));
    let p = scheduler_step(p, SchedulerEvent::GuardElapsed);
    assert!(matches!(p, SchedulerPhase::Computing));
    // A failed time computation stops the scheduler for good.
    let p = scheduler_step(p, SchedulerEvent::Computed(None));
    assert!(matches!(p, SchedulerPhase::Stopped));
    let p = scheduler_step(p, SchedulerEvent::Fired);
    assert!(matches!(p, SchedulerPhase::Stopped));
}
