use notify_engine::fanout::{plan_threshold_sends, FanOutPass};
use notify_engine::poller::{build_snapshot, wei_to_gwei};
use notify_engine::subscriber::Subscriber;
use notify_engine::text::u64_to_string;

fn subscriber_with(id: i64, source: &str, gwei: u32, enabled: bool) -> Subscriber {
    let mut sub = Subscriber::new(id, String::new(), Vec::new(), 0);
    sub.set_threshold(&String::from(source), gwei, 1);
    if enabled {
        sub.toggle_notifications(2);
    }
    sub
}

#[test]
fn test_threshold_fanout_selects_exactly_first() {
    // Snapshot {A: 50}; thresholds 40 (enabled), 60 (enabled), 10 (disabled):
    // only the first subscriber is due.
    let snapshot = build_snapshot(&vec![String::from("A")], &vec![Some(50)]);
    let subs = vec![
        subscriber_with(101, "A", 40, true),
        subscriber_with(102, "A", 60, true),
        subscriber_with(103, "A", 10, false),
    ];
    let plan = plan_threshold_sends(&snapshot, &subs);
    assert_eq!(plan.len(), 1);
    assert_eq!(plan[0].recipient, 101);
    assert_eq!(plan[0].text, "A: 50 Gwei\n");
}

#[test]
fn test_end_to_end_threshold_ticks() {
    // A subscriber with gasThresholds {ethereum: 20}, notifications on.
    let sub = subscriber_with(200, "ethereum", 20, true);
    let sources = vec![String::from("ethereum")];

    // Tick one: ethereum reports 25 -> exactly one message, naming the
    // source and the value.
    let snap = build_snapshot(&sources, &vec![Some(25)]);
    let plan = plan_threshold_sends(&snap, &vec![sub]);
    assert_eq!(plan.len(), 1);
    assert_eq!(plan[0].recipient, 200);
    assert!(plan[0].text.contains("ethereum"));
    assert!(plan[0].text.contains("25"));

    // Tick two: ethereum reports 15 -> nothing is due.
    let sub = subscriber_with(200, "ethereum", 20, true);
    let snap = build_snapshot(&sources, &vec![Some(15)]);
    let plan = plan_threshold_sends(&snap, &vec![sub]);
    assert!(plan.is_empty());
}

#[test]
fn test_threshold_equal_value_not_due() {
    // The comparison is strict: a sample equal to the threshold sends
    // nothing.
    let sub = subscriber_with(300, "ethereum", 25, true);
    let snap = build_snapshot(&vec![String::from("ethereum")], &vec![Some(25)]);
    let plan = plan_threshold_sends(&snap, &vec![sub]);
    assert!(plan.is_empty());
}

#[test]
fn test_failed_source_skipped_that_tick() {
    // One source errored this tick: its entry is absent, the others stand.
    let sources = vec![String::from("ethereum"), String::from("bsc")];
    let snap = build_snapshot(&sources, &vec![None, Some(9)]);
    assert_eq!(snap.entries.len(), 1);
    assert_eq!(snap.entries[0].source, "bsc");
    assert_eq!(snap.entries[0].value, 9);
}

#[test]
fn test_fanout_pass_attempts_all_after_failure() {
    // A failure at recipient 1 of 3 still leaves recipients 2 and 3
    // attempted.
    let snapshot = build_snapshot(&vec![String::from("A")], &vec![Some(50)]);
    let subs = vec![
        subscriber_with(1, "A", 10, true),
        subscriber_with(2, "A", 20, true),
        subscriber_with(3, "A", 30, true),
    ];
    let plan = plan_threshold_sends(&snapshot, &subs);
    assert_eq!(plan.len(), 3);
    let mut pass = FanOutPass::begin(plan);
    let mut attempted = Vec::new();
    let outcomes = [false, true, false];
    let mut i = 0;
    while let Some(m) = pass.current() {
        attempted.push(m.recipient);
        pass.record(outcomes[i]);
        i += 1;
    }
    assert!(pass.is_done());
    assert_eq!(attempted, vec![1, 2, 3]);
    assert_eq!(pass.failures, 2);
}

#[test]
fn test_wei_to_gwei() {
    assert_eq!(wei_to_gwei(42_000_000_000), 42);
    assert_eq!(wei_to_gwei(999_999_999), 0);
    assert_eq!(wei_to_gwei(1_000_000_000), 1);
}

#[test]
fn test_u64_to_string_exact() {
    assert_eq!(u64_to_string(0), "0");
    assert_eq!(u64_to_string(7), "7");
    assert_eq!(u64_to_string(1234567890), "1234567890");
    assert_eq!(u64_to_string(u64::MAX), "18446744073709551615");
}
