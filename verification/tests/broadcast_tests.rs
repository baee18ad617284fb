use notify_engine::broadcast::{plan_operator_broadcast, BroadcastPass};
use notify_engine::subscriber::Subscriber;

fn subscriber(id: i64, symbols: &[&str], enabled: bool) -> Subscriber {
    let list: Vec<String> = symbols.iter().map(|s| String::from(*s)).collect();
    let mut sub = Subscriber::new(id, String::new(), list, 0);
    if enabled {
        sub.toggle_notifications(1);
    }
    sub
}

#[test]
fn test_empty_watchlist_never_fetched_or_sent() {
    let subs = vec![
        subscriber(1, &["btc"], true),
        subscriber(2, &[], true),
        subscriber(3, &["eth"], false),
    ];
    let pass = BroadcastPass::begin(&subs);
    // Only the opted-in subscriber with a non-empty watchlist is planned.
    assert_eq!(pass.jobs.len(), 1);
    assert_eq!(pass.jobs[0].recipient, 1);
    assert_eq!(pass.jobs[0].watchlist, vec![String::from("btc")]);
    let job = pass.next_fetch().expect("one fetch is due");
    assert_eq!(job.recipient, 1);
}

#[test]
fn test_broadcast_pass_isolates_failures() {
    let subs = vec![
        subscriber(1, &["btc"], true),
        subscriber(2, &["eth"], true),
        subscriber(3, &["sol"], true),
    ];
    let mut pass = BroadcastPass::begin(&subs);
    assert_eq!(pass.jobs.len(), 3);

    // Recipient 1: the report arrives, its send fails, the reminder still
    // goes out, and the pass moves on.
    assert_eq!(pass.next_fetch().unwrap().recipient, 1);
    pass.supply_report(Some(String::from("report one")));
    let send = pass.next_send().expect("the report send is due");
    assert_eq!(send.recipient, 1);
    assert_eq!(send.text, "report one");
    pass.report_sent(false);
    let reminder = pass.next_send().expect("the reminder is due");
    assert_eq!(reminder.recipient, 1);
    assert_eq!(reminder.text, "\n Для отключения уведомлений напишите /notify");
    pass.reminder_sent(true);

    // Recipient 2: the fetch itself fails; the recipient is skipped and the
    // pass continues with recipient 3.
    assert_eq!(pass.next_fetch().unwrap().recipient, 2);
    pass.supply_report(None);
    assert_eq!(pass.next_fetch().unwrap().recipient, 3);
    pass.supply_report(Some(String::from("report three")));
    pass.report_sent(true);
    pass.reminder_sent(false);
    assert!(pass.is_done());
    assert!(pass.next_fetch().is_none());
}

#[test]
fn test_operator_broadcast_reaches_everyone() {
    let subs = vec![
        subscriber(1, &["btc"], true),
        subscriber(2, &[], false),
        subscriber(3, &["eth"], false),
    ];
    let text = String::from("maintenance tonight");
    let plan = plan_operator_broadcast(&subs, &text);
    assert_eq!(plan.len(), 3);
    for (i, id) in [1i64, 2, 3].iter().enumerate() {
        assert_eq!(plan[i].recipient, *id);
        assert_eq!(plan[i].text, "maintenance tonight");
    }
}
