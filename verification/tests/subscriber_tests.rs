use notify_engine::subscriber::Subscriber;

fn fresh(id: i64) -> Subscriber {
    Subscriber::new(id, String::new(), Vec::new(), 1_000)
}

#[test]
fn test_add_symbol_never_duplicates() {
    let mut sub = fresh(1);
    let btc = String::from("BTC");
    let eth = String::from("ETH");
    sub.add_symbol(&btc, 1_001);
    sub.add_symbol(&btc, 1_002);
    sub.add_symbol(&eth, 1_003);
    sub.add_symbol(&btc, 1_004);
    assert_eq!(sub.watchlist, vec![String::from("BTC"), String::from("ETH")]);
    assert_eq!(sub.updated_at, 1_004);
}

#[test]
fn test_new_dedups_initial_watchlist() {
    let list = vec![
        String::from("btc"),
        String::from("eth"),
        String::from("btc"),
        String::from("sol"),
        String::from("eth"),
    ];
    let sub = Subscriber::new(5, String::from("ann"), list, 42);
    assert_eq!(
        sub.watchlist,
        vec![String::from("btc"), String::from("eth"), String::from("sol")]
    );
    assert!(!sub.notifications_enabled);
    assert!(sub.gas_thresholds.is_empty());
    assert_eq!(sub.created_at, 42);
    assert_eq!(sub.updated_at, 42);
}

#[test]
fn test_remove_symbol() {
    let mut sub = fresh(2);
    sub.add_symbol(&String::from("btc"), 10);
    sub.add_symbol(&String::from("eth"), 11);
    sub.remove_symbol(&String::from("btc"), 12);
    assert_eq!(sub.watchlist, vec![String::from("eth")]);
    sub.remove_symbol(&String::from("doge"), 13);
    assert_eq!(sub.watchlist, vec![String::from("eth")]);
    assert_eq!(sub.updated_at, 13);
}

#[test]
fn test_toggle_notifications_reports_new_state() {
    let mut sub = fresh(3);
    let on = sub.toggle_notifications(20);
    assert!(sub.notifications_enabled);
    assert_eq!(on, "successfully turned on");
    let off = sub.toggle_notifications(21);
    assert!(!sub.notifications_enabled);
    assert_eq!(off, "successfully turned off");
    assert_eq!(sub.updated_at, 21);
}

#[test]
fn test_set_threshold_inserts_and_replaces() {
    let mut sub = fresh(4);
    sub.set_threshold(&String::from("ethereum"), 20, 30);
    assert_eq!(sub.find_threshold(&String::from("ethereum")), Some(20));
    sub.set_threshold(&String::from("ethereum"), 35, 31);
    assert_eq!(sub.find_threshold(&String::from("ethereum")), Some(35));
    sub.set_threshold(&String::from("bsc"), 7, 32);
    assert_eq!(sub.find_threshold(&String::from("ethereum")), Some(35));
    assert_eq!(sub.find_threshold(&String::from("bsc")), Some(7));
    assert_eq!(sub.find_threshold(&String::from("polygon")), None);
    assert_eq!(sub.gas_thresholds.len(), 2);
}
