use notify_engine::commands::{normalize_source, set_threshold_command, start_greeting};
use notify_engine::subscriber::Subscriber;
use notify_engine::text::{ascii_lower, gas_line, reminder_line};

#[test]
fn test_normalize_source_aliases() {
    let cases = [
        ("ethereum", Some("ethereum")),
        ("ETH", Some("ethereum")),
        ("bsc", Some("bsc")),
        ("Binance", Some("bsc")),
        ("Binance Smart Chain", Some("bsc")),
        ("polygon", Some("polygon")),
        ("MATIC", Some("polygon")),
        ("dogecoin", None),
        ("", None),
    ];
    for (raw, want) in cases {
        let got = normalize_source(&String::from(raw));
        assert_eq!(got.as_deref(), want, "alias {raw:?}");
    }
}

#[test]
fn test_set_threshold_command_stores_under_canonical_name() {
    let mut sub = Subscriber::new(5, String::new(), Vec::new(), 0);
    let reply = set_threshold_command(&mut sub, &String::from("ETH"), 20, 9);
    assert_eq!(reply, "Уведомления для сети ethereum успешно установлены на 20 gwei");
    assert_eq!(sub.find_threshold(&String::from("ethereum")), Some(20));
    assert_eq!(sub.updated_at, 9);
}

#[test]
fn test_set_threshold_command_rejects_unknown_source() {
    let mut sub = Subscriber::new(6, String::new(), Vec::new(), 0);
    let reply = set_threshold_command(&mut sub, &String::from("dogecoin"), 20, 9);
    assert_eq!(reply, "Данный блокчейн не поддерживаеться");
    assert!(sub.gas_thresholds.is_empty());
    assert_eq!(sub.updated_at, 0);
}

#[test]
fn test_ascii_lower() {
    assert_eq!(ascii_lower(&String::from("Binance Smart CHAIN")), "binance smart chain");
    assert_eq!(ascii_lower(&String::from("already low 123")), "already low 123");
}

#[test]
fn test_message_lines() {
    assert_eq!(gas_line(&String::from("ethereum"), 25), "ethereum: 25 Gwei\n");
    assert_eq!(reminder_line(), "\n Для отключения уведомлений напишите /notify");
    assert_eq!(start_greeting(), "Hello type /help");
}
