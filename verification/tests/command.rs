use traffic_engine::command::{interpret, is_whitespace, same_text, words_of, Command, Usage};
use traffic_engine::settings::Config;

fn configured() -> Config {
    Config {
        telegram_token: None,
        telegram_chat_id: None,
        default_target: Some("10.9.8.7".to_string()),
        default_port: Some(8080),
        traffic_duration: Some(30),
    }
}

fn traffic(target: &str, port: u16, duration: u64) -> Command {
    Command::GenerateTraffic { target: target.to_string(), port, duration }
}

#[test]
fn white_space_is_what_unicode_says() {
    for code in 0..=0x10ffffu32 {
        if let Some(c) = char::from_u32(code) {
            assert_eq!(is_whitespace(c), c.is_whitespace(), "U+{:04X}", code);
        }
    }
}

#[test]
fn words_are_split_at_white_space() {
    assert_eq!(words_of(""), Vec::<String>::new());
    assert_eq!(words_of("   \t\r\n"), Vec::<String>::new());
    assert_eq!(words_of("help"), vec!["help"]);
    assert_eq!(words_of("  ping   10.0.0.1 "), vec!["ping", "10.0.0.1"]);
    assert_eq!(words_of("a\tb\nc\u{a0}d\u{3000}e"), vec!["a", "b", "c", "d", "e"]);
    assert_eq!(words_of("x"), vec!["x"]);
    assert_eq!(words_of(" x"), vec!["x"]);
    assert_eq!(words_of("x "), vec!["x"]);
    assert_eq!(words_of("\u{e9}t\u{e9} \u{4e16}\u{754c}"), vec!["\u{e9}t\u{e9}", "\u{4e16}\u{754c}"]);
}

#[test]
fn words_match_the_standard_split() {
    for line in [
        "generate_traffic 10.0.0.1 80 10",
        "\u{2003}lead and trail\u{2003}",
        "a  b   c    d",
        "tab\tseparated\twords",
        "one",
        "",
        " ",
        "\u{1f600} emoji \u{1f600}\u{1f600}",
    ] {
        let expected: Vec<String> = line.split_whitespace().map(|w| w.to_string()).collect();
        let found = words_of(line);
        assert!(found.iter().all(|w| !w.is_empty() && !w.chars().any(is_whitespace)));
        assert_eq!(found, expected, "line {:?}", line);
    }
}

#[test]
fn texts_compare_by_content() {
    assert!(same_text("", ""));
    assert!(same_text("help", "help"));
    assert!(!same_text("help", "Help"));
    assert!(!same_text("help", "help "));
    assert!(!same_text("help", "hel"));
}

#[test]
fn blank_line_asks_for_nothing() {
    let config = Config::default();
    assert_eq!(interpret("", &config), Command::Nothing);
    assert_eq!(interpret("   ", &config), Command::Nothing);
    assert_eq!(interpret("\t\n", &config), Command::Nothing);
}

#[test]
fn plain_commands_are_recognised() {
    let config = Config::default();
    assert_eq!(interpret("help", &config), Command::Help);
    assert_eq!(interpret("  help  ", &config), Command::Help);
    assert_eq!(interpret("help me please", &config), Command::Help);
    assert_eq!(interpret("view_config", &config), Command::ViewConfig);
    assert_eq!(interpret("test_telegram", &config), Command::TestTelegram);
    assert_eq!(interpret("clear", &config), Command::Clear);
    assert_eq!(interpret("exit", &config), Command::Exit);
    assert_eq!(interpret("exit now", &config), Command::Exit);
}

#[test]
fn unknown_words_are_unknown() {
    let config = Config::default();
    for line in ["quit", "HELP", "Help", "helpp", "hel", "pin g", "generate", "?", "10.0.0.1", "exit2"] {
        assert_eq!(interpret(line, &config), Command::Unknown, "line {:?}", line);
    }
}

#[test]
fn commands_with_an_argument_take_the_second_word() {
    let config = Config::default();
    assert_eq!(interpret("ping 10.0.0.1", &config), Command::Ping("10.0.0.1".to_string()));
    assert_eq!(interpret("ping  a  b", &config), Command::Ping("a".to_string()));
    assert_eq!(
        interpret("traceroute example.org", &config),
        Command::Traceroute("example.org".to_string())
    );
    assert_eq!(
        interpret("config_telegram_token 123:ABC", &config),
        Command::SetTelegramToken("123:ABC".to_string())
    );
    assert_eq!(
        interpret("config_telegram_chat_id -100", &config),
        Command::SetTelegramChatId("-100".to_string())
    );
}

#[test]
fn missing_argument_is_noticed() {
    let config = Config::default();
    assert_eq!(interpret("ping", &config), Command::MissingArgument(Usage::Ping));
    assert_eq!(interpret("traceroute ", &config), Command::MissingArgument(Usage::Traceroute));
    assert_eq!(
        interpret("config_telegram_token", &config),
        Command::MissingArgument(Usage::TelegramToken)
    );
    assert_eq!(
        interpret("config_telegram_chat_id", &config),
        Command::MissingArgument(Usage::TelegramChatId)
    );
}

#[test]
fn usage_notices_name_the_command() {
    assert_eq!(Usage::Ping.notice(), "Usage: ping <ip>");
    assert_eq!(Usage::Traceroute.notice(), "Usage: traceroute <ip>");
    assert_eq!(Usage::TelegramToken.notice(), "Usage: config_telegram_token <token>");
    assert_eq!(Usage::TelegramChatId.notice(), "Usage: config_telegram_chat_id <id>");
}

#[test]
fn traffic_request_in_full() {
    let config = configured();
    assert_eq!(interpret("generate_traffic 10.0.0.1 443 60", &config), traffic("10.0.0.1", 443, 60));
    assert_eq!(
        interpret("generate_traffic 10.0.0.1 +443 +60 more", &config),
        traffic("10.0.0.1", 443, 60)
    );
    assert_eq!(
        interpret("generate_traffic [::1] 0 0", &config),
        traffic("[::1]", 0, 0)
    );
    assert_eq!(
        interpret("generate_traffic h 65535 18446744073709551615", &config),
        traffic("h", 65535, u64::MAX)
    );
}

#[test]
fn traffic_request_with_gaps_uses_settings() {
    let config = configured();
    assert_eq!(interpret("generate_traffic", &config), traffic("10.9.8.7", 8080, 30));
    assert_eq!(interpret("generate_traffic 1.1.1.1", &config), traffic("1.1.1.1", 8080, 30));
    assert_eq!(interpret("generate_traffic 1.1.1.1 53", &config), traffic("1.1.1.1", 53, 30));
}

#[test]
fn traffic_request_with_gaps_uses_fallbacks() {
    let mut config = configured();
    config.default_port = None;
    config.traffic_duration = None;
    assert_eq!(interpret("generate_traffic", &config), traffic("10.9.8.7", 80, 10));
    assert_eq!(interpret("generate_traffic 1.1.1.1", &Config::default()), traffic("1.1.1.1", 80, 10));
}

#[test]
fn traffic_request_without_any_target() {
    assert_eq!(interpret("generate_traffic", &Config::default()), Command::NoTarget);
    let mut config = configured();
    config.default_target = Some(String::new());
    assert_eq!(interpret("generate_traffic", &config), Command::Nothing);
    assert_eq!(interpret("generate_traffic 1.1.1.1", &config), traffic("1.1.1.1", 8080, 30));
}

#[test]
fn traffic_request_with_a_bad_port() {
    let config = configured();
    for port in ["http", "-1", "65536", "80a", "8.0", "99999999999999999999"] {
        let line = format!("generate_traffic 10.0.0.1 {} 10", port);
        assert_eq!(interpret(&line, &config), Command::InvalidPort, "port {:?}", port);
    }
    assert_eq!(interpret("generate_traffic 10.0.0.1 x y", &config), Command::InvalidPort);
}

#[test]
fn traffic_request_with_a_bad_duration() {
    let config = configured();
    for duration in ["soon", "-1", "18446744073709551616", "1s", "1.5"] {
        let line = format!("generate_traffic 10.0.0.1 80 {}", duration);
        assert_eq!(interpret(&line, &config), Command::InvalidDuration, "duration {:?}", duration);
    }
}

#[test]
fn traffic_request_does_not_judge_the_target() {
    assert_eq!(
        interpret("generate_traffic not-an-address 80 1", &Config::default()),
        traffic("not-an-address", 80, 1)
    );
}
