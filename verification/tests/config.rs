use shutup_bot::app::{App, Command as AppCommand, MsgWrapper};
use shutup_bot::opts::{Cli, Config};
use shutup_bot::text::{decimal, ends_with, find_char, str_equal};

fn cli(level: &str) -> Cli {
    Cli {
        shutup_target: "t".to_string(),
        initial_admin: "a".to_string(),
        meme_limit: 2,
        log_level: level.to_string(),
        connect_timeout: 5,
        timeout: 17,
        concurrent_connections: 100,
    }
}

#[test]
fn default_config_has_the_initial_admin_and_limit_three() {
    let c = Config::default_for("root".to_string());
    assert_eq!(c.admins(), &vec!["root".to_string()]);
    assert_eq!(c.meme_limit(), 3);
    assert!(c.forward_subscribers().is_empty());
    assert!(c.queue_subscribers().is_empty());
}

#[test]
fn config_from_parts_keeps_each_element_once() {
    let c = Config::from_parts(
        vec!["a".to_string(), "b".to_string(), "a".to_string()],
        4,
        vec![1, 1, 2],
        vec![-3, -3],
    );
    assert_eq!(c.admins(), &vec!["a".to_string(), "b".to_string()]);
    assert_eq!(c.forward_subscribers(), &vec![1, 2]);
    assert_eq!(c.queue_subscribers(), &vec![-3]);
    assert!(c.is_admin("b"));
    assert!(!c.is_admin("c"));
}

#[test]
fn log_levels_are_checked() {
    for level in ["error", "warn", "info", "debug", "trace", "ERROR", "WARN", "INFO", "DEBUG", "TRACE", "tracing", "TRACING"] {
        assert!(cli(level).log_level_supported(), "{level}");
    }
    for level in ["Info", "verbose", "", "Tracing"] {
        assert!(!cli(level).log_level_supported(), "{level}");
    }
    assert_eq!(cli("tracing").log_filter_level(), "trace");
    assert_eq!(cli("TRACING").log_filter_level(), "trace");
    assert_eq!(cli("debug").log_filter_level(), "debug");
}

#[test]
fn app_keeps_its_parameters() {
    let app = App::new(2, 5, 17, 100);
    assert_eq!(app.meme_limit(), 2);
    assert_eq!(app.connect_timeout_secs(), 5);
    assert_eq!(app.timeout_secs(), 17);
    assert_eq!(app.concurrent_connections(), 100);
    assert_eq!(App::default(), App::new(0, 0, 0, 0));
    assert_eq!(AppCommand::default(), AppCommand::Help);
    let w = MsgWrapper::new(3, -4);
    assert_eq!((w.msg_id, w.chat_id), (3, -4));
}

#[test]
fn decimal_writes_numbers() {
    assert_eq!(decimal(0), "0");
    assert_eq!(decimal(7), "7");
    assert_eq!(decimal(1234), "1234");
    assert_eq!(decimal(u64::MAX), u64::MAX.to_string());
}

#[test]
fn string_helpers() {
    assert!(str_equal("привет", "привет"));
    assert!(!str_equal("ab", "abc"));
    assert!(ends_with("a.pdf", ".pdf"));
    assert!(!ends_with("pdf", ".pdf"));
    assert_eq!(find_char("a b c", ' '), Some(1));
    assert_eq!(find_char("abc", ' '), None);
}

#[test]
fn saved_config_is_kept_at_startup() {
    let saved = Config::from_parts(vec!["a".to_string()], 9, vec![4], vec![-2]);
    let c = Config::loaded_or_default(Some(saved), "root".to_string(), 5);
    assert_eq!(c.admins(), &vec!["a".to_string()]);
    assert_eq!(c.meme_limit(), 9);
    assert_eq!(c.forward_subscribers(), &vec![4]);
    assert_eq!(c.queue_subscribers(), &vec![-2]);
}

#[test]
fn missing_config_starts_from_the_default_with_the_given_limit() {
    let c = Config::loaded_or_default(None, "root".to_string(), 5);
    assert_eq!(c.admins(), &vec!["root".to_string()]);
    assert_eq!(c.meme_limit(), 5);
    assert!(c.forward_subscribers().is_empty());
    assert!(c.queue_subscribers().is_empty());
}
