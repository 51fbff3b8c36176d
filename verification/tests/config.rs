use oxide_chat::config::{parse_cli_args, parse_cli_args_at, room_ws_url, CliError, UrlError};

fn args(list: &[&str]) -> Vec<String> {
    list.iter().map(|s| s.to_string()).collect()
}

#[test]
fn room_url_joins_base_and_room() {
    assert_eq!(
        room_ws_url("ws://127.0.0.1:8787", "general").unwrap(),
        "ws://127.0.0.1:8787/room/general"
    );
    assert_eq!(
        room_ws_url("  wss://chat.example.com//  ", "  lobby ").unwrap(),
        "wss://chat.example.com/room/lobby"
    );
}

#[test]
fn room_url_needs_websocket_scheme() {
    assert_eq!(room_ws_url("http://example.com", "general"), Err(UrlError::BadScheme));
    assert_eq!(room_ws_url("example.com", "general"), Err(UrlError::BadScheme));
    assert_eq!(
        UrlError::BadScheme.message(),
        "websocket base URL must start with ws:// or wss://"
    );
}

#[test]
fn room_url_must_parse() {
    assert_eq!(room_ws_url("ws://exa mple.com", "general"), Err(UrlError::InvalidUrl));
    assert_eq!(UrlError::InvalidUrl.message(), "invalid websocket URL");
}

#[test]
fn cli_reads_flags_and_positionals() {
    let c = parse_cli_args_at(
        &args(&["--username", " alice ", "--avatar-url", "https://a/b.png", "ws://h:1", "room1"]),
        None,
        None,
        None,
        5,
    )
    .unwrap();
    assert_eq!(c.ws_base, "ws://h:1");
    assert_eq!(c.room_id, "room1");
    assert_eq!(c.sender_id, "alice");
    assert_eq!(c.avatar_url.as_deref(), Some("https://a/b.png"));
}

#[test]
fn cli_defaults_room_and_name() {
    let c = parse_cli_args_at(&args(&["wss://chat.example.com"]), None, None, None, 1700000000123)
        .unwrap();
    assert_eq!(c.room_id, "general");
    assert_eq!(c.sender_id, "cli-1700000000123");
    assert_eq!(c.avatar_url, None);
}

#[test]
fn cli_falls_back_on_environment() {
    let c = parse_cli_args_at(
        &args(&["-u", "bob"]),
        Some("ws://env:1".to_string()),
        Some("ignored".to_string()),
        Some("  https://env/avatar.gif ".to_string()),
        0,
    )
    .unwrap();
    assert_eq!(c.ws_base, "ws://env:1");
    assert_eq!(c.sender_id, "bob");
    assert_eq!(c.avatar_url.as_deref(), Some("https://env/avatar.gif"));

    let c = parse_cli_args_at(
        &args(&["ws://h"]),
        None,
        Some("  carol ".to_string()),
        Some("   ".to_string()),
        0,
    )
    .unwrap();
    assert_eq!(c.sender_id, "carol");
    assert_eq!(c.avatar_url, None);

    let c = parse_cli_args_at(&args(&["ws://h"]), None, Some(" ".to_string()), None, -3).unwrap();
    assert_eq!(c.sender_id, "cli--3");
}

#[test]
fn cli_errors_come_in_order() {
    let e = |a: &[&str]| parse_cli_args_at(&args(a), None, None, None, 0).unwrap_err();
    assert!(matches!(e(&["--username"]), CliError::MissingUsernameValue));
    assert!(matches!(e(&["-u", "   "]), CliError::EmptyUsername));
    assert!(matches!(e(&["--avatar-url"]), CliError::MissingAvatarValue));
    assert!(matches!(e(&["--avatar-url", ""]), CliError::EmptyAvatarUrl));
    assert!(matches!(e(&["ws://h", "--verbose"]), CliError::UnknownFlag(f) if f == "--verbose"));
    assert!(matches!(e(&["a", "b", "c"]), CliError::TooManyPositional));
    assert!(matches!(e(&[]), CliError::MissingWsBase));
    assert!(matches!(e(&["--bogus", "a", "b", "c"]), CliError::UnknownFlag(_)));
    assert!(matches!(e(&["a", "b", "c", "--bogus"]), CliError::UnknownFlag(_)));
}

#[test]
fn cli_error_messages() {
    assert_eq!(CliError::UnknownFlag("-x".to_string()).message(), "unknown flag: -x");
    assert_eq!(CliError::EmptyUsername.message(), "username cannot be empty");
    assert_eq!(
        CliError::MissingWsBase.message(),
        "missing websocket base URL; pass <ws-base-url> or set OXIDE_WS_BASE"
    );
}

#[test]
fn cli_with_clock_names_unnamed_clients() {
    let c = parse_cli_args(&args(&["ws://h"]), None, None, None).unwrap();
    assert!(c.sender_id.starts_with("cli-"));
    assert!(c.sender_id[4..].parse::<i64>().is_ok());
}
