use chat_server::input::{parse_ipv4, IpAddress, ServerUserInput, UserInput, UserInputError};

#[test]
fn test_quit_command() {
    let input = ServerUserInput::try_from("/quit");
    assert!(input.is_ok());
    assert!(matches!(input.unwrap(), ServerUserInput::Quit));
}

#[test]
fn test_quit_short_command() {
    let input = ServerUserInput::try_from("/q");
    assert!(input.is_ok());
    assert!(matches!(input.unwrap(), ServerUserInput::Quit));
}

#[test]
fn test_help_command() {
    let input = ServerUserInput::try_from("/help");
    assert!(input.is_ok());
    assert!(matches!(input.unwrap(), ServerUserInput::Help));
}

#[test]
fn test_list_command() {
    let input = ServerUserInput::try_from("/list");
    assert!(input.is_ok());
    assert!(matches!(input.unwrap(), ServerUserInput::ListUsers));
}

#[test]
fn test_invalid_command() {
    let input = ServerUserInput::try_from("/unknown");
    assert!(input.is_err());
    assert!(matches!(input.unwrap_err(), UserInputError::InvalidCommand));
}

#[test]
fn test_whitespace_trimming() {
    let input = ServerUserInput::try_from("  /help  ");
    assert!(input.is_ok());
    assert!(matches!(input.unwrap(), ServerUserInput::Help));
}

#[test]
fn test_kick_command() {
    let input = ServerUserInput::try_from("/kick Alice");
    assert!(input.is_ok());
    match input.unwrap() {
        ServerUserInput::Kick(username) => assert_eq!(username, "Alice"),
        _ => panic!("Expected Kick variant"),
    }
}

#[test]
fn test_kick_command_with_whitespace() {
    let input = ServerUserInput::try_from("/kick   Bob  ");
    assert!(input.is_ok());
    match input.unwrap() {
        ServerUserInput::Kick(username) => assert_eq!(username, "Bob"),
        _ => panic!("Expected Kick variant"),
    }
}

#[test]
fn test_kick_command_no_username() {
    let input = ServerUserInput::try_from("/kick");
    assert!(input.is_err());
}

#[test]
fn test_kick_command_empty_username() {
    let input = ServerUserInput::try_from("/kick   ");
    assert!(input.is_err());
}

#[test]
fn test_rename_command() {
    match ServerUserInput::try_from("/rename alice carol").unwrap() {
        ServerUserInput::Rename { old_name, new_name } => {
            assert_eq!(old_name, "alice");
            assert_eq!(new_name, "carol");
        }
        _ => panic!("Expected Rename variant"),
    }
}

#[test]
fn test_rename_command_wrong_arity() {
    assert!(ServerUserInput::try_from("/rename alice").is_err());
    assert!(ServerUserInput::try_from("/rename a b c").is_err());
    assert!(ServerUserInput::try_from("/rename").is_err());
}

#[test]
fn test_ban_by_name_and_by_ip() {
    match ServerUserInput::try_from("/ban mallory").unwrap() {
        ServerUserInput::Ban(name) => assert_eq!(name, "mallory"),
        _ => panic!("Expected Ban variant"),
    }
    match ServerUserInput::try_from("/ban 10.0.0.7").unwrap() {
        ServerUserInput::BanIp(ip) => {
            assert_eq!(ip, IpAddress { a: 10, b: 0, c: 0, d: 7 });
        }
        _ => panic!("Expected BanIp variant"),
    }
    assert!(ServerUserInput::try_from("/ban").is_err());
}

#[test]
fn test_unban_command() {
    match ServerUserInput::try_from("/unban 192.168.1.1").unwrap() {
        ServerUserInput::Unban(ip) => {
            assert_eq!(ip, IpAddress { a: 192, b: 168, c: 1, d: 1 });
        }
        _ => panic!("Expected Unban variant"),
    }
    assert!(ServerUserInput::try_from("/unban mallory").is_err());
    assert!(ServerUserInput::try_from("/unban").is_err());
}

#[test]
fn test_banlist_command() {
    assert!(matches!(
        ServerUserInput::try_from("/banlist").unwrap(),
        ServerUserInput::BanList
    ));
}

#[test]
fn test_empty_input_is_no_command() {
    assert!(ServerUserInput::try_from("").is_err());
    assert!(ServerUserInput::try_from("   ").is_err());
    assert!(ServerUserInput::try_from("hello there").is_err());
}

#[test]
fn test_parse_ipv4_accepts_dotted_quads() {
    assert_eq!(
        parse_ipv4("1.2.3.4"),
        Some(IpAddress { a: 1, b: 2, c: 3, d: 4 })
    );
    assert_eq!(
        parse_ipv4("255.255.255.255"),
        Some(IpAddress { a: 255, b: 255, c: 255, d: 255 })
    );
    assert_eq!(
        parse_ipv4("0.0.0.0"),
        Some(IpAddress { a: 0, b: 0, c: 0, d: 0 })
    );
}

#[test]
fn test_parse_ipv4_rejects_malformed_addresses() {
    assert_eq!(parse_ipv4("256.1.1.1"), None);
    assert_eq!(parse_ipv4("01.2.3.4"), None);
    assert_eq!(parse_ipv4("1.2.3"), None);
    assert_eq!(parse_ipv4("1.2.3.4.5"), None);
    assert_eq!(parse_ipv4("1.2.3.4 "), None);
    assert_eq!(parse_ipv4("a.b.c.d"), None);
    assert_eq!(parse_ipv4(""), None);
}

#[test]
fn test_client_prompt_lines() {
    assert!(matches!(UserInput::from_line("/quit"), UserInput::Quit));
    assert!(matches!(UserInput::from_line(" /help "), UserInput::Help));
    match UserInput::from_line("  hello world  ") {
        UserInput::Message(m) => assert_eq!(m, "hello world"),
        _ => panic!("Expected Message variant"),
    }
}
