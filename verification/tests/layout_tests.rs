use dpkg_rs::error::{Area, ExtractError, ParseError};
use dpkg_rs::parser::pipeline::Layout;
use dpkg_rs::parser::Parser;

fn names(list: &[&str]) -> Vec<String> {
    list.iter().map(|s| s.to_string()).collect()
}

fn current_layout() -> Vec<String> {
    names(&[
        "package/README.txt",
        "package/account/user.json",
        "package/account/avatar.png",
        "package/messages/index.json",
        "package/messages/c111111111111111111/",
        "package/messages/c111111111111111111/channel.json",
        "package/messages/c111111111111111111/messages.json",
        "package/servers/index.json",
        "package/servers/222222222222222222/guild.json",
        "package/activity/analytics/events-2024-00000-of-00001.json",
    ])
}

#[test]
fn roots_of_a_nested_archive() {
    let files = current_layout();
    assert_eq!(Parser::get_messages_root(&files).unwrap(), "package/messages");
    assert_eq!(Parser::get_servers_root(&files).unwrap(), "package/servers");
    assert_eq!(
        Parser::get_analytics_root(&files).unwrap(),
        "package/activity/analytics/events-2024-00000-of-00001.json"
    );
}

#[test]
fn user_root_must_be_top_level() {
    let nested = current_layout();
    assert!(matches!(
        Parser::get_user_root(&nested),
        Err(ExtractError::MissingLayout(Area::User))
    ));
    let flat = names(&["account/user.json"]);
    assert_eq!(Parser::get_user_root(&flat).unwrap(), "account");
}

#[test]
fn roots_of_a_flat_archive() {
    let files = names(&[
        "account/user.json",
        "messages/1234567890123456/channel.json",
        "servers/12345678901234567890/guild.json",
    ]);
    let layout: Layout = Parser::resolve_layout(&files).unwrap();
    assert_eq!(layout.messages_root, "messages");
    assert_eq!(layout.servers_root, "servers");
    assert_eq!(layout.user_root, "account");
}

#[test]
fn first_matching_member_decides_the_root() {
    let files = names(&[
        "b/messages/c1234567890123456/channel.json",
        "a/messages/c1234567890123456/channel.json",
    ]);
    assert_eq!(Parser::get_messages_root(&files).unwrap(), "b/messages");
}

#[test]
fn channel_directories_need_sixteen_to_thirty_two_digits() {
    let short = names(&["messages/c123456789012345/channel.json"]);
    assert!(matches!(
        Parser::get_messages_root(&short),
        Err(ExtractError::MissingLayout(Area::Messages))
    ));
    let exact = names(&["messages/c1234567890123456/channel.json"]);
    assert_eq!(Parser::get_messages_root(&exact).unwrap(), "messages");
    let long = names(&["messages/c123456789012345678901234567890123/channel.json"]);
    assert!(matches!(
        Parser::get_messages_root(&long),
        Err(ExtractError::MissingLayout(Area::Messages))
    ));
    let prefixed_guild = names(&["servers/c1234567890123456/guild.json"]);
    assert!(matches!(
        Parser::get_servers_root(&prefixed_guild),
        Err(ExtractError::MissingLayout(Area::Servers))
    ));
}

#[test]
fn missing_roots_are_named_in_order() {
    let none = names(&["readme.txt"]);
    assert!(matches!(
        Parser::resolve_layout(&none),
        Err(ExtractError::MissingLayout(Area::Messages))
    ));
    let only_messages = names(&["messages/c1234567890123456/channel.json"]);
    assert!(matches!(
        Parser::resolve_layout(&only_messages),
        Err(ExtractError::MissingLayout(Area::Servers))
    ));
    let no_user = names(&[
        "messages/c1234567890123456/channel.json",
        "servers/1234567890123456/guild.json",
    ]);
    assert!(matches!(
        Parser::resolve_layout(&no_user),
        Err(ExtractError::MissingLayout(Area::User))
    ));
    assert!(matches!(
        Parser::get_analytics_root(&none),
        Err(ExtractError::MissingLayout(Area::Analytics))
    ));
}

#[test]
fn analytics_log_name_is_matched_exactly() {
    let wrong = names(&["activity/analytics/events-2024-0000-of-00001.json"]);
    assert!(Parser::get_analytics_root(&wrong).is_err());
    let tail = names(&["activity/analytics/events-2024-00000-of-00001.json.bak"]);
    assert!(Parser::get_analytics_root(&tail).is_err());
}

#[test]
fn error_texts() {
    assert_eq!(
        ExtractError::MissingLayout(Area::Messages).message(),
        "Could not find Messages folder structure"
    );
    assert_eq!(
        ExtractError::MissingLayout(Area::Servers).message(),
        "Could not find Servers folder structure"
    );
    assert_eq!(
        ExtractError::MissingLayout(Area::User).message(),
        "Could not find User folder structure"
    );
    assert_eq!(ExtractError::Cancelled.message(), "Processing cancelled");
    assert_eq!(ExtractError::Io("disk".to_string()).message(), "disk");
    assert!(ExtractError::Cancelled.cancelled());
    assert!(!ExtractError::Pattern.cancelled());
    assert!(!ExtractError::Overflow.cancelled());
    assert_eq!(ParseError::Empty.message(), "Empty JSON content");
    assert_eq!(
        ParseError::InvalidFormat.message(),
        "Invalid JSON format - doesn't start with { or ["
    );
    let both = ParseError::BothFailed { fast: "f".to_string(), strict: "s".to_string() };
    assert_eq!(both.message(), "Both JSON parsers failed. simd_json: f; serde_json: s");
}

#[test]
fn read_file_cleans_content() {
    assert_eq!(Parser::read_file("\u{FEFF} {\"id\":\"1\"} \n"), Some("{\"id\":\"1\"}".to_string()));
    assert_eq!(Parser::read_file(""), None);
    assert_eq!(Parser::read_file("\u{FEFF}   "), None);
}

#[test]
fn json_framing() {
    assert!(Parser::check_json_framing("{}").is_ok());
    assert!(Parser::check_json_framing("  [1]").is_ok());
    assert!(matches!(Parser::check_json_framing(""), Err(ParseError::Empty)));
    assert!(matches!(Parser::check_json_framing(" \n "), Err(ParseError::Empty)));
    assert!(matches!(Parser::check_json_framing("x{}"), Err(ParseError::InvalidFormat)));
    assert!(matches!(Parser::check_json_framing("\"text\""), Err(ParseError::InvalidFormat)));
}

#[test]
fn parse_json_prefers_the_fast_decoder() {
    let r = Parser::parse_json::<u8>("{}", Ok(1), Ok(2));
    assert!(matches!(r, Ok(1)));
    let r = Parser::parse_json::<u8>("{}", Ok(1), Err("strict".to_string()));
    assert!(matches!(r, Ok(1)));
}

#[test]
fn parse_json_falls_back_to_the_strict_decoder() {
    let r = Parser::parse_json::<u8>("[]", Err("fast".to_string()), Ok(2));
    assert!(matches!(r, Ok(2)));
}

#[test]
fn parse_json_reports_both_diagnostics() {
    let r = Parser::parse_json::<u8>("[]", Err("fast".to_string()), Err("strict".to_string()));
    match r {
        Err(ParseError::BothFailed { fast, strict }) => {
            assert_eq!(fast, "fast");
            assert_eq!(strict, "strict");
        }
        _ => panic!("expected both diagnostics"),
    }
}

#[test]
fn parse_json_rejects_unframed_content_whatever_the_decoders_say() {
    let r = Parser::parse_json::<u8>("  ", Ok(1), Ok(2));
    assert!(matches!(r, Err(ParseError::Empty)));
    let r = Parser::parse_json::<u8>("12", Ok(1), Ok(2));
    assert!(matches!(r, Err(ParseError::InvalidFormat)));
}

#[test]
fn process_words_splits_on_whitespace() {
    assert_eq!(Parser::process_words("a  b\nc"), vec!["a", "b", "c"]);
}
