use dpkg_rs::error::ParseError;
use dpkg_rs::models::DMessage;
use dpkg_rs::parser::Parser;
use std::sync::atomic::AtomicBool;
use std::sync::Arc;

fn record(id: u64, contents: &str, attachments: &str) -> DMessage {
    DMessage {
        id,
        timestamp: "2024-01-01 00:00:00".to_string(),
        contents: contents.to_string(),
        attachments: attachments.to_string(),
    }
}

#[test]
fn message_fields_are_derived_from_the_record() {
    let message = Parser::to_message(record(42, "Héllo  wörld again", "a.png b.png"));
    assert_eq!(message.id, 42);
    assert_eq!(message.timestamp, "2024-01-01 00:00:00");
    assert_eq!(message.content, "Héllo  wörld again");
    assert_eq!(message.length, 20);
    assert_eq!(message.words, vec!["Héllo", "wörld", "again"]);
    assert_eq!(message.attachments, vec!["a.png", "b.png"]);
}

#[test]
fn empty_attachment_list_is_a_single_empty_entry() {
    let message = Parser::to_message(record(1, "x", ""));
    assert_eq!(message.attachments, vec![""]);
    assert_eq!(message.length, 1);
}

#[test]
fn tabular_rows_without_content_are_skipped() {
    let token = Arc::new(AtomicBool::new(false));
    let parser = Parser::new(&token);
    let rows = vec![record(1, "first", ""), record(2, "", "file.png"), record(3, " ", ""), record(4, "last", "")];
    let messages = parser.parse_csv(rows).unwrap();
    let ids: Vec<u64> = messages.iter().map(|m| m.id).collect();
    assert_eq!(ids, vec![1, 3, 4]);
    assert!(messages[1].words.is_empty());
}

#[test]
fn json_messages_prefer_the_array() {
    let array = Ok(vec![record(1, "a", ""), record(2, "", "")]);
    let single = Ok(record(9, "z", ""));
    let messages = Parser::parse_json_messages(array, single).unwrap();
    let ids: Vec<u64> = messages.iter().map(|m| m.id).collect();
    assert_eq!(ids, vec![1, 2]);
}

#[test]
fn json_messages_fall_back_to_a_single_object() {
    let array = Err(ParseError::BothFailed { fast: "f".to_string(), strict: "s".to_string() });
    let single = Ok(record(9, "only one", ""));
    let messages = Parser::parse_json_messages(array, single).unwrap();
    assert_eq!(messages.len(), 1);
    assert_eq!(messages[0].id, 9);
    assert_eq!(messages[0].words, vec!["only", "one"]);
}

#[test]
fn json_messages_fail_with_the_error_of_the_single_object() {
    let array = Err(ParseError::Empty);
    let single = Err(ParseError::BothFailed { fast: "f2".to_string(), strict: "s2".to_string() });
    match Parser::parse_json_messages(array, single) {
        Err(ParseError::BothFailed { fast, strict }) => {
            assert_eq!(fast, "f2");
            assert_eq!(strict, "s2");
        }
        _ => panic!("expected the error of the single object"),
    }
}

#[test]
fn empty_array_gives_no_messages() {
    let messages = Parser::parse_json_messages(Ok(Vec::new()), Err(ParseError::Empty)).unwrap();
    assert!(messages.is_empty());
}
