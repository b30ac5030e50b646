use dpkg_rs::archive::ArchiveIndex;
use dpkg_rs::parser::layout::{channel_progress, found_message, ChannelLayout};
use dpkg_rs::parser::Parser;
use std::sync::atomic::AtomicBool;
use std::sync::Arc;

fn names(list: &[&str]) -> Vec<String> {
    list.iter().map(|s| s.to_string()).collect()
}

#[test]
fn index_finds_members_by_name() {
    let index = ArchiveIndex::build(names(&["a", "b/c", "a", "d"]));
    assert_eq!(index.len(), 4);
    assert!(index.has("a"));
    assert!(index.has("b/c"));
    assert!(!index.has("b"));
    assert!(!index.has(""));
    assert_eq!(index.locate("a"), Some(2));
    assert_eq!(index.locate("b/c"), Some(1));
    assert_eq!(index.locate("d"), Some(3));
    assert_eq!(index.locate("e"), None);
    assert_eq!(index.names(), &names(&["a", "b/c", "a", "d"]));
    let empty = ArchiveIndex::new();
    assert_eq!(empty.len(), 0);
    assert!(!empty.has("a"));
}

#[test]
fn parser_indexes_members() {
    let token = Arc::new(AtomicBool::new(false));
    let mut parser = Parser::new(&token);
    assert!(!parser.file_exists("x/user.json"));
    parser.index_members(names(&["x/user.json", "x/y"]));
    assert!(parser.file_exists("x/user.json"));
    assert!(parser.file_exists("x/y"));
    assert!(!parser.file_exists("x"));
}

#[test]
fn channel_ids_are_scanned_in_archive_order() {
    let token = Arc::new(AtomicBool::new(false));
    let parser = Parser::new(&token);
    let members = names(&[
        "pkg/messages/",
        "pkg/messages/c2222222222222222/",
        "pkg/messages/c2222222222222222/channel.json",
        "pkg/messages/1111111111111111/",
        "pkg/messages/c333/",
        "pkg/messages/nested/c4444444444444444/",
        "pkg/messagesc5555555555555555/",
        "other/c6666666666666666/",
        "pkg/messages/c7777777777777777777/",
        "pkg/messages/c8888888888888888",
        "pkg/messages/d9999999999999999/",
    ]);
    let ids = parser.scan_channel_ids(&members, "pkg/messages").unwrap();
    assert_eq!(ids, vec!["2222222222222222", "1111111111111111", "7777777777777777777"]);
    assert!(parser.scan_channel_ids(&members, "pkg").unwrap().is_empty());
    assert_eq!(parser.scan_channel_ids(&members, "other").unwrap(), vec!["6666666666666666"]);
}

#[test]
fn layout_is_detected_from_the_members() {
    let token = Arc::new(AtomicBool::new(false));
    let mut parser = Parser::new(&token);
    let ids = names(&["1111111111111111", "2222222222222222"]);

    parser.index_members(names(&[
        "m/c1111111111111111/channel.json",
        "m/c1111111111111111/messages.json",
        "m/c2222222222222222/channel.json",
    ]));
    assert_eq!(parser.detect_package_format("m", &ids), (false, false));

    parser.index_members(names(&[
        "m/c1111111111111111/channel.json",
        "m/c1111111111111111/messages.csv",
    ]));
    assert_eq!(parser.detect_package_format("m", &ids), (false, true));

    parser.index_members(names(&[
        "m/2222222222222222/channel.json",
        "m/2222222222222222/messages.csv",
    ]));
    assert_eq!(parser.detect_package_format("m", &ids), (true, true));

    parser.index_members(names(&[
        "m/1111111111111111/channel.json",
        "m/c2222222222222222/messages.json",
    ]));
    assert_eq!(parser.detect_package_format("m", &ids), (true, false));
    assert_eq!(parser.detect_package_format("m", &Vec::new()), (false, true));
}

#[test]
fn plan_lists_paths_and_progress() {
    let token = Arc::new(AtomicBool::new(false));
    let mut parser = Parser::new(&token);
    let mut members = Vec::new();
    for i in 0..45u32 {
        let id = format!("10000000000000{:02}", i);
        members.push(format!("pkg/messages/c{}/", id));
        members.push(format!("pkg/messages/c{}/channel.json", id));
        members.push(format!("pkg/messages/c{}/messages.json", id));
    }
    parser.index_members(members);
    let plan = parser.plan_channels("pkg/messages").unwrap();
    assert!(matches!(plan.layout, ChannelLayout::PrefixedJson));
    assert_eq!(plan.announcement, "Found 45 channels to process");
    assert_eq!(plan.requests.len(), 45);
    assert_eq!(plan.requests[0].id, "1000000000000000");
    assert_eq!(plan.requests[0].metadata_path, "pkg/messages/c1000000000000000/channel.json");
    assert_eq!(plan.requests[0].messages_path, "pkg/messages/c1000000000000000/messages.json");
    assert_eq!(
        plan.requests[0].progress.as_deref(),
        Some("Processing channel 1 of 45 (ID: 1000000000000000)")
    );
    assert_eq!(plan.requests[1].progress, None);
    assert_eq!(plan.requests[19].progress, None);
    assert_eq!(
        plan.requests[20].progress.as_deref(),
        Some("Processing channel 21 of 45 (ID: 1000000000000020)")
    );
    assert_eq!(
        plan.requests[40].progress.as_deref(),
        Some("Processing channel 41 of 45 (ID: 1000000000000040)")
    );
    let with_progress = plan.requests.iter().filter(|r| r.progress.is_some()).count();
    assert_eq!(with_progress, 3);
}

#[test]
fn plan_for_a_legacy_archive() {
    let token = Arc::new(AtomicBool::new(false));
    let mut parser = Parser::new(&token);
    parser.index_members(names(&[
        "messages/1234567890123456/",
        "messages/1234567890123456/channel.json",
        "messages/1234567890123456/messages.csv",
    ]));
    let plan = parser.plan_channels("messages").unwrap();
    assert!(matches!(plan.layout, ChannelLayout::BareTabular));
    assert_eq!(plan.announcement, "Found 1 channels to process");
    assert_eq!(plan.requests[0].metadata_path, "messages/1234567890123456/channel.json");
    assert_eq!(plan.requests[0].messages_path, "messages/1234567890123456/messages.csv");
}

#[test]
fn plan_of_an_archive_without_channels() {
    let token = Arc::new(AtomicBool::new(false));
    let mut parser = Parser::new(&token);
    parser.index_members(names(&["messages/index.json"]));
    let plan = parser.plan_channels("messages").unwrap();
    assert_eq!(plan.announcement, "Found 0 channels to process");
    assert!(plan.requests.is_empty());
}

#[test]
fn progress_is_due_at_every_twentieth_channel() {
    assert_eq!(found_message(0), "Found 0 channels to process");
    assert_eq!(found_message(1234), "Found 1234 channels to process");
    assert_eq!(channel_progress(0, 1, "7"), Some("Processing channel 1 of 1 (ID: 7)".to_string()));
    assert_eq!(channel_progress(1, 100, "7"), None);
    assert_eq!(channel_progress(39, 100, "7"), None);
    assert_eq!(
        channel_progress(40, 100, "x"),
        Some("Processing channel 41 of 100 (ID: x)".to_string())
    );
}
