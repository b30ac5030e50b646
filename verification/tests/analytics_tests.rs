use dpkg_rs::error::ExtractError;
use dpkg_rs::models::{DApplicationCommandUsed, Event, EventCount, EventKind, MostUsedCommand};
use dpkg_rs::parser::analytics::{AnalyticsRun, EventRecord};
use dpkg_rs::parser::Parser;
use dpkg_rs::resources::plan_resources;
use std::sync::atomic::{AtomicBool, Ordering};
use std::sync::Arc;

fn event(event_type: &str) -> Option<EventRecord> {
    Some(EventRecord { event: Event { event_type: event_type.to_string() }, command: None })
}

fn command(id: &str, application: &str, name: Option<&str>, description: Option<&str>) -> Option<EventRecord> {
    Some(EventRecord {
        event: Event { event_type: "application_command_used".to_string() },
        command: Some(DApplicationCommandUsed {
            application_id: application.to_string(),
            command_id: id.to_string(),
            command_name: name.map(|s| s.to_string()),
            command_description: description.map(|s| s.to_string()),
        }),
    })
}

fn named_counters(counts: &EventCount) -> Vec<u32> {
    vec![
        counts.application_created,
        counts.bot_token_compromised,
        counts.email_opened,
        counts.login_successful,
        counts.user_avatar_updated,
        counts.app_opened,
        counts.notification_clicked,
        counts.app_crashed,
        counts.app_native_crash,
        counts.oauth2_authorize_accepted,
        counts.remote_auth_login,
        counts.captcha_served,
        counts.voice_message_recorded,
        counts.message_reported,
        counts.message_edited,
        counts.premium_upsell_viewed,
        counts.application_command_used,
        counts.add_reaction,
        counts.guild_joined,
        counts.join_voice_channel,
        counts.leave_voice_channel,
    ]
}

#[test]
fn three_lines_of_which_one_is_unknown() {
    let token = Arc::new(AtomicBool::new(false));
    let parser = Parser::new(&token);
    let lines = vec![event("app_opened"), event("app_opened"), event("unknown_x")];
    let (counts, _) = parser.analytics_handler(lines, 1000).unwrap();
    assert_eq!(counts.all_events, 3);
    assert_eq!(counts.app_opened, 2);
    let named: u32 = named_counters(&counts).iter().sum();
    assert_eq!(named, 2);
    assert!(counts.most_used_commands.is_empty());
}

#[test]
fn lines_that_did_not_decode_count_nowhere() {
    let token = Arc::new(AtomicBool::new(false));
    let parser = Parser::new(&token);
    let lines = vec![None, event("guild_joined"), None, None, event("add_reaction")];
    let (counts, messages) = parser.analytics_handler(lines, 1000).unwrap();
    assert_eq!(counts.all_events, 2);
    assert_eq!(counts.guild_joined, 1);
    assert_eq!(counts.add_reaction, 1);
    assert_eq!(
        messages,
        vec!["Processing analytics in batches...", "Analytics processing complete: 5 lines processed"]
    );
}

#[test]
fn every_vocabulary_entry_has_its_counter() {
    let vocabulary = [
        "application_created",
        "bot_token_compromised",
        "email_opened",
        "login_successful",
        "user_avatar_updated",
        "app_opened",
        "notification_clicked",
        "app_crashed",
        "app_native_crash",
        "oauth2_authorize_accepted",
        "remote_auth_login",
        "captcha_served",
        "voice_message_recorded",
        "message_reported",
        "message_edited",
        "premium_upsell_viewed",
        "application_command_used",
        "add_reaction",
        "guild_joined",
        "join_voice_channel",
        "leave_voice_channel",
    ];
    for (position, name) in vocabulary.iter().enumerate() {
        let mut counts = EventCount::new();
        Parser::count_line(&mut counts, event(name));
        let named = named_counters(&counts);
        for (other, value) in named.iter().enumerate() {
            assert_eq!(*value, if other == position { 1 } else { 0 }, "{}", name);
        }
        assert_eq!(counts.all_events, 1);
        let kind = EventKind::classify(name).unwrap();
        assert_eq!(counts.count_of(kind), 1);
    }
    assert!(EventKind::classify("App_opened").is_none());
    assert!(EventKind::classify("app_opened ").is_none());
    assert!(EventKind::classify("").is_none());
}

#[test]
fn commands_are_merged_and_backfilled() {
    let mut counts = EventCount::new();
    Parser::count_line(&mut counts, command("c1", "app1", None, None));
    Parser::count_line(&mut counts, command("c2", "app2", Some("two"), None));
    Parser::count_line(&mut counts, command("c1", "other", Some("first name"), None));
    Parser::count_line(&mut counts, command("c1", "app1", Some("second name"), Some("described")));
    Parser::count_line(&mut counts, command("c1", "app1", None, Some("described again")));
    assert_eq!(counts.all_events, 5);
    assert_eq!(counts.application_command_used, 5);
    assert_eq!(counts.most_used_commands.len(), 2);
    let first = &counts.most_used_commands[0];
    assert_eq!(first.command_id, "c1");
    assert_eq!(first.application_id, "app1");
    assert_eq!(first.command_name.as_deref(), Some("first name"));
    assert_eq!(first.command_description.as_deref(), Some("described"));
    assert_eq!(first.count, 4);
    let second = &counts.most_used_commands[1];
    assert_eq!(second.command_id, "c2");
    assert_eq!(second.command_name.as_deref(), Some("two"));
    assert_eq!(second.command_description, None);
    assert_eq!(second.count, 1);
}

#[test]
fn command_event_without_details_counts_but_merges_nothing() {
    let mut counts = EventCount::new();
    Parser::count_line(&mut counts, event("application_command_used"));
    assert_eq!(counts.all_events, 1);
    assert_eq!(counts.application_command_used, 1);
    assert!(counts.most_used_commands.is_empty());
}

#[test]
fn details_on_another_kind_of_event_are_ignored() {
    let mut counts = EventCount::new();
    let mut line = command("c1", "a", None, None).unwrap();
    line.event.event_type = "app_opened".to_string();
    Parser::count_line(&mut counts, Some(line));
    assert_eq!(counts.app_opened, 1);
    assert_eq!(counts.application_command_used, 0);
    assert!(counts.most_used_commands.is_empty());
}

#[test]
fn merge_command_counts_uses() {
    let mut commands: Vec<MostUsedCommand> = Vec::new();
    let used = |id: &str| DApplicationCommandUsed {
        application_id: "a".to_string(),
        command_id: id.to_string(),
        command_name: None,
        command_description: None,
    };
    Parser::merge_command(&mut commands, used("x"));
    Parser::merge_command(&mut commands, used("y"));
    Parser::merge_command(&mut commands, used("x"));
    let counts: Vec<(&str, u32)> = commands.iter().map(|c| (c.command_id.as_str(), c.count)).collect();
    assert_eq!(counts, vec![("x", 2), ("y", 1)]);
}

#[test]
fn command_ranking_keeps_the_twenty_most_used() {
    let token = Arc::new(AtomicBool::new(false));
    let parser = Parser::new(&token);
    let mut lines = Vec::new();
    for i in 0..25u32 {
        for _ in 0..(i % 6 + 1) {
            lines.push(command(&format!("c{}", i), "a", None, None));
        }
    }
    let (counts, _) = parser.analytics_handler(lines, 7).unwrap();
    assert_eq!(counts.most_used_commands.len(), 20);
    for pair in counts.most_used_commands.windows(2) {
        assert!(pair[0].count >= pair[1].count);
    }
    let head: Vec<&str> =
        counts.most_used_commands.iter().take(6).map(|c| c.command_id.as_str()).collect();
    assert_eq!(head, vec!["c5", "c11", "c17", "c23", "c4", "c10"]);
    let tail = &counts.most_used_commands[19];
    assert_eq!(tail.command_id, "c19");
    assert_eq!(tail.count, 2);
}

#[test]
fn progress_is_due_at_every_tenth_batch() {
    let token = Arc::new(AtomicBool::new(false));
    let parser = Parser::new(&token);
    let lines: Vec<Option<EventRecord>> = (0..205).map(|_| event("app_opened")).collect();
    let (counts, messages) = parser.analytics_handler(lines, 10).unwrap();
    assert_eq!(counts.all_events, 205);
    assert_eq!(counts.app_opened, 205);
    assert_eq!(
        messages,
        vec![
            "Processing analytics in batches...",
            "Processing batch 10 (100 lines processed so far)",
            "Processing batch 20 (200 lines processed so far)",
            "Analytics processing complete: 205 lines processed",
        ]
    );
}

#[test]
fn a_log_that_fills_its_batches_exactly() {
    let token = Arc::new(AtomicBool::new(false));
    let parser = Parser::new(&token);
    let lines: Vec<Option<EventRecord>> = (0..30).map(|_| event("email_opened")).collect();
    let (counts, messages) = parser.analytics_handler(lines, 3).unwrap();
    assert_eq!(counts.all_events, 30);
    assert_eq!(
        messages,
        vec![
            "Processing analytics in batches...",
            "Processing batch 10 (30 lines processed so far)",
            "Analytics processing complete: 30 lines processed",
        ]
    );
}

#[test]
fn an_empty_log() {
    let token = Arc::new(AtomicBool::new(false));
    let parser = Parser::new(&token);
    let (counts, messages) = parser.analytics_handler(Vec::new(), 1000).unwrap();
    assert_eq!(counts.all_events, 0);
    assert_eq!(
        messages,
        vec!["Processing analytics in batches...", "Analytics processing complete: 0 lines processed"]
    );
}

#[test]
fn empty_batches_take_nothing() {
    let token = Arc::new(AtomicBool::new(false));
    let parser = Parser::new(&token);
    let (counts, messages) = parser.analytics_handler(vec![event("app_opened")], 0).unwrap();
    assert_eq!(counts.all_events, 0);
    assert_eq!(messages.last().unwrap(), "Analytics processing complete: 0 lines processed");
}

#[test]
fn the_stream_ends_after_a_short_or_empty_batch() {
    let mut run = AnalyticsRun::new(2);
    let full = vec![event("app_opened"), None];
    assert!(run.can_absorb(&full));
    let outcome = run.absorb_batch(full);
    assert!(outcome.more);
    assert_eq!(outcome.progress, None);
    assert_eq!(run.batch_number, 1);
    assert_eq!(run.processed_lines, 2);
    let short = vec![event("app_crashed")];
    let outcome = run.absorb_batch(short);
    assert!(!outcome.more);
    assert_eq!(run.batch_number, 2);
    assert_eq!(run.processed_lines, 3);
    let outcome = run.absorb_batch(Vec::new());
    assert!(!outcome.more);
    assert_eq!(run.batch_number, 2);
    let (counts, done) = run.finish();
    assert_eq!(counts.all_events, 2);
    assert_eq!(counts.app_opened, 1);
    assert_eq!(counts.app_crashed, 1);
    assert_eq!(done, "Analytics processing complete: 3 lines processed");
}

#[test]
fn cancellation_ends_the_event_log_stage() {
    let token = Arc::new(AtomicBool::new(false));
    token.store(true, Ordering::Relaxed);
    let parser = Parser::new(&token);
    let result = parser.analytics_handler(vec![event("app_opened")], 10);
    assert!(matches!(result, Err(ExtractError::Cancelled)));
}

#[test]
fn command_details_are_wanted_for_command_events_only() {
    assert!(Parser::wants_command(&Event { event_type: "application_command_used".to_string() }));
    assert!(!Parser::wants_command(&Event { event_type: "app_opened".to_string() }));
    assert!(!Parser::wants_command(&Event { event_type: "other".to_string() }));
}

#[test]
fn sizing_rule() {
    assert_eq!(plan_resources(0, 0), (0, 1000));
    assert_eq!(plan_resources(4096, 1), (1024, 1000));
    assert_eq!(plan_resources(2 * 1024 * 1024 - 4, 8), (512 * 1024 - 1, 8000));
    assert_eq!(plan_resources(2 * 1024 * 1024, 8), (512 * 1024, 8000));
    assert_eq!(plan_resources(u64::MAX, 64), (512 * 1024, 64000));
    assert_eq!(plan_resources(1, usize::MAX), (0, usize::MAX));
}

#[test]
fn measured_sizes_are_within_bounds() {
    let token = Arc::new(AtomicBool::new(false));
    let parser = Parser::new(&token);
    let (buffer_capacity, batch_size) = parser.determine_resources();
    assert!(buffer_capacity <= 512 * 1024);
    assert!(batch_size >= 1000);
    assert_eq!(batch_size % 1000, 0);
}

#[test]
fn batches_are_taken_while_the_counters_have_room() {
    let mut run = AnalyticsRun::new(1);
    let outcome = run.try_absorb(vec![event("app_opened")]).unwrap();
    assert!(outcome.more);
    let outcome = run.try_absorb(Vec::new()).unwrap();
    assert!(!outcome.more);
    let (counts, _) = run.finish();
    assert_eq!(counts.all_events, 1);
}

#[test]
fn a_new_report_counts_nothing() {
    let counts = EventCount::default();
    assert_eq!(counts.all_events, 0);
    assert!(named_counters(&counts).iter().all(|c| *c == 0));
    assert!(counts.most_used_commands.is_empty());
}
