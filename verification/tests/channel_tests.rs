use dpkg_rs::error::ExtractError;
use dpkg_rs::models::{DChannel, DGuild, DMessage, DUser, Message, UserData};
use dpkg_rs::parser::channels::{ChannelSource, ChannelStats};
use dpkg_rs::parser::layout::ChannelLayout;
use dpkg_rs::parser::Parser;
use dpkg_rs::timestamps::TimestampFormat;
use std::sync::atomic::{AtomicBool, Ordering};
use std::sync::Arc;

fn token() -> Arc<AtomicBool> {
    Arc::new(AtomicBool::new(false))
}

fn profile(id: &str) -> DUser {
    DUser {
        id: id.to_string(),
        username: "me".to_string(),
        global_name: None,
        discriminator: 0,
        avatar_hash: None,
        payments: Vec::new(),
        relationships: Vec::new(),
    }
}

fn guild_channel(id: &str, guild: Option<(&str, &str)>) -> DChannel {
    DChannel {
        id: id.to_string(),
        name: Some(format!("channel-{}", id)),
        type_tag: Some("0".to_string()),
        recipients: None,
        guild: guild.map(|(id, name)| DGuild { id: id.to_string(), name: name.to_string() }),
    }
}

fn dm_channel(id: &str, recipients: &[&str]) -> DChannel {
    DChannel {
        id: id.to_string(),
        name: None,
        type_tag: Some("1".to_string()),
        recipients: Some(recipients.iter().map(|r| r.to_string()).collect()),
        guild: None,
    }
}

fn message(id: u64, timestamp: &str, contents: &str) -> Message {
    Parser::to_message(DMessage {
        id,
        timestamp: timestamp.to_string(),
        contents: contents.to_string(),
        attachments: String::new(),
    })
}

fn messages(count: usize, timestamp: &str, contents: &str) -> Vec<Message> {
    (0..count).map(|i| message(i as u64, timestamp, contents)).collect()
}

fn source(channel: DChannel, messages: Vec<Message>) -> ChannelSource {
    ChannelSource { channel: Some(channel), messages }
}

fn report_with_profile(id: &str) -> UserData {
    let mut report = UserData::default();
    report.user = Some(profile(id));
    report
}

#[test]
fn two_guild_channels_and_one_dm() {
    let token = token();
    let parser = Parser::new(&token);
    let mut report = report_with_profile("100");
    let sources = vec![
        source(guild_channel("1", Some(("9", "Guild"))), messages(5, "2024-01-01 10:00:00", "hi")),
        source(guild_channel("2", None), messages(10, "2024-01-01 11:00:00", "hi")),
        source(dm_channel("3", &["100", "200"]), messages(3, "2024-01-01 12:00:00", "hi")),
    ];
    parser.load_channels(&mut report, TimestampFormat::Plain, sources).unwrap();
    assert_eq!(report.channel_count, 2);
    assert_eq!(report.dm_channel_count, 1);
    assert_eq!(report.message_count, 18);
    let counts: Vec<u32> = report.top_channels.iter().map(|c| c.message_count).collect();
    assert_eq!(counts, vec![10, 5]);
    assert_eq!(report.top_channels[0].id, "2");
    assert_eq!(report.top_channels[0].guild_name, None);
    assert_eq!(report.top_channels[0].guild_id, None);
    assert_eq!(report.top_channels[1].id, "1");
    assert_eq!(report.top_channels[1].guild_name.as_deref(), Some("Guild"));
    assert_eq!(report.top_channels[1].guild_id.as_deref(), Some("9"));
    assert_eq!(report.top_dms.len(), 1);
    assert_eq!(report.top_dms[0].id, "3");
    assert_eq!(report.top_dms[0].dm_user_id, "200");
    assert_eq!(report.top_dms[0].message_count, 3);
    assert_eq!(report.character_count, 36);
}

#[test]
fn histogram_has_twenty_four_buckets_and_counts_parsed_messages() {
    let token = token();
    let parser = Parser::new(&token);
    let mut report = UserData::default();
    assert_eq!(report.hours_values, vec![0u32; 24]);
    let mut all = messages(2, "2024-03-05 00:15:00", "x");
    all.extend(messages(3, "2024-03-05 23:59:59", "x"));
    all.extend(messages(4, "not a timestamp", "x"));
    all.extend(messages(1, "2024-03-05 24:00:00", "x"));
    let sources = vec![source(guild_channel("1", None), all)];
    parser.load_channels(&mut report, TimestampFormat::Plain, sources).unwrap();
    assert_eq!(report.hours_values.len(), 24);
    assert_eq!(report.hours_values[0], 2);
    assert_eq!(report.hours_values[23], 3);
    let total: u32 = report.hours_values.iter().sum();
    assert_eq!(total, 5);
    assert_eq!(report.message_count, 10);
    assert!(total <= report.message_count);
}

#[test]
fn histogram_sum_equals_message_count_when_all_timestamps_parse() {
    let token = token();
    let parser = Parser::new(&token);
    let mut report = report_with_profile("1");
    let sources = vec![
        source(guild_channel("1", None), messages(7, "2021-06-01 08:30:00", "x")),
        source(dm_channel("2", &["1", "5"]), messages(4, "2021-06-01 20:30:00", "x")),
    ];
    parser.load_channels(&mut report, TimestampFormat::Plain, sources).unwrap();
    let total: u32 = report.hours_values.iter().sum();
    assert_eq!(total, 11);
    assert_eq!(report.message_count, 11);
    assert_eq!(report.hours_values[8], 7);
    assert_eq!(report.hours_values[20], 4);
}

#[test]
fn rfc3339_timestamps_count_at_their_own_offset() {
    let token = token();
    let parser = Parser::new(&token);
    let mut report = UserData::default();
    let all = vec![
        message(1, "2019-04-17T18:58:31.429000+00:00", "x"),
        message(2, "2019-04-17 03:00:00+02:00", "x"),
        message(3, "2019-04-17 03:00:00", "x"),
    ];
    let sources = vec![source(guild_channel("1", None), all)];
    parser.load_channels(&mut report, TimestampFormat::Rfc3339, sources).unwrap();
    assert_eq!(report.hours_values[18], 1);
    assert_eq!(report.hours_values[3], 2);
    let total: u32 = report.hours_values.iter().sum();
    assert_eq!(total, 3);
    assert_eq!(report.message_count, 3);
}

#[test]
fn a_tabular_archive_with_plain_timestamps_fills_the_histogram() {
    let token = token();
    let parser = Parser::new(&token);
    let mut report = UserData::default();
    let all = vec![
        message(1, "2021-03-14 16:37:52", "x"),
        message(2, "2021-03-14 16:37:52.123000+00:00", "x"),
        message(3, "14 March 2021", "x"),
    ];
    let sources = vec![source(guild_channel("1", None), all)];
    let format = dpkg_rs::parser::layout::ChannelLayout::from_flags(true, true).timestamp_format();
    parser.load_channels(&mut report, format, sources).unwrap();
    assert_eq!(report.hours_values[16], 2);
    assert_eq!(report.hours_values.iter().sum::<u32>(), 2);
    assert_eq!(report.message_count, 3);
}

#[test]
fn rankings_keep_ten_entries_in_descending_order() {
    let token = token();
    let parser = Parser::new(&token);
    let mut report = report_with_profile("me");
    let mut sources = Vec::new();
    for i in 0..15u64 {
        let id = format!("{}", i);
        sources.push(source(guild_channel(&id, None), messages((i % 7) as usize, "t", "x")));
        let dm = format!("dm{}", i);
        sources.push(source(dm_channel(&dm, &["me", "you"]), messages((i % 4) as usize, "t", "x")));
    }
    parser.load_channels(&mut report, TimestampFormat::Plain, sources).unwrap();
    assert_eq!(report.channel_count, 15);
    assert_eq!(report.dm_channel_count, 15);
    assert_eq!(report.top_channels.len(), 10);
    assert_eq!(report.top_dms.len(), 10);
    for pair in report.top_channels.windows(2) {
        assert!(pair[0].message_count >= pair[1].message_count);
    }
    for pair in report.top_dms.windows(2) {
        assert!(pair[0].message_count >= pair[1].message_count);
    }
    let ids: Vec<&str> = report.top_channels.iter().map(|c| c.id.as_str()).collect();
    assert_eq!(ids, vec!["6", "13", "5", "12", "4", "11", "3", "10", "2", "9"]);
    let dms: Vec<&str> = report.top_dms.iter().map(|c| c.id.as_str()).collect();
    assert_eq!(dms, vec!["dm3", "dm7", "dm11", "dm2", "dm6", "dm10", "dm14", "dm1", "dm5", "dm9"]);
}

#[test]
fn ties_stay_in_discovery_order() {
    let token = token();
    let parser = Parser::new(&token);
    let mut report = UserData::default();
    let sources = vec![
        source(guild_channel("a", None), messages(2, "t", "x")),
        source(guild_channel("b", None), messages(5, "t", "x")),
        source(guild_channel("c", None), messages(2, "t", "x")),
        source(guild_channel("d", None), messages(5, "t", "x")),
        source(guild_channel("e", None), messages(2, "t", "x")),
    ];
    parser.load_channels(&mut report, TimestampFormat::Plain, sources).unwrap();
    let ids: Vec<&str> = report.top_channels.iter().map(|c| c.id.as_str()).collect();
    assert_eq!(ids, vec!["b", "d", "a", "c", "e"]);
}

#[test]
fn emotes_and_words_are_ranked_apart() {
    let token = token();
    let parser = Parser::new(&token);
    let mut report = UserData::default();
    let all = vec![
        message(1, "t", "<:smile:123456789> banana banana <a:dance:42> short"),
        message(2, "t", "banana <:smile:123456789> cherry! cherry! <:smile:123456789>"),
        message(3, "t", "tiny <:x:1> <:smile:123456789>banana"),
    ];
    let sources = vec![source(guild_channel("1", None), all)];
    parser.load_channels(&mut report, TimestampFormat::Plain, sources).unwrap();
    let words: Vec<(&str, u32)> =
        report.favorite_words.iter().map(|w| (w.word.as_str(), w.count)).collect();
    assert_eq!(words, vec![("banana", 3), ("cherry!", 2)]);
    let emotes: Vec<(&str, u32)> =
        report.favorite_emotes.iter().map(|w| (w.word.as_str(), w.count)).collect();
    assert_eq!(
        emotes,
        vec![
            ("<:smile:123456789>", 3),
            ("<a:dance:42>", 1),
            ("<:x:1>", 1),
            ("<:smile:123456789>banana", 1)
        ]
    );
    for word in &report.favorite_words {
        assert!(!report.favorite_emotes.iter().any(|e| e.word == word.word));
    }
}

#[test]
fn short_tokens_are_never_ranked() {
    let token = token();
    let parser = Parser::new(&token);
    let mut report = UserData::default();
    let all = vec![
        message(1, "t", "hello hello hello hello world <:a:1> <:a:1> <:a:1>"),
        message(2, "t", "sixsix héllo naïve字 12345 ééé ééé 日本語日本語"),
    ];
    let sources = vec![source(guild_channel("1", None), all)];
    parser.load_channels(&mut report, TimestampFormat::Plain, sources).unwrap();
    let words: Vec<&str> = report.favorite_words.iter().map(|w| w.word.as_str()).collect();
    assert_eq!(words, vec!["sixsix", "naïve字", "日本語日本語"]);
    let emotes: Vec<(&str, u32)> =
        report.favorite_emotes.iter().map(|w| (w.word.as_str(), w.count)).collect();
    assert_eq!(emotes, vec![("<:a:1>", 3)]);
    for entry in report.favorite_words.iter().chain(report.favorite_emotes.iter()) {
        assert!(entry.word.chars().count() > 5);
        assert!(entry.count >= 1);
    }
}

#[test]
fn token_length_is_counted_in_characters() {
    let token = token();
    let parser = Parser::new(&token);
    let mut stats = ChannelStats::new();
    let all = vec![message(1, "t", "ééé ééééé éééééé abcde abcdef")];
    assert_eq!(all[0].length, 6 + 10 + 12 + 5 + 6 + 4);
    parser
        .absorb_channel(&mut stats, &None, guild_channel("a", None), &all, TimestampFormat::Plain)
        .unwrap();
    assert_eq!(stats.word_occurrences, 2);
    assert_eq!(stats.character_count, 43);
    let entries: Vec<String> =
        stats.word_counts.into_entries().into_iter().map(|w| w.word).collect();
    assert_eq!(entries, vec!["éééééé", "abcdef"]);
}

#[test]
fn word_rankings_keep_ten_entries() {
    let token = token();
    let parser = Parser::new(&token);
    let mut report = UserData::default();
    let mut text = String::new();
    for i in 0..14 {
        for _ in 0..(i % 5 + 1) {
            text.push_str(&format!("word-number-{} <:emote{}:1234> ", i, i));
        }
    }
    let sources = vec![source(guild_channel("1", None), vec![message(1, "t", &text)])];
    parser.load_channels(&mut report, TimestampFormat::Plain, sources).unwrap();
    assert_eq!(report.favorite_words.len(), 10);
    assert_eq!(report.favorite_emotes.len(), 10);
    for pair in report.favorite_words.windows(2) {
        assert!(pair[0].count >= pair[1].count);
    }
    let words: Vec<&str> = report.favorite_words.iter().map(|w| w.word.as_str()).collect();
    assert_eq!(
        words,
        vec![
            "word-number-4",
            "word-number-9",
            "word-number-3",
            "word-number-8",
            "word-number-13",
            "word-number-2",
            "word-number-7",
            "word-number-12",
            "word-number-1",
            "word-number-6"
        ]
    );
    assert_eq!(report.favorite_emotes[0].word, "<:emote4:1234>");
    assert_eq!(report.favorite_emotes[0].count, 5);
}

#[test]
fn dm_without_known_partner_contributes_nothing() {
    let token = token();
    let parser = Parser::new(&token);
    let mut unresolved = UserData::default();
    let sources = vec![
        source(dm_channel("1", &["100", "200"]), messages(4, "2024-01-01 10:00:00", "wonderful")),
        source(guild_channel("2", None), messages(1, "2024-01-01 11:00:00", "x")),
    ];
    parser.load_channels(&mut unresolved, TimestampFormat::Plain, sources).unwrap();
    assert_eq!(unresolved.dm_channel_count, 0);
    assert_eq!(unresolved.channel_count, 1);
    assert_eq!(unresolved.message_count, 1);
    assert_eq!(unresolved.character_count, 1);
    assert_eq!(unresolved.hours_values[10], 0);
    assert!(unresolved.favorite_words.is_empty());
    assert!(unresolved.top_dms.is_empty());

    let mut alone = report_with_profile("100");
    let sources = vec![source(dm_channel("1", &["100", "100"]), messages(4, "t", "wonderful"))];
    parser.load_channels(&mut alone, TimestampFormat::Plain, sources).unwrap();
    assert_eq!(alone.dm_channel_count, 0);
    assert_eq!(alone.message_count, 0);
}

#[test]
fn dm_partner_is_the_recipient_that_is_not_the_profile() {
    let me = Some(profile("100"));
    assert_eq!(Parser::find_partner(&dm_channel("1", &["100", "200"]), &me), Some("200".to_string()));
    assert_eq!(Parser::find_partner(&dm_channel("1", &["300", "100"]), &me), Some("300".to_string()));
    assert_eq!(Parser::find_partner(&dm_channel("1", &["300", "400"]), &me), Some("300".to_string()));
    assert_eq!(Parser::find_partner(&dm_channel("1", &["100", "100"]), &me), None);
    assert_eq!(Parser::find_partner(&dm_channel("1", &["100", "200"]), &None), None);
    assert_eq!(Parser::find_partner(&dm_channel("1", &["100", "200", "300"]), &me), None);
    assert_eq!(Parser::find_partner(&guild_channel("1", None), &me), None);
    assert!(Parser::counts(&guild_channel("1", None), &None));
    assert!(Parser::counts(&dm_channel("1", &["100", "200", "300"]), &None));
    assert!(!Parser::counts(&dm_channel("1", &["100", "200"]), &None));
}

#[test]
fn channel_without_metadata_is_skipped() {
    let token = token();
    let parser = Parser::new(&token);
    let mut report = UserData::default();
    let sources = vec![
        ChannelSource { channel: None, messages: messages(9, "t", "x") },
        source(guild_channel("2", None), Vec::new()),
    ];
    parser.load_channels(&mut report, TimestampFormat::Plain, sources).unwrap();
    assert_eq!(report.channel_count, 1);
    assert_eq!(report.message_count, 0);
    assert_eq!(report.top_channels.len(), 1);
    assert_eq!(report.top_channels[0].message_count, 0);
}

#[test]
fn load_channels_keeps_profile_and_guilds() {
    let token = token();
    let parser = Parser::new(&token);
    let mut report = report_with_profile("77");
    report.guilds.push(DGuild { id: "g".to_string(), name: "Guild".to_string() });
    parser.load_channels(&mut report, TimestampFormat::Plain, Vec::new()).unwrap();
    assert_eq!(report.user.as_ref().unwrap().id, "77");
    assert_eq!(report.guilds.len(), 1);
    assert_eq!(report.channel_count, 0);
    assert_eq!(report.hours_values, vec![0u32; 24]);
}

#[test]
fn same_input_gives_the_same_report() {
    let token = token();
    let parser = Parser::new(&token);
    let build = || {
        vec![
            source(guild_channel("a", None), messages(2, "2024-01-01 01:00:00", "banana banana apple-pie")),
            source(guild_channel("b", None), messages(2, "2024-01-01 02:00:00", "apple-pie cherry-pie")),
            source(dm_channel("c", &["1", "2"]), messages(2, "2024-01-01 03:00:00", "<:e:123> <:f:123>")),
        ]
    };
    let mut first = report_with_profile("1");
    let mut second = report_with_profile("1");
    parser.load_channels(&mut first, TimestampFormat::Plain, build()).unwrap();
    parser.load_channels(&mut second, TimestampFormat::Plain, build()).unwrap();
    assert_eq!(format!("{:?}", first), format!("{:?}", second));
    let words: Vec<&str> = first.favorite_words.iter().map(|w| w.word.as_str()).collect();
    assert_eq!(words, vec!["banana", "apple-pie", "cherry-pie"]);
}

#[test]
fn cancellation_before_the_first_checkpoint() {
    let token = token();
    token.store(true, Ordering::Relaxed);
    let parser = Parser::new(&token);
    assert!(matches!(parser.check_cancellation_token(), Err(ExtractError::Cancelled)));
    let mut report = report_with_profile("1");
    let sources = vec![source(guild_channel("a", None), messages(2, "t", "x"))];
    let result = parser.load_channels(&mut report, TimestampFormat::Plain, sources);
    assert!(matches!(result, Err(ExtractError::Cancelled)));
    assert_eq!(report.channel_count, 0);
    assert_eq!(report.message_count, 0);
    assert!(report.top_channels.is_empty());
    let names = vec!["messages/c1234567890123456/".to_string()];
    assert!(matches!(parser.scan_channel_ids(&names, "messages"), Err(ExtractError::Cancelled)));
    let rows = vec![DMessage {
        id: 1,
        timestamp: String::new(),
        contents: "x".to_string(),
        attachments: String::new(),
    }];
    assert!(matches!(parser.parse_csv(rows), Err(ExtractError::Cancelled)));
}

#[test]
fn cancellation_outcome_follows_the_flag() {
    assert!(matches!(Parser::cancellation_outcome(true), Err(ExtractError::Cancelled)));
    assert!(Parser::cancellation_outcome(false).is_ok());
    let token = token();
    let parser = Parser::new(&token);
    assert!(parser.check_cancellation_token().is_ok());
    token.store(true, Ordering::Relaxed);
    assert!(parser.check_cancellation_token().is_err());
}

#[test]
fn absorbing_step_by_step() {
    let token = token();
    let parser = Parser::new(&token);
    let mut stats = ChannelStats::new();
    let me = Some(profile("1"));
    let first = messages(2, "2024-01-01 05:00:00", "lovely weather");
    assert!(stats.can_absorb(&first));
    parser
        .absorb_channel(&mut stats, &me, guild_channel("a", None), &first, TimestampFormat::Plain)
        .unwrap();
    assert_eq!(stats.message_total, 2);
    assert_eq!(stats.character_count, 28);
    assert_eq!(stats.word_occurrences, 4);
    assert_eq!(stats.hours_values[5], 2);
    assert_eq!(stats.channel_message_counts.len(), 1);
    assert_eq!(stats.word_counts.len(), 2);
    let second = messages(1, "bad", "lovely");
    parser
        .absorb_channel(&mut stats, &me, dm_channel("b", &["1", "2"]), &second, TimestampFormat::Plain)
        .unwrap();
    assert_eq!(stats.message_total, 3);
    assert_eq!(stats.dm_message_counts.len(), 1);
    assert_eq!(stats.word_occurrences, 5);
    let mut report = UserData::default();
    parser.finalize_channel_stats(&mut report, stats).unwrap();
    assert_eq!(report.message_count, 3);
    assert_eq!(report.character_count, 34);
    assert_eq!(report.favorite_words[0].word, "lovely");
    assert_eq!(report.favorite_words[0].count, 3);
    assert_eq!(report.favorite_words[1].word, "weather");
    assert_eq!(report.favorite_words[1].count, 2);
}

#[test]
fn layout_paths() {
    let current = ChannelLayout::from_flags(false, false);
    assert_eq!(current.metadata_path("messages", "123"), "messages/c123/channel.json");
    assert_eq!(current.messages_path("messages", "123"), "messages/c123/messages.json");
    assert!(matches!(current.timestamp_format(), TimestampFormat::Plain));
    let tabular = ChannelLayout::from_flags(false, true);
    assert_eq!(tabular.metadata_path("m", "123"), "m/c123/channel.json");
    assert_eq!(tabular.messages_path("m", "123"), "m/c123/messages.csv");
    assert!(matches!(tabular.timestamp_format(), TimestampFormat::Rfc3339));
    let legacy = ChannelLayout::from_flags(true, true);
    assert_eq!(legacy.metadata_path("m", "123"), "m/123/channel.json");
    assert_eq!(legacy.messages_path("m", "123"), "m/123/messages.csv");
    let mixed = ChannelLayout::from_flags(true, false);
    assert_eq!(mixed.metadata_path("m", "123"), "m/123/channel.json");
    assert_eq!(mixed.messages_path("m", "123"), "m/123/messages.json");
}

#[test]
fn counters_without_room_end_the_aggregation() {
    let token = token();
    let parser = Parser::new(&token);
    let mut stats = ChannelStats::new();
    stats.character_count = u32::MAX - 3;
    let fitting = messages(3, "t", "x");
    let too_long = messages(4, "t", "x");
    assert!(stats.can_absorb(&fitting));
    assert!(!stats.can_absorb(&too_long));
    let result = parser.absorb_source(
        &mut stats,
        &None,
        source(guild_channel("a", None), too_long),
        TimestampFormat::Plain,
    );
    assert!(matches!(result, Err(ExtractError::Overflow)));
    assert_eq!(stats.character_count, u32::MAX - 3);
    assert!(stats.channel_message_counts.is_empty());
    let uncounted = source(dm_channel("b", &["1", "2"]), messages(9, "t", "x"));
    assert!(parser.absorb_source(&mut stats, &None, uncounted, TimestampFormat::Plain).is_ok());
    assert_eq!(stats.character_count, u32::MAX - 3);
    let result = parser.absorb_source(
        &mut stats,
        &None,
        source(guild_channel("a", None), fitting),
        TimestampFormat::Plain,
    );
    assert!(result.is_ok());
    assert_eq!(stats.character_count, u32::MAX);
    assert_eq!(ExtractError::Overflow.message(), "Counter limit exceeded");
}

#[test]
fn sources_without_messages_hold_none() {
    let with = Parser::source_of(Some(guild_channel("a", None)), Some(messages(2, "t", "x")));
    assert_eq!(with.messages.len(), 2);
    assert_eq!(with.channel.unwrap().id, "a");
    let without = Parser::source_of(Some(guild_channel("b", None)), None);
    assert!(without.messages.is_empty());
    let nothing = Parser::source_of(None, None);
    assert!(nothing.channel.is_none());
}

#[test]
fn a_blank_report() {
    let report = UserData::default();
    assert!(report.user.is_none());
    assert!(report.top_dms.is_empty());
    assert!(report.top_channels.is_empty());
    assert!(report.guilds.is_empty());
    assert_eq!(report.dm_channel_count, 0);
    assert_eq!(report.channel_count, 0);
    assert_eq!(report.message_count, 0);
    assert_eq!(report.character_count, 0);
    assert_eq!(report.hours_values, vec![0u32; 24]);
    assert!(report.favorite_words.is_empty());
    assert!(report.favorite_emotes.is_empty());
}

#[test]
fn without_a_checkpoint_cancellation_is_not_observed() {
    let token = token();
    token.store(true, Ordering::Relaxed);
    let parser = Parser::new(&token);
    assert!(parser.parse_csv(Vec::new()).unwrap().is_empty());

    let mut report = report_with_profile("1");
    assert!(parser.load_channels(&mut report, TimestampFormat::Plain, Vec::new()).is_ok());
    assert_eq!(report.hours_values, vec![0u32; 24]);

    let mut stats = ChannelStats::new();
    let empty = Parser::source_of(Some(guild_channel("a", None)), None);
    assert!(parser.absorb_source(&mut stats, &None, empty, TimestampFormat::Plain).is_ok());
    assert_eq!(stats.channel_message_counts.len(), 1);
    let skipped = Parser::source_of(None, Some(messages(3, "t", "x")));
    assert!(parser.absorb_source(&mut stats, &None, skipped, TimestampFormat::Plain).is_ok());
    let uncounted = source(dm_channel("b", &["1", "2"]), messages(3, "t", "x"));
    assert!(parser.absorb_source(&mut stats, &None, uncounted, TimestampFormat::Plain).is_ok());
    assert_eq!(stats.message_total, 0);
    let counted = source(guild_channel("c", None), messages(1, "t", "x"));
    assert!(matches!(
        parser.absorb_source(&mut stats, &None, counted, TimestampFormat::Plain),
        Err(ExtractError::Cancelled)
    ));
    let mut report = UserData::default();
    assert!(parser.finalize_channel_stats(&mut report, ChannelStats::new()).is_ok());
}
