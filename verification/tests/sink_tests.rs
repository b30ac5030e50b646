use dpkg_rs::error::ExtractError;
use dpkg_rs::models::{EventCount, ExtractObserver, OnError, OnProgress, UserData};
use dpkg_rs::parser::pipeline::{Notice, Outcome, Phase};
use dpkg_rs::parser::{Callback, Parser, Step};
use dpkg_rs::ranking::top_ranked;
use dpkg_rs::models::{DGuild, DUser, WordCount};
use dpkg_rs::timestamps::{parse_hour, parse_hour_in, TimestampFormat};
use dpkg_rs::words::WordTable;
use std::sync::atomic::AtomicBool;
use std::sync::{Arc, Mutex};

struct Recorder {
    log: Arc<Mutex<Vec<String>>>,
}

impl ExtractObserver for Recorder {
    fn on_progress(&self, progress: OnProgress) {
        self.log.lock().unwrap().push(format!("progress:{}:{}", progress.step, progress.message));
    }

    fn on_error(&self, error: OnError) {
        self.log.lock().unwrap().push(format!("error:{}:{}:{}", error.step, error.title, error.message));
    }

    fn on_complete(&self, result: UserData) {
        self.log.lock().unwrap().push(format!("complete:{}", result.message_count));
    }

    fn on_analytics_complete(&self, result: EventCount) {
        self.log.lock().unwrap().push(format!("analytics:{}", result.all_events));
    }
}

fn recorder() -> (Callback, Arc<Mutex<Vec<String>>>) {
    let log = Arc::new(Mutex::new(Vec::new()));
    (Callback::new(Box::new(Recorder { log: log.clone() })), log)
}

#[test]
fn step_names() {
    assert_eq!(Step::Scaffolding.to_string(), "scaffolding");
    assert_eq!(Step::Messages.to_string(), "messages");
    assert_eq!(Step::Analytics.to_string(), "analytics");
}

#[test]
fn callback_forwards_to_the_sink() {
    let (callback, log) = recorder();
    callback.progress(Step::Scaffolding, "Opened Archive".to_string());
    callback.error(Step::Messages, "boom".to_string(), "Data extraction error".to_string());
    let mut data = UserData::default();
    data.message_count = 7;
    callback.data_complete(data);
    let mut events = EventCount::new();
    events.all_events = 3;
    callback.analytics_complete(events);
    assert_eq!(
        *log.lock().unwrap(),
        vec![
            "progress:scaffolding:Opened Archive",
            "error:messages:Data extraction error:boom",
            "complete:7",
            "analytics:3",
        ]
    );
}

#[test]
fn notices_are_built_for_each_phase() {
    let progress = Callback::progress_notice(Step::Analytics, "working".to_string());
    assert_eq!(progress.step, "analytics");
    assert_eq!(progress.message, "working");
    let error = Callback::error_notice(Step::Messages, "m".to_string(), "t".to_string());
    assert_eq!(error.step, "messages");
    assert_eq!(error.message, "m");
    assert_eq!(error.title, "t");
}

#[test]
fn cancelled_extraction_hands_no_report_to_the_sink() {
    let (callback, log) = recorder();
    let notices = Parser::notices_for(Outcome::DataFailed(ExtractError::Cancelled));
    assert_eq!(notices.len(), 1);
    assert!(matches!(notices[0], Notice::Failed(_)));
    Parser::deliver(&callback, notices);
    let log = log.lock().unwrap();
    assert_eq!(*log, vec!["error:messages:Data extraction error:Processing cancelled"]);
    assert!(!log.iter().any(|entry| entry.starts_with("complete") || entry.starts_with("analytics")));
}

#[test]
fn failed_event_log_stage_follows_the_report() {
    let (callback, log) = recorder();
    let mut data = UserData::default();
    data.message_count = 2;
    let outcome = Outcome::AnalyticsFailed(data, ExtractError::MissingLayout(dpkg_rs::error::Area::Analytics));
    Parser::deliver(&callback, Parser::notices_for(outcome));
    assert_eq!(
        *log.lock().unwrap(),
        vec![
            "complete:2",
            "error:analytics:Analytics processing error:Could not find Analytics folder structure",
        ]
    );
}

#[test]
fn completed_extraction_hands_both_reports_to_the_sink() {
    let (callback, log) = recorder();
    let mut events = EventCount::new();
    events.all_events = 9;
    Parser::deliver(&callback, Parser::notices_for(Outcome::Completed(UserData::default(), events)));
    assert_eq!(*log.lock().unwrap(), vec!["complete:0", "analytics:9"]);
}

#[test]
fn profile_and_guilds_are_loaded() {
    let token = Arc::new(AtomicBool::new(false));
    let parser = Parser::new(&token);
    let mut report = UserData::default();
    parser.load_user(&mut report, None);
    assert!(report.user.is_none());
    let user = DUser {
        id: "1".to_string(),
        username: "name".to_string(),
        global_name: Some("Name".to_string()),
        discriminator: 42,
        avatar_hash: None,
        payments: Vec::new(),
        relationships: Vec::new(),
    };
    parser.load_user(&mut report, Some(user));
    assert_eq!(report.user.as_ref().unwrap().username, "name");
    parser.load_user(&mut report, None);
    assert_eq!(report.user.as_ref().unwrap().id, "1");

    parser.load_servers(&mut report, None);
    assert!(report.guilds.is_empty());
    let index = vec![("10".to_string(), "Ten".to_string()), ("20".to_string(), "Twenty".to_string())];
    parser.load_servers(&mut report, Some(index));
    let guilds: Vec<(&str, &str)> =
        report.guilds.iter().map(|g: &DGuild| (g.id.as_str(), g.name.as_str())).collect();
    assert_eq!(guilds, vec![("10", "Ten"), ("20", "Twenty")]);
    parser.load_servers(&mut report, None);
    assert_eq!(report.guilds.len(), 2);
    assert_eq!(Parser::user_path("account"), "account/user.json");
    assert_eq!(Parser::guild_index_path("pkg/servers"), "pkg/servers/index.json");
}

#[test]
fn hours_of_plain_timestamps() {
    let plain = TimestampFormat::Plain;
    assert_eq!(parse_hour_in("2024-02-11 13:57:18", plain), Some(13));
    assert_eq!(parse_hour_in("2024-02-11 00:00:00", plain), Some(0));
    assert_eq!(parse_hour_in("2024-02-11 23:59:59", plain), Some(23));
    assert_eq!(parse_hour_in("2024-02-11T13:57:18", plain), None);
    assert_eq!(parse_hour_in("2024-02-30 13:57:18", plain), None);
    assert_eq!(parse_hour_in("2024-02-11 13:57:18+00:00", plain), None);
    assert_eq!(parse_hour_in("", plain), None);
    assert_eq!(parse_hour_in("13", plain), None);
}

#[test]
fn hours_of_rfc3339_timestamps() {
    let rfc3339 = TimestampFormat::Rfc3339;
    assert_eq!(parse_hour_in("1996-12-19T16:39:57-08:00", rfc3339), Some(16));
    assert_eq!(parse_hour_in("2019-04-17 18:58:31.429000+00:00", rfc3339), Some(18));
    assert_eq!(parse_hour_in("2019-04-17T18:58:31Z", rfc3339), Some(18));
    assert_eq!(parse_hour_in("2019-04-17 18:58:31", rfc3339), None);
    assert_eq!(parse_hour_in("18", rfc3339), None);
}

#[test]
fn the_other_notation_is_tried_when_the_expected_one_fails() {
    for format in [TimestampFormat::Plain, TimestampFormat::Rfc3339] {
        assert_eq!(parse_hour("2024-02-11 13:57:18", format), Some(13));
        assert_eq!(parse_hour("2019-04-17 18:58:31.429000+00:00", format), Some(18));
        assert_eq!(parse_hour("1996-12-19T16:39:57-08:00", format), Some(16));
        assert_eq!(parse_hour("2024-02-11T13:57:18", format), None);
        assert_eq!(parse_hour("2024-02-30 13:57:18", format), None);
        assert_eq!(parse_hour("", format), None);
        assert_eq!(parse_hour("13", format), None);
    }
}

fn scored(list: &[(&'static str, u32)]) -> Vec<WordCount> {
    list.iter().map(|(name, score)| WordCount { word: name.to_string(), count: *score }).collect()
}

fn names(ranking: &[WordCount]) -> Vec<&str> {
    ranking.iter().map(|s| s.word.as_str()).collect()
}

#[test]
fn ranking_is_descending_and_stable() {
    let items = scored(&[("a", 1), ("b", 3), ("c", 1), ("d", 3), ("e", 2), ("f", 0), ("g", 3)]);
    assert_eq!(names(&top_ranked(items, 10)), vec!["b", "d", "g", "e", "a", "c", "f"]);
}

#[test]
fn ranking_is_cut_to_its_limit() {
    let items = scored(&[("a", 1), ("b", 3), ("c", 1), ("d", 3), ("e", 2), ("f", 0), ("g", 3)]);
    assert_eq!(names(&top_ranked(items, 4)), vec!["b", "d", "g", "e"]);
    let items = scored(&[("a", 1), ("b", 1), ("c", 1)]);
    assert_eq!(names(&top_ranked(items, 2)), vec!["a", "b"]);
    let items = scored(&[("a", 1), ("b", 2)]);
    assert!(top_ranked(items, 0).is_empty());
    assert!(top_ranked(Vec::<WordCount>::new(), 3).is_empty());
}

#[test]
fn ranking_agrees_with_a_stable_sort() {
    let mut seed: u32 = 12345;
    for round in 0..50 {
        let mut items = Vec::new();
        let mut plain = Vec::new();
        for i in 0..(round % 17) {
            seed = seed.wrapping_mul(1664525).wrapping_add(1013904223);
            let score = (seed >> 24) % 5;
            items.push(WordCount { word: format!("w{}", i), count: score });
            plain.push((format!("w{}", i), score));
        }
        plain.sort_by(|a, b| b.1.cmp(&a.1));
        plain.truncate(6);
        let ranked: Vec<(String, u32)> =
            top_ranked(items, 6).into_iter().map(|w| (w.word, w.count)).collect();
        assert_eq!(ranked, plain);
    }
}

#[test]
fn word_table_counts_in_order_of_discovery() {
    let mut table = WordTable::new();
    for word in ["banana", "cherry", "banana", "apple", "banana", "cherry"] {
        assert!(table.can_record(word));
        table.record(word.to_string());
    }
    assert_eq!(table.len(), 3);
    let entries: Vec<(String, u32)> =
        table.into_entries().into_iter().map(|w| (w.word, w.count)).collect();
    assert_eq!(
        entries,
        vec![("banana".to_string(), 3), ("cherry".to_string(), 2), ("apple".to_string(), 1)]
    );
}

#[test]
fn phases_follow_in_order() {
    let mut phase = Some(Phase::first());
    let mut announcements = Vec::new();
    let mut visited = 0;
    while let Some(current) = phase {
        visited += 1;
        announcements.push(current.announcement());
        phase = current.next();
    }
    assert_eq!(visited, 5);
    assert_eq!(
        announcements,
        vec![
            Some("Analyzing package structure..."),
            Some("Loading user information..."),
            None,
            Some("Loading guild information..."),
            Some("Finalizing extraction..."),
        ]
    );
}

#[test]
fn the_report_is_told_as_soon_as_its_phase_has_ended() {
    let (callback, log) = recorder();
    let mut data = UserData::default();
    data.message_count = 4;
    let first = Parser::data_notice(Ok(data));
    assert!(!first.ends_extraction());
    Parser::tell(&callback, first);
    assert_eq!(*log.lock().unwrap(), vec!["complete:4"]);
    let second = Parser::analytics_notice(Err(ExtractError::Cancelled));
    assert!(second.ends_extraction());
    Parser::tell(&callback, second);
    assert_eq!(
        *log.lock().unwrap(),
        vec!["complete:4", "error:analytics:Analytics processing error:Processing cancelled"]
    );
    let failed = Parser::data_notice(Err(ExtractError::Overflow));
    assert!(failed.ends_extraction());
    let mut events = EventCount::new();
    events.all_events = 1;
    assert!(!Parser::analytics_notice(Ok(events)).ends_extraction());
}
