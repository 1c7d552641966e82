use shard::logs::LogLevel;
use shard::logs::LogWatcher;
use shard::logs::filter_by_level;
use shard::logs::format_entry;
use shard::logs::level_priority;
use shard::logs::parse_log_line;
use shard::logs::parse_lines;
use shard::logs::read_log_tail;
use shard::logs::search_logs;

#[test]
fn parses_standard_line() {
    let e = parse_log_line("[10:30:45] [Render thread/INFO]: Loaded 8 mods", 3);
    assert_eq!(e.timestamp, Some("10:30:45".to_string()));
    assert_eq!(e.thread, Some("Render thread".to_string()));
    assert_eq!(e.level, LogLevel::Info);
    assert_eq!(e.message, "Loaded 8 mods");
    assert_eq!(e.raw, "[10:30:45] [Render thread/INFO]: Loaded 8 mods");
    assert_eq!(e.line_number, 3);
}

#[test]
fn level_match_ignores_case() {
    let e = parse_log_line("[10:30:45] [main/warn]: careful", 1);
    assert_eq!(e.level, LogLevel::Warn);
    let e = parse_log_line("[10:30:45] [main/Error]: bad", 1);
    assert_eq!(e.level, LogLevel::Error);
    let e = parse_log_line("[10:30:45] [main/WARNING]: careful", 1);
    assert_eq!(e.level, LogLevel::Warn);
}

#[test]
fn no_slash_means_unknown_level() {
    let e = parse_log_line("[10:30:45] [main]: hello", 1);
    assert_eq!(e.level, LogLevel::Unknown);
    assert_eq!(e.thread, Some("main".to_string()));
    assert_eq!(e.message, "hello");
}

#[test]
fn fallback_keeps_whole_line() {
    let e = parse_log_line("a bare line without brackets", 7);
    assert_eq!(e.timestamp, None);
    assert_eq!(e.thread, None);
    assert_eq!(e.level, LogLevel::Unknown);
    assert_eq!(e.message, "a bare line without brackets");
    assert_eq!(e.line_number, 7);
}

#[test]
fn message_without_colon_is_trimmed() {
    let e = parse_log_line("[10:30:45] [main/INFO]   spaced message", 1);
    assert_eq!(e.message, "spaced message");
}

#[test]
fn levels_and_priorities() {
    assert_eq!(level_priority(LogLevel::Debug), 0);
    assert_eq!(level_priority(LogLevel::Info), 1);
    assert_eq!(level_priority(LogLevel::Warn), 2);
    assert_eq!(level_priority(LogLevel::Error), 3);
    assert_eq!(level_priority(LogLevel::Fatal), 4);
    assert_eq!(level_priority(LogLevel::Unknown), 1);
}

fn sample_entries() -> Vec<shard::logs::LogEntry> {
    let lines = vec![
        "[10:00:00] [main/DEBUG]: details".to_string(),
        "[10:00:01] [main/INFO]: starting".to_string(),
        "[10:00:02] [main/WARN]: Low memory".to_string(),
        "[10:00:03] [main/ERROR]: Crash imminent".to_string(),
    ];
    parse_lines(&lines)
}

#[test]
fn filter_keeps_at_or_above() {
    let entries = sample_entries();
    let warnings = filter_by_level(&entries, LogLevel::Warn);
    assert_eq!(warnings.len(), 2);
    assert_eq!(warnings[0].level, LogLevel::Warn);
    assert_eq!(warnings[1].level, LogLevel::Error);
}

#[test]
fn search_is_case_insensitive() {
    let entries = sample_entries();
    let hits = search_logs(&entries, "LOW MEMORY");
    assert_eq!(hits.len(), 1);
    assert_eq!(hits[0].message, "Low memory");
}

#[test]
fn tail_takes_the_last_entries() {
    let entries = sample_entries();
    let tail = read_log_tail(&entries, 2);
    assert_eq!(tail.len(), 2);
    assert_eq!(tail[0].message, "Low memory");
    let all = read_log_tail(&entries, 100);
    assert_eq!(all.len(), 4);
}

#[test]
fn formats_plain_entry() {
    let e = parse_log_line("[10:00:02] [main/WARN]: Low memory", 1);
    assert_eq!(format_entry(&e, false), "[10:00:02] [WARN] Low memory");
    let bare = parse_log_line("bare", 1);
    assert_eq!(format_entry(&bare, false), "bare");
}

#[test]
fn colored_format_carries_escapes() {
    let e = parse_log_line("[10:00:02] [main/WARN]: Low memory", 1);
    let s = format_entry(&e, true);
    assert!(s.contains("\u{1b}[33m"));
    assert!(s.contains("[WARN]"));
    assert!(s.contains("Low memory"));
}

#[test]
fn watcher_resets_on_truncation() {
    let mut w = LogWatcher::from_start("latest.log".to_string());
    assert_eq!(w.position, 0);
    w.position = 100;
    w.line_number = 5;
    assert!(!w.advance(150));
    assert_eq!(w.position, 100);
    assert!(w.advance(50));
    assert_eq!(w.position, 0);
    assert_eq!(w.line_number, 0);
}
