use hypanel_core::logs::extract_log_level;
use hypanel_core::logs::extract_timestamp;
use hypanel_core::logs::is_log_file_name;
use hypanel_core::logs::number_log_lines;
use hypanel_core::logs::parse_log_line;
use hypanel_core::logs::select_log_lines;
use hypanel_core::logs::sort_log_files_newest_first;
use hypanel_core::logs::LogFile;

#[test]
fn levels_are_recognised_case_blind() {
    assert_eq!(extract_log_level("[ERROR] boom").as_deref(), Some("ERROR"));
    assert_eq!(extract_log_level("[error] boom").as_deref(), Some("ERROR"));
    assert_eq!(extract_log_level("x error: y").as_deref(), Some("ERROR"));
    assert_eq!(extract_log_level("a WARN b").as_deref(), Some("WARN"));
    assert_eq!(extract_log_level("warning issued").as_deref(), Some("WARN"));
    assert_eq!(extract_log_level("[INFO] ok").as_deref(), Some("INFO"));
    assert_eq!(extract_log_level("[debug] x").as_deref(), Some("DEBUG"));
    assert_eq!(extract_log_level("someTRACEhere"), None);
    assert_eq!(extract_log_level("[TRACE] here").as_deref(), Some("TRACE"));
    assert_eq!(extract_log_level("nothing here"), None);
}

#[test]
fn timestamps_are_found_at_line_heads() {
    assert_eq!(
        extract_timestamp("[2024-01-14 12:34:56] started").as_deref(),
        Some("2024-01-14 12:34:56")
    );
    assert_eq!(
        extract_timestamp("2024-01-14T12:34:56 started").as_deref(),
        Some("2024-01-14T12:34:56")
    );
    assert_eq!(extract_timestamp("short"), None);
    assert_eq!(extract_timestamp("x024-01-14 12:34:56 not a digit first"), None);
    assert_eq!(extract_timestamp("20240114 123456 no separators at all!"), None);
}

#[test]
fn parse_keeps_content_and_number() {
    let l = parse_log_line(7, "[2024-01-14 12:34:56] [INFO] ready");
    assert_eq!(l.line_number, 7);
    assert_eq!(l.content, "[2024-01-14 12:34:56] [INFO] ready");
    assert_eq!(l.level.as_deref(), Some("INFO"));
    assert_eq!(l.timestamp.as_deref(), Some("2024-01-14 12:34:56"));
}

fn five_lines() -> Vec<String> {
    vec![
        String::from("one"),
        String::from("two"),
        String::from("three"),
        String::from("four"),
        String::from("five"),
    ]
}

#[test]
fn tail_mode_takes_the_last_lines() {
    let lines = five_lines();
    let sel = select_log_lines(&lines, Some(2), None);
    assert_eq!(sel.len(), 2);
    assert_eq!(sel[0].line_number, 4);
    assert_eq!(sel[0].content, "four");
    assert_eq!(sel[1].line_number, 5);
    assert_eq!(sel[1].content, "five");
}

#[test]
fn tail_larger_than_file_takes_everything() {
    let lines = five_lines();
    let sel = select_log_lines(&lines, Some(10), Some(0));
    assert_eq!(sel.len(), 5);
    assert_eq!(sel[0].line_number, 1);
    assert_eq!(sel[4].line_number, 5);
}

#[test]
fn offset_mode_windows_from_the_start() {
    let lines = five_lines();
    let sel = select_log_lines(&lines, Some(2), Some(1));
    assert_eq!(sel.len(), 2);
    assert_eq!(sel[0].line_number, 2);
    assert_eq!(sel[0].content, "two");
    assert_eq!(sel[1].line_number, 3);
}

#[test]
fn offset_beyond_the_file_is_empty() {
    let lines = five_lines();
    assert!(select_log_lines(&lines, Some(2), Some(9)).is_empty());
}

#[test]
fn fresh_lines_are_numbered_from_one() {
    let lines = vec![String::from("a"), String::from("b")];
    let numbered = number_log_lines(&lines);
    assert_eq!(numbered.len(), 2);
    assert_eq!(numbered[0].line_number, 1);
    assert_eq!(numbered[1].line_number, 2);
    assert_eq!(numbered[1].content, "b");
}

#[test]
fn listing_is_ordered_newest_first() {
    let file = |name: &str, modified: Option<&str>| LogFile {
        name: String::from(name),
        path: format!("/logs/{}", name),
        size: 10,
        modified: modified.map(String::from),
    };
    let sorted = sort_log_files_newest_first(vec![
        file("old.log", Some("2024-01-01T00:00:00Z")),
        file("untimed.log", None),
        file("new.log", Some("2025-06-01T00:00:00Z")),
        file("mid.log", Some("2024-12-31T00:00:00Z")),
    ]);
    let names: Vec<&str> = sorted.iter().map(|f| f.name.as_str()).collect();
    assert_eq!(names, vec!["new.log", "mid.log", "old.log", "untimed.log"]);
}

#[test]
fn log_file_names() {
    assert!(is_log_file_name("latest.log"));
    assert!(is_log_file_name("crash.txt"));
    assert!(!is_log_file_name("world.dat"));
    assert!(!is_log_file_name("log"));
}
