use ambient_context::daemon::{
    format_log_line, last_lines, log_line, parse_pid, pid_file_contents, signal_target,
    timestamp_string, FollowAction, LocalTime, LogFollower, Status,
};
use chrono::{Datelike, NaiveDate, Timelike};

fn lines(v: &[&str]) -> Vec<String> {
    v.iter().map(|s| s.to_string()).collect()
}

#[test]
fn pid_file_round_trip() {
    for pid in [0u32, 1, 12345, u32::MAX] {
        assert_eq!(parse_pid(&pid_file_contents(pid)), Some(pid));
    }
    assert_eq!(pid_file_contents(12345), "12345");
}

#[test]
fn pid_file_parsing() {
    assert_eq!(parse_pid("  991\n"), Some(991));
    assert_eq!(parse_pid(""), None);
    assert_eq!(parse_pid("abc"), None);
    assert_eq!(parse_pid("-3"), None);
    assert_eq!(parse_pid("99999999999"), None);
}

#[test]
fn last_lines_takes_the_tail() {
    let all = lines(&["a", "b", "c", "d"]);
    assert_eq!(last_lines(all.clone(), 2), lines(&["c", "d"]));
    assert_eq!(last_lines(all.clone(), 50), all);
    assert_eq!(last_lines(all.clone(), 0), Vec::<String>::new());
    assert_eq!(last_lines(Vec::new(), 3), Vec::<String>::new());
}

#[test]
fn follower_decisions() {
    let mut f = LogFollower::new(100);
    assert_eq!(f.observe(false, 0), FollowAction::Wait);
    assert_eq!(f.last_len, 100);
    assert_eq!(f.observe(true, 150), FollowAction::Read);
    assert_eq!(f.last_len, 150);
    assert_eq!(f.observe(true, 150), FollowAction::Read);
    assert_eq!(f.observe(true, 10), FollowAction::ReopenAndRead);
    assert_eq!(f.last_len, 10);
}

fn at(year: i32, month: u32, day: u32, hour: u32, minute: u32, second: u32) -> LocalTime {
    LocalTime { year, month, day, hour, minute, second }
}

#[test]
fn log_line_format() {
    assert_eq!(
        format_log_line("2024-01-01 10:00:00", "started"),
        "[2024-01-01 10:00:00] started"
    );
    assert_eq!(
        log_line(&at(2024, 1, 1, 10, 0, 0), "started"),
        "[2024-01-01 10:00:00] started"
    );
    assert_eq!(
        log_line(&at(987, 12, 31, 23, 59, 59), "x"),
        "[0987-12-31 23:59:59] x"
    );
}

#[test]
fn timestamp_years_outside_four_digits() {
    assert_eq!(timestamp_string(&at(-5, 3, 4, 5, 6, 7)), "-0005-03-04 05:06:07");
    assert_eq!(timestamp_string(&at(12345, 3, 4, 5, 6, 7)), "+12345-03-04 05:06:07");
    assert_eq!(timestamp_string(&at(0, 1, 1, 0, 0, 0)), "0000-01-01 00:00:00");
}

#[test]
fn timestamp_matches_chrono_format() {
    for (y, mo, d, h, mi, s) in [
        (2024, 1, 1, 10, 0, 0),
        (1999, 12, 31, 23, 59, 59),
        (5, 6, 7, 8, 9, 10),
        (-44, 3, 15, 12, 0, 1),
        (10000, 2, 29, 1, 2, 3),
    ] {
        let dt = NaiveDate::from_ymd_opt(y, mo, d)
            .unwrap()
            .and_hms_opt(h, mi, s)
            .unwrap();
        let t = at(dt.year(), dt.month(), dt.day(), dt.hour(), dt.minute(), dt.second());
        assert_eq!(
            timestamp_string(&t),
            dt.format("%Y-%m-%d %H:%M:%S").to_string()
        );
    }
}

#[test]
fn signal_targets_single_processes_only() {
    assert_eq!(signal_target(1), Some(1));
    assert_eq!(signal_target(4242), Some(4242));
    assert_eq!(signal_target(2147483647), Some(2147483647));
    assert_eq!(signal_target(0), None);
    assert_eq!(signal_target(2147483648), None);
    assert_eq!(signal_target(u32::MAX), None);
}

#[test]
fn unrecorded_status() {
    let s = Status::unrecorded(true, Some(7), "/tmp/f".to_string());
    assert!(s.running);
    assert_eq!(s.pid, Some(7));
    assert_eq!(s.blocks_today, 0);
    assert_eq!(s.started_at, None);
    assert_eq!(s.last_write, None);
    assert_eq!(s.folder, "/tmp/f");
    assert_eq!(s.last_error, None);
}
