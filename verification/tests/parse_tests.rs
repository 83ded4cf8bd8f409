use timekeep::civil::{civil_to_local, parse_civil, CivilDateTime};
use timekeep::command::{interpret_line, Command};
use timekeep::text::{duration_text, i64_to_string, join_lines, parse_usize_str, trim_str};
use timekeep::time::MAX_TIMESTAMP_SECONDS;
use timekeep::{duration_minutes_part, duration_seconds_part};

#[test]
fn parse_accepts_the_four_formats() {
    let c = CivilDateTime { year: 2024, month: 6, day: 1, hour: 14, minute: 30, second: 0 };
    assert_eq!(parse_civil("2024-06-01 14:30"), Some(c));
    assert_eq!(parse_civil("2024/06/01 14:30"), Some(c));
    let cs = CivilDateTime { year: 2024, month: 6, day: 1, hour: 14, minute: 30, second: 45 };
    assert_eq!(parse_civil("2024-06-01 14:30:45"), Some(cs));
    assert_eq!(parse_civil("2024/06/01 14:30:45"), Some(cs));
}

#[test]
fn parse_rejects_malformed_text() {
    assert_eq!(parse_civil("not-a-date"), None);
    assert_eq!(parse_civil(""), None);
    assert_eq!(parse_civil("2024-06-01T14:30"), None);
    assert_eq!(parse_civil("2024-06/01 14:30"), None);
    assert_eq!(parse_civil("2024-06-01 14:30:4"), None);
    assert_eq!(parse_civil("2024-06-01  14:30"), None);
    assert_eq!(parse_civil("24-06-01 14:30"), None);
}

#[test]
fn parse_rejects_impossible_dates_and_times() {
    assert_eq!(parse_civil("2024-13-01 10:00"), None);
    assert_eq!(parse_civil("2024-00-10 10:00"), None);
    assert_eq!(parse_civil("2024-02-30 10:00"), None);
    assert_eq!(parse_civil("2024-04-31 10:00"), None);
    assert_eq!(parse_civil("2024-06-00 10:00"), None);
    assert_eq!(parse_civil("2024-06-01 24:00"), None);
    assert_eq!(parse_civil("2024-06-01 10:60"), None);
    assert_eq!(parse_civil("2024-06-01 10:00:60"), None);
}

#[test]
fn parse_knows_leap_years() {
    assert!(parse_civil("2024-02-29 10:00").is_some());
    assert_eq!(parse_civil("2023-02-29 10:00"), None);
    assert!(parse_civil("2000-02-29 10:00").is_some());
    assert_eq!(parse_civil("1900-02-29 10:00"), None);
}

#[test]
fn civil_resolution_keeps_same_day_gaps_exact() {
    let a = civil_to_local(&CivilDateTime {
        year: 2024,
        month: 6,
        day: 1,
        hour: 14,
        minute: 30,
        second: 0,
    })
    .unwrap();
    let b = civil_to_local(&CivilDateTime {
        year: 2024,
        month: 6,
        day: 1,
        hour: 16,
        minute: 30,
        second: 0,
    })
    .unwrap();
    assert_eq!(b.seconds - a.seconds, 7200);
    assert!(!a.rfc3339.is_empty());
    assert!(a.seconds.abs() <= MAX_TIMESTAMP_SECONDS);
}

#[test]
fn commands_match_case_insensitively_after_trimming() {
    assert_eq!(interpret_line("start"), Command::Start);
    assert_eq!(interpret_line("START"), Command::Start);
    assert_eq!(interpret_line("  Pause "), Command::Pause);
    assert_eq!(interpret_line("resume"), Command::Resume);
    assert_eq!(interpret_line("\tStop\n"), Command::Stop);
    assert_eq!(interpret_line("MANUAL"), Command::Manual);
    assert_eq!(interpret_line("Exit"), Command::Exit);
}

#[test]
fn show_lines_parse_their_count() {
    assert_eq!(interpret_line("show 5"), Command::Show(5));
    assert_eq!(interpret_line("show +3"), Command::Show(3));
    assert_eq!(interpret_line("SHOW 12"), Command::Show(12));
    assert_eq!(interpret_line("  show   0  "), Command::Show(0));
    assert_eq!(interpret_line("show five"), Command::ShowBadNumber);
    assert_eq!(interpret_line("show -3"), Command::ShowBadNumber);
    assert_eq!(interpret_line("show"), Command::ShowMalformed);
    assert_eq!(interpret_line("show 1 2"), Command::ShowMalformed);
    assert_eq!(interpret_line("showtime"), Command::ShowMalformed);
}

#[test]
fn other_lines_become_annotations_with_their_own_case() {
    assert_eq!(
        interpret_line("  Reviewed the Draft  "),
        Command::Note(String::from("Reviewed the Draft"))
    );
    assert_eq!(interpret_line("stopp"), Command::Note(String::from("stopp")));
    assert_eq!(interpret_line(""), Command::Note(String::from("")));
}

#[test]
fn counts_parse_exactly_like_usize() {
    assert_eq!(parse_usize_str("0"), Some(0));
    assert_eq!(parse_usize_str("42"), Some(42));
    assert_eq!(parse_usize_str("007"), Some(7));
    assert_eq!(parse_usize_str("+5"), Some(5));
    assert_eq!(parse_usize_str("+18446744073709551615"), Some(usize::MAX));
    assert_eq!(parse_usize_str("18446744073709551615"), Some(usize::MAX));
    assert_eq!(parse_usize_str("18446744073709551616"), None);
    assert_eq!(parse_usize_str("99999999999999999999999"), None);
    assert_eq!(parse_usize_str(""), None);
    assert_eq!(parse_usize_str("+"), None);
    assert_eq!(parse_usize_str("++1"), None);
    assert_eq!(parse_usize_str("12a"), None);
    assert_eq!(parse_usize_str("-1"), None);
}

#[test]
fn trimming_and_joining_behave_like_the_spec() {
    assert_eq!(trim_str("  a b  "), "a b");
    assert_eq!(trim_str("\t\n"), "");
    assert_eq!(trim_str("x"), "x");
    assert_eq!(join_lines(&vec![]), "");
    assert_eq!(join_lines(&vec![String::from("a")]), "a");
    assert_eq!(
        join_lines(&vec![String::from("a"), String::from("b"), String::from("c")]),
        "a\nb\nc"
    );
}

#[test]
fn durations_render_in_whole_seconds() {
    assert_eq!(duration_text(90), "90 seconds");
    assert_eq!(duration_text(0), "0 seconds");
    assert_eq!(duration_text(-5), "-5 seconds");
    assert_eq!(i64_to_string(i64::MAX), "9223372036854775807");
    assert_eq!(i64_to_string(i64::MIN), "-9223372036854775808");
    assert_eq!(duration_minutes_part(125), 2);
    assert_eq!(duration_seconds_part(125), 5);
}

#[test]
fn negative_durations_split_like_machine_division() {
    assert_eq!(duration_minutes_part(-125), -125 / 60);
    assert_eq!(duration_seconds_part(-125), -125 % 60);
    assert_eq!(duration_minutes_part(-7200), -120);
    assert_eq!(duration_seconds_part(-7200), 0);
    assert_eq!(duration_minutes_part(i64::MIN), i64::MIN / 60);
    assert_eq!(duration_seconds_part(i64::MIN), i64::MIN % 60);
    assert_eq!(duration_minutes_part(0), 0);
    assert_eq!(duration_seconds_part(0), 0);
}
