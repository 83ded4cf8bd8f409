use timekeep::session::{TimerSession, TimerState};
use timekeep::time::Timestamp;

fn ts(seconds: i64) -> Timestamp {
    Timestamp { seconds, rfc3339: format!("t{}", seconds) }
}

#[test]
fn full_cycle_counts_only_running_time() {
    let mut s = TimerSession::new();
    assert!(s.start(&ts(1000), String::from("work"), String::from("report")).is_ok());
    assert!(s.pause(&ts(1100)).is_ok());
    assert!(s.resume(&ts(1250)).is_ok());
    let rec = s.stop(&ts(1400)).unwrap();
    // 100 seconds before the pause, 150 after the resume; the paused
    // 150 seconds are excluded.
    assert_eq!(rec.total_time_seconds, 250);
    assert_eq!(rec.category, "work");
    assert_eq!(rec.description, "report");
    assert_eq!(rec.start_time, "t1000");
    assert_eq!(rec.end_time, "t1400");
    assert_eq!(s.state, TimerState::Idle);
}

#[test]
fn start_is_rejected_while_running_or_paused() {
    let mut s = TimerSession::new();
    s.start(&ts(10), String::from("a"), String::from("b")).unwrap();
    assert!(s.start(&ts(20), String::from("x"), String::from("y")).is_err());
    assert_eq!(s.state, TimerState::Running);
    assert_eq!(s.category, "a");
    assert_eq!(s.accumulated, 0);
    s.pause(&ts(30)).unwrap();
    assert!(s.start(&ts(40), String::from("x"), String::from("y")).is_err());
    assert_eq!(s.state, TimerState::Paused);
    assert_eq!(s.category, "a");
    assert_eq!(s.accumulated, 20);
}

#[test]
fn pause_and_resume_are_rejected_in_wrong_states() {
    let mut s = TimerSession::new();
    assert!(s.pause(&ts(5)).is_err());
    assert!(s.resume(&ts(5)).is_err());
    assert_eq!(s.state, TimerState::Idle);
    s.start(&ts(10), String::from("a"), String::from("b")).unwrap();
    assert!(s.resume(&ts(20)).is_err());
    assert_eq!(s.state, TimerState::Running);
    s.pause(&ts(30)).unwrap();
    assert!(s.pause(&ts(40)).is_err());
    assert_eq!(s.state, TimerState::Paused);
    assert_eq!(s.accumulated, 20);
}

#[test]
fn stop_while_paused_adds_nothing_after_the_pause() {
    let mut s = TimerSession::new();
    s.start(&ts(1000), String::from("c"), String::from("d")).unwrap();
    s.pause(&ts(1100)).unwrap();
    // A long wait while paused must not count.
    let rec = s.stop(&ts(1600)).unwrap();
    assert_eq!(rec.total_time_seconds, 100);
    assert_eq!(rec.end_time, "t1600");
}

#[test]
fn repeated_breaks_accumulate_each_running_interval() {
    let mut s = TimerSession::new();
    s.start(&ts(0), String::from("c"), String::from("d")).unwrap();
    s.pause(&ts(10)).unwrap();
    s.resume(&ts(100)).unwrap();
    s.pause(&ts(130)).unwrap();
    s.resume(&ts(200)).unwrap();
    let rec = s.stop(&ts(205)).unwrap();
    assert_eq!(rec.total_time_seconds, 10 + 30 + 5);
}

#[test]
fn detail_lines_are_kept_in_entry_order_and_joined() {
    let mut s = TimerSession::new();
    s.start(&ts(0), String::from(" cat "), String::from(" desc ")).unwrap();
    s.add_detail(String::from("alpha")).unwrap();
    s.pause(&ts(10)).unwrap();
    s.add_detail(String::from("beta")).unwrap();
    s.resume(&ts(20)).unwrap();
    s.add_detail(String::from("gamma")).unwrap();
    let rec = s.stop(&ts(30)).unwrap();
    assert_eq!(rec.detail, "alpha\nbeta\ngamma");
    // Category and description are trimmed on finalization.
    assert_eq!(rec.category, "cat");
    assert_eq!(rec.description, "desc");
}

#[test]
fn detail_is_rejected_while_idle_and_reset_by_start() {
    let mut s = TimerSession::new();
    assert!(s.add_detail(String::from("stray")).is_err());
    s.start(&ts(0), String::from("a"), String::from("b")).unwrap();
    s.add_detail(String::from("old line")).unwrap();
    s.stop(&ts(1)).unwrap();
    s.start(&ts(2), String::from("a"), String::from("b")).unwrap();
    let rec = s.stop(&ts(3)).unwrap();
    assert_eq!(rec.detail, "");
}

#[test]
fn stop_is_rejected_while_idle() {
    let mut s = TimerSession::new();
    assert!(s.stop(&ts(5)).is_err());
    assert_eq!(s.state, TimerState::Idle);
}
