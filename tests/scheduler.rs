use slackwatch::config::System;
use slackwatch::scheduler::{next_schedule_text, Scheduler, SchedulerAction, SchedulingError};

fn system(schedule: &str, at_startup: bool) -> System {
    System { schedule: schedule.to_string(), data_dir: "/tmp/data".to_string(), run_at_startup: at_startup }
}

#[test]
fn invalid_cron_is_refused() {
    assert_eq!(Scheduler::new(&system("not a cron", false)).err(), Some(SchedulingError::InvalidSchedule));
}

#[test]
fn next_occurrence_is_strictly_later() {
    let s = Scheduler::new(&system("0 0 * * * *", true)).unwrap();
    // 2024-01-01T00:00:00Z
    let t0: i64 = 1_704_067_200;
    assert_eq!(s.upcoming(t0), Some(t0 + 3600));
    assert_eq!(s.upcoming(t0 + 1), Some(t0 + 3600));
    assert!(s.startup_scan_pending);
}

#[test]
fn startup_scan_runs_once_first() {
    let mut s = Scheduler::new(&system("0 0 * * * *", true)).unwrap();
    let t0: i64 = 1_704_067_200;
    assert_eq!(s.next_action(t0), SchedulerAction::ScanNow);
    assert_eq!(s.next_action(t0), SchedulerAction::ScanAt(t0 + 3600));
}

#[test]
fn without_startup_scan_waits_for_schedule() {
    let mut s = Scheduler::new(&system("0 30 * * * *", false)).unwrap();
    let t0: i64 = 1_704_067_200;
    assert_eq!(s.next_action(t0), SchedulerAction::ScanAt(t0 + 1800));
}

#[test]
fn exhausted_schedule_idles() {
    let mut s = Scheduler::new(&system("0 0 0 1 1 * 2020", false)).unwrap();
    assert_eq!(s.next_action(1_704_067_200), SchedulerAction::Idle);
}

#[test]
fn schedule_text_has_sentinel() {
    assert_eq!(next_schedule_text(None), "No upcoming schedule");
    assert_eq!(next_schedule_text(Some("2024-01-01T01:00:00Z".to_string())), "2024-01-01T01:00:00Z");
}
