use celery_producer::beat::{beat_cycle, beat_schedule, due, next_call, BeatOutcome, Schedule};

// 2024-01-01T00:00:00Z, a five-minute boundary.
const T: i64 = 1_704_067_200_000;

fn schedule(next: Option<i64>, cron: &str) -> Schedule {
    Schedule {
        task: "src-py.main.add".to_string(),
        cron: cron.to_string(),
        next_call: next,
        last_called_at: None,
    }
}

#[test]
fn test_next_call() {
    let expr = "*/5 * * * *".to_string();
    let now = chrono::Utc::now().timestamp_millis();
    let next = next_call(now, &expr).unwrap();
    assert!(next > now);
}

#[test]
fn next_call_on_boundary_is_next_boundary() {
    assert_eq!(next_call(T, "*/5 * * * *"), Some(T + 300_000));
    assert_eq!(next_call(T + 10_000, "*/5 * * * *"), Some(T + 300_000));
    assert_eq!(next_call(T, "* * * * *"), Some(T + 60_000));
    assert_eq!(next_call(T, "not a cron"), None);
}

#[test]
fn due_within_tolerance() {
    assert!(due(T, T));
    assert!(due(T, T + 10_000));
    assert!(due(T, T - 10_000));
    assert!(due(T, T + 60_999));
    assert!(!due(T, T + 61_000));
    assert!(due(T, T - 60_999));
    assert!(!due(T, T - 61_000));
    assert!(!due(T, T + 120_000));
    assert!(!due(i64::MIN, i64::MAX));
}

#[test]
fn due_schedule_fires_and_keeps_cadence() {
    let mut s = schedule(Some(T), "*/5 * * * *");
    let now = T + 10_000;
    assert_eq!(beat_schedule(&mut s, now), BeatOutcome::Fired);
    assert_eq!(s.last_called_at, Some(now));
    assert_eq!(s.next_call, Some(T + 300_000));
}

#[test]
fn schedule_outside_tolerance_is_untouched() {
    let mut s = schedule(Some(T), "*/5 * * * *");
    assert_eq!(beat_schedule(&mut s, T + 120_000), BeatOutcome::NotDue);
    assert_eq!(s.last_called_at, None);
    assert_eq!(s.next_call, Some(T));
}

#[test]
fn schedule_without_next_call_never_fires() {
    let mut s = schedule(None, "*/5 * * * *");
    assert_eq!(beat_schedule(&mut s, T), BeatOutcome::Skipped);
    assert_eq!(s.next_call, None);
    assert_eq!(s.last_called_at, None);
}

#[test]
fn bad_cron_leaves_schedule_as_it_was() {
    let mut s = schedule(Some(T), "every five minutes");
    assert_eq!(beat_schedule(&mut s, T + 10_000), BeatOutcome::BadCron);
    assert_eq!(s.next_call, Some(T));
    assert_eq!(s.last_called_at, None);
}

#[test]
fn cycle_handles_each_schedule_on_its_own() {
    let schedules = vec![
        schedule(Some(T), "*/5 * * * *"),
        schedule(Some(T), "bad"),
        schedule(None, "*/5 * * * *"),
        schedule(Some(T - 3_600_000), "0 * * * *"),
        schedule(Some(T + 5_000), "0 * * * *"),
    ];
    let now = T + 10_000;
    let (after, outcomes) = beat_cycle(schedules, now);
    assert_eq!(
        outcomes,
        vec![
            BeatOutcome::Fired,
            BeatOutcome::BadCron,
            BeatOutcome::Skipped,
            BeatOutcome::NotDue,
            BeatOutcome::Fired,
        ]
    );
    assert_eq!(after[0].next_call, Some(T + 300_000));
    assert_eq!(after[1].next_call, Some(T));
    assert_eq!(after[3].next_call, Some(T - 3_600_000));
    assert_eq!(after[4].next_call, Some(T + 3_600_000));
    assert_eq!(after[4].last_called_at, Some(now));
    assert!(beat_cycle(Vec::new(), now).1.is_empty());
}
