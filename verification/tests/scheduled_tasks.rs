use chrono::{Datelike as _, Local, TimeZone as _, Utc};

use hermit_core::model::DayOfWeek;
use hermit_core::scheduled_tasks::{
    local_day, local_day_of, refresh_library_task, time_of_day, trigger_due, trigger_due_on,
    HermitTaskManager, LocalDay, TaskCompletionStatus, TaskDescription, TaskState, TaskTriggerInfo,
    TaskTriggerInfoType, TICKS_PER_SECOND,
};
use hermit_core::service_error::ServiceError;
use hermit_core::table::Table;
use hermit_core::time::{Timestamp, LATEST_NANOS};

fn ts(t: chrono::DateTime<Utc>) -> Timestamp {
    Timestamp {
        nanos: i128::from(t.timestamp()) * 1_000_000_000 + i128::from(t.timestamp_subsec_nanos()),
    }
}

fn trigger(type_: TaskTriggerInfoType) -> TaskTriggerInfo {
    TaskTriggerInfo {
        type_,
        time_of_day_ticks: None,
        interval_ticks: None,
        day_of_week: None,
        max_runtime_ticks: None,
    }
}

fn task(key: &str, triggers: Vec<TaskTriggerInfo>) -> TaskDescription {
    TaskDescription {
        key: key.to_owned(),
        name: key.to_uppercase(),
        description: "d".to_owned(),
        category: "c".to_owned(),
        is_hidden: false,
        default_triggers: triggers,
    }
}

fn at(seconds: i128) -> Timestamp {
    Timestamp { nanos: seconds * 1_000_000_000 }
}

#[test]
fn interval_trigger_due_after_interval_from_latest_reference() {
    let start = Utc
        .with_ymd_and_hms(2026, 7, 1, 0, 0, 0)
        .single()
        .expect("ts");
    let trigger_ = TaskTriggerInfo {
        interval_ticks: Some(3600 * TICKS_PER_SECOND), // 1 hour
        ..trigger(TaskTriggerInfoType::IntervalTrigger)
    };

    // Not due 30 minutes after scheduler start.
    let now = start + chrono::Duration::minutes(30);
    assert!(!trigger_due(&trigger_, ts(now), None, None, ts(start)));

    // Due one hour after scheduler start.
    let now = start + chrono::Duration::hours(1);
    assert!(trigger_due(&trigger_, ts(now), None, None, ts(start)));

    // A recent run end pushes the next fire out.
    let run_end = start + chrono::Duration::minutes(45);
    assert!(!trigger_due(&trigger_, ts(now), None, Some(ts(run_end)), ts(start)));
    let now = run_end + chrono::Duration::hours(1);
    assert!(trigger_due(&trigger_, ts(now), None, Some(ts(run_end)), ts(start)));

    // Missing/zero interval never fires.
    let no_interval = trigger(TaskTriggerInfoType::IntervalTrigger);
    assert!(!trigger_due(&no_interval, ts(now), None, None, ts(start)));
}

#[test]
fn daily_trigger_due_once_per_day_at_time_of_day() {
    // Anchor "today at 03:00 local" from a fixed local date.
    let scheduled_local = Local
        .with_ymd_and_hms(2026, 7, 1, 3, 0, 0)
        .single()
        .expect("ts");
    let scheduled = scheduled_local.with_timezone(&Utc);
    let start = scheduled - chrono::Duration::hours(6);
    let trigger_ = TaskTriggerInfo {
        time_of_day_ticks: Some(3 * 3600 * TICKS_PER_SECOND),
        ..trigger(TaskTriggerInfoType::DailyTrigger)
    };

    // Before 03:00 local — not due.
    assert!(!trigger_due(
        &trigger_,
        ts(scheduled - chrono::Duration::minutes(5)),
        None,
        None,
        ts(start)
    ));
    // After 03:00 local, never fired — due.
    let now = scheduled + chrono::Duration::minutes(5);
    assert!(trigger_due(&trigger_, ts(now), None, None, ts(start)));
    // Already fired for this occurrence — not due again.
    assert!(!trigger_due(&trigger_, ts(now), Some(ts(now)), None, ts(start)));
    // Next day, same wall time — due again.
    let tomorrow = now + chrono::Duration::days(1);
    assert!(trigger_due(&trigger_, ts(tomorrow), Some(ts(now)), None, ts(start)));
    // An occurrence that predates scheduler start never fires: a boot at
    // noon must not immediately run a daily-at-3am task.
    let late_start = scheduled + chrono::Duration::hours(9);
    assert!(!trigger_due(
        &trigger_,
        ts(late_start + chrono::Duration::minutes(5)),
        None,
        None,
        ts(late_start)
    ));
}

#[test]
fn weekly_trigger_requires_matching_weekday() {
    // 2026-07-01 is a Wednesday.
    let scheduled_local = Local
        .with_ymd_and_hms(2026, 7, 1, 3, 0, 0)
        .single()
        .expect("ts");
    assert_eq!(scheduled_local.weekday(), chrono::Weekday::Wed);
    let scheduled = scheduled_local.with_timezone(&Utc);
    let start = scheduled - chrono::Duration::hours(6);
    let now = scheduled + chrono::Duration::minutes(5);

    let wednesday = TaskTriggerInfo {
        time_of_day_ticks: Some(3 * 3600 * TICKS_PER_SECOND),
        day_of_week: Some(DayOfWeek::Wednesday),
        ..trigger(TaskTriggerInfoType::WeeklyTrigger)
    };
    assert!(trigger_due(&wednesday, ts(now), None, None, ts(start)));

    let thursday = TaskTriggerInfo {
        day_of_week: Some(DayOfWeek::Thursday),
        ..wednesday.clone()
    };
    assert!(!trigger_due(&thursday, ts(now), None, None, ts(start)));

    // Weekly without a day never fires.
    let dayless = TaskTriggerInfo {
        day_of_week: None,
        ..wednesday
    };
    assert!(!trigger_due(&dayless, ts(now), None, None, ts(start)));
}

#[test]
fn the_local_day_decides() {
    let daily = TaskTriggerInfo {
        time_of_day_ticks: Some(0),
        ..trigger(TaskTriggerInfoType::DailyTrigger)
    };
    let day = LocalDay { weekday: DayOfWeek::Monday, occurrence: Some(at(100)) };
    assert!(trigger_due_on(&daily, at(100), None, None, at(50), day.clone()));
    assert!(!trigger_due_on(&daily, at(99), None, None, at(50), day.clone()));
    // A fired trigger rests until its next occurrence.
    assert!(!trigger_due_on(&daily, at(200), Some(at(100)), None, at(50), day.clone()));
    // An occurrence from before the start was missed.
    assert!(!trigger_due_on(&daily, at(200), None, None, at(150), day));
    // A clock time that the day does not have does not come.
    let gap = LocalDay { weekday: DayOfWeek::Monday, occurrence: None };
    assert!(!trigger_due_on(&daily, at(200), None, None, at(50), gap));
}

#[test]
fn the_local_calendar_is_asked() {
    let scheduled = Local.with_ymd_and_hms(2026, 7, 1, 3, 4, 5).single().expect("ts");
    let noon = Local.with_ymd_and_hms(2026, 7, 1, 12, 0, 0).single().expect("ts");
    let daily = TaskTriggerInfo {
        time_of_day_ticks: Some((3 * 3600 + 4 * 60 + 5) * TICKS_PER_SECOND),
        ..trigger(TaskTriggerInfoType::DailyTrigger)
    };
    let day = local_day(&daily, ts(noon.with_timezone(&Utc)));
    assert_eq!(day.weekday, DayOfWeek::Wednesday);
    assert_eq!(day.occurrence, Some(ts(scheduled.with_timezone(&Utc))));
    // The day before is another one.
    let before = noon - chrono::Duration::days(1);
    let day = local_day(&daily, ts(before.with_timezone(&Utc)));
    assert_eq!(day.weekday, DayOfWeek::Tuesday);
    let earlier = scheduled - chrono::Duration::days(1);
    assert_eq!(day.occurrence, Some(ts(earlier.with_timezone(&Utc))));
    // Without a time of day there is no occurrence.
    let none = local_day(&trigger(TaskTriggerInfoType::DailyTrigger), at(0));
    assert_eq!(none.occurrence, None);
}

#[test]
fn the_time_of_day_is_hours_minutes_seconds() {
    assert_eq!(time_of_day((3 * 3600 + 4 * 60 + 5) * TICKS_PER_SECOND), Some((3, 4, 5)));
    // A day later is the same time of day.
    assert_eq!(time_of_day(27 * 3600 * TICKS_PER_SECOND), Some((3, 0, 0)));
    assert_eq!(time_of_day(0), Some((0, 0, 0)));
}

#[test]
fn register_list_and_run() {
    let mut reg = HermitTaskManager::new();
    reg.register(task("counting", Vec::new()));
    let list = reg.list();
    assert_eq!(list.len(), 1);
    assert_eq!(list[0].key, "counting");
    assert_eq!(list[0].state, TaskState::Idle);
    assert!(list[0].last_execution_result.is_none());

    reg.claim("counting", at(1)).unwrap();
    assert_eq!(reg.get("counting").unwrap().state, TaskState::Running);
    reg.track("counting", 7);
    reg.finish("counting", at(1), None, at(2));
    let info = reg.get("counting").unwrap();
    assert_eq!(info.state, TaskState::Idle);
    let result = info.last_execution_result.unwrap();
    assert_eq!(result.status, TaskCompletionStatus::Completed);
    assert!(result.end_time_utc.nanos >= result.start_time_utc.nanos);
    assert_eq!(result.start_time_utc, at(1));
    assert_eq!(result.end_time_utc, at(2));
    assert_eq!(result.name, "COUNTING");
    assert_eq!(result.error_message, None);
}

#[test]
fn tasks_are_listed_by_their_keys() {
    let mut reg = HermitTaskManager::new();
    reg.register(task("b", Vec::new()));
    reg.register(task("a", Vec::new()));
    let keys: Vec<String> = reg.list().into_iter().map(|t| t.key).collect();
    assert_eq!(keys, vec!["a", "b"]);
}

#[test]
fn a_running_task_is_not_claimed_again() {
    let mut reg = HermitTaskManager::new();
    reg.register(task("a", Vec::new()));
    reg.claim("a", at(1)).unwrap();
    assert!(reg.claim("a", at(2)).is_err());
}

#[test]
fn cancel_aborts_a_queued_run_and_records_cancelled() {
    let mut reg = HermitTaskManager::new();
    reg.register(task("a", Vec::new()));
    reg.claim("a", at(1)).unwrap();
    reg.track("a", 7);
    assert_eq!(reg.stop_run("a", TaskCompletionStatus::Cancelled, at(3)).unwrap(), Some(7));
    let info = reg.get("a").unwrap();
    assert_eq!(info.state, TaskState::Idle);
    assert_eq!(
        info.last_execution_result.unwrap().status,
        TaskCompletionStatus::Cancelled
    );
    // A stopped task can start again.
    reg.claim("a", at(4)).unwrap();
    assert_eq!(reg.get("a").unwrap().state, TaskState::Running);
}

#[test]
fn failing_task_records_failed_and_propagates() {
    let mut reg = HermitTaskManager::new();
    reg.register(task("a", Vec::new()));
    reg.claim("a", at(1)).unwrap();
    reg.finish("a", at(1), Some("backend error: boom".to_owned()), at(2));
    let result = reg.get("a").unwrap().last_execution_result.unwrap();
    assert_eq!(result.status, TaskCompletionStatus::Failed);
    assert_eq!(result.error_message.as_deref(), Some("backend error: boom"));
}

#[test]
fn unknown_key_is_not_found() {
    let mut reg = HermitTaskManager::new();
    assert!(matches!(reg.claim("nope", at(1)), Err(ServiceError::NotFound(_))));
    assert!(matches!(
        reg.stop_run("nope", TaskCompletionStatus::Cancelled, at(1)),
        Err(ServiceError::NotFound(_))
    ));
    assert!(matches!(reg.set_triggers("nope", &Vec::new()), Err(ServiceError::NotFound(_))));
    assert!(reg.get("nope").is_none());
}

#[test]
fn register_replaces_same_key() {
    let mut reg = HermitTaskManager::new();
    reg.register(task("counting", Vec::new()));
    let mut other = task("counting", Vec::new());
    other.is_hidden = true;
    other.name = "Other".to_owned();
    reg.register(other);
    assert_eq!(reg.list().len(), 1);
    assert!(reg.get("counting").unwrap().is_hidden);
    assert_eq!(reg.get("counting").unwrap().name, "Other");
}

#[test]
fn set_triggers_overrides_and_persists() {
    let mut reg = HermitTaskManager::new();
    reg.register(task("counting", Vec::new()));
    assert!(reg.get("counting").unwrap().triggers.is_empty());
    let triggers = vec![TaskTriggerInfo {
        interval_ticks: Some(42),
        ..trigger(TaskTriggerInfoType::IntervalTrigger)
    }];
    reg.set_triggers("counting", &triggers).unwrap();
    let info = reg.get("counting").unwrap();
    assert_eq!(info.triggers.len(), 1);
    assert_eq!(info.triggers[0].interval_ticks, Some(42));

    // A registry over the stored overrides restores them when the task registers.
    let mut stored = Table::new();
    stored.insert("counting".to_owned(), triggers);
    let mut again = HermitTaskManager::new();
    again.set_trigger_store(stored);
    again.register(task("counting", Vec::new()));
    let restored = again.get("counting").unwrap().triggers;
    assert_eq!(restored.len(), 1);
    assert_eq!(restored[0].interval_ticks, Some(42));
    assert!(matches!(again.set_triggers("nope", &restored), Err(ServiceError::NotFound(_))));
}

#[test]
fn scheduler_fires_startup_triggers_and_aborts_overruns() {
    let mut reg = HermitTaskManager::new();
    reg.register(task("boot", vec![trigger(TaskTriggerInfoType::StartupTrigger)]));
    reg.register(task(
        "long",
        vec![TaskTriggerInfo {
            max_runtime_ticks: Some(10 * TICKS_PER_SECOND),
            interval_ticks: Some(5 * TICKS_PER_SECOND),
            ..trigger(TaskTriggerInfoType::IntervalTrigger)
        }],
    ));
    assert_eq!(reg.keys_with_startup_trigger(), vec!["boot"]);

    let start = at(1_700_000_000);
    let sweep = reg.scheduler_sweep(start, at(1_700_000_005));
    assert_eq!(sweep.due, vec!["long"]);
    assert!(sweep.overrun.is_empty());
    // It fired, and rests.
    let sweep = reg.scheduler_sweep(start, at(1_700_000_006));
    assert!(sweep.due.is_empty());

    reg.claim("long", at(1_700_000_006)).unwrap();
    let sweep = reg.scheduler_sweep(start, at(1_700_000_012));
    assert!(sweep.overrun.is_empty());
    let sweep = reg.scheduler_sweep(start, at(1_700_000_017));
    assert_eq!(sweep.overrun, vec!["long"]);
    assert!(sweep.due.is_empty());
}

#[test]
fn the_library_is_scanned_by_a_task() {
    let t = refresh_library_task();
    assert_eq!(t.key, "RefreshLibrary");
    assert!(!t.default_triggers.is_empty());
}

#[test]
fn the_day_is_made_of_the_answers() {
    let days = [
        DayOfWeek::Sunday,
        DayOfWeek::Monday,
        DayOfWeek::Tuesday,
        DayOfWeek::Wednesday,
        DayOfWeek::Thursday,
        DayOfWeek::Friday,
        DayOfWeek::Saturday,
    ];
    for (number, day) in (0u32..).zip(days) {
        assert_eq!(local_day_of(number, None).weekday, day);
        assert_eq!(local_day_of(number, None).occurrence, None);
    }
    let found = local_day_of(2, Some(-7));
    assert_eq!(found.weekday, DayOfWeek::Tuesday);
    assert_eq!(found.occurrence, Some(Timestamp { nanos: -7_000_000_000 }));
}

#[test]
fn an_interval_does_not_need_a_local_day() {
    let last = Timestamp { nanos: LATEST_NANOS };
    let hour = TaskTriggerInfo {
        interval_ticks: Some(3600 * TICKS_PER_SECOND),
        ..trigger(TaskTriggerInfoType::IntervalTrigger)
    };
    assert!(trigger_due(&hour, last, None, None, at(0)));
    assert!(!trigger_due(&hour, last, Some(last), None, at(0)));
    assert!(!trigger_due(&trigger(TaskTriggerInfoType::StartupTrigger), last, None, None, at(0)));
    let mut reg = HermitTaskManager::new();
    reg.register(refresh_library_task());
    let sweep = reg.scheduler_sweep(at(0), last);
    assert_eq!(sweep.due, vec!["RefreshLibrary".to_owned()]);
    assert!(sweep.overrun.is_empty());
}
