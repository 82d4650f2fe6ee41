//! Background tasks: what they are, whether they run, and when they are due.
//!
//! A task runs when it is asked to, and when one of its triggers is due. At most
//! one run of a task goes on at a time. The runs themselves are outside; here
//! stands which may start, which must stop, and what is remembered of them.
use vstd::prelude::*;

use crate::model::DayOfWeek;
use crate::service_error::{ErrorView, ServiceError};
use crate::sort::{inserted, sort_by, sorted, text_before, text_less};
use crate::sql::copy_text;
use crate::table::Table;
use crate::text::{concat, concat3, opt_text, same_text, texts};
use crate::time::{Timestamp, EARLIEST_NANOS, LATEST_NANOS};
use crate::user_entity_ext::day_number;

verus! {

/// How many ticks of a hundred nanoseconds a second has.
pub const TICKS_PER_SECOND: i64 = 10_000_000;

/// A day in nanoseconds.
pub const DAY_NANOS: i128 = 86_400_000_000_000;

// ---------------------------------------------------------------------------
// Triggers
// ---------------------------------------------------------------------------
/// How a trigger decides.
#[derive(Debug, Clone, Copy, PartialEq, Eq, Structural)]
pub enum TaskTriggerInfoType {
    /// Once a day, at a time of day.
    DailyTrigger,
    /// Once a week, at a time of one day.
    WeeklyTrigger,
    /// Again and again, after an interval.
    IntervalTrigger,
    /// When the scheduler starts.
    StartupTrigger,
}

/// When a task is to run.
#[derive(Debug, Clone, Copy, PartialEq, Eq, Structural)]
pub struct TaskTriggerInfo {
    pub type_: TaskTriggerInfoType,
    pub time_of_day_ticks: Option<i64>,
    pub interval_ticks: Option<i64>,
    pub day_of_week: Option<DayOfWeek>,
    /// How long a run may take.
    pub max_runtime_ticks: Option<i64>,
}

/// What the local calendar says of a trigger, at some time: which day of the week
/// it is there, and when on that day the trigger's time of day is, if there is
/// such a time.
#[derive(Debug, Clone, Copy, PartialEq, Eq, Structural)]
pub struct LocalDay {
    pub weekday: DayOfWeek,
    pub occurrence: Option<Timestamp>,
}

/// The quotient, rounded towards zero.
pub open spec fn quotient(a: int, b: int) -> int {
    if a >= 0 {
        a / b
    } else {
        -((-a) / b)
    }
}

/// What the rounded quotient leaves; it has the sign of `a`.
pub open spec fn remainder(a: int, b: int) -> int {
    a - b * quotient(a, b)
}

/// Ticks as nanoseconds, in whole microseconds.
pub open spec fn ticks_nanos(ticks: int) -> int {
    quotient(ticks, 10) * 1000
}

/// The hour, minute and second of a time of day. Below zero there is none, except
/// for whole hours, which count back from hour sixteen.
pub open spec fn clock_time(ticks: int) -> Option<(int, int, int)> {
    let seconds = quotient(ticks, TICKS_PER_SECOND as int);
    let hours = quotient(seconds, 3600);
    let minute = remainder(quotient(seconds, 60), 60);
    let second = remainder(seconds, 60);
    if minute < 0 || second < 0 {
        None
    } else {
        Some(
            (
                if hours < 0 {
                    (hours + 0x1_0000_0000) % 24
                } else {
                    hours % 24
                },
                minute,
                second,
            ),
        )
    }
}

/// The later of two times.
pub open spec fn later(a: Timestamp, b: Option<Timestamp>) -> Timestamp {
    match b {
        Some(t) => if t.nanos > a.nanos {
            t
        } else {
            a
        },
        None => a,
    }
}

/// Whether an interval trigger is due: the interval has passed since the latest of
/// its last fire, the end of the task's last run, and the scheduler's start.
pub open spec fn interval_due(
    trigger: TaskTriggerInfo,
    now: Timestamp,
    last_fire: Option<Timestamp>,
    last_run_end: Option<Timestamp>,
    scheduler_start: Timestamp,
) -> bool {
    match trigger.interval_ticks {
        Some(n) => n > 0 && now.nanos - later(later(scheduler_start, last_fire), last_run_end).nanos
            >= ticks_nanos(n as int),
        None => false,
    }
}

/// Whether an occurrence is due: it has come, not before the scheduler started,
/// and the trigger has not fired for it.
pub open spec fn occurrence_due(
    occurrence: Option<Timestamp>,
    now: Timestamp,
    last_fire: Option<Timestamp>,
    scheduler_start: Timestamp,
) -> bool {
    match occurrence {
        Some(t) => {
            &&& now.nanos >= t.nanos
            &&& t.nanos >= scheduler_start.nanos
            &&& last_fire matches Some(f) ==> f.nanos < t.nanos
        },
        None => false,
    }
}

/// Whether a trigger is due, given what the local calendar says.
pub open spec fn is_due(
    trigger: TaskTriggerInfo,
    now: Timestamp,
    last_fire: Option<Timestamp>,
    last_run_end: Option<Timestamp>,
    scheduler_start: Timestamp,
    local: LocalDay,
) -> bool {
    match trigger.type_ {
        TaskTriggerInfoType::StartupTrigger => false,
        TaskTriggerInfoType::IntervalTrigger => interval_due(
            trigger,
            now,
            last_fire,
            last_run_end,
            scheduler_start,
        ),
        TaskTriggerInfoType::DailyTrigger => trigger.time_of_day_ticks is Some && occurrence_due(
            local.occurrence,
            now,
            last_fire,
            scheduler_start,
        ),
        TaskTriggerInfoType::WeeklyTrigger => trigger.time_of_day_ticks is Some
            && trigger.day_of_week == Some(local.weekday) && occurrence_due(
            local.occurrence,
            now,
            last_fire,
            scheduler_start,
        ),
    }
}

/// A trigger that has just fired is not due again at once: not for the same
/// occurrence, nor before its interval has passed.
pub proof fn law_fired_trigger_rests(
    trigger: TaskTriggerInfo,
    now: Timestamp,
    last_run_end: Option<Timestamp>,
    scheduler_start: Timestamp,
    local: LocalDay,
)
    requires
        trigger.interval_ticks matches Some(n) ==> n >= 10,
    ensures
        !is_due(trigger, now, Some(now), last_run_end, scheduler_start, local),
{
}

/// A trigger by interval is due once the interval has passed since the scheduler started, since
/// the trigger last fired, and since the task last ended; and one without an interval never is.
pub proof fn law_interval_passes_since_everything(
    trigger: TaskTriggerInfo,
    now: Timestamp,
    last_fire: Option<Timestamp>,
    last_run_end: Option<Timestamp>,
    scheduler_start: Timestamp,
    local: LocalDay,
)
    requires
        trigger.type_ == TaskTriggerInfoType::IntervalTrigger,
    ensures
        is_due(trigger, now, last_fire, last_run_end, scheduler_start, local) <==> {
            &&& trigger.interval_ticks matches Some(n)
            &&& n > 0
            &&& now.nanos - scheduler_start.nanos >= n as int / 10 * 1000
            &&& last_fire matches Some(t) ==> now.nanos - t.nanos >= n as int / 10 * 1000
            &&& last_run_end matches Some(t) ==> now.nanos - t.nanos >= n as int / 10 * 1000
        },
{
}

/// A trigger by the day is due from its time on, once, if the scheduler was there by then.
pub proof fn law_time_of_day_fires_once(
    trigger: TaskTriggerInfo,
    now: Timestamp,
    last_fire: Option<Timestamp>,
    last_run_end: Option<Timestamp>,
    scheduler_start: Timestamp,
    local: LocalDay,
    at: Timestamp,
)
    requires
        local.occurrence == Some(at),
        trigger.time_of_day_ticks is Some,
    ensures
        trigger.type_ == TaskTriggerInfoType::DailyTrigger ==> (is_due(
            trigger,
            now,
            last_fire,
            last_run_end,
            scheduler_start,
            local,
        ) <==> scheduler_start.nanos <= at.nanos <= now.nanos && (last_fire matches Some(t) ==> t.nanos
            < at.nanos)),
        trigger.type_ == TaskTriggerInfoType::WeeklyTrigger ==> (is_due(
            trigger,
            now,
            last_fire,
            last_run_end,
            scheduler_start,
            local,
        ) <==> trigger.day_of_week == Some(local.weekday) && scheduler_start.nanos <= at.nanos
            <= now.nanos && (last_fire matches Some(t) ==> t.nanos < at.nanos)),
        trigger.type_ == TaskTriggerInfoType::StartupTrigger ==> !is_due(
            trigger,
            now,
            last_fire,
            last_run_end,
            scheduler_start,
            local,
        ),
{
}

/// The time of day of a number of ticks is that many seconds behind midnight.
pub proof fn law_clock_time_counts_from_midnight(ticks: int)
    requires
        0 <= ticks < 24 * 3600 * TICKS_PER_SECOND,
    ensures
        clock_time(ticks) matches Some((hour, minute, second)) && 0 <= hour < 24 && 0 <= minute < 60
            && 0 <= second < 60 && (hour * 3600 + minute * 60 + second) * TICKS_PER_SECOND <= ticks
            < (hour * 3600 + minute * 60 + second + 1) * TICKS_PER_SECOND,
{
}

/// What was scheduled before the scheduler started does not fire.
pub proof fn law_missed_occurrence_is_skipped(
    trigger: TaskTriggerInfo,
    now: Timestamp,
    last_fire: Option<Timestamp>,
    last_run_end: Option<Timestamp>,
    scheduler_start: Timestamp,
    local: LocalDay,
)
    requires
        trigger.type_ == TaskTriggerInfoType::DailyTrigger || trigger.type_
            == TaskTriggerInfoType::WeeklyTrigger,
        local.occurrence matches Some(t) ==> t.nanos < scheduler_start.nanos,
    ensures
        !is_due(trigger, now, last_fire, last_run_end, scheduler_start, local),
{
}

fn quotient_of(a: i64, b: i64) -> (r: i64)
    requires
        b > 1,
    ensures
        r == quotient(a as int, b as int),
{
    if a >= 0 {
        a / b
    } else {
        let q: i128 = (-(a as i128)) / (b as i128);
        proof {
            let n = -(a as int);
            let d = b as int;
            assert(0 <= n / d <= n) by (nonlinear_arith)
                requires
                    n >= 0,
                    d >= 1,
            ;
            assert(n / d <= 0x4000_0000_0000_0000) by (nonlinear_arith)
                requires
                    0 <= n <= 0x8000_0000_0000_0000,
                    d >= 2,
            ;
        }
        (-q) as i64
    }
}

/// Ticks as nanoseconds, in whole microseconds.
fn ticks_to_nanos(ticks: i64) -> (r: i128)
    ensures
        r == ticks_nanos(ticks as int),
        -1_000_000_000_000_000_000_000 <= r <= 1_000_000_000_000_000_000_000,
{
    (quotient_of(ticks, 10) as i128) * 1000
}

/// The hour, minute and second of a time of day.
pub fn time_of_day(ticks: i64) -> (r: Option<(u32, u32, u32)>)
    ensures
        match r {
            Some((h, m, s)) => clock_time(ticks as int) == Some((h as int, m as int, s as int)) && h
                < 24 && m < 60 && s < 60,
            None => clock_time(ticks as int) is None,
        },
{
    let seconds: i64 = quotient_of(ticks, TICKS_PER_SECOND);
    assert(-922_337_203_686 <= seconds <= 922_337_203_686);
    let hours: i64 = quotient_of(seconds, 3600);
    let minutes: i64 = quotient_of(seconds, 60);
    let minute: i64 = minutes - 60 * quotient_of(minutes, 60);
    let second: i64 = seconds - 60 * quotient_of(seconds, 60);
    assert(-300_000_000 <= hours <= 300_000_000);
    if minute < 0 || second < 0 {
        return None;
    }
    let hour: i64 = if hours < 0 {
        (hours + 0x1_0000_0000) % 24
    } else {
        hours % 24
    };
    Some((hour as u32, minute as u32, second as u32))
}

/// Whether a trigger is due, given what the local calendar says.
pub fn trigger_due_on(
    trigger: &TaskTriggerInfo,
    now: Timestamp,
    last_fire: Option<Timestamp>,
    last_run_end: Option<Timestamp>,
    scheduler_start: Timestamp,
    local: LocalDay,
) -> (r: bool)
    requires
        now.in_calendar(),
        scheduler_start.in_calendar(),
        last_fire matches Some(t) ==> t.in_calendar(),
        last_run_end matches Some(t) ==> t.in_calendar(),
    ensures
        r == is_due(*trigger, now, last_fire, last_run_end, scheduler_start, local),
{
    match trigger.type_ {
        TaskTriggerInfoType::StartupTrigger => false,
        TaskTriggerInfoType::IntervalTrigger => match trigger.interval_ticks {
            Some(n) => {
                if n <= 0 {
                    return false;
                }
                let mut base: Timestamp = scheduler_start;
                if let Some(t) = last_fire {
                    if t.nanos > base.nanos {
                        base = t;
                    }
                }
                if let Some(t) = last_run_end {
                    if t.nanos > base.nanos {
                        base = t;
                    }
                }
                now.nanos - base.nanos >= ticks_to_nanos(n)
            },
            None => false,
        },
        TaskTriggerInfoType::DailyTrigger | TaskTriggerInfoType::WeeklyTrigger => {
            if trigger.time_of_day_ticks.is_none() {
                return false;
            }
            if trigger.type_ == TaskTriggerInfoType::WeeklyTrigger {
                match trigger.day_of_week {
                    Some(day) => {
                        if day != local.weekday {
                            return false;
                        }
                    },
                    None => {
                        return false;
                    },
                }
            }
            match local.occurrence {
                Some(t) => {
                    let fired: bool = match last_fire {
                        Some(f) => f.nanos >= t.nanos,
                        None => false,
                    };
                    now.nanos >= t.nanos && t.nanos >= scheduler_start.nanos && !fired
                },
                None => false,
            }
        },
    }
}

// ---------------------------------------------------------------------------
// The local calendar
// ---------------------------------------------------------------------------
/// Whether a time is at least a day away from either end of the calendar.
pub open spec fn has_local_day(t: Timestamp) -> bool {
    EARLIEST_NANOS + DAY_NANOS <= t.nanos <= LATEST_NANOS - DAY_NANOS
}

/// Whether local clocks can be this many seconds ahead of UTC: less than a day,
/// either way.
pub open spec fn is_offset(seconds: int) -> bool {
    -86_400 < seconds < 86_400
}

/// Whether `day`, counted from the start of 1970, can be the local date at a time.
pub open spec fn is_local_date(day: int, now: Timestamp) -> bool {
    exists|offset: int|
        #[trigger] is_offset(offset) && day == (now.nanos as int / 1_000_000_000 + offset) / 86_400
}

/// Whether local clocks can show the given second of the day `day` at a time.
pub open spec fn can_show(t: Timestamp, day: int, second_of_day: int) -> bool {
    t.nanos as int % 1_000_000_000 == 0 && is_offset(
        day * 86_400 + second_of_day - t.nanos as int / 1_000_000_000,
    )
}

impl LocalDay {
    /// Whether this can be what the local calendar says of a trigger on the day
    /// `day`: the day of the week is that of the day, the first of 1970 being a
    /// Thursday, and an occurrence is a time at which local clocks can show the
    /// trigger's time of that day.
    pub open spec fn is_on(self, trigger: TaskTriggerInfo, day: int) -> bool {
        &&& day_number(self.weekday) == (day + 4) % 7
        &&& match self.occurrence {
            Some(t) => match trigger.time_of_day_ticks {
                Some(ticks) => match clock_time(ticks as int) {
                    Some((h, m, s)) => can_show(t, day, h * 3600 + m * 60 + s),
                    None => false,
                },
                None => false,
            },
            None => true,
        }
    }

    /// Whether this can be what the local calendar says of a trigger at a time: on
    /// a day that can be the local date then.
    pub open spec fn is_local_at(self, trigger: TaskTriggerInfo, now: Timestamp) -> bool {
        exists|day: int| #[trigger] is_local_date(day, now) && self.is_on(trigger, day)
    }
}

/// `chrono::DateTime::with_timezone` with `chrono::Local`, at a whole second: the
/// local date as days from the start of 1970 (`NaiveDate::to_epoch_days`), and its
/// day of the week counted from Sunday (`chrono::Datelike::weekday`).
///
/// Local clocks are less than a day ahead of UTC or behind it (`FixedOffset`), and
/// both are of one and the same date. By how much the clocks differ, and so which
/// of the possible dates it is, depends on the machine's time zone.
#[verifier::external_body]
fn local_date(seconds: i64) -> (r: Option<(i32, u32)>)
    requires
        -8_334_601_142_400 <= seconds <= 8_210_266_790_399,
    ensures
        r is Some,
        r matches Some((day, weekday)) ==> weekday == (day + 4) % 7 && exists|offset: int|
            #[trigger] is_offset(offset) && day == (seconds + offset) / 86_400,
{
    let time = chrono::DateTime::from_timestamp(seconds, 0)?.with_timezone(&chrono::Local);
    let weekday = chrono::Datelike::weekday(&time).num_days_from_sunday();
    Some((time.date_naive().to_epoch_days(), weekday))
}

/// `chrono::TimeZone::from_local_datetime` of `chrono::Local`, and `earliest` of
/// what it gives: the earliest time, in seconds from the start of 1970, at which
/// local clocks show the given time of the given day, itself counted from there.
///
/// Local clocks are less than a day ahead of UTC or behind it (`FixedOffset`).
/// Whether they show the time on that day at all, and how far they are from UTC
/// then, depends on the machine's time zone.
#[verifier::external_body]
fn local_occurrence(day: i32, hour: u32, minute: u32, second: u32) -> (r: Option<i64>)
    ensures
        r matches Some(t) ==> is_offset(
            day * 86_400 + hour * 3600 + minute * 60 + second - t,
        ),
{
    let time = chrono::NaiveDate::from_epoch_days(day)?.and_hms_opt(hour, minute, second)?;
    chrono::TimeZone::from_local_datetime(&chrono::Local, &time).earliest().map(|t| t.timestamp())
}

/// What the local calendar says, given the day of the week counted from Sunday and
/// the seconds from the start of 1970 to the occurrence on the day, if there is one.
pub fn local_day_of(weekday: u32, found: Option<i64>) -> (r: LocalDay)
    requires
        weekday <= 6,
    ensures
        day_number(r.weekday) == weekday,
        match found {
            Some(t) => r.occurrence matches Some(o) && o.nanos == t * 1_000_000_000,
            None => r.occurrence is None,
        },
{
    let weekday: DayOfWeek = if weekday == 0 {
        DayOfWeek::Sunday
    } else if weekday == 1 {
        DayOfWeek::Monday
    } else if weekday == 2 {
        DayOfWeek::Tuesday
    } else if weekday == 3 {
        DayOfWeek::Wednesday
    } else if weekday == 4 {
        DayOfWeek::Thursday
    } else if weekday == 5 {
        DayOfWeek::Friday
    } else {
        DayOfWeek::Saturday
    };
    let occurrence: Option<Timestamp> = match found {
        Some(t) => Some(Timestamp { nanos: (t as i128) * 1_000_000_000 }),
        None => None,
    };
    LocalDay { weekday, occurrence }
}

/// The whole seconds since the start of 1970, rounded down.
fn whole_seconds(t: Timestamp) -> (r: i64)
    requires
        t.in_calendar(),
    ensures
        r == t.nanos as int / 1_000_000_000,
{
    if t.nanos >= 0 {
        (t.nanos / 1_000_000_000) as i64
    } else {
        let up: i128 = (-t.nanos + 999_999_999) / 1_000_000_000;
        (-up) as i64
    }
}

/// What the local calendar says of a trigger. Which of the possible dates it is
/// there, and when clocks show the trigger's time on it, if they do, depends on the
/// machine's time zone; a trigger whose time of day is not on the clock has no
/// occurrence. What is made of the answers is fixed (see `local_day_of`).
pub fn local_day(trigger: &TaskTriggerInfo, now: Timestamp) -> (r: LocalDay)
    requires
        has_local_day(now),
    ensures
        r.is_local_at(*trigger, now),
{
    let seconds: i64 = whole_seconds(now);
    let (day, n): (i32, u32) = local_date(seconds).unwrap();
    assert(is_local_date(day as int, now));
    let found: Option<i64> = match trigger.time_of_day_ticks {
        Some(ticks) => match time_of_day(ticks) {
            Some((h, m, s)) => local_occurrence(day, h, m, s),
            None => None,
        },
        None => None,
    };
    let local: LocalDay = local_day_of(n, found);
    assert(local.is_on(*trigger, day as int));
    local
}

/// Whether a trigger goes by the local calendar.
pub open spec fn follows_calendar(trigger: TaskTriggerInfo) -> bool {
    trigger.type_ == TaskTriggerInfoType::DailyTrigger || trigger.type_
        == TaskTriggerInfoType::WeeklyTrigger
}

/// The local calendar, for a trigger that goes by it. What is given for another
/// counts for nothing.
fn calendar_of(trigger: &TaskTriggerInfo, now: Timestamp) -> (r: LocalDay)
    requires
        follows_calendar(*trigger) ==> has_local_day(now),
    ensures
        follows_calendar(*trigger) ==> r.is_local_at(*trigger, now),
{
    match trigger.type_ {
        TaskTriggerInfoType::DailyTrigger | TaskTriggerInfoType::WeeklyTrigger => local_day(
            trigger,
            now,
        ),
        TaskTriggerInfoType::StartupTrigger | TaskTriggerInfoType::IntervalTrigger => {
            local_day_of(0, None)
        },
    }
}

/// Whether a trigger is due. For daily and weekly triggers this depends on the
/// machine's time zone; apart from that it is fixed (see `is_due`).
pub fn trigger_due(
    trigger: &TaskTriggerInfo,
    now: Timestamp,
    last_fire: Option<Timestamp>,
    last_run_end: Option<Timestamp>,
    scheduler_start: Timestamp,
) -> (r: bool)
    requires
        now.in_calendar(),
        follows_calendar(*trigger) ==> has_local_day(now),
        scheduler_start.in_calendar(),
        last_fire matches Some(t) ==> t.in_calendar(),
        last_run_end matches Some(t) ==> t.in_calendar(),
    ensures
        follows_calendar(*trigger) ==> exists|local: LocalDay| #[trigger]
            local.is_local_at(*trigger, now) && r == is_due(
                *trigger,
                now,
                last_fire,
                last_run_end,
                scheduler_start,
                local,
            ),
        trigger.type_ == TaskTriggerInfoType::StartupTrigger ==> !r,
        trigger.type_ == TaskTriggerInfoType::IntervalTrigger ==> r == interval_due(
            *trigger,
            now,
            last_fire,
            last_run_end,
            scheduler_start,
        ),
{
    let local: LocalDay = calendar_of(trigger, now);
    trigger_due_on(trigger, now, last_fire, last_run_end, scheduler_start, local)
}

// ---------------------------------------------------------------------------
// Tasks
// ---------------------------------------------------------------------------
/// Whether a task runs.
#[derive(Debug, Clone, Copy, PartialEq, Eq, Structural)]
pub enum TaskState {
    Idle,
    Running,
}

/// How a run ended.
#[derive(Debug, Clone, Copy, PartialEq, Eq, Structural)]
pub enum TaskCompletionStatus {
    Completed,
    Failed,
    Cancelled,
    /// Stopped by the scheduler, for taking too long.
    Aborted,
}

/// What is remembered of a run.
#[derive(Debug, Clone)]
pub struct TaskResult {
    pub start_time_utc: Timestamp,
    pub end_time_utc: Timestamp,
    pub status: TaskCompletionStatus,
    pub name: String,
    pub key: String,
    pub error_message: Option<String>,
}

/// What a run's result stands for.
pub struct ResultView {
    pub start_time_utc: Timestamp,
    pub end_time_utc: Timestamp,
    pub status: TaskCompletionStatus,
    pub name: Seq<char>,
    pub key: Seq<char>,
    pub error_message: Option<Seq<char>>,
}

impl View for TaskResult {
    type V = ResultView;

    open spec fn view(&self) -> ResultView {
        ResultView {
            start_time_utc: self.start_time_utc,
            end_time_utc: self.end_time_utc,
            status: self.status,
            name: self.name@,
            key: self.key@,
            error_message: opt_text(self.error_message),
        }
    }
}

/// What a task tells of itself.
#[derive(Debug, Clone)]
pub struct TaskDescription {
    pub key: String,
    pub name: String,
    pub description: String,
    pub category: String,
    pub is_hidden: bool,
    pub default_triggers: Vec<TaskTriggerInfo>,
}

/// A registered task.
#[derive(Debug)]
pub struct Registration {
    pub task: TaskDescription,
    pub state: TaskState,
    pub last_result: Option<TaskResult>,
    /// The triggers that replace the task's own.
    pub triggers_override: Option<Vec<TaskTriggerInfo>>,
    /// The handle by which a run in the background can be stopped.
    pub abort: Option<u64>,
    pub started_at: Option<Timestamp>,
    /// When each trigger fired last, by its place among the triggers.
    pub trigger_fires: Table<usize, Timestamp>,
}

/// What a registered task stands for.
#[verifier::ext_equal]
pub struct RegistrationView {
    pub key: Seq<char>,
    pub name: Seq<char>,
    pub description: Seq<char>,
    pub category: Seq<char>,
    pub is_hidden: bool,
    pub triggers: Seq<TaskTriggerInfo>,
    pub state: TaskState,
    pub last_result: Option<ResultView>,
    pub abort: Option<u64>,
    pub started_at: Option<Timestamp>,
    pub fires: Map<usize, Timestamp>,
}

/// What an optional result stands for.
pub open spec fn opt_result(r: Option<TaskResult>) -> Option<ResultView> {
    match r {
        Some(t) => Some(t@),
        None => None,
    }
}

impl View for Registration {
    type V = RegistrationView;

    open spec fn view(&self) -> RegistrationView {
        RegistrationView {
            key: self.task.key@,
            name: self.task.name@,
            description: self.task.description@,
            category: self.task.category@,
            is_hidden: self.task.is_hidden,
            triggers: match self.triggers_override {
                Some(t) => t@,
                None => self.task.default_triggers@,
            },
            state: self.state,
            last_result: opt_result(self.last_result),
            abort: self.abort,
            started_at: self.started_at,
            fires: self.trigger_fires@,
        }
    }
}

/// What the outside sees of a task.
#[derive(Debug, Clone)]
pub struct TaskInfo {
    pub key: String,
    pub name: String,
    pub description: String,
    pub category: String,
    pub is_hidden: bool,
    pub state: TaskState,
    pub last_execution_result: Option<TaskResult>,
    pub triggers: Vec<TaskTriggerInfo>,
}

impl TaskInfo {
    /// Whether this shows the task `t`.
    pub open spec fn shows(&self, t: RegistrationView) -> bool {
        &&& self.key@ == t.key
        &&& self.name@ == t.name
        &&& self.description@ == t.description
        &&& self.category@ == t.category
        &&& self.is_hidden == t.is_hidden
        &&& self.state == t.state
        &&& opt_result(self.last_execution_result) == t.last_result
        &&& self.triggers@ == t.triggers
    }
}

fn copy_triggers(v: &Vec<TaskTriggerInfo>) -> (r: Vec<TaskTriggerInfo>)
    ensures
        r@ == v@,
{
    let mut out: Vec<TaskTriggerInfo> = Vec::new();
    let mut i: usize = 0;
    while i < v.len()
        invariant
            i <= v.len(),
            out@ == v@.take(i as int),
        decreases v.len() - i,
    {
        out.push(v[i]);
        assert(out@ =~= v@.take(i + 1));
        i += 1;
    }
    assert(v@.take(v@.len() as int) =~= v@);
    out
}

impl TaskResult {
    /// The same result once more.
    pub fn duplicate(&self) -> (r: Self)
        ensures
            r@ == self@,
    {
        TaskResult {
            start_time_utc: self.start_time_utc,
            end_time_utc: self.end_time_utc,
            status: self.status,
            name: self.name.clone(),
            key: self.key.clone(),
            error_message: copy_text(&self.error_message),
        }
    }
}

impl Registration {
    /// The triggers that count: those that replace the task's own, or its own.
    pub fn effective_triggers(&self) -> (r: Vec<TaskTriggerInfo>)
        ensures
            r@ == self@.triggers,
    {
        match &self.triggers_override {
            Some(t) => copy_triggers(t),
            None => copy_triggers(&self.task.default_triggers),
        }
    }

    /// What the outside sees of the task.
    pub fn to_info(&self) -> (r: TaskInfo)
        ensures
            r.shows(self@),
    {
        TaskInfo {
            key: self.task.key.clone(),
            name: self.task.name.clone(),
            description: self.task.description.clone(),
            category: self.task.category.clone(),
            is_hidden: self.task.is_hidden,
            state: self.state,
            last_execution_result: match &self.last_result {
                Some(t) => Some(t.duplicate()),
                None => None,
            },
            triggers: self.effective_triggers(),
        }
    }
}

// ---------------------------------------------------------------------------
// The registry
// ---------------------------------------------------------------------------
/// The registered tasks, in the order in which they came, and the triggers that
/// replace tasks' own.
#[derive(Debug)]
pub struct HermitTaskManager {
    pub tasks: Vec<Registration>,
    pub stored_overrides: Table<String, Vec<TaskTriggerInfo>>,
}

/// The registered tasks, as they stand.
pub type Tasks = Seq<RegistrationView>;

/// What a list of tasks stands for.
pub open spec fn task_views(v: Seq<Registration>) -> Tasks {
    Seq::new(v.len(), |i: int| v[i]@)
}

impl View for HermitTaskManager {
    type V = Tasks;

    open spec fn view(&self) -> Tasks {
        task_views(self.tasks@)
    }
}

/// Where the task with the given key stands; the length where there is none.
pub open spec fn task_place(s: Tasks, key: Seq<char>) -> int
    decreases s.len(),
{
    if s.len() == 0 || s[0].key == key {
        0
    } else {
        1 + task_place(s.drop_first(), key)
    }
}

/// Whether there is a task with the given key.
pub open spec fn has_task(s: Tasks, key: Seq<char>) -> bool {
    task_place(s, key) < s.len()
}

/// No two tasks share a key.
pub open spec fn distinct_tasks(s: Tasks) -> bool {
    forall|i: int, j: int| 0 <= i < j < s.len() ==> (#[trigger] s[i]).key != (#[trigger] s[j]).key
}

proof fn lemma_task_place(s: Tasks, key: Seq<char>)
    ensures
        0 <= task_place(s, key) <= s.len(),
        task_place(s, key) < s.len() ==> s[task_place(s, key)].key == key,
        forall|j: int| 0 <= j < task_place(s, key) ==> (#[trigger] s[j]).key != key,
    decreases s.len(),
{
    if s.len() > 0 && s[0].key != key {
        let t = s.drop_first();
        lemma_task_place(t, key);
        assert forall|j: int| 0 <= j < task_place(s, key) implies (#[trigger] s[j]).key != key by {
            if j > 0 {
                assert(t[j - 1] == s[j]);
            }
        }
        if task_place(s, key) < s.len() {
            assert(t[task_place(t, key)] == s[task_place(s, key)]);
        }
    }
}

proof fn lemma_task_place_unique(s: Tasks, key: Seq<char>, k: int)
    requires
        0 <= k <= s.len(),
        forall|j: int| 0 <= j < k ==> (#[trigger] s[j]).key != key,
        k < s.len() ==> s[k].key == key,
    ensures
        task_place(s, key) == k,
{
    lemma_task_place(s, key);
    if task_place(s, key) < k {
        assert(s[task_place(s, key)].key != key);
    }
}

proof fn lemma_task_update(s: Tasks, i: int, v: RegistrationView)
    requires
        distinct_tasks(s),
        0 <= i < s.len(),
        v.key == s[i].key,
    ensures
        distinct_tasks(s.update(i, v)),
{
    let t = s.update(i, v);
    assert forall|a: int, b: int| 0 <= a < b < t.len() implies (#[trigger] t[a]).key != (
    #[trigger] t[b]).key by {
        assert(s[a].key != s[b].key);
    }
}

/// The error for a task that does not exist.
pub open spec fn no_task(key: Seq<char>) -> ErrorView {
    ErrorView::NotFound("scheduled task "@ + key)
}

fn missing_task(key: &str) -> (r: ServiceError)
    ensures
        r@ == no_task(key@),
{
    ServiceError::NotFound(concat("scheduled task ", key))
}

/// A task as it is registered: idle, without a past, with its own triggers or
/// those stored for it.
pub open spec fn registered(
    task: TaskDescription,
    stored: Map<Seq<char>, Vec<TaskTriggerInfo>>,
) -> RegistrationView {
    RegistrationView {
        key: task.key@,
        name: task.name@,
        description: task.description@,
        category: task.category@,
        is_hidden: task.is_hidden,
        triggers: if stored.contains_key(task.key@) {
            stored[task.key@]@
        } else {
            task.default_triggers@
        },
        state: TaskState::Idle,
        last_result: None,
        abort: None,
        started_at: None,
        fires: Map::empty(),
    }
}

/// A task whose run begins.
pub open spec fn claimed(t: RegistrationView, now: Timestamp) -> RegistrationView {
    RegistrationView { state: TaskState::Running, started_at: Some(now), ..t }
}

/// A task whose run ended by itself.
pub open spec fn finished(
    t: RegistrationView,
    start: Timestamp,
    error: Option<Seq<char>>,
    now: Timestamp,
) -> RegistrationView {
    RegistrationView {
        state: TaskState::Idle,
        last_result: Some(
            ResultView {
                start_time_utc: start,
                end_time_utc: now,
                status: if error is Some {
                    TaskCompletionStatus::Failed
                } else {
                    TaskCompletionStatus::Completed
                },
                name: t.name,
                key: t.key,
                error_message: error,
            },
        ),
        abort: None,
        started_at: None,
        ..t
    }
}

/// A task whose run is stopped.
pub open spec fn stopped(t: RegistrationView, status: TaskCompletionStatus, now: Timestamp) -> RegistrationView {
    if t.state == TaskState::Running {
        RegistrationView {
            state: TaskState::Idle,
            last_result: Some(
                ResultView {
                    start_time_utc: match t.started_at {
                        Some(s) => s,
                        None => now,
                    },
                    end_time_utc: now,
                    status,
                    name: t.name,
                    key: t.key,
                    error_message: None,
                },
            ),
            abort: None,
            started_at: None,
            ..t
        }
    } else {
        t
    }
}

/// A run that is stopped leaves the task idle, so that it can begin again; and
/// while a run goes on no other begins.
pub proof fn law_stopped_task_can_start(
    t: RegistrationView,
    status: TaskCompletionStatus,
    start: Timestamp,
    now: Timestamp,
)
    ensures
        claimed(t, start).state == TaskState::Running,
        stopped(claimed(t, start), status, now).state == TaskState::Idle,
        stopped(claimed(t, start), status, now).last_result matches Some(r) && r.status == status
            && r.start_time_utc == start,
        stopped(claimed(t, start), status, now).triggers == t.triggers,
{
}

impl HermitTaskManager {
    /// No two tasks share a key, and the tables are valid.
    pub open spec fn wf(&self) -> bool {
        &&& distinct_tasks(self@)
        &&& self.stored_overrides.wf()
        &&& forall|i: int| 0 <= i < self.tasks@.len() ==> (#[trigger] self.tasks@[i]).trigger_fires.wf()
    }

    /// A registry without tasks.
    pub fn new() -> (r: Self)
        ensures
            r.wf(),
            r@ == Seq::<RegistrationView>::empty(),
            r.stored_overrides@ == Map::<Seq<char>, Vec<TaskTriggerInfo>>::empty(),
    {
        let r: HermitTaskManager = HermitTaskManager {
            tasks: Vec::new(),
            stored_overrides: Table::new(),
        };
        assert(r@ =~= Seq::<RegistrationView>::empty());
        r
    }

    /// Takes the triggers that were stored: they count for the tasks that are
    /// registered from now on.
    pub fn set_trigger_store(&mut self, loaded: Table<String, Vec<TaskTriggerInfo>>)
        requires
            old(self).wf(),
            loaded.wf(),
        ensures
            final(self).wf(),
            final(self)@ == old(self)@,
            final(self).stored_overrides@ == loaded@,
    {
        self.stored_overrides = loaded;
    }

    fn find(&self, key: &str) -> (r: usize)
        ensures
            r == task_place(self@, key@),
            r <= self.tasks@.len(),
    {
        let mut i: usize = 0;
        while i < self.tasks.len() && !same_text(self.tasks[i].task.key.as_str(), key)
            invariant
                i <= self.tasks@.len(),
                forall|j: int| 0 <= j < i ==> (#[trigger] self@[j]).key != key@,
            decreases self.tasks.len() - i,
        {
            assert(self@[i as int].key == self.tasks@[i as int].task.key@);
            i += 1;
        }
        proof {
            if i < self.tasks@.len() {
                assert(self@[i as int].key == self.tasks@[i as int].task.key@);
            }
            lemma_task_place_unique(self@, key@, i as int);
        }
        i
    }

    /// Registers a task. One with the same key is replaced.
    pub fn register(&mut self, task: TaskDescription)
        requires
            old(self).wf(),
        ensures
            final(self).wf(),
            final(self).stored_overrides == old(self).stored_overrides,
            final(self)@ == ({
                let s = old(self)@;
                let t = registered(task, old(self).stored_overrides@);
                let i = task_place(s, task.key@);
                if i < s.len() {
                    s.update(i, t)
                } else {
                    s.push(t)
                }
            }),
    {
        let ghost s = self@;
        let ghost t = registered(task, self.stored_overrides@);
        let i: usize = self.find(task.key.as_str());
        proof {
            lemma_task_place(s, task.key@);
        }
        let triggers_override: Option<Vec<TaskTriggerInfo>> = match self.stored_overrides.get(
            &task.key,
        ) {
            Some(v) => Some(copy_triggers(v)),
            None => None,
        };
        let reg: Registration = Registration {
            task,
            state: TaskState::Idle,
            last_result: None,
            triggers_override,
            abort: None,
            started_at: None,
            trigger_fires: Table::new(),
        };
        assert(reg@ =~= t);
        if i < self.tasks.len() {
            self.tasks.set(i, reg);
            proof {
                assert(self@ =~= s.update(i as int, t));
                lemma_task_update(s, i as int, t);
            }
        } else {
            self.tasks.push(reg);
            proof {
                assert(self@ =~= s.push(t));
                assert forall|a: int, b: int| 0 <= a < b < self@.len() implies (#[trigger] self@[a]).key
                    != (#[trigger] self@[b]).key by {
                    if b < s.len() {
                        assert(s[a].key != s[b].key);
                    }
                }
            }
        }
    }

    /// What the outside sees of a task.
    pub fn get(&self, key: &str) -> (r: Option<TaskInfo>)
        ensures
            match r {
                Some(info) => has_task(self@, key@) && info.shows(self@[task_place(self@, key@)]),
                None => !has_task(self@, key@),
            },
    {
        let i: usize = self.find(key);
        if i < self.tasks.len() {
            assert(self@[i as int] == self.tasks@[i as int]@);
            Some(self.tasks[i].to_info())
        } else {
            None
        }
    }

    /// What the outside sees of all tasks, hidden ones too, by their keys.
    pub fn list(&self) -> (r: Vec<TaskInfo>)
        ensures
            shown(r@, sorted(self@, by_key())),
    {
        let mut out: Vec<TaskInfo> = Vec::new();
        let mut i: usize = 0;
        while i < self.tasks.len()
            invariant
                i <= self.tasks@.len(),
                out@.len() == i,
                forall|j: int| 0 <= j < i ==> (#[trigger] out@[j]).shows(self@[j]),
            decreases self.tasks.len() - i,
        {
            assert(self@[i as int] == self.tasks@[i as int]@);
            out.push(self.tasks[i].to_info());
            i += 1;
        }
        let ghost all = out@;
        let ghost less = |a: TaskInfo, b: TaskInfo| text_less(a.key@, b.key@);
        let before = |a: &TaskInfo, b: &TaskInfo| -> (c: bool)
            ensures
                c == text_less(a.key@, b.key@),
            { text_before(a.key.as_str(), b.key.as_str()) };
        let r: Vec<TaskInfo> = sort_by(out, before, Ghost(less));
        proof {
            lemma_sorted_infos(all, self@, less);
        }
        r
    }

    /// Begins a run. A task that runs already is refused.
    pub fn claim(&mut self, key: &str, now: Timestamp) -> (r: Result<(), ServiceError>)
        requires
            old(self).wf(),
        ensures
            final(self).wf(),
            final(self).stored_overrides == old(self).stored_overrides,
            ({
                let s = old(self)@;
                let i = task_place(s, key@);
                match r {
                    Ok(_) => has_task(s, key@) && s[i].state == TaskState::Idle && final(self)@
                        == s.update(i, claimed(s[i], now)),
                    Err(e) => {
                        &&& final(self)@ == s
                        &&& if has_task(s, key@) {
                            s[i].state == TaskState::Running && e@ == ErrorView::InvalidInput(
                                "scheduled task "@ + key@ + " is already running"@,
                            )
                        } else {
                            e@ == no_task(key@)
                        }
                    },
                }
            }),
    {
        let ghost s = self@;
        let i: usize = self.find(key);
        if i >= self.tasks.len() {
            return Err(missing_task(key));
        }
        assert(s[i as int] == self.tasks@[i as int]@);
        if self.tasks[i].state == TaskState::Running {
            return Err(
                ServiceError::InvalidInput(
                    concat3("scheduled task ", key, " is already running"),
                ),
            );
        }
        let ghost v = claimed(s[i as int], now);
        self.tasks[i].state = TaskState::Running;
        self.tasks[i].started_at = Some(now);
        proof {
            assert(self.tasks@[i as int]@ =~= v);
            assert(self@ =~= s.update(i as int, v));
            lemma_task_update(s, i as int, v);
        }
        Ok(())
    }

    /// Remembers the handle of a run in the background, while it still goes on.
    pub fn track(&mut self, key: &str, handle: u64)
        requires
            old(self).wf(),
        ensures
            final(self).wf(),
            final(self).stored_overrides == old(self).stored_overrides,
            final(self)@ == ({
                let s = old(self)@;
                let i = task_place(s, key@);
                if has_task(s, key@) && s[i].state == TaskState::Running {
                    s.update(i, (RegistrationView { abort: Some(handle), ..s[i] }))
                } else {
                    s
                }
            }),
    {
        let ghost s = self@;
        let i: usize = self.find(key);
        if i < self.tasks.len() {
            assert(s[i as int] == self.tasks@[i as int]@);
            if self.tasks[i].state == TaskState::Running {
                let ghost v = RegistrationView { abort: Some(handle), ..s[i as int] };
                self.tasks[i].abort = Some(handle);
                proof {
                    assert(self.tasks@[i as int]@ =~= v);
                    assert(self@ =~= s.update(i as int, v));
                    lemma_task_update(s, i as int, v);
                }
            }
        }
    }

    /// Records the end of a run that began at `start`, with the error it ended in.
    pub fn finish(&mut self, key: &str, start: Timestamp, error: Option<String>, now: Timestamp)
        requires
            old(self).wf(),
        ensures
            final(self).wf(),
            final(self).stored_overrides == old(self).stored_overrides,
            final(self)@ == ({
                let s = old(self)@;
                let i = task_place(s, key@);
                if has_task(s, key@) {
                    s.update(i, finished(s[i], start, opt_text(error), now))
                } else {
                    s
                }
            }),
    {
        let ghost s = self@;
        let i: usize = self.find(key);
        if i < self.tasks.len() {
            assert(s[i as int] == self.tasks@[i as int]@);
            proof {
                lemma_task_place(s, key@);
            }
            let ghost v = finished(s[i as int], start, opt_text(error), now);
            let status: TaskCompletionStatus = if error.is_some() {
                TaskCompletionStatus::Failed
            } else {
                TaskCompletionStatus::Completed
            };
            let result: TaskResult = TaskResult {
                start_time_utc: start,
                end_time_utc: now,
                status,
                name: self.tasks[i].task.name.clone(),
                key: self.tasks[i].task.key.clone(),
                error_message: error,
            };
            self.tasks[i].state = TaskState::Idle;
            self.tasks[i].last_result = Some(result);
            self.tasks[i].abort = None;
            self.tasks[i].started_at = None;
            proof {
                assert(self.tasks@[i as int]@ =~= v);
                assert(self@ =~= s.update(i as int, v));
                lemma_task_update(s, i as int, v);
            }
        }
    }

    /// Stops a run. Yields the handle of the run, where there is one to stop; an
    /// idle task stays as it is.
    pub fn stop_run(&mut self, key: &str, status: TaskCompletionStatus, now: Timestamp) -> (r: Result<
        Option<u64>,
        ServiceError,
    >)
        requires
            old(self).wf(),
        ensures
            final(self).wf(),
            final(self).stored_overrides == old(self).stored_overrides,
            ({
                let s = old(self)@;
                let i = task_place(s, key@);
                match r {
                    Ok(handle) => {
                        &&& has_task(s, key@)
                        &&& final(self)@ == s.update(i, stopped(s[i], status, now))
                        &&& handle == if s[i].state == TaskState::Running {
                            s[i].abort
                        } else {
                            None
                        }
                    },
                    Err(e) => !has_task(s, key@) && final(self)@ == s && e@ == no_task(key@),
                }
            }),
    {
        let ghost s = self@;
        let i: usize = self.find(key);
        if i >= self.tasks.len() {
            return Err(missing_task(key));
        }
        assert(s[i as int] == self.tasks@[i as int]@);
        if self.tasks[i].state != TaskState::Running {
            assert(s.update(i as int, s[i as int]) =~= s);
            return Ok(None);
        }
        let ghost v = stopped(s[i as int], status, now);
        let handle: Option<u64> = self.tasks[i].abort;
        let start: Timestamp = match self.tasks[i].started_at {
            Some(t) => t,
            None => now,
        };
        let result: TaskResult = TaskResult {
            start_time_utc: start,
            end_time_utc: now,
            status,
            name: self.tasks[i].task.name.clone(),
            key: self.tasks[i].task.key.clone(),
            error_message: None,
        };
        self.tasks[i].abort = None;
        self.tasks[i].started_at = None;
        self.tasks[i].state = TaskState::Idle;
        self.tasks[i].last_result = Some(result);
        proof {
            assert(self.tasks@[i as int]@ =~= v);
            assert(self@ =~= s.update(i as int, v));
            lemma_task_update(s, i as int, v);
        }
        Ok(handle)
    }

    /// Replaces a task's triggers, now and for later. They start anew: none has
    /// fired yet.
    pub fn set_triggers(&mut self, key: &str, triggers: &Vec<TaskTriggerInfo>) -> (r: Result<
        (),
        ServiceError,
    >)
        requires
            old(self).wf(),
        ensures
            final(self).wf(),
            ({
                let s = old(self)@;
                let i = task_place(s, key@);
                match r {
                    Ok(_) => {
                        &&& has_task(s, key@)
                        &&& final(self)@ == s.update(
                            i,
                            (RegistrationView {
                                triggers: triggers@,
                                fires: Map::empty(),
                                ..s[i]
                            }),
                        )
                        &&& forall|k: Seq<char>| #[trigger]
                            final(self).stored_overrides@.contains_key(k) == (old(self).stored_overrides@.contains_key(k) || k == key@)
                        &&& final(self).stored_overrides@[key@]@ == triggers@
                        &&& forall|k: Seq<char>|
                            k != key@ && old(self).stored_overrides@.contains_key(k)
                                ==> #[trigger] final(self).stored_overrides@[k] == old(self).stored_overrides@[k]
                    },
                    Err(e) => {
                        &&& !has_task(s, key@)
                        &&& final(self)@ == s
                        &&& final(self).stored_overrides == old(self).stored_overrides
                        &&& e@ == no_task(key@)
                    },
                }
            }),
    {
        let ghost s = self@;
        let i: usize = self.find(key);
        if i >= self.tasks.len() {
            return Err(missing_task(key));
        }
        assert(s[i as int] == self.tasks@[i as int]@);
        let ghost v = RegistrationView {
            triggers: triggers@,
            fires: Map::empty(),
            ..s[i as int]
        };
        self.tasks[i].triggers_override = Some(copy_triggers(triggers));
        self.tasks[i].trigger_fires = Table::new();
        self.stored_overrides.insert(key.to_owned(), copy_triggers(triggers));
        proof {
            assert(self.tasks@[i as int]@ =~= v);
            assert(self@ =~= s.update(i as int, v));
            lemma_task_update(s, i as int, v);
        }
        Ok(())
    }
}

/// The order by key.
pub open spec fn by_key() -> spec_fn(RegistrationView, RegistrationView) -> bool {
    |a: RegistrationView, b: RegistrationView| text_less(a.key, b.key)
}

/// Whether the infos show the tasks, one by one.
pub open spec fn shown(v: Seq<TaskInfo>, s: Tasks) -> bool {
    v.len() == s.len() && forall|i: int| 0 <= i < v.len() ==> (#[trigger] v[i]).shows(s[i])
}

proof fn lemma_sorted_infos(v: Seq<TaskInfo>, s: Tasks, less: spec_fn(TaskInfo, TaskInfo) -> bool)
    requires
        less == (|a: TaskInfo, b: TaskInfo| text_less(a.key@, b.key@)),
        shown(v, s),
    ensures
        shown(sorted(v, less), sorted(s, by_key())),
    decreases v.len(),
{
    if v.len() > 0 {
        assert forall|i: int| 0 <= i < v.drop_last().len() implies (
        #[trigger] v.drop_last()[i]).shows(s.drop_last()[i]) by {
            assert(v[i].shows(s[i]));
        }
        lemma_sorted_infos(v.drop_last(), s.drop_last(), less);
        assert(v[v.len() - 1].shows(s[s.len() - 1]));
        lemma_inserted_infos(
            sorted(v.drop_last(), less),
            sorted(s.drop_last(), by_key()),
            v.last(),
            s.last(),
            less,
        );
    }
}

proof fn lemma_inserted_infos(
    v: Seq<TaskInfo>,
    s: Tasks,
    x: TaskInfo,
    y: RegistrationView,
    less: spec_fn(TaskInfo, TaskInfo) -> bool,
)
    requires
        less == (|a: TaskInfo, b: TaskInfo| text_less(a.key@, b.key@)),
        shown(v, s),
        x.shows(y),
    ensures
        shown(inserted(v, x, less), inserted(s, y, by_key())),
    decreases v.len(),
{
    if v.len() > 0 {
        assert(v[v.len() - 1].shows(s[s.len() - 1]));
        if less(x, v.last()) {
            assert forall|i: int| 0 <= i < v.drop_last().len() implies (
            #[trigger] v.drop_last()[i]).shows(s.drop_last()[i]) by {
                assert(v[i].shows(s[i]));
            }
            lemma_inserted_infos(v.drop_last(), s.drop_last(), x, y, less);
        }
    }
}

// ---------------------------------------------------------------------------
// The scheduler
// ---------------------------------------------------------------------------
/// Whether one of the triggers fires when the scheduler starts.
pub open spec fn has_startup_trigger(triggers: Seq<TaskTriggerInfo>) -> bool {
    exists|i: int|
        0 <= i < triggers.len() && (#[trigger] triggers[i]).type_
            == TaskTriggerInfoType::StartupTrigger
}

/// The keys of the tasks that run when the scheduler starts.
pub open spec fn startup_keys(s: Tasks) -> Seq<Seq<char>>
    decreases s.len(),
{
    if s.len() == 0 {
        Seq::empty()
    } else if has_startup_trigger(s.last().triggers) {
        startup_keys(s.drop_last()).push(s.last().key)
    } else {
        startup_keys(s.drop_last())
    }
}

/// The shortest of the triggers' limits on a run.
pub open spec fn shortest_limit(triggers: Seq<TaskTriggerInfo>) -> Option<i64>
    decreases triggers.len(),
{
    if triggers.len() == 0 {
        None
    } else {
        match (shortest_limit(triggers.drop_last()), triggers.last().max_runtime_ticks) {
            (Some(a), Some(b)) => Some(
                if b < a {
                    b
                } else {
                    a
                },
            ),
            (Some(a), None) => Some(a),
            (None, b) => b,
        }
    }
}

/// Whether a run has gone on for longer than the triggers allow.
pub open spec fn is_overrun(t: RegistrationView, now: Timestamp) -> bool {
    match (t.started_at, shortest_limit(t.triggers)) {
        (Some(started), Some(limit)) => t.state == TaskState::Running && now.nanos - started.nanos
            >= ticks_nanos(limit as int),
        _ => false,
    }
}

/// A task that ends says when it began and ended, and whether it failed; it then rests.
pub proof fn law_ended_task_tells_how_it_went(
    t: RegistrationView,
    start: Timestamp,
    error: Option<Seq<char>>,
    status: TaskCompletionStatus,
    now: Timestamp,
)
    ensures
        finished(t, start, error, now).state == TaskState::Idle,
        finished(t, start, error, now).last_result matches Some(r) && r.start_time_utc == start
            && r.end_time_utc == now && r.error_message == error && r.name == t.name && r.key == t.key
            && (r.status == TaskCompletionStatus::Failed <==> error is Some) && (r.status
            == TaskCompletionStatus::Completed <==> error is None),
        finished(t, start, error, now).triggers == t.triggers,
        t.state == TaskState::Running ==> stopped(t, status, now).state == TaskState::Idle && (stopped(
            t,
            status,
            now,
        ).last_result matches Some(r) && r.status == status && r.end_time_utc == now
            && r.error_message is None && (t.started_at matches Some(s) ==> r.start_time_utc == s)),
        t.state != TaskState::Running ==> stopped(t, status, now) == t,
        claimed(t, now).state == TaskState::Running && claimed(t, now).started_at == Some(now),
        claimed(t, now).last_result == t.last_result,
{
}

proof fn lemma_shortest_limit(triggers: Seq<TaskTriggerInfo>)
    ensures
        shortest_limit(triggers) matches Some(limit) ==> {
            &&& exists|i: int|
                0 <= i < triggers.len() && (#[trigger] triggers[i]).max_runtime_ticks == Some(limit)
            &&& forall|i: int|
                0 <= i < triggers.len() ==> ((#[trigger] triggers[i]).max_runtime_ticks matches Some(n)
                    ==> limit <= n)
        },
        shortest_limit(triggers) is None ==> forall|i: int|
            0 <= i < triggers.len() ==> (#[trigger] triggers[i]).max_runtime_ticks is None,
    decreases triggers.len(),
{
    if triggers.len() > 0 {
        let rest = triggers.drop_last();
        lemma_shortest_limit(rest);
        let n = rest.len() as int;
        assert(triggers[n] == triggers.last());
        assert forall|i: int| 0 <= i < n implies #[trigger] triggers[i] == rest[i] by {}
        match shortest_limit(rest) {
            Some(a) => {
                let i = choose|i: int|
                    0 <= i < rest.len() && (#[trigger] rest[i]).max_runtime_ticks == Some(a);
                assert(triggers[i].max_runtime_ticks == Some(a));
            },
            None => {},
        }
    }
}

/// A task has run too long once it has run for as long as some trigger of it allows.
pub proof fn law_any_limit_ends_a_task(t: RegistrationView, now: Timestamp, started: Timestamp)
    requires
        t.started_at == Some(started),
        t.state == TaskState::Running,
    ensures
        is_overrun(t, now) <==> exists|i: int|
            0 <= i < t.triggers.len() && ((#[trigger] t.triggers[i]).max_runtime_ticks matches Some(n)
                && now.nanos - started.nanos >= ticks_nanos(n as int)),
{
    lemma_shortest_limit(t.triggers);
    match shortest_limit(t.triggers) {
        Some(limit) => {
            let i = choose|i: int|
                0 <= i < t.triggers.len() && (#[trigger] t.triggers[i]).max_runtime_ticks == Some(
                    limit,
                );
            assert(t.triggers[i].max_runtime_ticks == Some(limit));
            assert forall|n: i64| limit <= n implies ticks_nanos(limit as int) <= #[trigger] ticks_nanos(
                n as int,
            ) by {}
        },
        None => {},
    }
}

/// The tasks that start with the server are those that have a trigger for it.
pub proof fn law_startup_tasks_have_the_trigger(s: Tasks, key: Seq<char>)
    ensures
        startup_keys(s).contains(key) <==> exists|i: int|
            0 <= i < s.len() && (#[trigger] s[i]).key == key && has_startup_trigger(s[i].triggers),
    decreases s.len(),
{
    if s.len() > 0 {
        let rest = s.drop_last();
        law_startup_tasks_have_the_trigger(rest, key);
        let n = rest.len() as int;
        assert(s[n] == s.last());
        assert forall|i: int| 0 <= i < n implies #[trigger] s[i] == rest[i] by {}
        let head = startup_keys(rest);
        if has_startup_trigger(s.last().triggers) {
            let all = head.push(s.last().key);
            assert(all[head.len() as int] == s.last().key);
            if head.contains(key) {
                let j = choose|j: int| 0 <= j < head.len() && head[j] == key;
                assert(all[j] == key);
            }
            if all.contains(key) && s.last().key != key {
                let j = choose|j: int| 0 <= j < all.len() && all[j] == key;
                assert(head[j] == key);
            }
        }
        if exists|i: int|
            0 <= i < rest.len() && (#[trigger] rest[i]).key == key && has_startup_trigger(
                rest[i].triggers,
            ) {
            let i = choose|i: int|
                0 <= i < rest.len() && (#[trigger] rest[i]).key == key && has_startup_trigger(
                    rest[i].triggers,
                );
            assert(s[i].key == key);
        }
    }
}

/// When a trigger fired last.
pub open spec fn fired_at(fires: Map<usize, Timestamp>, i: int) -> Option<Timestamp> {
    if fires.contains_key(i as usize) {
        Some(fires[i as usize])
    } else {
        None
    }
}

/// When a task's last run ended.
pub open spec fn last_end(t: RegistrationView) -> Option<Timestamp> {
    match t.last_result {
        Some(r) => Some(r.end_time_utc),
        None => None,
    }
}

/// Whether trigger `i` of a task is due.
pub open spec fn trigger_is_due(
    t: RegistrationView,
    i: int,
    now: Timestamp,
    scheduler_start: Timestamp,
    local: Seq<LocalDay>,
) -> bool {
    is_due(t.triggers[i], now, fired_at(t.fires, i), last_end(t), scheduler_start, local[i])
}

/// Whether trigger `i` is the first of an idle task that is due.
pub open spec fn is_first_due(
    t: RegistrationView,
    i: int,
    now: Timestamp,
    scheduler_start: Timestamp,
    local: Seq<LocalDay>,
) -> bool {
    &&& t.state != TaskState::Running
    &&& 0 <= i < t.triggers.len()
    &&& trigger_is_due(t, i, now, scheduler_start, local)
    &&& forall|j: int| 0 <= j < i ==> !#[trigger] trigger_is_due(t, j, now, scheduler_start, local)
}

/// Whether an idle task is due.
pub open spec fn task_is_due(
    t: RegistrationView,
    now: Timestamp,
    scheduler_start: Timestamp,
    local: Seq<LocalDay>,
) -> bool {
    exists|i: int| #[trigger] is_first_due(t, i, now, scheduler_start, local)
}

/// A task after the scheduler has looked at it: the first trigger that is due has
/// fired.
pub open spec fn swept(
    t: RegistrationView,
    now: Timestamp,
    scheduler_start: Timestamp,
    local: Seq<LocalDay>,
) -> RegistrationView {
    if task_is_due(t, now, scheduler_start, local) {
        let i = choose|i: int| #[trigger] is_first_due(t, i, now, scheduler_start, local);
        RegistrationView { fires: t.fires.insert(i as usize, now), ..t }
    } else {
        t
    }
}

/// The tasks after the scheduler has looked at them.
pub open spec fn all_swept(
    s: Tasks,
    now: Timestamp,
    scheduler_start: Timestamp,
    local: Seq<Seq<LocalDay>>,
) -> Tasks {
    Seq::new(s.len(), |i: int| swept(s[i], now, scheduler_start, local[i]))
}

/// The keys of the tasks that are due.
pub open spec fn due_keys(
    s: Tasks,
    now: Timestamp,
    scheduler_start: Timestamp,
    local: Seq<Seq<LocalDay>>,
) -> Seq<Seq<char>>
    decreases s.len(),
{
    if s.len() == 0 {
        Seq::empty()
    } else {
        let head = due_keys(s.drop_last(), now, scheduler_start, local);
        if task_is_due(s.last(), now, scheduler_start, local[s.len() - 1]) {
            head.push(s.last().key)
        } else {
            head
        }
    }
}

/// The keys of the tasks that have run for too long.
pub open spec fn overrun_keys(s: Tasks, now: Timestamp) -> Seq<Seq<char>>
    decreases s.len(),
{
    if s.len() == 0 {
        Seq::empty()
    } else if is_overrun(s.last(), now) {
        overrun_keys(s.drop_last(), now).push(s.last().key)
    } else {
        overrun_keys(s.drop_last(), now)
    }
}

/// What the scheduler is to do after a look at the tasks.
#[derive(Debug, Clone)]
pub struct Sweep {
    /// The tasks to start.
    pub due: Vec<String>,
    /// The tasks to stop.
    pub overrun: Vec<String>,
}

/// What lists of days stand for.
pub open spec fn day_lists(v: Seq<Vec<LocalDay>>) -> Seq<Seq<LocalDay>> {
    Seq::new(v.len(), |i: int| v[i]@)
}

/// Whether there is a day for every trigger of every task.
pub open spec fn covers(local: Seq<Seq<LocalDay>>, s: Tasks) -> bool {
    &&& local.len() == s.len()
    &&& forall|i: int| 0 <= i < s.len() ==> (#[trigger] local[i]).len() == s[i].triggers.len()
}

/// Whether each day can be what the local calendar says of its trigger at a time,
/// where the trigger goes by it.
pub open spec fn are_local_at(
    local: Seq<LocalDay>,
    triggers: Seq<TaskTriggerInfo>,
    now: Timestamp,
) -> bool {
    &&& local.len() == triggers.len()
    &&& forall|j: int|
        0 <= j < local.len() && follows_calendar(triggers[j]) ==> (
        #[trigger] local[j]).is_local_at(triggers[j], now)
}

/// Whether there is a day for every trigger of every task, and each can be what the
/// local calendar says of the trigger at a time, where the trigger goes by it and
/// the task does not run.
pub open spec fn covers_at(local: Seq<Seq<LocalDay>>, s: Tasks, now: Timestamp) -> bool {
    &&& covers(local, s)
    &&& forall|i: int|
        0 <= i < s.len() && s[i].state != TaskState::Running ==> are_local_at(
            #[trigger] local[i],
            s[i].triggers,
            now,
        )
}

/// Whether a task waits for a trigger that goes by the local calendar.
pub open spec fn awaits_calendar(t: RegistrationView) -> bool {
    t.state != TaskState::Running && exists|j: int|
        0 <= j < t.triggers.len() && follows_calendar(#[trigger] t.triggers[j])
}

/// Whether some task waits for a trigger that goes by the local calendar.
pub open spec fn some_awaits_calendar(s: Tasks) -> bool {
    exists|i: int| 0 <= i < s.len() && awaits_calendar(#[trigger] s[i])
}

/// Whether every time in a task lies in the calendar.
pub open spec fn times_in_calendar(t: RegistrationView) -> bool {
    &&& t.started_at matches Some(s) ==> s.in_calendar()
    &&& last_end(t) matches Some(e) ==> e.in_calendar()
    &&& forall|k: usize| #[trigger] t.fires.contains_key(k) ==> t.fires[k].in_calendar()
}

/// Whether every time in the tasks lies in the calendar.
pub open spec fn all_in_calendar(s: Tasks) -> bool {
    forall|i: int| 0 <= i < s.len() ==> times_in_calendar(#[trigger] s[i])
}

/// A task that is due is started and not stopped, one that is overrun is stopped
/// and not started: no task is both.
pub proof fn law_due_and_overrun_exclude_each_other(
    t: RegistrationView,
    now: Timestamp,
    scheduler_start: Timestamp,
    local: Seq<LocalDay>,
)
    ensures
        !(task_is_due(t, now, scheduler_start, local) && is_overrun(t, now)),
{
}

fn starts_up(triggers: &Vec<TaskTriggerInfo>) -> (r: bool)
    ensures
        r == has_startup_trigger(triggers@),
{
    let mut i: usize = 0;
    while i < triggers.len()
        invariant
            i <= triggers.len(),
            forall|j: int|
                0 <= j < i ==> (#[trigger] triggers@[j]).type_ != TaskTriggerInfoType::StartupTrigger,
        decreases triggers.len() - i,
    {
        if triggers[i].type_ == TaskTriggerInfoType::StartupTrigger {
            return true;
        }
        i += 1;
    }
    false
}

fn shortest(triggers: &Vec<TaskTriggerInfo>) -> (r: Option<i64>)
    ensures
        r == shortest_limit(triggers@),
{
    let mut best: Option<i64> = None;
    let mut i: usize = 0;
    while i < triggers.len()
        invariant
            i <= triggers.len(),
            best == shortest_limit(triggers@.take(i as int)),
        decreases triggers.len() - i,
    {
        assert(triggers@.take(i + 1).drop_last() =~= triggers@.take(i as int));
        best = match (best, triggers[i].max_runtime_ticks) {
            (Some(a), Some(b)) => Some(
                if b < a {
                    b
                } else {
                    a
                },
            ),
            (Some(a), None) => Some(a),
            (None, b) => b,
        };
        i += 1;
    }
    assert(triggers@.take(triggers@.len() as int) =~= triggers@);
    best
}

fn overruns(reg: &Registration, triggers: &Vec<TaskTriggerInfo>, now: Timestamp) -> (r: bool)
    requires
        triggers@ == reg@.triggers,
        now.in_calendar(),
        times_in_calendar(reg@),
    ensures
        r == is_overrun(reg@, now),
{
    if reg.state != TaskState::Running {
        return false;
    }
    match (reg.started_at, shortest(triggers)) {
        (Some(started), Some(limit)) => now.nanos - started.nanos >= ticks_to_nanos(limit),
        _ => false,
    }
}

fn first_due(
    reg: &Registration,
    triggers: &Vec<TaskTriggerInfo>,
    now: Timestamp,
    scheduler_start: Timestamp,
    local: &Vec<LocalDay>,
) -> (r: Option<usize>)
    requires
        triggers@ == reg@.triggers,
        local@.len() == triggers@.len(),
        reg.trigger_fires.wf(),
        now.in_calendar(),
        scheduler_start.in_calendar(),
        times_in_calendar(reg@),
    ensures
        match r {
            Some(i) => is_first_due(reg@, i as int, now, scheduler_start, local@),
            None => !task_is_due(reg@, now, scheduler_start, local@),
        },
{
    if reg.state == TaskState::Running {
        return None;
    }
    let last_run_end: Option<Timestamp> = match &reg.last_result {
        Some(r) => Some(r.end_time_utc),
        None => None,
    };
    let mut i: usize = 0;
    while i < triggers.len()
        invariant
            i <= triggers.len(),
            triggers@ == reg@.triggers,
            local@.len() == triggers@.len(),
            reg.trigger_fires.wf(),
            reg.state != TaskState::Running,
            now.in_calendar(),
            scheduler_start.in_calendar(),
            times_in_calendar(reg@),
            last_run_end == last_end(reg@),
            forall|j: int|
                0 <= j < i ==> !#[trigger] trigger_is_due(reg@, j, now, scheduler_start, local@),
        decreases triggers.len() - i,
    {
        let last_fire: Option<Timestamp> = match reg.trigger_fires.get(&i) {
            Some(t) => Some(*t),
            None => None,
        };
        assert(last_fire == fired_at(reg@.fires, i as int));
        if trigger_due_on(&triggers[i], now, last_fire, last_run_end, scheduler_start, local[i]) {
            assert(trigger_is_due(reg@, i as int, now, scheduler_start, local@));
            return Some(i);
        }
        assert(!trigger_is_due(reg@, i as int, now, scheduler_start, local@));
        i += 1;
    }
    None
}

proof fn lemma_first_due_unique(
    t: RegistrationView,
    i: int,
    j: int,
    now: Timestamp,
    scheduler_start: Timestamp,
    local: Seq<LocalDay>,
)
    requires
        is_first_due(t, i, now, scheduler_start, local),
        is_first_due(t, j, now, scheduler_start, local),
    ensures
        i == j,
{
    if i < j {
        assert(!trigger_is_due(t, i, now, scheduler_start, local));
    }
    if j < i {
        assert(!trigger_is_due(t, j, now, scheduler_start, local));
    }
}

impl HermitTaskManager {
    /// The keys of the tasks that run when the scheduler starts.
    pub fn keys_with_startup_trigger(&self) -> (r: Vec<String>)
        ensures
            texts(r@) == startup_keys(self@),
    {
        let mut out: Vec<String> = Vec::new();
        let mut i: usize = 0;
        assert(texts(out@) =~= startup_keys(self@.take(0)));
        while i < self.tasks.len()
            invariant
                i <= self.tasks@.len(),
                texts(out@) == startup_keys(self@.take(i as int)),
            decreases self.tasks.len() - i,
        {
            assert(self@.take(i + 1).drop_last() =~= self@.take(i as int));
            assert(self@.take(i + 1).last() == self.tasks@[i as int]@);
            let triggers: Vec<TaskTriggerInfo> = self.tasks[i].effective_triggers();
            if starts_up(&triggers) {
                let ghost before = out@;
                out.push(self.tasks[i].task.key.clone());
                assert(texts(out@) =~= texts(before).push(self@[i as int].key));
            }
            i += 1;
        }
        assert(self@.take(self@.len() as int) =~= self@);
        out
    }

    /// One look at the tasks, given what the local calendar says of their
    /// triggers: which are to start, which are to stop. A trigger that is due has
    /// then fired.
    pub fn sweep_on(
        &mut self,
        scheduler_start: Timestamp,
        now: Timestamp,
        local: &Vec<Vec<LocalDay>>,
    ) -> (r: Sweep)
        requires
            old(self).wf(),
            covers(day_lists(local@), old(self)@),
            now.in_calendar(),
            scheduler_start.in_calendar(),
            all_in_calendar(old(self)@),
        ensures
            final(self).wf(),
            final(self).stored_overrides == old(self).stored_overrides,
            final(self)@ == all_swept(old(self)@, now, scheduler_start, day_lists(local@)),
            texts(r.due@) == due_keys(old(self)@, now, scheduler_start, day_lists(local@)),
            texts(r.overrun@) == overrun_keys(old(self)@, now),
    {
        let ghost s = self@;
        let ghost days = day_lists(local@);
        let ghost t = all_swept(s, now, scheduler_start, days);
        let mut due: Vec<String> = Vec::new();
        let mut overrun: Vec<String> = Vec::new();
        let mut i: usize = 0;
        assert(texts(due@) =~= due_keys(s.take(0), now, scheduler_start, days));
        assert(texts(overrun@) =~= overrun_keys(s.take(0), now));
        while i < self.tasks.len()
            invariant
                i <= self.tasks@.len(),
                self.tasks@.len() == s.len(),
                self.stored_overrides == old(self).stored_overrides,
                self.stored_overrides.wf(),
                days == day_lists(local@),
                covers(days, s),
                now.in_calendar(),
                scheduler_start.in_calendar(),
                all_in_calendar(s),
                t == all_swept(s, now, scheduler_start, days),
                forall|j: int| 0 <= j < i ==> (#[trigger] self.tasks@[j])@ == t[j],
                forall|j: int| i <= j < s.len() ==> (#[trigger] self.tasks@[j])@ == s[j],
                forall|j: int|
                    0 <= j < s.len() ==> (#[trigger] self.tasks@[j]).trigger_fires.wf(),
                texts(due@) == due_keys(s.take(i as int), now, scheduler_start, days),
                texts(overrun@) == overrun_keys(s.take(i as int), now),
            decreases self.tasks.len() - i,
        {
            assert(s.take(i + 1).drop_last() =~= s.take(i as int));
            assert(s.take(i + 1).last() == s[i as int]);
            assert(self.tasks@[i as int]@ == s[i as int]);
            assert(times_in_calendar(s[i as int]));
            assert(days[i as int] == local@[i as int]@);
            let triggers: Vec<TaskTriggerInfo> = self.tasks[i].effective_triggers();
            if overruns(&self.tasks[i], &triggers, now) {
                let ghost before = overrun@;
                overrun.push(self.tasks[i].task.key.clone());
                assert(texts(overrun@) =~= texts(before).push(s[i as int].key));
            }
            match first_due(&self.tasks[i], &triggers, now, scheduler_start, &local[i]) {
                Some(k) => {
                    let ghost before = due@;
                    due.push(self.tasks[i].task.key.clone());
                    assert(texts(due@) =~= texts(before).push(s[i as int].key));
                    self.tasks[i].trigger_fires.insert(k, now);
                    proof {
                        let v = s[i as int];
                        let c = choose|c: int| #[trigger]
                            is_first_due(v, c, now, scheduler_start, days[i as int]);
                        assert(is_first_due(v, k as int, now, scheduler_start, days[i as int]));
                        lemma_first_due_unique(
                            v,
                            c,
                            k as int,
                            now,
                            scheduler_start,
                            days[i as int],
                        );
                        assert(self.tasks@[i as int]@ =~= t[i as int]);
                    }
                },
                None => {},
            }
            assert(self.tasks@[i as int]@ == t[i as int]);
            i += 1;
        }
        assert(s.take(s.len() as int) =~= s);
        proof {
            assert(self@ =~= t);
            assert forall|a: int, b: int| 0 <= a < b < t.len() implies (#[trigger] t[a]).key != (
            #[trigger] t[b]).key by {
                assert(s[a].key != s[b].key);
            }
        }
        Sweep { due, overrun }
    }

    fn local_days(&self, now: Timestamp) -> (r: Vec<Vec<LocalDay>>)
        requires
            some_awaits_calendar(self@) ==> has_local_day(now),
        ensures
            covers_at(day_lists(r@), self@, now),
    {
        let mut out: Vec<Vec<LocalDay>> = Vec::new();
        let mut i: usize = 0;
        while i < self.tasks.len()
            invariant
                i <= self.tasks@.len(),
                some_awaits_calendar(self@) ==> has_local_day(now),
                out@.len() == i,
                forall|j: int|
                    0 <= j < i ==> (#[trigger] out@[j])@.len() == self@[j].triggers.len(),
                forall|j: int|
                    0 <= j < i && self@[j].state != TaskState::Running ==> are_local_at(
                        (#[trigger] out@[j])@,
                        self@[j].triggers,
                        now,
                    ),
            decreases self.tasks.len() - i,
        {
            assert(self@[i as int] == self.tasks@[i as int]@);
            let triggers: Vec<TaskTriggerInfo> = self.tasks[i].effective_triggers();
            let idle: bool = self.tasks[i].state != TaskState::Running;
            let mut days: Vec<LocalDay> = Vec::new();
            let mut j: usize = 0;
            while j < triggers.len()
                invariant
                    j <= triggers.len(),
                    i < self@.len(),
                    triggers@ == self@[i as int].triggers,
                    idle == (self@[i as int].state != TaskState::Running),
                    some_awaits_calendar(self@) ==> has_local_day(now),
                    days@.len() == j,
                    idle ==> forall|k: int|
                        0 <= k < j && follows_calendar(triggers@[k]) ==> (
                        #[trigger] days@[k]).is_local_at(triggers@[k], now),
                decreases triggers.len() - j,
            {
                if idle {
                    proof {
                        if follows_calendar(triggers@[j as int]) {
                            assert(awaits_calendar(self@[i as int]));
                        }
                    }
                    days.push(calendar_of(&triggers[j], now));
                } else {
                    days.push(local_day_of(0, None));
                }
                j += 1;
            }
            out.push(days);
            i += 1;
        }
        out
    }

    /// One look at the tasks. For daily and weekly triggers it depends on the
    /// machine's time zone; apart from that it is fixed (see `sweep_on`).
    pub fn scheduler_sweep(&mut self, scheduler_start: Timestamp, now: Timestamp) -> (r: Sweep)
        requires
            old(self).wf(),
            now.in_calendar(),
            some_awaits_calendar(old(self)@) ==> has_local_day(now),
            scheduler_start.in_calendar(),
            all_in_calendar(old(self)@),
        ensures
            final(self).wf(),
            final(self).stored_overrides == old(self).stored_overrides,
            texts(r.overrun@) == overrun_keys(old(self)@, now),
            exists|local: Seq<Seq<LocalDay>>| #[trigger]
                covers_at(local, old(self)@, now) && final(self)@ == all_swept(
                    old(self)@,
                    now,
                    scheduler_start,
                    local,
                ) && texts(r.due@) == due_keys(old(self)@, now, scheduler_start, local),
    {
        let local: Vec<Vec<LocalDay>> = self.local_days(now);
        assert(covers_at(day_lists(local@), self@, now));
        self.sweep_on(scheduler_start, now, &local)
    }
}

/// The task that scans the media library.
pub fn refresh_library_task() -> (r: TaskDescription)
    ensures
        r.key@ == "RefreshLibrary"@,
        r.name@ == "Scan Media Library"@,
        r.description@ == "Scans your media library for new files and refreshes metadata."@,
        r.category@ == "Library"@,
        !r.is_hidden,
        r.default_triggers@ == seq![
            TaskTriggerInfo {
                type_: TaskTriggerInfoType::IntervalTrigger,
                time_of_day_ticks: None,
                interval_ticks: Some((12 * 3600 * TICKS_PER_SECOND) as i64),
                day_of_week: None,
                max_runtime_ticks: None,
            },
        ],
{
    TaskDescription {
        key: "RefreshLibrary".to_owned(),
        name: "Scan Media Library".to_owned(),
        description: "Scans your media library for new files and refreshes metadata.".to_owned(),
        category: "Library".to_owned(),
        is_hidden: false,
        default_triggers: vec![
            TaskTriggerInfo {
                type_: TaskTriggerInfoType::IntervalTrigger,
                time_of_day_ticks: None,
                interval_ticks: Some(12 * 3600 * TICKS_PER_SECOND),
                day_of_week: None,
                max_runtime_ticks: None,
            },
        ],
    }
}

} // verus!
