//! When the crawler runs as a daemon.

use crate::calendar::{date_plus_hours, parse_clock, Date, DateTime, Time};
use crate::config::Config;
use vstd::prelude::*;

verus! {

/// How many hours lie between two crawls.
pub const INTERVALL_H: i64 = 24;

/// When the daemon crawls.
#[derive(Clone, Copy, Debug, PartialEq, Eq, Structural)]
pub struct TimerPlan {
    /// The local time of the first crawl.
    pub first: DateTime,
    /// How many hours lie between two crawls.
    pub interval_hours: i64,
    /// How long to wait after the first failed attempt of a crawl.
    pub retry_time: Time,
}

/// Why there is no plan.
#[derive(Debug)]
pub enum TimerFault<T> {
    /// The time of the crawl cannot be read.
    Time { error: T },
    /// The retry interval cannot be read.
    RetryInterval { error: T },
    /// The day after today cannot be held.
    NoTomorrow,
}

/// The result of planning in contracts.
pub open spec fn plan_view(r: Result<TimerPlan, TimerFault<String>>) -> Result<
    TimerPlan,
    TimerFault<Seq<char>>,
> {
    match r {
        Ok(plan) => Ok(plan),
        Err(TimerFault::Time { error }) => Err(TimerFault::Time { error: error@ }),
        Err(TimerFault::RetryInterval { error }) => Err(
            TimerFault::RetryInterval { error: error@ },
        ),
        Err(TimerFault::NoTomorrow) => Err(TimerFault::NoTomorrow),
    }
}

/// Whether `first` is the next moment at or after `now` at which it is the time of day `target`:
/// today, or on the next day if that time is over for today.
pub open spec fn is_first_execution(now: DateTime, target: Time, first: DateTime) -> bool {
    &&& first.time == target
    &&& first.date.valid()
    &&& first.date.day_number() == now.date.day_number() + if target.precedes(now.time) {
        1int
    } else {
        0int
    }
}

/// Whether there is a day for the first crawl.
pub open spec fn has_first_execution(now: DateTime, target: Time) -> bool {
    target.precedes(now.time) ==> now.date.day_number() < crate::calendar::last_day_number()
}

/// The first crawl does not lie in the past, and it is less than a day away: it comes before
/// the time of day that it is now on the day after.
pub proof fn law_first_execution_is_within_a_day(now: DateTime, target: Time, first: DateTime)
    requires
        now.date.valid(),
        is_first_execution(now, target, first),
    ensures
        !first.precedes(now),
        forall|next: DateTime|
            next.date.valid() && next.time == now.time && next.date.day_number()
                == now.date.day_number() + 1 ==> #[trigger] first.precedes(next),
{
    crate::calendar::law_day_numbers_follow_calendar(first.date, now.date);
    assert forall|next: DateTime|
        next.date.valid() && next.time == now.time && next.date.day_number()
            == now.date.day_number() + 1 implies #[trigger] first.precedes(next) by {
        crate::calendar::law_day_numbers_follow_calendar(first.date, next.date);
    }
}

/// There is only one moment that fits as the first crawl.
pub proof fn law_first_execution_is_unique(
    now: DateTime,
    target: Time,
    first: DateTime,
    other: DateTime,
)
    requires
        is_first_execution(now, target, first),
        is_first_execution(now, target, other),
    ensures
        first == other,
{
    crate::calendar::law_day_numbers_follow_calendar(first.date, other.date);
}

/// Tells when the first crawl is, where it is `now` and the crawl runs at the time of day
/// `target`.
pub fn first_execution(now: &DateTime, target: &Time) -> (first: Option<DateTime>)
    requires
        now.date.valid(),
    ensures
        first is Some <==> has_first_execution(*now, *target),
        first matches Some(first) ==> is_first_execution(*now, *target, first),
        ({
            let over = target.seconds < now.time.seconds || (target.seconds == now.time.seconds
                && target.nanos < now.time.nanos);
            if !over {
                first == Some(DateTime { date: now.date, time: *target })
            } else if now.date.day_number() + 1 > crate::calendar::last_day_number() {
                first is None
            } else {
                &&& first matches Some(first)
                &&& first.time == *target
                &&& first.date.valid()
                &&& first.date.day_number() == now.date.day_number() + 1
            }
        }),
{
    if target.is_before(&now.time) {
        let tomorrow: Option<Date> = date_plus_hours(now.date, INTERVALL_H);
        match tomorrow {
            Some(date) => Some(DateTime { date, time: *target }),
            None => None,
        }
    } else {
        Some(DateTime { date: now.date, time: *target })
    }
}

/// Whether `r` is the right plan for what has been read from the configuration.
pub open spec fn is_plan(
    target: Result<Time, Seq<char>>,
    retry_time: Result<Time, Seq<char>>,
    now: DateTime,
    r: Result<TimerPlan, TimerFault<Seq<char>>>,
) -> bool {
    match (target, retry_time) {
        (Err(error), _) => r == Err::<TimerPlan, _>(TimerFault::Time { error }),
        (Ok(_), Err(error)) => r == Err::<TimerPlan, _>(TimerFault::RetryInterval { error }),
        (Ok(target), Ok(retry_time)) => {
            if has_first_execution(now, target) {
                &&& r matches Ok(plan)
                &&& is_first_execution(now, target, plan.first)
                &&& plan.interval_hours == INTERVALL_H
                &&& plan.retry_time == retry_time
            } else {
                r == Err::<TimerPlan, TimerFault<Seq<char>>>(TimerFault::NoTomorrow)
            }
        },
    }
}

/// Plans the crawls from the two times that have been read from the configuration.
pub fn plan_timer(
    target: Result<Time, String>,
    retry_time: Result<Time, String>,
    now: &DateTime,
) -> (r: Result<TimerPlan, TimerFault<String>>)
    requires
        now.date.valid(),
    ensures
        is_plan(
            crate::text::text_result(target),
            crate::text::text_result(retry_time),
            *now,
            plan_view(r),
        ),
        target matches Err(why) ==> r == Err::<TimerPlan, _>(TimerFault::Time { error: why }),
        target is Ok ==> (retry_time matches Err(why) ==> r == Err::<TimerPlan, _>(
            TimerFault::RetryInterval { error: why },
        )),
        target is Ok && retry_time is Ok ==> {
            let time = target->Ok_0;
            let over = time.seconds < now.time.seconds || (time.seconds == now.time.seconds
                && time.nanos < now.time.nanos);
            match r {
                Ok(plan) => {
                    &&& plan.first.time == time
                    &&& plan.first.date.valid()
                    &&& over ==> plan.first.date.day_number() == now.date.day_number() + 1
                    &&& !over ==> plan.first.date == now.date
                    &&& plan.interval_hours == 24
                    &&& plan.retry_time == retry_time->Ok_0
                },
                Err(fault) => {
                    &&& fault is NoTomorrow
                    &&& over
                    &&& now.date.day_number() + 1 > crate::calendar::last_day_number()
                },
            }
        },
{
    let target = match target {
        Ok(v) => v,
        Err(error) => return Err(TimerFault::Time { error }),
    };
    let retry_time = match retry_time {
        Ok(v) => v,
        Err(error) => return Err(TimerFault::RetryInterval { error }),
    };
    match first_execution(now, &target) {
        Some(first) => Ok(TimerPlan { first, interval_hours: INTERVALL_H, retry_time }),
        None => Err(TimerFault::NoTomorrow),
    }
}

/// What is read from the time of day that the configuration names for the crawl.
pub open spec fn configured_time(config: Config) -> Result<Time, Seq<char>> {
    crate::calendar::time_read(config.main.time@, crate::calendar::TIME_FORMAT_MINUTE@)
}

/// What is read from the retry interval of the configuration.
pub open spec fn configured_retry(config: Config) -> Result<Time, Seq<char>> {
    crate::calendar::time_read(config.main.retry_interval@, crate::calendar::TIME_FORMAT_MINUTE@)
}

/// Whether `r` is the right plan for a configuration whose times have the shape `HH:MM`.
pub open spec fn plans_clocks(
    config: Config,
    now: DateTime,
    r: Result<TimerPlan, TimerFault<Seq<char>>>,
) -> bool {
    forall|hour: nat, minute: nat, retry_hour: nat, retry_minute: nat|
        {
            &&& hour <= 99 && minute <= 99 && retry_hour <= 99 && retry_minute <= 99
            &&& config.main.time@ == #[trigger] crate::calendar::clock_text(hour, minute)
            &&& config.main.retry_interval@ == #[trigger] crate::calendar::clock_text(
                retry_hour,
                retry_minute,
            )
        } ==> is_plan(
            crate::calendar::clock_reading(hour, minute),
            crate::calendar::clock_reading(retry_hour, retry_minute),
            now,
            r,
        )
}

/// Initialize timed task
///
/// Plans the crawls of the daemon that starts at the local time `now`. Both times of the
/// configuration have to be readable, and there has to be a day for the first crawl:
/// `try_run_timer` finds out.
pub fn run_timer(config: &Config, now: &DateTime) -> (plan: TimerPlan)
    requires
        now.date.valid(),
        configured_time(*config) matches Ok(target) && has_first_execution(*now, target),
        configured_retry(*config) is Ok,
    ensures
        is_first_execution(*now, configured_time(*config)->Ok_0, plan.first),
        plan.interval_hours == INTERVALL_H,
        plan.retry_time == configured_retry(*config)->Ok_0,
        plans_clocks(*config, *now, Ok(plan)),
        crate::calendar::time_read(config.main.time@, "%H:%M"@) == Ok::<Time, Seq<char>>(
            plan.first.time,
        ),
        crate::calendar::time_read(config.main.retry_interval@, "%H:%M"@) == Ok::<Time, Seq<char>>(
            plan.retry_time,
        ),
        plan.interval_hours == 24,
        !plan.first.precedes(*now),
        plan.first.date.valid(),
        plan.first.date.day_number() == now.date.day_number() + if plan.first.time.seconds
            < now.time.seconds || (plan.first.time.seconds == now.time.seconds
            && plan.first.time.nanos < now.time.nanos) {
            1int
        } else {
            0int
        },
{
    let target = parse_clock(config.main.time.as_str());
    let retry_time = parse_clock(config.main.retry_interval.as_str());
    let plan = plan_timer(target, retry_time, now).unwrap();
    proof {
        crate::calendar::law_day_numbers_follow_calendar(plan.first.date, now.date);
    }
    plan
}

/// Plans the crawls of the daemon that starts at the local time `now`, if that can be done, and
/// tells why if not. There is no plan unless both times of the configuration can be read.
pub fn try_run_timer(config: &Config, now: &DateTime) -> (r: Result<
    TimerPlan,
    TimerFault<String>,
>)
    requires
        now.date.valid(),
    ensures
        is_plan(configured_time(*config), configured_retry(*config), *now, plan_view(r)),
        plans_clocks(*config, *now, plan_view(r)),
        crate::calendar::time_read(config.main.time@, "%H:%M"@) matches Err(why) ==> (r matches Err(
            TimerFault::Time { error },
        ) && error@ == why),
        crate::calendar::time_read(config.main.time@, "%H:%M"@) is Ok ==> (
        crate::calendar::time_read(config.main.retry_interval@, "%H:%M"@) matches Err(why) ==> (
        r matches Err(TimerFault::RetryInterval { error }) && error@ == why)),
        r matches Ok(plan) ==> {
            &&& crate::calendar::time_read(config.main.time@, "%H:%M"@) == Ok::<Time, Seq<char>>(
                plan.first.time,
            )
            &&& crate::calendar::time_read(config.main.retry_interval@, "%H:%M"@) == Ok::<
                Time,
                Seq<char>,
            >(plan.retry_time)
            &&& plan.interval_hours == 24
            &&& plan.first.date.valid()
            &&& plan.first.date.day_number() == now.date.day_number() + if plan.first.time.seconds
                < now.time.seconds || (plan.first.time.seconds == now.time.seconds
                && plan.first.time.nanos < now.time.nanos) {
                1int
            } else {
                0int
            }
        },
        r matches Err(TimerFault::NoTomorrow) ==> now.date.day_number() + 1
            > crate::calendar::last_day_number(),
{
    let target = parse_clock(config.main.time.as_str());
    let retry_time = parse_clock(config.main.retry_interval.as_str());
    match plan_timer(target, retry_time, now) {
        Ok(_) => Ok(run_timer(config, now)),
        Err(fault) => Err(fault),
    }
}

/// A moment fits as the first crawl exactly if it has the time of day of the crawl and lies on
/// this day, or on the next one where that time is over. There is one unless that takes a day
/// that cannot be held.
pub proof fn law_first_execution_is_at_the_target(now: DateTime, target: Time, first: DateTime)
    ensures
        ({
            let over = target.seconds < now.time.seconds || (target.seconds == now.time.seconds
                && target.nanos < now.time.nanos);
            &&& is_first_execution(now, target, first) <==> {
                &&& first.time == target
                &&& first.date.valid()
                &&& over ==> first.date.day_number() == now.date.day_number() + 1
                &&& !over ==> first.date.day_number() == now.date.day_number()
            }
            &&& has_first_execution(now, target) <==> !over || now.date.day_number() + 1
                <= crate::calendar::last_day_number()
        }),
{
}

} // verus!
