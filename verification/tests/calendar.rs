use chrono::Datelike;
use clantool::calendar::{
    parse_clock, parse_day, Date, DateTime, Time, DATE_FORMAT_DAY, TIME_FORMAT_MINUTE,
};
use clantool::config::{Config, MainConfig};
use clantool::leave::{can_look_back, run_leave_detection};
use clantool::timer::{
    first_execution, plan_timer, run_timer, try_run_timer, TimerFault, INTERVALL_H,
};

fn day(year: i32, month: u32, day: u32) -> Date {
    Date { year, month, day }
}

fn at(date: Date, seconds: u32) -> DateTime {
    DateTime { date, time: Time { seconds, nanos: 0 } }
}

fn config(time: &str, retry_interval: &str, max_age: u32) -> Config {
    Config {
        main: MainConfig {
            time: time.to_string(),
            retry_interval: retry_interval.to_string(),
            retries: 3,
            send_error_mail: true,
            auto_leave_message_default: "left".to_string(),
            auto_leave_enabled: true,
            auto_leave_max_age: max_age,
            clan_url: "http://example.org/clan".to_owned(),
            clan_ajax_url: String::new(),
            clan_ajax_site_key: String::new(),
            clan_ajax_start_row_key: String::new(),
            clan_ajax_end_row_key: String::new(),
            clan_ajax_exptected_per_site: 10,
            clan_ajax_max_sites: 10,
        },
    }
}

#[test]
fn test_chrono() {
    let today = chrono::Local::now().date_naive();
    let date = day(today.year(), today.month(), today.day());
    assert_eq!(TIME_FORMAT_MINUTE, "%H:%M");
    let parsed_time = parse_clock("12:00").unwrap();
    let parsed_time_2 = parse_clock("12:01").unwrap();
    let datetime_1 = DateTime { date, time: parsed_time };
    let datetime_2 = DateTime { date, time: parsed_time_2 };
    assert_eq!(parsed_time.is_before(&parsed_time_2), true);
    assert_eq!(datetime_1.is_before(&datetime_2), true);
}

#[test]
fn clock_is_read() {
    assert_eq!(parse_clock("00:00"), Ok(Time { seconds: 0, nanos: 0 }));
    assert_eq!(parse_clock("12:01"), Ok(Time { seconds: 43260, nanos: 0 }));
    assert_eq!(parse_clock("23:59"), Ok(Time { seconds: 86340, nanos: 0 }));
    assert_eq!(parse_clock("7:05"), Ok(Time { seconds: 25500, nanos: 0 }));
    assert_eq!(parse_clock("24:00"), Err("input is out of range".to_string()));
    assert_eq!(parse_clock("12:60"), Err("input is out of range".to_string()));
    assert_eq!(parse_clock("12"), Err("premature end of input".to_string()));
    assert_eq!(parse_clock("noon"), Err("input contains invalid characters".to_string()));
    assert_eq!(parse_clock("12:00:00"), Err("trailing input".to_string()));
}

#[test]
fn every_minute_is_read() {
    for hour in 0..24 {
        for minute in 0..60 {
            let text = format!("{:02}:{:02}", hour, minute);
            assert_eq!(
                parse_clock(&text),
                Ok(Time { seconds: hour * 3600 + minute * 60, nanos: 0 })
            );
        }
    }
}

#[test]
fn day_is_read() {
    assert_eq!(DATE_FORMAT_DAY, "%Y-%m-%d");
    assert_eq!(parse_day("2018-03-09"), Ok(day(2018, 3, 9)));
    assert_eq!(parse_day("0000-01-01"), Ok(day(0, 1, 1)));
    assert_eq!(parse_day("9999-12-31"), Ok(day(9999, 12, 31)));
    assert_eq!(parse_day("2016-02-29"), Ok(day(2016, 2, 29)));
    assert_eq!(parse_day("2018-02-29"), Err("input is out of range".to_string()));
    assert_eq!(parse_day("1900-02-29"), Err("input is out of range".to_string()));
    assert_eq!(parse_day("2000-02-29"), Ok(day(2000, 2, 29)));
    assert_eq!(parse_day("2018-13-01"), Err("input is out of range".to_string()));
    assert_eq!(parse_day("2018-00-01"), Err("input is out of range".to_string()));
    assert_eq!(parse_day("2018-04-31"), Err("input is out of range".to_string()));
    assert_eq!(parse_day("2018-03-09x"), Err("trailing input".to_string()));
}

#[test]
fn moments_are_ordered() {
    let base = at(day(2018, 3, 9), 100);
    assert!(base.is_before(&at(day(2018, 3, 9), 101)));
    assert!(base.is_before(&at(day(2018, 3, 10), 0)));
    assert!(base.is_before(&at(day(2018, 4, 1), 0)));
    assert!(base.is_before(&at(day(2019, 1, 1), 0)));
    assert!(!base.is_before(&base));
    assert!(!base.is_before(&at(day(2017, 12, 31), 86399)));
    let early = Time { seconds: 5, nanos: 1 };
    let late = Time { seconds: 5, nanos: 2 };
    assert!(early.is_before(&late));
    assert!(!late.is_before(&early));
}

#[test]
fn first_execution_is_today_or_tomorrow() {
    let target = Time { seconds: 3600, nanos: 0 };
    let today = day(2018, 12, 31);
    assert_eq!(first_execution(&at(today, 0), &target), Some(at(today, 3600)));
    assert_eq!(first_execution(&at(today, 3600), &target), Some(at(today, 3600)));
    assert_eq!(first_execution(&at(today, 3601), &target), Some(at(day(2019, 1, 1), 3600)));
    let just_over = DateTime { date: today, time: Time { seconds: 3600, nanos: 1 } };
    assert_eq!(first_execution(&just_over, &target), Some(at(day(2019, 1, 1), 3600)));
    let leap = at(day(2016, 2, 28), 7200);
    assert_eq!(first_execution(&leap, &target), Some(at(day(2016, 2, 29), 3600)));
    let last = at(day(262142, 12, 31), 7200);
    assert_eq!(first_execution(&last, &target), None);
    assert_eq!(
        first_execution(&at(day(262142, 12, 30), 7200), &target),
        Some(at(day(262142, 12, 31), 3600))
    );
}

#[test]
fn timer_is_planned() {
    let now = at(day(2018, 3, 9), 50000);
    let plan = run_timer(&config("12:00", "00:10", 7), &now);
    assert_eq!(plan.first, at(day(2018, 3, 10), 43200));
    assert_eq!(plan.interval_hours, 24);
    assert_eq!(INTERVALL_H, 24);
    assert_eq!(plan.retry_time, Time { seconds: 600, nanos: 0 });
    let later = run_timer(&config("23:00", "00:10", 7), &now);
    assert_eq!(try_run_timer(&config("23:00", "00:10", 7), &now).unwrap(), later);
    assert_eq!(later.first, at(day(2018, 3, 9), 82800));
}

#[test]
fn timer_faults() {
    let now = at(day(2018, 3, 9), 50000);
    match try_run_timer(&config("25:00", "xx", 7), &now) {
        Err(TimerFault::Time { error }) => assert_eq!(error, "input is out of range"),
        _ => panic!("no time fault"),
    }
    match try_run_timer(&config("12:00", "", 7), &now) {
        Err(TimerFault::RetryInterval { error }) => assert_eq!(error, "premature end of input"),
        _ => panic!("no retry fault"),
    }
    let last = at(day(262142, 12, 31), 50000);
    assert!(matches!(
        try_run_timer(&config("12:00", "00:10", 7), &last),
        Err(TimerFault::NoTomorrow)
    ));
    let planned = plan_timer(
        Ok(Time { seconds: 60000, nanos: 0 }),
        Ok(Time { seconds: 1, nanos: 0 }),
        &now,
    );
    assert_eq!(planned.unwrap().first, at(day(2018, 3, 9), 60000));
}

#[test]
fn look_back_goes_by_days() {
    let from = at(day(2018, 3, 5), 10);
    let run = run_leave_detection(&config("", "", 7), &from, "gone");
    assert_eq!(run.max_age, day(2018, 2, 26));
    assert_eq!(run.date, from);
    assert_eq!(run.cause, "gone");
    let leap = at(day(2016, 3, 5), 10);
    assert_eq!(run_leave_detection(&config("", "", 7), &leap, "").max_age, day(2016, 2, 27));
    assert_eq!(run_leave_detection(&config("", "", 0), &leap, "").max_age, day(2016, 3, 5));
    let century = at(day(2018, 1, 1), 0);
    assert_eq!(
        run_leave_detection(&config("", "", 36525), &century, "").max_age,
        day(1918, 1, 1)
    );
    assert!(can_look_back(&config("", "", 7), &from));
    assert!(!can_look_back(&config("", "", u32::MAX), &from));
    let first = at(day(-262143, 1, 8), 0);
    assert!(can_look_back(&config("", "", 7), &first));
    assert!(!can_look_back(&config("", "", 8), &first));
    assert_eq!(
        run_leave_detection(&config("", "", 7), &first, "").max_age,
        day(-262143, 1, 1)
    );
}
