use clantool::calendar::{Date, DateTime, Time};
use clantool::checkdb::{run_checkdb, CheckDbAction, CheckDbEvent};
use clantool::config::{Config, MainConfig};
use clantool::import::{default_import_time, run_import, ImportAction, ImportEvent};
use clantool::leave::{
    get_leave_detection_enabled, get_leave_message, run_leave_detection, LeaveAction, LeaveEvent,
    LEAVE_ENABLE_KEY, LEAVE_MSG_KEY,
};
use clantool::model::LeftMember;
use clantool::task::{
    check_leave, forced_retry_time, schedule_crawl_thread, CheckAction, CheckEvent, CrawlAction,
    CrawlEvent, CrawlTrigger,
};
use clantool::update::{run_update, UpdateAction, UpdateEvent};

fn moment(seconds: u32) -> DateTime {
    DateTime {
        date: Date { year: 2018, month: 3, day: 9 },
        time: Time { seconds, nanos: 0 },
    }
}

fn config(retries: u32, send_error_mail: bool) -> Config {
    Config {
        main: MainConfig {
            time: "12:00".to_string(),
            retry_interval: "00:01".to_string(),
            retries,
            send_error_mail,
            auto_leave_message_default: "left by itself".to_string(),
            auto_leave_enabled: true,
            auto_leave_max_age: 7,
            clan_url: "http://example.org/clan".to_owned(),
            clan_ajax_url: String::new(),
            clan_ajax_site_key: String::new(),
            clan_ajax_start_row_key: String::new(),
            clan_ajax_end_row_key: String::new(),
            clan_ajax_exptected_per_site: 1,
            clan_ajax_max_sites: 1,
        },
    }
}

/// Runs a crawl whose updates succeed as `outcomes` say, with a clock that goes on by one second
/// each time it is read. Returns what was done, in words.
fn crawl(config: &Config, retry_seconds: u32, outcomes: &[bool]) -> Vec<String> {
    let retry = Time { seconds: retry_seconds, nanos: 0 };
    let mut run = run_update(config, &retry, moment(0));
    let mut outcomes = outcomes.iter();
    let mut clock = 0;
    let mut done = Vec::new();
    loop {
        let event = match run.action() {
            UpdateAction::UpdateMember { time } => {
                done.push(format!("member {}", time.time.seconds));
                UpdateEvent::Updated { success: *outcomes.next().unwrap() }
            }
            UpdateAction::UpdateClan { time } => {
                done.push(format!("clan {}", time.time.seconds));
                UpdateEvent::Updated { success: *outcomes.next().unwrap() }
            }
            UpdateAction::Sleep { seconds } => {
                done.push(format!("sleep {}", seconds));
                UpdateEvent::Resumed
            }
            UpdateAction::ReadClock => {
                clock += 1;
                UpdateEvent::Clock { now: moment(clock) }
            }
            UpdateAction::WriteMissing { time, missing_member } => {
                done.push(format!("missing {} {}", time.time.seconds, missing_member));
                UpdateEvent::Resumed
            }
            UpdateAction::SendMail { subject, message } => {
                done.push(format!("mail {}: {}", subject, message));
                UpdateEvent::Resumed
            }
            UpdateAction::Finish { dataset } => {
                done.push(format!("end {:?}", dataset.map(|t| t.time.seconds)));
                assert!(outcomes.next().is_none());
                return done;
            }
        };
        assert!(run.can_resume(&event));
        run.resume(event);
    }
}

#[test]
fn crawl_succeeds_at_once() {
    assert_eq!(
        crawl(&config(3, true), 60, &[true, true]),
        vec!["member 0", "clan 0", "end Some(0)"]
    );
}

#[test]
fn crawl_keeps_the_time_of_the_half_that_succeeded() {
    assert_eq!(
        crawl(&config(5, true), 60, &[false, false, true, false, false, true]),
        vec![
            "member 0", "clan 0", "sleep 60", "member 1", "clan 1", "sleep 120", "clan 1",
            "sleep 180", "clan 1", "end Some(1)"
        ]
    );
    assert_eq!(
        crawl(&config(2, true), 60, &[false, true, true]),
        vec!["member 0", "clan 0", "sleep 60", "member 0", "end Some(0)"]
    );
}

#[test]
fn crawl_reports_failure() {
    assert_eq!(
        crawl(&config(2, true), 60, &[false, true, false]),
        vec![
            "member 0",
            "clan 0",
            "sleep 60",
            "member 0",
            "missing 0 true",
            "mail Clantool error: Error at clantool update execution!\nRetried 2 times, waiting \
             120 seconds max.\nMissing Member data: true. Missing clan data: false",
            "end None"
        ]
    );
    assert_eq!(
        crawl(&config(1, false), 60, &[true, false]),
        vec!["member 0", "clan 0", "missing 0 false", "end None"]
    );
}

#[test]
fn crawl_without_attempts() {
    assert_eq!(crawl(&config(0, true), 60, &[]), vec!["end None"]);
}

#[test]
fn wait_that_does_not_fit_is_noticed() {
    let retry = Time { seconds: 86399, nanos: 0 };
    let mut run = run_update(&config(100000, true), &retry, moment(0));
    for _ in 0..49710 {
        run.resume(UpdateEvent::Updated { success: false });
        run.resume(UpdateEvent::Updated { success: false });
        run.resume(UpdateEvent::Resumed);
        run.resume(UpdateEvent::Clock { now: moment(1) });
    }
    assert!(run.can_resume(&UpdateEvent::Updated { success: false }));
    run.resume(UpdateEvent::Updated { success: false });
    assert!(!run.can_resume(&UpdateEvent::Updated { success: false }));
    assert!(!run.can_resume(&UpdateEvent::Resumed));
}

#[test]
fn last_attempt_is_noted_though_its_wait_does_not_fit() {
    let retry = Time { seconds: 86399, nanos: 0 };
    let mut run = run_update(&config(49711, false), &retry, moment(0));
    for _ in 0..49710 {
        run.resume(UpdateEvent::Updated { success: false });
        run.resume(UpdateEvent::Updated { success: false });
        run.resume(UpdateEvent::Resumed);
        run.resume(UpdateEvent::Clock { now: moment(1) });
    }
    run.resume(UpdateEvent::Updated { success: true });
    assert!(run.can_resume(&UpdateEvent::Updated { success: false }));
    run.resume(UpdateEvent::Updated { success: false });
    match run.action() {
        UpdateAction::WriteMissing { time, missing_member } => {
            assert_eq!(time, moment(1));
            assert!(!missing_member);
        }
        _ => panic!("no note"),
    }
    assert!(!run.can_resume(&UpdateEvent::Resumed));
}

#[test]
fn settings_fall_back_to_the_configuration() {
    let config = config(1, true);
    assert_eq!(get_leave_message(Ok(Some("bye".to_string())), &config), "bye");
    assert_eq!(get_leave_message(Ok(None), &config), "left by itself");
    assert_eq!(get_leave_message(Err("down".to_string()), &config), "left by itself");
    assert!(!get_leave_detection_enabled(Ok(Some(false)), &config));
    assert!(get_leave_detection_enabled(Ok(None), &config));
    assert!(get_leave_detection_enabled(Err("down".to_string()), &config));
    assert_eq!(LEAVE_MSG_KEY, "auto_leave_message");
    assert_eq!(LEAVE_ENABLE_KEY, "auto_leave_enable");
}

fn left(id: i32, name: Option<&str>, membership_nr: Option<i32>) -> LeftMember {
    LeftMember { id, name: name.map(|n| n.to_string()), membership_nr }
}

fn logged(action: LeaveAction<String>) -> (String, String) {
    match action {
        LeaveAction::LogMessage { message, fallback } => (message, fallback),
        other => panic!("no message: {:?}", other),
    }
}

#[test]
fn left_members_are_dealt_with() {
    let config = config(1, true);
    let previous = DateTime {
        date: Date { year: 2018, month: 3, day: 7 },
        time: Time { seconds: 9, nanos: 0 },
    };
    let mut run = run_leave_detection(&config, &moment(5), "gone");
    assert!(matches!(run.action(), LeaveAction::Connect));
    run.resume(LeaveEvent::Connected { success: true });
    match run.action() {
        LeaveAction::FindOlder { date, max_age } => {
            assert_eq!(date, moment(5));
            assert_eq!(max_age, Date { year: 2018, month: 3, day: 2 });
        }
        _ => panic!("no search"),
    }
    run.resume(LeaveEvent::Older { previous: Some(previous) });
    match run.action() {
        LeaveAction::FindLeft { previous: p, date } => {
            assert_eq!(p, previous);
            assert_eq!(date, moment(5));
        }
        _ => panic!("no comparison"),
    }
    run.resume(LeaveEvent::Left {
        left: vec![
            left(11, Some("Ann"), Some(3)),
            left(-12, None, None),
            left(13, Some("Bob"), Some(4)),
        ],
    });
    match run.action() {
        LeaveAction::InsertLeave { id, nr, day, cause } => {
            assert_eq!((id, nr), (11, 3));
            assert_eq!(day, previous.date);
            assert_eq!(cause, "gone");
        }
        _ => panic!("no leave"),
    }
    run.resume(LeaveEvent::Inserted { trials: 2 });
    assert_eq!(
        logged(run.action()),
        (
            "Detected leave for Ann 11 nr:3 terminated trials: 2".to_string(),
            "Unable to log member leave detection!".to_string()
        )
    );
    run.resume(LeaveEvent::Logged);
    assert_eq!(
        logged(run.action()),
        (
            "No open membership for <unnamed> -12, can't auto-leave!".to_string(),
            "Unable to log message".to_string()
        )
    );
    run.resume(LeaveEvent::Logged);
    assert!(matches!(run.action(), LeaveAction::InsertLeave { id: 13, nr: 4, .. }));
    run.resume(LeaveEvent::InsertFailed);
    assert!(matches!(run.action(), LeaveAction::Finish));
}

#[test]
fn nobody_left() {
    let mut run = run_leave_detection(&config(1, true), &moment(5), "gone");
    run.resume(LeaveEvent::Connected { success: true });
    run.resume(LeaveEvent::Older { previous: Some(moment(1)) });
    run.resume(LeaveEvent::Left { left: vec![] });
    assert!(matches!(run.action(), LeaveAction::Finish));
}

#[test]
fn leave_detection_gives_up() {
    let config = config(1, true);
    let mut run = run_leave_detection(&config, &moment(5), "gone");
    run.resume(LeaveEvent::Connected { success: false });
    assert!(matches!(run.action(), LeaveAction::Finish));

    let mut run = run_leave_detection(&config, &moment(5), "gone");
    run.resume(LeaveEvent::Connected { success: true });
    run.resume(LeaveEvent::OlderFailed);
    assert_eq!(
        logged(run.action()),
        (
            "Unable to get older dates, skipping leave detection".to_string(),
            "unable to log get_next_older_date error".to_string()
        )
    );
    run.resume(LeaveEvent::Logged);
    assert!(matches!(run.action(), LeaveAction::Finish));

    let mut run = run_leave_detection(&config, &moment(5), "gone");
    run.resume(LeaveEvent::Connected { success: true });
    run.resume(LeaveEvent::Older { previous: None });
    assert_eq!(
        logged(run.action()),
        (
            "No older entries to compare found, skipping leave detection".to_string(),
            "unable to log get_next_older_date miss".to_string()
        )
    );
    run.resume(LeaveEvent::Logged);
    assert!(matches!(run.action(), LeaveAction::Finish));

    let mut run = run_leave_detection(&config, &moment(5), "gone");
    run.resume(LeaveEvent::Connected { success: true });
    run.resume(LeaveEvent::Older { previous: Some(moment(1)) });
    run.resume(LeaveEvent::LeftFailed { error: "down".to_string() });
    assert_eq!(
        logged(run.action()),
        (
            "Unable to query left members! down".to_string(),
            "unable to log message".to_string()
        )
    );
    run.resume(LeaveEvent::Logged);
    assert!(matches!(run.action(), LeaveAction::Finish));
}

fn retry_time() -> Time {
    Time { seconds: 90, nanos: 0 }
}

#[test]
fn timed_crawl_detects_leaves() {
    let config = config(1, true);
    let mut task = schedule_crawl_thread(&config, &retry_time(), CrawlTrigger::Timer);
    match task.action() {
        CrawlAction::RunUpdate { retry_time: given } => assert_eq!(given, retry_time()),
        _ => panic!("no crawl"),
    }
    task.resume(CrawlEvent::Updated { dataset: Some(moment(4)) });
    assert!(matches!(task.action(), CrawlAction::Connect));
    task.resume(CrawlEvent::Connected);
    match task.action() {
        CrawlAction::ReadFlag { key } => assert_eq!(key, "auto_leave_enable"),
        _ => panic!("no flag"),
    }
    task.resume(CrawlEvent::Flag { flag: Ok(None) });
    match task.action() {
        CrawlAction::ReadText { key } => assert_eq!(key, "auto_leave_message"),
        _ => panic!("no text"),
    }
    task.resume(CrawlEvent::Text { text: Ok(Some("bye".to_string())) });
    match task.action() {
        CrawlAction::DetectLeaves { time, cause } => {
            assert_eq!(time, moment(4));
            assert_eq!(cause, "bye");
        }
        _ => panic!("no detection"),
    }
    task.resume(CrawlEvent::Detected);
    assert!(matches!(task.action(), CrawlAction::Finish { error: None }));
}

#[test]
fn timed_crawl_may_skip_leave_detection() {
    let config = config(1, true);
    let mut task = schedule_crawl_thread(&config, &retry_time(), CrawlTrigger::Timer);
    task.resume(CrawlEvent::Updated { dataset: None });
    assert!(matches!(task.action(), CrawlAction::Finish { error: None }));

    let mut task = schedule_crawl_thread(&config, &retry_time(), CrawlTrigger::Timer);
    task.resume(CrawlEvent::Updated { dataset: Some(moment(4)) });
    task.resume(CrawlEvent::ConnectFailed { error: "down".to_string() });
    match task.action() {
        CrawlAction::Finish { error } => assert_eq!(error, Some("down".to_string())),
        _ => panic!("no end"),
    }

    let mut task = schedule_crawl_thread(&config, &retry_time(), CrawlTrigger::Timer);
    task.resume(CrawlEvent::Updated { dataset: Some(moment(4)) });
    task.resume(CrawlEvent::Connected);
    task.resume(CrawlEvent::Flag { flag: Ok(Some(false)) });
    assert!(matches!(task.action(), CrawlAction::Finish { error: None }));
}

#[test]
fn forced_crawl_detects_no_leaves() {
    let config = config(1, true);
    let mut task = schedule_crawl_thread(&config, &forced_retry_time(), CrawlTrigger::Forced);
    match task.action() {
        CrawlAction::RunUpdate { retry_time } => assert_eq!(retry_time.seconds, 20),
        _ => panic!("no crawl"),
    }
    task.resume(CrawlEvent::Updated { dataset: Some(moment(4)) });
    assert!(matches!(task.action(), CrawlAction::Finish { error: None }));
    assert_eq!(forced_retry_time(), Time { seconds: 20, nanos: 0 });
}

#[test]
fn manual_check_detects_leaves() {
    let config = config(1, true);
    let day = Date { year: 2018, month: 3, day: 9 };
    let mut check = check_leave(&config, day, None);
    assert!(matches!(check.action(), CheckAction::Connect));
    check.resume(CheckEvent::Connected { success: true });
    match check.action() {
        CheckAction::FindData { date } => assert_eq!(date, day),
        _ => panic!("no search"),
    }
    check.resume(CheckEvent::Data { dataset: Some(moment(8)) });
    match check.action() {
        CheckAction::ReadText { key } => assert_eq!(key, "auto_leave_message"),
        _ => panic!("no text"),
    }
    check.resume(CheckEvent::Text { setting: Ok(None) });
    match check.action() {
        CheckAction::DetectLeaves { time, cause } => {
            assert_eq!(time, moment(8));
            assert_eq!(cause, "left by itself manual check");
        }
        _ => panic!("no detection"),
    }
    check.resume(CheckEvent::Detected);
    assert!(matches!(check.action(), CheckAction::Finish));
}

#[test]
fn manual_check_uses_the_given_message() {
    let config = config(1, true);
    let day = Date { year: 2018, month: 3, day: 9 };
    let mut check = check_leave(&config, day, Some("kicked".to_string()));
    check.resume(CheckEvent::Connected { success: true });
    check.resume(CheckEvent::Data { dataset: Some(moment(8)) });
    match check.action() {
        CheckAction::DetectLeaves { cause, .. } => assert_eq!(cause, "kicked"),
        _ => panic!("no detection"),
    }
}

#[test]
fn manual_check_gives_up() {
    let config = config(1, true);
    let day = Date { year: 2018, month: 3, day: 9 };
    let mut check = check_leave(&config, day, None);
    check.resume(CheckEvent::Connected { success: false });
    assert!(matches!(check.action(), CheckAction::Finish));
    let mut check = check_leave(&config, day, None);
    check.resume(CheckEvent::Connected { success: true });
    check.resume(CheckEvent::Data { dataset: None });
    assert!(matches!(check.action(), CheckAction::Finish));
    let mut check = check_leave(&config, day, None);
    check.resume(CheckEvent::Connected { success: true });
    check.resume(CheckEvent::DataFailed);
    assert!(matches!(check.action(), CheckAction::Finish));
}

fn missing_days() -> Vec<Date> {
    vec![Date { year: 2018, month: 1, day: 1 }, Date { year: 2018, month: 1, day: 3 }]
}

#[test]
fn missing_days_are_noted_and_reported() {
    let mut run = run_checkdb(false);
    assert!(matches!(run.action(), CheckDbAction::Connect));
    run.resume(CheckDbEvent::Done);
    assert!(matches!(run.action(), CheckDbAction::FindMissing));
    run.resume(CheckDbEvent::Missing { missing: missing_days() });
    assert!(matches!(run.action(), CheckDbAction::InsertMissing));
    run.resume(CheckDbEvent::Done);
    for day in missing_days() {
        match run.action() {
            CheckDbAction::Report { date } => assert_eq!(date, day),
            _ => panic!("no report"),
        }
        run.resume(CheckDbEvent::Done);
    }
    assert!(matches!(run.action(), CheckDbAction::Finish { error: None }));
}

#[test]
fn simulated_check_only_reports() {
    let mut run = run_checkdb(true);
    run.resume(CheckDbEvent::Done);
    run.resume(CheckDbEvent::Missing { missing: missing_days() });
    assert!(matches!(run.action(), CheckDbAction::Report { .. }));
    run.resume(CheckDbEvent::Done);
    run.resume(CheckDbEvent::Done);
    assert!(matches!(run.action(), CheckDbAction::Finish { error: None }));
    let mut run = run_checkdb(true);
    run.resume(CheckDbEvent::Done);
    run.resume(CheckDbEvent::Missing { missing: vec![] });
    assert!(matches!(run.action(), CheckDbAction::Finish { error: None }));
}

#[test]
fn failed_check_ends_with_its_error() {
    let steps: [fn() -> Vec<CheckDbEvent>; 3] = [
        || vec![],
        || vec![CheckDbEvent::Done],
        || vec![CheckDbEvent::Done, CheckDbEvent::Missing { missing: missing_days() }],
    ];
    for step in steps {
        let mut run = run_checkdb(false);
        for event in step() {
            run.resume(event);
        }
        run.resume(CheckDbEvent::Failed { error: "down".to_string() });
        match run.action() {
            CheckDbAction::Finish { error } => assert_eq!(error, Some("down".to_string())),
            _ => panic!("no end"),
        }
    }
}

fn end_of_import(simulate: bool, events: Vec<ImportEvent>) -> (bool, String) {
    let mut run = run_import(simulate);
    for event in events {
        assert!(run.can_resume(&event));
        run.resume(event);
    }
    match run.action() {
        ImportAction::Finish { success, message } => (success, message),
        other => panic!("no end: {:?}", other),
    }
}

#[test]
fn import_counts() {
    let mut events = vec![
        ImportEvent::Entry,
        ImportEvent::Inserted { total: 3, used: 2 },
        ImportEvent::Entry,
        ImportEvent::Inserted { total: 1, used: 1 },
        ImportEvent::End,
    ];
    events.push(ImportEvent::Committed);
    assert_eq!(
        end_of_import(false, events),
        (true, "Imported 2 accounts & 3/4 memberships".to_string())
    );
    assert_eq!(
        end_of_import(
            true,
            vec![
                ImportEvent::Entry,
                ImportEvent::Inserted { total: 12, used: 10 },
                ImportEvent::End
            ]
        ),
        (
            true,
            "Found 1 correct entries to import, 10/12 memberships can be used".to_string()
        )
    );
}

#[test]
fn entries_without_a_time_get_the_default() {
    let time = default_import_time();
    assert_eq!(time.date, Date { year: 1970, month: 1, day: 1 });
    assert_eq!(time.time, Time { seconds: 1, nanos: 0 });
}

#[test]
fn import_wants() {
    let mut run = run_import(false);
    assert!(matches!(run.action(), ImportAction::ReadEntry));
    run.resume(ImportEvent::Entry);
    assert!(matches!(run.action(), ImportAction::InsertAccount));
    run.resume(ImportEvent::Inserted { total: u64::MAX, used: 0 });
    run.resume(ImportEvent::Entry);
    assert!(!run.can_resume(&ImportEvent::Inserted { total: 1, used: 0 }));
    assert!(run.can_resume(&ImportEvent::Inserted { total: 0, used: u64::MAX }));
    run.resume(ImportEvent::Inserted { total: 0, used: 0 });
    run.resume(ImportEvent::End);
    assert!(matches!(run.action(), ImportAction::Commit));
}

#[test]
fn import_failures() {
    let failed = || ImportEvent::Failed { error: "bad".to_string() };
    assert_eq!(
        end_of_import(false, vec![failed()]),
        (false, "Error at parsing entry: bad".to_string())
    );
    assert_eq!(
        end_of_import(false, vec![ImportEvent::Entry, failed()]),
        (false, "Error on import: bad".to_string())
    );
    assert_eq!(
        end_of_import(false, vec![ImportEvent::End, failed()]),
        (false, "Unable to commit import: bad".to_string())
    );
}
