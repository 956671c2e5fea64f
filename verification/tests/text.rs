use clantool::calendar::{as_written, Date, DateTime, Time};
use clantool::clan::{run_update_clan, ClanAction, ClanEvent};
use clantool::config::{Config, MainConfig};
use clantool::crawl::{
    get_member_url, run_update_member, MemberAction, MemberEvent, SITE_OVER_LIMIT,
};
use clantool::input::{
    get_path_for_existing_file, judge_date, validator_date, validator_path, PathAction, PathEvent,
};
use clantool::model::{Clan, HeaderType, LeftMember, Member};
use clantool::text::{decimal, flag, replace, signed_decimal};

fn config(url: &str, per_site: u8, max_sites: u8) -> Config {
    Config {
        main: MainConfig {
            time: "12:00".to_string(),
            retry_interval: "00:01".to_string(),
            retries: 3,
            send_error_mail: false,
            auto_leave_message_default: String::new(),
            auto_leave_enabled: false,
            auto_leave_max_age: 1,
            clan_url: "http://example.org/clan".to_owned(),
            clan_ajax_url: url.to_string(),
            clan_ajax_site_key: "{site}".to_string(),
            clan_ajax_start_row_key: "{start}".to_string(),
            clan_ajax_end_row_key: "{end}".to_string(),
            clan_ajax_exptected_per_site: per_site,
            clan_ajax_max_sites: max_sites,
        },
    }
}

fn moment() -> DateTime {
    DateTime {
        date: Date { year: 2018, month: 3, day: 9 },
        time: Time { seconds: 1, nanos: 2 },
    }
}

fn member(id: i32) -> Member {
    Member { name: format!("m{}", id), id, exp: 1, contribution: 2 }
}

#[test]
fn numbers_are_written() {
    for n in [0u64, 7, 10, 99, 100, 65535, u64::MAX] {
        assert_eq!(decimal(n), n.to_string());
    }
    for n in [0i32, 5, -5, 123, i32::MAX, i32::MIN] {
        assert_eq!(signed_decimal(n), n.to_string());
    }
    assert_eq!(flag(true), "true");
    assert_eq!(flag(false), "false");
}

#[test]
fn replacement_matches_std() {
    let texts = ["", "a", "aa", "aaa", "banana", "x{site}y{site}", "h\u{e9}llo \u{4e2d}", "abab"];
    let patterns = ["", "a", "aa", "an", "ana", "{site}", "\u{e9}", "banana!", "ab"];
    for s in texts {
        for from in patterns {
            for to in ["", "-", "aa", "{site}", "\u{4e2d}"] {
                assert_eq!(replace(s, from, to), s.replace(from, to));
            }
        }
    }
}

#[test]
fn replacement_on_given_values() {
    assert_eq!(replace("banana", "ana", "o"), "bona");
    assert_eq!(replace("abc", "", "-"), "-a-b-c-");
    assert_eq!(replace("nothing here", "key", "x"), "nothing here");
}

#[test]
fn member_url_is_filled_in() {
    let config = config("http://x/?p={site}&from={start}&to={end}&again={site}", 10, 10);
    assert_eq!(get_member_url(&1, &config), "http://x/?p=1&from=1&to=10&again=1");
    assert_eq!(get_member_url(&3, &config), "http://x/?p=3&from=21&to=30&again=3");
    assert_eq!(get_member_url(&25, &config), "http://x/?p=25&from=241&to=250&again=25");
}

#[test]
fn member_url_at_the_edges() {
    assert_eq!(get_member_url(&1, &config("{start}-{end}", 255, 1)), "1-255");
    assert_eq!(get_member_url(&0, &config("{start}-{end}", 1, 1)), "0-0");
    assert_eq!(get_member_url(&255, &config("{start}-{end}", 1, 255)), "255-255");
}

#[test]
fn later_keys_are_filled_into_what_earlier_ones_left() {
    let mut config = config("{a}", 10, 10);
    config.main.clan_ajax_site_key = "{a}".to_string();
    config.main.clan_ajax_start_row_key = "2".to_string();
    config.main.clan_ajax_end_row_key = "1".to_string();
    assert_eq!(get_member_url(&2, &config), "2020");
}

#[test]
fn members_are_gathered_page_by_page() {
    let config = config("p{site}", 2, 5);
    let mut run = run_update_member(&config, moment());
    match run.action() {
        MemberAction::Fetch { url, headers } => {
            assert_eq!(url, "p1");
            assert_eq!(headers, HeaderType::Ajax);
        }
        _ => panic!("no fetch"),
    }
    let first = MemberEvent::Page { members: vec![member(1), member(2)], total: 3 };
    assert!(run.can_resume(&first));
    run.resume(first);
    match run.action() {
        MemberAction::Fetch { url, .. } => assert_eq!(url, "p2"),
        _ => panic!("no fetch"),
    }
    run.resume(MemberEvent::Page { members: vec![member(3)], total: 3 });
    match run.action() {
        MemberAction::Insert { members, time } => {
            assert_eq!(*members, vec![member(1), member(2), member(3)]);
            assert_eq!(time, moment());
        }
        _ => panic!("no insert"),
    }
    run.resume(MemberEvent::Inserted);
    assert!(matches!(run.action(), MemberAction::Finish { error: None }));
}

#[test]
fn the_last_page_says_how_many_there_are() {
    let config = config("p{site}", 2, 5);
    let mut run = run_update_member(&config, moment());
    run.resume(MemberEvent::Page { members: vec![member(1)], total: 10 });
    run.resume(MemberEvent::Page { members: vec![], total: 1 });
    assert!(matches!(run.action(), MemberAction::Insert { .. }));
    let mut empty = run_update_member(&config, moment());
    empty.resume(MemberEvent::Page { members: vec![], total: 0 });
    match empty.action() {
        MemberAction::Insert { members, .. } => assert!(members.is_empty()),
        _ => panic!("no insert"),
    }
}

#[test]
fn page_limit_ends_the_update() {
    let config = config("p{site}", 2, 2);
    let mut run = run_update_member(&config, moment());
    run.resume(MemberEvent::Page { members: vec![member(1)], total: 9 });
    run.resume(MemberEvent::Page { members: vec![member(2)], total: 9 });
    match run.action() {
        MemberAction::Finish { error } => assert_eq!(error, Some("Site over limit.".to_string())),
        _ => panic!("no end"),
    }
    assert_eq!(SITE_OVER_LIMIT, "Site over limit.");
}

#[test]
fn no_page_may_be_asked_for() {
    let config = config("p{site}", 2, 0);
    let run = run_update_member(&config, moment());
    assert!(matches!(run.action(), MemberAction::Finish { error: Some(_) }));
}

#[test]
fn failures_end_the_update_of_members() {
    let config = config("p{site}", 2, 2);
    let mut run = run_update_member(&config, moment());
    run.resume(MemberEvent::Failed { error: "no answer".to_string() });
    match run.action() {
        MemberAction::Finish { error } => assert_eq!(error, Some("no answer".to_string())),
        _ => panic!("no end"),
    }
    let mut run = run_update_member(&config, moment());
    run.resume(MemberEvent::Page { members: vec![], total: 0 });
    run.resume(MemberEvent::Failed { error: "no space".to_string() });
    match run.action() {
        MemberAction::Finish { error } => assert_eq!(error, Some("no space".to_string())),
        _ => panic!("no end"),
    }
}

#[test]
fn rows_that_do_not_fit_are_noticed() {
    let config = config("p{site}", 100, 10);
    let mut run = run_update_member(&config, moment());
    run.resume(MemberEvent::Page { members: vec![], total: 9 });
    assert!(!run.can_resume(&MemberEvent::Page { members: vec![], total: 9 }));
    assert!(run.can_resume(&MemberEvent::Page { members: vec![], total: 0 }));
    assert!(!run.can_resume(&MemberEvent::Inserted));
}

#[test]
fn page_number_that_does_not_fit_is_noticed() {
    let config = config("p{site}", 1, 255);
    let mut run = run_update_member(&config, moment());
    for _ in 0..254 {
        run.resume(MemberEvent::Page { members: vec![], total: 1 });
    }
    match run.action() {
        MemberAction::Fetch { url, .. } => assert_eq!(url, "p255"),
        _ => panic!("no fetch"),
    }
    assert!(!run.can_resume(&MemberEvent::Page { members: vec![], total: 1 }));
}

#[test]
fn names_of_left_members() {
    let named = LeftMember { id: 1, name: Some("Ann".to_string()), membership_nr: None };
    assert_eq!(named.get_name(), "Ann");
    let unnamed = LeftMember { id: 1, name: None, membership_nr: Some(2) };
    assert_eq!(unnamed.get_name(), "<unnamed>");
    let clan = Clan { members: 1, wins: 2, losses: 3, draws: 4 };
    assert!(clan == Clan { members: 1, wins: 2, losses: 3, draws: 4 });
}

#[test]
fn dates_are_validated() {
    assert_eq!(validator_date("2018-03-09".to_string()), Ok(()));
    assert_eq!(
        validator_date("2018-02-30".to_string()),
        Err("Invalid date input: input is out of range".to_string())
    );
    assert_eq!(
        validator_date("today".to_string()),
        Err("Invalid date input: input contains invalid characters".to_string())
    );
    assert_eq!(
        validator_date(String::new()),
        Err("Invalid date input: premature end of input".to_string())
    );
    assert_eq!(judge_date(Ok(Date { year: 1, month: 1, day: 1 })), Ok(()));
    assert_eq!(
        judge_date(Err("why".to_string())),
        Err("Invalid date input: why".to_string())
    );
}

#[test]
fn dates_of_another_form_are_rejected() {
    let inputs = [
        "18-03-01", "2018-3-01", "2018-03-1", " 2018-03-01", "2018- 3-01", "+2018-03-01",
        "-2018-03-01", "+12018-03-01", "218-03-01",
    ];
    for input in inputs {
        let error = validator_date(input.to_string()).unwrap_err();
        assert!(error.starts_with("Invalid date input: "));
    }
    assert_eq!(
        validator_date("18-03-01".to_string()),
        Err("Invalid date input: input is not of the form YYYY-MM-DD".to_string())
    );
    assert_eq!(validator_date("0018-03-01".to_string()), Ok(()));
    assert_eq!(validator_date("9999-12-31".to_string()), Ok(()));
    assert_eq!(validator_date("0000-01-01".to_string()), Ok(()));
}

#[test]
fn days_are_held_against_their_text() {
    let day = Date { year: 18, month: 3, day: 1 };
    assert_eq!(as_written(&"0018-03-01".to_string(), Ok(day)), Ok(day));
    assert_eq!(
        as_written(&"18-03-01".to_string(), Ok(day)),
        Err("input is not of the form YYYY-MM-DD".to_string())
    );
    assert_eq!(
        as_written(&"18-03-01".to_string(), Err("why".to_string())),
        Err("why".to_string())
    );
}

/// Runs the search for `given` on a disk that holds `files` in the directories `dirs`, where
/// `cwd` is the current directory.
fn search(given: &str, cwd: &str, dirs: &[&str], files: &[&str]) -> Result<String, String> {
    let mut run = get_path_for_existing_file(given.to_string());
    loop {
        let event = match run.action() {
            PathAction::AskParent { path } => PathEvent::Parent {
                parent_is_dir: path.rfind('/').map(|at| dirs.contains(&&path[..at])),
            },
            PathAction::Join { path } => PathEvent::Joined { path: format!("{}/{}", cwd, path) },
            PathAction::Inspect { path } => PathEvent::Inspected {
                shown: format!("{:?}", path),
                is_dir: dirs.contains(&path.as_str()),
                exists: dirs.contains(&path.as_str()) || files.contains(&path.as_str()),
            },
            PathAction::Finish { found } => return found.cloned(),
        };
        run.resume(event);
    }
}

#[test]
fn paths_are_found() {
    let dirs = ["/home", "/data", "/data/old"];
    let files = ["/home/a.csv", "/data/b.csv"];
    let find = |given: &str| search(given, "/home", &dirs, &files);
    assert_eq!(find("a.csv"), Ok("/home/a.csv".to_string()));
    assert_eq!(find("/home/a.csv"), Ok("/home/a.csv".to_string()));
    assert_eq!(find("/data/b.csv"), Ok("/data/b.csv".to_string()));
    assert_eq!(
        find("/data/old"),
        Err("Specified file is a directory \"/data/old\"".to_string())
    );
    assert_eq!(
        find("/data/c.csv"),
        Err("Specified file not existing \"/data/c.csv\"".to_string())
    );
    assert_eq!(
        find("b.csv"),
        Err("Specified file not existing \"/home/b.csv\"".to_string())
    );
    assert_eq!(
        find("sub/a.csv"),
        Err("Specified file not existing \"/home/sub/a.csv\"".to_string())
    );
}

#[test]
fn paths_are_validated() {
    assert_eq!(validator_path(Ok(5)), Ok(()));
    assert_eq!(validator_path::<u8>(Err("no".to_string())), Err("no".to_string()));
}

#[test]
fn clan_is_fetched_and_stored() {
    let config = config("p{site}", 2, 2);
    let mut run = run_update_clan(&config, moment());
    match run.action() {
        ClanAction::Fetch { url, headers } => {
            assert_eq!(url, "http://example.org/clan");
            assert_eq!(headers, HeaderType::Html);
        }
        _ => panic!("no fetch"),
    }
    run.resume(ClanEvent::Page { clan: Clan { members: 40, wins: 3, losses: 2, draws: 1 } });
    match run.action() {
        ClanAction::Insert { clan, time } => {
            assert_eq!(*clan, Clan { members: 40, wins: 3, losses: 2, draws: 1 });
            assert_eq!(time, moment());
        }
        _ => panic!("no insert"),
    }
    run.resume(ClanEvent::Inserted);
    assert!(matches!(run.action(), ClanAction::Finish { error: None }));
}

#[test]
fn failures_end_the_update_of_the_clan() {
    let config = config("p{site}", 2, 2);
    let mut run = run_update_clan(&config, moment());
    run.resume(ClanEvent::Failed { error: "no answer".to_string() });
    match run.action() {
        ClanAction::Finish { error } => assert_eq!(error, Some("no answer".to_string())),
        _ => panic!("no end"),
    }
    let mut run = run_update_clan(&config, moment());
    run.resume(ClanEvent::Page { clan: Clan { members: 0, wins: 0, losses: 0, draws: 0 } });
    run.resume(ClanEvent::Failed { error: "no space".to_string() });
    match run.action() {
        ClanAction::Finish { error } => assert_eq!(error, Some("no space".to_string())),
        _ => panic!("no end"),
    }
}
