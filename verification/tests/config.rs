use lazytime::config::{default_config_for, default_config_path, default_config_path_for, default_db_file};
use std::collections::BTreeMap;

use lazytime::config::{
    default_config_template, default_jira_issue_type, default_jira_sap_field,
    default_summary_update_seconds, default_track_reminder_seconds,
    default_track_reminder_snooze_seconds, default_tracking_stability_seconds, parse_hhmm,
    unix_join, Config, ConfigError, ThemePreference, TimeParseError, TimeRange,
};
use lazytime::platform::{BuildConfig, TargetOs};

fn range(start: &str, end: &str) -> TimeRange {
    TimeRange {
        start: start.to_string(),
        end: end.to_string(),
    }
}

fn test_config() -> Config {
    let mut cfg = default_config_template("/tmp/lazytime-test.sqlite");
    cfg.default_project = "DefaultProject".to_string();
    cfg
}

fn build(os: TargetOs, ipc_tcp: bool, ipc_unix: bool) -> BuildConfig {
    BuildConfig {
        target_os: os,
        backend_sway: false,
        backend_linux: false,
        backend_windows: false,
        backend_macos: false,
        ipc_tcp,
        ipc_unix,
        popup_ui: false,
    }
}

#[test]
fn defaults_match_documented_values() {
    assert_eq!(default_jira_issue_type(), "Story");
    assert_eq!(default_jira_sap_field(), "sap_project");
    assert_eq!(default_tracking_stability_seconds(), 60);
    assert_eq!(default_track_reminder_seconds(), 300);
    assert_eq!(default_track_reminder_snooze_seconds(), 1800);
    assert_eq!(default_summary_update_seconds(), 5);
    assert_eq!(ThemePreference::default(), ThemePreference::Auto);
}

#[test]
fn default_template_fields() {
    let cfg = default_config_template("/data/lazytime/lazytime.db");
    assert!(!cfg.onboarding_done);
    assert_eq!(cfg.default_project, "Default");
    assert_eq!(cfg.db_file, "/data/lazytime/lazytime.db");
    assert_eq!(cfg.db_path(), "/data/lazytime/lazytime.db");
    assert!(cfg.working_hours.is_empty());
    assert_eq!(cfg.jira_issue_type, "Story");
    assert_eq!(cfg.jira_sap_field, "sap_project");
    assert_eq!(cfg.theme_preference, ThemePreference::Auto);
    assert!(cfg.ipc_socket_path.is_none());
    assert!(cfg.validate().is_ok());
}

#[test]
fn parse_hhmm_accepts_valid_times() {
    assert_eq!(parse_hhmm("09:30"), Ok((9, 30)));
    assert_eq!(parse_hhmm("9:05"), Ok((9, 5)));
    assert_eq!(parse_hhmm("00:00"), Ok((0, 0)));
    assert_eq!(parse_hhmm("23:59"), Ok((23, 59)));
    assert_eq!(parse_hhmm("+7:+5"), Ok((7, 5)));
    assert_eq!(parse_hhmm("007:00"), Ok((7, 0)));
}

#[test]
fn parse_hhmm_error_kinds() {
    assert_eq!(parse_hhmm("0930"), Err(TimeParseError::MissingMinute));
    assert_eq!(parse_hhmm("09:3"), Err(TimeParseError::MinuteNotTwoDigits));
    assert_eq!(parse_hhmm("09:300"), Err(TimeParseError::MinuteNotTwoDigits));
    assert_eq!(parse_hhmm(":30"), Err(TimeParseError::InvalidHour));
    assert_eq!(parse_hhmm("x9:30"), Err(TimeParseError::InvalidHour));
    assert_eq!(parse_hhmm("09:3x"), Err(TimeParseError::InvalidMinute));
    assert_eq!(parse_hhmm("09:é"), Err(TimeParseError::InvalidMinute));
    assert_eq!(parse_hhmm("09:30:00"), Err(TimeParseError::InvalidFormat));
    assert_eq!(parse_hhmm("24:00"), Err(TimeParseError::OutOfRange));
    assert_eq!(parse_hhmm("12:60"), Err(TimeParseError::OutOfRange));
    assert_eq!(parse_hhmm("99999999999:00"), Err(TimeParseError::InvalidHour));
}

#[test]
fn validate_rejects_blank_default_project() {
    let mut cfg = test_config();
    cfg.default_project = "  \t".to_string();
    assert!(matches!(cfg.validate(), Err(ConfigError::EmptyDefaultProject)));
}

#[test]
fn validate_accepts_ordered_ranges() {
    let mut cfg = test_config();
    let mut hours = BTreeMap::new();
    hours.insert(0u8, vec![range("08:00", "12:00"), range("13:00", "17:30")]);
    hours.insert(6u8, vec![range("00:00", "23:59")]);
    cfg.working_hours = hours;
    assert!(cfg.validate().is_ok());
}

#[test]
fn validate_rejects_weekday_out_of_range() {
    let mut cfg = test_config();
    cfg.working_hours.insert(7u8, vec![range("08:00", "12:00")]);
    assert!(matches!(
        cfg.validate(),
        Err(ConfigError::WeekdayOutOfRange { weekday: 7 })
    ));
}

#[test]
fn validate_reports_smallest_failing_weekday() {
    let mut cfg = test_config();
    cfg.working_hours.insert(9u8, vec![range("08:00", "12:00")]);
    cfg.working_hours.insert(3u8, vec![range("12:00", "08:00")]);
    match cfg.validate() {
        Err(ConfigError::EndNotAfterStart { weekday, start, end }) => {
            assert_eq!(weekday, 3);
            assert_eq!(start, "12:00");
            assert_eq!(end, "08:00");
        }
        other => panic!("unexpected {:?}", other),
    }
}

#[test]
fn validate_rejects_bad_times_and_overlaps() {
    let mut cfg = test_config();
    cfg.working_hours.insert(1u8, vec![range("8h", "12:00")]);
    match cfg.validate() {
        Err(ConfigError::InvalidStart { weekday, value, cause }) => {
            assert_eq!(weekday, 1);
            assert_eq!(value, "8h");
            assert_eq!(cause, TimeParseError::MissingMinute);
        }
        other => panic!("unexpected {:?}", other),
    }

    let mut cfg = test_config();
    cfg.working_hours.insert(1u8, vec![range("08:00", "25:00")]);
    assert!(matches!(
        cfg.validate(),
        Err(ConfigError::InvalidEnd { cause: TimeParseError::OutOfRange, .. })
    ));

    let mut cfg = test_config();
    cfg.working_hours.insert(2u8, vec![range("08:00", "12:00"), range("12:00", "13:00")]);
    match cfg.validate() {
        Err(ConfigError::StartNotAfterPreviousEnd { weekday, start }) => {
            assert_eq!(weekday, 2);
            assert_eq!(start, "12:00");
        }
        other => panic!("unexpected {:?}", other),
    }
}

#[test]
fn validate_checks_report_dates() {
    let mut cfg = test_config();
    cfg.report_start = Some("2026-01-31".to_string());
    cfg.report_end = Some("2026-02-28".to_string());
    assert!(cfg.validate().is_ok());

    cfg.report_start = Some("2026-02-30".to_string());
    assert!(matches!(cfg.validate(), Err(ConfigError::InvalidReportStart { .. })));

    cfg.report_start = None;
    cfg.report_end = Some("yesterday".to_string());
    match cfg.validate() {
        Err(ConfigError::InvalidReportEnd { value }) => assert_eq!(value, "yesterday"),
        other => panic!("unexpected {:?}", other),
    }
}

#[test]
fn validate_with_dates_uses_the_given_answers() {
    let mut cfg = test_config();
    cfg.report_start = Some("anything".to_string());
    assert!(cfg.validate_with_dates(true, false).is_ok());
    assert!(matches!(
        cfg.validate_with_dates(false, true),
        Err(ConfigError::InvalidReportStart { .. })
    ));
}

#[test]
fn ipc_socket_path_configured_wins() {
    let mut cfg = test_config();
    cfg.ipc_socket_path = Some("/run/custom.sock".to_string());
    let b = build(TargetOs::Linux, true, true);
    assert_eq!(cfg.ipc_socket_path(&b), "/run/custom.sock");
}

#[test]
fn ipc_socket_path_defaults_by_build() {
    let cfg = test_config();
    assert_eq!(
        cfg.ipc_socket_path_with_home(&build(TargetOs::Macos, true, false), Some("/Users/a")),
        "127.0.0.1:45555"
    );
    assert_eq!(
        cfg.ipc_socket_path_with_home(&build(TargetOs::Linux, false, true), Some("/home/a")),
        "/home/a/.local/run/lazytime.sock"
    );
    assert_eq!(
        cfg.ipc_socket_path_with_home(&build(TargetOs::Linux, false, true), None),
        "/tmp/lazytime.sock"
    );
    assert_eq!(
        cfg.ipc_socket_path_with_home(&build(TargetOs::Linux, true, false), None),
        "127.0.0.1:45555"
    );
    assert_eq!(
        cfg.ipc_socket_path_with_home(&build(TargetOs::Windows, false, true), None),
        "lazytime-ipc"
    );
    assert_eq!(
        cfg.ipc_socket_path(&build(TargetOs::Other, false, false)),
        "lazytime-ipc"
    );
}

#[test]
fn unix_join_inserts_one_separator() {
    assert_eq!(unix_join("/home/a", "x/y"), "/home/a/x/y");
    assert_eq!(unix_join("/home/a/", "x"), "/home/a/x");
    assert_eq!(unix_join("", "x"), "x");
}

#[test]
fn error_messages() {
    assert_eq!(
        ConfigError::EmptyDefaultProject.message(),
        "default_project must be set and non-empty"
    );
    assert_eq!(
        ConfigError::WeekdayOutOfRange { weekday: 9 }.message(),
        "working_hours weekday 9 out of range (0..6)"
    );
    assert_eq!(
        ConfigError::InvalidStart {
            weekday: 1,
            value: "8h".to_string(),
            cause: TimeParseError::MissingMinute
        }
        .message(),
        "invalid working_hours start 8h"
    );
    assert_eq!(
        ConfigError::InvalidEnd {
            weekday: 1,
            value: "25:00".to_string(),
            cause: TimeParseError::OutOfRange
        }
        .message(),
        "invalid working_hours end 25:00"
    );
    assert_eq!(
        ConfigError::EndNotAfterStart {
            weekday: 3,
            start: "12:00".to_string(),
            end: "08:00".to_string()
        }
        .message(),
        "working_hours weekday 3 invalid: end 08:00 must be greater than start 12:00"
    );
    assert_eq!(
        ConfigError::StartNotAfterPreviousEnd { weekday: 2, start: "12:00".to_string() }.message(),
        "working_hours weekday 2 invalid: start 12:00 must be greater than previous end"
    );
    assert_eq!(
        ConfigError::InvalidReportStart { value: "x".to_string() }.message(),
        "invalid report_start date x"
    );
    assert_eq!(
        ConfigError::InvalidReportEnd { value: "y".to_string() }.message(),
        "invalid report_end date y"
    );
    assert_eq!(TimeParseError::MinuteNotTwoDigits.message(), "minute must be two digits");
    assert_eq!(TimeParseError::InvalidHour.message(), "invalid hour");
    assert_eq!(TimeParseError::InvalidMinute.message(), "invalid minute");
    assert_eq!(TimeParseError::InvalidFormat.message(), "invalid time format");
}

#[test]
fn db_file_rules() {
    assert_eq!(
        default_db_file(TargetOs::Linux, Some("/data"), "/home/u/.config/lazytime/config.json"),
        "/data/lazytime/lazytime.db"
    );
    assert_eq!(
        default_db_file(TargetOs::Linux, Some("/data/"), "/x/config.json"),
        "/data/lazytime/lazytime.db"
    );
    assert_eq!(
        default_db_file(TargetOs::Linux, None, "/home/u/.config/lazytime/config.json"),
        "/home/u/.config/lazytime/lazytime.db"
    );
    assert_eq!(default_db_file(TargetOs::Linux, None, "config.json"), "lazytime.db");
    assert_eq!(default_db_file(TargetOs::Linux, None, ""), "./lazytime.db");
    assert_eq!(default_db_file(TargetOs::Linux, None, "/"), "./lazytime.db");
}

#[test]
fn windows_joins_with_backslash() {
    assert_eq!(
        default_db_file(TargetOs::Windows, Some("C:\\Users\\u\\AppData\\Local"), "x"),
        "C:\\Users\\u\\AppData\\Local\\lazytime/lazytime.db"
    );
    assert_eq!(
        default_db_file(TargetOs::Windows, Some("D:\\data\\"), "x"),
        "D:\\data\\lazytime/lazytime.db"
    );
    assert_eq!(
        default_db_file(TargetOs::Windows, Some("D:/data/"), "x"),
        "D:/data/lazytime/lazytime.db"
    );
    assert_eq!(default_db_file(TargetOs::Windows, Some("C:"), "x"), "C:lazytime/lazytime.db");
    assert_eq!(
        default_config_path_for(TargetOs::Windows, Some("C:\\Users\\u")),
        "C:\\Users\\u\\.config/lazytime/config.json"
    );
    assert_eq!(default_config_path_for(TargetOs::Windows, None), "./config.json");
    assert_eq!(
        default_config_path_for(TargetOs::Macos, Some("/Users/u")),
        "/Users/u/.config/lazytime/config.json"
    );
}

#[test]
fn config_path_rules() {
    assert_eq!(
        default_config_path_for(TargetOs::Linux, Some("/home/u")),
        "/home/u/.config/lazytime/config.json"
    );
    assert_eq!(
        default_config_path_for(TargetOs::Linux, Some("/home/u/")),
        "/home/u/.config/lazytime/config.json"
    );
    assert_eq!(default_config_path_for(TargetOs::Linux, None), "./config.json");
    assert!(default_config_path(&build(TargetOs::Linux, false, true)).ends_with("config.json"));
}

#[test]
fn first_start_config() {
    let cfg = default_config_for(&build(TargetOs::Linux, false, true), "/home/u/.config/lazytime/config.json");
    assert!(cfg.db_file.ends_with("lazytime.db"));
    assert_eq!(cfg.default_project, "Default");
    assert!(cfg.validate().is_ok());
}

#[test]
fn formatted_times_parse_back() {
    for h in 0..=23u32 {
        for m in 0..=59u32 {
            assert_eq!(parse_hhmm(&format!("{:02}:{:02}", h, m)), Ok((h, m)));
            assert_eq!(parse_hhmm(&format!("{}:{:02}", h, m)), Ok((h, m)));
        }
    }
}
