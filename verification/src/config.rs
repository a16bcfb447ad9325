//! The configuration: its fields and defaults, working-hour ranges and their
//! validation, and the paths derived from it.
use std::collections::BTreeMap;

use vstd::prelude::*;
use vstd::string::StringExecFns;

use crate::platform::{BuildConfig, TargetOs, desktop_vendor_os, is_desktop_vendor_os};
use crate::text::{
    byte_len, byte_len_capped, chars_of, dec_str, opt_str_view, opt_view, push_decimal, find, find_chars, lemma_find_from_some, parse_u32,
    parse_u32_chars, push_str, trim, trim_str,
};

verus! {

broadcast use {vstd::std_specs::btree::group_btree_axioms, vstd::laws_cmp::group_laws_cmp};

/// The colour theme the GUI uses.
#[derive(Debug, Clone, PartialEq, Eq, Structural)]
pub enum ThemePreference {
    Auto,
    Light,
    Dark,
}

impl Default for ThemePreference {
    fn default() -> (r: Self)
        ensures
            r == ThemePreference::Auto,
    {
        ThemePreference::Auto
    }
}

/// A working-hour range, both ends written `H:MM` or `HH:MM`.
#[derive(Debug, Clone)]
pub struct TimeRange {
    pub start: String,
    pub end: String,
}

/// The configuration of the tracker.
#[derive(Debug, Clone)]
pub struct Config {
    pub onboarding_done: bool,
    pub default_project: String,
    pub tracking_stability_seconds: u64,
    pub working_hours: BTreeMap<u8, Vec<TimeRange>>,
    pub track_reminder_seconds: u64,
    pub track_reminder_snooze_seconds: u64,
    pub summary_update_seconds: u64,
    pub report_start: Option<String>,
    pub report_end: Option<String>,
    pub db_file: String,
    pub jira_url: Option<String>,
    pub jira_token: Option<String>,
    pub jira_email: Option<String>,
    pub jira_project: Option<String>,
    pub jira_assignee: Option<String>,
    pub jira_issue_type: String,
    pub jira_sap_field: String,
    pub ipc_socket_path: Option<String>,
    pub theme_preference: ThemePreference,
    pub sidebar_collapsed: bool,
}

// ---------------------------------------------------------------------------
// Defaults
// ---------------------------------------------------------------------------

/// Issue type used for new Jira issues when none is configured.
pub fn default_jira_issue_type() -> (r: String)
    ensures
        r@ == "Story"@,
{
    String::from_str("Story")
}

/// Name of the Jira field that holds the SAP project when none is configured.
pub fn default_jira_sap_field() -> (r: String)
    ensures
        r@ == "sap_project"@,
{
    String::from_str("sap_project")
}

/// Seconds a newly detected project must stay in focus before tracking switches to it.
pub fn default_tracking_stability_seconds() -> (r: u64)
    ensures
        r == 60,
{
    60
}

/// Seconds without tracking before the reminder pops up.
pub fn default_track_reminder_seconds() -> (r: u64)
    ensures
        r == 300,
{
    300
}

/// Seconds a snoozed reminder stays quiet.
pub fn default_track_reminder_snooze_seconds() -> (r: u64)
    ensures
        r == 1800,
{
    1800
}

/// Seconds between two updates of the summary.
pub fn default_summary_update_seconds() -> (r: u64)
    ensures
        r == 5,
{
    5
}

/// Whether `c` is the configuration written when none exists yet, with database file `db_file`.
pub open spec fn is_default_template(c: Config, db_file: Seq<char>) -> bool {
    &&& !c.onboarding_done
    &&& c.default_project@ == "Default"@
    &&& c.tracking_stability_seconds == 60
    &&& c.working_hours@ == Map::<u8, Vec<TimeRange>>::empty()
    &&& c.track_reminder_seconds == 300
    &&& c.track_reminder_snooze_seconds == 1800
    &&& c.summary_update_seconds == 5
    &&& c.report_start is None
    &&& c.report_end is None
    &&& c.db_file@ == db_file
    &&& c.jira_url is None
    &&& c.jira_token is None
    &&& c.jira_email is None
    &&& c.jira_project is None
    &&& c.jira_assignee is None
    &&& c.jira_issue_type@ == "Story"@
    &&& c.jira_sap_field@ == "sap_project"@
    &&& c.ipc_socket_path is None
    &&& c.theme_preference == ThemePreference::Auto
    &&& !c.sidebar_collapsed
}

/// The configuration written when none exists yet, storing its database in `db_file`.
pub fn default_config_template(db_file: &str) -> (r: Config)
    ensures
        is_default_template(r, db_file@),
{
    Config {
        onboarding_done: false,
        default_project: String::from_str("Default"),
        tracking_stability_seconds: default_tracking_stability_seconds(),
        working_hours: BTreeMap::new(),
        track_reminder_seconds: default_track_reminder_seconds(),
        track_reminder_snooze_seconds: default_track_reminder_snooze_seconds(),
        summary_update_seconds: default_summary_update_seconds(),
        report_start: None,
        report_end: None,
        db_file: String::from_str(db_file),
        jira_url: None,
        jira_token: None,
        jira_email: None,
        jira_project: None,
        jira_assignee: None,
        jira_issue_type: default_jira_issue_type(),
        jira_sap_field: default_jira_sap_field(),
        ipc_socket_path: None,
        theme_preference: ThemePreference::Auto,
        sidebar_collapsed: false,
    }
}

// ---------------------------------------------------------------------------
// HH:MM times
// ---------------------------------------------------------------------------

/// Why a `HH:MM` time was refused.
#[derive(Debug, Clone, Copy, PartialEq, Eq, Structural)]
pub enum TimeParseError {
    /// There is no `:`.
    MissingMinute,
    /// The minute part is not two bytes long.
    MinuteNotTwoDigits,
    /// The hour part is not a number.
    InvalidHour,
    /// The minute part is not a number.
    InvalidMinute,
    /// There is a second `:`.
    InvalidFormat,
    /// The hour is above 23 or the minute above 59.
    OutOfRange,
}

pub open spec fn colon() -> Seq<char> {
    seq![':']
}

/// What `parse_hhmm` gives for `s`: the text before the first `:` is the hour,
/// the text after it up to the next `:` (if any) the minute. Checks are made in
/// this order: a `:` is present; the minute is two bytes long; the hour, then the
/// minute, are `u32` numbers (an optional `+` then digits); there is no second
/// `:`; hour <= 23 and minute <= 59.
pub open spec fn hhmm(s: Seq<char>) -> Result<(u32, u32), TimeParseError> {
    match find(s, colon()) {
        None => Err(TimeParseError::MissingMinute),
        Some(i) => {
            let hour = s.take(i);
            let after = s.skip(i + 1);
            let second = find(after, colon());
            let minute = match second {
                Some(j) => after.take(j),
                None => after,
            };
            if byte_len(minute) != 2 {
                Err(TimeParseError::MinuteNotTwoDigits)
            } else if parse_u32(hour) is None {
                Err(TimeParseError::InvalidHour)
            } else if parse_u32(minute) is None {
                Err(TimeParseError::InvalidMinute)
            } else if second is Some {
                Err(TimeParseError::InvalidFormat)
            } else if parse_u32(hour)->0 > 23 || parse_u32(minute)->0 > 59 {
                Err(TimeParseError::OutOfRange)
            } else {
                Ok((parse_u32(hour)->0, parse_u32(minute)->0))
            }
        },
    }
}

/// `v` written with at least two digits, as `{:02}` formats a number below 100.
pub open spec fn two_digits(v: nat) -> Seq<char> {
    if v < 10 {
        seq!['0'] + dec_str(v)
    } else {
        dec_str(v)
    }
}

proof fn lemma_two_digits(v: nat)
    requires
        v < 100,
    ensures
        two_digits(v).len() == 2,
        crate::text::all_digits(two_digits(v)),
        crate::text::dec_value(two_digits(v)) == v,
{
    let t = two_digits(v);
    crate::text::lemma_digit_char(v % 10);
    crate::text::lemma_digit_char(v / 10);
    if v < 10 {
        assert(dec_str(v) == seq![crate::text::digit_char(v)]);
        assert(t =~= seq!['0', crate::text::digit_char(v)]);
    } else {
        assert(dec_str(v / 10) == seq![crate::text::digit_char(v / 10)]);
        assert(t =~= seq![crate::text::digit_char(v / 10), crate::text::digit_char(v % 10)]);
    }
    assert(t.drop_last().drop_last() =~= Seq::<char>::empty());
    assert(t.drop_last() =~= seq![t[0]]);
    assert(crate::text::dec_value(t.drop_last()) == crate::text::dec_value(
        t.drop_last().drop_last(),
    ) * 10 + crate::text::digit_value(t[0]));
}

proof fn lemma_colon_after_digits(hour: Seq<char>, minute: Seq<char>)
    requires
        crate::text::all_digits(hour),
        crate::text::all_digits(minute),
    ensures
        find(hour + colon() + minute, colon()) == Some(hour.len() as int),
        (hour + colon() + minute).take(hour.len() as int) == hour,
        (hour + colon() + minute).skip(hour.len() as int + 1) == minute,
        find(minute, colon()) is None,
{
    let s = hour + colon() + minute;
    let n = hour.len() as int;
    assert(crate::text::occurs_at(s, colon(), n)) by {
        assert(s.subrange(n, n + 1) =~= colon());
    }
    lemma_find_from_some(s, colon(), 0);
    assert forall|k: int| 0 <= k < n implies !crate::text::occurs_at(s, colon(), k) by {
        assert(s[k] == hour[k]);
        if crate::text::occurs_at(s, colon(), k) {
            assert(s.subrange(k, k + 1)[0] == s[k]);
        }
    }
    assert(s.take(n) =~= hour);
    assert(s.skip(n + 1) =~= minute);
    lemma_find_from_some(minute, colon(), 0);
    assert forall|k: int| 0 <= k implies !crate::text::occurs_at(minute, colon(), k) by {
        if crate::text::occurs_at(minute, colon(), k) {
            assert(minute.subrange(k, k + 1)[0] == minute[k]);
        }
    }
}

proof fn lemma_two_digit_text(minute: Seq<char>, m: nat)
    requires
        minute.len() == 2,
        crate::text::all_digits(minute),
        crate::text::dec_value(minute) == m,
        m <= 59,
    ensures
        byte_len(minute) == 2,
        parse_u32(minute) == Some(m as u32),
{
    assert(crate::text::is_digit(minute[0]) && crate::text::is_digit(minute[1]));
    assert(minute.drop_last().drop_last() =~= Seq::<char>::empty());
    assert(minute.drop_last().last() == minute[0]);
    assert(byte_len(minute.drop_last()) == byte_len(minute.drop_last().drop_last())
        + crate::text::utf8_len(minute[0]));
    assert(crate::text::unsigned_digits(minute) == minute);
}

proof fn lemma_hour_text(hour: Seq<char>, h: nat)
    requires
        hour.len() > 0,
        crate::text::all_digits(hour),
        crate::text::dec_value(hour) == h,
        h <= 23,
    ensures
        parse_u32(hour) == Some(h as u32),
{
    assert(crate::text::is_digit(hour[0]));
    assert(crate::text::unsigned_digits(hour) == hour);
}

/// A time written as hour digits, `:` and two minute digits is read back as
/// that hour and minute, when they are a time of day.
proof fn lemma_hhmm_of_digits(hour: Seq<char>, minute: Seq<char>, h: nat, m: nat)
    requires
        hour.len() > 0,
        crate::text::all_digits(hour),
        crate::text::dec_value(hour) == h,
        h <= 23,
        minute.len() == 2,
        crate::text::all_digits(minute),
        crate::text::dec_value(minute) == m,
        m <= 59,
    ensures
        hhmm(hour + colon() + minute) == Ok::<(u32, u32), TimeParseError>((h as u32, m as u32)),
{
    lemma_colon_after_digits(hour, minute);
    lemma_two_digit_text(minute, m);
    lemma_hour_text(hour, h);
}

/// A time of day written as `parse_hhmm` expects, `{:02}:{:02}` or
/// `{}:{:02}`, is read back as the same hour and minute.
pub proof fn lemma_hhmm_roundtrip(h: u32, m: u32)
    requires
        h <= 23,
        m <= 59,
    ensures
        hhmm(two_digits(h as nat) + ":"@ + two_digits(m as nat)) == Ok::<(u32, u32), TimeParseError>(
            (h, m),
        ),
        hhmm(dec_str(h as nat) + ":"@ + two_digits(m as nat)) == Ok::<(u32, u32), TimeParseError>(
            (h, m),
        ),
{
    reveal_strlit(":");
    assert(":"@ =~= colon());
    lemma_two_digits(h as nat);
    lemma_two_digits(m as nat);
    crate::text::lemma_dec_str_digits(h as nat);
    lemma_hhmm_of_digits(two_digits(h as nat), two_digits(m as nat), h as nat, m as nat);
    lemma_hhmm_of_digits(dec_str(h as nat), two_digits(m as nat), h as nat, m as nat);
}

/// Parses a `HH:MM` time of day into hour and minute.
pub fn parse_hhmm(value: &str) -> (r: Result<(u32, u32), TimeParseError>)
    ensures
        r == hhmm(value@),
        r matches Ok((h, m)) ==> h <= 23 && m <= 59,
{
    let v = chars_of(value);
    let sep = vec![':'];
    assert(sep@ =~= colon());
    let first = find_chars(&v, &sep, 0);
    proof {
        lemma_find_from_some(v@, sep@, 0);
    }
    let i = match first {
        None => {
            return Err(TimeParseError::MissingMinute);
        },
        Some(i) => i,
    };
    let ghost after = v@.skip(i + 1);
    let second = find_chars(&v, &sep, i + 1);
    proof {
        lemma_find_from_some(v@, sep@, i + 1);
        lemma_find_from_some(after, sep@, 0);
        lemma_find_shift(v@, sep@, i + 1);
    }
    let minute_end = match second {
        Some(j) => j,
        None => v.len(),
    };
    let minute = crate::text::sub_chars(&v, i + 1, minute_end);
    assert(minute@ =~= (match find(after, colon()) {
        Some(j) => after.take(j),
        None => after,
    }));
    if byte_len_capped(&minute, 2) != 2 {
        return Err(TimeParseError::MinuteNotTwoDigits);
    }
    let hour = parse_u32_chars(&v, 0, i);
    assert(v@.subrange(0, i as int) =~= v@.take(i as int));
    let h = match hour {
        None => {
            return Err(TimeParseError::InvalidHour);
        },
        Some(h) => h,
    };
    let minute_v = parse_u32_chars(&minute, 0, minute.len());
    assert(minute@.subrange(0, minute.len() as int) =~= minute@);
    let m = match minute_v {
        None => {
            return Err(TimeParseError::InvalidMinute);
        },
        Some(m) => m,
    };
    if second.is_some() {
        return Err(TimeParseError::InvalidFormat);
    }
    if h > 23 || m > 59 {
        return Err(TimeParseError::OutOfRange);
    }
    Ok((h, m))
}

/// Searching from `k` in `s` is searching from 0 in `s.skip(k)`, shifted by `k`.
pub proof fn lemma_find_shift(s: Seq<char>, p: Seq<char>, k: int)
    requires
        0 <= k <= s.len(),
    ensures
        crate::text::find_from(s, p, k) matches Some(j) ==> find(s.skip(k), p) == Some(j - k),
        crate::text::find_from(s, p, k) is None ==> find(s.skip(k), p) is None,
{
    lemma_find_from_some(s, p, k);
    lemma_find_from_some(s.skip(k), p, 0);
    let t = s.skip(k);
    assert forall|m: int| 0 <= m implies crate::text::occurs_at(t, p, m)
        == crate::text::occurs_at(s, p, m + k) by {
        if m + p.len() <= t.len() {
            assert(t.subrange(m, m + p.len()) =~= s.subrange(m + k, m + k + p.len()));
        }
    }
    match crate::text::find_from(s, p, k) {
        Some(j) => {
            match find(t, p) {
                Some(q) => {
                    assert(crate::text::occurs_at(s, p, q + k));
                    assert(crate::text::occurs_at(t, p, j - k));
                },
                None => {
                    assert(crate::text::occurs_at(t, p, j - k));
                },
            }
        },
        None => {
            match find(t, p) {
                Some(q) => {
                    assert(crate::text::occurs_at(s, p, q + k));
                },
                None => {},
            }
        },
    }
}


// ---------------------------------------------------------------------------
// Validation
// ---------------------------------------------------------------------------

/// Why a configuration was refused.
#[derive(Debug, Clone)]
pub enum ConfigError {
    /// `default_project` is empty or only white space.
    EmptyDefaultProject,
    /// A working-hours weekday is above 6.
    WeekdayOutOfRange { weekday: u8 },
    /// The start of a range is not a valid time.
    InvalidStart { weekday: u8, value: String, cause: TimeParseError },
    /// The end of a range is not a valid time.
    InvalidEnd { weekday: u8, value: String, cause: TimeParseError },
    /// A range does not end after it starts.
    EndNotAfterStart { weekday: u8, start: String, end: String },
    /// A range does not start after the end of the range before it.
    StartNotAfterPreviousEnd { weekday: u8, start: String },
    /// `report_start` is not a `%Y-%m-%d` date.
    InvalidReportStart { value: String },
    /// `report_end` is not a `%Y-%m-%d` date.
    InvalidReportEnd { value: String },
}

impl TimeParseError {
    /// The reason, as shown to the user.
    pub fn message(&self) -> (r: &'static str)
        ensures
            r@ == time_error_text(*self),
    {
        match self {
            TimeParseError::MissingMinute => "missing minute",
            TimeParseError::MinuteNotTwoDigits => "minute must be two digits",
            TimeParseError::InvalidHour => "invalid hour",
            TimeParseError::InvalidMinute => "invalid minute",
            TimeParseError::InvalidFormat => "invalid time format",
            TimeParseError::OutOfRange => "time out of range",
        }
    }
}

/// The text of a time error.
pub open spec fn time_error_text(e: TimeParseError) -> Seq<char> {
    match e {
        TimeParseError::MissingMinute => "missing minute"@,
        TimeParseError::MinuteNotTwoDigits => "minute must be two digits"@,
        TimeParseError::InvalidHour => "invalid hour"@,
        TimeParseError::InvalidMinute => "invalid minute"@,
        TimeParseError::InvalidFormat => "invalid time format"@,
        TimeParseError::OutOfRange => "time out of range"@,
    }
}

/// The text of a configuration error as it is displayed: its own message; the
/// cause of a bad time stays in the error value, as the source of that message.
pub open spec fn config_error_text(e: ConfigError) -> Seq<char> {
    match e {
        ConfigError::EmptyDefaultProject => "default_project must be set and non-empty"@,
        ConfigError::WeekdayOutOfRange { weekday } => "working_hours weekday "@ + dec_str(
            weekday as nat,
        ) + " out of range (0..6)"@,
        ConfigError::InvalidStart { weekday, value, cause } => "invalid working_hours start "@
            + value@,
        ConfigError::InvalidEnd { weekday, value, cause } => "invalid working_hours end "@
            + value@,
        ConfigError::EndNotAfterStart { weekday, start, end } => "working_hours weekday "@
            + dec_str(weekday as nat) + " invalid: end "@ + end@ + " must be greater than start "@
            + start@,
        ConfigError::StartNotAfterPreviousEnd { weekday, start } => "working_hours weekday "@
            + dec_str(weekday as nat) + " invalid: start "@ + start@
            + " must be greater than previous end"@,
        ConfigError::InvalidReportStart { value } => "invalid report_start date "@ + value@,
        ConfigError::InvalidReportEnd { value } => "invalid report_end date "@ + value@,
    }
}

impl ConfigError {
    /// The error as shown to the user.
    pub fn message(&self) -> (r: String)
        ensures
            r@ == config_error_text(*self),
    {
        match self {
            ConfigError::EmptyDefaultProject => String::from_str(
                "default_project must be set and non-empty",
            ),
            ConfigError::WeekdayOutOfRange { weekday } => {
                let mut r = String::from_str("working_hours weekday ");
                push_decimal(&mut r, *weekday as u64);
                push_str(&mut r, " out of range (0..6)");
                r
            },
            ConfigError::InvalidStart { weekday: _, value, cause: _ } => {
                let mut r = String::from_str("invalid working_hours start ");
                push_str(&mut r, value.as_str());
                r
            },
            ConfigError::InvalidEnd { weekday: _, value, cause: _ } => {
                let mut r = String::from_str("invalid working_hours end ");
                push_str(&mut r, value.as_str());
                r
            },
            ConfigError::EndNotAfterStart { weekday, start, end } => {
                let mut r = String::from_str("working_hours weekday ");
                push_decimal(&mut r, *weekday as u64);
                push_str(&mut r, " invalid: end ");
                push_str(&mut r, end.as_str());
                push_str(&mut r, " must be greater than start ");
                push_str(&mut r, start.as_str());
                r
            },
            ConfigError::StartNotAfterPreviousEnd { weekday, start } => {
                let mut r = String::from_str("working_hours weekday ");
                push_decimal(&mut r, *weekday as u64);
                push_str(&mut r, " invalid: start ");
                push_str(&mut r, start.as_str());
                push_str(&mut r, " must be greater than previous end");
                r
            },
            ConfigError::InvalidReportStart { value } => {
                let mut r = String::from_str("invalid report_start date ");
                push_str(&mut r, value.as_str());
                r
            },
            ConfigError::InvalidReportEnd { value } => {
                let mut r = String::from_str("invalid report_end date ");
                push_str(&mut r, value.as_str());
                r
            },
        }
    }
}

/// Minutes since midnight of an hour and minute.
pub open spec fn minutes_of(hm: (u32, u32)) -> int {
    hm.0 * 60 + hm.1
}

/// The first problem in the ranges `rs[k..]` of `weekday`, where the range before
/// `rs[k]` ended at minute `prev`.
pub open spec fn ranges_error_from(weekday: u8, rs: Seq<TimeRange>, k: int, prev: Option<int>) -> Option<
    ConfigError,
>
    decreases rs.len() - k,
{
    if k < 0 || k >= rs.len() {
        None
    } else {
        let r = rs[k];
        match hhmm(r.start@) {
            Err(cause) => Some(ConfigError::InvalidStart { weekday, value: r.start, cause }),
            Ok(s) => match hhmm(r.end@) {
                Err(cause) => Some(ConfigError::InvalidEnd { weekday, value: r.end, cause }),
                Ok(e) => if minutes_of(e) <= minutes_of(s) {
                    Some(ConfigError::EndNotAfterStart { weekday, start: r.start, end: r.end })
                } else if prev is Some && minutes_of(s) <= prev->0 {
                    Some(ConfigError::StartNotAfterPreviousEnd { weekday, start: r.start })
                } else {
                    ranges_error_from(weekday, rs, k + 1, Some(minutes_of(e)))
                },
            },
        }
    }
}

/// The problem with the working hours of one weekday, if any.
pub open spec fn day_error(weekday: u8, ranges: Seq<TimeRange>) -> Option<ConfigError> {
    if weekday > 6 {
        Some(ConfigError::WeekdayOutOfRange { weekday })
    } else {
        ranges_error_from(weekday, ranges, 0, None)
    }
}

/// `k` is the smallest weekday of `m` whose working hours have a problem.
pub open spec fn first_failing_day(m: Map<u8, Vec<TimeRange>>, k: u8) -> bool {
    &&& m.contains_key(k)
    &&& day_error(k, m[k]@) is Some
    &&& forall|j: u8| j < k && m.contains_key(j) ==> day_error(j, #[trigger] m[j]@) is None
}

/// The problem reported for the working hours: that of the smallest weekday with one.
pub open spec fn hours_error(m: Map<u8, Vec<TimeRange>>) -> Option<ConfigError> {
    if exists|k: u8| first_failing_day(m, k) {
        let k = choose|k: u8| first_failing_day(m, k);
        day_error(k, m[k]@)
    } else {
        None
    }
}

/// The outcome of validating `c`, given whether its report dates parse.
pub open spec fn validation(c: Config, report_start_ok: bool, report_end_ok: bool) -> Result<
    (),
    ConfigError,
> {
    if trim(c.default_project@).len() == 0 {
        Err(ConfigError::EmptyDefaultProject)
    } else if hours_error(c.working_hours@) is Some {
        Err(hours_error(c.working_hours@)->0)
    } else if c.report_start is Some && !report_start_ok {
        Err(ConfigError::InvalidReportStart { value: c.report_start->0 })
    } else if c.report_end is Some && !report_end_ok {
        Err(ConfigError::InvalidReportEnd { value: c.report_end->0 })
    } else {
        Ok(())
    }
}

/// `base` joined with the relative path `rel`, with `/` as separator (what
/// `Path::join` gives on Unix for a relative `rel`).
pub open spec fn unix_joined(base: Seq<char>, rel: Seq<char>) -> Seq<char> {
    if base.len() == 0 {
        rel
    } else if base.last() == '/' {
        base + rel
    } else {
        base + seq!['/'] + rel
    }
}

/// Joins a relative path to a Unix base path.
pub fn unix_join(base: &str, rel: &str) -> (r: String)
    ensures
        r@ == unix_joined(base@, rel@),
{
    let b = chars_of(base);
    let mut r = String::from_str(base);
    if b.len() > 0 && b[b.len() - 1] != '/' {
        crate::text::push_char(&mut r, '/');
    }
    push_str(&mut r, rel);
    proof {
        if b.len() == 0 {
            assert(r@ =~= rel@);
        }
    }
    r
}

/// The IPC endpoint used by a build: the configured path; otherwise, by transport
/// and target, `127.0.0.1:45555` (TCP), `~/.local/run/lazytime.sock` or
/// `/tmp/lazytime.sock` (Unix socket, with and without a known home), or
/// `lazytime-ipc` when the build has no IPC transport for its target.
pub open spec fn ipc_endpoint(configured: Option<Seq<char>>, build: BuildConfig, home: Option<
    Seq<char>,
>) -> Seq<char> {
    let vendor = desktop_vendor_os(build.target_os);
    if configured is Some {
        configured->0
    } else if build.ipc_tcp && vendor {
        "127.0.0.1:45555"@
    } else if build.ipc_unix && !vendor {
        match home {
            Some(h) => unix_joined(h, ".local/run/lazytime.sock"@),
            None => "/tmp/lazytime.sock"@,
        }
    } else if build.ipc_tcp && !vendor {
        "127.0.0.1:45555"@
    } else {
        "lazytime-ipc"@
    }
}

/// The user's home directory (`dirs::home_dir`), converted lossily to a string.
/// Nothing is stated of the result: it depends on the environment.
#[verifier::external_body]
fn home_dir() -> Option<String> {
    dirs::home_dir().map(|p| p.to_string_lossy().into_owned())
}

/// The user's local data directory (`dirs::data_local_dir`), converted lossily to
/// a string. Nothing is stated of the result: it depends on the environment.
#[verifier::external_body]
fn data_local_dir() -> Option<String> {
    dirs::data_local_dir().map(|p| p.to_string_lossy().into_owned())
}

/// What `std::path::Path::parent` gives for the path `p`, as a string.
pub uninterp spec fn path_parent_of(p: Seq<char>) -> Option<Seq<char>>;

/// `Path::new(p).parent()`, converted to a string. Claimed: the answer depends
/// on `p` alone, and the empty path has no parent (as `Path::parent` documents).
#[verifier::external_body]
fn path_parent(p: &str) -> (r: Option<String>)
    ensures
        opt_view(r) == path_parent_of(p@),
        p@.len() == 0 ==> r is None,
{
    std::path::Path::new(p).parent().map(|q| q.to_string_lossy().into_owned())
}

/// Whether `p` starts with the verbatim prefix `\\?\` of Windows paths.
pub open spec fn is_verbatim(p: Seq<char>) -> bool {
    p.len() >= 4 && p[0] == '\\' && p[1] == '\\' && p[2] == '?' && p[3] == '\\'
}

/// Whether `p` is a bare Windows drive such as `C:`.
pub open spec fn is_bare_drive(p: Seq<char>) -> bool {
    p.len() == 2 && (('a' <= p[0] <= 'z') || ('A' <= p[0] <= 'Z')) && p[1] == ':'
}

/// `PathBuf::join` on Windows of a path without verbatim prefix and a relative
/// path without root or prefix: a `\` goes between them unless the base is
/// empty, ends with `/` or `\`, or is a bare drive.
pub open spec fn windows_joined(base: Seq<char>, rel: Seq<char>) -> Seq<char> {
    if base.len() > 0 && base.last() != '/' && base.last() != '\\' && !is_bare_drive(base) {
        base + seq!['\\'] + rel
    } else {
        base + rel
    }
}

/// `PathBuf::join` on the target `os` for a relative `rel` (joined as on Unix
/// on every target but Windows).
pub open spec fn path_joined(os: TargetOs, base: Seq<char>, rel: Seq<char>) -> Seq<char> {
    if os == TargetOs::Windows {
        windows_joined(base, rel)
    } else {
        unix_joined(base, rel)
    }
}

/// Whether the join of `base` is stated: always but for a verbatim base on Windows,
/// which `PathBuf::join` first rebuilds from its components.
pub open spec fn join_stated(os: TargetOs, base: Seq<char>) -> bool {
    !(os == TargetOs::Windows && is_verbatim(base))
}

/// Whether `rel` is relative with neither root nor prefix, on any target.
pub open spec fn plain_relative(rel: Seq<char>) -> bool {
    &&& rel.len() > 0
    &&& rel[0] != '/' && rel[0] != '\\'
    &&& !(rel.len() >= 2 && rel[1] == ':')
}

/// `std::path::Path::join`, converted to a string. Nothing is stated of the
/// result: it differs from target to target; it is used only where the library
/// states no result.
#[verifier::external_body]
fn std_path_join(base: &str, rel: &str) -> String {
    std::path::Path::new(base).join(rel).to_string_lossy().into_owned()
}

/// Joins the relative path `rel` to `base` as `PathBuf::join` does on `os`.
fn path_join(os: TargetOs, base: &str, rel: &str) -> (r: String)
    requires
        plain_relative(rel@),
    ensures
        join_stated(os, base@) ==> r@ == path_joined(os, base@, rel@),
{
    if os != TargetOs::Windows {
        return unix_join(base, rel);
    }
    let b = chars_of(base);
    let n = b.len();
    if n >= 4 && b[0] == '\\' && b[1] == '\\' && b[2] == '?' && b[3] == '\\' {
        return std_path_join(base, rel);
    }
    let bare_drive = n == 2 && (('a' <= b[0] && b[0] <= 'z') || ('A' <= b[0] && b[0] <= 'Z'))
        && b[1] == ':';
    let mut r = String::from_str(base);
    if n > 0 && b[n - 1] != '/' && b[n - 1] != '\\' && !bare_drive {
        crate::text::push_char(&mut r, '\\');
    }
    push_str(&mut r, rel);
    proof {
        if n == 0 {
            assert(r@ =~= base@ + rel@);
        }
    }
    r
}

/// The directory a first-start database is placed under: the local data
/// directory when known, else the configuration file's parent (if it has one).
pub open spec fn db_file_base(data_dir: Option<Seq<char>>, config_path: Seq<char>) -> Option<
    Seq<char>,
> {
    match data_dir {
        Some(d) => Some(d),
        None => path_parent_of(config_path),
    }
}

/// Whether the database path is stated: its directory is joined in a stated way.
pub open spec fn db_file_stated(os: TargetOs, data_dir: Option<Seq<char>>, config_path: Seq<char>) -> bool {
    match db_file_base(data_dir, config_path) {
        Some(b) => join_stated(os, b),
        None => true,
    }
}

/// The database file of a first-start configuration: `<data dir>/lazytime/lazytime.db`
/// when the local data directory is known, else `lazytime.db` beside the
/// configuration file, else `./lazytime.db` (joined as `PathBuf::join` does on `os`).
pub open spec fn db_file_for(os: TargetOs, data_dir: Option<Seq<char>>, config_path: Seq<char>) -> Seq<char> {
    match data_dir {
        Some(d) => path_joined(os, d, "lazytime/lazytime.db"@),
        None => match path_parent_of(config_path) {
            Some(parent) => path_joined(os, parent, "lazytime.db"@),
            None => "./lazytime.db"@,
        },
    }
}

/// The database file of a first-start configuration on the target `os`, from the
/// local data directory (if known) and the configuration file's path.
pub fn default_db_file(os: TargetOs, data_dir: Option<&str>, config_path: &str) -> (r: String)
    ensures
        db_file_stated(os, opt_str_view(data_dir), config_path@) ==> r@ == db_file_for(
            os,
            opt_str_view(data_dir),
            config_path@,
        ),
{
    proof {
        reveal_strlit("lazytime/lazytime.db");
        reveal_strlit("lazytime.db");
    }
    match data_dir {
        Some(d) => path_join(os, d, "lazytime/lazytime.db"),
        None => match path_parent(config_path) {
            Some(parent) => path_join(os, parent.as_str(), "lazytime.db"),
            None => String::from_str("./lazytime.db"),
        },
    }
}

/// The configuration written on first start, by a build for `build`, for the
/// file at `config_path`.
pub fn default_config_for(build: &BuildConfig, config_path: &str) -> (r: Config)
    ensures
        exists|d: Option<Seq<char>>|
            is_default_template(r, r.db_file@) && (db_file_stated(build.target_os, d, config_path@)
                ==> r.db_file@ == #[trigger] db_file_for(build.target_os, d, config_path@)),
{
    let data_dir = data_local_dir();
    let db_file = match &data_dir {
        Some(d) => default_db_file(build.target_os, Some(d.as_str()), config_path),
        None => default_db_file(build.target_os, None, config_path),
    };
    let ghost d = opt_view(data_dir);
    let r = default_config_template(db_file.as_str());
    assert(is_default_template(r, r.db_file@));
    assert(is_default_template(r, r.db_file@) && (db_file_stated(build.target_os, d, config_path@)
        ==> r.db_file@ == db_file_for(build.target_os, d, config_path@)));
    assert(exists|d0: Option<Seq<char>>|
        is_default_template(r, r.db_file@) && (db_file_stated(build.target_os, d0, config_path@)
            ==> r.db_file@ == #[trigger] db_file_for(build.target_os, d0, config_path@)));
    r
}

/// The configuration file used when none is named: `<home>/.config/lazytime/config.json`,
/// or `./config.json` when the home directory is unknown (joined as
/// `PathBuf::join` does on `os`).
pub open spec fn config_path_for(os: TargetOs, home: Option<Seq<char>>) -> Seq<char> {
    match home {
        Some(h) => path_joined(os, h, ".config/lazytime/config.json"@),
        None => "./config.json"@,
    }
}

/// Whether the default configuration path is stated for the home directory.
pub open spec fn config_path_stated(os: TargetOs, home: Option<Seq<char>>) -> bool {
    match home {
        Some(h) => join_stated(os, h),
        None => true,
    }
}

/// The configuration file used when none is named, on the target `os`, for a
/// home directory.
pub fn default_config_path_for(os: TargetOs, home: Option<&str>) -> (r: String)
    ensures
        config_path_stated(os, opt_str_view(home)) ==> r@ == config_path_for(
            os,
            opt_str_view(home),
        ),
{
    proof {
        reveal_strlit(".config/lazytime/config.json");
    }
    match home {
        Some(h) => path_join(os, h, ".config/lazytime/config.json"),
        None => String::from_str("./config.json"),
    }
}

/// The configuration file used when none is named, for the user's home directory.
pub fn default_config_path(build: &BuildConfig) -> (r: String)
    ensures
        exists|h: Option<Seq<char>>|
            config_path_stated(build.target_os, h) ==> r@ == #[trigger] config_path_for(
                build.target_os,
                h,
            ),
{
    let home = home_dir();
    let r = match &home {
        Some(h) => default_config_path_for(build.target_os, Some(h.as_str())),
        None => default_config_path_for(build.target_os, None),
    };
    assert(config_path_stated(build.target_os, opt_view(home)) ==> r@ == config_path_for(
        build.target_os,
        opt_view(home),
    ));
    r
}

/// A joined path starts with the base and ends with the relative part.
proof fn lemma_joined_bounds(os: TargetOs, base: Seq<char>, rel: Seq<char>)
    ensures
        path_joined(os, base, rel).len() >= base.len() + rel.len(),
        path_joined(os, base, rel).take(base.len() as int) == base,
        path_joined(os, base, rel).skip(path_joined(os, base, rel).len() - rel.len()) == rel,
{
    let j = path_joined(os, base, rel);
    assert(j.take(base.len() as int) =~= base);
    assert(j.skip(j.len() - rel.len()) =~= rel);
}

/// With a known home directory the configuration file lies under it, at
/// `.config/lazytime/config.json`, and is never the fallback `./config.json`.
pub proof fn lemma_known_home_config_path(os: TargetOs, home: Seq<char>)
    ensures
        config_path_for(os, Some(home)).take(home.len() as int) == home,
        config_path_for(os, Some(home)).skip(
            config_path_for(os, Some(home)).len() - ".config/lazytime/config.json"@.len(),
        ) == ".config/lazytime/config.json"@,
        config_path_for(os, Some(home)) != config_path_for(os, None),
{
    reveal_strlit(".config/lazytime/config.json");
    reveal_strlit("./config.json");
    lemma_joined_bounds(os, home, ".config/lazytime/config.json"@);
    assert(config_path_for(os, Some(home)).len() > "./config.json"@.len());
}

/// On a build that uses a Unix socket, with no configured path and a known home
/// directory, the socket lies under the home at `.local/run/lazytime.sock`, and
/// is never the fallback `/tmp/lazytime.sock`.
pub proof fn lemma_known_home_socket(build: BuildConfig, home: Seq<char>)
    requires
        build.ipc_unix,
        !desktop_vendor_os(build.target_os),
    ensures
        ipc_endpoint(None, build, Some(home)).take(home.len() as int) == home,
        ipc_endpoint(None, build, Some(home)).skip(
            ipc_endpoint(None, build, Some(home)).len() - ".local/run/lazytime.sock"@.len(),
        ) == ".local/run/lazytime.sock"@,
        ipc_endpoint(None, build, Some(home)) != ipc_endpoint(None, build, None),
{
    reveal_strlit(".local/run/lazytime.sock");
    reveal_strlit("/tmp/lazytime.sock");
    lemma_joined_bounds(TargetOs::Linux, home, ".local/run/lazytime.sock"@);
    assert(ipc_endpoint(None, build, Some(home)) == path_joined(
        TargetOs::Linux,
        home,
        ".local/run/lazytime.sock"@,
    ));
    assert(ipc_endpoint(None, build, Some(home)).len() > "/tmp/lazytime.sock"@.len());
}

/// The ranges are valid times, each ends after it starts, and each starts after
/// the previous one ends.
pub open spec fn ranges_ordered(rs: Seq<TimeRange>) -> bool {
    &&& forall|k: int|
        0 <= k < rs.len() ==> #[trigger] hhmm(rs[k].start@) is Ok && hhmm(rs[k].end@) is Ok
            && minutes_of(hhmm(rs[k].end@)->Ok_0) > minutes_of(hhmm(rs[k].start@)->Ok_0)
    &&& forall|k: int|
        0 < k < rs.len() ==> minutes_of(hhmm(#[trigger] rs[k].start@)->Ok_0) > minutes_of(
            hhmm(rs[k - 1].end@)->Ok_0,
        )
}

proof fn lemma_ranges_ok_from(weekday: u8, rs: Seq<TimeRange>, k: int, prev: Option<int>)
    requires
        0 <= k <= rs.len(),
        ranges_error_from(weekday, rs, k, prev) is None,
    ensures
        forall|j: int|
            k <= j < rs.len() ==> #[trigger] hhmm(rs[j].start@) is Ok && hhmm(rs[j].end@) is Ok
                && minutes_of(hhmm(rs[j].end@)->Ok_0) > minutes_of(hhmm(rs[j].start@)->Ok_0),
        forall|j: int|
            k < j < rs.len() ==> minutes_of(hhmm(#[trigger] rs[j].start@)->Ok_0) > minutes_of(
                hhmm(rs[j - 1].end@)->Ok_0,
            ),
        k < rs.len() && prev is Some ==> minutes_of(hhmm(rs[k].start@)->Ok_0) > prev->0,
    decreases rs.len() - k,
{
    if k < rs.len() {
        let e = hhmm(rs[k].end@)->Ok_0;
        lemma_ranges_ok_from(weekday, rs, k + 1, Some(minutes_of(e)));
    }
}

/// Every weekday of a configuration that validates is between 0 and 6, and its
/// ranges are valid times in increasing, non-overlapping order.
pub proof fn lemma_valid_hours_ordered(c: Config, report_start_ok: bool, report_end_ok: bool)
    requires
        validation(c, report_start_ok, report_end_ok) is Ok,
    ensures
        forall|wd: u8|
            #[trigger] c.working_hours@.contains_key(wd) ==> wd <= 6 && ranges_ordered(
                c.working_hours@[wd]@,
            ),
{
    let m = c.working_hours@;
    assert(hours_error(m) is None);
    assert forall|wd: u8| #[trigger] m.contains_key(wd) implies wd <= 6 && ranges_ordered(
        m[wd]@,
    ) by {
        if day_error(wd, m[wd]@) is Some {
            lemma_smallest_failing_day(m, wd);
        }
        assert(day_error(wd, m[wd]@) is None);
        lemma_ranges_ok_from(wd, m[wd]@, 0, None);
    }
}

/// Validation succeeds only when every report date that is set parses, each
/// checked on its own: the answer about one date never excuses the other, and
/// the answer about a date that is not set changes nothing. A failing report date
/// is reported as such once the project and working hours are valid.
pub proof fn lemma_report_dates_checked(c: Config, start_ok: bool, end_ok: bool, other: bool)
    ensures
        validation(c, start_ok, end_ok) is Ok ==> (c.report_start is Some ==> start_ok) && (
        c.report_end is Some ==> end_ok),
        c.report_start is None ==> validation(c, start_ok, end_ok) == validation(c, other, end_ok),
        c.report_end is None ==> validation(c, start_ok, end_ok) == validation(c, start_ok, other),
        trim(c.default_project@).len() > 0 && hours_error(c.working_hours@) is None && (
        c.report_start is None || start_ok) && c.report_end is Some && !end_ok ==> validation(
            c,
            start_ok,
            end_ok,
        ) == Err::<(), ConfigError>(ConfigError::InvalidReportEnd { value: c.report_end->0 }),
        trim(c.default_project@).len() > 0 && hours_error(c.working_hours@) is None
            && c.report_start is Some && !start_ok ==> validation(c, start_ok, end_ok) == Err::<
            (),
            ConfigError,
        >(ConfigError::InvalidReportStart { value: c.report_start->0 }),
{
}

/// The configuration written for a first start passes validation, so that it can
/// be read back: its default project is not blank, it has no working hours and
/// no report dates.
pub proof fn lemma_default_template_valid(
    c: Config,
    db_file: Seq<char>,
    report_start_ok: bool,
    report_end_ok: bool,
)
    requires
        is_default_template(c, db_file),
    ensures
        validation(c, report_start_ok, report_end_ok) == Ok::<(), ConfigError>(()),
{
    reveal_strlit("Default");
    let s = c.default_project@;
    assert(!crate::text::is_white(s[0]));
    crate::text::lemma_trim_start_at(s, 0);
    assert(!crate::text::is_white(s[s.len() - 1]));
    crate::text::lemma_trim_end_at(s, s.len() as int);
    assert(trim(s).len() == 7);
    let m = c.working_hours@;
    assert(!(exists|k: u8| first_failing_day(m, k)));
}

/// Where some weekday fails, a smallest failing weekday exists.
proof fn lemma_smallest_failing_day(m: Map<u8, Vec<TimeRange>>, k: u8)
    requires
        m.contains_key(k),
        day_error(k, m[k]@) is Some,
    ensures
        exists|j: u8| first_failing_day(m, j),
    decreases k,
{
    if first_failing_day(m, k) {
    } else {
        let j = choose|j: u8| j < k && m.contains_key(j) && day_error(j, #[trigger] m[j]@) is Some;
        lemma_smallest_failing_day(m, j);
    }
}

/// Whether `chrono::NaiveDate::parse_from_str(s, "%Y-%m-%d")` succeeds.
pub uninterp spec fn naive_date_parses_ymd(s: Seq<char>) -> bool;

/// Calls `chrono::NaiveDate::parse_from_str` with the format `%Y-%m-%d` and
/// reports whether it returned a date. Claimed: the answer depends on `s` alone.
#[verifier::external_body]
fn parse_ymd_date(s: &str) -> (r: bool)
    ensures
        r == naive_date_parses_ymd(s@),
{
    chrono::NaiveDate::parse_from_str(s, "%Y-%m-%d").is_ok()
}

/// `u8` keys are totally ordered, which the specification of `BTreeMap::get` relies on.
proof fn lemma_u8_keys_ordered()
    ensures
        vstd::laws_cmp::obeys_cmp::<u8>(),
{
}

/// The problem with the ranges of one weekday, if any.
fn check_day(weekday: u8, ranges: &Vec<TimeRange>) -> (r: Option<ConfigError>)
    ensures
        r == day_error(weekday, ranges@),
{
    if weekday > 6 {
        return Some(ConfigError::WeekdayOutOfRange { weekday });
    }
    let mut previous_end: Option<u32> = None;
    let mut k: usize = 0;
    while k < ranges.len()
        invariant
            weekday <= 6,
            k <= ranges.len(),
            previous_end matches Some(p) ==> p <= 23 * 60 + 59,
            ranges_error_from(weekday, ranges@, 0, None) == ranges_error_from(
                weekday,
                ranges@,
                k as int,
                match previous_end {
                    Some(p) => Some(p as int),
                    None => None,
                },
            ),
        decreases ranges.len() - k,
    {
        let range = &ranges[k];
        let (start_h, start_m) = match parse_hhmm(range.start.as_str()) {
            Ok(hm) => hm,
            Err(cause) => {
                return Some(
                    ConfigError::InvalidStart { weekday, value: range.start.clone(), cause },
                );
            },
        };
        let (end_h, end_m) = match parse_hhmm(range.end.as_str()) {
            Ok(hm) => hm,
            Err(cause) => {
                return Some(ConfigError::InvalidEnd { weekday, value: range.end.clone(), cause });
            },
        };
        let start_minutes = start_h * 60 + start_m;
        let end_minutes = end_h * 60 + end_m;
        if end_minutes <= start_minutes {
            return Some(
                ConfigError::EndNotAfterStart {
                    weekday,
                    start: range.start.clone(),
                    end: range.end.clone(),
                },
            );
        }
        if let Some(p) = previous_end {
            if start_minutes <= p {
                return Some(
                    ConfigError::StartNotAfterPreviousEnd { weekday, start: range.start.clone() },
                );
            }
        }
        previous_end = Some(end_minutes);
        k = k + 1;
    }
    None
}

impl Config {
    /// Validates the configuration, given whether `report_start` and
    /// `report_end` (where set) are `%Y-%m-%d` dates.
    pub fn validate_with_dates(&self, report_start_ok: bool, report_end_ok: bool) -> (r: Result<
        (),
        ConfigError,
    >)
        ensures
            r == validation(*self, report_start_ok, report_end_ok),
    {
        let project = trim_str(self.default_project.as_str());
        if project.as_str().is_empty() {
            return Err(ConfigError::EmptyDefaultProject);
        }
        let ghost m = self.working_hours@;
        let mut w: u16 = 0;
        while w < 256
            invariant
                w <= 256,
                m == self.working_hours@,
                trim(self.default_project@).len() != 0,
                forall|j: u8| j < w && m.contains_key(j) ==> day_error(j, #[trigger] m[j]@) is None,
            decreases 256 - w,
        {
            let weekday = w as u8;
            if let Some(ranges) = self.working_hours.get(&weekday) {
                if let Some(err) = check_day(weekday, ranges) {
                    proof {
                        lemma_u8_keys_ordered();
                        assert(m.contains_key(weekday));
                        assert(m[weekday] == *ranges);
                        assert(day_error(weekday, m[weekday]@) == Some(err));
                        assert(first_failing_day(m, weekday));
                        let k = choose|k: u8| first_failing_day(m, k);
                        assert(first_failing_day(m, k));
                        if k < weekday {
                        } else if weekday < k {
                        }
                        assert(k == weekday);
                        assert(hours_error(m) == Some(err));
                    }
                    return Err(err);
                }
            }
            w = w + 1;
        }
        proof {
            if exists|k: u8| first_failing_day(m, k) {
                let k = choose|k: u8| first_failing_day(m, k);
                assert(k < 256);
            }
        }
        match &self.report_start {
            Some(start) => {
                if !report_start_ok {
                    return Err(ConfigError::InvalidReportStart { value: start.clone() });
                }
            },
            None => {},
        }
        match &self.report_end {
            Some(end) => {
                if !report_end_ok {
                    return Err(ConfigError::InvalidReportEnd { value: end.clone() });
                }
            },
            None => {},
        }
        Ok(())
    }

    /// Validates the configuration: a non-blank default project, working hours
    /// (weekdays 0 to 6, each range ending after it starts and starting after the
    /// previous one ends), and report dates that `chrono` parses as `%Y-%m-%d`.
    pub fn validate(&self) -> (r: Result<(), ConfigError>)
        ensures
            r == validation(
                *self,
                self.report_start is Some && naive_date_parses_ymd(self.report_start->0@),
                self.report_end is Some && naive_date_parses_ymd(self.report_end->0@),
            ),
    {
        let start_ok = match &self.report_start {
            Some(start) => parse_ymd_date(start.as_str()),
            None => false,
        };
        let end_ok = match &self.report_end {
            Some(end) => parse_ymd_date(end.as_str()),
            None => false,
        };
        self.validate_with_dates(start_ok, end_ok)
    }

    /// Endpoint of the IPC socket for a build `build`, with `home` the user's home
    /// directory (where known).
    pub fn ipc_socket_path_with_home(&self, build: &BuildConfig, home: Option<&str>) -> (r: String)
        ensures
            r@ == ipc_endpoint(
opt_view(self.ipc_socket_path),
                *build,
opt_str_view(home),
            ),
    {
        if let Some(path) = &self.ipc_socket_path {
            return path.clone();
        }
        let vendor = is_desktop_vendor_os(build.target_os);
        if build.ipc_tcp && vendor {
            return String::from_str("127.0.0.1:45555");
        }
        if build.ipc_unix && !vendor {
            match home {
                Some(h) => {
                    return unix_join(h, ".local/run/lazytime.sock");
                },
                None => {
                    return String::from_str("/tmp/lazytime.sock");
                },
            }
        }
        if build.ipc_tcp && !vendor {
            return String::from_str("127.0.0.1:45555");
        }
        String::from_str("lazytime-ipc")
    }

    /// Endpoint of the IPC socket for a build `build`: the configured one, else
    /// the default of the build's IPC transport.
    pub fn ipc_socket_path(&self, build: &BuildConfig) -> (r: String)
        ensures
            self.ipc_socket_path is Some ==> r@ == self.ipc_socket_path->0@,
            !(build.ipc_unix && !desktop_vendor_os(build.target_os)) ==> r@ == ipc_endpoint(
opt_view(self.ipc_socket_path),
                *build,
                None,
            ),
            exists|home: Option<Seq<char>>|
                r@ == #[trigger] ipc_endpoint(
opt_view(self.ipc_socket_path),
                    *build,
                    home,
                ),
    {
        if self.ipc_socket_path.is_none() && build.ipc_unix && !is_desktop_vendor_os(
            build.target_os,
        ) {
            let home = home_dir();
            let r = match &home {
                Some(h) => self.ipc_socket_path_with_home(build, Some(h.as_str())),
                None => self.ipc_socket_path_with_home(build, None),
            };
            proof {
                let hv = match home {
                    Some(h) => Some(h@),
                    None => None,
                };
                assert(r@ == ipc_endpoint(None, *build, hv));
                assert(self.ipc_socket_path is None);
                assert(r@ == ipc_endpoint(
opt_view(self.ipc_socket_path),
                    *build,
                    hv,
                ));
            }
            r
        } else {
            let r = self.ipc_socket_path_with_home(build, None);
            assert(r@ == ipc_endpoint(
opt_view(self.ipc_socket_path),
                *build,
                None,
            ));
            r
        }
    }

    /// Path of the database file.
    pub fn db_path(&self) -> (r: &str)
        ensures
            r@ == self.db_file@,
    {
        self.db_file.as_str()
    }
}

} // verus!
