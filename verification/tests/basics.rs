use knack::clock::{commit_time, falls_on_a_day, Timestamp};
use knack::errors::{exit_status, BackendError, CliError};
use knack::number::{decimal, padded};
use knack::order::{less, sort_unique};
use knack::paths::{file_name, join, same_as};
use knack::runs::{append_run, log_file};
use knack::semver::{
    find_latest_tag, latest_published_version, parse, tag_name, tag_pattern, version_of_tag,
    SemVerTuple,
};
use knack::text::{
    contains, ends_with, pad_right, split, split_once, starts_with, strip_prefix, trim, trim_leading,
    with_slashes,
};

fn strings(v: &[&str]) -> Vec<String> {
    v.iter().map(|s| s.to_string()).collect()
}

#[test]
fn versions_have_three_numbers() {
    assert_eq!(parse("1.2.3"), Some(SemVerTuple(1, 2, 3)));
    assert_eq!(parse("01.+2.3"), Some(SemVerTuple(1, 2, 3)));
    assert_eq!(parse("4294967295.0.0"), Some(SemVerTuple(4294967295, 0, 0)));
    assert_eq!(parse("4294967296.0.0"), None);
    assert_eq!(parse("1.2"), None);
    assert_eq!(parse("1.2.3.4"), None);
    assert_eq!(parse("1.2.3-rc1"), None);
    assert_eq!(parse("1..3"), None);
    assert_eq!(parse("-1.2.3"), None);
    assert_eq!(parse("+.2.3"), None);
    assert_eq!(parse(""), None);
}

#[test]
fn versions_are_ordered_by_number() {
    assert!(SemVerTuple(1, 10, 0) > SemVerTuple(1, 9, 9));
    assert!(SemVerTuple(2, 0, 0) > SemVerTuple(1, 99, 99));
    assert!(!(SemVerTuple(1, 2, 3) > SemVerTuple(1, 2, 3)));
}

#[test]
fn the_latest_tag_is_the_newest_version() {
    let names = strings(&["s/v1.9.0", "s/v1.10.0", "s/vnext", "t/v9.0.0", "s/v1.10.0-rc", "sx/v3.0.0"]);
    assert_eq!(find_latest_tag(&names, "s").as_deref(), Some("s/v1.10.0"));
    assert_eq!(latest_published_version(&names, "s").as_deref(), Some("1.10.0"));
    assert_eq!(find_latest_tag(&names, "none"), None);
    let same = strings(&["s/v1.0.0", "s/v01.0.0"]);
    assert_eq!(find_latest_tag(&same, "s").as_deref(), Some("s/v1.0.0"));
    let turned = strings(&["s/v1.10.0", "s/v1.9.0"]);
    assert_eq!(find_latest_tag(&turned, "s").as_deref(), Some("s/v1.10.0"));
}

#[test]
fn tags_show_their_version() {
    assert_eq!(tag_name("s", "1.0.0"), "s/v1.0.0");
    assert_eq!(tag_pattern("s"), "s/v*");
    assert_eq!(version_of_tag("s/v1.0.0"), "1.0.0");
    assert_eq!(version_of_tag("@ann/s/vv2"), "2");
    assert_eq!(version_of_tag(""), "");
}

#[test]
fn runs_are_logged_by_day() {
    let at = Timestamp { secs: 1_709_251_199, nanos: 0 };
    let r = append_run("/reg", at, "{\"a\":1}");
    assert_eq!(r.month_dir, "/reg/runs/2024-02");
    assert_eq!(r.file, "/reg/runs/2024-02/2024-02-29.jsonl");
    assert_eq!(r.line, "{\"a\":1}\n");
    assert_eq!(log_file("/reg", at), r.file);
    let next = Timestamp { secs: 1_709_251_200, nanos: 0 };
    assert_eq!(log_file("/reg", next), "/reg/runs/2024-03/2024-03-01.jsonl");
    let before = Timestamp { secs: -1, nanos: 0 };
    assert_eq!(append_run("/reg", before, "x").file, "/reg/runs/1969-12/1969-12-31.jsonl");
}

#[test]
fn commit_times_outside_the_calendar_are_now() {
    let now = Timestamp { secs: 5, nanos: 6 };
    assert_eq!(commit_time(7, now), Timestamp { secs: 7, nanos: 0 });
    assert_eq!(commit_time(i64::MAX, now), now);
    assert_eq!(commit_time(i64::MIN, now), now);
    assert!(falls_on_a_day(0));
    assert!(falls_on_a_day(8_210_266_876_799));
    assert!(!falls_on_a_day(8_210_266_876_800));
    assert!(falls_on_a_day(-8_334_601_228_800));
    assert!(!falls_on_a_day(-8_334_601_228_801));
}

#[test]
fn errors_have_codes_and_messages() {
    let e = CliError::User { code: "C".into(), message: "m".into(), hint: Some("h".into()) };
    assert_eq!((e.code(), e.message(), e.hint()), ("C", "m", Some("h")));
    assert_eq!(CliError::NotFound("x".into()).code(), "NOT_FOUND");
    assert_eq!(CliError::Internal("x".into()).code(), "INTERNAL");
    assert_eq!(CliError::Internal("x".into()).hint(), None);
    assert_eq!(BackendError::Conflict("c".into()).message(), "c");
    assert_eq!(exit_status(0), 1);
    assert_eq!(exit_status(-3), 1);
    assert_eq!(exit_status(7), 7);
    assert_eq!(exit_status(300), 255);
}

#[test]
fn paths_are_joined_and_compared() {
    assert_eq!(join("/a", "b"), "/a/b");
    assert_eq!(join("/a/", "b"), "/a/b");
    assert_eq!(join("", "b"), "b");
    assert_eq!(join("/a", "/b"), "/b");
    assert_eq!(join("a", ""), "a/");
    assert!(same_as("a//b/./c/", "a/b/c"));
    assert!(!same_as("/a", "a"));
    assert!(!same_as("./a", "a"));
    assert!(!same_as("a/../b", "b"));
    assert_eq!(file_name("/a/b.txt"), Some("b.txt"));
    assert_eq!(file_name("a/."), Some("a"));
    assert_eq!(file_name(".."), None);
    assert_eq!(file_name("/"), None);
    assert_eq!(file_name(""), None);
}

#[test]
fn texts_are_taken_apart() {
    assert_eq!(split("a/b//c", '/'), vec!["a", "b", "", "c"]);
    assert_eq!(split("", '/'), vec![""]);
    assert_eq!(split_once("a@b@c", '@'), Some(("a", "b@c")));
    assert_eq!(split_once("abc", '@'), None);
    assert_eq!(trim("\u{3000} \t x y\n\u{a0}"), "x y");
    assert_eq!(trim_leading("vvv1v", 'v'), "1v");
    assert_eq!(strip_prefix("s/v1", "s/v"), Some("1"));
    assert_eq!(strip_prefix("t/v1", "s/v"), None);
    assert!(starts_with("abc", "") && starts_with("abc", "ab") && !starts_with("a", "ab"));
    assert!(ends_with("abc", "bc") && !ends_with("abc", "ab"));
    assert!(contains("haystack", "st") && contains("", "") && !contains("hay", "hays"));
    assert_eq!(with_slashes("a\\b\\c"), "a/b/c");
    assert_eq!(pad_right("äb", 4), "äb  ");
    assert_eq!(pad_right("long", 2), "long");
}

#[test]
fn texts_are_sorted_once() {
    assert_eq!(sort_unique(&strings(&["b", "a", "b", "B", "aa"])), vec!["B", "a", "aa", "b"]);
    assert!(less("a", "aa") && !less("a", "a") && less("Z", "a"));
}

#[test]
fn numbers_are_written() {
    assert_eq!(decimal(0), "0");
    assert_eq!(decimal(u64::MAX), "18446744073709551615");
    assert_eq!(padded(7, 2), "07");
    assert_eq!(padded(123, 2), "123");
}
