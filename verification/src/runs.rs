//! The run log of a self-hosted repository: one file per day.
use vstd::prelude::*;

use crate::clock;
use crate::clock::{format_utc, utc_date, Date, Timestamp};
use crate::number;
use crate::number::padded;
use crate::paths;
use crate::paths::join;
use crate::semver;

verus! {

/// A year in at least four places, its sign among them.
pub open spec fn plain_year(year: int) -> Seq<char> {
    if year < 0 {
        "-"@ + number::padded_of((-year) as nat, 3)
    } else {
        number::padded_of(year as nat, 4)
    }
}

/// `<yyyy-mm>`.
pub open spec fn month_name(d: Date) -> Seq<char> {
    plain_year(d.year as int) + "-"@ + number::padded_of(d.month as nat, 2)
}

/// `<yyyy-mm-dd>.jsonl`.
pub open spec fn day_file_name(d: Date) -> Seq<char> {
    month_name(d) + "-"@ + number::padded_of(d.day as nat, 2) + ".jsonl"@
}

/// The directory of a month's run logs.
pub open spec fn month_dir_of(repo: Seq<char>, d: Date) -> Seq<char> {
    paths::joined(paths::joined(repo, "runs"@), month_name(d))
}

/// The file of a day's run logs.
pub open spec fn day_file_of(repo: Seq<char>, d: Date) -> Seq<char> {
    paths::joined(month_dir_of(repo, d), day_file_name(d))
}

/// What to append where.
#[derive(Debug)]
pub struct RunAppend {
    /// The directory that has to exist.
    pub month_dir: String,
    /// The file to append to.
    pub file: String,
    /// What to append.
    pub line: String,
}

fn year_text(year: i32) -> (r: String)
    ensures
        r@ == plain_year(year as int),
{
    if year < 0 {
        let mut s = "-".to_owned();
        let n: u64 = (-(year as i64)) as u64;
        let digits = padded(n, 3);
        s.append(digits.as_str());
        s
    } else {
        padded(year as u64, 4)
    }
}

/// Where a run that started at the given time is logged, and the line that logs it: the file is
/// `<repo>/runs/<yyyy-mm>/<yyyy-mm-dd>.jsonl`, in UTC.
pub fn append_run(repo: &str, started_at: Timestamp, record: &str) -> (r: RunAppend)
    requires
        clock::in_calendar(started_at.secs as int),
    ensures
        forall|d: Date|
            clock::is_date_of(d, started_at.secs as int) ==> r.month_dir@ == #[trigger] month_dir_of(
                repo@,
                d,
            ) && r.file@ == day_file_of(repo@, d),
        r.line@ == record@ + "\n"@,
{
    let date = match utc_date(started_at.secs) {
        Some(d) => d,
        None => Date { year: 1970, month: 1, day: 1 },
    };
    let mut month = year_text(date.year);
    month.append("-");
    let mm = padded(date.month as u64, 2);
    month.append(mm.as_str());
    let mut name = month.clone();
    name.append("-");
    let dd = padded(date.day as u64, 2);
    name.append(dd.as_str());
    name.append(".jsonl");
    let runs = join(repo, "runs");
    let month_dir = join(runs.as_str(), month.as_str());
    let file = join(month_dir.as_str(), name.as_str());
    let mut line = record.to_owned();
    line.append("\n");
    proof {
        assert forall|d: Date| clock::is_date_of(d, started_at.secs as int) implies month_dir@
            == #[trigger] month_dir_of(repo@, d) && file@ == day_file_of(repo@, d) by {
            clock::date_is_unique(d, date, started_at.secs as int);
        }
    }
    RunAppend { month_dir, file, line }
}

/// The log file that a run started now is reported to go to.
pub fn log_file(repo: &str, now: Timestamp) -> (r: String)
    requires
        clock::in_calendar(now.secs as int),
    ensures
        forall|d: Date|
            clock::is_date_of(d, now.secs as int) ==> r@ == paths::joined(
                paths::joined(paths::joined(repo@, "runs"@), #[trigger] clock::month_format(d)),
                clock::day_format(d) + ".jsonl"@,
            ),
{
    let month = format_utc(now.secs, "%Y-%m");
    let mut name = format_utc(now.secs, "%Y-%m-%d");
    let ghost day = name@;
    name.append(".jsonl");
    let runs = join(repo, "runs");
    let dir = join(runs.as_str(), month.as_str());
    let file = join(dir.as_str(), name.as_str());
    proof {
        assert forall|d: Date| clock::is_date_of(d, now.secs as int) implies file@
            == paths::joined(
            paths::joined(paths::joined(repo@, "runs"@), #[trigger] clock::month_format(d)),
            clock::day_format(d) + ".jsonl"@,
        ) by {
            assert(day == clock::day_format(d));
        }
    }
    file
}

/// Until the year 9999 the file that a run is reported to go to is the file that it is logged in.
pub proof fn reported_file_is_the_log(repo: Seq<char>, d: Date)
    requires
        0 <= d.year <= 9999,
    ensures
        paths::joined(
            paths::joined(paths::joined(repo, "runs"@), clock::month_format(d)),
            clock::day_format(d) + ".jsonl"@,
        ) == day_file_of(repo, d),
{
}

/// A run is logged in `<repo>/runs/<yyyy-mm>/<yyyy-mm-dd>.jsonl`, by the day that it started on.
pub proof fn log_is_named_by_the_day(repo: Seq<char>, d: Date)
    requires
        repo.len() > 0 && repo.last() != '/',
        1000 <= d.year <= 9999,
        10 <= d.month <= 12,
        10 <= d.day <= 31,
    ensures
        ({
            let y = number::decimal_of(d.year as nat);
            let m = number::decimal_of(d.month as nat);
            let day = number::decimal_of(d.day as nat);
            &&& month_dir_of(repo, d) == repo + "/runs/"@ + y + "-"@ + m
            &&& day_file_of(repo, d) == repo + "/runs/"@ + y + "-"@ + m + "/"@ + y + "-"@ + m + "-"@ + day
                + ".jsonl"@
        }),
{
    reveal_strlit("runs");
    reveal_strlit("/runs/");
    reveal_strlit("/");
    let y = number::decimal_of(d.year as nat);
    let m = number::decimal_of(d.month as nat);
    let day = number::decimal_of(d.day as nat);
    number::decimal_has_no_leading_zero(d.year as nat);
    number::decimal_has_no_leading_zero(d.month as nat);
    number::decimal_has_no_leading_zero(d.day as nat);
    number::decimal_spells(d.year as nat);
    number::decimal_spells(d.month as nat);
    let name = y + "-"@ + m;
    assert(month_name(d) == name);
    let file = day_file_name(d);
    assert(file == name + "-"@ + day + ".jsonl"@);
    assert(name[0] == y[0]);
    assert(file[0] == y[0]);
    assert(semver::is_digit(y[0]));
    assert(name.last() == m.last());
    assert(semver::is_digit(m[m.len() - 1]));
    let runs = repo + seq!['/'] + "runs"@;
    assert(runs.last() == 's');
    paths::joining_puts_one_slash(repo, "runs"@);
    paths::joining_puts_one_slash(runs, name);
    let dir = runs + seq!['/'] + name;
    assert(dir.last() == name.last());
    paths::joining_puts_one_slash(dir, file);
    assert("/"@ =~= seq!['/']);
    assert(dir =~= repo + "/runs/"@ + y + "-"@ + m);
    assert(dir + seq!['/'] + file =~= repo + "/runs/"@ + y + "-"@ + m + "/"@ + y + "-"@ + m + "-"@ + day
        + ".jsonl"@);
}

} // verus!
