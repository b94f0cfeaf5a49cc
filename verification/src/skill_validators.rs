//! The offline check of a skill folder: the two files that every skill needs are there and say
//! something, and every mode loads files that exist.
//!
//! The issues have the shape `{path, message, code}`, under `details: { issues: [..] }`.
use vstd::prelude::*;

use crate::errors;
use crate::errors::{CliError, CliErrorView, OutputMode};
use crate::glob;
use crate::glob::wildcard_matches;
use crate::json;
use crate::text;

verus! {

/// One thing that is wrong with a skill folder.
#[derive(Debug)]
pub struct ValidationIssue {
    pub path: String,
    pub message: String,
    pub code: &'static str,
}

impl Clone for ValidationIssue {
    fn clone(&self) -> (r: Self)
        ensures
            r == *self,
    {
        ValidationIssue { path: self.path.clone(), message: self.message.clone(), code: self.code }
    }
}

/// What an issue says.
pub struct IssueView {
    pub path: Seq<char>,
    pub message: Seq<char>,
    pub code: Seq<char>,
}

impl View for ValidationIssue {
    type V = IssueView;

    open spec fn view(&self) -> IssueView {
        IssueView { path: self.path@, message: self.message@, code: self.code@ }
    }
}

/// What is wrong with a skill folder.
#[derive(Debug)]
pub struct ValidationReport {
    pub issues: Vec<ValidationIssue>,
}

impl View for ValidationReport {
    type V = Seq<IssueView>;

    open spec fn view(&self) -> Seq<IssueView> {
        self.issues@.map_values(|i: ValidationIssue| i@)
    }
}

impl Default for ValidationReport {
    fn default() -> (r: Self)
        ensures
            r@ == Seq::<IssueView>::empty(),
    {
        let r = ValidationReport { issues: Vec::new() };
        proof {
            assert(r@ =~= Seq::<IssueView>::empty());
        }
        r
    }
}

/// One issue in one line.
pub open spec fn issue_line(i: IssueView) -> Seq<char> {
    if i.path.len() == 0 {
        i.message
    } else {
        i.path + ": "@ + i.message
    }
}

/// All issues in one line.
pub open spec fn summary_of(issues: Seq<IssueView>) -> Seq<char> {
    if issues.len() == 0 {
        "ok"@
    } else {
        text::join_with(issues.map_values(|i: IssueView| issue_line(i)), "; "@)
    }
}

/// One issue as a JSON object.
pub open spec fn issue_shape(i: IssueView) -> json::Shape {
    json::object_of(
        seq![
            ("path"@, json::Shape::Text(i.path)),
            ("message"@, json::Shape::Text(i.message)),
            ("code"@, json::Shape::Text(i.code)),
        ],
    )
}

/// All issues as the `details` of an error.
pub open spec fn details_of(issues: Seq<IssueView>) -> json::Shape {
    json::object_of(
        seq![("issues"@, json::Shape::List(issues.map_values(|i: IssueView| issue_shape(i))))],
    )
}

impl ValidationReport {
    /// Whether nothing is wrong.
    pub fn is_ok(&self) -> (r: bool)
        ensures
            r == (self@.len() == 0),
    {
        self.issues.len() == 0
    }

    /// The issues as the `details` of an error.
    pub fn into_details(self) -> (r: serde_json::Value)
        ensures
            json::shape(r) == details_of(self@),
    {
        let n: usize = self.issues.len();
        let mut items: Vec<serde_json::Value> = Vec::new();
        let mut k: usize = 0;
        while k < n
            invariant
                n == self.issues@.len(),
                k <= n,
                items@.len() == k,
                forall|j: int| 0 <= j < k ==> json::shape(#[trigger] items@[j]) == issue_shape(self@[j]),
            decreases n - k,
        {
            let i = &self.issues[k];
            let mut fields: Vec<(&str, serde_json::Value)> = Vec::new();
            fields.push(("path", json::text(i.path.as_str())));
            fields.push(("message", json::text(i.message.as_str())));
            fields.push(("code", json::text(i.code)));
            proof {
                assert(json::field_shapes(fields@) =~= seq![
                    ("path"@, json::Shape::Text(i@.path)),
                    ("message"@, json::Shape::Text(i@.message)),
                    ("code"@, json::Shape::Text(i@.code)),
                ]);
            }
            items.push(json::object(fields));
            k += 1;
        }
        proof {
            assert(json::shapes(items@) =~= self@.map_values(|i: IssueView| issue_shape(i)));
        }
        let mut top: Vec<(&str, serde_json::Value)> = Vec::new();
        top.push(("issues", json::list(items)));
        proof {
            assert(json::field_shapes(top@) =~= seq![
                (
                    "issues"@,
                    json::Shape::List(self@.map_values(|i: IssueView| issue_shape(i))),
                ),
            ]);
        }
        json::object(top)
    }

    /// All issues in one line, or `ok`.
    pub fn summary(&self) -> (r: String)
        ensures
            r@ == summary_of(self@),
    {
        let n: usize = self.issues.len();
        if n == 0 {
            return "ok".to_owned();
        }
        let mut lines: Vec<String> = Vec::new();
        let mut k: usize = 0;
        while k < n
            invariant
                n == self.issues@.len(),
                k <= n,
                lines@.len() == k,
                forall|j: int| 0 <= j < k ==> (#[trigger] lines@[j])@ == issue_line(self@[j]),
            decreases n - k,
        {
            let i = &self.issues[k];
            let mut line = String::new();
            if !i.path.as_str().is_empty() {
                line.append(i.path.as_str());
                line.append(": ");
            }
            line.append(i.message.as_str());
            proof {
                assert(line@ =~= issue_line(self@[k as int]));
            }
            lines.push(line);
            k += 1;
        }
        proof {
            assert(text::texts(lines@) =~= self@.map_values(|i: IssueView| issue_line(i)));
        }
        text::join(&lines, "; ")
    }

    /// Adds an issue behind those that are there.
    pub fn push(&mut self, path: &str, message: String, code: &'static str)
        ensures
            final(self)@ == old(self)@.push(
                (IssueView { path: path@, message: message@, code: code@ }),
            ),
    {
        let ghost before = self@;
        self.issues.push(ValidationIssue { path: path.to_owned(), message, code });
        proof {
            assert(self@ =~= before.push(
                IssueView { path: path@, message: message@, code: code@ },
            ));
        }
    }
}

/// A mode of a skill: its name and the patterns of the files that it loads.
#[derive(Debug)]
pub struct ModeSpec {
    pub name: String,
    pub load: Vec<String>,
}

/// What was found in a skill folder.
#[derive(Debug)]
pub struct SkillFolder {
    /// Whether the folder is there.
    pub is_dir: bool,
    /// The bytes of `SKILL.md`, where it can be read.
    pub skill_md: Option<Vec<u8>>,
    /// The bytes of `meta.knack.yaml`, where it can be read.
    pub meta: Option<Vec<u8>>,
    /// The modes that the frontmatter of `SKILL.md` declares, where it declares any.
    pub modes: Option<Vec<ModeSpec>>,
    /// The skill-relative posix paths of the files in the folder.
    pub files: Vec<String>,
}

/// ASCII white space: space, tab, line feed, form feed, carriage return.
pub open spec fn is_ascii_space(b: u8) -> bool {
    b == 0x20 || b == 0x09 || b == 0x0a || b == 0x0c || b == 0x0d
}

/// Whether a file says nothing.
pub open spec fn is_blank(bytes: Seq<u8>) -> bool {
    forall|i: int| 0 <= i < bytes.len() ==> is_ascii_space(#[trigger] bytes[i])
}

/// What is wrong with a required file.
pub open spec fn file_issues(name: Seq<char>, bytes: Option<Seq<u8>>) -> Seq<IssueView> {
    match bytes {
        None => seq![
            IssueView {
                path: name,
                message: "missing required file `"@ + name + "`"@,
                code: "FILE_MISSING"@,
            },
        ],
        Some(b) => if is_blank(b) {
            seq![IssueView { path: name, message: "`"@ + name + "` is empty"@, code: "FILE_EMPTY"@ }]
        } else {
            Seq::empty()
        },
    }
}

/// Whether some file matches the pattern.
pub open spec fn some_file_matches(pattern: Seq<char>, files: Seq<Seq<char>>) -> bool {
    exists|k: int| 0 <= k < files.len() && glob::wildcard(pattern, #[trigger] files[k])
}

/// The patterns of one mode that match no file, each as an issue.
pub open spec fn unmatched_issues(
    mode: Seq<char>,
    load: Seq<Seq<char>>,
    files: Seq<Seq<char>>,
) -> Seq<IssueView>
    decreases load.len(),
{
    if load.len() == 0 {
        Seq::empty()
    } else {
        let before = unmatched_issues(mode, load.drop_last(), files);
        if some_file_matches(load.last(), files) {
            before
        } else {
            before.push(
                IssueView {
                    path: "modes/"@ + mode + "/load"@,
                    message: "`"@ + load.last() + "` matches no file in the skill folder"@,
                    code: "MODE_FILE_MISSING"@,
                },
            )
        }
    }
}

/// What is wrong with one mode.
pub open spec fn mode_issues(mode: ModeSpec, files: Seq<Seq<char>>) -> Seq<IssueView> {
    if mode.load@.len() == 0 {
        seq![
            IssueView {
                path: "modes/"@ + mode.name@ + "/load"@,
                message: "mode lists no files to load"@,
                code: "MODE_EMPTY"@,
            },
        ]
    } else {
        unmatched_issues(mode.name@, text::texts(mode.load@), files)
    }
}

/// What is wrong with the modes, in their order.
pub open spec fn all_mode_issues(modes: Seq<ModeSpec>, files: Seq<Seq<char>>) -> Seq<IssueView>
    decreases modes.len(),
{
    if modes.len() == 0 {
        Seq::empty()
    } else {
        all_mode_issues(modes.drop_last(), files) + mode_issues(modes.last(), files)
    }
}

/// The bytes of an optional file.
pub open spec fn opt_bytes(o: Option<Vec<u8>>) -> Option<Seq<u8>> {
    match o {
        Some(v) => Some(v@),
        None => None,
    }
}

/// What is wrong with a skill folder.
pub open spec fn folder_issues(f: SkillFolder) -> Seq<IssueView> {
    if !f.is_dir {
        seq![
            IssueView {
                path: ""@,
                message: "skill folder does not exist or is not a directory"@,
                code: "DIR_MISSING"@,
            },
        ]
    } else {
        file_issues("SKILL.md"@, opt_bytes(f.skill_md)) + file_issues(
            "meta.knack.yaml"@,
            opt_bytes(f.meta),
        ) + match f.modes {
            Some(modes) => all_mode_issues(modes@, text::texts(f.files@)),
            None => Seq::empty(),
        }
    }
}

fn blank(bytes: &Vec<u8>) -> (r: bool)
    ensures
        r == is_blank(bytes@),
{
    let n: usize = bytes.len();
    let mut i: usize = 0;
    while i < n
        invariant
            n == bytes@.len(),
            i <= n,
            forall|k: int| 0 <= k < i ==> is_ascii_space(#[trigger] bytes@[k]),
        decreases n - i,
    {
        let b = bytes[i];
        if !(b == 0x20 || b == 0x09 || b == 0x0a || b == 0x0c || b == 0x0d) {
            return false;
        }
        i += 1;
    }
    true
}

fn check_file(report: &mut ValidationReport, name: &'static str, bytes: &Option<Vec<u8>>)
    ensures
        final(report)@ == old(report)@ + file_issues(name@, opt_bytes(*bytes)),
{
    let ghost before = report@;
    match bytes {
        None => {
            let mut message = "missing required file `".to_owned();
            message.append(name);
            message.append("`");
            report.push(name, message, "FILE_MISSING");
        },
        Some(b) => {
            if blank(b) {
                let mut message = "`".to_owned();
                message.append(name);
                message.append("` is empty");
                report.push(name, message, "FILE_EMPTY");
            }
        },
    }
    proof {
        assert(report@ =~= before + file_issues(name@, opt_bytes(*bytes)));
    }
}

/// Whether some file matches the pattern.
pub(crate) fn any_file_matches(pattern: &str, files: &Vec<String>) -> (r: bool)
    ensures
        r == some_file_matches(pattern@, text::texts(files@)),
{
    let n: usize = files.len();
    let mut i: usize = 0;
    while i < n
        invariant
            n == files@.len(),
            i <= n,
            forall|k: int| 0 <= k < i ==> !glob::wildcard(pattern@, #[trigger] text::texts(files@)[k]),
        decreases n - i,
    {
        proof {
            assert(text::texts(files@)[i as int] == files@[i as int]@);
        }
        if wildcard_matches(pattern, files[i].as_str()) {
            return true;
        }
        i += 1;
    }
    false
}

fn mode_path(mode: &str) -> (r: String)
    ensures
        r@ == "modes/"@ + mode@ + "/load"@,
{
    let mut path = "modes/".to_owned();
    path.append(mode);
    path.append("/load");
    path
}

fn check_mode(report: &mut ValidationReport, mode: &ModeSpec, files: &Vec<String>)
    ensures
        final(report)@ == old(report)@ + mode_issues(*mode, text::texts(files@)),
{
    let ghost before = report@;
    let n: usize = mode.load.len();
    if n == 0 {
        let path = mode_path(mode.name.as_str());
        report.push(path.as_str(), "mode lists no files to load".to_owned(), "MODE_EMPTY");
        proof {
            assert(report@ =~= before + mode_issues(*mode, text::texts(files@)));
        }
        return;
    }
    let ghost load = text::texts(mode.load@);
    let ghost paths = text::texts(files@);
    let mut i: usize = 0;
    proof {
        assert(report@ =~= before + unmatched_issues(mode.name@, load.take(0), paths));
    }
    while i < n
        invariant
            n == mode.load@.len(),
            load == text::texts(mode.load@),
            paths == text::texts(files@),
            i <= n,
            report@ == before + unmatched_issues(mode.name@, load.take(i as int), paths),
        decreases n - i,
    {
        let pattern = mode.load[i].as_str();
        proof {
            assert(load.take(i + 1).drop_last() =~= load.take(i as int));
            assert(load.take(i + 1).last() == pattern@);
        }
        let ghost so_far = report@;
        if !any_file_matches(pattern, files) {
            let path = mode_path(mode.name.as_str());
            let mut message = "`".to_owned();
            message.append(pattern);
            message.append("` matches no file in the skill folder");
            report.push(path.as_str(), message, "MODE_FILE_MISSING");
        }
        i += 1;
        proof {
            assert(report@ =~= before + unmatched_issues(mode.name@, load.take(i as int), paths));
        }
    }
    proof {
        assert(load.take(n as int) =~= load);
    }
}

/// Existence-and-non-empty check of a skill folder, plus the modes manifest check.
pub fn validate_skill_folder(folder: &SkillFolder) -> (r: ValidationReport)
    ensures
        r@ == folder_issues(*folder),
{
    let mut report = ValidationReport::default();
    if !folder.is_dir {
        report.push(
            "",
            "skill folder does not exist or is not a directory".to_owned(),
            "DIR_MISSING",
        );
        proof {
            assert(report@ =~= folder_issues(*folder));
        }
        return report;
    }
    check_file(&mut report, "SKILL.md", &folder.skill_md);
    check_file(&mut report, "meta.knack.yaml", &folder.meta);
    let ghost files = text::texts(folder.files@);
    let ghost head = report@;
    if let Some(modes) = &folder.modes {
        let n: usize = modes.len();
        let mut i: usize = 0;
        proof {
            assert(report@ =~= head + all_mode_issues(modes@.take(0), files));
        }
        while i < n
            invariant
                n == modes@.len(),
                files == text::texts(folder.files@),
                i <= n,
                report@ == head + all_mode_issues(modes@.take(i as int), files),
            decreases n - i,
        {
            proof {
                assert(modes@.take(i + 1).drop_last() =~= modes@.take(i as int));
            }
            check_mode(&mut report, &modes[i], &folder.files);
            i += 1;
            proof {
                assert(report@ =~= head + all_mode_issues(modes@.take(i as int), files));
            }
        }
        proof {
            assert(modes@.take(n as int) =~= modes@);
        }
    }
    proof {
        assert(report@ =~= folder_issues(*folder));
    }
    report
}

/// The error for a skill folder with the given issues.
pub open spec fn format_error(issues: Seq<IssueView>) -> CliErrorView {
    CliErrorView::User {
        code: "SKILL_FORMAT_INVALID"@,
        message: "skill validation failed. issues: "@ + summary_of(issues),
        hint: Some("fix the listed fields in meta.knack.yaml / SKILL.md and re-run"@),
    }
}

/// The envelope that says so in JSON.
pub open spec fn format_envelope(issues: Seq<IssueView>) -> json::Shape {
    json::object_of(
        seq![
            ("$schema"@, json::Shape::Text("knack://cli/v1"@)),
            ("ok"@, json::Shape::Bool(false)),
            (
                "error"@,
                json::object_of(
                    seq![
                        ("code"@, json::Shape::Text("SKILL_FORMAT_INVALID"@)),
                        ("message"@, json::Shape::Text(errors::message_of(format_error(issues)))),
                        ("details"@, details_of(issues)),
                        (
                            "hint"@,
                            json::Shape::Text(
                                "fix the listed fields in meta.knack.yaml / SKILL.md and re-run"@,
                            ),
                        ),
                    ],
                ),
            ),
        ],
    )
}

/// The canonical `SKILL_FORMAT_INVALID` error of a report, and, in JSON mode, the envelope to
/// print. In the other mode the error itself is to be shown.
pub fn emit_format_invalid(mode: OutputMode, report: ValidationReport) -> (r: (
    CliError,
    Option<serde_json::Value>,
))
    ensures
        r.0@ == format_error(report@),
        r.1 is Some <==> mode.json,
        r.1 matches Some(v) ==> json::shape(v) == format_envelope(report@),
{
    let mut message = "skill validation failed. issues: ".to_owned();
    let summary = report.summary();
    message.append(summary.as_str());
    let hint = "fix the listed fields in meta.knack.yaml / SKILL.md and re-run";
    let err = errors::user("SKILL_FORMAT_INVALID", message, Some(hint));
    if !mode.json {
        return (err, None);
    }
    let ghost issues = report@;
    let mut inner: Vec<(&str, serde_json::Value)> = Vec::new();
    inner.push(("code", json::text("SKILL_FORMAT_INVALID")));
    inner.push(("message", json::text(err.message())));
    inner.push(("details", report.into_details()));
    inner.push(("hint", json::text(hint)));
    proof {
        assert(json::field_shapes(inner@) =~= seq![
            ("code"@, json::Shape::Text("SKILL_FORMAT_INVALID"@)),
            ("message"@, json::Shape::Text(errors::message_of(format_error(issues)))),
            ("details"@, details_of(issues)),
            ("hint"@, json::Shape::Text(hint@)),
        ]);
    }
    let mut env: Vec<(&str, serde_json::Value)> = Vec::new();
    env.push(("$schema", json::text("knack://cli/v1")));
    env.push(("ok", json::flag(false)));
    let inner_value = json::object(inner);
    let ghost inner_shape = json::shape(inner_value);
    env.push(("error", inner_value));
    proof {
        assert(json::field_shapes(env@) =~= seq![
            ("$schema"@, json::Shape::Text("knack://cli/v1"@)),
            ("ok"@, json::Shape::Bool(false)),
            ("error"@, inner_shape),
        ]);
    }
    (err, Some(json::object(env)))
}

/// A folder is valid exactly when it is there, its two required files say something, every
/// mode loads something, and every pattern of every mode matches a file.
pub proof fn folder_is_valid_iff(f: SkillFolder)
    ensures
        folder_issues(f).len() == 0 <==> {
            &&& f.is_dir
            &&& opt_bytes(f.skill_md) matches Some(b) && !is_blank(b)
            &&& opt_bytes(f.meta) matches Some(b) && !is_blank(b)
            &&& f.modes matches Some(modes) ==> forall|i: int|
                0 <= i < modes@.len() ==> {
                    &&& (#[trigger] modes@[i]).load@.len() > 0
                    &&& forall|j: int|
                        0 <= j < modes@[i].load@.len() ==> some_file_matches(
                            (#[trigger] modes@[i].load@[j])@,
                            text::texts(f.files@),
                        )
                }
        },
{
    if f.is_dir {
        if let Some(modes) = f.modes {
            no_mode_issues_iff(modes@, text::texts(f.files@));
        }
    }
}

proof fn no_mode_issues_iff(modes: Seq<ModeSpec>, files: Seq<Seq<char>>)
    ensures
        all_mode_issues(modes, files).len() == 0 <==> forall|i: int|
            0 <= i < modes.len() ==> {
                &&& (#[trigger] modes[i]).load@.len() > 0
                &&& forall|j: int|
                    0 <= j < modes[i].load@.len() ==> some_file_matches(
                        (#[trigger] modes[i].load@[j])@,
                        files,
                    )
            },
    decreases modes.len(),
{
    if modes.len() > 0 {
        let t = modes.drop_last();
        no_mode_issues_iff(t, files);
        let m = modes.last();
        no_unmatched_iff(m.name@, text::texts(m.load@), files);
        assert forall|j: int| 0 <= j < m.load@.len() implies text::texts(m.load@)[j] == m.load@[j]@ by {
        }
        if all_mode_issues(modes, files).len() == 0 {
            assert forall|i: int| 0 <= i < modes.len() implies {
                &&& (#[trigger] modes[i]).load@.len() > 0
                &&& forall|j: int|
                    0 <= j < modes[i].load@.len() ==> some_file_matches(
                        (#[trigger] modes[i].load@[j])@,
                        files,
                    )
            } by {
                if i < t.len() {
                    assert(t[i] == modes[i]);
                } else {
                    assert(modes[i] == m);
                    assert forall|j: int| 0 <= j < m.load@.len() implies some_file_matches(
                        (#[trigger] m.load@[j])@,
                        files,
                    ) by {
                        assert(some_file_matches(text::texts(m.load@)[j], files));
                    }
                }
            }
        } else if mode_issues(m, files).len() == 0 {
            assert(all_mode_issues(t, files).len() > 0);
            let i = choose|i: int|
                0 <= i < t.len() && !{
                    &&& (#[trigger] t[i]).load@.len() > 0
                    &&& forall|j: int|
                        0 <= j < t[i].load@.len() ==> some_file_matches(
                            (#[trigger] t[i].load@[j])@,
                            files,
                        )
                };
            assert(modes[i] == t[i]);
        } else {
            assert(modes[modes.len() - 1] == m);
            if m.load@.len() > 0 {
                let j = choose|j: int|
                    0 <= j < text::texts(m.load@).len() && !some_file_matches(
                        #[trigger] text::texts(m.load@)[j],
                        files,
                    );
                assert(!some_file_matches(m.load@[j]@, files));
            }
        }
    }
}

proof fn no_unmatched_iff(mode: Seq<char>, load: Seq<Seq<char>>, files: Seq<Seq<char>>)
    ensures
        unmatched_issues(mode, load, files).len() == 0 <==> forall|j: int|
            0 <= j < load.len() ==> some_file_matches(#[trigger] load[j], files),
    decreases load.len(),
{
    if load.len() > 0 {
        let t = load.drop_last();
        no_unmatched_iff(mode, t, files);
        if unmatched_issues(mode, load, files).len() == 0 {
            assert forall|j: int| 0 <= j < load.len() implies some_file_matches(
                #[trigger] load[j],
                files,
            ) by {
                if j < t.len() {
                    assert(t[j] == load[j]);
                }
            }
        } else if some_file_matches(load.last(), files) {
            let j = choose|j: int| 0 <= j < t.len() && !some_file_matches(#[trigger] t[j], files);
            assert(load[j] == t[j]);
        } else {
            assert(load[load.len() - 1] == load.last());
        }
    }
}

/// A file is blank exactly when it is nothing but blanks, tabs, line feeds, form feeds and carriage
/// returns; an empty file is blank.
pub proof fn file_with_a_visible_byte_is_not_blank(b: Seq<u8>, i: int)
    ensures
        0 <= i < b.len() && b[i] != 32 && b[i] != 9 && b[i] != 10 && b[i] != 12 && b[i] != 13
            ==> !is_blank(b),
        (forall|k: int|
            0 <= k < b.len() ==> (#[trigger] b[k] == 32 || b[k] == 9 || b[k] == 10 || b[k] == 12 || b[k]
                == 13)) ==> is_blank(b),
{
    if is_blank(b) && 0 <= i < b.len() {
        assert(is_ascii_space(b[i]));
    }
}

/// Of the two required files each is reported, under its own name, as missing where it is not there
/// and as empty where it is blank, and not at all otherwise. A folder that is not there is the only
/// issue of that folder.
pub proof fn required_files_are_reported(f: SkillFolder)
    requires
        f.modes is None,
    ensures
        !f.is_dir ==> folder_issues(f).len() == 1 && folder_issues(f)[0].code == "DIR_MISSING"@,
        f.is_dir ==> {
            let all = folder_issues(f);
            let md_wrong = f.skill_md is None || is_blank(f.skill_md->0@);
            let meta_wrong = f.meta is None || is_blank(f.meta->0@);
            let n: int = if md_wrong {
                1
            } else {
                0
            };
            let m: int = if meta_wrong {
                1
            } else {
                0
            };
            &&& all.len() == n + m
            &&& md_wrong ==> all[0].path == "SKILL.md"@ && all[0].code == if f.skill_md is None {
                "FILE_MISSING"@
            } else {
                "FILE_EMPTY"@
            }
            &&& meta_wrong ==> all[n].path == "meta.knack.yaml"@ && all[n].code == if f.meta is None {
                "FILE_MISSING"@
            } else {
                "FILE_EMPTY"@
            }
        },
{
}

/// A mode without patterns is reported as empty; each pattern that matches no file of the folder is
/// reported under its mode, in the order of the patterns; and one that matches a file is not.
pub proof fn unmatched_patterns_are_reported(
    mode: Seq<char>,
    load: Seq<Seq<char>>,
    pattern: Seq<char>,
    files: Seq<Seq<char>>,
    empty: ModeSpec,
)
    ensures
        ({
            let before = unmatched_issues(mode, load, files);
            let all = unmatched_issues(mode, load.push(pattern), files);
            let matched = exists|k: int|
                0 <= k < files.len() && glob::wildcard(pattern, #[trigger] files[k]);
            &&& matched ==> all == before
            &&& !matched ==> all.len() == before.len() + 1 && all.drop_last() == before
                && all.last().code == "MODE_FILE_MISSING"@ && all.last().path == "modes/"@ + mode
                + "/load"@
        }),
        unmatched_issues(mode, Seq::empty(), files).len() == 0,
        empty.load@.len() == 0 ==> mode_issues(empty, files).len() == 1 && mode_issues(
            empty,
            files,
        )[0].code == "MODE_EMPTY"@,
        empty.load@.len() > 0 ==> mode_issues(empty, files) == unmatched_issues(
            empty.name@,
            text::texts(empty.load@),
            files,
        ),
{
    assert(load.push(pattern).drop_last() =~= load);
    let before = unmatched_issues(mode, load, files);
    let all = unmatched_issues(mode, load.push(pattern), files);
    if !some_file_matches(pattern, files) {
        assert(all.drop_last() =~= before);
    }
}

/// An issue tells the file, what is wrong and its code, each under its own name.
pub proof fn issue_tells_its_file(i: IssueView)
    ensures
        json::field(issue_shape(i), "path"@) == Some(json::Shape::Text(i.path)),
        json::field(issue_shape(i), "message"@) == Some(json::Shape::Text(i.message)),
        json::field(issue_shape(i), "code"@) == Some(json::Shape::Text(i.code)),
{
    reveal_strlit("path");
    reveal_strlit("message");
    reveal_strlit("code");
    assert("path"@.len() == 4 && "message"@.len() == 7 && "code"@.len() == 4);
    assert("path"@[0] == 'p' && "code"@[0] == 'c');
    let f = seq![
        ("path"@, json::Shape::Text(i.path)),
        ("message"@, json::Shape::Text(i.message)),
        ("code"@, json::Shape::Text(i.code)),
    ];
    assert(issue_shape(i) == json::object_of(f));
    json::field_is_held(f, 0);
    json::field_is_held(f, 1);
    json::field_is_held(f, 2);
}

/// The issues of the modes stand behind those of the files, mode by mode.
pub proof fn modes_are_checked_in_order(
    modes: Seq<ModeSpec>,
    m: ModeSpec,
    files: Seq<Seq<char>>,
    issues: Seq<IssueView>,
    i: IssueView,
    k: int,
)
    ensures
        all_mode_issues(modes.push(m), files) == all_mode_issues(modes, files) + mode_issues(m, files),
        all_mode_issues(Seq::empty(), files).len() == 0,
        summary_of(Seq::empty()) == "ok"@,
        0 <= k < issues.len() ==> text::occurs_in(summary_of(issues), issues[k].message),
{
    assert(modes.push(m).drop_last() =~= modes);
    if 0 <= k < issues.len() {
        let lines = issues.map_values(|i: IssueView| issue_line(i));
        let line = issue_line(issues[k]);
        let message = issues[k].message;
        assert(lines[k] == line);
        text::join_names_each(lines, "; "@, k);
        text::occurs_in_what_is_made_with_it(message, issues[k].path + ": "@, message);
        let list = text::join_with(lines, "; "@);
        text::occurs_through(list, line, message);
    }
}

/// The envelope of an invalid folder says that it is not ok, under which code, and lists every issue.
pub proof fn envelope_tells_the_issues(issues: Seq<IssueView>, k: int)
    ensures
        json::field(format_envelope(issues), "ok"@) == Some(json::Shape::Bool(false)),
        json::field(format_envelope(issues), "error"@) matches Some(e) && json::field(e, "code"@)
            == Some(json::Shape::Text("SKILL_FORMAT_INVALID"@)) && json::field(e, "details"@) == Some(
            details_of(issues),
        ),
        json::field(details_of(issues), "issues"@) matches Some(json::Shape::List(l)) && l.len()
            == issues.len() && (0 <= k < issues.len() ==> l[k] == issue_shape(issues[k])),
        format_error(issues) matches CliErrorView::User { code, message, .. } && code
            == "SKILL_FORMAT_INVALID"@ && summary_of(issues).is_suffix_of(message),
{
    reveal_strlit("$schema");
    reveal_strlit("ok");
    reveal_strlit("error");
    reveal_strlit("code");
    reveal_strlit("message");
    reveal_strlit("details");
    reveal_strlit("hint");
    assert("$schema"@.len() == 7 && "ok"@.len() == 2 && "error"@.len() == 5);
    assert("code"@.len() == 4 && "message"@.len() == 7 && "details"@.len() == 7 && "hint"@.len() == 4);
    assert("code"@[0] == 'c' && "hint"@[0] == 'h');
    assert("message"@[0] == 'm' && "details"@[0] == 'd');
    let hint = json::Shape::Text(
        "fix the listed fields in meta.knack.yaml / SKILL.md and re-run"@,
    );
    let inner = seq![
        ("code"@, json::Shape::Text("SKILL_FORMAT_INVALID"@)),
        ("message"@, json::Shape::Text(errors::message_of(format_error(issues)))),
        ("details"@, details_of(issues)),
        ("hint"@, hint),
    ];
    let outer = seq![
        ("$schema"@, json::Shape::Text("knack://cli/v1"@)),
        ("ok"@, json::Shape::Bool(false)),
        ("error"@, json::object_of(inner)),
    ];
    assert(format_envelope(issues) == json::object_of(outer));
    json::field_is_held(outer, 1);
    json::field_is_held(outer, 2);
    json::field_is_held(inner, 0);
    json::field_is_held(inner, 2);
    let list = json::Shape::List(issues.map_values(|i: IssueView| issue_shape(i)));
    let only = seq![("issues"@, list)];
    assert(details_of(issues) == json::object_of(only));
    json::field_is_held(only, 0);
    let m = "skill validation failed. issues: "@ + summary_of(issues);
    assert(summary_of(issues) =~= m.subrange(m.len() - summary_of(issues).len(), m.len() as int));
}

} // verus!
