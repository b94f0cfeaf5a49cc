//! `knack run`: registering a run of a skill.
//!
//! What both backends share: the arguments, the mode that a skill is run in, and the runs that a new
//! run of the same skill supersedes.
use vstd::prelude::*;

use crate::errors::{user, CliError, CliErrorView};
use crate::glob;
use crate::glob::wildcard_matches;
use crate::json;
use crate::json::Shape;
use crate::number;
use crate::number::decimal;
use crate::order;
use crate::order::sort_unique;
use crate::paths;
use crate::paths::file_name;
use crate::run_state;
use crate::run_state::{stale_open_runs, RecentRuns, RunEntry};
use crate::skill_validators::ModeSpec;
use crate::text;
use crate::text::{same, to_chars};

verus! {

/// How a skill is to be run.
#[derive(Debug)]
pub struct RunArgs {
    /// `<slug>`, `<slug>@<semver>`, or `@<author>/<slug>` with an optional `@<semver>`. A semver pins
    /// the run to that historical version instead of the current one.
    pub slug: String,
    /// The files that the agent will work on.
    pub input: Vec<String>,
    /// Free-form tag for the calling agent.
    pub runtime: Option<String>,
    /// Identifier for the calling agent instance.
    pub agent_id: Option<String>,
    /// Deprecated no-op.
    pub no_exec: bool,
    /// Deprecated no-op.
    pub dry: bool,
    /// Self-host only: skip the push that follows the telemetry commit.
    pub no_push: bool,
    /// Keep this machine's previous still-open runs of the same skill open.
    pub keep_open: bool,
    /// Frontmatter mode to run the skill in.
    pub mode: Option<String>,
}

/// The position of the last `@` behind the first character.
pub open spec fn version_at(s: Seq<char>) -> Option<int>
    decreases s.len(),
{
    if s.len() <= 1 {
        None
    } else if s.last() == '@' {
        Some(s.len() - 1)
    } else {
        version_at(s.drop_last())
    }
}

/// A skill identifier: the skill, and the version that it is pinned to, if any.
pub open spec fn slug_at_version(s: Seq<char>) -> (Seq<char>, Option<Seq<char>>) {
    match version_at(s) {
        Some(i) => (s.take(i), Some(s.skip(i + 1))),
        None => (s, None),
    }
}

proof fn version_at_bound(s: Seq<char>)
    ensures
        version_at(s) matches Some(i) ==> 0 < i < s.len() && s[i] == '@',
    decreases s.len(),
{
    if s.len() > 1 && s.last() != '@' {
        version_at_bound(s.drop_last());
    }
}

/// A skill identifier: the skill, and the version that it is pinned to, if any. The `@` that opens
/// `@<author>/<slug>` belongs to the skill.
pub fn parse_slug_at_version(s: &str) -> (r: (&str, Option<&str>))
    ensures
        (r.0@, text::opt_slice(r.1)) == slug_at_version(s@),
{
    let chars = to_chars(s);
    let n: usize = chars.len();
    let mut i: usize = n;
    proof {
        assert(s@.take(n as int) =~= s@);
        version_at_bound(s@);
    }
    while i > 1
        invariant
            chars@ == s@,
            n == s@.len(),
            i <= n,
            version_at(s@) == version_at(s@.take(i as int)),
        decreases i,
    {
        proof {
            assert(s@.take(i as int).last() == s@[i - 1]);
            assert(s@.take(i as int).drop_last() =~= s@.take(i - 1));
        }
        if chars[i - 1] == '@' {
            proof {
                assert(s@.subrange(0, i - 1) =~= s@.take(i - 1));
                assert(s@.subrange(i as int, n as int) =~= s@.skip(i as int));
            }
            return (s.substring_char(0, i - 1), Some(s.substring_char(i, n)));
        }
        i -= 1;
    }
    (s, None)
}

/// Whether superseded runs stay open: by the flag, or by the environment (`1` or `true`).
pub open spec fn auto_close_off(keep_open: bool, env: Option<Seq<char>>) -> bool {
    keep_open || env == Some("1"@) || env == Some("true"@)
}

/// True when auto-close is disabled for this invocation; `env` is `KNACK_NO_AUTO_CLOSE`.
pub fn auto_close_disabled(args: &RunArgs, env: Option<&str>) -> (r: bool)
    ensures
        r == auto_close_off(args.keep_open, text::opt_slice(env)),
{
    if args.keep_open {
        return true;
    }
    match env {
        Some(v) => same(v, "1") || same(v, "true"),
        None => false,
    }
}

/// What the local copy of a skill says of its modes.
#[derive(Debug)]
pub struct LocalSkill {
    /// The modes that the frontmatter of its `SKILL.md` declares, in the order of their names, where
    /// it declares any.
    pub modes: Option<Vec<ModeSpec>>,
    /// The skill-relative posix paths of its files.
    pub files: Vec<String>,
}

/// Whether some pattern matches a path.
pub open spec fn loads(load: Seq<Seq<char>>, path: Seq<char>) -> bool {
    exists|k: int| 0 <= k < load.len() && glob::wildcard(#[trigger] load[k], path)
}

/// The paths that some pattern matches.
pub open spec fn loaded(files: Seq<Seq<char>>, load: Seq<Seq<char>>) -> Seq<Seq<char>>
    decreases files.len(),
{
    if files.len() == 0 {
        Seq::empty()
    } else {
        let before = loaded(files.drop_last(), load);
        if loads(load, files.last()) {
            before.push(files.last())
        } else {
            before
        }
    }
}

/// The position of a mode.
pub open spec fn find_mode(modes: Seq<ModeSpec>, mode: Seq<char>) -> Option<int>
    decreases modes.len(),
{
    if modes.len() == 0 {
        None
    } else {
        match find_mode(modes.drop_last(), mode) {
            Some(i) => Some(i),
            None => if modes.last().name@ == mode {
                Some(modes.len() - 1)
            } else {
                None
            },
        }
    }
}

/// The names of the modes.
pub open spec fn mode_names(modes: Seq<ModeSpec>) -> Seq<Seq<char>> {
    modes.map_values(|m: ModeSpec| m.name@)
}

/// The error for a mode that a skill does not declare.
pub open spec fn unknown_mode(mode: Seq<char>, modes: Seq<ModeSpec>) -> CliErrorView {
    CliErrorView::User {
        code: "RUN_UNKNOWN_MODE"@,
        message: "skill has no mode `"@ + mode + "`"@,
        hint: Some("available modes: "@ + text::join_with(mode_names(modes), ", "@)),
    }
}

/// The files that a mode loads: each file of the skill that one of its patterns matches, in
/// ascending order. A skill without modes, or without a local copy to look at, takes any mode and
/// loads nothing for it.
pub open spec fn mode_files_of(mode: Seq<char>, source: Option<LocalSkill>) -> Result<
    Seq<Seq<char>>,
    CliErrorView,
> {
    match source {
        Some(LocalSkill { modes: Some(modes), files }) => match find_mode(modes@, mode) {
            Some(i) => Ok(
                order::sorted_unique(
                    loaded(text::texts(files@), text::texts(modes@[i].load@)),
                ),
            ),
            None => Err(unknown_mode(mode, modes@)),
        },
        _ => Ok(Seq::empty()),
    }
}

/// What a list of files that was asked for says.
pub open spec fn files_result(r: Result<Vec<String>, CliError>) -> Result<
    Seq<Seq<char>>,
    CliErrorView,
> {
    match r {
        Ok(v) => Ok(text::texts(v@)),
        Err(e) => Err(e@),
    }
}

fn is_loaded(load: &Vec<String>, path: &str) -> (r: bool)
    ensures
        r == loads(text::texts(load@), path@),
{
    let n: usize = load.len();
    let mut i: usize = 0;
    while i < n
        invariant
            n == load@.len(),
            i <= n,
            forall|k: int| 0 <= k < i ==> !glob::wildcard(#[trigger] text::texts(load@)[k], path@),
        decreases n - i,
    {
        if wildcard_matches(load[i].as_str(), path) {
            proof {
                assert(glob::wildcard(text::texts(load@)[i as int], path@));
            }
            return true;
        }
        i += 1;
    }
    false
}

fn pick_loaded(files: &Vec<String>, load: &Vec<String>) -> (r: Vec<String>)
    ensures
        text::texts(r@) == loaded(text::texts(files@), text::texts(load@)),
{
    let ghost all = text::texts(files@);
    let n: usize = files.len();
    let mut out: Vec<String> = Vec::new();
    let mut i: usize = 0;
    proof {
        assert(text::texts(out@) =~= loaded(all.take(0), text::texts(load@)));
    }
    while i < n
        invariant
            n == files@.len(),
            all == text::texts(files@),
            i <= n,
            text::texts(out@) == loaded(all.take(i as int), text::texts(load@)),
        decreases n - i,
    {
        let ghost before = out@;
        proof {
            assert(all.take(i + 1).drop_last() =~= all.take(i as int));
            assert(all.take(i + 1).last() == files@[i as int]@);
        }
        if is_loaded(load, files[i].as_str()) {
            out.push(files[i].clone());
            proof {
                assert(text::texts(out@) =~= text::texts(before).push(files@[i as int]@));
            }
        }
        i += 1;
    }
    proof {
        assert(all.take(n as int) =~= all);
    }
    out
}

fn mode_position(modes: &Vec<ModeSpec>, mode: &str) -> (r: Option<usize>)
    ensures
        match r {
            Some(i) => i < modes@.len() && find_mode(modes@, mode@) == Some(i as int),
            None => find_mode(modes@, mode@) is None,
        },
{
    let n: usize = modes.len();
    let mut i: usize = 0;
    let mut at: Option<usize> = None;
    while i < n
        invariant
            n == modes@.len(),
            i <= n,
            match at {
                Some(k) => k < i && find_mode(modes@.take(i as int), mode@) == Some(k as int),
                None => find_mode(modes@.take(i as int), mode@) is None,
            },
        decreases n - i,
    {
        proof {
            assert(modes@.take(i + 1).drop_last() =~= modes@.take(i as int));
            assert(modes@.take(i + 1).last() == modes@[i as int]);
        }
        if at.is_none() && same(modes[i].name.as_str(), mode) {
            at = Some(i);
        }
        i += 1;
    }
    proof {
        assert(modes@.take(n as int) =~= modes@);
    }
    at
}

fn names_list(modes: &Vec<ModeSpec>) -> (r: Vec<String>)
    ensures
        text::texts(r@) == mode_names(modes@),
{
    let n: usize = modes.len();
    let mut out: Vec<String> = Vec::new();
    let mut i: usize = 0;
    while i < n
        invariant
            n == modes@.len(),
            i <= n,
            out@.len() == i,
            forall|k: int| 0 <= k < i ==> (#[trigger] out@[k])@ == modes@[k].name@,
        decreases n - i,
    {
        out.push(modes[i].name.clone());
        i += 1;
    }
    proof {
        assert(text::texts(out@) =~= mode_names(modes@));
    }
    out
}

/// The files that a mode loads. Fails where the skill declares modes and this is none of them:
/// telemetry recorded under a mistyped mode is worse than an error.
pub fn resolve_mode(mode: &str, source: &Option<LocalSkill>) -> (r: Result<Vec<String>, CliError>)
    ensures
        files_result(r) == mode_files_of(mode@, *source),
{
    if let Some(local) = source {
        if let Some(modes) = &local.modes {
            return match mode_position(modes, mode) {
                Some(i) => {
                    let files = pick_loaded(&local.files, &modes[i].load);
                    Ok(sort_unique(&files))
                },
                None => {
                    let mut m = "skill has no mode `".to_owned();
                    m.append(mode);
                    m.append("`");
                    let mut hint = "available modes: ".to_owned();
                    let names = text::join(&names_list(modes), ", ");
                    hint.append(names.as_str());
                    Err(user("RUN_UNKNOWN_MODE", m, Some(hint.as_str())))
                },
            };
        }
    }
    let none: Vec<String> = Vec::new();
    proof {
        assert(text::texts(none@) =~= Seq::empty());
    }
    Ok(none)
}

/// The files that the mode of a run loads, none where no mode was asked for.
pub open spec fn requested_files(mode: Option<String>, source: Option<LocalSkill>) -> Result<
    Seq<Seq<char>>,
    CliErrorView,
> {
    match mode {
        Some(m) => mode_files_of(m@, source),
        None => Ok(Seq::empty()),
    }
}

/// The files that the mode of a run loads.
pub fn requested_mode_files(mode: &Option<String>, source: &Option<LocalSkill>) -> (r: Result<
    Vec<String>,
    CliError,
>)
    ensures
        files_result(r) == requested_files(*mode, *source),
{
    match mode {
        Some(m) => resolve_mode(m.as_str(), source),
        None => {
            let none: Vec<String> = Vec::new();
            proof {
                assert(text::texts(none@) =~= Seq::empty());
            }
            Ok(none)
        },
    }
}

/// The tag of the calling agent.
pub open spec fn runtime_of(runtime: Option<String>) -> Seq<char> {
    match runtime {
        Some(r) => r@,
        None => "agent"@,
    }
}

/// The tag of the calling agent, `agent` where it gave none.
pub fn runtime_tag(args: &RunArgs) -> (r: String)
    ensures
        r@ == runtime_of(args.runtime),
{
    match &args.runtime {
        Some(r) => r.clone(),
        None => "agent".to_owned(),
    }
}

/// An input as an entry of the summary.
pub open spec fn input_entry(path: Seq<char>) -> Shape {
    json::object_of(
        seq![
            ("path"@, Shape::Text(path)),
            ("filename"@, json::text_or_null(paths::file_name_of(path))),
        ],
    )
}

/// What a run on the cloud records of its inputs and its mode; nothing where there is neither.
pub open spec fn summary_of(input: Seq<Seq<char>>, mode: Option<Seq<char>>) -> Option<Shape> {
    if input.len() == 0 && mode is None {
        None
    } else {
        Some(
            json::object_of(
                (if input.len() == 0 {
                    Seq::empty()
                } else {
                    seq![
                        (
                            "files"@,
                            Shape::List(input.map_values(|p: Seq<char>| input_entry(p))),
                        ),
                    ]
                }) + (match mode {
                    Some(m) => seq![("mode"@, Shape::Text(m))],
                    None => Seq::empty(),
                }),
            ),
        )
    }
}

fn input_value(path: &str) -> (r: serde_json::Value)
    ensures
        json::shape(r) == input_entry(path@),
{
    let name = match file_name(path) {
        Some(n) => json::text(n),
        None => json::null(),
    };
    let fields = vec![("path", json::text(path)), ("filename", name)];
    proof {
        assert(json::field_shapes(fields@) =~= seq![
            ("path"@, Shape::Text(path@)),
            ("filename"@, json::text_or_null(paths::file_name_of(path@))),
        ]);
    }
    json::object(fields)
}

/// The shape of an optional value.
pub open spec fn opt_shape(v: Option<serde_json::Value>) -> Option<Shape> {
    match v {
        Some(v) => Some(json::shape(v)),
        None => None,
    }
}

/// What a run on the cloud records of its inputs and its mode.
pub fn inputs_summary(input: &Vec<String>, mode: &Option<String>) -> (r: Option<serde_json::Value>)
    ensures
        opt_shape(r) == summary_of(text::texts(input@), text::opt_text(*mode)),
{
    let n: usize = input.len();
    if n == 0 && mode.is_none() {
        return None;
    }
    let ghost paths_in = text::texts(input@);
    let mut fields: Vec<(&str, serde_json::Value)> = Vec::new();
    if n > 0 {
        let mut files: Vec<serde_json::Value> = Vec::new();
        let mut i: usize = 0;
        while i < n
            invariant
                n == input@.len(),
                i <= n,
                files@.len() == i,
                forall|k: int|
                    0 <= k < i ==> json::shape(#[trigger] files@[k]) == input_entry(input@[k]@),
            decreases n - i,
        {
            files.push(input_value(input[i].as_str()));
            i += 1;
        }
        proof {
            assert(json::shapes(files@) =~= paths_in.map_values(|p: Seq<char>| input_entry(p)));
        }
        fields.push(("files", json::list(files)));
    }
    if let Some(m) = mode {
        fields.push(("mode", json::text(m.as_str())));
    }
    proof {
        assert(json::field_shapes(fields@) =~= (if paths_in.len() == 0 {
            Seq::empty()
        } else {
            seq![("files"@, Shape::List(paths_in.map_values(|p: Seq<char>| input_entry(p))))]
        }) + (match text::opt_text(*mode) {
            Some(m) => seq![("mode"@, Shape::Text(m))],
            None => Seq::empty(),
        }));
    }
    Some(json::object(fields))
}

/// Whether telemetry is pushed, as the push policy of the repository says; a `knack.yaml` that
/// cannot be read is an error.
pub fn resolve_push_flag(policy: Result<bool, String>) -> (r: Result<bool, CliError>)
    ensures
        match policy {
            Ok(p) => r == Ok::<bool, CliError>(p),
            Err(e) => r matches Err(x) && x@ == push_error(e@),
        },
{
    match policy {
        Ok(p) => Ok(p),
        Err(e) => {
            let mut m = "could not read auto_push from <repo>/knack.yaml: ".to_owned();
            m.append(e.as_str());
            Err(
                user(
                    "WORKSPACE_CONFIG_INVALID",
                    m,
                    Some(
                        "edit knack.yaml to fix the YAML, or remove the file to fall back to defaults",
                    ),
                ),
            )
        },
    }
}

/// The error for a push policy that cannot be read.
pub open spec fn push_error(e: Seq<char>) -> CliErrorView {
    CliErrorView::User {
        code: "WORKSPACE_CONFIG_INVALID"@,
        message: "could not read auto_push from <repo>/knack.yaml: "@ + e,
        hint: Some(
            "edit knack.yaml to fix the YAML, or remove the file to fall back to defaults"@,
        ),
    }
}

/// A run to close.
#[derive(Debug)]
pub struct MarkRequest {
    pub run_id: String,
    pub status: String,
    pub note: String,
}

/// What a request to close a run says.
pub struct MarkView {
    pub run_id: Seq<char>,
    pub status: Seq<char>,
    pub note: Seq<char>,
}

impl View for MarkRequest {
    type V = MarkView;

    open spec fn view(&self) -> MarkView {
        MarkView { run_id: self.run_id@, status: self.status@, note: self.note@ }
    }
}

/// What the requests say.
pub open spec fn mark_views(v: Seq<MarkRequest>) -> Seq<MarkView> {
    v.map_values(|m: MarkRequest| m@)
}

/// The request that closes a run superseded by another one: as abandoned, never as succeeded.
pub open spec fn superseded(stale: RunEntry, by: Seq<char>) -> MarkView {
    MarkView {
        run_id: stale.run_id@,
        status: "abandoned"@,
        note: "superseded by run "@ + by,
    }
}

/// The requests that close what a new run of a skill supersedes: this machine's open runs of the
/// same skill on the same backend, the newest first.
pub open spec fn requests_of(
    entries: Seq<RunEntry>,
    backend: Seq<char>,
    slug: Seq<char>,
    run_id: Seq<char>,
) -> Seq<MarkView> {
    run_state::newest_first(entries, run_state::stale(backend, slug, run_id)).map_values(
        |e: RunEntry| superseded(e, run_id),
    )
}

/// The requests that close what a new run of a skill supersedes.
pub fn close_requests(rec: &RecentRuns, backend: &str, slug: &str, run_id: &str) -> (r: Vec<
    MarkRequest,
>)
    ensures
        mark_views(r@) == requests_of(rec.entries@, backend@, slug@, run_id@),
{
    let stale = stale_open_runs(rec, backend, slug, run_id);
    let n: usize = stale.len();
    let mut out: Vec<MarkRequest> = Vec::new();
    let mut i: usize = 0;
    while i < n
        invariant
            n == stale@.len(),
            i <= n,
            out@.len() == i,
            forall|k: int| 0 <= k < i ==> (#[trigger] out@[k])@ == superseded(stale@[k], run_id@),
        decreases n - i,
    {
        let mut note = "superseded by run ".to_owned();
        note.append(run_id);
        out.push(
            MarkRequest { run_id: stale[i].run_id.clone(), status: "abandoned".to_owned(), note },
        );
        i += 1;
    }
    proof {
        assert(mark_views(out@) =~= requests_of(rec.entries@, backend@, slug@, run_id@));
    }
    out
}

/// The runs that were closed: those whose request went through. An outcome is the error of a request
/// that did not; a request without an outcome was not made.
pub open spec fn closed_ids(requests: Seq<MarkView>, outcomes: Seq<Option<String>>) -> Seq<
    Seq<char>,
>
    decreases requests.len(),
{
    if requests.len() == 0 {
        Seq::empty()
    } else {
        let before = closed_ids(requests.drop_last(), outcomes);
        if requests.len() <= outcomes.len() && outcomes[requests.len() - 1] is None {
            before.push(requests.last().run_id)
        } else {
            before
        }
    }
}

/// The warnings for the requests that did not go through.
pub open spec fn warnings_of(requests: Seq<MarkView>, outcomes: Seq<Option<String>>) -> Seq<
    Seq<char>,
>
    decreases requests.len(),
{
    if requests.len() == 0 {
        Seq::empty()
    } else {
        let before = warnings_of(requests.drop_last(), outcomes);
        if requests.len() <= outcomes.len() && outcomes[requests.len() - 1] is Some {
            before.push(
                "knack: could not auto-close stale run "@ + requests.last().run_id + ": "@
                    + outcomes[requests.len() - 1]->0@,
            )
        } else {
            before
        }
    }
}

/// The runs that were closed, and the warnings for those that were not.
pub fn close_outcome(requests: &Vec<MarkRequest>, outcomes: &Vec<Option<String>>) -> (r: (
    Vec<String>,
    Vec<String>,
))
    ensures
        text::texts(r.0@) == closed_ids(mark_views(requests@), outcomes@),
        text::texts(r.1@) == warnings_of(mark_views(requests@), outcomes@),
{
    let ghost all = mark_views(requests@);
    let n: usize = requests.len();
    let mut closed: Vec<String> = Vec::new();
    let mut warnings: Vec<String> = Vec::new();
    let mut i: usize = 0;
    proof {
        assert(text::texts(closed@) =~= closed_ids(all.take(0), outcomes@));
        assert(text::texts(warnings@) =~= warnings_of(all.take(0), outcomes@));
    }
    while i < n
        invariant
            n == requests@.len(),
            all == mark_views(requests@),
            i <= n,
            text::texts(closed@) == closed_ids(all.take(i as int), outcomes@),
            text::texts(warnings@) == warnings_of(all.take(i as int), outcomes@),
        decreases n - i,
    {
        let ghost c = closed@;
        let ghost w = warnings@;
        let id = &requests[i].run_id;
        proof {
            assert(all.take(i + 1).drop_last() =~= all.take(i as int));
            assert(all.take(i + 1).last() == requests@[i as int]@);
        }
        if i < outcomes.len() {
            match &outcomes[i] {
                None => {
                    closed.push(id.clone());
                    proof {
                        assert(text::texts(closed@) =~= text::texts(c).push(id@));
                    }
                },
                Some(e) => {
                    let mut m = "knack: could not auto-close stale run ".to_owned();
                    m.append(id.as_str());
                    m.append(": ");
                    m.append(e.as_str());
                    let ghost said = m@;
                    warnings.push(m);
                    proof {
                        assert(text::texts(warnings@) =~= text::texts(w).push(said));
                    }
                },
            }
        }
        i += 1;
    }
    proof {
        assert(all.take(n as int) =~= all);
    }
    (closed, warnings)
}

/// A copy of the text, where there is one.
pub(crate) fn copy_text(o: &Option<String>) -> (r: Option<String>)
    ensures
        r == *o,
{
    match o {
        Some(s) => Some(s.clone()),
        None => None,
    }
}

/// A copy of the texts.
pub(crate) fn copy_texts(v: &Vec<String>) -> (r: Vec<String>)
    ensures
        text::texts(r@) == text::texts(v@),
{
    let n: usize = v.len();
    let mut out: Vec<String> = Vec::new();
    let mut i: usize = 0;
    while i < n
        invariant
            n == v@.len(),
            i <= n,
            out@.len() == i,
            forall|k: int| 0 <= k < i ==> (#[trigger] out@[k])@ == v@[k]@,
        decreases n - i,
    {
        out.push(v[i].clone());
        i += 1;
    }
    proof {
        assert(text::texts(out@) =~= text::texts(v@));
    }
    out
}

/// A copy of the requests.
pub(crate) fn copy_requests(v: &Vec<MarkRequest>) -> (r: Vec<MarkRequest>)
    ensures
        mark_views(r@) == mark_views(v@),
{
    let n: usize = v.len();
    let mut out: Vec<MarkRequest> = Vec::new();
    let mut i: usize = 0;
    while i < n
        invariant
            n == v@.len(),
            i <= n,
            out@.len() == i,
            forall|k: int| 0 <= k < i ==> (#[trigger] out@[k])@ == v@[k]@,
        decreases n - i,
    {
        out.push(
            MarkRequest {
                run_id: v[i].run_id.clone(),
                status: v[i].status.clone(),
                note: v[i].note.clone(),
            },
        );
        i += 1;
    }
    proof {
        assert(mark_views(out@) =~= mark_views(v@));
    }
    out
}

/// The line that tells which runs were closed, if any.
pub open spec fn closed_line(closed: Seq<Seq<char>>) -> Seq<char> {
    if closed.len() == 0 {
        ""@
    } else {
        "  auto-closed "@ + number::decimal_of(closed.len()) + " stale run(s) as abandoned: "@
            + text::join_with(closed, ", "@) + "\n"@
    }
}

/// The line that tells which runs were closed, if any.
pub fn closed_text(closed: &Vec<String>) -> (r: String)
    ensures
        r@ == closed_line(text::texts(closed@)),
{
    let n: usize = closed.len();
    if n == 0 {
        return "".to_owned();
    }
    let mut s = "  auto-closed ".to_owned();
    let count = decimal(n as u64);
    s.append(count.as_str());
    s.append(" stale run(s) as abandoned: ");
    let list = text::join(closed, ", ");
    s.append(list.as_str());
    s.append("\n");
    s
}

/// The line that tells the mode of a run, if it has one, and what that mode loads.
pub open spec fn mode_line(head: Seq<char>, mode: Option<Seq<char>>, files: Seq<Seq<char>>) -> Seq<
    char,
> {
    match mode {
        None => ""@,
        Some(m) => if files.len() == 0 {
            head + m + "\n"@
        } else {
            head + m + " — load only: "@ + text::join_with(files, ", "@) + "\n"@
        },
    }
}

/// The line that tells the mode of a run, if it has one, and what that mode loads.
pub fn mode_text(head: &str, mode: &Option<String>, files: &Vec<String>) -> (r: String)
    ensures
        r@ == mode_line(head@, text::opt_text(*mode), text::texts(files@)),
{
    match mode {
        None => "".to_owned(),
        Some(m) => {
            let mut s = head.to_owned();
            s.append(m.as_str());
            if files.len() > 0 {
                s.append(" — load only: ");
                let list = text::join(files, ", ");
                s.append(list.as_str());
            }
            s.append("\n");
            s
        },
    }
}

proof fn loaded_iff(files: Seq<Seq<char>>, load: Seq<Seq<char>>)
    ensures
        forall|p: Seq<char>| #[trigger]
            loaded(files, load).contains(p) <==> files.contains(p) && loads(load, p),
    decreases files.len(),
{
    if files.len() > 0 {
        let t = files.drop_last();
        let before = loaded(t, load);
        let after = loaded(files, load);
        loaded_iff(t, load);
        assert forall|p: Seq<char>| #[trigger] after.contains(p) <==> files.contains(p) && loads(
            load,
            p,
        ) by {
            assert(before.contains(p) <==> t.contains(p) && loads(load, p));
            if t.contains(p) {
                let i = choose|i: int| 0 <= i < t.len() && t[i] == p;
                assert(files[i] == p);
            }
            if files.contains(p) && p != files.last() {
                let i = choose|i: int| 0 <= i < files.len() && files[i] == p;
                assert(t[i] == p);
            }
            assert(files[files.len() - 1] == files.last());
            if before.contains(p) {
                let i = choose|i: int| 0 <= i < before.len() && before[i] == p;
                assert(after[i] == p);
            }
            if after.contains(p) && !before.contains(p) {
                let i = choose|i: int| 0 <= i < after.len() && after[i] == p;
                if i < before.len() {
                    assert(before[i] == p);
                }
            }
            if loads(load, files.last()) {
                assert(after[before.len() as int] == files.last());
            }
        }
    }
}

/// A mode loads exactly the files of the skill that one of its patterns matches, each once and in
/// ascending order.
pub proof fn mode_loads_exactly_its_files(mode: Seq<char>, source: LocalSkill, i: int)
    requires
        source.modes is Some,
        find_mode(source.modes->0@, mode) == Some(i),
    ensures
        mode_files_of(mode, Some(source)) is Ok,
        order::ascending(mode_files_of(mode, Some(source))->Ok_0),
        forall|p: Seq<char>| #[trigger]
            mode_files_of(mode, Some(source))->Ok_0.contains(p) <==> text::texts(
                source.files@,
            ).contains(p) && loads(text::texts(source.modes->0@[i].load@), p),
{
    let files = text::texts(source.files@);
    let load = text::texts(source.modes->0@[i].load@);
    loaded_iff(files, load);
    order::sorted_unique_is_sorted(loaded(files, load));
}

proof fn picked(entries: Seq<RunEntry>, keep: spec_fn(RunEntry) -> bool)
    ensures
        forall|i: int|
            0 <= i < run_state::newest_first(entries, keep).len() ==> keep(
                #[trigger] run_state::newest_first(entries, keep)[i],
            ) && entries.contains(run_state::newest_first(entries, keep)[i]),
    decreases entries.len(),
{
    if entries.len() > 0 {
        let t = entries.drop_last();
        picked(t, keep);
        let r = run_state::newest_first(entries, keep);
        let rest = run_state::newest_first(t, keep);
        assert forall|i: int| 0 <= i < r.len() implies keep(#[trigger] r[i]) && entries.contains(
            r[i],
        ) by {
            if keep(entries.last()) {
                if i == 0 {
                    assert(entries[entries.len() - 1] == r[0]);
                } else {
                    assert(r[i] == rest[i - 1]);
                    let k = choose|k: int| 0 <= k < t.len() && t[k] == rest[i - 1];
                    assert(entries[k] == r[i]);
                }
            } else {
                assert(r[i] == rest[i]);
                let k = choose|k: int| 0 <= k < t.len() && t[k] == rest[i];
                assert(entries[k] == r[i]);
            }
        }
    }
}

/// A run is closed for being superseded only if it is on record as an open run of the same skill on
/// the same backend, and never the new run itself; and it is closed as abandoned.
pub proof fn only_superseded_runs_are_closed(
    entries: Seq<RunEntry>,
    backend: Seq<char>,
    slug: Seq<char>,
    run_id: Seq<char>,
    i: int,
)
    requires
        0 <= i < requests_of(entries, backend, slug, run_id).len(),
    ensures
        ({
            let m = requests_of(entries, backend, slug, run_id)[i];
            &&& m.status == "abandoned"@
            &&& m.note == "superseded by run "@ + run_id
            &&& m.run_id != run_id
            &&& exists|e: RunEntry|
                entries.contains(e) && run_state::is_open(e, backend) && e.slug@ == slug
                    && #[trigger] e.run_id@ == m.run_id
        }),
{
    let keep = run_state::stale(backend, slug, run_id);
    picked(entries, keep);
    let e = run_state::newest_first(entries, keep)[i];
    assert(keep(e));
    assert(e.run_id@ == requests_of(entries, backend, slug, run_id)[i].run_id);
}

/// What is reported as closed was asked to be closed, and the request went through.
pub proof fn reported_as_closed_was_closed(
    requests: Seq<MarkView>,
    outcomes: Seq<Option<String>>,
    id: Seq<char>,
)
    requires
        closed_ids(requests, outcomes).contains(id),
    ensures
        exists|i: int|
            0 <= i < requests.len() && i < outcomes.len() && (#[trigger] requests[i]).run_id == id
                && outcomes[i] is None,
    decreases requests.len(),
{
    let ids = closed_ids(requests, outcomes);
    let k = choose|k: int| 0 <= k < ids.len() && ids[k] == id;
    let t = requests.drop_last();
    let before = closed_ids(t, outcomes);
    if k < before.len() {
        assert(before[k] == id);
        assert(before.contains(id));
        reported_as_closed_was_closed(t, outcomes, id);
        let i = choose|i: int|
            0 <= i < t.len() && i < outcomes.len() && (#[trigger] t[i]).run_id == id
                && outcomes[i] is None;
        assert(requests[i] == t[i]);
    } else {
        assert(requests[requests.len() - 1].run_id == id);
    }
}

/// A superseded run that was closed and marked on record is not closed again.
pub proof fn closed_runs_are_not_closed_again(
    entries: Seq<RunEntry>,
    closed: Seq<Seq<char>>,
    backend: Seq<char>,
    slug: Seq<char>,
    run_id: Seq<char>,
    i: int,
)
    requires
        0 <= i < requests_of(
            run_state::with_marks(entries, closed),
            backend,
            slug,
            run_id,
        ).len(),
    ensures
        !closed.contains(
            requests_of(run_state::with_marks(entries, closed), backend, slug, run_id)[i].run_id,
        ),
{
    let marked = run_state::with_marks(entries, closed);
    let keep = run_state::stale(backend, slug, run_id);
    picked(marked, keep);
    let e = run_state::newest_first(marked, keep)[i];
    assert(keep(e) && marked.contains(e));
    let k = choose|k: int| 0 <= k < marked.len() && marked[k] == e;
    assert(e.run_id@ == entries[k].run_id@);
    assert(requests_of(marked, backend, slug, run_id)[i].run_id == e.run_id@);
}

/// A mode is found where the skill declares one of exactly that name, the first of that name, and
/// nowhere else.
pub proof fn mode_is_found_by_its_name(modes: Seq<ModeSpec>, mode: Seq<char>)
    ensures
        match find_mode(modes, mode) {
            Some(i) => 0 <= i < modes.len() && modes[i].name@ == mode && (forall|j: int|
                0 <= j < i ==> (#[trigger] modes[j]).name@ != mode),
            None => forall|j: int| 0 <= j < modes.len() ==> (#[trigger] modes[j]).name@ != mode,
        },
    decreases modes.len(),
{
    if modes.len() > 0 {
        let t = modes.drop_last();
        mode_is_found_by_its_name(t, mode);
        match find_mode(t, mode) {
            Some(i) => {
                assert(modes[i] == t[i]);
                assert forall|j: int| 0 <= j < i implies (#[trigger] modes[j]).name@ != mode by {
                    assert(t[j] == modes[j]);
                }
            },
            None => {
                assert forall|j: int| 0 <= j < t.len() implies (#[trigger] modes[j]).name@ != mode by {
                    assert(t[j] == modes[j]);
                }
            },
        }
    }
}

/// A skill that declares the mode loads for it exactly those of its files that a pattern of that
/// mode matches; one that declares modes, but not this one, is refused with `RUN_UNKNOWN_MODE`; and
/// one that declares none loads nothing.
pub proof fn mode_decides_what_is_loaded(mode: Seq<char>, source: LocalSkill, i: int, path: Seq<char>)
    ensures
        source.modes matches Some(modes) && 0 <= i < modes@.len() && modes@[i].name@ == mode && (
        forall|j: int| 0 <= j < i ==> (#[trigger] modes@[j]).name@ != mode) ==> (mode_files_of(
            mode,
            Some(source),
        ) matches Ok(files) && (files.contains(path) <==> {
            &&& exists|k: int| 0 <= k < source.files@.len() && (#[trigger] source.files@[k])@ == path
            &&& exists|k: int|
                0 <= k < source.modes->0@[i].load@.len() && glob::wildcard(
                    (#[trigger] source.modes->0@[i].load@[k])@,
                    path,
                )
        })),
        source.modes matches Some(modes) && (forall|j: int|
            0 <= j < modes@.len() ==> (#[trigger] modes@[j]).name@ != mode) ==> (mode_files_of(
            mode,
            Some(source),
        ) matches Err(CliErrorView::User { code, .. }) && code == "RUN_UNKNOWN_MODE"@),
        source.modes is None ==> mode_files_of(mode, Some(source)) == Ok::<
            Seq<Seq<char>>,
            CliErrorView,
        >(Seq::empty()),
        mode_files_of(mode, None) == Ok::<Seq<Seq<char>>, CliErrorView>(Seq::empty()),
{
    if let Some(modes) = source.modes {
        mode_is_found_by_its_name(modes@, mode);
        if 0 <= i < modes@.len() && modes@[i].name@ == mode && (forall|j: int|
            0 <= j < i ==> (#[trigger] modes@[j]).name@ != mode) {
            let at = find_mode(modes@, mode)->0;
            assert(find_mode(modes@, mode) is Some);
            assert(at == i) by {
                if at < i {
                    assert(modes@[at].name@ != mode);
                }
                if i < at {
                    assert(modes@[i].name@ != mode);
                }
            }
            mode_loads_exactly_its_files(mode, source, i);
            let files = mode_files_of(mode, Some(source))->Ok_0;
            let load = modes@[i].load@;
            let names = text::texts(source.files@);
            let patterns = text::texts(load);
            assert(files.contains(path) <==> names.contains(path) && loads(patterns, path));
            if names.contains(path) {
                let k = choose|k: int| 0 <= k < names.len() && names[k] == path;
                assert(source.files@[k]@ == path);
            }
            if exists|k: int| 0 <= k < source.files@.len() && (#[trigger] source.files@[k])@ == path {
                let k = choose|k: int|
                    0 <= k < source.files@.len() && (#[trigger] source.files@[k])@ == path;
                assert(names[k] == path);
            }
            if loads(patterns, path) {
                let k = choose|k: int|
                    0 <= k < patterns.len() && glob::wildcard(#[trigger] patterns[k], path);
                assert(glob::wildcard(load[k]@, path));
            }
            if exists|k: int| 0 <= k < load.len() && glob::wildcard((#[trigger] load[k])@, path) {
                let k = choose|k: int|
                    0 <= k < load.len() && glob::wildcard((#[trigger] load[k])@, path);
                assert(patterns[k] == load[k]@);
                assert(glob::wildcard(patterns[k], path));
            }
        }
    }
}

proof fn no_version_behind(s: Seq<char>, n: int)
    requires
        0 <= n <= s.len(),
        forall|k: int| n <= k < s.len() ==> k < 1 || s[k] != '@',
    ensures
        version_at(s) == version_at(s.take(n)),
    decreases s.len(),
{
    if n < s.len() {
        let t = s.drop_last();
        assert(t.take(n) =~= s.take(n));
        if s.len() > 1 {
            assert(s[s.len() - 1] != '@');
            assert forall|k: int| n <= k < t.len() implies k < 1 || t[k] != '@' by {
                assert(t[k] == s[k]);
            }
            no_version_behind(t, n);
        }
    } else {
        assert(s.take(n) =~= s);
    }
}

/// A skill with `@` and a version behind it is pinned to that version; a skill without an `@`, but
/// for one that it starts with, is not pinned.
pub proof fn version_stands_behind_the_last_at(slug: Seq<char>, version: Seq<char>)
    ensures
        slug.len() > 0 && !version.contains('@') ==> slug_at_version(slug + seq!['@'] + version) == (
            slug,
            Some(version),
        ),
        !version.contains('@') ==> slug_at_version(version) == (version, None::<Seq<char>>)
            && slug_at_version(seq!['@'] + version) == (seq!['@'] + version, None::<Seq<char>>),
{
    if !version.contains('@') {
        assert forall|k: int| 0 <= k < version.len() implies version[k] != '@' by {}
        no_version_behind(version, 0);
        let own = seq!['@'] + version;
        assert forall|k: int| 0 <= k < own.len() implies k < 1 || own[k] != '@' by {
            if k >= 1 {
                assert(own[k] == version[k - 1]);
            }
        }
        no_version_behind(own, 0);
        if slug.len() > 0 {
            let s = slug + seq!['@'] + version;
            let n = slug.len() + 1;
            assert forall|k: int| n <= k < s.len() implies k < 1 || s[k] != '@' by {
                assert(s[k] == version[k - n]);
            }
            no_version_behind(s, n as int);
            assert(s.take(n as int).last() == '@');
            assert(s.take(slug.len() as int) =~= slug);
            assert(s.skip((slug.len() + 1) as int) =~= version);
        }
    }
}

/// A run that is recorded behind others is closed first, where it is an open run of the same skill
/// on the same backend and not the new run; no other run is closed for it.
pub proof fn newest_superseded_run_comes_first(
    entries: Seq<RunEntry>,
    e: RunEntry,
    backend: Seq<char>,
    slug: Seq<char>,
    run_id: Seq<char>,
)
    ensures
        requests_of(entries.push(e), backend, slug, run_id) == if !e.marked && e.backend@ == backend
            && e.slug@ == slug && e.run_id@ != run_id {
            seq![
                MarkView {
                    run_id: e.run_id@,
                    status: "abandoned"@,
                    note: "superseded by run "@ + run_id,
                },
            ] + requests_of(entries, backend, slug, run_id)
        } else {
            requests_of(entries, backend, slug, run_id)
        },
        requests_of(Seq::empty(), backend, slug, run_id).len() == 0,
{
    let keep = run_state::stale(backend, slug, run_id);
    assert(entries.push(e).drop_last() =~= entries);
    assert(entries.push(e).last() == e);
    let old = run_state::newest_first(entries, keep);
    let new = run_state::newest_first(entries.push(e), keep);
    if keep(e) {
        assert(new == seq![e] + old);
        assert(requests_of(entries.push(e), backend, slug, run_id) =~= seq![superseded(e, run_id)]
            + requests_of(entries, backend, slug, run_id));
    }
}

/// Each request that went through is reported as closed, in the order of the requests, and each that
/// did not is warned of; a request without an outcome is neither.
pub proof fn outcome_decides_what_is_reported(
    requests: Seq<MarkView>,
    m: MarkView,
    outcomes: Seq<Option<String>>,
)
    ensures
        ({
            let n = requests.len() as int;
            let closed = closed_ids(requests, outcomes);
            let warned = warnings_of(requests, outcomes);
            let all = requests.push(m);
            &&& n < outcomes.len() && outcomes[n] is None ==> closed_ids(all, outcomes) == closed.push(
                m.run_id,
            ) && warnings_of(all, outcomes) == warned
            &&& n < outcomes.len() && outcomes[n] is Some ==> closed_ids(all, outcomes) == closed
                && warnings_of(all, outcomes).len() == warned.len() + 1 && text::occurs_in(
                warnings_of(all, outcomes).last(),
                m.run_id,
            )
            &&& n >= outcomes.len() ==> closed_ids(all, outcomes) == closed && warnings_of(
                all,
                outcomes,
            ) == warned
        }),
{
    let all = requests.push(m);
    let n = requests.len() as int;
    assert(all.drop_last() =~= requests);
    if n < outcomes.len() && outcomes[n] is Some {
        let w = warnings_of(all, outcomes).last();
        let head = "knack: could not auto-close stale run "@;
        let tail = ": "@ + outcomes[n]->0@;
        assert(w =~= head + m.run_id + tail);
        text::occurs_between(w, m.run_id);
    }
}

/// An input of a run tells its path and the name that the path ends in, each under its own name.
pub proof fn input_tells_its_path_and_name(path: Seq<char>)
    ensures
        json::field(input_entry(path), "path"@) == Some(Shape::Text(path)),
        json::field(input_entry(path), "filename"@) == Some(json::text_or_null(paths::file_name_of(path))),
{
    reveal_strlit("path");
    reveal_strlit("filename");
    assert("path"@.len() == 4 && "filename"@.len() == 8);
    let f = seq![
        ("path"@, Shape::Text(path)),
        ("filename"@, json::text_or_null(paths::file_name_of(path))),
    ];
    assert(input_entry(path) == json::object_of(f));
    json::field_is_held(f, 0);
    json::field_is_held(f, 1);
}

/// What a run on the cloud records of its inputs and its mode: nothing without either; the mode under
/// `mode`, where there is one; and each input, in its order, under `files`, where there are any.
pub proof fn summary_tells_inputs_and_mode(input: Seq<Seq<char>>, mode: Seq<char>)
    ensures
        summary_of(Seq::empty(), None) is None,
        summary_of(input, Some(mode)) matches Some(s) && json::field(s, "mode"@) == Some(
            Shape::Text(mode),
        ) && (input.len() > 0 ==> json::field(s, "files"@) == Some(
            Shape::List(input.map_values(|p: Seq<char>| input_entry(p))),
        )) && (input.len() == 0 ==> json::field(s, "files"@) is None),
        input.len() > 0 ==> (summary_of(input, None) matches Some(s) && json::field(s, "files"@)
            == Some(Shape::List(input.map_values(|p: Seq<char>| input_entry(p)))) && json::field(
            s,
            "mode"@,
        ) is None),
{
    reveal_strlit("mode");
    reveal_strlit("files");
    assert("mode"@.len() == 4 && "files"@.len() == 5);
    let e = Seq::<(Seq<char>, Shape)>::empty();
    let files = Shape::List(input.map_values(|p: Seq<char>| input_entry(p)));
    let m = Shape::Text(mode);
    let one = e.push(("files"@, files));
    json::added_field_is_held(e, "files"@, files, "mode"@);
    json::added_field_is_held(e, "mode"@, m, "files"@);
    json::added_field_is_held(one, "mode"@, m, "files"@);
    if input.len() > 0 {
        assert(seq![("files"@, files)] + seq![("mode"@, m)] =~= one.push(("mode"@, m)));
        assert(seq![("files"@, files)] + e =~= one);
    } else {
        assert(e + seq![("mode"@, m)] =~= e.push(("mode"@, m)));
    }
}

/// The line on closed runs names each of them; without one there is no such line.
pub proof fn closed_runs_are_named(closed: Seq<Seq<char>>, i: int)
    ensures
        closed.len() == 0 ==> closed_line(closed).len() == 0,
        0 <= i < closed.len() ==> text::occurs_in(closed_line(closed), closed[i]),
{
    reveal_strlit("");
    if 0 <= i < closed.len() {
        let list = text::join_with(closed, ", "@);
        let head = "  auto-closed "@ + number::decimal_of(closed.len())
            + " stale run(s) as abandoned: "@;
        text::join_names_each(closed, ", "@, i);
        text::occurs_in_what_is_made_with_it(list, head, closed[i]);
        text::occurs_in_what_is_made_with_it(head + list, "\n"@, closed[i]);
    }
}

/// A run without a mode loads nothing and is not refused for it; with one it loads what that mode
/// loads.
pub proof fn mode_is_asked_for_or_not(m: String, source: Option<LocalSkill>)
    ensures
        requested_files(None, source) == Ok::<Seq<Seq<char>>, CliErrorView>(Seq::empty()),
        requested_files(Some(m), source) == mode_files_of(m@, source),
{
}

/// The line on the mode of a run names the mode and each file that it loads; without a mode there is
/// no such line.
pub proof fn mode_line_names_the_files(
    head: Seq<char>,
    mode: Seq<char>,
    files: Seq<Seq<char>>,
    i: int,
)
    ensures
        mode_line(head, None, files).len() == 0,
        (head + mode).is_prefix_of(mode_line(head, Some(mode), files)),
        0 <= i < files.len() ==> text::occurs_in(mode_line(head, Some(mode), files), files[i]),
{
    reveal_strlit("");
    let line = mode_line(head, Some(mode), files);
    let start = head + mode;
    assert(start =~= line.subrange(0, start.len() as int));
    if 0 <= i < files.len() {
        let list = text::join_with(files, ", "@);
        let before = start + " — load only: "@;
        text::join_names_each(files, ", "@, i);
        text::occurs_in_what_is_made_with_it(list, before, files[i]);
        text::occurs_in_what_is_made_with_it(before + list, "\n"@, files[i]);
    }
}

/// The line on closed runs says how many there are.
pub proof fn closed_runs_are_counted(closed: Seq<Seq<char>>)
    requires
        closed.len() > 0,
    ensures
        ("  auto-closed "@ + number::decimal_of(closed.len())).is_prefix_of(closed_line(closed)),
{
    let head = "  auto-closed "@ + number::decimal_of(closed.len());
    let line = closed_line(closed);
    assert(head =~= line.subrange(0, head.len() as int));
}

} // verus!
