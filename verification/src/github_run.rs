//! `knack run` in a self-hosted registry.
//!
//! [`step`] decides: from where a run stands and what was just found to where it goes and what to do
//! next. As on the cloud, the mode is resolved before a run is recorded, and a run that is recorded
//! is not failed by anything behind it.
use vstd::prelude::*;

use crate::backend;
use crate::backend::skill_dir;
use crate::errors::{CliError, CliErrorView};
use crate::json;
use crate::json::Shape;
use crate::publish;
use crate::run;
use crate::run::{
    auto_close_disabled, close_outcome, close_requests, closed_text, copy_requests, copy_text,
    copy_texts, mode_text, parse_slug_at_version, requested_mode_files, resolve_push_flag,
    runtime_tag, LocalSkill, MarkRequest, MarkView, RunArgs,
};
use crate::run_state::RecentRuns;
use crate::text;
use crate::text::trim_leading;
use crate::yaml;
use crate::yaml::read_meta_version;

verus! {

/// What is settled before a run is recorded.
#[derive(Debug)]
pub struct Plan {
    pub slug: String,
    pub version: String,
    pub skill_dir: String,
    pub mode_files: Vec<String>,
}

/// What a plan says.
pub struct PlanView {
    pub slug: Seq<char>,
    pub version: Seq<char>,
    pub skill_dir: Seq<char>,
    pub mode_files: Seq<Seq<char>>,
}

impl View for Plan {
    type V = PlanView;

    open spec fn view(&self) -> PlanView {
        PlanView {
            slug: self.slug@,
            version: self.version@,
            skill_dir: self.skill_dir@,
            mode_files: text::texts(self.mode_files@),
        }
    }
}

/// A run that was recorded.
#[derive(Debug)]
pub struct Opened {
    pub plan: Plan,
    pub push: bool,
    pub run_id: String,
    /// The superseded runs that were closed.
    pub closed: Vec<String>,
}

/// What a recorded run says.
pub struct OpenedView {
    pub plan: PlanView,
    pub push: bool,
    pub run_id: Seq<char>,
    pub closed: Seq<Seq<char>>,
}

impl View for Opened {
    type V = OpenedView;

    open spec fn view(&self) -> OpenedView {
        OpenedView {
            plan: self.plan@,
            push: self.push,
            run_id: self.run_id@,
            closed: text::texts(self.closed@),
        }
    }
}

/// Where a run stands: what was asked for last.
#[derive(Debug)]
pub enum GithubRun {
    Inspecting,
    Pushing(Plan),
    Starting(Plan, bool),
    Recording(Opened),
    Marking(Opened, Vec<MarkRequest>),
    Saving(Opened),
    Timing(Opened),
    Done,
}

/// What a state says.
pub enum StateView {
    Inspecting,
    Pushing(PlanView),
    Starting(PlanView, bool),
    Recording(OpenedView),
    Marking(OpenedView, Seq<MarkView>),
    Saving(OpenedView),
    Timing(OpenedView),
    Done,
}

impl View for GithubRun {
    type V = StateView;

    open spec fn view(&self) -> StateView {
        match self {
            GithubRun::Inspecting => StateView::Inspecting,
            GithubRun::Pushing(p) => StateView::Pushing(p@),
            GithubRun::Starting(p, push) => StateView::Starting(p@, *push),
            GithubRun::Recording(o) => StateView::Recording(o@),
            GithubRun::Marking(o, requests) => StateView::Marking(o@, run::mark_views(requests@)),
            GithubRun::Saving(o) => StateView::Saving(o@),
            GithubRun::Timing(o) => StateView::Timing(o@),
            GithubRun::Done => StateView::Done,
        }
    }
}

/// What was found when the last action was carried out.
#[derive(Debug)]
pub enum GithubEvent {
    /// Whether the skill has a directory, the bytes of its `meta.knack.yaml` where there is one to
    /// read, and what it says of its modes.
    Inspected { is_dir: bool, meta: Option<Vec<u8>>, local: Option<LocalSkill> },
    /// Whether telemetry is pushed, or why that cannot be told.
    PushResolved(Result<bool, String>),
    /// The id of the run, or why it could not be recorded.
    Started(Result<String, String>),
    /// The runs on record, the new one among them where it could be recorded.
    Recorded(RecentRuns),
    /// For each request the error with which it failed, if it did.
    Marked(Vec<Option<String>>),
    Saved,
    /// The log file of the day.
    Timed(String),
}

/// A run to record.
#[derive(Debug)]
pub struct RunStart {
    pub slug: String,
    pub version: String,
    pub agent: Option<String>,
    pub inputs: Vec<String>,
    pub mode: Option<String>,
    pub push: bool,
}

/// What to do next.
#[derive(Debug)]
pub enum GithubAction {
    /// Look at the directory of the skill.
    Inspect(String),
    /// Ask the push policy, with what the command line says of it.
    ResolvePush { no_push: bool },
    StartRun(RunStart),
    /// Put the run on record. A record that cannot be written fails nothing.
    Record { run_id: String, slug: String, backend: String },
    /// Make each of the requests, in their order.
    MarkRuns { requests: Vec<MarkRequest>, push: bool },
    /// Tell the warnings, and mark the runs on record.
    SaveMarks { ids: Vec<String>, warnings: Vec<String> },
    /// Tell the log file of the day.
    TellLogFile,
    Finish(Result<(serde_json::Value, String), CliError>),
    /// Nothing is left to do.
    Rest,
}

/// What an action says.
pub enum ActionView {
    Inspect(Seq<char>),
    ResolvePush { no_push: bool },
    StartRun {
        slug: Seq<char>,
        version: Seq<char>,
        agent: Option<Seq<char>>,
        inputs: Seq<Seq<char>>,
        mode: Option<Seq<char>>,
        push: bool,
    },
    Record { run_id: Seq<char>, slug: Seq<char>, backend: Seq<char> },
    MarkRuns { requests: Seq<MarkView>, push: bool },
    SaveMarks { ids: Seq<Seq<char>>, warnings: Seq<Seq<char>> },
    TellLogFile,
    Report { payload: Shape, human: Seq<char> },
    Fail(CliErrorView),
    Rest,
}

impl View for GithubAction {
    type V = ActionView;

    open spec fn view(&self) -> ActionView {
        match self {
            GithubAction::Inspect(dir) => ActionView::Inspect(dir@),
            GithubAction::ResolvePush { no_push } => ActionView::ResolvePush { no_push: *no_push },
            GithubAction::StartRun(s) => ActionView::StartRun {
                slug: s.slug@,
                version: s.version@,
                agent: text::opt_text(s.agent),
                inputs: text::texts(s.inputs@),
                mode: text::opt_text(s.mode),
                push: s.push,
            },
            GithubAction::Record { run_id, slug, backend } => ActionView::Record {
                run_id: run_id@,
                slug: slug@,
                backend: backend@,
            },
            GithubAction::MarkRuns { requests, push } => ActionView::MarkRuns {
                requests: run::mark_views(requests@),
                push: *push,
            },
            GithubAction::SaveMarks { ids, warnings } => ActionView::SaveMarks {
                ids: text::texts(ids@),
                warnings: text::texts(warnings@),
            },
            GithubAction::TellLogFile => ActionView::TellLogFile,
            GithubAction::Finish(Ok(r)) => ActionView::Report {
                payload: json::shape(r.0),
                human: r.1@,
            },
            GithubAction::Finish(Err(e)) => ActionView::Fail(e@),
            GithubAction::Rest => ActionView::Rest,
        }
    }
}

/// The start of a run: the directory of the skill is looked at.
pub open spec fn start_of(args: RunArgs, local_path: Seq<char>) -> (StateView, ActionView) {
    (
        StateView::Inspecting,
        ActionView::Inspect(
            backend::skill_dir_of(local_path, run::slug_at_version(args.slug@).0),
        ),
    )
}

/// The version that a run is recorded under: the one that it is pinned to, or else the one that the
/// registry copy states.
pub open spec fn run_version(pinned: Option<Seq<char>>, meta: Option<Vec<u8>>) -> Seq<char> {
    match pinned {
        Some(v) => text::without_leading(v, 'v'),
        None => yaml::registry_version(publish::opt_bytes(meta)),
    }
}

/// Where a run goes once the directory of the skill was looked at.
pub open spec fn inspected(
    args: RunArgs,
    local_path: Seq<char>,
    is_dir: bool,
    meta: Option<Vec<u8>>,
    local: Option<LocalSkill>,
) -> (StateView, ActionView) {
    let (slug, pinned) = run::slug_at_version(args.slug@);
    if !is_dir {
        (
            StateView::Done,
            ActionView::Fail(
                CliErrorView::NotFound("skill `"@ + slug + "` not found in "@ + local_path),
            ),
        )
    } else {
        match run::requested_files(args.mode, local) {
            Err(e) => (StateView::Done, ActionView::Fail(e)),
            Ok(mode_files) => (
                StateView::Pushing(
                    PlanView {
                        slug,
                        version: run_version(pinned, meta),
                        skill_dir: backend::skill_dir_of(local_path, slug),
                        mode_files,
                    },
                ),
                ActionView::ResolvePush { no_push: args.no_push },
            ),
        }
    }
}

/// What a run reports as JSON.
pub open spec fn payload_of(args: RunArgs, o: OpenedView, log_file: Seq<char>) -> Shape {
    json::object_of(
        seq![
            ("run_id"@, Shape::Text(o.run_id)),
            ("slug"@, Shape::Text(o.plan.slug)),
            ("version"@, Shape::Text(o.plan.version)),
            ("agent"@, Shape::Text(run::runtime_of(args.runtime))),
            ("inputs"@, json::list_of_texts(text::texts(args.input@))),
            ("status"@, Shape::Text("started"@)),
            ("backend"@, Shape::Text("github"@)),
            ("auto_closed"@, json::list_of_texts(o.closed)),
            ("source"@, Shape::Text(o.plan.skill_dir)),
            ("mode"@, json::text_or_null(text::opt_text(args.mode))),
            ("mode_load"@, json::list_of_texts(o.plan.mode_files)),
            ("log_file"@, Shape::Text(log_file)),
        ],
    )
}

/// What a run prints.
pub open spec fn human_of(args: RunArgs, o: OpenedView, log_file: Seq<char>) -> Seq<char> {
    "✓ "@ + o.plan.slug + " run-id: "@ + o.run_id + "\n  source: "@ + o.plan.skill_dir + "\n"@
        + run::mode_line("  mode: "@, text::opt_text(args.mode), o.plan.mode_files)
        + run::closed_line(o.closed) + "  recorded to "@ + log_file
        + "\n\nclose the loop with: knack mark last succeeded   (or `failed --reason …`)\n"@
}

/// A recorded run with the superseded runs that were closed.
pub open spec fn with_closed(o: OpenedView, closed: Seq<Seq<char>>) -> OpenedView {
    OpenedView { plan: o.plan, push: o.push, run_id: o.run_id, closed }
}

/// Where a run goes from a state on what was found, and what it asks for next. `auto_close` is
/// `KNACK_NO_AUTO_CLOSE`. What does not answer what was asked for last changes nothing.
pub open spec fn step_of(
    args: RunArgs,
    local_path: Seq<char>,
    auto_close: Option<Seq<char>>,
    state: StateView,
    event: GithubEvent,
) -> (StateView, ActionView) {
    match (state, event) {
        (StateView::Inspecting, GithubEvent::Inspected { is_dir, meta, local }) => inspected(
            args,
            local_path,
            is_dir,
            meta,
            local,
        ),
        (StateView::Pushing(plan), GithubEvent::PushResolved(r)) => match r {
            Err(e) => (StateView::Done, ActionView::Fail(run::push_error(e@))),
            Ok(push) => (
                StateView::Starting(plan, push),
                ActionView::StartRun {
                    slug: plan.slug,
                    version: plan.version,
                    agent: Some(run::runtime_of(args.runtime)),
                    inputs: text::texts(args.input@),
                    mode: text::opt_text(args.mode),
                    push,
                },
            ),
        },
        (StateView::Starting(plan, push), GithubEvent::Started(r)) => match r {
            Err(e) => (
                StateView::Done,
                ActionView::Fail(CliErrorView::Internal("record run: "@ + e@)),
            ),
            Ok(id) => (
                StateView::Recording(
                    OpenedView { plan, push, run_id: id@, closed: Seq::empty() },
                ),
                ActionView::Record { run_id: id@, slug: plan.slug, backend: "github"@ },
            ),
        },
        (StateView::Recording(o), GithubEvent::Recorded(rec)) => if run::auto_close_off(
            args.keep_open,
            auto_close,
        ) {
            (StateView::Timing(o), ActionView::TellLogFile)
        } else {
            let requests = run::requests_of(rec.entries@, "github"@, o.plan.slug, o.run_id);
            (StateView::Marking(o, requests), ActionView::MarkRuns { requests, push: o.push })
        },
        (StateView::Marking(o, requests), GithubEvent::Marked(outcomes)) => {
            let closed = run::closed_ids(requests, outcomes@);
            (
                StateView::Saving(with_closed(o, closed)),
                ActionView::SaveMarks {
                    ids: closed,
                    warnings: run::warnings_of(requests, outcomes@),
                },
            )
        },
        (StateView::Saving(o), GithubEvent::Saved) => (
            StateView::Timing(o),
            ActionView::TellLogFile,
        ),
        (StateView::Timing(o), GithubEvent::Timed(log_file)) => (
            StateView::Done,
            ActionView::Report {
                payload: payload_of(args, o, log_file@),
                human: human_of(args, o, log_file@),
            },
        ),
        (state, _) => (state, ActionView::Rest),
    }
}

/// The start of a run.
pub fn start(args: &RunArgs, local_path: &str) -> (r: (GithubRun, GithubAction))
    ensures
        (r.0@, r.1@) == start_of(*args, local_path@),
{
    let (slug, _) = parse_slug_at_version(args.slug.as_str());
    (GithubRun::Inspecting, GithubAction::Inspect(skill_dir(local_path, slug)))
}

fn failed(e: CliError) -> (r: (GithubRun, GithubAction))
    ensures
        (r.0@, r.1@) == (StateView::Done, ActionView::Fail(e@)),
{
    (GithubRun::Done, GithubAction::Finish(Err(e)))
}

fn on_inspected(
    args: &RunArgs,
    local_path: &str,
    is_dir: bool,
    meta: &Option<Vec<u8>>,
    local: &Option<LocalSkill>,
) -> (r: (GithubRun, GithubAction))
    ensures
        (r.0@, r.1@) == inspected(*args, local_path@, is_dir, *meta, *local),
{
    let (slug, pinned) = parse_slug_at_version(args.slug.as_str());
    if !is_dir {
        let mut m = "skill `".to_owned();
        m.append(slug);
        m.append("` not found in ");
        m.append(local_path);
        return failed(CliError::NotFound(m));
    }
    let version = match pinned {
        Some(v) => trim_leading(v, 'v').to_owned(),
        None => read_meta_version(meta),
    };
    match requested_mode_files(&args.mode, local) {
        Err(e) => failed(e),
        Ok(mode_files) => {
            let plan = Plan {
                slug: slug.to_owned(),
                version,
                skill_dir: skill_dir(local_path, slug),
                mode_files,
            };
            (GithubRun::Pushing(plan), GithubAction::ResolvePush { no_push: args.no_push })
        },
    }
}

fn payload(args: &RunArgs, o: &Opened, log_file: &str) -> (r: serde_json::Value)
    ensures
        json::shape(r) == payload_of(*args, o@, log_file@),
{
    let agent = runtime_tag(args);
    let fields = vec![
        ("run_id", json::text(o.run_id.as_str())),
        ("slug", json::text(o.plan.slug.as_str())),
        ("version", json::text(o.plan.version.as_str())),
        ("agent", json::text(agent.as_str())),
        ("inputs", json::text_list(&args.input)),
        ("status", json::text("started")),
        ("backend", json::text("github")),
        ("auto_closed", json::text_list(&o.closed)),
        ("source", json::text(o.plan.skill_dir.as_str())),
        ("mode", json::optional_text(&args.mode)),
        ("mode_load", json::text_list(&o.plan.mode_files)),
        ("log_file", json::text(log_file)),
    ];
    proof {
        assert(json::field_shapes(fields@) =~= seq![
            ("run_id"@, Shape::Text(o.run_id@)),
            ("slug"@, Shape::Text(o.plan.slug@)),
            ("version"@, Shape::Text(o.plan.version@)),
            ("agent"@, Shape::Text(run::runtime_of(args.runtime))),
            ("inputs"@, json::list_of_texts(text::texts(args.input@))),
            ("status"@, Shape::Text("started"@)),
            ("backend"@, Shape::Text("github"@)),
            ("auto_closed"@, json::list_of_texts(text::texts(o.closed@))),
            ("source"@, Shape::Text(o.plan.skill_dir@)),
            ("mode"@, json::text_or_null(text::opt_text(args.mode))),
            ("mode_load"@, json::list_of_texts(text::texts(o.plan.mode_files@))),
            ("log_file"@, Shape::Text(log_file@)),
        ]);
    }
    json::object(fields)
}

fn human(args: &RunArgs, o: &Opened, log_file: &str) -> (r: String)
    ensures
        r@ == human_of(*args, o@, log_file@),
{
    let mut s = "✓ ".to_owned();
    s.append(o.plan.slug.as_str());
    s.append(" run-id: ");
    s.append(o.run_id.as_str());
    s.append("\n  source: ");
    s.append(o.plan.skill_dir.as_str());
    s.append("\n");
    let mode = mode_text("  mode: ", &args.mode, &o.plan.mode_files);
    s.append(mode.as_str());
    let closed = closed_text(&o.closed);
    s.append(closed.as_str());
    s.append("  recorded to ");
    s.append(log_file);
    s.append("\n\nclose the loop with: knack mark last succeeded   (or `failed --reason …`)\n");
    s
}

/// One step of a run.
pub fn step(
    args: &RunArgs,
    local_path: &str,
    auto_close: Option<&str>,
    state: GithubRun,
    event: GithubEvent,
) -> (r: (GithubRun, GithubAction))
    ensures
        (r.0@, r.1@) == step_of(*args, local_path@, text::opt_slice(auto_close), state@, event),
{
    match (state, event) {
        (GithubRun::Inspecting, GithubEvent::Inspected { is_dir, meta, local }) => on_inspected(
            args,
            local_path,
            is_dir,
            &meta,
            &local,
        ),
        (GithubRun::Pushing(plan), GithubEvent::PushResolved(r)) => match resolve_push_flag(r) {
            Err(e) => failed(e),
            Ok(push) => {
                let start = RunStart {
                    slug: plan.slug.clone(),
                    version: plan.version.clone(),
                    agent: Some(runtime_tag(args)),
                    inputs: copy_texts(&args.input),
                    mode: copy_text(&args.mode),
                    push,
                };
                (GithubRun::Starting(plan, push), GithubAction::StartRun(start))
            },
        },
        (GithubRun::Starting(plan, push), GithubEvent::Started(r)) => match r {
            Err(e) => {
                let mut m = "record run: ".to_owned();
                m.append(e.as_str());
                failed(CliError::Internal(m))
            },
            Ok(run_id) => {
                let closed: Vec<String> = Vec::new();
                let action = GithubAction::Record {
                    run_id: run_id.clone(),
                    slug: plan.slug.clone(),
                    backend: "github".to_owned(),
                };
                proof {
                    assert(text::texts(closed@) =~= Seq::empty());
                }
                (GithubRun::Recording(Opened { plan, push, run_id, closed }), action)
            },
        },
        (GithubRun::Recording(o), GithubEvent::Recorded(rec)) => {
            if auto_close_disabled(args, auto_close) {
                return (GithubRun::Timing(o), GithubAction::TellLogFile);
            }
            let requests = close_requests(&rec, "github", o.plan.slug.as_str(), o.run_id.as_str());
            let action = GithubAction::MarkRuns {
                requests: copy_requests(&requests),
                push: o.push,
            };
            (GithubRun::Marking(o, requests), action)
        },
        (GithubRun::Marking(o, requests), GithubEvent::Marked(outcomes)) => {
            let (closed, warnings) = close_outcome(&requests, &outcomes);
            let action = GithubAction::SaveMarks { ids: copy_texts(&closed), warnings };
            let o = Opened { plan: o.plan, push: o.push, run_id: o.run_id, closed };
            (GithubRun::Saving(o), action)
        },
        (GithubRun::Saving(o), GithubEvent::Saved) => (
            GithubRun::Timing(o),
            GithubAction::TellLogFile,
        ),
        (GithubRun::Timing(o), GithubEvent::Timed(log_file)) => {
            let value = payload(args, &o, log_file.as_str());
            let text = human(args, &o, log_file.as_str());
            (GithubRun::Done, GithubAction::Finish(Ok((value, text))))
        },
        (state, _) => (state, GithubAction::Rest),
    }
}

/// Where a run stands after the given events, and what it asked for last.
pub open spec fn after(
    args: RunArgs,
    local_path: Seq<char>,
    auto_close: Option<Seq<char>>,
    events: Seq<GithubEvent>,
) -> (StateView, ActionView)
    decreases events.len(),
{
    if events.len() == 0 {
        start_of(args, local_path)
    } else {
        step_of(
            args,
            local_path,
            auto_close,
            after(args, local_path, auto_close, events.drop_last()).0,
            events.last(),
        )
    }
}

/// Whether the skill was found, at some point, with the mode that was asked for.
pub open spec fn mode_was_resolved(args: RunArgs, events: Seq<GithubEvent>) -> bool {
    exists|i: int|
        0 <= i < events.len() && ((#[trigger] events[i]) matches GithubEvent::Inspected {
            is_dir,
            local,
            ..
        } && is_dir && run::requested_files(args.mode, local) is Ok)
}

/// A run is recorded only after its skill was found and its mode resolved.
pub proof fn mode_is_resolved_before_recording(
    args: RunArgs,
    local_path: Seq<char>,
    auto_close: Option<Seq<char>>,
    events: Seq<GithubEvent>,
)
    ensures
        after(args, local_path, auto_close, events).1 is StartRun ==> mode_was_resolved(
            args,
            events,
        ),
        ({
            let at = after(args, local_path, auto_close, events).0;
            at is Inspecting || at is Done || mode_was_resolved(args, events)
        }),
    decreases events.len(),
{
    if events.len() > 0 {
        let t = events.drop_last();
        mode_is_resolved_before_recording(args, local_path, auto_close, t);
        assert(events[events.len() - 1] == events.last());
        if mode_was_resolved(args, t) {
            let i = choose|i: int|
                0 <= i < t.len() && ((#[trigger] t[i]) matches GithubEvent::Inspected {
                    is_dir,
                    local,
                    ..
                } && is_dir && run::requested_files(args.mode, local) is Ok);
            assert(events[i] == t[i]);
        }
    }
}

/// Whether a run is recorded in a state.
pub open spec fn is_open(state: StateView) -> bool {
    state is Recording || state is Marking || state is Saving || state is Timing
}

/// Once a run is recorded it is not failed by anything behind it. A step from it keeps the run or
/// reports it.
pub proof fn recorded_run_never_fails(
    args: RunArgs,
    local_path: Seq<char>,
    auto_close: Option<Seq<char>>,
    state: StateView,
    event: GithubEvent,
)
    requires
        is_open(state),
    ensures
        ({
            let next = step_of(args, local_path, auto_close, state, event);
            is_open(next.0) || next.1 is Report
        }),
        !(step_of(args, local_path, auto_close, state, event).1 is Fail),
        !(step_of(args, local_path, auto_close, state, event).1 is StartRun),
{
}

/// With auto-close disabled no run is closed.
pub proof fn kept_runs_stay_open(
    args: RunArgs,
    local_path: Seq<char>,
    auto_close: Option<Seq<char>>,
    events: Seq<GithubEvent>,
)
    requires
        run::auto_close_off(args.keep_open, auto_close),
    ensures
        !(after(args, local_path, auto_close, events).1 is MarkRuns),
        !(after(args, local_path, auto_close, events).1 is SaveMarks),
        !(after(args, local_path, auto_close, events).0 is Marking),
        !(after(args, local_path, auto_close, events).0 is Saving),
    decreases events.len(),
{
    if events.len() > 0 {
        kept_runs_stay_open(args, local_path, auto_close, events.drop_last());
    }
}

/// A self-hosted run looks at the directory of the skill in the clone, resolves the mode and the
/// push policy, and starts a run of that skill under the version that it is pinned to, a leading `v`
/// aside, or else the one that the registry copy states.
pub proof fn run_is_started_under_its_version(
    args: RunArgs,
    local_path: Seq<char>,
    auto_close: Option<Seq<char>>,
    meta: Option<Vec<u8>>,
    local: Option<LocalSkill>,
    push: bool,
    id: String,
    slug: Seq<char>,
    version: Seq<char>,
)
    requires
        slug.len() > 0,
        version.len() > 0 && version[0] != 'v' && !version.contains('@'),
        args.slug@ == slug + seq!['@'] + version || args.slug@ == slug + seq!['@'] + (seq!['v'] + version),
        run::requested_files(args.mode, local) is Ok,
    ensures
        ({
            let first = start_of(args, local_path);
            let looked = step_of(
                args,
                local_path,
                auto_close,
                first.0,
                GithubEvent::Inspected { is_dir: true, meta, local },
            );
            let resolved = step_of(
                args,
                local_path,
                auto_close,
                looked.0,
                GithubEvent::PushResolved(Ok(push)),
            );
            let started = step_of(
                args,
                local_path,
                auto_close,
                resolved.0,
                GithubEvent::Started(Ok(id)),
            );
            &&& first.1 == ActionView::Inspect(backend::skill_dir_of(local_path, slug))
            &&& looked.1 == (ActionView::ResolvePush { no_push: args.no_push })
            &&& resolved.1 == (ActionView::StartRun {
                slug,
                version,
                agent: Some(
                    match args.runtime {
                        Some(r) => r@,
                        None => "agent"@,
                    },
                ),
                inputs: text::texts(args.input@),
                mode: text::opt_text(args.mode),
                push,
            })
            &&& started.1 == (ActionView::Record { run_id: id@, slug, backend: "github"@ })
        }),
{
    let v = seq!['v'] + version;
    assert(!v.contains('@')) by {
        if v.contains('@') {
            let k = choose|k: int| 0 <= k < v.len() && v[k] == '@';
            assert(k > 0);
            assert(version[k - 1] == '@');
        }
    }
    run::version_stands_behind_the_last_at(slug, version);
    run::version_stands_behind_the_last_at(slug, v);
    reveal_with_fuel(text::without_leading, 2);
    assert(v.skip(1) =~= version);
}

/// A run that is not pinned is started under the version that the registry copy states.
pub proof fn unpinned_run_takes_the_stated_version(meta: Option<Vec<u8>>, bytes: Vec<u8>)
    ensures
        run_version(None, Some(bytes)) == yaml::registry_version(Some(bytes@)),
        run_version(None, None) == "0.0.0"@,
{
}

/// A skill that is not in the clone, a mode that it does not declare, a push policy that cannot be
/// read and a run that cannot be recorded fail the run, and no run is started before them.
pub proof fn run_fails_where_it_cannot_be_started(
    args: RunArgs,
    local_path: Seq<char>,
    auto_close: Option<Seq<char>>,
    meta: Option<Vec<u8>>,
    local: Option<LocalSkill>,
    plan: PlanView,
    push: bool,
    e: String,
)
    ensures
        inspected(args, local_path, false, meta, local).1 matches ActionView::Fail(x) && x is NotFound,
        run::requested_files(args.mode, local) is Err ==> inspected(
            args,
            local_path,
            true,
            meta,
            local,
        ).1 is Fail,
        step_of(
            args,
            local_path,
            auto_close,
            StateView::Pushing(plan),
            GithubEvent::PushResolved(Err(e)),
        ).1 is Fail,
        step_of(
            args,
            local_path,
            auto_close,
            StateView::Starting(plan, push),
            GithubEvent::Started(Err(e)),
        ).1 is Fail,
{
}

/// A started run closes the runs that it supersedes, with the push policy of the run itself, unless
/// that is disabled by the flag or by `1` or `true` in the environment.
pub proof fn started_run_closes_the_others(
    args: RunArgs,
    local_path: Seq<char>,
    auto_close: Option<Seq<char>>,
    o: OpenedView,
    rec: RecentRuns,
)
    ensures
        ({
            let next = step_of(
                args,
                local_path,
                auto_close,
                StateView::Recording(o),
                GithubEvent::Recorded(rec),
            );
            let off = args.keep_open || auto_close == Some("1"@) || auto_close == Some("true"@);
            &&& off ==> next.1 is TellLogFile
            &&& !off ==> next.1 == (ActionView::MarkRuns {
                requests: run::requests_of(rec.entries@, "github"@, o.plan.slug, o.run_id),
                push: o.push,
            })
        }),
{
}

/// The report of a run tells its id, its skill and version, who runs it on what, what was closed for it,
/// where the skill is read, the mode and its files, and the log, each under its own name.
pub proof fn report_tells_the_run(args: RunArgs, o: OpenedView, log_file: Seq<char>)
    ensures
        json::field(payload_of(args, o, log_file), "run_id"@) == Some(Shape::Text(o.run_id)),
        json::field(payload_of(args, o, log_file), "slug"@) == Some(Shape::Text(o.plan.slug)),
        json::field(payload_of(args, o, log_file), "version"@) == Some(Shape::Text(o.plan.version)),
        json::field(payload_of(args, o, log_file), "agent"@) == Some(Shape::Text(run::runtime_of(args.runtime))),
        json::field(payload_of(args, o, log_file), "inputs"@) == Some(json::list_of_texts(text::texts(args.input@))),
        json::field(payload_of(args, o, log_file), "status"@) == Some(Shape::Text("started"@)),
        json::field(payload_of(args, o, log_file), "backend"@) == Some(Shape::Text("github"@)),
        json::field(payload_of(args, o, log_file), "auto_closed"@) == Some(json::list_of_texts(o.closed)),
        json::field(payload_of(args, o, log_file), "source"@) == Some(Shape::Text(o.plan.skill_dir)),
        json::field(payload_of(args, o, log_file), "mode"@) == Some(json::text_or_null(text::opt_text(args.mode))),
        json::field(payload_of(args, o, log_file), "mode_load"@) == Some(json::list_of_texts(o.plan.mode_files)),
        json::field(payload_of(args, o, log_file), "log_file"@) == Some(Shape::Text(log_file)),
{
    reveal_strlit("run_id");
    reveal_strlit("slug");
    reveal_strlit("version");
    reveal_strlit("agent");
    reveal_strlit("inputs");
    reveal_strlit("status");
    reveal_strlit("backend");
    reveal_strlit("auto_closed");
    reveal_strlit("source");
    reveal_strlit("mode");
    reveal_strlit("mode_load");
    reveal_strlit("log_file");
    assert("run_id"@.len() == 6 && "slug"@.len() == 4 && "version"@.len() == 7 && "agent"@.len() == 5 && "inputs"@.len() == 6 && "status"@.len() == 6 && "backend"@.len() == 7 && "auto_closed"@.len() == 11 && "source"@.len() == 6 && "mode"@.len() == 4 && "mode_load"@.len() == 9 && "log_file"@.len() == 8);
    assert("slug"@[0] == 's' && "mode"@[0] == 'm');
    assert("run_id"@[0] == 'r' && "inputs"@[0] == 'i' && "status"@[0] == 's' && "source"@[0] == 's');
    assert("run_id"@[1] == 'u' && "inputs"@[1] == 'n' && "status"@[1] == 't' && "source"@[1] == 'o');
    assert("version"@[0] == 'v' && "backend"@[0] == 'b');
    let f = seq![
        ("run_id"@, Shape::Text(o.run_id)),
        ("slug"@, Shape::Text(o.plan.slug)),
        ("version"@, Shape::Text(o.plan.version)),
        ("agent"@, Shape::Text(run::runtime_of(args.runtime))),
        ("inputs"@, json::list_of_texts(text::texts(args.input@))),
        ("status"@, Shape::Text("started"@)),
        ("backend"@, Shape::Text("github"@)),
        ("auto_closed"@, json::list_of_texts(o.closed)),
        ("source"@, Shape::Text(o.plan.skill_dir)),
        ("mode"@, json::text_or_null(text::opt_text(args.mode))),
        ("mode_load"@, json::list_of_texts(o.plan.mode_files)),
        ("log_file"@, Shape::Text(log_file)),
    ];
    assert(payload_of(args, o, log_file) == json::object_of(f));
    json::field_is_held(f, 0);
    json::field_is_held(f, 1);
    json::field_is_held(f, 2);
    json::field_is_held(f, 3);
    json::field_is_held(f, 4);
    json::field_is_held(f, 5);
    json::field_is_held(f, 6);
    json::field_is_held(f, 7);
    json::field_is_held(f, 8);
    json::field_is_held(f, 9);
    json::field_is_held(f, 10);
    json::field_is_held(f, 11);
}

/// What was closed for a run is saved and reported with it, and what could not be closed is warned
/// of; the log file that is told is the one that is reported.
pub proof fn closed_runs_are_saved_and_reported(
    args: RunArgs,
    local_path: Seq<char>,
    auto_close: Option<Seq<char>>,
    o: OpenedView,
    requests: Seq<MarkView>,
    outcomes: Vec<Option<String>>,
    log_file: String,
)
    ensures
        ({
            let marked = step_of(
                args,
                local_path,
                auto_close,
                StateView::Marking(o, requests),
                GithubEvent::Marked(outcomes),
            );
            let saved = step_of(args, local_path, auto_close, marked.0, GithubEvent::Saved);
            let told = step_of(args, local_path, auto_close, saved.0, GithubEvent::Timed(log_file));
            let closed = run::closed_ids(requests, outcomes@);
            &&& marked.1 == (ActionView::SaveMarks {
                ids: closed,
                warnings: run::warnings_of(requests, outcomes@),
            })
            &&& saved.1 is TellLogFile
            &&& told.1 is Report && json::field(told.1->payload, "auto_closed"@) == Some(
                json::list_of_texts(closed),
            ) && json::field(told.1->payload, "run_id"@) == Some(Shape::Text(o.run_id))
                && json::field(told.1->payload, "log_file"@) == Some(Shape::Text(log_file@))
        }),
{
    report_tells_the_run(
        args,
        with_closed(o, run::closed_ids(requests, outcomes@)),
        log_file@,
    );
}

/// What is printed of a run names its skill, its id, where the skill is read and the log.
pub proof fn run_says_where_it_is_recorded(args: RunArgs, o: OpenedView, log_file: Seq<char>)
    ensures
        text::occurs_in(human_of(args, o, log_file), o.run_id),
        text::occurs_in(human_of(args, o, log_file), "\n  source: "@ + o.plan.skill_dir + "\n"@),
        text::occurs_in(human_of(args, o, log_file), run::closed_line(o.closed)),
        text::occurs_in(human_of(args, o, log_file), "  recorded to "@ + log_file),
{
    let s0 = "✓ "@ + o.plan.slug + " run-id: "@;
    let s1 = s0 + o.run_id;
    let s2 = s1 + "\n  source: "@ + o.plan.skill_dir + "\n"@;
    let source = "\n  source: "@ + o.plan.skill_dir + "\n"@;
    let mode = run::mode_line("  mode: "@, text::opt_text(args.mode), o.plan.mode_files);
    let s3 = s2 + mode;
    let closed = run::closed_line(o.closed);
    let s4 = s3 + closed;
    let s5 = s4 + "  recorded to "@ + log_file;
    let log = "  recorded to "@ + log_file;
    let end = "\n\nclose the loop with: knack mark last succeeded   (or `failed --reason …`)\n"@;
    assert(human_of(args, o, log_file) == s5 + end);
    assert(s2 =~= s1 + source);
    assert(s5 =~= s4 + log);
    text::occurs_in_what_is_made_with_it(o.run_id, s0, o.run_id);
    text::occurs_in_what_is_made_with_it(s1, source, o.run_id);
    text::occurs_in_what_is_made_with_it(s2, mode, o.run_id);
    text::occurs_in_what_is_made_with_it(s3, closed, o.run_id);
    text::occurs_in_what_is_made_with_it(s4, log, o.run_id);
    text::occurs_in_what_is_made_with_it(s5, end, o.run_id);
    text::occurs_in_what_is_made_with_it(source, s1, source);
    text::occurs_in_what_is_made_with_it(s2, mode, source);
    text::occurs_in_what_is_made_with_it(s3, closed, source);
    text::occurs_in_what_is_made_with_it(s4, log, source);
    text::occurs_in_what_is_made_with_it(s5, end, source);
    text::occurs_in_what_is_made_with_it(closed, s3, closed);
    text::occurs_in_what_is_made_with_it(s4, log, closed);
    text::occurs_in_what_is_made_with_it(s5, end, closed);
    text::occurs_in_what_is_made_with_it(log, s4, log);
    text::occurs_in_what_is_made_with_it(s5, end, log);
}

/// A run that looked at its skill plans to read it in the clone, with the files that its mode loads.
pub proof fn plan_is_what_was_looked_at(
    args: RunArgs,
    local_path: Seq<char>,
    meta: Option<Vec<u8>>,
    local: Option<LocalSkill>,
)
    requires
        run::requested_files(args.mode, local) is Ok,
    ensures
        inspected(args, local_path, true, meta, local).0 matches StateView::Pushing(plan) && plan.slug
            == run::slug_at_version(args.slug@).0 && plan.skill_dir == backend::skill_dir_of(
            local_path,
            run::slug_at_version(args.slug@).0,
        ) && plan.mode_files == run::requested_files(args.mode, local)->Ok_0,
{
}

} // verus!
