//! `knack run` on the cloud.
//!
//! [`step`] decides: from where a run stands and what was just found to where it goes and what to do
//! next. The mode is resolved before a run is opened; once a run is open, nothing that goes wrong
//! behind it fails it.
use vstd::prelude::*;

use crate::cloud;
use crate::cloud::{unknown_skill, CloudSkill};
use crate::errors::{CliError, CliErrorView};
use crate::json;
use crate::json::Shape;
use crate::run;
use crate::run::{
    auto_close_disabled, close_outcome, close_requests, closed_text, copy_requests, copy_text,
    copy_texts, inputs_summary, mode_text, parse_slug_at_version, requested_mode_files, runtime_tag,
    LocalSkill, MarkRequest, MarkView, RunArgs,
};
use crate::run_state::RecentRuns;
use crate::text;

verus! {

/// What is settled before a run is opened.
#[derive(Debug)]
pub struct Plan {
    pub slug: String,
    /// The version that the run is pinned to, if any.
    pub version: Option<String>,
    /// The copy of the skill that this machine would read.
    pub source: Option<String>,
    /// The files that the mode loads.
    pub mode_files: Vec<String>,
}

/// What a plan says.
pub struct PlanView {
    pub slug: Seq<char>,
    pub version: Option<Seq<char>>,
    pub source: Option<Seq<char>>,
    pub mode_files: Seq<Seq<char>>,
}

impl View for Plan {
    type V = PlanView;

    open spec fn view(&self) -> PlanView {
        PlanView {
            slug: self.slug@,
            version: text::opt_text(self.version),
            source: text::opt_text(self.source),
            mode_files: text::texts(self.mode_files@),
        }
    }
}

/// The latest version of a skill, and who owns it.
#[derive(Debug)]
pub struct Latest {
    pub semver: String,
    pub owner: Option<String>,
    pub is_team: bool,
}

/// What is known of the latest version.
pub struct LatestView {
    pub semver: Seq<char>,
    pub owner: Option<Seq<char>>,
    pub is_team: bool,
}

/// What is known of the latest version, where anything is.
pub open spec fn latest_view(l: Option<Latest>) -> Option<LatestView> {
    match l {
        Some(l) => Some(
            LatestView {
                semver: l.semver@,
                owner: text::opt_text(l.owner),
                is_team: l.is_team,
            },
        ),
        None => None,
    }
}

/// A run that was opened.
#[derive(Debug)]
pub struct Opened {
    pub plan: Plan,
    pub latest: Option<Latest>,
    pub run_id: String,
    pub skill_version_id: String,
    /// The superseded runs that were closed.
    pub closed: Vec<String>,
}

/// What an opened run says.
pub struct OpenedView {
    pub plan: PlanView,
    pub latest: Option<LatestView>,
    pub run_id: Seq<char>,
    pub skill_version_id: Seq<char>,
    pub closed: Seq<Seq<char>>,
}

impl View for Opened {
    type V = OpenedView;

    open spec fn view(&self) -> OpenedView {
        OpenedView {
            plan: self.plan@,
            latest: latest_view(self.latest),
            run_id: self.run_id@,
            skill_version_id: self.skill_version_id@,
            closed: text::texts(self.closed@),
        }
    }
}

/// Where a run stands: what was asked for last.
#[derive(Debug)]
pub enum CloudRun {
    Finding(Plan),
    Versioning(Plan),
    Starting(Plan, Option<Latest>),
    Recording(Opened),
    Marking(Opened, Vec<MarkRequest>),
    Saving(Opened),
    Checking(Opened),
    Done,
}

/// What a state says.
pub enum StateView {
    Finding(PlanView),
    Versioning(PlanView),
    Starting(PlanView, Option<LatestView>),
    Recording(OpenedView),
    Marking(OpenedView, Seq<MarkView>),
    Saving(OpenedView),
    Checking(OpenedView),
    Done,
}

impl View for CloudRun {
    type V = StateView;

    open spec fn view(&self) -> StateView {
        match self {
            CloudRun::Finding(p) => StateView::Finding(p@),
            CloudRun::Versioning(p) => StateView::Versioning(p@),
            CloudRun::Starting(p, l) => StateView::Starting(p@, latest_view(*l)),
            CloudRun::Recording(o) => StateView::Recording(o@),
            CloudRun::Marking(o, requests) => StateView::Marking(o@, run::mark_views(requests@)),
            CloudRun::Saving(o) => StateView::Saving(o@),
            CloudRun::Checking(o) => StateView::Checking(o@),
            CloudRun::Done => StateView::Done,
        }
    }
}

/// A newer version of a skill that is linked on this machine.
#[derive(Debug)]
pub struct LinkUpdate {
    pub slug: String,
    pub have: String,
    pub latest: String,
    pub author: Option<String>,
    /// How it is told.
    pub line: String,
}

/// What was found when the last action was carried out.
#[derive(Debug)]
pub enum CloudEvent {
    SkillFound(Result<Option<CloudSkill>, CliError>),
    /// The id of the version.
    VersionRead(Result<String, CliError>),
    /// The id of the run, and that of the version that it was pinned to.
    Started(Result<(String, String), CliError>),
    /// The runs on record, the new one among them where it could be recorded.
    Recorded(RecentRuns),
    /// For each request the error with which it failed, if it did.
    Marked(Vec<Option<String>>),
    Saved,
    UpdateChecked(Option<LinkUpdate>),
}

/// A run to open.
#[derive(Debug)]
pub struct RunCreate {
    pub skill_version_id: String,
    pub agent_id: Option<String>,
    pub runtime: Option<String>,
    pub inputs_summary: Option<serde_json::Value>,
}

/// What a run ends with: what is said on the side, what is reported as JSON and what is printed.
#[derive(Debug)]
pub struct RunReport {
    pub chatter: String,
    pub payload: serde_json::Value,
    pub human: String,
}

/// What to do next.
#[derive(Debug)]
pub enum CloudAction {
    FindSkill(String),
    GetVersion { skill_id: String, semver: String },
    StartRun(RunCreate),
    /// Put the run on record. A record that cannot be written fails nothing.
    Record { run_id: String, slug: String, backend: String },
    /// Make each of the requests, in their order.
    MarkRuns(Vec<MarkRequest>),
    /// Tell the warnings, and mark the runs on record.
    SaveMarks { ids: Vec<String>, warnings: Vec<String> },
    /// Look whether the skill is linked at an older version.
    CheckUpdate { slug: String, latest: String, owner: Option<String>, is_team: bool },
    Finish(Result<RunReport, CliError>),
    /// Nothing is left to do.
    Rest,
}

/// What an action says.
pub enum ActionView {
    FindSkill(Seq<char>),
    GetVersion { skill_id: Seq<char>, semver: Seq<char> },
    StartRun {
        skill_version_id: Seq<char>,
        agent_id: Option<Seq<char>>,
        runtime: Option<Seq<char>>,
        inputs_summary: Option<Shape>,
    },
    Record { run_id: Seq<char>, slug: Seq<char>, backend: Seq<char> },
    MarkRuns(Seq<MarkView>),
    SaveMarks { ids: Seq<Seq<char>>, warnings: Seq<Seq<char>> },
    CheckUpdate {
        slug: Seq<char>,
        latest: Seq<char>,
        owner: Option<Seq<char>>,
        is_team: bool,
    },
    Report { chatter: Seq<char>, payload: Shape, human: Seq<char> },
    Fail(CliErrorView),
    Rest,
}

impl View for CloudAction {
    type V = ActionView;

    open spec fn view(&self) -> ActionView {
        match self {
            CloudAction::FindSkill(slug) => ActionView::FindSkill(slug@),
            CloudAction::GetVersion { skill_id, semver } => ActionView::GetVersion {
                skill_id: skill_id@,
                semver: semver@,
            },
            CloudAction::StartRun(c) => ActionView::StartRun {
                skill_version_id: c.skill_version_id@,
                agent_id: text::opt_text(c.agent_id),
                runtime: text::opt_text(c.runtime),
                inputs_summary: run::opt_shape(c.inputs_summary),
            },
            CloudAction::Record { run_id, slug, backend } => ActionView::Record {
                run_id: run_id@,
                slug: slug@,
                backend: backend@,
            },
            CloudAction::MarkRuns(requests) => ActionView::MarkRuns(run::mark_views(requests@)),
            CloudAction::SaveMarks { ids, warnings } => ActionView::SaveMarks {
                ids: text::texts(ids@),
                warnings: text::texts(warnings@),
            },
            CloudAction::CheckUpdate { slug, latest, owner, is_team } => ActionView::CheckUpdate {
                slug: slug@,
                latest: latest@,
                owner: text::opt_text(*owner),
                is_team: *is_team,
            },
            CloudAction::Finish(Ok(r)) => ActionView::Report {
                chatter: r.chatter@,
                payload: json::shape(r.payload),
                human: r.human@,
            },
            CloudAction::Finish(Err(e)) => ActionView::Fail(e@),
            CloudAction::Rest => ActionView::Rest,
        }
    }
}

/// The start of a run: the mode is resolved first, and nothing is asked of the cloud where it does
/// not resolve.
pub open spec fn start_of(args: RunArgs, source: Option<String>, local: Option<LocalSkill>) -> (
    StateView,
    ActionView,
) {
    let (slug, version) = run::slug_at_version(args.slug@);
    match run::requested_files(args.mode, local) {
        Err(e) => (StateView::Done, ActionView::Fail(e)),
        Ok(mode_files) => (
            StateView::Finding(
                PlanView { slug, version, source: text::opt_text(source), mode_files },
            ),
            ActionView::FindSkill(slug),
        ),
    }
}

/// Opening a run that is pinned to a version.
pub open spec fn open_run(
    args: RunArgs,
    plan: PlanView,
    latest: Option<LatestView>,
    version_id: Seq<char>,
) -> (StateView, ActionView) {
    (
        StateView::Starting(plan, latest),
        ActionView::StartRun {
            skill_version_id: version_id,
            agent_id: text::opt_text(args.agent_id),
            runtime: Some(run::runtime_of(args.runtime)),
            inputs_summary: run::summary_of(text::texts(args.input@), text::opt_text(args.mode)),
        },
    )
}

/// What is known of the latest version of a skill.
pub open spec fn latest_of(skill: CloudSkill) -> Option<LatestView> {
    match skill.current_version_semver {
        Some(semver) => Some(
            LatestView {
                semver: semver@,
                owner: text::opt_text(skill.owner_username),
                is_team: skill.owner_team_id is Some,
            },
        ),
        None => None,
    }
}

/// Where a run goes once the cloud told the skill.
pub open spec fn found(args: RunArgs, plan: PlanView, r: Result<Option<CloudSkill>, CliError>) -> (
    StateView,
    ActionView,
) {
    match r {
        Err(e) => (StateView::Done, ActionView::Fail(e@)),
        Ok(None) => (StateView::Done, ActionView::Fail(cloud::unknown_skill_error(plan.slug))),
        Ok(Some(skill)) => match plan.version {
            Some(semver) => (
                StateView::Versioning(plan),
                ActionView::GetVersion { skill_id: skill.id@, semver },
            ),
            None => match skill.current_version_id {
                Some(id) => open_run(args, plan, latest_of(skill), id@),
                None => (
                    StateView::Done,
                    ActionView::Fail(
                        CliErrorView::NotFound(
                            "skill `"@ + plan.slug + "` has no published version"@,
                        ),
                    ),
                ),
            },
        },
    }
}

/// Where a run goes once the cloud told the version that it is pinned to.
pub open spec fn version_read(args: RunArgs, plan: PlanView, r: Result<String, CliError>) -> (
    StateView,
    ActionView,
) {
    match r {
        Ok(id) => open_run(args, plan, None, id@),
        Err(CliError::NotFound(_)) => (
            StateView::Done,
            ActionView::Fail(
                CliErrorView::NotFound(
                    "skill `"@ + plan.slug + "` has no version `"@ + (match plan.version {
                        Some(v) => v,
                        None => Seq::empty(),
                    }) + "`"@,
                ),
            ),
        ),
        Err(e) => (StateView::Done, ActionView::Fail(e@)),
    }
}

/// Where a run goes behind the runs that it supersedes: a newer version is looked for only where the
/// run is not pinned and the cloud told a latest version.
pub open spec fn past_closing(args: RunArgs, o: OpenedView) -> (StateView, ActionView) {
    match o.latest {
        Some(l) => (
            StateView::Checking(o),
            ActionView::CheckUpdate {
                slug: o.plan.slug,
                latest: l.semver,
                owner: l.owner,
                is_team: l.is_team,
            },
        ),
        None => (StateView::Done, report_of(args, o, None)),
    }
}

/// What is said on the side.
pub open spec fn chatter_of(args: RunArgs) -> Seq<char> {
    "run registered · skill="@ + args.slug@ + " · runtime="@ + run::runtime_of(args.runtime)
        + " — execute the skill, then `knack mark last succeeded` (or `failed --note \"…\"`)"@
}

/// A newer version as an entry of the payload.
pub open spec fn update_shape(update: Option<LinkUpdate>) -> Shape {
    match update {
        Some(u) => json::object_of(
            seq![
                ("slug"@, Shape::Text(u.slug@)),
                ("have"@, Shape::Text(u.have@)),
                ("latest"@, Shape::Text(u.latest@)),
                ("author"@, json::text_or_null(text::opt_text(u.author))),
            ],
        ),
        None => Shape::Null,
    }
}

/// What a run reports as JSON.
pub open spec fn payload_of(args: RunArgs, o: OpenedView, update: Option<LinkUpdate>) -> Shape {
    json::object_of(
        seq![
            ("run_id"@, Shape::Text(o.run_id)),
            ("skill_version_id"@, Shape::Text(o.skill_version_id)),
            ("runtime"@, Shape::Text(run::runtime_of(args.runtime))),
            ("auto_closed"@, json::list_of_texts(o.closed)),
            ("source"@, json::text_or_null(o.plan.source)),
            ("mode"@, json::text_or_null(text::opt_text(args.mode))),
            ("mode_load"@, json::list_of_texts(o.plan.mode_files)),
            ("update_available"@, update_shape(update)),
        ],
    )
}

/// What a run prints.
pub open spec fn human_of(args: RunArgs, o: OpenedView, update: Option<LinkUpdate>) -> Seq<char> {
    "✓ run registered · "@ + o.run_id + "\n"@ + run::closed_line(o.closed) + (
    match o.plan.source {
        Some(p) => "  next: read "@ + p,
        None => "  next: read ~/.knack/skills/"@ + args.slug@,
    }) + "/SKILL.md and do the work yourself,\n"@ + run::mode_line(
        "        mode: "@,
        text::opt_text(args.mode),
        o.plan.mode_files,
    ) + "        then `knack mark last succeeded` (or `failed --note \"…\"`).\n"@ + (match update {
        Some(u) => "  ⚠ "@ + u.line@ + "\n"@,
        None => ""@,
    })
}

/// What a run ends with.
pub open spec fn report_of(args: RunArgs, o: OpenedView, update: Option<LinkUpdate>) -> ActionView {
    ActionView::Report {
        chatter: chatter_of(args),
        payload: payload_of(args, o, update),
        human: human_of(args, o, update),
    }
}

/// An opened run with the superseded runs that were closed.
pub open spec fn with_closed(o: OpenedView, closed: Seq<Seq<char>>) -> OpenedView {
    OpenedView {
        plan: o.plan,
        latest: o.latest,
        run_id: o.run_id,
        skill_version_id: o.skill_version_id,
        closed,
    }
}

/// Where a run goes from a state on what was found, and what it asks for next. `auto_close` is
/// `KNACK_NO_AUTO_CLOSE`. What does not answer what was asked for last changes nothing.
pub open spec fn step_of(
    args: RunArgs,
    auto_close: Option<Seq<char>>,
    state: StateView,
    event: CloudEvent,
) -> (StateView, ActionView) {
    match (state, event) {
        (StateView::Finding(plan), CloudEvent::SkillFound(r)) => found(args, plan, r),
        (StateView::Versioning(plan), CloudEvent::VersionRead(r)) => version_read(args, plan, r),
        (StateView::Starting(plan, latest), CloudEvent::Started(r)) => match r {
            Ok(ids) => (
                StateView::Recording(
                    OpenedView {
                        plan,
                        latest,
                        run_id: ids.0@,
                        skill_version_id: ids.1@,
                        closed: Seq::empty(),
                    },
                ),
                ActionView::Record { run_id: ids.0@, slug: plan.slug, backend: "cloud"@ },
            ),
            Err(e) => (StateView::Done, ActionView::Fail(e@)),
        },
        (StateView::Recording(o), CloudEvent::Recorded(rec)) => if run::auto_close_off(
            args.keep_open,
            auto_close,
        ) {
            past_closing(args, o)
        } else {
            let requests = run::requests_of(rec.entries@, "cloud"@, o.plan.slug, o.run_id);
            (StateView::Marking(o, requests), ActionView::MarkRuns(requests))
        },
        (StateView::Marking(o, requests), CloudEvent::Marked(outcomes)) => {
            let closed = run::closed_ids(requests, outcomes@);
            (
                StateView::Saving(with_closed(o, closed)),
                ActionView::SaveMarks {
                    ids: closed,
                    warnings: run::warnings_of(requests, outcomes@),
                },
            )
        },
        (StateView::Saving(o), CloudEvent::Saved) => past_closing(args, o),
        (StateView::Checking(o), CloudEvent::UpdateChecked(update)) => (
            StateView::Done,
            report_of(args, o, update),
        ),
        (state, _) => (state, ActionView::Rest),
    }
}

fn failed(e: CliError) -> (r: (CloudRun, CloudAction))
    ensures
        (r.0@, r.1@) == (StateView::Done, ActionView::Fail(e@)),
{
    (CloudRun::Done, CloudAction::Finish(Err(e)))
}

/// The start of a run. `source` is the copy of the skill that this machine would read, and `local`
/// what it says of its modes.
pub fn start(args: &RunArgs, source: Option<String>, local: &Option<LocalSkill>) -> (r: (
    CloudRun,
    CloudAction,
))
    ensures
        (r.0@, r.1@) == start_of(*args, source, *local),
{
    let (slug, version) = parse_slug_at_version(args.slug.as_str());
    let mode_files = match requested_mode_files(&args.mode, local) {
        Ok(files) => files,
        Err(e) => {
            return failed(e);
        },
    };
    let version = match version {
        Some(v) => Some(v.to_owned()),
        None => None,
    };
    let plan = Plan { slug: slug.to_owned(), version, source, mode_files };
    (CloudRun::Finding(plan), CloudAction::FindSkill(slug.to_owned()))
}

fn open(args: &RunArgs, plan: Plan, latest: Option<Latest>, version_id: String) -> (r: (
    CloudRun,
    CloudAction,
))
    ensures
        (r.0@, r.1@) == open_run(*args, plan@, latest_view(latest), version_id@),
{
    let create = RunCreate {
        skill_version_id: version_id,
        agent_id: copy_text(&args.agent_id),
        runtime: Some(runtime_tag(args)),
        inputs_summary: inputs_summary(&args.input, &args.mode),
    };
    (CloudRun::Starting(plan, latest), CloudAction::StartRun(create))
}

fn latest_known(skill: &CloudSkill) -> (r: Option<Latest>)
    ensures
        latest_view(r) == latest_of(*skill),
{
    match &skill.current_version_semver {
        Some(semver) => Some(
            Latest {
                semver: semver.clone(),
                owner: copy_text(&skill.owner_username),
                is_team: skill.owner_team_id.is_some(),
            },
        ),
        None => None,
    }
}

fn on_found(args: &RunArgs, plan: Plan, r: Result<Option<CloudSkill>, CliError>) -> (next: (
    CloudRun,
    CloudAction,
))
    ensures
        (next.0@, next.1@) == found(*args, plan@, r),
{
    let skill = match r {
        Err(e) => {
            return failed(e);
        },
        Ok(None) => {
            return failed(unknown_skill(plan.slug.as_str()));
        },
        Ok(Some(skill)) => skill,
    };
    if let Some(semver) = &plan.version {
        let action = CloudAction::GetVersion { skill_id: skill.id, semver: semver.clone() };
        return (CloudRun::Versioning(plan), action);
    }
    let latest = latest_known(&skill);
    match skill.current_version_id {
        Some(id) => open(args, plan, latest, id),
        None => {
            let mut m = "skill `".to_owned();
            m.append(plan.slug.as_str());
            m.append("` has no published version");
            failed(CliError::NotFound(m))
        },
    }
}

fn on_version(args: &RunArgs, plan: Plan, r: Result<String, CliError>) -> (next: (
    CloudRun,
    CloudAction,
))
    ensures
        (next.0@, next.1@) == version_read(*args, plan@, r),
{
    match r {
        Ok(id) => open(args, plan, None, id),
        Err(CliError::NotFound(_)) => {
            let mut m = "skill `".to_owned();
            m.append(plan.slug.as_str());
            m.append("` has no version `");
            match &plan.version {
                Some(v) => {
                    m.append(v.as_str());
                },
                None => {
                    let none = String::new();
                    proof {
                        assert(none@ =~= Seq::empty());
                    }
                    m.append(none.as_str());
                },
            }
            m.append("`");
            failed(CliError::NotFound(m))
        },
        Err(e) => failed(e),
    }
}

fn update_value(update: &Option<LinkUpdate>) -> (r: serde_json::Value)
    ensures
        json::shape(r) == update_shape(*update),
{
    match update {
        Some(u) => {
            let fields = vec![
                ("slug", json::text(u.slug.as_str())),
                ("have", json::text(u.have.as_str())),
                ("latest", json::text(u.latest.as_str())),
                ("author", json::optional_text(&u.author)),
            ];
            proof {
                assert(json::field_shapes(fields@) =~= seq![
                    ("slug"@, Shape::Text(u.slug@)),
                    ("have"@, Shape::Text(u.have@)),
                    ("latest"@, Shape::Text(u.latest@)),
                    ("author"@, json::text_or_null(text::opt_text(u.author))),
                ]);
            }
            json::object(fields)
        },
        None => json::null(),
    }
}

fn payload(args: &RunArgs, o: &Opened, update: &Option<LinkUpdate>) -> (r: serde_json::Value)
    ensures
        json::shape(r) == payload_of(*args, o@, *update),
{
    let runtime = runtime_tag(args);
    let fields = vec![
        ("run_id", json::text(o.run_id.as_str())),
        ("skill_version_id", json::text(o.skill_version_id.as_str())),
        ("runtime", json::text(runtime.as_str())),
        ("auto_closed", json::text_list(&o.closed)),
        ("source", json::optional_text(&o.plan.source)),
        ("mode", json::optional_text(&args.mode)),
        ("mode_load", json::text_list(&o.plan.mode_files)),
        ("update_available", update_value(update)),
    ];
    proof {
        assert(json::field_shapes(fields@) =~= seq![
            ("run_id"@, Shape::Text(o.run_id@)),
            ("skill_version_id"@, Shape::Text(o.skill_version_id@)),
            ("runtime"@, Shape::Text(run::runtime_of(args.runtime))),
            ("auto_closed"@, json::list_of_texts(text::texts(o.closed@))),
            ("source"@, json::text_or_null(text::opt_text(o.plan.source))),
            ("mode"@, json::text_or_null(text::opt_text(args.mode))),
            ("mode_load"@, json::list_of_texts(text::texts(o.plan.mode_files@))),
            ("update_available"@, update_shape(*update)),
        ]);
    }
    json::object(fields)
}

fn human(args: &RunArgs, o: &Opened, update: &Option<LinkUpdate>) -> (r: String)
    ensures
        r@ == human_of(*args, o@, *update),
{
    let mut s = "✓ run registered · ".to_owned();
    s.append(o.run_id.as_str());
    s.append("\n");
    let closed = closed_text(&o.closed);
    s.append(closed.as_str());
    let mut next = "  next: read ".to_owned();
    match &o.plan.source {
        Some(p) => {
            next.append(p.as_str());
        },
        None => {
            next = "  next: read ~/.knack/skills/".to_owned();
            next.append(args.slug.as_str());
        },
    }
    s.append(next.as_str());
    s.append("/SKILL.md and do the work yourself,\n");
    let mode = mode_text("        mode: ", &args.mode, &o.plan.mode_files);
    s.append(mode.as_str());
    s.append("        then `knack mark last succeeded` (or `failed --note \"…\"`).\n");
    match update {
        Some(u) => {
            let mut line = "  ⚠ ".to_owned();
            line.append(u.line.as_str());
            line.append("\n");
            s.append(line.as_str());
        },
        None => {
            s.append("");
        },
    }
    s
}

fn report(args: &RunArgs, o: &Opened, update: &Option<LinkUpdate>) -> (r: CloudAction)
    ensures
        r@ == report_of(*args, o@, *update),
{
    let mut chatter = "run registered · skill=".to_owned();
    chatter.append(args.slug.as_str());
    chatter.append(" · runtime=");
    let runtime = runtime_tag(args);
    chatter.append(runtime.as_str());
    chatter.append(
        " — execute the skill, then `knack mark last succeeded` (or `failed --note \"…\"`)",
    );
    CloudAction::Finish(
        Ok(RunReport { chatter, payload: payload(args, o, update), human: human(args, o, update) }),
    )
}

fn behind_closing(args: &RunArgs, o: Opened) -> (r: (CloudRun, CloudAction))
    ensures
        (r.0@, r.1@) == past_closing(*args, o@),
{
    let action = match &o.latest {
        Some(l) => CloudAction::CheckUpdate {
            slug: o.plan.slug.clone(),
            latest: l.semver.clone(),
            owner: copy_text(&l.owner),
            is_team: l.is_team,
        },
        None => {
            return (CloudRun::Done, report(args, &o, &None));
        },
    };
    (CloudRun::Checking(o), action)
}

/// One step of a run.
pub fn step(args: &RunArgs, auto_close: Option<&str>, state: CloudRun, event: CloudEvent) -> (r: (
    CloudRun,
    CloudAction,
))
    ensures
        (r.0@, r.1@) == step_of(*args, text::opt_slice(auto_close), state@, event),
{
    match (state, event) {
        (CloudRun::Finding(plan), CloudEvent::SkillFound(r)) => on_found(args, plan, r),
        (CloudRun::Versioning(plan), CloudEvent::VersionRead(r)) => on_version(args, plan, r),
        (CloudRun::Starting(plan, latest), CloudEvent::Started(r)) => match r {
            Ok((run_id, skill_version_id)) => {
                let closed: Vec<String> = Vec::new();
                let action = CloudAction::Record {
                    run_id: run_id.clone(),
                    slug: plan.slug.clone(),
                    backend: "cloud".to_owned(),
                };
                proof {
                    assert(text::texts(closed@) =~= Seq::empty());
                }
                (
                    CloudRun::Recording(Opened { plan, latest, run_id, skill_version_id, closed }),
                    action,
                )
            },
            Err(e) => failed(e),
        },
        (CloudRun::Recording(o), CloudEvent::Recorded(rec)) => {
            if auto_close_disabled(args, auto_close) {
                return behind_closing(args, o);
            }
            let requests = close_requests(&rec, "cloud", o.plan.slug.as_str(), o.run_id.as_str());
            let action = CloudAction::MarkRuns(copy_requests(&requests));
            (CloudRun::Marking(o, requests), action)
        },
        (CloudRun::Marking(o, requests), CloudEvent::Marked(outcomes)) => {
            let (closed, warnings) = close_outcome(&requests, &outcomes);
            let action = CloudAction::SaveMarks { ids: copy_texts(&closed), warnings };
            let o = Opened {
                plan: o.plan,
                latest: o.latest,
                run_id: o.run_id,
                skill_version_id: o.skill_version_id,
                closed,
            };
            (CloudRun::Saving(o), action)
        },
        (CloudRun::Saving(o), CloudEvent::Saved) => behind_closing(args, o),
        (CloudRun::Checking(o), CloudEvent::UpdateChecked(update)) => (
            CloudRun::Done,
            report(args, &o, &update),
        ),
        (state, _) => (state, CloudAction::Rest),
    }
}

/// Where a run stands after the given events, and what it asked for last.
pub open spec fn after(
    args: RunArgs,
    source: Option<String>,
    local: Option<LocalSkill>,
    auto_close: Option<Seq<char>>,
    events: Seq<CloudEvent>,
) -> (StateView, ActionView)
    decreases events.len(),
{
    if events.len() == 0 {
        start_of(args, source, local)
    } else {
        step_of(
            args,
            auto_close,
            after(args, source, local, auto_close, events.drop_last()).0,
            events.last(),
        )
    }
}

/// A run is never opened under a mode that the skill does not declare: where the mode does not
/// resolve, nothing is ever asked for.
pub proof fn unknown_mode_opens_no_run(
    args: RunArgs,
    source: Option<String>,
    local: Option<LocalSkill>,
    auto_close: Option<Seq<char>>,
    events: Seq<CloudEvent>,
)
    requires
        run::requested_files(args.mode, local) is Err,
    ensures
        after(args, source, local, auto_close, events).0 is Done,
        events.len() == 0 ==> after(args, source, local, auto_close, events).1 is Fail,
        events.len() > 0 ==> after(args, source, local, auto_close, events).1 is Rest,
    decreases events.len(),
{
    if events.len() > 0 {
        unknown_mode_opens_no_run(args, source, local, auto_close, events.drop_last());
    }
}

/// Whether a run is open in a state.
pub open spec fn is_open(state: StateView) -> bool {
    state is Recording || state is Marking || state is Saving || state is Checking
}

/// Once a run is open it is not failed by anything behind it: not by a record that cannot be
/// written, not by a superseded run that cannot be closed. A step from it keeps the run open or
/// reports it.
pub proof fn open_run_never_fails(
    args: RunArgs,
    auto_close: Option<Seq<char>>,
    state: StateView,
    event: CloudEvent,
)
    requires
        is_open(state),
    ensures
        ({
            let next = step_of(args, auto_close, state, event);
            is_open(next.0) || next.1 is Report
        }),
        !(step_of(args, auto_close, state, event).1 is Fail),
        !(step_of(args, auto_close, state, event).1 is StartRun),
{
}

/// With auto-close disabled no run is closed.
pub proof fn kept_runs_stay_open(
    args: RunArgs,
    source: Option<String>,
    local: Option<LocalSkill>,
    auto_close: Option<Seq<char>>,
    events: Seq<CloudEvent>,
)
    requires
        run::auto_close_off(args.keep_open, auto_close),
    ensures
        !(after(args, source, local, auto_close, events).1 is MarkRuns),
        !(after(args, source, local, auto_close, events).1 is SaveMarks),
        !(after(args, source, local, auto_close, events).0 is Marking),
        !(after(args, source, local, auto_close, events).0 is Saving),
    decreases events.len(),
{
    if events.len() > 0 {
        kept_runs_stay_open(args, source, local, auto_close, events.drop_last());
    }
}

/// A run that is pinned to a version never looks for a newer one.
pub proof fn pinned_run_checks_no_update(
    args: RunArgs,
    source: Option<String>,
    local: Option<LocalSkill>,
    auto_close: Option<Seq<char>>,
    events: Seq<CloudEvent>,
)
    requires
        run::slug_at_version(args.slug@).1 is Some,
    ensures
        !(after(args, source, local, auto_close, events).1 is CheckUpdate),
        !(after(args, source, local, auto_close, events).0 is Checking),
        after(args, source, local, auto_close, events).0 matches StateView::Finding(p)
            ==> p.version is Some,
        after(args, source, local, auto_close, events).0 matches StateView::Starting(_, l) ==> l
            is None,
        after(args, source, local, auto_close, events).0 matches StateView::Recording(o)
            ==> o.latest is None,
        after(args, source, local, auto_close, events).0 matches StateView::Marking(o, _)
            ==> o.latest is None,
        after(args, source, local, auto_close, events).0 matches StateView::Saving(o) ==> o.latest
            is None,
    decreases events.len(),
{
    if events.len() > 0 {
        pinned_run_checks_no_update(args, source, local, auto_close, events.drop_last());
    }
}

/// A run on the cloud asks for the skill, opens a run of its current version, records it and reports
/// it; a pinned run asks for the version that it is pinned to and opens that one.
pub proof fn run_opens_the_version_asked_for(
    args: RunArgs,
    plan: PlanView,
    skill: CloudSkill,
    id: String,
)
    ensures
        ({
            let next = found(args, plan, Ok(Some(skill)));
            let opens = |version_id: Seq<char>|
                ActionView::StartRun {
                    skill_version_id: version_id,
                    agent_id: text::opt_text(args.agent_id),
                    runtime: Some(
                        match args.runtime {
                            Some(r) => r@,
                            None => "agent"@,
                        },
                    ),
                    inputs_summary: run::summary_of(
                        text::texts(args.input@),
                        text::opt_text(args.mode),
                    ),
                };
            &&& plan.version matches Some(v) ==> next.1 == (ActionView::GetVersion {
                skill_id: skill.id@,
                semver: v,
            })
            &&& plan.version is None && skill.current_version_id is Some ==> next.1 == opens(
                skill.current_version_id->0@,
            )
            &&& plan.version is None && skill.current_version_id is None ==> (next.1 matches
                ActionView::Fail(e) && e is NotFound)
            &&& version_read(args, plan, Ok(id)).1 == opens(id@)
            &&& found(args, plan, Ok(None)).1 matches ActionView::Fail(e) && e is NotFound
        }),
{
}

/// An opened run is recorded under its own id, its skill and the cloud; the superseded runs of that
/// skill are closed, unless that is disabled by the flag or by `1` or `true` in the environment.
pub proof fn opened_run_is_recorded_and_others_closed(
    args: RunArgs,
    auto_close: Option<Seq<char>>,
    plan: PlanView,
    latest: Option<LatestView>,
    ids: (String, String),
    rec: RecentRuns,
)
    ensures
        ({
            let opened = step_of(
                args,
                auto_close,
                StateView::Starting(plan, latest),
                CloudEvent::Started(Ok(ids)),
            );
            let recorded = step_of(args, auto_close, opened.0, CloudEvent::Recorded(rec));
            &&& opened.1 == (ActionView::Record {
                run_id: ids.0@,
                slug: plan.slug,
                backend: "cloud"@,
            })
            &&& opened.0 is Recording && opened.0->Recording_0.run_id == ids.0@
                && opened.0->Recording_0.skill_version_id == ids.1@
            &&& (args.keep_open || auto_close == Some("1"@) || auto_close == Some("true"@)) ==> !(
            recorded.1 is MarkRuns)
            &&& !(args.keep_open || auto_close == Some("1"@) || auto_close == Some("true"@))
                ==> recorded.1 == ActionView::MarkRuns(
                run::requests_of(rec.entries@, "cloud"@, plan.slug, ids.0@),
            )
        }),
{
}

/// What is asked of the cloud first is the skill that was named, without the version that it is
/// pinned to, once the mode that was asked for resolved.
pub proof fn named_skill_is_asked_for(
    args: RunArgs,
    source: Option<String>,
    local: Option<LocalSkill>,
    slug: Seq<char>,
    version: Seq<char>,
)
    requires
        slug.len() > 0,
        !version.contains('@'),
        args.slug@ == slug + seq!['@'] + version,
        run::requested_files(args.mode, local) is Ok,
    ensures
        start_of(args, source, local).1 == ActionView::FindSkill(slug),
        start_of(args, source, local).0 matches StateView::Finding(p) && p.slug == slug && p.version
            == Some(version),
{
    run::version_stands_behind_the_last_at(slug, version);
}

/// The report of a run tells its id, its version, who runs it, what was closed for it, where the skill is
/// read, the mode and its files, and a newer version, each under its own name.
pub proof fn report_tells_the_run(args: RunArgs, o: OpenedView, update: Option<LinkUpdate>)
    ensures
        json::field(payload_of(args, o, update), "run_id"@) == Some(Shape::Text(o.run_id)),
        json::field(payload_of(args, o, update), "skill_version_id"@) == Some(Shape::Text(o.skill_version_id)),
        json::field(payload_of(args, o, update), "runtime"@) == Some(Shape::Text(run::runtime_of(args.runtime))),
        json::field(payload_of(args, o, update), "auto_closed"@) == Some(json::list_of_texts(o.closed)),
        json::field(payload_of(args, o, update), "source"@) == Some(json::text_or_null(o.plan.source)),
        json::field(payload_of(args, o, update), "mode"@) == Some(json::text_or_null(text::opt_text(args.mode))),
        json::field(payload_of(args, o, update), "mode_load"@) == Some(json::list_of_texts(o.plan.mode_files)),
        json::field(payload_of(args, o, update), "update_available"@) == Some(update_shape(update)),
{
    reveal_strlit("run_id");
    reveal_strlit("skill_version_id");
    reveal_strlit("runtime");
    reveal_strlit("auto_closed");
    reveal_strlit("source");
    reveal_strlit("mode");
    reveal_strlit("mode_load");
    reveal_strlit("update_available");
    assert("run_id"@.len() == 6 && "skill_version_id"@.len() == 16 && "runtime"@.len() == 7 && "auto_closed"@.len() == 11 && "source"@.len() == 6 && "mode"@.len() == 4 && "mode_load"@.len() == 9 && "update_available"@.len() == 16);
    assert("run_id"@[0] == 'r' && "source"@[0] == 's');
    assert("skill_version_id"@[0] == 's' && "update_available"@[0] == 'u');
    let f = seq![
        ("run_id"@, Shape::Text(o.run_id)),
        ("skill_version_id"@, Shape::Text(o.skill_version_id)),
        ("runtime"@, Shape::Text(run::runtime_of(args.runtime))),
        ("auto_closed"@, json::list_of_texts(o.closed)),
        ("source"@, json::text_or_null(o.plan.source)),
        ("mode"@, json::text_or_null(text::opt_text(args.mode))),
        ("mode_load"@, json::list_of_texts(o.plan.mode_files)),
        ("update_available"@, update_shape(update)),
    ];
    assert(payload_of(args, o, update) == json::object_of(f));
    json::field_is_held(f, 0);
    json::field_is_held(f, 1);
    json::field_is_held(f, 2);
    json::field_is_held(f, 3);
    json::field_is_held(f, 4);
    json::field_is_held(f, 5);
    json::field_is_held(f, 6);
    json::field_is_held(f, 7);
}

/// A run that is not pinned keeps what the cloud told of the latest version, and looks for a newer
/// one of the skill with just that; a version that is not there is not found, and another error of
/// the cloud is passed on.
pub proof fn latest_version_is_what_the_cloud_told(
    args: RunArgs,
    plan: PlanView,
    skill: CloudSkill,
    o: OpenedView,
    l: LatestView,
    m: String,
)
    requires
        plan.version is None,
        skill.current_version_id is Some,
    ensures
        found(args, plan, Ok(Some(skill))).0 matches StateView::Starting(p, latest) && p == plan && (
        match skill.current_version_semver {
            Some(v) => latest matches Some(x) && x.semver == v@ && x.owner == text::opt_text(
                skill.owner_username,
            ) && (x.is_team <==> skill.owner_team_id is Some),
            None => latest is None,
        }),
        o.latest == Some(l) ==> past_closing(args, o).1 == (ActionView::CheckUpdate {
            slug: o.plan.slug,
            latest: l.semver,
            owner: l.owner,
            is_team: l.is_team,
        }),
        o.latest is None ==> past_closing(args, o).1 == report_of(args, o, None),
        version_read(args, plan, Err(CliError::NotFound(m))).1 matches ActionView::Fail(e) && e
            is NotFound,
        version_read(args, plan, Err(CliError::Internal(m))).1 == ActionView::Fail(
            CliErrorView::Internal(m@),
        ),
{
}

/// What was closed for a run is saved and reported with it, and what could not be closed is warned
/// of.
pub proof fn closed_runs_are_saved_and_reported(
    args: RunArgs,
    auto_close: Option<Seq<char>>,
    o: OpenedView,
    requests: Seq<MarkView>,
    outcomes: Vec<Option<String>>,
)
    requires
        o.latest is None,
    ensures
        ({
            let marked = step_of(
                args,
                auto_close,
                StateView::Marking(o, requests),
                CloudEvent::Marked(outcomes),
            );
            let saved = step_of(args, auto_close, marked.0, CloudEvent::Saved);
            let closed = run::closed_ids(requests, outcomes@);
            &&& marked.1 == (ActionView::SaveMarks {
                ids: closed,
                warnings: run::warnings_of(requests, outcomes@),
            })
            &&& saved.1 is Report && json::field(saved.1->payload, "auto_closed"@) == Some(
                json::list_of_texts(closed),
            ) && json::field(saved.1->payload, "run_id"@) == Some(Shape::Text(o.run_id))
        }),
{
    report_tells_the_run(args, with_closed(o, run::closed_ids(requests, outcomes@)), None);
}

proof fn place_stands_in(before: Seq<char>, read: Seq<char>)
    ensures
        text::occurs_in(
            before + read + "/SKILL.md and do the work yourself,\n"@,
            read + "/SKILL.md"@,
        ),
{
    reveal_strlit("/SKILL.md");
    reveal_strlit("/SKILL.md and do the work yourself,\n");
    let task = "/SKILL.md and do the work yourself,\n"@;
    let x = read + "/SKILL.md"@;
    let n = "/SKILL.md"@.len() as int;
    assert(task.take(n) =~= "/SKILL.md"@);
    assert(before + read + task =~= before + x + task.skip(n));
    text::occurs_in_what_is_made_with_it(x, before, x);
    text::occurs_in_what_is_made_with_it(before + x, task.skip(n), x);
}

/// What is printed of a run names it, tells what to read next, and names the newer version, where
/// there is one.
pub proof fn run_says_what_comes_next(args: RunArgs, o: OpenedView, u: LinkUpdate)
    ensures
        text::occurs_in(human_of(args, o, None), o.run_id),
        o.plan.source matches Some(p) ==> text::occurs_in(
            human_of(args, o, None),
            "  next: read "@ + p + "/SKILL.md"@,
        ),
        text::occurs_in(human_of(args, o, Some(u)), u.line@),
        human_of(args, o, None).is_prefix_of(human_of(args, o, Some(u))),
        text::occurs_in(human_of(args, o, None), run::closed_line(o.closed)),
{
    reveal_strlit("");
    let s1 = "✓ run registered · "@ + o.run_id;
    let s2 = s1 + "\n"@;
    let closed = run::closed_line(o.closed);
    let s3 = s2 + closed;
    let read = match o.plan.source {
        Some(p) => "  next: read "@ + p,
        None => "  next: read ~/.knack/skills/"@ + args.slug@,
    };
    let s4 = s3 + read;
    let task = "/SKILL.md and do the work yourself,\n"@;
    let s5 = s4 + task;
    let mode = run::mode_line("        mode: "@, text::opt_text(args.mode), o.plan.mode_files);
    let s6 = s5 + mode;
    let then = "        then `knack mark last succeeded` (or `failed --note \"…\"`).\n"@;
    let s7 = s6 + then;
    let warn = "  ⚠ "@ + u.line@ + "\n"@;
    assert(human_of(args, o, None) =~= s7);
    assert(human_of(args, o, Some(u)) == s7 + warn);
    text::occurs_in_what_is_made_with_it(o.run_id, "✓ run registered · "@, o.run_id);
    text::occurs_in_what_is_made_with_it(s1, "\n"@, o.run_id);
    text::occurs_in_what_is_made_with_it(s2, closed, o.run_id);
    text::occurs_in_what_is_made_with_it(s3, read, o.run_id);
    text::occurs_in_what_is_made_with_it(s4, task, o.run_id);
    text::occurs_in_what_is_made_with_it(s5, mode, o.run_id);
    text::occurs_in_what_is_made_with_it(s6, then, o.run_id);
    text::occurs_in_what_is_made_with_it(closed, s2, closed);
    text::occurs_in_what_is_made_with_it(s3, read, closed);
    text::occurs_in_what_is_made_with_it(s4, task, closed);
    text::occurs_in_what_is_made_with_it(s5, mode, closed);
    text::occurs_in_what_is_made_with_it(s6, then, closed);
    let place = read + "/SKILL.md"@;
    place_stands_in(s3, read);
    text::occurs_in_what_is_made_with_it(s5, mode, place);
    text::occurs_in_what_is_made_with_it(s6, then, place);
    text::occurs_in_what_is_made_with_it(u.line@, "  ⚠ "@, u.line@);
    text::occurs_in_what_is_made_with_it("  ⚠ "@ + u.line@, "\n"@, u.line@);
    text::occurs_in_what_is_made_with_it(warn, s7, u.line@);
    assert(s7 =~= (s7 + warn).subrange(0, s7.len() as int));
}

/// What is reported of a newer version are its skill, the version at hand, the latest one and the
/// author, each under its own name; without one it is null.
pub proof fn update_tells_both_versions(u: LinkUpdate)
    ensures
        update_shape(None) == Shape::Null,
        json::field(update_shape(Some(u)), "slug"@) == Some(Shape::Text(u.slug@)),
        json::field(update_shape(Some(u)), "have"@) == Some(Shape::Text(u.have@)),
        json::field(update_shape(Some(u)), "latest"@) == Some(Shape::Text(u.latest@)),
        json::field(update_shape(Some(u)), "author"@) == Some(
            json::text_or_null(text::opt_text(u.author)),
        ),
{
    reveal_strlit("slug");
    reveal_strlit("have");
    reveal_strlit("latest");
    reveal_strlit("author");
    assert("slug"@.len() == 4 && "have"@.len() == 4 && "latest"@.len() == 6 && "author"@.len() == 6);
    assert("slug"@[0] == 's' && "have"@[0] == 'h');
    assert("latest"@[0] == 'l' && "author"@[0] == 'a');
    let f = seq![
        ("slug"@, Shape::Text(u.slug@)),
        ("have"@, Shape::Text(u.have@)),
        ("latest"@, Shape::Text(u.latest@)),
        ("author"@, json::text_or_null(text::opt_text(u.author))),
    ];
    assert(update_shape(Some(u)) == json::object_of(f));
    json::field_is_held(f, 0);
    json::field_is_held(f, 1);
    json::field_is_held(f, 2);
    json::field_is_held(f, 3);
}

/// A run plans to read the copy of the skill that this machine has, with the files that its mode
/// loads; and what is opened, recorded and closed later keeps that plan.
pub proof fn plan_is_kept(
    args: RunArgs,
    source: Option<String>,
    local: Option<LocalSkill>,
    auto_close: Option<Seq<char>>,
    o: OpenedView,
    requests: Seq<MarkView>,
    outcomes: Vec<Option<String>>,
)
    requires
        run::requested_files(args.mode, local) is Ok,
    ensures
        start_of(args, source, local).0 matches StateView::Finding(plan) && plan.source
            == text::opt_text(source) && plan.mode_files == run::requested_files(
            args.mode,
            local,
        )->Ok_0,
        step_of(
            args,
            auto_close,
            StateView::Marking(o, requests),
            CloudEvent::Marked(outcomes),
        ).0 matches StateView::Saving(x) && x.plan == o.plan && x.latest == o.latest && x.run_id
            == o.run_id && x.skill_version_id == o.skill_version_id,
{
}

} // verus!
