//! `knack status <slug>`: the copies of one skill, held against the published version.
//!
//! [`step`] decides: from where the command stands and what was just found to where it goes and what
//! to do next. Nothing outside this machine is asked before a local copy was found.
use vstd::prelude::*;

use crate::cloud::{CloudSkill, CloudVersion};
use crate::config::BackendMode;
use crate::content;
use crate::errors;
use crate::errors::{BackendError, CliError, CliErrorView};
use crate::json;
use crate::json::Shape;
use crate::semver;
use crate::semver::latest_published_version;
use crate::skill;
use crate::skill::{SkillFile, SkillPackage};
use crate::status;
use crate::status::{
    check_copies, cloud_changed, cloud_version, copy_to_compare, github_changed, skill_row,
    status_human, status_payload, Inspected, RowView, SkillRow, SkillStatus, StatusView,
};
use crate::text;

verus! {

/// Where the command stands: what was asked for last.
#[derive(Debug)]
pub enum StatusState {
    Inspecting,
    Publishing(SkillRow),
    Comparing(SkillRow, Option<String>),
    Done,
}

/// What a state says.
pub enum StateView {
    Inspecting,
    Publishing(RowView),
    Comparing(RowView, Option<Seq<char>>),
    Done,
}

impl View for StatusState {
    type V = StateView;

    open spec fn view(&self) -> StateView {
        match self {
            StatusState::Inspecting => StateView::Inspecting,
            StatusState::Publishing(row) => StateView::Publishing(row@),
            StatusState::Comparing(row, published) => StateView::Comparing(
                row@,
                text::opt_text(*published),
            ),
            StatusState::Done => StateView::Done,
        }
    }
}

/// What was found when the last action was carried out.
#[derive(Debug)]
pub enum StatusEvent {
    /// The places that were looked at, and what the copies hold, as far as that can be told.
    Inspected { found: Vec<Inspected>, contents: Vec<Vec<SkillFile>> },
    /// The tags of the registry clone.
    TagsListed(Vec<String>),
    SkillFound(Result<Option<CloudSkill>, CliError>),
    /// The latest published version, and the files of the copy that it is held against.
    Pulled { pulled: Result<SkillPackage, BackendError>, local: Result<Vec<SkillFile>, CliError> },
    /// The published version on the cloud, and the texts of the copy that it is held against.
    VersionRead {
        version: Result<CloudVersion, CliError>,
        skill_md: Option<String>,
        intuition_md: Option<String>,
        meta_yaml: Option<String>,
    },
}

/// What to do next.
#[derive(Debug)]
pub enum StatusAction {
    /// Look at the places where a copy may be.
    Inspect,
    ListTags,
    FindSkill(String),
    /// Pull the latest published version, and read the copy in the given directory.
    Pull { slug: String, dir: String },
    /// Read a version on the cloud, and the texts of the copy in the given directory.
    GetVersion { skill_id: String, semver: String, dir: String },
    Finish(Result<(serde_json::Value, String), CliError>),
    /// Nothing is left to do.
    Rest,
}

/// What an action says.
pub enum ActionView {
    Inspect,
    ListTags,
    FindSkill(Seq<char>),
    Pull { slug: Seq<char>, dir: Seq<char> },
    GetVersion { skill_id: Seq<char>, semver: Seq<char>, dir: Seq<char> },
    Report { payload: Shape, human: Seq<char> },
    Fail(CliErrorView),
    Rest,
}

impl View for StatusAction {
    type V = ActionView;

    open spec fn view(&self) -> ActionView {
        match self {
            StatusAction::Inspect => ActionView::Inspect,
            StatusAction::ListTags => ActionView::ListTags,
            StatusAction::FindSkill(slug) => ActionView::FindSkill(slug@),
            StatusAction::Pull { slug, dir } => ActionView::Pull { slug: slug@, dir: dir@ },
            StatusAction::GetVersion { skill_id, semver, dir } => ActionView::GetVersion {
                skill_id: skill_id@,
                semver: semver@,
                dir: dir@,
            },
            StatusAction::Finish(Ok(r)) => ActionView::Report {
                payload: json::shape(r.0),
                human: r.1@,
            },
            StatusAction::Finish(Err(e)) => ActionView::Fail(e@),
            StatusAction::Rest => ActionView::Rest,
        }
    }
}

/// The end of a status that failed.
pub open spec fn fail(e: CliErrorView) -> (StateView, ActionView) {
    (StateView::Done, ActionView::Fail(e))
}

/// The end of a status.
pub open spec fn report(
    b: BackendMode,
    row: RowView,
    published: Option<Seq<char>>,
    changed: Option<Seq<Seq<char>>>,
) -> (StateView, ActionView) {
    let s = StatusView { row, published, changed };
    (
        StateView::Done,
        ActionView::Report { payload: status::status_shape(b, s), human: status::status_text(s) },
    )
}

/// Where the command goes once the local copies are known.
pub open spec fn inspected(b: BackendMode, row: RowView) -> (StateView, ActionView) {
    if row.copies.len() == 0 {
        fail(status::no_copy_error(row.slug))
    } else {
        (
            StateView::Publishing(row),
            match b {
                BackendMode::Github { .. } => ActionView::ListTags,
                BackendMode::Cloud { .. } => ActionView::FindSkill(row.slug),
            },
        )
    }
}

/// Where the command goes once the published version is known: to comparing a copy with it, where
/// there is one to compare.
pub open spec fn published(b: BackendMode, row: RowView, version: Option<Seq<char>>, id: Seq<char>) -> (
    StateView,
    ActionView,
) {
    match status::compared(b, row.copies, version is Some) {
        Some(i) => (
            StateView::Comparing(row, version),
            match b {
                BackendMode::Github { .. } => ActionView::Pull {
                    slug: row.slug,
                    dir: row.copies[i].path,
                },
                BackendMode::Cloud { .. } => ActionView::GetVersion {
                    skill_id: id,
                    semver: version->0,
                    dir: row.copies[i].path,
                },
            },
        ),
        None => report(b, row, version, None),
    }
}

/// The version that the tags of a registry show for a skill as the latest, if any.
pub open spec fn published_of(names: Seq<Seq<char>>, slug: Seq<char>) -> Option<Seq<char>> {
    if exists|i: int| #[trigger] semver::is_latest(names, slug, i) {
        let i = choose|i: int| #[trigger] semver::is_latest(names, slug, i);
        Some(semver::shown_version(names[i]))
    } else {
        None
    }
}

/// Where the command goes once the published version was pulled.
pub open spec fn pulled_next(
    b: BackendMode,
    row: RowView,
    version: Option<Seq<char>>,
    pulled: Result<SkillPackage, BackendError>,
    local: Result<Vec<SkillFile>, CliError>,
) -> (StateView, ActionView) {
    match (pulled, local) {
        (Err(e), _) => fail(
            CliErrorView::Internal(
                "read published version: "@ + errors::backend_message_of(e@),
            ),
        ),
        (_, Err(e)) => fail(e@),
        (Ok(p), Ok(files)) => report(
            b,
            row,
            version,
            Some(
                content::changes_list(
                    content::with_slash_paths(skill::files_of(p.files@)),
                    skill::files_of(files@),
                ),
            ),
        ),
    }
}

/// Where the command goes from a state on what was found, and what it asks for next. What does not
/// answer what was asked for last, the answer of the other backend included, changes nothing.
pub open spec fn step_of(b: BackendMode, slug: Seq<char>, state: StateView, event: StatusEvent) -> (
    StateView,
    ActionView,
) {
    match (state, event) {
        (StateView::Inspecting, StatusEvent::Inspected { found, contents }) => inspected(
            b,
            status::row_of(slug, found@, contents@),
        ),
        (StateView::Publishing(row), StatusEvent::TagsListed(names)) => if b is Github {
            published(b, row, published_of(text::texts(names@), slug), Seq::empty())
        } else {
            (state, ActionView::Rest)
        },
        (StateView::Publishing(row), StatusEvent::SkillFound(r)) => match r {
            _ if b is Github => (state, ActionView::Rest),
            Err(e) => fail(e@),
            Ok(skill) => published(
                b,
                row,
                status::cloud_published(skill),
                match skill {
                    Some(s) => s.id@,
                    None => Seq::empty(),
                },
            ),
        },
        (StateView::Comparing(row, version), StatusEvent::Pulled { pulled, local }) => {
            if b is Github {
                pulled_next(b, row, version, pulled, local)
            } else {
                (state, ActionView::Rest)
            }
        },
        (
            StateView::Comparing(row, version),
            StatusEvent::VersionRead { version: read, skill_md, intuition_md, meta_yaml },
        ) => match read {
            _ if b is Github => (state, ActionView::Rest),
            Err(e) => fail(e@),
            Ok(v) => report(
                b,
                row,
                version,
                Some(status::cloud_notes(v, skill_md, intuition_md, meta_yaml)),
            ),
        },
        (state, _) => (state, ActionView::Rest),
    }
}

fn failed(e: CliError) -> (r: (StatusState, StatusAction))
    ensures
        (r.0@, r.1@) == fail(e@),
{
    (StatusState::Done, StatusAction::Finish(Err(e)))
}

fn finished(
    b: &BackendMode,
    row: SkillRow,
    published: Option<String>,
    changed: Option<Vec<String>>,
) -> (r: (StatusState, StatusAction))
    ensures
        (r.0@, r.1@) == report(*b, row@, text::opt_text(published), status::changed_texts(changed)),
{
    let s = SkillStatus { row, published, changed };
    let payload = status_payload(b, &s);
    let human = status_human(&s);
    (StatusState::Done, StatusAction::Finish(Ok((payload, human))))
}

fn compare(b: &BackendMode, row: SkillRow, version: Option<String>, id: String) -> (r: (
    StatusState,
    StatusAction,
))
    ensures
        (r.0@, r.1@) == published(*b, row@, text::opt_text(version), id@),
{
    let i = match copy_to_compare(b, &row.copies, &version) {
        Some(i) => i,
        None => {
            return finished(b, row, version, None);
        },
    };
    proof {
        assert(status::copy_views(row.copies@)[i as int] == row.copies@[i as int]@);
    }
    let dir = row.copies[i].path.clone();
    let action = match b {
        BackendMode::Github { .. } => StatusAction::Pull { slug: row.slug.clone(), dir },
        BackendMode::Cloud { .. } => {
            let semver = match &version {
                Some(v) => v.clone(),
                None => String::new(),
            };
            StatusAction::GetVersion { skill_id: id, semver, dir }
        },
    };
    (StatusState::Comparing(row, version), action)
}

/// The start: the places where a copy may be are looked at.
pub fn start() -> (r: (StatusState, StatusAction))
    ensures
        (r.0@, r.1@) == (StateView::Inspecting, ActionView::Inspect),
{
    (StatusState::Inspecting, StatusAction::Inspect)
}

fn on_inspected(b: &BackendMode, row: SkillRow) -> (r: (StatusState, StatusAction))
    ensures
        (r.0@, r.1@) == inspected(*b, row@),
{
    proof {
        assert(status::copy_views(row.copies@).len() == row.copies@.len());
    }
    match check_copies(row.slug.as_str(), &row.copies) {
        Err(e) => failed(e),
        Ok(()) => {
            let action = match b {
                BackendMode::Github { .. } => StatusAction::ListTags,
                BackendMode::Cloud { .. } => StatusAction::FindSkill(row.slug.clone()),
            };
            (StatusState::Publishing(row), action)
        },
    }
}

fn on_pulled(
    b: &BackendMode,
    row: SkillRow,
    version: Option<String>,
    pulled: Result<SkillPackage, BackendError>,
    local: Result<Vec<SkillFile>, CliError>,
) -> (r: (StatusState, StatusAction))
    ensures
        (r.0@, r.1@) == pulled_next(*b, row@, text::opt_text(version), pulled, local),
{
    let none: Vec<SkillFile> = Vec::new();
    match local {
        Ok(files) => match github_changed(pulled, &files) {
            Ok(changed) => finished(b, row, version, Some(changed)),
            Err(e) => failed(e),
        },
        Err(unread) => match github_changed(pulled, &none) {
            Ok(_) => failed(unread),
            Err(e) => failed(e),
        },
    }
}

fn published_version(names: &Vec<String>, slug: &str) -> (r: Option<String>)
    ensures
        text::opt_text(r) == published_of(text::texts(names@), slug@),
{
    let latest = latest_published_version(names, slug);
    proof {
        let tags = text::texts(names@);
        if latest is Some {
            let i = choose|i: int|
                #[trigger] semver::is_latest(tags, slug@, i) && latest->0@ == semver::shown_version(
                    names@[i]@,
                );
            let j = choose|j: int| #[trigger] semver::is_latest(tags, slug@, j);
            semver::latest_is_unique(tags, slug@, i, j);
            assert(tags[i] == names@[i]@);
        } else if exists|j: int| #[trigger] semver::is_latest(tags, slug@, j) {
            let j = choose|j: int| #[trigger] semver::is_latest(tags, slug@, j);
            assert(tags[j] == names@[j]@);
        }
    }
    latest
}

/// One step of the command.
pub fn step(b: &BackendMode, slug: &str, state: StatusState, event: StatusEvent) -> (r: (
    StatusState,
    StatusAction,
))
    ensures
        (r.0@, r.1@) == step_of(*b, slug@, state@, event),
{
    let self_hosted = matches!(b, BackendMode::Github { .. });
    match (state, event) {
        (StatusState::Inspecting, StatusEvent::Inspected { found, contents }) => on_inspected(
            b,
            skill_row(slug, &found, &contents),
        ),
        (StatusState::Publishing(row), StatusEvent::TagsListed(names)) => {
            if !self_hosted {
                return (StatusState::Publishing(row), StatusAction::Rest);
            }
            let latest = published_version(&names, slug);
            let none = String::new();
            proof {
                assert(none@ =~= Seq::empty());
            }
            compare(b, row, latest, none)
        },
        (StatusState::Publishing(row), StatusEvent::SkillFound(r)) => match r {
            _ if self_hosted => (StatusState::Publishing(row), StatusAction::Rest),
            Err(e) => failed(e),
            Ok(skill) => {
                let version = cloud_version(&skill);
                let id = match skill {
                    Some(s) => s.id,
                    None => {
                        let none = String::new();
                        proof {
                            assert(none@ =~= Seq::empty());
                        }
                        none
                    },
                };
                compare(b, row, version, id)
            },
        },
        (StatusState::Comparing(row, version), StatusEvent::Pulled { pulled, local }) => {
            if self_hosted {
                on_pulled(b, row, version, pulled, local)
            } else {
                (StatusState::Comparing(row, version), StatusAction::Rest)
            }
        },
        (
            StatusState::Comparing(row, version),
            StatusEvent::VersionRead { version: read, skill_md, intuition_md, meta_yaml },
        ) => match read {
            _ if self_hosted => (StatusState::Comparing(row, version), StatusAction::Rest),
            Err(e) => failed(e),
            Ok(v) => {
                let changed = cloud_changed(&v, &skill_md, &intuition_md, &meta_yaml);
                finished(b, row, version, Some(changed))
            },
        },
        (state, _) => (state, StatusAction::Rest),
    }
}

/// Where the command stands after the given events, and what it asked for last.
pub open spec fn after(b: BackendMode, slug: Seq<char>, events: Seq<StatusEvent>) -> (
    StateView,
    ActionView,
)
    decreases events.len(),
{
    if events.len() == 0 {
        (StateView::Inspecting, ActionView::Inspect)
    } else {
        step_of(b, slug, after(b, slug, events.drop_last()).0, events.last())
    }
}

/// Whether a local copy was found at some point.
pub open spec fn copy_was_found(events: Seq<StatusEvent>) -> bool {
    exists|i: int|
        0 <= i < events.len() && ((#[trigger] events[i]) matches StatusEvent::Inspected {
            found,
            ..
        } && status::copies_in(found@, status::resolved_of(found@)).len() > 0)
}

/// Nothing outside this machine is asked, and nothing reported, unless a local copy was found.
pub proof fn copies_are_found_first(b: BackendMode, slug: Seq<char>, events: Seq<StatusEvent>)
    ensures
        ({
            let asked = after(b, slug, events).1;
            asked is ListTags || asked is FindSkill || asked is Pull || asked is GetVersion
                || asked is Report
        }) ==> copy_was_found(events),
        ({
            let at = after(b, slug, events).0;
            at is Inspecting || at is Done || copy_was_found(events)
        }),
    decreases events.len(),
{
    if events.len() > 0 {
        let t = events.drop_last();
        copies_are_found_first(b, slug, t);
        assert(events[events.len() - 1] == events.last());
        if copy_was_found(t) {
            let i = choose|i: int|
                0 <= i < t.len() && ((#[trigger] t[i]) matches StatusEvent::Inspected {
                    found,
                    ..
                } && status::copies_in(found@, status::resolved_of(found@)).len() > 0);
            assert(events[i] == t[i]);
        }
    }
}

/// Without a published version nothing is compared: the report says of no file that it changed.
pub proof fn unpublished_skill_is_not_compared(b: BackendMode, row: RowView, id: Seq<char>)
    ensures
        published(b, row, None, id) == report(b, row, None, None),
{
}

/// The published version of a self-hosted skill is the one that its latest tag shows.
pub proof fn published_version_is_the_latest(names: Seq<Seq<char>>, slug: Seq<char>, i: int)
    requires
        semver::is_latest(names, slug, i),
    ensures
        published_of(names, slug) == Some(semver::shown_version(names[i])),
{
    let j = choose|j: int| #[trigger] semver::is_latest(names, slug, j);
    semver::latest_is_unique(names, slug, i, j);
}

/// A skill without a local copy ends the command with `NOT_FOUND`; else the tags of the registry are
/// asked for where it is self-hosted, and the skill itself where it lives on the cloud.
pub proof fn backend_decides_who_is_asked(b: BackendMode, row: RowView)
    ensures
        row.copies.len() == 0 ==> (inspected(b, row).1 matches ActionView::Fail(e) && e is NotFound),
        row.copies.len() > 0 && b is Github ==> inspected(b, row) == (
            StateView::Publishing(row),
            ActionView::ListTags,
        ),
        row.copies.len() > 0 && b is Cloud ==> inspected(b, row) == (
            StateView::Publishing(row),
            ActionView::FindSkill(row.slug),
        ),
{
}

/// The copy that is compared is read from its own directory: self-hosted against a pull of the
/// skill, on the cloud against the published version of the skill that was found.
pub proof fn compared_copy_is_read(
    b: BackendMode,
    row: RowView,
    version: Seq<char>,
    id: Seq<char>,
    i: int,
)
    requires
        status::compared(b, row.copies, true) == Some(i),
    ensures
        b is Github ==> published(b, row, Some(version), id).1 == (ActionView::Pull {
            slug: row.slug,
            dir: row.copies[i].path,
        }),
        b is Cloud ==> published(b, row, Some(version), id).1 == (ActionView::GetVersion {
            skill_id: id,
            semver: version,
            dir: row.copies[i].path,
        }),
        published(b, row, Some(version), id).0 == StateView::Comparing(row, Some(version)),
{
}

/// The published version on the cloud is the current one of the skill that was found, and none where
/// there is no such skill or it has no version; an error of the cloud ends the command with it.
pub proof fn cloud_tells_the_published_version(
    b: BackendMode,
    slug: Seq<char>,
    row: RowView,
    skill: CloudSkill,
    e: CliError,
)
    requires
        b is Cloud,
    ensures
        step_of(
            b,
            slug,
            StateView::Publishing(row),
            StatusEvent::SkillFound(Ok(Some(skill))),
        ) == published(
            b,
            row,
            match skill.current_version_semver {
                Some(v) => Some(v@),
                None => None,
            },
            skill.id@,
        ),
        step_of(b, slug, StateView::Publishing(row), StatusEvent::SkillFound(Ok(None))) == report(
            b,
            row,
            None,
            None,
        ),
        step_of(b, slug, StateView::Publishing(row), StatusEvent::SkillFound(Err(e))).1
            == ActionView::Fail(e@),
{
    unpublished_skill_is_not_compared(b, row, Seq::empty());
}

/// Once the published version was pulled, what is reported as changed is how the copy differs from
/// the files that were pulled; a pull that failed fails the command, and so does a copy that cannot
/// be read.
pub proof fn pulled_version_is_compared(
    b: BackendMode,
    slug: Seq<char>,
    row: RowView,
    version: Option<Seq<char>>,
    p: SkillPackage,
    files: Vec<SkillFile>,
    e: BackendError,
    unread: CliError,
)
    requires
        b is Github,
    ensures
        ({
            let at = StateView::Comparing(row, version);
            let done = step_of(
                b,
                slug,
                at,
                StatusEvent::Pulled { pulled: Ok(p), local: Ok(files) },
            );
            &&& done == report(
                b,
                row,
                version,
                Some(
                    content::changes_list(
                        content::with_slash_paths(skill::files_of(p.files@)),
                        skill::files_of(files@),
                    ),
                ),
            )
            &&& step_of(
                b,
                slug,
                at,
                StatusEvent::Pulled { pulled: Err(e), local: Ok(files) },
            ).1 matches ActionView::Fail(x) && x is Internal
            &&& step_of(
                b,
                slug,
                at,
                StatusEvent::Pulled { pulled: Ok(p), local: Err(unread) },
            ).1 == ActionView::Fail(unread@)
        }),
{
}

/// What is reported at the end is the skill as it was found: its row, the published version and what
/// changed.
pub proof fn report_is_of_what_was_found(
    b: BackendMode,
    row: RowView,
    published: Option<Seq<char>>,
    changed: Option<Seq<Seq<char>>>,
)
    ensures
        report(b, row, published, changed).1 == (ActionView::Report {
            payload: status::status_shape(b, StatusView { row, published, changed }),
            human: status::status_text(StatusView { row, published, changed }),
        }),
        report(b, row, published, changed).0 is Done,
{
}

} // verus!
