//! `knack init`: the workspace, and on the first run the backend.
//!
//! [`step`] decides: from where an init stands and what was just found to where it goes and what to
//! do next. The choice of the backend is made once; later runs keep it unless a flag says otherwise.
use vstd::prelude::*;

use crate::config;
use crate::config::{backend_label, BackendMode, BackendModeView};
use crate::errors::{user, CliError, CliErrorView, OutputMode};
use crate::json;
use crate::json::Shape;
use crate::paths;
use crate::paths::join;
use crate::text;
use crate::text::{same, split_once, trim};
use crate::utf8;
use crate::utf8::show;

verus! {

/// How to initialize.
#[derive(Debug)]
pub struct InitArgs {
    /// Directory to initialize, the current one where none is given.
    pub at: Option<String>,
    /// Configure self-host mode, without asking.
    pub self_host: bool,
    /// Configure the cloud, without asking.
    pub cloud: bool,
    /// Repository for self-host mode, in `<owner>/<repo>` form.
    pub github_repo: Option<String>,
    /// Ask nothing; implies the cloud.
    pub yes: bool,
}

/// How the backend is chosen.
#[derive(Clone, Copy, Debug, PartialEq, Eq, Structural)]
pub enum BackendChoice {
    SelfHost,
    Cloud,
    /// Ask the user.
    Prompt,
    /// Leave it as it is.
    Keep,
}

/// How the backend is chosen: by a flag, else by asking, else not at all. The user is asked on the
/// first run only, and never where output is quiet or JSON.
pub open spec fn choice_of(
    args: InitArgs,
    already_configured: bool,
    mode: OutputMode,
) -> BackendChoice {
    if args.self_host {
        BackendChoice::SelfHost
    } else if args.cloud || args.yes {
        BackendChoice::Cloud
    } else if !already_configured && !mode.quiet && !mode.json {
        BackendChoice::Prompt
    } else {
        BackendChoice::Keep
    }
}

/// How the backend is chosen.
pub fn choose_backend(args: &InitArgs, already_configured: bool, mode: OutputMode) -> (r:
    BackendChoice)
    ensures
        r == choice_of(*args, already_configured, mode),
{
    if args.self_host {
        BackendChoice::SelfHost
    } else if args.cloud || args.yes {
        BackendChoice::Cloud
    } else if !already_configured && !mode.quiet && !mode.json {
        BackendChoice::Prompt
    } else {
        BackendChoice::Keep
    }
}

/// The cloud.
pub open spec fn cloud_mode() -> BackendModeView {
    BackendModeView::Cloud { api_base: "https://api.getknack.ai"@ }
}

fn cloud() -> (r: BackendMode)
    ensures
        r@ == cloud_mode(),
{
    BackendMode::Cloud { api_base: "https://api.getknack.ai".to_owned() }
}

/// What an answer to the question for the backend asks for.
pub open spec fn answer_of(line: Seq<char>) -> Result<BackendChoice, CliErrorView> {
    let choice = text::trimmed(line);
    if choice == "1"@ || choice == "github"@ || choice == "gh"@ {
        Ok(BackendChoice::SelfHost)
    } else if choice == "2"@ || choice == "cloud"@ || choice == ""@ {
        Ok(BackendChoice::Cloud)
    } else {
        Err(
            CliErrorView::User {
                code: "INVALID_CHOICE"@,
                message: "expected 1 or 2, got '"@ + choice + "'"@,
                hint: Some("re-run `knack init` and pick 1 (github) or 2 (cloud)"@),
            },
        )
    }
}

/// What an answer to the question for the backend asks for.
pub fn parse_answer(line: &str) -> (r: Result<BackendChoice, CliError>)
    ensures
        match r {
            Ok(c) => Ok::<BackendChoice, CliErrorView>(c),
            Err(e) => Err::<BackendChoice, CliErrorView>(e@),
        } == answer_of(line@),
{
    let choice = trim(line);
    if same(choice, "1") || same(choice, "github") || same(choice, "gh") {
        Ok(BackendChoice::SelfHost)
    } else if same(choice, "2") || same(choice, "cloud") || same(choice, "") {
        Ok(BackendChoice::Cloud)
    } else {
        let mut m = "expected 1 or 2, got '".to_owned();
        m.append(choice);
        m.append("'");
        Err(
            user(
                "INVALID_CHOICE",
                m,
                Some("re-run `knack init` and pick 1 (github) or 2 (cloud)"),
            ),
        )
    }
}

/// The error for a repository that is not in `<owner>/<repo>` form.
pub open spec fn invalid_repo(spec_text: Seq<char>) -> CliErrorView {
    CliErrorView::User {
        code: "INVALID_REPO"@,
        message: "--github-repo must be '<owner>/<repo>', got '"@ + spec_text + "'"@,
        hint: None,
    }
}

/// The owner and the name of a repository: what stands on either side of the first slash.
pub open spec fn owner_repo(spec_text: Seq<char>) -> Result<(Seq<char>, Seq<char>), CliErrorView> {
    match text::cut_at_first(spec_text, '/') {
        Some(cut) => if cut.0.len() == 0 || cut.1.len() == 0 {
            Err(invalid_repo(spec_text))
        } else {
            Ok(cut)
        },
        None => Err(invalid_repo(spec_text)),
    }
}

/// The owner and the name of a repository in `<owner>/<repo>` form.
pub fn parse_owner_repo(spec_text: &str) -> (r: Result<(String, String), CliError>)
    ensures
        match r {
            Ok(p) => Ok::<(Seq<char>, Seq<char>), CliErrorView>((p.0@, p.1@)),
            Err(e) => Err::<(Seq<char>, Seq<char>), CliErrorView>(e@),
        } == owner_repo(spec_text@),
{
    if let Some((owner, repo)) = split_once(spec_text, '/') {
        if !owner.is_empty() && !repo.is_empty() {
            return Ok((owner.to_owned(), repo.to_owned()));
        }
    }
    let mut m = "--github-repo must be '<owner>/<repo>', got '".to_owned();
    m.append(spec_text);
    m.append("'");
    Err(user("INVALID_REPO", m, None))
}

/// The error where the GitHub user cannot be told.
pub open spec fn no_gh_user() -> CliErrorView {
    CliErrorView::User {
        code: "GH_NOT_AUTHENTICATED"@,
        message: "could not resolve your GitHub user. install gh and run `gh auth login`, or set $GITHUB_USER"@,
        hint: Some("https://cli.github.com"@),
    }
}

/// The error where the GitHub user cannot be told.
pub fn gh_missing_error() -> (r: CliError)
    ensures
        r@ == no_gh_user(),
{
    user(
        "GH_NOT_AUTHENTICATED",
        "could not resolve your GitHub user. install gh and run `gh auth login`, or set $GITHUB_USER".to_owned(),
        Some("https://cli.github.com"),
    )
}

/// The user that `gh` told, if any.
pub open spec fn gh_user_of(stdout: Option<Vec<u8>>) -> Seq<char> {
    match stdout {
        Some(bytes) => text::trimmed(utf8::shown_text(bytes@)),
        None => Seq::empty(),
    }
}

/// The GitHub user: the one that `gh` told, or else `$GITHUB_USER`.
pub open spec fn user_of(told: Seq<char>, env: Option<Seq<char>>) -> Option<Seq<char>> {
    if told.len() > 0 {
        Some(told)
    } else if env is Some && env->0.len() > 0 {
        env
    } else {
        None
    }
}

/// The GitHub user, given what `gh` told.
pub fn pick_gh_user(told: &str, env: &Option<String>) -> (r: Result<String, CliError>)
    ensures
        match r {
            Ok(u) => user_of(told@, text::opt_text(*env)) == Some(u@),
            Err(e) => user_of(told@, text::opt_text(*env)) is None && e@ == no_gh_user(),
        },
{
    if !told.is_empty() {
        return Ok(told.to_owned());
    }
    if let Some(u) = env {
        if !u.as_str().is_empty() {
            return Ok(u.clone());
        }
    }
    Err(gh_missing_error())
}

/// The GitHub user. `stdout` is what `gh api user --jq .login` printed, none where it could not be
/// run or failed; `env` is `$GITHUB_USER`.
pub fn resolve_gh_user(stdout: &Option<Vec<u8>>, env: &Option<String>) -> (r: Result<
    String,
    CliError,
>)
    ensures
        match r {
            Ok(u) => user_of(gh_user_of(*stdout), text::opt_text(*env)) == Some(u@),
            Err(e) => user_of(gh_user_of(*stdout), text::opt_text(*env)) is None && e@
                == no_gh_user(),
        },
{
    match stdout {
        Some(bytes) => {
            let said = show(bytes.as_slice());
            pick_gh_user(trim(said.as_str()), env)
        },
        None => {
            let none = String::new();
            proof {
                assert(none@ =~= Seq::empty());
            }
            pick_gh_user(none.as_str(), env)
        },
    }
}

/// The self-host mode: the repository that was asked for, or else the one named `knack` of the user,
/// cloned below the home directory.
pub open spec fn self_host_of(
    repo_override: Option<Seq<char>>,
    gh_user: Seq<char>,
    home: Option<Seq<char>>,
) -> Result<BackendModeView, CliErrorView> {
    let local_path = paths::joined(
        match home {
            Some(h) => h,
            None => "."@,
        },
        "knack"@,
    );
    match repo_override {
        Some(s) => match owner_repo(s) {
            Ok(p) => Ok(BackendModeView::Github { owner: p.0, repo: p.1, local_path }),
            Err(e) => Err(e),
        },
        None => Ok(BackendModeView::Github { owner: gh_user, repo: "knack"@, local_path }),
    }
}

/// The self-host mode.
pub fn configure_self_host(repo_override: &Option<String>, gh_user: &str, home: Option<&str>) -> (r:
    Result<BackendMode, CliError>)
    ensures
        match r {
            Ok(b) => Ok::<BackendModeView, CliErrorView>(b@),
            Err(e) => Err::<BackendModeView, CliErrorView>(e@),
        } == self_host_of(text::opt_text(*repo_override), gh_user@, text::opt_slice(home)),
{
    let local_path = match home {
        Some(h) => join(h, "knack"),
        None => join(".", "knack"),
    };
    match repo_override {
        Some(s) => match parse_owner_repo(s.as_str()) {
            Ok((owner, repo)) => Ok(BackendMode::Github { owner, repo, local_path }),
            Err(e) => Err(e),
        },
        None => Ok(
            BackendMode::Github { owner: gh_user.to_owned(), repo: "knack".to_owned(), local_path },
        ),
    }
}

/// What the user is asked.
pub open spec fn question() -> Seq<char> {
    "\nwelcome to knack.\n\nwhere do you want your skills to live?\n\n  1. github (self-host, free, lives in your own repo)\n  2. knack cloud (zero setup, free tier, public marketplace)\n\npick one [1/2]: "@
}

/// Where an init stands: what was asked for last.
#[derive(Debug)]
pub enum InitState {
    Locating,
    Checking(String),
    Scaffolding,
    Configuring(String),
    Prompting(String),
    /// The workspace, and the repository that was asked for.
    Resolving(String, Option<String>),
    Saving(String, BackendMode),
    Looking(String, Option<BackendMode>),
    Done,
}

/// What a state says.
pub enum StateView {
    Locating,
    Checking(Seq<char>),
    Scaffolding,
    Configuring(Seq<char>),
    Prompting(Seq<char>),
    Resolving(Seq<char>, Option<Seq<char>>),
    Saving(Seq<char>, BackendModeView),
    Looking(Seq<char>, Option<BackendModeView>),
    Done,
}

/// What an optional backend says.
pub open spec fn opt_mode(b: Option<BackendMode>) -> Option<BackendModeView> {
    match b {
        Some(b) => Some(b@),
        None => None,
    }
}

impl View for InitState {
    type V = StateView;

    open spec fn view(&self) -> StateView {
        match self {
            InitState::Locating => StateView::Locating,
            InitState::Checking(p) => StateView::Checking(p@),
            InitState::Scaffolding => StateView::Scaffolding,
            InitState::Configuring(ws) => StateView::Configuring(ws@),
            InitState::Prompting(ws) => StateView::Prompting(ws@),
            InitState::Resolving(ws, repo) => StateView::Resolving(ws@, text::opt_text(*repo)),
            InitState::Saving(ws, b) => StateView::Saving(ws@, b@),
            InitState::Looking(ws, b) => StateView::Looking(ws@, opt_mode(*b)),
            InitState::Done => StateView::Done,
        }
    }
}

/// What was found when the last action was carried out.
#[derive(Debug)]
pub enum InitEvent {
    /// The current directory, or why it cannot be told.
    Cwd(Result<String, String>),
    DirChecked(bool),
    /// The workspace, or why it could not be made.
    WorkspaceMade(Result<String, String>),
    /// Whether there is a configuration.
    Configured(bool),
    /// The line that was typed, or why none could be read.
    Answered(Result<String, String>),
    /// What `gh` printed where it succeeded, `$GITHUB_USER`, and the home directory.
    UserAsked { stdout: Option<Vec<u8>>, env: Option<String>, home: Option<String> },
    /// Why the configuration could not be written, if it could not.
    Saved(Option<String>),
    /// Whether the workspace is one, and the sizes of its `README.md` and `.gitignore`.
    Looked { is_workspace: bool, readme_len: u64, gitignore_len: u64 },
}

/// What to do next.
#[derive(Debug)]
pub enum InitAction {
    ReadCwd,
    /// Look whether the path is a directory.
    CheckDir(String),
    /// Make the workspace in the directory.
    InitWorkspace(String),
    /// Look whether there is a configuration.
    ReadConfigured,
    /// Ask the user and read a line.
    Ask(String),
    /// Ask `gh` and the environment for the user.
    AskUser,
    /// Write the backend to the configuration.
    SaveBackend(BackendMode),
    /// Look at the workspace.
    LookAt(String),
    Finish(Result<(serde_json::Value, String), CliError>),
    /// Nothing is left to do.
    Rest,
}

/// What an action says.
pub enum ActionView {
    ReadCwd,
    CheckDir(Seq<char>),
    InitWorkspace(Seq<char>),
    ReadConfigured,
    Ask(Seq<char>),
    AskUser,
    SaveBackend(BackendModeView),
    LookAt(Seq<char>),
    Report { payload: Shape, human: Seq<char> },
    Fail(CliErrorView),
    Rest,
}

impl View for InitAction {
    type V = ActionView;

    open spec fn view(&self) -> ActionView {
        match self {
            InitAction::ReadCwd => ActionView::ReadCwd,
            InitAction::CheckDir(p) => ActionView::CheckDir(p@),
            InitAction::InitWorkspace(p) => ActionView::InitWorkspace(p@),
            InitAction::ReadConfigured => ActionView::ReadConfigured,
            InitAction::Ask(q) => ActionView::Ask(q@),
            InitAction::AskUser => ActionView::AskUser,
            InitAction::SaveBackend(b) => ActionView::SaveBackend(b@),
            InitAction::LookAt(p) => ActionView::LookAt(p@),
            InitAction::Finish(Ok(r)) => ActionView::Report {
                payload: json::shape(r.0),
                human: r.1@,
            },
            InitAction::Finish(Err(e)) => ActionView::Fail(e@),
            InitAction::Rest => ActionView::Rest,
        }
    }
}

/// The end of an init that failed.
pub open spec fn fail(e: CliErrorView) -> (StateView, ActionView) {
    (StateView::Done, ActionView::Fail(e))
}

/// The directory is looked at before anything is made in it.
pub open spec fn check_dir(p: Seq<char>) -> (StateView, ActionView) {
    (StateView::Checking(p), ActionView::CheckDir(p))
}

/// A chosen backend is saved.
pub open spec fn save(ws: Seq<char>, b: BackendModeView) -> (StateView, ActionView) {
    (StateView::Saving(ws, b), ActionView::SaveBackend(b))
}

/// At the end the workspace is looked at.
pub open spec fn look(ws: Seq<char>, b: Option<BackendModeView>) -> (StateView, ActionView) {
    (StateView::Looking(ws, b), ActionView::LookAt(ws))
}

/// The start of an init.
pub open spec fn start_of(args: InitArgs) -> (StateView, ActionView) {
    match args.at {
        Some(p) => check_dir(p@),
        None => (StateView::Locating, ActionView::ReadCwd),
    }
}

/// Where a choice of the backend leads.
pub open spec fn chosen(ws: Seq<char>, choice: BackendChoice, repo: Option<Seq<char>>) -> (
    StateView,
    ActionView,
) {
    match choice {
        BackendChoice::SelfHost => (StateView::Resolving(ws, repo), ActionView::AskUser),
        BackendChoice::Cloud => save(ws, cloud_mode()),
        BackendChoice::Prompt => (StateView::Prompting(ws), ActionView::Ask(question())),
        BackendChoice::Keep => look(ws, None),
    }
}

/// The backend as an entry of the payload.
pub open spec fn label_shape(b: Option<BackendModeView>) -> Shape {
    match b {
        Some(b) => Shape::Text(config::label_of(b)),
        None => Shape::Null,
    }
}

/// What an init reports as JSON.
pub open spec fn payload_of(ws: Seq<char>, b: Option<BackendModeView>, already_existed: bool) -> Shape {
    json::object_of(
        seq![
            ("workspace"@, Shape::Text(ws)),
            ("skills_dir"@, Shape::Text(paths::joined(ws, "skills"@))),
            ("drafts_dir"@, Shape::Text(paths::joined(ws, "drafts"@))),
            ("already_existed"@, Shape::Bool(already_existed)),
            ("backend"@, label_shape(b)),
        ],
    )
}

/// What an init prints.
pub open spec fn human_of(
    ws: Seq<char>,
    b: Option<BackendModeView>,
    already_existed: bool,
) -> Seq<char> {
    (if already_existed {
        "✓ workspace ready at "@ + ws + "\n"@
    } else {
        "✓ initialized "@ + ws + " (skills/, drafts/)\n"@
    }) + (match b {
        Some(b) => "✓ backend: "@ + config::label_of(b) + "\n"@ + (if b is Cloud {
            "\nnext: run `knack auth login` to sign into Knack Cloud.\n"@
        } else {
            ""@
        }),
        None => ""@,
    })
}

/// Where an init goes from a state on what was found, and what it asks for next. What does not answer
/// what was asked for last changes nothing.
pub open spec fn step_of(args: InitArgs, mode: OutputMode, state: StateView, event: InitEvent) -> (
    StateView,
    ActionView,
) {
    match (state, event) {
        (StateView::Locating, InitEvent::Cwd(r)) => match r {
            Ok(p) => check_dir(p@),
            Err(e) => fail(CliErrorView::Internal("could not read cwd: "@ + e@)),
        },
        (StateView::Checking(p), InitEvent::DirChecked(is_dir)) => if is_dir {
            (StateView::Scaffolding, ActionView::InitWorkspace(p))
        } else {
            fail(
                CliErrorView::User {
                    code: "INIT_INVALID_TARGET"@,
                    message: "not a directory: "@ + p,
                    hint: Some("pass --at <existing-dir> or run from a real workspace"@),
                },
            )
        },
        (StateView::Scaffolding, InitEvent::WorkspaceMade(r)) => match r {
            Ok(ws) => (StateView::Configuring(ws@), ActionView::ReadConfigured),
            Err(e) => fail(CliErrorView::Internal("init failed: "@ + e@)),
        },
        (StateView::Configuring(ws), InitEvent::Configured(there)) => chosen(
            ws,
            choice_of(args, there, mode),
            text::opt_text(args.github_repo),
        ),
        (StateView::Prompting(ws), InitEvent::Answered(r)) => match r {
            Ok(line) => match answer_of(line@) {
                Ok(choice) => chosen(ws, choice, None),
                Err(e) => fail(e),
            },
            Err(e) => fail(CliErrorView::Internal(e@)),
        },
        (StateView::Resolving(ws, repo), InitEvent::UserAsked { stdout, env, home }) => {
            match user_of(gh_user_of(stdout), text::opt_text(env)) {
                Some(u) => match self_host_of(repo, u, text::opt_text(home)) {
                    Ok(b) => save(ws, b),
                    Err(e) => fail(e),
                },
                None => fail(no_gh_user()),
            }
        },
        (StateView::Saving(ws, b), InitEvent::Saved(failed)) => match failed {
            Some(e) => fail(CliErrorView::Internal("write config.yaml: "@ + e@)),
            None => look(ws, Some(b)),
        },
        (
            StateView::Looking(ws, b),
            InitEvent::Looked { is_workspace, readme_len, gitignore_len },
        ) => {
            let already_existed = is_workspace && readme_len > 0 && gitignore_len > 0;
            (
                StateView::Done,
                ActionView::Report {
                    payload: payload_of(ws, b, already_existed),
                    human: human_of(ws, b, already_existed),
                },
            )
        },
        (state, _) => (state, ActionView::Rest),
    }
}

fn failed(e: CliError) -> (r: (InitState, InitAction))
    ensures
        (r.0@, r.1@) == fail(e@),
{
    (InitState::Done, InitAction::Finish(Err(e)))
}

fn internal(head: &str, e: &str) -> (r: (InitState, InitAction))
    ensures
        (r.0@, r.1@) == fail(CliErrorView::Internal(head@ + e@)),
{
    let mut m = head.to_owned();
    m.append(e);
    failed(CliError::Internal(m))
}

fn go_check(p: String) -> (r: (InitState, InitAction))
    ensures
        (r.0@, r.1@) == check_dir(p@),
{
    let path = p.clone();
    (InitState::Checking(p), InitAction::CheckDir(path))
}

fn go_save(ws: String, b: BackendMode) -> (r: (InitState, InitAction))
    ensures
        (r.0@, r.1@) == save(ws@, b@),
{
    let saved = b.clone();
    (InitState::Saving(ws, b), InitAction::SaveBackend(saved))
}

fn go_look(ws: String, b: Option<BackendMode>) -> (r: (InitState, InitAction))
    ensures
        (r.0@, r.1@) == look(ws@, opt_mode(b)),
{
    let path = ws.clone();
    (InitState::Looking(ws, b), InitAction::LookAt(path))
}

fn go_chosen(ws: String, choice: BackendChoice, repo: Option<String>) -> (r: (InitState, InitAction))
    ensures
        (r.0@, r.1@) == chosen(ws@, choice, text::opt_text(repo)),
{
    match choice {
        BackendChoice::SelfHost => (InitState::Resolving(ws, repo), InitAction::AskUser),
        BackendChoice::Cloud => go_save(ws, cloud()),
        BackendChoice::Prompt => (
            InitState::Prompting(ws),
            InitAction::Ask(
                "\nwelcome to knack.\n\nwhere do you want your skills to live?\n\n  1. github (self-host, free, lives in your own repo)\n  2. knack cloud (zero setup, free tier, public marketplace)\n\npick one [1/2]: ".to_owned(),
            ),
        ),
        BackendChoice::Keep => go_look(ws, None),
    }
}

fn payload(ws: &str, b: &Option<BackendMode>, already_existed: bool) -> (r: serde_json::Value)
    ensures
        json::shape(r) == payload_of(ws@, opt_mode(*b), already_existed),
{
    let skills = join(ws, "skills");
    let drafts = join(ws, "drafts");
    let backend = match b {
        Some(b) => {
            let label = backend_label(b);
            json::text(label.as_str())
        },
        None => json::null(),
    };
    let fields = vec![
        ("workspace", json::text(ws)),
        ("skills_dir", json::text(skills.as_str())),
        ("drafts_dir", json::text(drafts.as_str())),
        ("already_existed", json::flag(already_existed)),
        ("backend", backend),
    ];
    proof {
        assert(json::field_shapes(fields@) =~= seq![
            ("workspace"@, Shape::Text(ws@)),
            ("skills_dir"@, Shape::Text(paths::joined(ws@, "skills"@))),
            ("drafts_dir"@, Shape::Text(paths::joined(ws@, "drafts"@))),
            ("already_existed"@, Shape::Bool(already_existed)),
            ("backend"@, label_shape(opt_mode(*b))),
        ]);
    }
    json::object(fields)
}

fn human(ws: &str, b: &Option<BackendMode>, already_existed: bool) -> (r: String)
    ensures
        r@ == human_of(ws@, opt_mode(*b), already_existed),
{
    let mut s = if already_existed {
        let mut s = "✓ workspace ready at ".to_owned();
        s.append(ws);
        s.append("\n");
        s
    } else {
        let mut s = "✓ initialized ".to_owned();
        s.append(ws);
        s.append(" (skills/, drafts/)\n");
        s
    };
    match b {
        Some(b) => {
            let mut t = "✓ backend: ".to_owned();
            let label = backend_label(b);
            t.append(label.as_str());
            t.append("\n");
            match b {
                BackendMode::Cloud { .. } => {
                    t.append("\nnext: run `knack auth login` to sign into Knack Cloud.\n");
                },
                BackendMode::Github { .. } => {
                    t.append("");
                },
            }
            s.append(t.as_str());
        },
        None => {
            s.append("");
        },
    }
    s
}

/// The start of an init.
pub fn start(args: &InitArgs) -> (r: (InitState, InitAction))
    ensures
        (r.0@, r.1@) == start_of(*args),
{
    match &args.at {
        Some(p) => go_check(p.clone()),
        None => (InitState::Locating, InitAction::ReadCwd),
    }
}

/// One step of an init.
pub fn step(args: &InitArgs, mode: OutputMode, state: InitState, event: InitEvent) -> (r: (
    InitState,
    InitAction,
))
    ensures
        (r.0@, r.1@) == step_of(*args, mode, state@, event),
{
    match (state, event) {
        (InitState::Locating, InitEvent::Cwd(r)) => match r {
            Ok(p) => go_check(p),
            Err(e) => internal("could not read cwd: ", e.as_str()),
        },
        (InitState::Checking(p), InitEvent::DirChecked(is_dir)) => {
            if is_dir {
                return (InitState::Scaffolding, InitAction::InitWorkspace(p));
            }
            let mut m = "not a directory: ".to_owned();
            m.append(p.as_str());
            failed(
                user(
                    "INIT_INVALID_TARGET",
                    m,
                    Some("pass --at <existing-dir> or run from a real workspace"),
                ),
            )
        },
        (InitState::Scaffolding, InitEvent::WorkspaceMade(r)) => match r {
            Ok(ws) => (InitState::Configuring(ws), InitAction::ReadConfigured),
            Err(e) => internal("init failed: ", e.as_str()),
        },
        (InitState::Configuring(ws), InitEvent::Configured(there)) => {
            let repo = match &args.github_repo {
                Some(s) => Some(s.clone()),
                None => None,
            };
            go_chosen(ws, choose_backend(args, there, mode), repo)
        },
        (InitState::Prompting(ws), InitEvent::Answered(r)) => match r {
            Ok(line) => match parse_answer(line.as_str()) {
                Ok(choice) => go_chosen(ws, choice, None),
                Err(e) => failed(e),
            },
            Err(e) => failed(CliError::Internal(e)),
        },
        (InitState::Resolving(ws, repo), InitEvent::UserAsked { stdout, env, home }) => {
            let home = match &home {
                Some(h) => Some(h.as_str()),
                None => None,
            };
            match resolve_gh_user(&stdout, &env) {
                Ok(u) => match configure_self_host(&repo, u.as_str(), home) {
                    Ok(b) => go_save(ws, b),
                    Err(e) => failed(e),
                },
                Err(e) => failed(e),
            }
        },
        (InitState::Saving(ws, b), InitEvent::Saved(refused)) => match refused {
            Some(e) => internal("write config.yaml: ", e.as_str()),
            None => go_look(ws, Some(b)),
        },
        (
            InitState::Looking(ws, b),
            InitEvent::Looked { is_workspace, readme_len, gitignore_len },
        ) => {
            let already_existed = is_workspace && readme_len > 0 && gitignore_len > 0;
            let value = payload(ws.as_str(), &b, already_existed);
            let text = human(ws.as_str(), &b, already_existed);
            (InitState::Done, InitAction::Finish(Ok((value, text))))
        },
        (state, _) => (state, InitAction::Rest),
    }
}

/// Where an init stands after the given events, and what it asked for last.
pub open spec fn after(args: InitArgs, mode: OutputMode, events: Seq<InitEvent>) -> (
    StateView,
    ActionView,
)
    decreases events.len(),
{
    if events.len() == 0 {
        start_of(args)
    } else {
        step_of(args, mode, after(args, mode, events.drop_last()).0, events.last())
    }
}

/// The user is not asked where a flag says what is wanted, nor where output is quiet or JSON.
pub proof fn flags_skip_the_question(args: InitArgs, mode: OutputMode, events: Seq<InitEvent>)
    requires
        args.self_host || args.cloud || args.yes || mode.quiet || mode.json,
    ensures
        !(after(args, mode, events).1 is Ask),
        !(after(args, mode, events).0 is Prompting),
    decreases events.len(),
{
    if events.len() > 0 {
        flags_skip_the_question(args, mode, events.drop_last());
    }
}

/// Without a flag, a configuration that is there is neither asked for again nor written.
pub proof fn configuration_is_kept(args: InitArgs, mode: OutputMode, events: Seq<InitEvent>)
    requires
        !args.self_host && !args.cloud && !args.yes,
        forall|i: int|
            0 <= i < events.len() && (#[trigger] events[i]) is Configured
                ==> events[i]->Configured_0,
    ensures
        !(after(args, mode, events).1 is Ask),
        !(after(args, mode, events).1 is SaveBackend),
        ({
            let at = after(args, mode, events).0;
            !(at is Prompting) && !(at is Resolving) && !(at is Saving)
        }),
    decreases events.len(),
{
    if events.len() > 0 {
        let t = events.drop_last();
        assert forall|i: int| 0 <= i < t.len() && (#[trigger] t[i]) is Configured implies
            t[i]->Configured_0 by {
            assert(events[i] == t[i]);
        }
        configuration_is_kept(args, mode, t);
        assert(events[events.len() - 1] == events.last());
    }
}

/// Whether the target was found, at some point, to be a directory.
pub open spec fn target_was_checked(events: Seq<InitEvent>) -> bool {
    exists|i: int|
        0 <= i < events.len() && ((#[trigger] events[i]) matches InitEvent::DirChecked(is_dir)
            && is_dir)
}

/// Nothing is made, asked or written unless the target was found to be a directory.
pub proof fn target_is_checked_first(args: InitArgs, mode: OutputMode, events: Seq<InitEvent>)
    ensures
        ({
            let asked = after(args, mode, events).1;
            asked is InitWorkspace || asked is Ask || asked is AskUser || asked is SaveBackend
                || asked is Report
        }) ==> target_was_checked(events),
        ({
            let at = after(args, mode, events).0;
            at is Locating || at is Checking || at is Done || target_was_checked(events)
        }),
    decreases events.len(),
{
    if events.len() > 0 {
        let t = events.drop_last();
        target_is_checked_first(args, mode, t);
        assert(events[events.len() - 1] == events.last());
        if target_was_checked(t) {
            let i = choose|i: int|
                0 <= i < t.len() && ((#[trigger] t[i]) matches InitEvent::DirChecked(is_dir)
                    && is_dir);
            assert(events[i] == t[i]);
        }
    }
}

/// Whether two inits were told the same, but for whether there is a configuration.
pub open spec fn same_but_configured(x: Seq<InitEvent>, y: Seq<InitEvent>) -> bool {
    &&& x.len() == y.len()
    &&& forall|i: int|
        0 <= i < x.len() ==> (#[trigger] x[i] == #[trigger] y[i]) || (x[i] is Configured
            && y[i] is Configured)
}

/// A second init with the same flags does the same: where a flag says what is wanted, or output is
/// quiet or JSON, what is asked for at each point, what is saved and what is reported do not depend
/// on whether there was a configuration.
pub proof fn second_init_does_the_same(
    args: InitArgs,
    mode: OutputMode,
    x: Seq<InitEvent>,
    y: Seq<InitEvent>,
)
    requires
        args.self_host || args.cloud || args.yes || mode.quiet || mode.json,
        same_but_configured(x, y),
    ensures
        after(args, mode, x) == after(args, mode, y),
    decreases x.len(),
{
    if x.len() > 0 {
        let s = x.drop_last();
        let t = y.drop_last();
        assert forall|i: int| 0 <= i < s.len() implies (#[trigger] s[i] == #[trigger] t[i]) || (
        s[i] is Configured && t[i] is Configured) by {
            assert(s[i] == x[i] && t[i] == y[i]);
        }
        second_init_does_the_same(args, mode, s, t);
        let n = x.len() - 1;
        assert(x[n] == x.last() && y[n] == y.last());
    }
}

/// Where the cloud is asked for by a flag, no other backend is ever saved, and an init comes at no
/// point to the question or to a user of the forge, whatever is found.
pub proof fn cloud_flag_saves_the_cloud(args: InitArgs, mode: OutputMode, events: Seq<InitEvent>)
    requires
        !args.self_host,
        args.cloud || args.yes,
    ensures
        after(args, mode, events).1 matches ActionView::SaveBackend(b) ==> b == cloud_mode(),
        !(after(args, mode, events).1 is Ask),
        ({
            let at = after(args, mode, events).0;
            &&& !(at is Prompting) && !(at is Resolving)
            &&& at matches StateView::Saving(_, b) ==> b == cloud_mode()
        }),
    decreases events.len(),
{
    if events.len() > 0 {
        cloud_flag_saves_the_cloud(args, mode, events.drop_last());
    }
}

/// Where the cloud is asked for by a flag, the target is a directory, and the workspace and the
/// configuration can be written, an init makes the workspace, saves the cloud and reports, asking
/// nothing; and so does each further one, whether or not there was a configuration.
pub proof fn cloud_init_succeeds(
    args: InitArgs,
    mode: OutputMode,
    ws: String,
    configured: bool,
    is_workspace: bool,
    readme_len: u64,
    gitignore_len: u64,
)
    requires
        args.at is Some,
        !args.self_host,
        args.cloud || args.yes,
    ensures
        ({
            let events = seq![
                InitEvent::DirChecked(true),
                InitEvent::WorkspaceMade(Ok(ws)),
                InitEvent::Configured(configured),
                InitEvent::Saved(None),
                InitEvent::Looked { is_workspace, readme_len, gitignore_len },
            ];
            let existed = is_workspace && readme_len > 0 && gitignore_len > 0;
            &&& after(args, mode, events.take(0)).1 == ActionView::CheckDir(args.at->0@)
            &&& after(args, mode, events.take(1)).1 == ActionView::InitWorkspace(args.at->0@)
            &&& after(args, mode, events.take(2)).1 == ActionView::ReadConfigured
            &&& after(args, mode, events.take(3)).1 == ActionView::SaveBackend(cloud_mode())
            &&& after(args, mode, events.take(4)).1 == ActionView::LookAt(ws@)
            &&& after(args, mode, events).1 == (ActionView::Report {
                payload: payload_of(ws@, Some(cloud_mode()), existed),
                human: human_of(ws@, Some(cloud_mode()), existed),
            })
        }),
{
    let events = seq![
        InitEvent::DirChecked(true),
        InitEvent::WorkspaceMade(Ok(ws)),
        InitEvent::Configured(configured),
        InitEvent::Saved(None),
        InitEvent::Looked { is_workspace, readme_len, gitignore_len },
    ];
    assert(events.take(0).len() == 0);
    assert(events.take(1).drop_last() =~= events.take(0));
    assert(events.take(2).drop_last() =~= events.take(1));
    assert(events.take(3).drop_last() =~= events.take(2));
    assert(events.take(4).drop_last() =~= events.take(3));
    assert(events.drop_last() =~= events.take(4));
    assert(after(args, mode, events.take(0)) == check_dir(args.at->0@));
    assert(events.take(1).last() == events[0]);
    assert(events.take(2).last() == events[1]);
    assert(events.take(3).last() == events[2]);
    assert(events.take(4).last() == events[3]);
}

/// A flag decides the backend: `--self-host` before `--cloud` and `--yes`. Without a flag the user is
/// asked on the first run, unless output is quiet or JSON, and what is configured is kept otherwise.
pub proof fn flags_decide_the_backend(args: InitArgs, configured: bool, mode: OutputMode)
    ensures
        args.self_host ==> choice_of(args, configured, mode) is SelfHost,
        !args.self_host && args.cloud ==> choice_of(args, configured, mode) is Cloud,
        !args.self_host && args.yes ==> choice_of(args, configured, mode) is Cloud,
        !args.self_host && !args.cloud && !args.yes ==> {
            &&& configured ==> choice_of(args, configured, mode) is Keep
            &&& mode.quiet || mode.json ==> choice_of(args, configured, mode) is Keep
            &&& !configured && !mode.quiet && !mode.json ==> choice_of(args, configured, mode) is Prompt
        },
{
}

/// The answers `1`, `github` and `gh` ask for self-hosting; `2`, `cloud` and an empty line for the
/// cloud, whatever blanks stand around them; any other answer is refused.
pub proof fn answer_picks_the_backend(before: Seq<char>, word: Seq<char>, behind: Seq<char>)
    requires
        text::only_blanks(before),
        text::only_blanks(behind),
        word.len() > 0 ==> '!' <= word[0] <= '~' && '!' <= word.last() <= '~',
    ensures
        ({
            let answer = answer_of(before + word + behind);
            let own = word == "1"@ || word == "github"@ || word == "gh"@;
            let cloud = word == "2"@ || word == "cloud"@ || word.len() == 0;
            &&& own ==> answer == Ok::<BackendChoice, CliErrorView>(BackendChoice::SelfHost)
            &&& cloud ==> answer == Ok::<BackendChoice, CliErrorView>(BackendChoice::Cloud)
            &&& !own && !cloud ==> (answer matches Err(CliErrorView::User { code, .. }) && code
                == "INVALID_CHOICE"@)
        }),
{
    reveal_strlit("");
    reveal_strlit("1");
    reveal_strlit("github");
    reveal_strlit("gh");
    reveal_strlit("2");
    reveal_strlit("cloud");
    assert("1"@.len() == 1 && "1"@[0] == '1');
    assert("2"@.len() == 1 && "2"@[0] == '2');
    assert("gh"@.len() == 2);
    assert("github"@.len() == 6);
    assert("cloud"@.len() == 5);
    assert(""@.len() == 0);
    text::trim_takes_the_blanks_only(before, word, behind);
    if word.len() == 0 {
        assert(word =~= ""@);
    }
}

/// A repository is an owner and a name with a slash between them: what stands before the first
/// slash, and everything behind it. With nothing on one side, or no slash, it is refused.
pub proof fn repository_is_owner_and_name(owner: Seq<char>, repo: Seq<char>)
    requires
        !owner.contains('/'),
    ensures
        owner.len() > 0 && repo.len() > 0 ==> owner_repo(owner + seq!['/'] + repo) == Ok::<
            (Seq<char>, Seq<char>),
            CliErrorView,
        >((owner, repo)),
        owner_repo(owner) is Err,
        owner_repo(owner + seq!['/']) is Err,
        owner_repo(seq!['/'] + repo) is Err,
{
    let e = Seq::<char>::empty();
    text::cut_is_at_the_first(owner, repo, '/');
    text::cut_is_at_the_first(owner, e, '/');
    text::cut_is_at_the_first(e, repo, '/');
    assert(owner + seq!['/'] + e =~= owner + seq!['/']);
    assert(e + seq!['/'] + repo =~= seq!['/'] + repo);
}

/// The user is the one that `gh` told, and else the one of the environment, where it names one.
pub proof fn gh_is_believed_before_the_environment(told: Seq<char>, env: Seq<char>)
    ensures
        told.len() > 0 ==> user_of(told, Some(env)) == Some(told) && user_of(told, None) == Some(told),
        told.len() == 0 && env.len() > 0 ==> user_of(told, Some(env)) == Some(env),
        told.len() == 0 && env.len() == 0 ==> user_of(told, Some(env)) is None,
        told.len() == 0 ==> user_of(told, None) is None,
{
}

/// A self-hosted backend is the repository that was asked for, or else the repository `knack` of the
/// user; its clone is `knack` in the home directory. A repository in another form is refused.
pub proof fn self_host_takes_the_repository_asked_for(
    owner: Seq<char>,
    repo: Seq<char>,
    user: Seq<char>,
    home: Seq<char>,
)
    requires
        owner.len() > 0 && !owner.contains('/'),
        repo.len() > 0,
        home.len() > 0 && home.last() != '/',
    ensures
        self_host_of(Some(owner + seq!['/'] + repo), user, Some(home)) == Ok::<
            BackendModeView,
            CliErrorView,
        >(BackendModeView::Github { owner, repo, local_path: home + "/knack"@ }),
        self_host_of(None, user, Some(home)) == Ok::<BackendModeView, CliErrorView>(
            BackendModeView::Github { owner: user, repo: "knack"@, local_path: home + "/knack"@ },
        ),
        self_host_of(Some(owner), user, Some(home)) is Err,
{
    reveal_strlit("knack");
    reveal_strlit("/knack");
    repository_is_owner_and_name(owner, repo);
    paths::joining_puts_one_slash(home, "knack"@);
    assert(home + seq!['/'] + "knack"@ =~= home + "/knack"@);
}

/// An init that is to self-host asks for the user and saves the backend of that user, or of the
/// repository that was asked for; where no user can be told it fails and saves nothing.
pub proof fn self_host_init_saves_the_repository(
    args: InitArgs,
    mode: OutputMode,
    ws: Seq<char>,
    configured: bool,
    stdout: Option<Vec<u8>>,
    env: Option<String>,
    home: Option<String>,
)
    requires
        args.self_host,
    ensures
        ({
            let asked = step_of(
                args,
                mode,
                StateView::Configuring(ws),
                InitEvent::Configured(configured),
            );
            let told = step_of(args, mode, asked.0, InitEvent::UserAsked { stdout, env, home });
            &&& asked.1 is AskUser
            &&& match user_of(gh_user_of(stdout), text::opt_text(env)) {
                Some(u) => match self_host_of(
                    text::opt_text(args.github_repo),
                    u,
                    text::opt_text(home),
                ) {
                    Ok(b) => told.1 == ActionView::SaveBackend(b) && told.0 == StateView::Saving(ws, b),
                    Err(e) => told.1 == ActionView::Fail(e),
                },
                None => told.1 is Fail,
            }
        }),
{
}

/// A workspace is said to have been there only where it is one, and neither its README nor its
/// `.gitignore` is empty; and what was saved is what is reported.
pub proof fn report_tells_what_was_there(
    args: InitArgs,
    mode: OutputMode,
    ws: Seq<char>,
    b: BackendModeView,
    is_workspace: bool,
    readme_len: u64,
    gitignore_len: u64,
)
    ensures
        step_of(args, mode, StateView::Saving(ws, b), InitEvent::Saved(None)) == (
            StateView::Looking(ws, Some(b)),
            ActionView::LookAt(ws),
        ),
        step_of(
            args,
            mode,
            StateView::Looking(ws, Some(b)),
            InitEvent::Looked { is_workspace, readme_len, gitignore_len },
        ).1 == (ActionView::Report {
            payload: payload_of(
                ws,
                Some(b),
                is_workspace && readme_len != 0 && gitignore_len != 0,
            ),
            human: human_of(ws, Some(b), is_workspace && readme_len != 0 && gitignore_len != 0),
        }),
{
}

/// The report of an init tells the workspace, its two directories, whether it was there, and the backend,
/// each under its own name.
pub proof fn report_tells_the_workspace(ws: Seq<char>, b: Option<BackendModeView>, already_existed: bool)
    ensures
        json::field(payload_of(ws, b, already_existed), "workspace"@) == Some(Shape::Text(ws)),
        json::field(payload_of(ws, b, already_existed), "skills_dir"@) == Some(Shape::Text(paths::joined(ws, "skills"@))),
        json::field(payload_of(ws, b, already_existed), "drafts_dir"@) == Some(Shape::Text(paths::joined(ws, "drafts"@))),
        json::field(payload_of(ws, b, already_existed), "already_existed"@) == Some(Shape::Bool(already_existed)),
        json::field(payload_of(ws, b, already_existed), "backend"@) == Some(label_shape(b)),
{
    reveal_strlit("workspace");
    reveal_strlit("skills_dir");
    reveal_strlit("drafts_dir");
    reveal_strlit("already_existed");
    reveal_strlit("backend");
    assert("workspace"@.len() == 9 && "skills_dir"@.len() == 10 && "drafts_dir"@.len() == 10 && "already_existed"@.len() == 15 && "backend"@.len() == 7);
    assert("skills_dir"@[0] == 's' && "drafts_dir"@[0] == 'd');
    let f = seq![
        ("workspace"@, Shape::Text(ws)),
        ("skills_dir"@, Shape::Text(paths::joined(ws, "skills"@))),
        ("drafts_dir"@, Shape::Text(paths::joined(ws, "drafts"@))),
        ("already_existed"@, Shape::Bool(already_existed)),
        ("backend"@, label_shape(b)),
    ];
    assert(payload_of(ws, b, already_existed) == json::object_of(f));
    json::field_is_held(f, 0);
    json::field_is_held(f, 1);
    json::field_is_held(f, 2);
    json::field_is_held(f, 3);
    json::field_is_held(f, 4);
}

/// Without `--at` an init works in the current directory; with it, in the directory that was named;
/// what is no directory is refused.
pub proof fn init_works_where_it_is_told(args: InitArgs, mode: OutputMode, cwd: String, p: Seq<char>)
    ensures
        args.at matches Some(at) ==> start_of(args) == (
            StateView::Checking(at@),
            ActionView::CheckDir(at@),
        ),
        args.at is None ==> start_of(args).1 is ReadCwd && step_of(
            args,
            mode,
            start_of(args).0,
            InitEvent::Cwd(Ok(cwd)),
        ) == (StateView::Checking(cwd@), ActionView::CheckDir(cwd@)),
        step_of(args, mode, StateView::Checking(p), InitEvent::DirChecked(true)).1
            == ActionView::InitWorkspace(p),
        step_of(args, mode, StateView::Checking(p), InitEvent::DirChecked(false)).1 matches
            ActionView::Fail(CliErrorView::User { code, .. }) && code == "INIT_INVALID_TARGET"@,
{
}

/// An answer to the question leads where a flag of the same meaning leads: to the user for
/// self-hosting, to saving the cloud for the cloud, and to an error for anything else.
pub proof fn answer_is_followed(args: InitArgs, mode: OutputMode, ws: Seq<char>, line: String)
    ensures
        ({
            let next = step_of(args, mode, StateView::Prompting(ws), InitEvent::Answered(Ok(line)));
            match answer_of(line@) {
                Ok(BackendChoice::SelfHost) => next == (
                    StateView::Resolving(ws, None),
                    ActionView::AskUser,
                ),
                Ok(BackendChoice::Cloud) => next.1 == ActionView::SaveBackend(
                    BackendModeView::Cloud { api_base: "https://api.getknack.ai"@ },
                ),
                Ok(_) => true,
                Err(e) => next.1 == ActionView::Fail(e),
            }
        }),
{
}

/// What an init prints names the workspace and the backend that was chosen, and says on the cloud how
/// to sign in.
pub proof fn init_says_where_the_skills_live(
    ws: Seq<char>,
    b: BackendModeView,
    existed: bool,
)
    ensures
        text::occurs_in(human_of(ws, Some(b), existed), ws),
        text::occurs_in(human_of(ws, Some(b), existed), "✓ backend: "@ + config::label_of(b) + "\n"@),
        b is Cloud ==> text::occurs_in(
            human_of(ws, Some(b), existed),
            "\nnext: run `knack auth login` to sign into Knack Cloud.\n"@,
        ),
        human_of(ws, None, existed).is_prefix_of(human_of(ws, Some(b), existed)),
        human_of(ws, None, true) == "✓ workspace ready at "@ + ws + "\n"@,
        human_of(ws, None, false) == "✓ initialized "@ + ws + " (skills/, drafts/)\n"@,
{
    reveal_strlit("");
    let head = if existed {
        "✓ workspace ready at "@
    } else {
        "✓ initialized "@
    };
    let end = if existed {
        "\n"@
    } else {
        " (skills/, drafts/)\n"@
    };
    let short = head + ws + end;
    let told = "✓ backend: "@ + config::label_of(b) + "\n"@;
    let next = if b is Cloud {
        "\nnext: run `knack auth login` to sign into Knack Cloud.\n"@
    } else {
        ""@
    };
    let more = told + next;
    assert(human_of(ws, Some(b), existed) == short + more);
    assert(human_of(ws, None, existed) =~= short);
    assert(human_of(ws, None, true) =~= "✓ workspace ready at "@ + ws + "\n"@);
    assert(human_of(ws, None, false) =~= "✓ initialized "@ + ws + " (skills/, drafts/)\n"@);
    text::occurs_in_what_is_made_with_it(ws, head, ws);
    text::occurs_in_what_is_made_with_it(head + ws, end, ws);
    text::occurs_in_what_is_made_with_it(short, more, ws);
    text::occurs_in_what_is_made_with_it(told, next, told);
    text::occurs_in_what_is_made_with_it(more, short, told);
    text::occurs_in_what_is_made_with_it(next, told, next);
    text::occurs_in_what_is_made_with_it(more, short, next);
    assert(short =~= (short + more).subrange(0, short.len() as int));
}

/// The user that `gh` told is what it printed, the blanks and line ends around it aside; a `gh` that
/// did not run told none.
pub proof fn gh_user_is_what_it_printed(
    stdout: Vec<u8>,
    before: Seq<char>,
    user: Seq<char>,
    behind: Seq<char>,
)
    requires
        text::only_blanks(before),
        text::only_blanks(behind),
        user.len() > 0 ==> '!' <= user[0] <= '~' && '!' <= user.last() <= '~',
        vstd::utf8::valid_utf8(stdout@),
        vstd::utf8::decode_utf8(stdout@) == before + user + behind,
    ensures
        gh_user_of(Some(stdout)) == user,
        gh_user_of(None).len() == 0,
{
    text::trim_takes_the_blanks_only(before, user, behind);
}

} // verus!
