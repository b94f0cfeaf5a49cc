use knack::config::{backend_label, backend_tag, BackendMode};
use knack::errors::OutputMode;
use knack::init::{
    choose_backend, configure_self_host, gh_missing_error, parse_answer, parse_owner_repo,
    pick_gh_user, resolve_gh_user, start, step, BackendChoice, InitAction, InitArgs, InitEvent,
    InitState,
};

const PLAIN: OutputMode = OutputMode { json: false, quiet: false, no_color: true };
const QUIET: OutputMode = OutputMode { json: false, quiet: true, no_color: true };

fn args(at: Option<&str>, self_host: bool, cloud: bool, yes: bool) -> InitArgs {
    InitArgs { at: at.map(str::to_string), self_host, cloud, github_repo: None, yes }
}

// Carries an init out against a machine on which everything works.
fn drive(args: &InitArgs, mode: OutputMode, configured: bool, answer: &str) -> (Vec<String>, InitAction) {
    let mut log = Vec::new();
    let (mut state, mut action) = start(args);
    loop {
        let event = match &action {
            InitAction::ReadCwd => InitEvent::Cwd(Ok("/work".to_string())),
            InitAction::CheckDir(p) => {
                log.push(format!("check {p}"));
                InitEvent::DirChecked(true)
            }
            InitAction::InitWorkspace(p) => {
                log.push(format!("make {p}"));
                InitEvent::WorkspaceMade(Ok(format!("{p}/.knack")))
            }
            InitAction::ReadConfigured => InitEvent::Configured(configured),
            InitAction::Ask(_) => {
                log.push("ask".to_string());
                InitEvent::Answered(Ok(answer.to_string()))
            }
            InitAction::AskUser => InitEvent::UserAsked {
                stdout: Some(b"octocat\n".to_vec()),
                env: None,
                home: Some("/home/u".to_string()),
            },
            InitAction::SaveBackend(b) => {
                log.push(format!("save {}", backend_label(b)));
                InitEvent::Saved(None)
            }
            InitAction::LookAt(p) => {
                log.push(format!("look {p}"));
                InitEvent::Looked { is_workspace: true, readme_len: 10, gitignore_len: 3 }
            }
            InitAction::Finish(_) | InitAction::Rest => return (log, action),
        };
        let next = step(args, mode, state, event);
        state = next.0;
        action = next.1;
    }
}

#[test]
fn init_creates_workspace_at_explicit_path() {
    let a = args(Some("/tmp/root"), false, true, false);
    let (log, action) = drive(&a, QUIET, false, "");
    assert_eq!(
        log,
        vec![
            "check /tmp/root",
            "make /tmp/root",
            "save cloud (https://api.getknack.ai)",
            "look /tmp/root/.knack"
        ]
    );
    match action {
        InitAction::Finish(Ok((value, human))) => {
            assert_eq!(value["workspace"], "/tmp/root/.knack");
            assert_eq!(value["skills_dir"], "/tmp/root/.knack/skills");
            assert_eq!(value["drafts_dir"], "/tmp/root/.knack/drafts");
            assert_eq!(value["already_existed"], true);
            assert_eq!(value["backend"], "cloud (https://api.getknack.ai)");
            assert_eq!(
                human,
                "✓ workspace ready at /tmp/root/.knack\n✓ backend: cloud (https://api.getknack.ai)\n\nnext: run `knack auth login` to sign into Knack Cloud.\n"
            );
        }
        other => panic!("expected a report, got {other:?}"),
    }
}

#[test]
fn init_is_idempotent() {
    let a = args(Some("/tmp/root"), false, true, false);
    let first = drive(&a, QUIET, false, "");
    let second = drive(&a, QUIET, true, "");
    assert_eq!(first.0, second.0);
}

#[test]
fn a_second_init_does_the_same() {
    let report = |action: InitAction| match action {
        InitAction::Finish(Ok((value, human))) => (value, human),
        other => panic!("expected a report, got {other:?}"),
    };
    for a in [
        args(Some("/tmp/root"), false, true, false),
        args(Some("/tmp/root"), false, false, true),
        args(Some("/tmp/root"), true, false, false),
    ] {
        let first = drive(&a, PLAIN, false, "2");
        let second = drive(&a, PLAIN, true, "1");
        assert_eq!(first.0, second.0);
        assert!(!first.0.contains(&"ask".to_string()));
        assert_eq!(report(first.1), report(second.1));
    }
}

#[test]
fn init_keeps_what_is_configured() {
    let (log, action) = drive(&args(None, false, false, false), PLAIN, true, "1");
    assert_eq!(log, vec!["check /work", "make /work", "look /work/.knack"]);
    match action {
        InitAction::Finish(Ok((value, human))) => {
            assert!(value["backend"].is_null());
            assert_eq!(human, "✓ workspace ready at /work/.knack\n");
        }
        other => panic!("expected a report, got {other:?}"),
    }
}

#[test]
fn init_asks_once() {
    let (log, _) = drive(&args(None, false, false, false), PLAIN, false, " gh \n");
    assert_eq!(
        log,
        vec!["check /work", "make /work", "ask", "save github (octocat/knack)", "look /work/.knack"]
    );
    let (log, action) = drive(&args(None, false, false, false), PLAIN, false, "3\n");
    assert_eq!(log, vec!["check /work", "make /work", "ask"]);
    match action {
        InitAction::Finish(Err(e)) => {
            assert_eq!(e.code(), "INVALID_CHOICE");
            assert_eq!(e.message(), "expected 1 or 2, got '3'");
        }
        other => panic!("expected an error, got {other:?}"),
    }
    let (log, _) = drive(&args(None, false, false, false), QUIET, false, "1");
    assert_eq!(log, vec!["check /work", "make /work", "look /work/.knack"]);
}

#[test]
fn init_stops_at_what_is_no_directory() {
    let a = args(Some("/tmp/file"), true, false, false);
    let (state, _) = start(&a);
    let (state, action) = step(&a, PLAIN, state, InitEvent::DirChecked(false));
    assert!(matches!(state, InitState::Done));
    match action {
        InitAction::Finish(Err(e)) => {
            assert_eq!(e.code(), "INIT_INVALID_TARGET");
            assert_eq!(e.message(), "not a directory: /tmp/file");
            assert_eq!(e.hint(), Some("pass --at <existing-dir> or run from a real workspace"));
        }
        other => panic!("expected an error, got {other:?}"),
    }
}

#[test]
fn init_reports_what_went_wrong_outside() {
    let a = args(None, false, true, false);
    let (state, _) = start(&a);
    let (_, action) = step(&a, PLAIN, state, InitEvent::Cwd(Err("gone".to_string())));
    match action {
        InitAction::Finish(Err(e)) => assert_eq!(e.message(), "could not read cwd: gone"),
        other => panic!("expected an error, got {other:?}"),
    }
    let (_, action) =
        step(&a, PLAIN, InitState::Scaffolding, InitEvent::WorkspaceMade(Err("ro".to_string())));
    match action {
        InitAction::Finish(Err(e)) => assert_eq!(e.message(), "init failed: ro"),
        other => panic!("expected an error, got {other:?}"),
    }
    let cloud = BackendMode::Cloud { api_base: "x".to_string() };
    let saving = InitState::Saving("/ws".to_string(), cloud);
    let (_, action) = step(&a, PLAIN, saving, InitEvent::Saved(Some("full".to_string())));
    match action {
        InitAction::Finish(Err(e)) => {
            assert_eq!(e.code(), "INTERNAL");
            assert_eq!(e.message(), "write config.yaml: full");
        }
        other => panic!("expected an error, got {other:?}"),
    }
    let (state, action) = step(&a, PLAIN, InitState::Scaffolding, InitEvent::Configured(true));
    assert!(matches!(state, InitState::Scaffolding));
    assert!(matches!(action, InitAction::Rest));
}

#[test]
fn init_says_what_is_new() {
    let a = args(None, false, false, false);
    let looking = InitState::Looking("/ws".to_string(), None);
    let event = InitEvent::Looked { is_workspace: true, readme_len: 0, gitignore_len: 3 };
    match step(&a, PLAIN, looking, event).1 {
        InitAction::Finish(Ok((value, human))) => {
            assert_eq!(value["already_existed"], false);
            assert_eq!(human, "✓ initialized /ws (skills/, drafts/)\n");
        }
        other => panic!("expected a report, got {other:?}"),
    }
}

#[test]
fn parses_owner_repo() {
    assert_eq!(
        parse_owner_repo("jordan-gibbs/knack").unwrap(),
        ("jordan-gibbs".into(), "knack".into())
    );
    assert!(parse_owner_repo("invalid").is_err());
    assert!(parse_owner_repo("/repo").is_err());
    assert!(parse_owner_repo("owner/").is_err());
}

#[test]
fn owner_repo_splits_at_the_first_slash() {
    assert_eq!(parse_owner_repo("a/b/c").unwrap(), ("a".into(), "b/c".into()));
    let err = parse_owner_repo("x").unwrap_err();
    assert_eq!(err.code(), "INVALID_REPO");
    assert_eq!(err.message(), "--github-repo must be '<owner>/<repo>', got 'x'");
    assert_eq!(err.hint(), None);
}

#[test]
fn flags_decide_before_the_question() {
    assert_eq!(choose_backend(&args(None, true, false, true), true, PLAIN), BackendChoice::SelfHost);
    assert_eq!(choose_backend(&args(None, false, true, false), true, PLAIN), BackendChoice::Cloud);
    assert_eq!(choose_backend(&args(None, false, false, true), false, PLAIN), BackendChoice::Cloud);
    assert_eq!(choose_backend(&args(None, false, false, false), false, PLAIN), BackendChoice::Prompt);
    assert_eq!(choose_backend(&args(None, false, false, false), false, QUIET), BackendChoice::Keep);
    let json = OutputMode { json: true, quiet: false, no_color: false };
    assert_eq!(choose_backend(&args(None, false, false, false), false, json), BackendChoice::Keep);
    assert_eq!(parse_answer("\n").unwrap(), BackendChoice::Cloud);
    assert_eq!(parse_answer("1\r\n").unwrap(), BackendChoice::SelfHost);
}

#[test]
fn gh_tells_the_user_before_the_environment() {
    let env = Some("env-user".to_string());
    assert_eq!(resolve_gh_user(&Some(b" octocat\n".to_vec()), &env).unwrap(), "octocat");
    assert_eq!(resolve_gh_user(&None, &env).unwrap(), "env-user");
    assert_eq!(resolve_gh_user(&Some(b"\n".to_vec()), &env).unwrap(), "env-user");
    let err = resolve_gh_user(&None, &Some(String::new())).unwrap_err();
    assert_eq!(err.code(), "GH_NOT_AUTHENTICATED");
    assert_eq!(err.message(), gh_missing_error().message());
    assert_eq!(pick_gh_user("told", &None).unwrap(), "told");
    assert!(pick_gh_user("", &None).is_err());
}

#[test]
fn self_host_defaults_to_a_repo_of_the_user() {
    match configure_self_host(&None, "octocat", Some("/home/u")).unwrap() {
        BackendMode::Github { owner, repo, local_path } => {
            assert_eq!((owner.as_str(), repo.as_str()), ("octocat", "knack"));
            assert_eq!(local_path, "/home/u/knack");
        }
        other => panic!("expected github, got {other:?}"),
    }
    let b = configure_self_host(&Some("org/skills".to_string()), "octocat", None).unwrap();
    assert_eq!(backend_label(&b), "github (org/skills)");
    assert_eq!(backend_tag(&b), "github");
    match b {
        BackendMode::Github { local_path, .. } => assert_eq!(local_path, "./knack"),
        other => panic!("expected github, got {other:?}"),
    }
    assert!(configure_self_host(&Some("nope".to_string()), "octocat", None).is_err());
}
