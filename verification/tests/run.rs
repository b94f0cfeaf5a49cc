use knack::clock::Timestamp;
use knack::cloud::CloudSkill;
use knack::cloud_run;
use knack::cloud_run::{CloudAction, CloudEvent, CloudRun, LinkUpdate};
use knack::errors::CliError;
use knack::github_run;
use knack::github_run::{GithubAction, GithubEvent, GithubRun};
use knack::run::{
    auto_close_disabled, close_outcome, close_requests, inputs_summary, parse_slug_at_version,
    resolve_mode, resolve_push_flag, LocalSkill, RunArgs,
};
use knack::run_state::{load, push_run, set_marked, RecentRuns};
use knack::skill_validators::ModeSpec;

const NOW: Timestamp = Timestamp { secs: 1_752_000_000, nanos: 0 };

fn args(slug: &str) -> RunArgs {
    RunArgs {
        slug: slug.to_string(),
        input: Vec::new(),
        runtime: None,
        agent_id: None,
        no_exec: false,
        dry: false,
        no_push: false,
        keep_open: false,
        mode: None,
    }
}

fn local() -> Option<LocalSkill> {
    let strings = |v: &[&str]| v.iter().map(|s| s.to_string()).collect::<Vec<String>>();
    Some(LocalSkill {
        modes: Some(vec![
            ModeSpec { name: "draft".into(), load: strings(&["examples/*.md", "guide.md"]) },
            ModeSpec { name: "email".into(), load: strings(&["nothing-*.md"]) },
        ]),
        files: strings(&["guide.md", "examples/b.md", "SKILL.md", "examples/a.md", "guide.md"]),
    })
}

fn skill(current: Option<&str>, semver: Option<&str>) -> CloudSkill {
    CloudSkill {
        id: "sk-1".into(),
        current_version_id: current.map(str::to_string),
        current_version_semver: semver.map(str::to_string),
        owner_username: Some("ann".into()),
        owner_team_id: None,
    }
}

fn record(runs: &[(&str, &str, &str)]) -> RecentRuns {
    let mut rec = load(None);
    for (id, slug, backend) in runs {
        push_run(&mut rec, id, slug, backend, NOW);
    }
    rec
}

fn cloud_error(action: CloudAction) -> CliError {
    match action {
        CloudAction::Finish(Err(e)) => e,
        other => panic!("expected an error, got {other:?}"),
    }
}

fn github_error(action: GithubAction) -> CliError {
    match action {
        GithubAction::Finish(Err(e)) => e,
        other => panic!("expected an error, got {other:?}"),
    }
}

#[test]
fn skill_identifiers() {
    assert_eq!(parse_slug_at_version("foo"), ("foo", None));
    assert_eq!(parse_slug_at_version("foo@1.2.0"), ("foo", Some("1.2.0")));
    assert_eq!(parse_slug_at_version("@ann/foo"), ("@ann/foo", None));
    assert_eq!(parse_slug_at_version("@ann/foo@1.2.0"), ("@ann/foo", Some("1.2.0")));
    assert_eq!(parse_slug_at_version(""), ("", None));
    assert_eq!(parse_slug_at_version("@"), ("@", None));
}

#[test]
fn auto_close_has_two_switches() {
    let mut a = args("s");
    assert!(!auto_close_disabled(&a, None));
    assert!(!auto_close_disabled(&a, Some("0")));
    assert!(!auto_close_disabled(&a, Some("TRUE")));
    assert!(auto_close_disabled(&a, Some("1")));
    assert!(auto_close_disabled(&a, Some("true")));
    a.keep_open = true;
    assert!(auto_close_disabled(&a, None));
}

#[test]
fn a_mode_loads_its_files() {
    assert_eq!(
        resolve_mode("draft", &local()).unwrap(),
        vec!["examples/a.md", "examples/b.md", "guide.md"]
    );
    assert!(resolve_mode("email", &local()).unwrap().is_empty());
    let err = resolve_mode("emial", &local()).unwrap_err();
    assert_eq!(err.code(), "RUN_UNKNOWN_MODE");
    assert_eq!(err.message(), "skill has no mode `emial`");
    assert_eq!(err.hint(), Some("available modes: draft, email"));
    assert!(resolve_mode("any", &None).unwrap().is_empty());
    let plain = Some(LocalSkill { modes: None, files: vec!["any".into()] });
    assert!(resolve_mode("any", &plain).unwrap().is_empty());
}

#[test]
fn inputs_are_summed_up() {
    assert!(inputs_summary(&Vec::new(), &None).is_none());
    let only_mode = inputs_summary(&Vec::new(), &Some("m".into())).unwrap();
    assert_eq!(only_mode["mode"], "m");
    assert!(only_mode.get("files").is_none());
    let input = vec!["/data/october.xlsx".to_string(), "dir/..".to_string(), "a/b/".to_string()];
    let v = inputs_summary(&input, &None).unwrap();
    assert_eq!(v["files"].as_array().unwrap().len(), 3);
    assert_eq!(v["files"][0]["path"], "/data/october.xlsx");
    assert_eq!(v["files"][0]["filename"], "october.xlsx");
    assert!(v["files"][1]["filename"].is_null());
    assert_eq!(v["files"][2]["filename"], "b");
    assert!(v.get("mode").is_none());
}

#[test]
fn a_broken_push_policy_is_an_error() {
    assert_eq!(resolve_push_flag(Ok(true)).unwrap(), true);
    assert_eq!(resolve_push_flag(Ok(false)).unwrap(), false);
    let err = resolve_push_flag(Err("bad yaml".into())).unwrap_err();
    assert_eq!(err.code(), "WORKSPACE_CONFIG_INVALID");
    assert_eq!(err.message(), "could not read auto_push from <repo>/knack.yaml: bad yaml");
}

#[test]
fn only_runs_of_the_same_skill_are_superseded() {
    let rec = record(&[
        ("r1", "s", "cloud"),
        ("r2", "other", "cloud"),
        ("r3", "s", "github"),
        ("r4", "s", "cloud"),
        ("new", "s", "cloud"),
    ]);
    let requests = close_requests(&rec, "cloud", "s", "new");
    let ids: Vec<&str> = requests.iter().map(|m| m.run_id.as_str()).collect();
    assert_eq!(ids, vec!["r4", "r1"]);
    assert!(requests.iter().all(|m| m.status == "abandoned"));
    assert!(requests.iter().all(|m| m.note == "superseded by run new"));
    let (closed, warnings) = close_outcome(&requests, &vec![Some("too old".into()), None]);
    assert_eq!(closed, vec!["r1"]);
    assert_eq!(warnings, vec!["knack: could not auto-close stale run r4: too old"]);
    let (closed, warnings) = close_outcome(&requests, &vec![None]);
    assert_eq!(closed, vec!["r4"]);
    assert!(warnings.is_empty());
}

#[test]
fn closed_runs_are_not_asked_for_again() {
    let mut rec = record(&[("r1", "s", "cloud"), ("r2", "s", "cloud"), ("new", "s", "cloud")]);
    let requests = close_requests(&rec, "cloud", "s", "new");
    let (closed, _) = close_outcome(&requests, &vec![None, Some("refused".into())]);
    assert!(set_marked(&mut rec, &closed));
    let again = close_requests(&rec, "cloud", "s", "newer");
    let ids: Vec<&str> = again.iter().map(|m| m.run_id.as_str()).collect();
    assert_eq!(ids, vec!["new", "r1"]);
    let mut copy = rec.clone();
    push_run(&mut copy, "x", "s", "cloud", NOW);
    assert_eq!(rec.entries.len() + 1, copy.entries.len());
}

#[test]
fn cloud_run_from_start_to_report() {
    let mut a = args("s");
    a.mode = Some("draft".into());
    a.agent_id = Some("a-7".into());
    let (state, action) = cloud_run::start(&a, Some("/pool/s".into()), &local());
    assert!(matches!(action, CloudAction::FindSkill(ref s) if s == "s"));
    let found = CloudEvent::SkillFound(Ok(Some(skill(Some("v-9"), Some("2.0.0")))));
    let (state, action) = cloud_run::step(&a, None, state, found);
    match action {
        CloudAction::StartRun(c) => {
            assert_eq!(c.skill_version_id, "v-9");
            assert_eq!(c.agent_id.as_deref(), Some("a-7"));
            assert_eq!(c.runtime.as_deref(), Some("agent"));
            assert_eq!(c.inputs_summary.unwrap()["mode"], "draft");
        }
        other => panic!("expected a start, got {other:?}"),
    }
    let started = CloudEvent::Started(Ok(("new".into(), "v-9".into())));
    let (state, action) = cloud_run::step(&a, None, state, started);
    match action {
        CloudAction::Record { run_id, slug, backend } => {
            assert_eq!((run_id.as_str(), slug.as_str(), backend.as_str()), ("new", "s", "cloud"));
        }
        other => panic!("expected a record, got {other:?}"),
    }
    let rec = record(&[("r1", "s", "cloud"), ("r2", "s", "cloud"), ("new", "s", "cloud")]);
    let (state, action) = cloud_run::step(&a, None, state, CloudEvent::Recorded(rec));
    match action {
        CloudAction::MarkRuns(requests) => assert_eq!(requests.len(), 2),
        other => panic!("expected marks, got {other:?}"),
    }
    let outcomes = vec![Some("refused".into()), None];
    let (state, action) = cloud_run::step(&a, None, state, CloudEvent::Marked(outcomes));
    match action {
        CloudAction::SaveMarks { ids, warnings } => {
            assert_eq!(ids, vec!["r1"]);
            assert_eq!(warnings.len(), 1);
        }
        other => panic!("expected saved marks, got {other:?}"),
    }
    let (state, action) = cloud_run::step(&a, None, state, CloudEvent::Saved);
    match action {
        CloudAction::CheckUpdate { slug, latest, owner, is_team } => {
            assert_eq!((slug.as_str(), latest.as_str()), ("s", "2.0.0"));
            assert_eq!(owner.as_deref(), Some("ann"));
            assert!(!is_team);
        }
        other => panic!("expected an update check, got {other:?}"),
    }
    let update = LinkUpdate {
        slug: "s".into(),
        have: "1.0.0".into(),
        latest: "2.0.0".into(),
        author: None,
        line: "s 2.0.0 is out".into(),
    };
    let (state, action) = cloud_run::step(&a, None, state, CloudEvent::UpdateChecked(Some(update)));
    assert!(matches!(state, CloudRun::Done));
    match action {
        CloudAction::Finish(Ok(report)) => {
            assert_eq!(
                report.chatter,
                "run registered · skill=s · runtime=agent — execute the skill, then `knack mark last succeeded` (or `failed --note \"…\"`)"
            );
            let v = report.payload;
            assert_eq!(v["run_id"], "new");
            assert_eq!(v["skill_version_id"], "v-9");
            assert_eq!(v["runtime"], "agent");
            assert_eq!(v["auto_closed"][0], "r1");
            assert_eq!(v["source"], "/pool/s");
            assert_eq!(v["mode"], "draft");
            assert_eq!(v["mode_load"].as_array().unwrap().len(), 3);
            assert_eq!(v["update_available"]["have"], "1.0.0");
            assert!(v["update_available"]["author"].is_null());
            assert_eq!(
                report.human,
                "✓ run registered · new\n  auto-closed 1 stale run(s) as abandoned: r1\n  next: read /pool/s/SKILL.md and do the work yourself,\n        mode: draft — load only: examples/a.md, examples/b.md, guide.md\n        then `knack mark last succeeded` (or `failed --note \"…\"`).\n  ⚠ s 2.0.0 is out\n"
            );
        }
        other => panic!("expected a report, got {other:?}"),
    }
}

#[test]
fn a_mistyped_mode_asks_the_cloud_nothing() {
    let mut a = args("s");
    a.mode = Some("emial".into());
    let (state, action) = cloud_run::start(&a, None, &local());
    assert!(matches!(state, CloudRun::Done));
    assert_eq!(cloud_error(action).code(), "RUN_UNKNOWN_MODE");
    let (_, action) = cloud_run::step(&a, None, state, CloudEvent::Saved);
    assert!(matches!(action, CloudAction::Rest));
}

#[test]
fn a_pinned_run_reads_its_version() {
    let a = args("s@1.0.0");
    let begin = || {
        let (state, _) = cloud_run::start(&a, None, &None);
        let found = CloudEvent::SkillFound(Ok(Some(skill(Some("v-9"), Some("2.0.0")))));
        cloud_run::step(&a, Some("1"), state, found)
    };
    let (state, action) = begin();
    match action {
        CloudAction::GetVersion { skill_id, semver } => {
            assert_eq!((skill_id.as_str(), semver.as_str()), ("sk-1", "1.0.0"));
        }
        other => panic!("expected a version read, got {other:?}"),
    }
    let (state, action) =
        cloud_run::step(&a, Some("1"), state, CloudEvent::VersionRead(Ok("v-1".into())));
    assert!(matches!(action, CloudAction::StartRun(ref c) if c.skill_version_id == "v-1"));
    let started = CloudEvent::Started(Ok(("new".into(), "v-1".into())));
    let (state, _) = cloud_run::step(&a, Some("1"), state, started);
    let rec = record(&[("r1", "s", "cloud")]);
    let (_, action) = cloud_run::step(&a, Some("1"), state, CloudEvent::Recorded(rec));
    match action {
        CloudAction::Finish(Ok(report)) => {
            assert_eq!(report.payload["auto_closed"].as_array().unwrap().len(), 0);
            assert!(report.payload["update_available"].is_null());
            assert!(report.payload["source"].is_null());
            assert_eq!(
                report.human,
                "✓ run registered · new\n  next: read ~/.knack/skills/s@1.0.0/SKILL.md and do the work yourself,\n        then `knack mark last succeeded` (or `failed --note \"…\"`).\n"
            );
        }
        other => panic!("expected a report, got {other:?}"),
    }
    let missing = CloudEvent::VersionRead(Err(CliError::NotFound("404".into())));
    let err = cloud_error(cloud_run::step(&a, None, begin().0, missing).1);
    assert_eq!(err.message(), "skill `s` has no version `1.0.0`");
    let broken = CloudEvent::VersionRead(Err(CliError::Internal("502".into())));
    assert_eq!(cloud_error(cloud_run::step(&a, None, begin().0, broken).1).message(), "502");
}

#[test]
fn a_skill_has_to_be_known_and_published() {
    let a = args("s");
    let event = |e: CloudEvent| {
        let (state, _) = cloud_run::start(&a, None, &None);
        cloud_error(cloud_run::step(&a, None, state, e).1)
    };
    let err = event(CloudEvent::SkillFound(Ok(None)));
    assert_eq!((err.code(), err.message()), ("NOT_FOUND", "skill `s` not found"));
    let err = event(CloudEvent::SkillFound(Ok(Some(skill(None, None)))));
    assert_eq!(err.message(), "skill `s` has no published version");
    let err = event(CloudEvent::SkillFound(Err(CliError::Internal("offline".into()))));
    assert_eq!(err.message(), "offline");
}

#[test]
fn github_run_from_start_to_report() {
    let mut a = args("s");
    a.input = vec!["in.csv".into()];
    a.runtime = Some("codex".into());
    let (state, action) = github_run::start(&a, "/reg");
    assert!(matches!(action, GithubAction::Inspect(ref d) if d == "/reg/skills/s"));
    let inspected = GithubEvent::Inspected {
        is_dir: true,
        meta: Some(b"version: 1.4.0\n".to_vec()),
        local: local(),
    };
    let (state, action) = github_run::step(&a, "/reg", None, state, inspected);
    assert!(matches!(action, GithubAction::ResolvePush { no_push: false }));
    let (state, action) =
        github_run::step(&a, "/reg", None, state, GithubEvent::PushResolved(Ok(true)));
    match action {
        GithubAction::StartRun(s) => {
            assert_eq!((s.slug.as_str(), s.version.as_str()), ("s", "1.4.0"));
            assert_eq!(s.agent.as_deref(), Some("codex"));
            assert_eq!(s.inputs, vec!["in.csv"]);
            assert_eq!(s.mode, None);
            assert!(s.push);
        }
        other => panic!("expected a start, got {other:?}"),
    }
    let (state, action) =
        github_run::step(&a, "/reg", None, state, GithubEvent::Started(Ok("new".into())));
    assert!(matches!(action, GithubAction::Record { ref backend, .. } if backend == "github"));
    let rec = record(&[("r1", "s", "github"), ("r2", "s", "cloud"), ("new", "s", "github")]);
    let (state, action) = github_run::step(&a, "/reg", None, state, GithubEvent::Recorded(rec));
    match action {
        GithubAction::MarkRuns { requests, push } => {
            assert_eq!(requests.len(), 1);
            assert_eq!(requests[0].run_id, "r1");
            assert!(push);
        }
        other => panic!("expected marks, got {other:?}"),
    }
    let (state, action) =
        github_run::step(&a, "/reg", None, state, GithubEvent::Marked(vec![None]));
    assert!(matches!(action, GithubAction::SaveMarks { ref ids, .. } if ids.len() == 1));
    let (state, action) = github_run::step(&a, "/reg", None, state, GithubEvent::Saved);
    assert!(matches!(action, GithubAction::TellLogFile));
    let (state, action) =
        github_run::step(&a, "/reg", None, state, GithubEvent::Timed("/reg/runs/x.jsonl".into()));
    assert!(matches!(state, GithubRun::Done));
    match action {
        GithubAction::Finish(Ok((v, human))) => {
            assert_eq!(v["run_id"], "new");
            assert_eq!(v["slug"], "s");
            assert_eq!(v["version"], "1.4.0");
            assert_eq!(v["agent"], "codex");
            assert_eq!(v["inputs"][0], "in.csv");
            assert_eq!(v["status"], "started");
            assert_eq!(v["backend"], "github");
            assert_eq!(v["auto_closed"][0], "r1");
            assert_eq!(v["source"], "/reg/skills/s");
            assert!(v["mode"].is_null());
            assert_eq!(v["mode_load"].as_array().unwrap().len(), 0);
            assert_eq!(v["log_file"], "/reg/runs/x.jsonl");
            assert_eq!(
                human,
                "✓ s run-id: new\n  source: /reg/skills/s\n  auto-closed 1 stale run(s) as abandoned: r1\n  recorded to /reg/runs/x.jsonl\n\nclose the loop with: knack mark last succeeded   (or `failed --reason …`)\n"
            );
        }
        other => panic!("expected a report, got {other:?}"),
    }
}

#[test]
fn github_run_stops_before_recording() {
    let mut a = args("s@v2.0.0");
    a.mode = Some("emial".into());
    let inspected = |is_dir: bool| GithubEvent::Inspected { is_dir, meta: None, local: local() };
    let (state, _) = github_run::start(&a, "/reg");
    let err = github_error(github_run::step(&a, "/reg", None, state, inspected(false)).1);
    assert_eq!(err.message(), "skill `s` not found in /reg");
    let (state, _) = github_run::start(&a, "/reg");
    let err = github_error(github_run::step(&a, "/reg", None, state, inspected(true)).1);
    assert_eq!(err.code(), "RUN_UNKNOWN_MODE");
    a.mode = Some("email".into());
    a.no_push = true;
    let (state, _) = github_run::start(&a, "/reg");
    let (state, action) = github_run::step(&a, "/reg", None, state, inspected(true));
    assert!(matches!(action, GithubAction::ResolvePush { no_push: true }));
    let refused = GithubEvent::PushResolved(Err("bad".into()));
    match &state {
        GithubRun::Pushing(plan) => assert_eq!(plan.version, "2.0.0"),
        other => panic!("expected a plan, got {other:?}"),
    }
    let err = github_error(github_run::step(&a, "/reg", None, state, refused).1);
    assert_eq!(err.code(), "WORKSPACE_CONFIG_INVALID");
    let (state, _) = github_run::start(&a, "/reg");
    let (state, _) = github_run::step(&a, "/reg", None, state, inspected(true));
    let (state, _) =
        github_run::step(&a, "/reg", None, state, GithubEvent::PushResolved(Ok(false)));
    let failed = GithubEvent::Started(Err("disk full".into()));
    let err = github_error(github_run::step(&a, "/reg", None, state, failed).1);
    assert_eq!((err.code(), err.message()), ("INTERNAL", "record run: disk full"));
}

#[test]
fn kept_runs_are_not_marked() {
    let mut a = args("s");
    a.keep_open = true;
    let (state, _) = github_run::start(&a, "/reg");
    let inspected = GithubEvent::Inspected { is_dir: true, meta: None, local: None };
    let (state, _) = github_run::step(&a, "/reg", None, state, inspected);
    let (state, _) =
        github_run::step(&a, "/reg", None, state, GithubEvent::PushResolved(Ok(false)));
    let (state, _) =
        github_run::step(&a, "/reg", None, state, GithubEvent::Started(Ok("new".into())));
    let rec = record(&[("r1", "s", "github")]);
    let (_, action) = github_run::step(&a, "/reg", None, state, GithubEvent::Recorded(rec));
    assert!(matches!(action, GithubAction::TellLogFile));
}
