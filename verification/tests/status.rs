use knack::clock::Timestamp;
use knack::cloud::{CloudSkill, CloudVersion};
use knack::config::BackendMode;
use knack::content::{changed_vs_tag, copies_disagree, eol_eq, normalize_eol, same_content};
use knack::errors::{BackendError, CliError};
use knack::skill::{SkillFile, SkillManifest, SkillPackage};
use knack::skill_status::{start, step, StatusAction, StatusEvent, StatusState};
use knack::status::{
    candidates, check_copies, cloud_changed, cloud_version, copies_of, copy_to_compare,
    github_changed, local_slugs, overview_human, overview_payload, registry_root,
    resolve_existing_skill_dir, roots, skill_row, status_human, status_payload, CopyKind, Inspected,
    RootEntry, SkillStatus,
};

fn file(path: &str, body: &str) -> SkillFile {
    SkillFile { path: path.to_string(), bytes: body.as_bytes().to_vec() }
}

fn place(kind: CopyKind, path: &str, is_dir: bool, meta: Option<&str>) -> Inspected {
    Inspected {
        kind,
        path: path.to_string(),
        is_dir,
        has_skill_md: is_dir,
        meta: meta.map(|m| m.as_bytes().to_vec()),
    }
}

fn github() -> BackendMode {
    BackendMode::Github {
        owner: "o".to_string(),
        repo: "r".to_string(),
        local_path: "/reg".to_string(),
    }
}

fn cloud() -> BackendMode {
    BackendMode::Cloud { api_base: "https://api".to_string() }
}

#[test]
fn normalize_eol_strips_crlf_only() {
    assert_eq!(normalize_eol(b"a\r\nb"), b"a\nb");
    assert_eq!(normalize_eol(b"a\rb"), b"a\rb");
    assert!(eol_eq(b"x\r\n", b"x\n"));
    assert!(!eol_eq(b"x\r\n", b"y\n"));
}

#[test]
fn normalize_eol_at_the_ends() {
    assert_eq!(normalize_eol(b""), b"");
    assert_eq!(normalize_eol(b"\r"), b"\r");
    assert_eq!(normalize_eol(b"\r\n"), b"\n");
    assert_eq!(normalize_eol(b"\r\r\n"), b"\r\n");
    assert_eq!(normalize_eol(b"\r\n\r\n"), b"\n\n");
}

#[test]
fn candidates_come_in_resolution_order() {
    let found = candidates("s", Some("/ws/.knack"), "/home/pool", Some("/reg"));
    let listed: Vec<(&str, &str)> = found.iter().map(|c| (c.kind.name(), c.path.as_str())).collect();
    assert_eq!(
        listed,
        vec![
            ("workspace-draft", "/ws/.knack/drafts/s"),
            ("workspace-skill", "/ws/.knack/skills/s"),
            ("home-pool", "/home/pool/s"),
            ("registry", "/reg/skills/s"),
        ]
    );
    assert_eq!(candidates("s", None, "/home/pool", None).len(), 1);
    assert_eq!(
        roots(Some("/ws"), "/pool", Some("/reg")),
        vec!["/ws/drafts", "/ws/skills", "/pool", "/reg/skills"]
    );
    assert_eq!(registry_root(&github()), Some("/reg"));
    assert_eq!(registry_root(&cloud()), None);
}

#[test]
fn the_first_existing_copy_is_resolved() {
    let found = vec![
        place(CopyKind::WorkspaceDraft, "/ws/drafts/s", false, None),
        place(CopyKind::WorkspaceSkill, "/ws/skills/s", true, Some("version: 1.1.0\n")),
        place(CopyKind::HomePool, "/pool/s", true, Some("slug: s\n")),
        place(CopyKind::Registry, "/reg/skills/s", true, None),
    ];
    assert_eq!(resolve_existing_skill_dir(&found).as_deref(), Some("/ws/skills/s"));
    let copies = copies_of(&found);
    assert_eq!(copies.len(), 3);
    assert!(copies[0].resolved && !copies[1].resolved && !copies[2].resolved);
    assert_eq!(copies[0].version.as_deref(), Some("1.1.0"));
    assert_eq!(copies[1].version, None);
}

#[test]
fn the_registry_clone_is_never_a_source() {
    let found = vec![
        place(CopyKind::HomePool, "/pool/s", false, None),
        place(CopyKind::Registry, "/reg/skills/s", true, None),
    ];
    assert_eq!(resolve_existing_skill_dir(&found), None);
    let copies = copies_of(&found);
    assert_eq!(copies.len(), 1);
    assert!(!copies[0].resolved);
    let published = Some("1.0.0".to_string());
    assert_eq!(copy_to_compare(&github(), &copies, &published), Some(0));
    assert_eq!(copy_to_compare(&cloud(), &copies, &published), None);
    assert_eq!(copy_to_compare(&github(), &copies, &None), None);
}

#[test]
fn copies_disagree_on_any_two() {
    let a = vec![file("SKILL.md", "x\n"), file("b.md", "b")];
    let a_crlf = vec![file("b.md", "b"), file("SKILL.md", "x\r\n")];
    let c = vec![file("SKILL.md", "y\n"), file("b.md", "b")];
    assert!(same_content(&a, &a_crlf));
    assert!(!same_content(&a, &c));
    assert!(!same_content(&a, &vec![file("SKILL.md", "x\n")]));
    let dup = vec![file("b.md", "old"), file("SKILL.md", "x\n"), file("b.md", "b")];
    assert!(same_content(&a, &dup));
    assert!(!copies_disagree(&vec![]));
    assert!(!copies_disagree(&vec![vec![file("SKILL.md", "x\n")]]));
    assert!(!copies_disagree(&vec![
        vec![file("SKILL.md", "x\n")],
        vec![file("SKILL.md", "x\r\n")],
    ]));
    assert!(copies_disagree(&vec![
        vec![file("SKILL.md", "x")],
        vec![file("SKILL.md", "x")],
        vec![file("SKILL.md", "y")],
    ]));
}

#[test]
fn changed_files_are_listed_in_order() {
    let published = vec![
        file("SKILL.md", "old\n"),
        file("sub\\same.md", "same\r\n"),
        file("gone.md", "x"),
        file(".knack/pack.json", "{}"),
    ];
    let local = vec![
        file("zeta.md", "new"),
        file("sub/same.md", "same\n"),
        file("SKILL.md", "new\n"),
        file("alpha.md", "new"),
    ];
    assert_eq!(
        changed_vs_tag(published, &local),
        vec!["SKILL.md", "alpha.md (new)", "zeta.md (new)", "gone.md (deleted locally)"]
    );
    let same = vec![file("SKILL.md", "s\n")];
    assert!(changed_vs_tag(vec![file("SKILL.md", "s\r\n")], &same).is_empty());
}

fn package(files: Vec<SkillFile>) -> SkillPackage {
    SkillPackage {
        slug: "s".to_string(),
        version: "1.0.0".to_string(),
        manifest: SkillManifest {
            slug: "s".to_string(),
            version: "1.0.0".to_string(),
            description: None,
            entry: "SKILL.md".to_string(),
            assets: Vec::new(),
            created_at: Timestamp { secs: 0, nanos: 0 },
        },
        files,
    }
}

#[test]
fn github_comparison_needs_the_published_version() {
    let local = vec![file("SKILL.md", "a")];
    let ok = github_changed(Ok(package(vec![file("SKILL.md", "b")])), &local).unwrap();
    assert_eq!(ok, vec!["SKILL.md"]);
    let err = BackendError::NotFound("no versions of s".to_string());
    let err = github_changed(Err(err), &local).unwrap_err();
    assert_eq!(err.code(), "INTERNAL");
    assert_eq!(err.message(), "read published version: no versions of s");
}

fn cloud_skill(semver: Option<&str>) -> Option<CloudSkill> {
    Some(CloudSkill {
        id: "sk-1".to_string(),
        current_version_id: None,
        current_version_semver: semver.map(str::to_string),
        owner_username: None,
        owner_team_id: None,
    })
}

#[test]
fn the_cloud_tells_the_published_version() {
    assert_eq!(cloud_version(&cloud_skill(Some("2.0.0"))).as_deref(), Some("2.0.0"));
    assert_eq!(cloud_version(&cloud_skill(None)), None);
    assert_eq!(cloud_version(&None), None);
}

fn pool_copy() -> StatusEvent {
    StatusEvent::Inspected {
        found: vec![place(CopyKind::HomePool, "/pool/s", true, None)],
        contents: vec![vec![file("SKILL.md", "a")]],
    }
}

fn report(action: StatusAction) -> (serde_json::Value, String) {
    match action {
        StatusAction::Finish(Ok(r)) => r,
        other => panic!("expected a report, got {other:?}"),
    }
}

fn error(action: StatusAction) -> CliError {
    match action {
        StatusAction::Finish(Err(e)) => e,
        other => panic!("expected an error, got {other:?}"),
    }
}

#[test]
fn self_hosted_status_from_start_to_report() {
    let b = github();
    let (state, action) = start();
    assert!(matches!(action, StatusAction::Inspect));
    let (state, action) = step(&b, "s", state, pool_copy());
    assert!(matches!(action, StatusAction::ListTags));
    let tags = vec!["s/v1.0.0".to_string(), "s/v1.2.0".to_string()];
    let (state, action) = step(&b, "s", state, StatusEvent::TagsListed(tags));
    match action {
        StatusAction::Pull { slug, dir } => assert_eq!((slug.as_str(), dir.as_str()), ("s", "/pool/s")),
        other => panic!("expected a pull, got {other:?}"),
    }
    let event = StatusEvent::Pulled {
        pulled: Ok(package(vec![file("SKILL.md", "b")])),
        local: Ok(vec![file("SKILL.md", "a")]),
    };
    let (state, action) = step(&b, "s", state, event);
    assert!(matches!(state, StatusState::Done));
    let (v, human) = report(action);
    assert_eq!(v["published_version"], "1.2.0");
    assert_eq!(v["changed_vs_published"][0], "SKILL.md");
    assert!(human.ends_with("  resolved copy differs from published in: SKILL.md\n"));
}

#[test]
fn self_hosted_status_tells_what_failed() {
    let b = github();
    let missing = StatusEvent::Inspected { found: Vec::new(), contents: Vec::new() };
    let err = error(step(&b, "s", start().0, missing).1);
    assert_eq!(err.message(), "no local copy of `s` found");
    let comparing = || {
        let (state, _) = step(&b, "s", start().0, pool_copy());
        step(&b, "s", state, StatusEvent::TagsListed(vec!["s/v1.0.0".to_string()])).0
    };
    let event = StatusEvent::Pulled {
        pulled: Err(BackendError::Other("x".to_string())),
        local: Err(CliError::Internal("y".to_string())),
    };
    assert_eq!(
        error(step(&b, "s", comparing(), event).1).message(),
        "read published version: x"
    );
    let event = StatusEvent::Pulled {
        pulled: Ok(package(Vec::new())),
        local: Err(CliError::Internal("y".to_string())),
    };
    assert_eq!(error(step(&b, "s", comparing(), event).1).message(), "y");
    let (state, _) = step(&b, "s", start().0, pool_copy());
    let (v, _) = report(step(&b, "s", state, StatusEvent::TagsListed(Vec::new())).1);
    assert!(v["published_version"].is_null());
    assert!(v["changed_vs_published"].is_null());
}

#[test]
fn cloud_status_from_start_to_report() {
    let b = cloud();
    let publishing = || {
        let (state, action) = step(&b, "s", start().0, pool_copy());
        assert!(matches!(action, StatusAction::FindSkill(ref s) if s == "s"));
        state
    };
    let found = StatusEvent::SkillFound(Ok(cloud_skill(Some("2.0.0"))));
    let (state, action) = step(&b, "s", publishing(), found);
    match action {
        StatusAction::GetVersion { skill_id, semver, dir } => {
            assert_eq!((skill_id.as_str(), semver.as_str()), ("sk-1", "2.0.0"));
            assert_eq!(dir, "/pool/s");
        }
        other => panic!("expected a version, got {other:?}"),
    }
    let version = CloudVersion {
        id: "v".to_string(),
        version: "2.0.0".to_string(),
        skill_md: "a\r\n".to_string(),
        intuition_md: String::new(),
        meta_yaml: "m".to_string(),
    };
    let event = StatusEvent::VersionRead {
        version: Ok(version),
        skill_md: Some("a\n".to_string()),
        intuition_md: None,
        meta_yaml: None,
    };
    let (v, _) = report(step(&b, "s", state, event).1);
    assert_eq!(v["published_version"], "2.0.0");
    assert_eq!(v["changed_vs_published"].as_array().map(|a| a.len()), Some(1));
    assert_eq!(v["changed_vs_published"][0], "meta.knack.yaml");
    let unknown = StatusEvent::SkillFound(Ok(None));
    let (v, _) = report(step(&b, "s", publishing(), unknown).1);
    assert!(v["published_version"].is_null());
    let offline = StatusEvent::SkillFound(Err(CliError::Internal("offline".to_string())));
    assert_eq!(error(step(&b, "s", publishing(), offline).1).message(), "offline");
    let stray = step(&b, "s", publishing(), pool_copy());
    assert!(matches!(stray, (StatusState::Publishing(_), StatusAction::Rest)));
}

#[test]
fn the_other_backend_answers_nothing() {
    let publishing = |b: &BackendMode| step(b, "s", start().0, pool_copy()).0;
    let tags = StatusEvent::TagsListed(vec!["s/v1.0.0".to_string()]);
    let stray = step(&cloud(), "s", publishing(&cloud()), tags);
    assert!(matches!(stray, (StatusState::Publishing(_), StatusAction::Rest)));
    let found = StatusEvent::SkillFound(Ok(None));
    let stray = step(&github(), "s", publishing(&github()), found);
    assert!(matches!(stray, (StatusState::Publishing(_), StatusAction::Rest)));

    let found = StatusEvent::SkillFound(Ok(cloud_skill(Some("2.0.0"))));
    let comparing = step(&cloud(), "s", publishing(&cloud()), found).0;
    let pulled = StatusEvent::Pulled { pulled: Ok(package(Vec::new())), local: Ok(Vec::new()) };
    let stray = step(&cloud(), "s", comparing, pulled);
    assert!(matches!(stray, (StatusState::Comparing(..), StatusAction::Rest)));

    let tags = StatusEvent::TagsListed(vec!["s/v1.0.0".to_string()]);
    let comparing = step(&github(), "s", publishing(&github()), tags).0;
    let read = StatusEvent::VersionRead {
        version: Err(CliError::Internal("offline".to_string())),
        skill_md: None,
        intuition_md: None,
        meta_yaml: None,
    };
    let stray = step(&github(), "s", comparing, read);
    assert!(matches!(stray, (StatusState::Comparing(..), StatusAction::Rest)));
}

#[test]
fn cloud_compares_the_three_texts() {
    let version = CloudVersion {
        id: "v".to_string(),
        version: "2.0.0".to_string(),
        skill_md: "s\n".to_string(),
        intuition_md: String::new(),
        meta_yaml: "m\n".to_string(),
    };
    let s = Some("s\r\n".to_string());
    assert_eq!(cloud_changed(&version, &s, &None, &None), vec!["meta.knack.yaml"]);
    let i = Some("rule".to_string());
    let m = Some("m\n".to_string());
    assert_eq!(cloud_changed(&version, &s, &i, &m), vec!["intuition.md"]);
    assert!(cloud_changed(&version, &s, &None, &m).is_empty());
}

#[test]
fn overview_lists_each_skill_once() {
    let entry = |name: Option<&str>, is_dir: bool, has_skill_md: bool| RootEntry {
        name: name.map(str::to_string),
        is_dir,
        has_skill_md,
    };
    let slugs = local_slugs(&vec![
        entry(Some("zeta"), true, true),
        entry(Some("alpha"), true, true),
        entry(Some("zeta"), true, true),
        entry(Some("no-skill"), true, false),
        entry(Some("file"), false, true),
        entry(None, true, true),
    ]);
    assert_eq!(slugs, vec!["alpha", "zeta"]);
}

#[test]
fn overview_shows_copies_and_drift() {
    let found = vec![
        place(CopyKind::HomePool, "/pool/s", true, Some("version: 1.0.0\n")),
        place(CopyKind::Registry, "/reg/skills/s", true, None),
    ];
    let contents = vec![vec![file("SKILL.md", "a")], vec![file("SKILL.md", "b")]];
    let rows = vec![skill_row("s", &found, &contents)];
    assert_eq!(
        overview_human(&rows),
        "s  ⚠ copies disagree\n  → home-pool        /pool/s  (1.0.0)\n    registry         /reg/skills/s  (?)\n\n→ marks the copy `publish`/`run` resolve from this directory.\n`knack status <slug>` compares against the published version.\n"
    );
    let v = overview_payload(&github(), None, "/pool", &rows);
    assert_eq!(v["backend"], "github");
    assert!(v["workspace"].is_null());
    assert_eq!(v["home_pool"], "/pool");
    assert_eq!(v["registry"], "/reg");
    assert_eq!(v["skills"][0]["slug"], "s");
    assert_eq!(v["skills"][0]["copies_disagree"], true);
    assert_eq!(v["skills"][0]["copies"][0]["kind"], "home-pool");
    assert_eq!(v["skills"][0]["copies"][0]["version"], "1.0.0");
    assert_eq!(v["skills"][0]["copies"][0]["resolved"], true);
    assert!(v["skills"][0]["copies"][1]["version"].is_null());
    assert_eq!(v["skills"][0]["copies"][1]["path"], "/reg/skills/s");
    assert_eq!(overview_human(&Vec::new()), "no local skills found\n");
    assert!(overview_payload(&cloud(), Some("/ws"), "/pool", &Vec::new())["registry"].is_null());
}

#[test]
fn status_tells_what_changed() {
    let found = vec![place(CopyKind::HomePool, "/pool/s", true, None)];
    let row = skill_row("s", &found, &vec![vec![file("SKILL.md", "a")]]);
    assert!(check_copies("s", &row.copies).is_ok());
    let err = check_copies("s", &Vec::new()).unwrap_err();
    assert_eq!(err.message(), "no local copy of `s` found");
    let mut status = SkillStatus {
        row,
        published: Some("1.0.0".to_string()),
        changed: Some(vec!["SKILL.md".to_string(), "b.md (new)".to_string()]),
    };
    assert_eq!(
        status_human(&status),
        "skill: s\n  → home-pool        /pool/s  (?)\n  published: 1.0.0\n  resolved copy differs from published in: SKILL.md, b.md (new)\n"
    );
    let v = status_payload(&cloud(), &status);
    assert_eq!(v["slug"], "s");
    assert_eq!(v["backend"], "cloud");
    assert_eq!(v["copies_disagree"], false);
    assert_eq!(v["published_version"], "1.0.0");
    assert_eq!(v["changed_vs_published"][1], "b.md (new)");
    status.changed = Some(Vec::new());
    assert!(status_human(&status).ends_with("  resolved copy matches the published version\n"));
    status.changed = None;
    status.published = None;
    status.row.copies_disagree = true;
    assert_eq!(
        status_human(&status),
        "skill: s\n  → home-pool        /pool/s  (?)\n  ⚠ local copies disagree with each other\n  published: (none)\n"
    );
    assert!(status_payload(&cloud(), &status)["changed_vs_published"].is_null());
}
