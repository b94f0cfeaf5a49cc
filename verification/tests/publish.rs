use knack::backend::GithubBackend;
use knack::clock::Timestamp;
use knack::errors::BackendError;
use knack::publish::{
    git_signature, has_unrelated_dirty, start, step, subdir, verify_tagged_content, FailedStep, Phase,
    PublishAction, PublishEvent, TagRead,
};
use knack::pull::{package_of, tag_to_pull, CloneState};
use knack::skill::{SkillFile, SkillManifest, SkillPackage};
use knack::tree::{walk_tree, TreeNode};

const NOW: Timestamp = Timestamp { secs: 1_752_000_000, nanos: 0 };

fn make_package(slug: &str, version: &str, files: Vec<(&str, &str)>) -> SkillPackage {
    SkillPackage {
        slug: slug.into(),
        version: version.into(),
        manifest: SkillManifest {
            slug: slug.into(),
            version: version.into(),
            description: None,
            entry: "SKILL.md".into(),
            assets: Vec::new(),
            created_at: NOW,
        },
        files: files
            .into_iter()
            .map(|(p, body)| SkillFile { path: p.into(), bytes: body.as_bytes().to_vec() })
            .collect(),
    }
}

fn backend() -> GithubBackend {
    GithubBackend::new("o", "r", "/reg".to_string())
}

fn blob(name: &str, body: &str) -> TreeNode {
    TreeNode::Blob { name: Some(name.to_string()), bytes: body.as_bytes().to_vec() }
}

fn tree(name: &str, children: Vec<TreeNode>) -> TreeNode {
    TreeNode::Tree { name: Some(name.to_string()), children }
}

fn entries(nodes: Vec<TreeNode>) -> TagRead {
    TagRead::Entries { nodes, commit_secs: 1_700_000_000 }
}

fn paths(list: &[&str]) -> Vec<Option<String>> {
    list.iter().map(|p| Some(p.to_string())).collect()
}

// Carries a publish out up to the point where the tag is read back.
fn up_to_read_back(b: &GithubBackend, p: &SkillPackage, dir_exists: bool) -> (Phase, Vec<String>) {
    let mut log = Vec::new();
    let (mut phase, mut action) = start(b, p);
    loop {
        let event = match &action {
            PublishAction::CheckClone(_) => PublishEvent::CloneChecked(true),
            PublishAction::ListChanges => PublishEvent::Statuses(Vec::new()),
            PublishAction::CheckSkillDir(_) => PublishEvent::DirChecked(dir_exists),
            PublishAction::WriteFiles { dir, clear, dests } => {
                log.push(format!("write {dir} clear={clear} {}", dests.join(",")));
                PublishEvent::Written
            }
            PublishAction::Commit { path, message } => {
                log.push(format!("commit {path}: {message}"));
                PublishEvent::Committed
            }
            PublishAction::Tag { name, message } => {
                log.push(format!("tag {name}: {message}"));
                PublishEvent::Tagged
            }
            PublishAction::ReadBack { reference, subdir, skill_dir } => {
                log.push(format!("read {reference} {subdir} {skill_dir}"));
                return (phase, log);
            }
            other => panic!("unexpected {other:?}"),
        };
        let next = step(b, p, phase, &event);
        phase = next.0;
        action = next.1;
    }
}

fn finish_error(action: PublishAction) -> BackendError {
    match action {
        PublishAction::Finish(Err(e)) => e,
        other => panic!("expected an error, got {other:?}"),
    }
}

#[test]
fn publish_with_files_syncs_content_including_deletions() {
    let b = backend();
    let p = make_package(
        "alpha",
        "0.2.0",
        vec![
            ("SKILL.md", "# New body\n"),
            ("meta.knack.yaml", "slug: alpha\nversion: 0.2.0\n"),
            ("examples/README.md", "fresh example\n"),
        ],
    );
    let (phase, log) = up_to_read_back(&b, &p, true);
    assert_eq!(phase, Phase::Verify);
    assert_eq!(
        log,
        vec![
            "write /reg/skills/alpha clear=true /reg/skills/alpha/SKILL.md,/reg/skills/alpha/meta.knack.yaml,/reg/skills/alpha/examples/README.md",
            "commit skills/alpha: publish alpha@v0.2.0",
            "tag alpha/v0.2.0: publish alpha@v0.2.0",
            "read refs/tags/alpha/v0.2.0 skills/alpha /reg/skills/alpha",
        ]
    );
    let tagged = || {
        entries(vec![
            blob("SKILL.md", "# New body\n"),
            tree("examples", vec![blob("README.md", "fresh example\n")]),
            blob("meta.knack.yaml", "slug: alpha\nversion: 0.2.0\n"),
        ])
    };
    let event = PublishEvent::ReadBack { read: tagged(), skill_md: None, meta: None };
    let (phase, action) = step(&b, &p, phase, &event);
    assert_eq!(phase, Phase::Push);
    assert!(matches!(action, PublishAction::Push));
    let (phase, action) = step(&b, &p, phase, &PublishEvent::Pushed);
    assert_eq!(phase, Phase::Done);
    match action {
        PublishAction::Finish(Ok(receipt)) => {
            assert_eq!(receipt.slug, "alpha");
            assert_eq!(receipt.version, "0.2.0");
            assert_eq!(receipt.url, "https://github.com/o/r/tree/alpha/v0.2.0");
        }
        other => panic!("expected a receipt, got {other:?}"),
    }

    let state = CloneState::Tags(vec!["alpha/v0.1.0".into(), "alpha/v0.2.0".into()]);
    let tag = tag_to_pull("/reg", "alpha", None, &state).unwrap();
    assert_eq!(tag, "alpha/v0.2.0");
    let pulled = package_of("alpha", None, &tag, &tagged(), NOW).unwrap();
    let body = |path: &str| pulled.files.iter().find(|f| f.path == path).map(|f| f.bytes.as_slice());
    assert_eq!(pulled.version, "0.2.0");
    assert_eq!(body("SKILL.md"), Some("# New body\n".as_bytes()));
    assert_eq!(body("examples/README.md"), Some("fresh example\n".as_bytes()));
    assert_eq!(body("stale-file.md"), None);
    assert_eq!(pulled.manifest.assets, vec!["SKILL.md", "examples/README.md", "meta.knack.yaml"]);
    assert_eq!(pulled.manifest.entry, "SKILL.md");
    assert_eq!(pulled.manifest.created_at, Timestamp { secs: 1_700_000_000, nanos: 0 });
}

#[test]
fn publish_refuses_success_when_gitignore_swallows_content() {
    let b = backend();
    let p = make_package(
        "beta",
        "0.1.0",
        vec![
            ("SKILL.md", "# Beta\n"),
            ("meta.knack.yaml", "slug: beta\nversion: 0.1.0\n"),
            ("notes.secret", "will be gitignored\n"),
        ],
    );
    let (phase, _) = up_to_read_back(&b, &p, false);
    let read = entries(vec![
        blob("SKILL.md", "# Beta\n"),
        blob("meta.knack.yaml", "slug: beta\nversion: 0.1.0\n"),
    ]);
    let event = PublishEvent::ReadBack { read, skill_md: None, meta: None };
    let (phase, action) = step(&b, &p, phase, &event);
    assert_eq!(phase, Phase::Done);
    let err = finish_error(action);
    assert!(matches!(err, BackendError::Invalid(_)));
    let msg = err.message();
    assert!(
        msg.contains("does not match") && msg.contains("notes.secret"),
        "expected a content-mismatch error naming the missing file, got: {msg}"
    );
    assert_eq!(
        msg,
        "tag beta/v0.1.0 does not match the content being published: notes.secret (missing from tag). nothing was pushed. check the registry repo's .gitignore for rules that exclude skill files, then delete the local tag and re-publish"
    );
}

#[test]
fn dirty_check_ignores_gitignored_knack_workspace() {
    assert_eq!(
        has_unrelated_dirty(&Vec::new(), "any-slug"),
        false,
        "ignored .knack/ workspace must not count as unrelated dirt"
    );
}

#[test]
fn dirty_check_flags_real_unrelated_changes() {
    assert_eq!(has_unrelated_dirty(&paths(&["stray.txt"]), "any-slug"), true);
}

#[test]
fn dirty_check_allows_changes_inside_current_skill_prefix() {
    let changed = paths(&["skills/alpha/SKILL.md"]);
    assert!(changed.iter().flatten().all(|p| p.starts_with("skills/alpha")));
    assert_eq!(has_unrelated_dirty(&changed, "alpha"), false);
}

#[test]
fn dirty_check_tells_sibling_skills_apart() {
    assert!(has_unrelated_dirty(&paths(&["skills/alpha-two/SKILL.md"]), "alpha"));
    assert!(!has_unrelated_dirty(&paths(&["skills/alpha"]), "alpha"));
    assert!(!has_unrelated_dirty(&vec![None], "alpha"));
    assert!(has_unrelated_dirty(&paths(&["skills/alpha/x", "skills/beta/x"]), "alpha"));
    assert_eq!(subdir("alpha"), "skills/alpha");
}

#[test]
fn publish_needs_a_clone() {
    let (b, p) = (backend(), make_package("s", "1.0.0", vec![]));
    let (phase, action) = start(&b, &p);
    assert!(matches!(action, PublishAction::CheckClone(ref path) if path == "/reg/.git"));
    let (phase, action) = step(&b, &p, phase, &PublishEvent::CloneChecked(false));
    assert_eq!(phase, Phase::Done);
    let err = finish_error(action);
    assert_eq!(err.message(), "no local clone at /reg — run `knack init --self-host` first");
}

#[test]
fn publish_refuses_a_dirty_tree() {
    let (b, p) = (backend(), make_package("s", "1.0.0", vec![]));
    let event = PublishEvent::Statuses(paths(&["README.md"]));
    let err = finish_error(step(&b, &p, Phase::Status, &event).1);
    assert!(matches!(err, BackendError::Invalid(_)));
    assert_eq!(
        err.message(),
        "working tree has uncommitted changes outside skills/s. commit or stash them first"
    );
}

#[test]
fn publish_in_place_needs_the_directory() {
    let (b, p) = (backend(), make_package("s", "1.0.0", vec![]));
    let (phase, action) = step(&b, &p, Phase::SkillDir, &PublishEvent::DirChecked(true));
    assert_eq!(phase, Phase::Commit);
    assert!(matches!(action, PublishAction::Commit { .. }));
    let err = finish_error(step(&b, &p, Phase::SkillDir, &PublishEvent::DirChecked(false)).1);
    assert!(matches!(err, BackendError::NotFound(_)));
    assert_eq!(err.message(), "no skill at /reg/skills/s and no files in the package");
}

#[test]
fn a_rooted_slug_is_staged_where_it_is_written() {
    let (b, p) = (backend(), make_package("/x", "1.0.0", vec![]));
    let (_, action) = step(&b, &p, Phase::SkillDir, &PublishEvent::DirChecked(true));
    match action {
        PublishAction::Commit { path, message } => {
            assert_eq!(path, "/x");
            assert_eq!(message, "publish /x@v1.0.0");
        }
        other => panic!("expected a commit, got {other:?}"),
    }
    assert_eq!(subdir("/x"), "skills//x");
}

#[test]
fn a_pull_gives_back_the_published_files() {
    let p = make_package("s", "1.0.0", vec![("b/c.md", "c\n"), ("SKILL.md", "# S\n")]);
    let read = entries(vec![blob("SKILL.md", "# S\n"), tree("b", vec![blob("c.md", "c\n")])]);
    let (phase, _) =
        step(&backend(), &p, Phase::Verify, &PublishEvent::ReadBack { read, skill_md: None, meta: None });
    assert_eq!(phase, Phase::Push);
    let read = entries(vec![blob("SKILL.md", "# S\n"), tree("b", vec![blob("c.md", "c\n")])]);
    for asked in [None, Some("1.0.0")] {
        let pulled = package_of("s", asked, "s/v1.0.0", &read, NOW).unwrap();
        assert_eq!(pulled.slug, p.slug);
        assert_eq!(pulled.version, p.version);
        let sorted = |package: &SkillPackage| {
            let mut list: Vec<(String, Vec<u8>)> =
                package.files.iter().map(|f| (f.path.clone(), f.bytes.clone())).collect();
            list.sort();
            list
        };
        assert_eq!(sorted(&pulled), sorted(&p));
    }
}

#[test]
fn what_an_earlier_version_left_is_not_published() {
    let b = backend();
    let p = make_package("s", "2.0.0", vec![("SKILL.md", "# S\n")]);
    for there in [true, false] {
        // The files below the skill's directory, by their names in it.
        let mut disk: Vec<(String, Vec<u8>)> = Vec::new();
        if there {
            disk.push(("old.md".into(), b"old".to_vec()));
        }
        let mut read_back = None;
        let (mut phase, mut action) = start(&b, &p);
        loop {
            let tree_of = |disk: &Vec<(String, Vec<u8>)>| {
                let blobs = disk
                    .iter()
                    .map(|f| TreeNode::Blob { name: Some(f.0.clone()), bytes: f.1.clone() });
                entries(blobs.collect())
            };
            let event = match &action {
                PublishAction::CheckClone(_) => PublishEvent::CloneChecked(true),
                PublishAction::ListChanges => PublishEvent::Statuses(Vec::new()),
                PublishAction::CheckSkillDir(_) => PublishEvent::DirChecked(there),
                PublishAction::WriteFiles { clear, .. } => {
                    assert_eq!(*clear, there);
                    if *clear {
                        disk.clear();
                    }
                    disk.extend(p.files.iter().map(|f| (f.path.clone(), f.bytes.clone())));
                    PublishEvent::Written
                }
                PublishAction::Commit { .. } => PublishEvent::Committed,
                PublishAction::Tag { .. } => PublishEvent::Tagged,
                PublishAction::ReadBack { .. } => {
                    read_back = Some(tree_of(&disk));
                    PublishEvent::ReadBack { read: tree_of(&disk), skill_md: None, meta: None }
                }
                PublishAction::Push => PublishEvent::Pushed,
                PublishAction::Finish(Ok(_)) => break,
                other => panic!("unexpected {other:?}"),
            };
            let next = step(&b, &p, phase, &event);
            phase = next.0;
            action = next.1;
        }
        let pulled = package_of("s", None, "s/v2.0.0", &read_back.unwrap(), NOW).unwrap();
        assert_eq!(pulled.version, "2.0.0");
        assert_eq!(pulled.files.len(), 1);
        assert_eq!(pulled.files[0].path, "SKILL.md");
        assert_eq!(pulled.files[0].bytes, b"# S\n");
    }
}

#[test]
fn a_stray_answer_asks_for_the_same_files_again() {
    let (b, p) = (backend(), make_package("s", "1.0.0", vec![("SKILL.md", "# S\n")]));
    for there in [true, false] {
        let (phase, _) = step(&b, &p, Phase::SkillDir, &PublishEvent::DirChecked(there));
        assert_eq!(phase, Phase::Files { clear: there });
        let (again, action) = step(&b, &p, phase, &PublishEvent::Pushed);
        assert_eq!(again, phase);
        match action {
            PublishAction::WriteFiles { clear, .. } => assert_eq!(clear, there),
            other => panic!("expected the files, got {other:?}"),
        }
    }
}

#[test]
fn an_existing_tag_is_a_conflict() {
    let (b, p) = (backend(), make_package("s", "1.0.0", vec![]));
    let err = finish_error(step(&b, &p, Phase::Tag, &PublishEvent::TagExists).1);
    assert!(matches!(err, BackendError::Conflict(_)));
    assert_eq!(err.message(), "tag s/v1.0.0 already exists");
}

#[test]
fn a_refused_push_is_a_network_error() {
    let (b, p) = (backend(), make_package("s", "1.0.0", vec![]));
    let event = PublishEvent::PushRefused {
        remote: "origin".into(),
        branch: "main".into(),
        stderr: b"  rejected \xff\n".to_vec(),
    };
    let err = finish_error(step(&b, &p, Phase::Push, &event).1);
    assert!(matches!(err, BackendError::Network(_)));
    assert_eq!(err.message(), "git push origin main: rejected \u{fffd}");
}

#[test]
fn outside_failures_end_a_publish() {
    let (b, p) = (backend(), make_package("s", "1.0.0", vec![]));
    let message = |phase: Phase, failed: FailedStep| {
        let event = PublishEvent::Failed { step: failed, error: "e".into() };
        let (next, action) = step(&b, &p, phase, &event);
        assert_eq!(next, Phase::Done);
        finish_error(action).message().to_string()
    };
    assert_eq!(message(Phase::Clone, FailedStep::OpenRepo), "open repo: e");
    assert_eq!(message(Phase::Status, FailedStep::Status), "git status: e");
    assert_eq!(message(Phase::Files { clear: true }, FailedStep::ClearDir), "clear skill dir: e");
    assert_eq!(message(Phase::Files { clear: true }, FailedStep::CreateDir), "create skill dir: e");
    assert_eq!(message(Phase::Files { clear: true }, FailedStep::MakeParent), "mkdir: e");
    assert_eq!(message(Phase::Files { clear: true }, FailedStep::WriteFile("/d/f".into())), "write /d/f: e");
    assert_eq!(message(Phase::Commit, FailedStep::Index), "index: e");
    assert_eq!(message(Phase::Commit, FailedStep::Stage), "git add: e");
    assert_eq!(message(Phase::Commit, FailedStep::WriteIndex), "write index: e");
    assert_eq!(message(Phase::Commit, FailedStep::WriteTree), "write tree: e");
    assert_eq!(message(Phase::Commit, FailedStep::FindTree), "find tree: e");
    assert_eq!(message(Phase::Commit, FailedStep::Config), "git config: e");
    assert_eq!(message(Phase::Commit, FailedStep::Signature), "signature: e");
    assert_eq!(message(Phase::Commit, FailedStep::Commit), "git commit: e");
    assert_eq!(message(Phase::Commit, FailedStep::FindCommit), "find commit: e");
    assert_eq!(message(Phase::Tag, FailedStep::Tag), "git tag: e");
    assert_eq!(message(Phase::Verify, FailedStep::ReadBack("SKILL.md".into())), "verify: read SKILL.md: e");
    assert_eq!(message(Phase::Push, FailedStep::InvokeGit), "invoke git: e");
}

#[test]
fn an_answer_to_another_question_changes_nothing() {
    let (b, p) = (backend(), make_package("s", "1.0.0", vec![]));
    let (phase, action) = step(&b, &p, Phase::Verify, &PublishEvent::Pushed);
    assert_eq!(phase, Phase::Verify);
    assert!(matches!(action, PublishAction::ReadBack { .. }));
    let (phase, action) = step(&b, &p, Phase::Done, &PublishEvent::Pushed);
    assert_eq!(phase, Phase::Done);
    assert!(matches!(action, PublishAction::Rest));
}

#[test]
fn verify_in_place_checks_what_is_on_disk() {
    let p = make_package("s", "1.0.0", vec![]);
    let md = Some(b"# S\n".to_vec());
    let read = entries(vec![blob("SKILL.md", "# S\n"), blob("extra.md", "x")]);
    assert!(verify_tagged_content("s/v1.0.0", &p, &read, &md, &None).is_ok());
    assert!(verify_tagged_content("s/v1.0.0", &p, &read, &None, &None).is_ok());
    let meta = Some(b"slug: s\n".to_vec());
    let other = Some(b"# T\n".to_vec());
    let err = verify_tagged_content("s/v1.0.0", &p, &read, &other, &meta).unwrap_err();
    assert!(err.message().contains(
        ": SKILL.md (content differs), meta.knack.yaml (missing from tag). nothing was pushed."
    ));
}

#[test]
fn verify_tells_what_could_not_be_read() {
    let p = make_package("s", "1.0.0", vec![]);
    let message = |read: TagRead| {
        verify_tagged_content("s/v1.0.0", &p, &read, &None, &None).unwrap_err().message().to_string()
    };
    assert_eq!(message(TagRead::TagMissing("e".into())), "verify tag: e");
    assert_eq!(message(TagRead::PeelFailed("e".into())), "verify: peel tag: e");
    assert_eq!(message(TagRead::TreeFailed("e".into())), "verify: commit tree: e");
    assert_eq!(message(TagRead::SubdirMissing), "verify: tag s/v1.0.0 does not contain skills/s");
    assert_eq!(message(TagRead::SubtreeFailed("e".into())), "verify: find subtree: e");
    assert_eq!(message(TagRead::BlobFailed("e".into())), "find blob: e");
    assert_eq!(message(TagRead::ChildFailed("e".into())), "find subtree: e");
}

#[test]
fn signature_falls_back_to_the_owner() {
    assert_eq!(
        git_signature(None, None, "octocat"),
        ("octocat".to_string(), "octocat@users.noreply.github.com".to_string())
    );
    assert_eq!(
        git_signature(Some("N".into()), Some("n@x".into()), "octocat"),
        ("N".to_string(), "n@x".to_string())
    );
}

#[test]
fn pull_picks_the_tag() {
    let tags = CloneState::Tags(vec!["s/v1.9.0".into(), "s/v1.10.0".into(), "s/vnext".into()]);
    assert_eq!(tag_to_pull("/reg", "s", None, &tags).unwrap(), "s/v1.10.0");
    assert_eq!(tag_to_pull("/reg", "s", Some("0.1.0"), &tags).unwrap(), "s/v0.1.0");
    let err = tag_to_pull("/reg", "other", None, &tags).unwrap_err();
    assert!(matches!(err, BackendError::NotFound(_)));
    assert_eq!(err.message(), "no versions of other");
    let err = tag_to_pull("/reg", "s", Some("1"), &CloneState::Missing).unwrap_err();
    assert_eq!(err.message(), "no local clone at /reg");
    let err = tag_to_pull("/reg", "s", None, &CloneState::Unreadable("e".into())).unwrap_err();
    assert_eq!(err.message(), "open repo: e");
    let unlisted = CloneState::TagsUnreadable("e".into());
    assert_eq!(tag_to_pull("/reg", "s", None, &unlisted).unwrap_err().message(), "tag list: e");
    assert_eq!(tag_to_pull("/reg", "s", Some("2.0.0"), &unlisted).unwrap(), "s/v2.0.0");
}

#[test]
fn pull_tells_what_could_not_be_read() {
    let error = |read: TagRead| package_of("s", Some("1"), "s/v1", &read, NOW).unwrap_err();
    let gone = error(TagRead::TagMissing("e".into()));
    assert!(matches!(gone, BackendError::NotFound(_)));
    assert_eq!(gone.message(), "tag s/v1 not found");
    assert_eq!(error(TagRead::PeelFailed("e".into())).message(), "peel to commit: e");
    assert_eq!(error(TagRead::TreeFailed("e".into())).message(), "commit tree: e");
    let outside = error(TagRead::SubdirMissing);
    assert!(matches!(outside, BackendError::NotFound(_)));
    assert_eq!(outside.message(), "skills/s not in tag s/v1");
    assert_eq!(error(TagRead::SubtreeFailed("e".into())).message(), "find subtree: e");
    assert_eq!(error(TagRead::BlobFailed("e".into())).message(), "find blob: e");
    assert_eq!(error(TagRead::ChildFailed("e".into())).message(), "find subtree: e");
}

#[test]
fn trees_are_walked_depth_first() {
    let nodes = vec![
        blob("a", "1"),
        tree("b", vec![blob("c", "2"), tree("d", vec![blob("e", "3")])]),
        TreeNode::Other,
        TreeNode::Blob { name: None, bytes: Vec::new() },
    ];
    let mut files = Vec::new();
    walk_tree(&nodes, "", &mut files);
    let listed: Vec<&str> = files.iter().map(|f| f.path.as_str()).collect();
    assert_eq!(listed, vec!["a", "b/c", "b/d/e", ""]);
    assert_eq!(files[2].bytes, b"3");
}
