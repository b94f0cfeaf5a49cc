use knack::clock::Timestamp;
use knack::cloud::CloudVersion;
use knack::diff::{
    check_sides, diff_sides, human, load_cloud_version, load_github_version, load_local, parse_side,
    parse_sides, payload, render_changes, unified_diff, Change, ChangeKind, DiffArgs, SideSpec,
    SideTexts,
};
use knack::errors::BackendError;
use knack::skill::{SkillFile, SkillManifest, SkillPackage};

fn package(files: &[(&str, &[u8])]) -> SkillPackage {
    SkillPackage {
        slug: "foo".to_string(),
        version: "1.0.0".to_string(),
        manifest: SkillManifest {
            slug: "foo".to_string(),
            version: "1.0.0".to_string(),
            description: None,
            entry: "SKILL.md".to_string(),
            assets: Vec::new(),
            created_at: Timestamp { secs: 0, nanos: 0 },
        },
        files: files
            .iter()
            .map(|(p, b)| SkillFile { path: p.to_string(), bytes: b.to_vec() })
            .collect(),
    }
}

fn texts(label: &str, skill_md: &str, intuition_md: &str, meta_yaml: &str) -> SideTexts {
    SideTexts {
        label: label.to_string(),
        skill_md: skill_md.to_string(),
        intuition_md: intuition_md.to_string(),
        meta_yaml: meta_yaml.to_string(),
    }
}

#[test]
fn parse_side_slug_at_version() {
    match parse_side("foo@1.0.0", false).unwrap() {
        SideSpec::Version { slug, ver } => {
            assert_eq!(slug, "foo");
            assert_eq!(ver, "1.0.0");
        }
        _ => panic!("expected version spec"),
    }
}

#[test]
fn parse_side_strips_v_prefix() {
    match parse_side("foo@v1.0.0", false).unwrap() {
        SideSpec::Version { ver, .. } => assert_eq!(ver, "1.0.0"),
        _ => panic!("expected version spec"),
    }
}

#[test]
fn parse_side_rejects_bare_slug() {
    let err = parse_side("foo", false).unwrap_err();
    assert_eq!(err.code(), "DIFF_USAGE");
    assert_eq!(
        err.message(),
        "expected `<slug>@<semver>` or a local skill folder path, got `foo`"
    );
}

#[test]
fn parse_side_accepts_existing_dir() {
    match parse_side("/tmp/some/dir", true).unwrap() {
        SideSpec::Local(p) => assert_eq!(p, "/tmp/some/dir"),
        _ => panic!("expected local spec"),
    }
}

#[test]
fn parse_side_rejects_an_empty_half() {
    assert_eq!(parse_side("@1.0.0", false).unwrap_err().code(), "DIFF_USAGE");
    assert_eq!(parse_side("foo@", false).unwrap_err().code(), "DIFF_USAGE");
    match parse_side("./skills/@odd/name", true).unwrap() {
        SideSpec::Local(p) => assert_eq!(p, "./skills/@odd/name"),
        _ => panic!("a real directory wins"),
    }
}

#[test]
fn sides_have_to_be_comparable() {
    let a = parse_side("foo@1", false).unwrap();
    let b = parse_side("bar@1", false).unwrap();
    let c = parse_side("./foo", true).unwrap();
    assert_eq!(check_sides(&a, &b).unwrap_err().code(), "DIFF_DIFFERENT_SKILLS");
    assert_eq!(check_sides(&c, &c).unwrap_err().code(), "DIFF_USAGE");
    assert!(check_sides(&a, &a).is_ok());
    assert!(check_sides(&a, &c).is_ok());
    assert!(check_sides(&c, &b).is_ok());
    let args = DiffArgs { left: "foo@1.0.0".to_string(), right: "./foo".to_string() };
    assert!(parse_sides(&args, false, true).is_ok());
    let err = parse_sides(&args, false, false).unwrap_err();
    assert_eq!(err.message(), "expected `<slug>@<semver>` or a local skill folder path, got `./foo`");
}

#[test]
fn load_local_requires_skill_md() {
    let err = load_local("/tmp/d", false, None, None, None).unwrap_err();
    assert_eq!(err.code(), "DIFF_LOCAL_INVALID");
    assert_eq!(err.message(), "/tmp/d has no SKILL.md");
}

#[test]
fn load_local_reads_texts() {
    let side = load_local(
        "/tmp/d",
        true,
        Some("# S\n".to_string()),
        None,
        Some("slug: s\n".to_string()),
    )
    .unwrap();
    assert_eq!(side.skill_md, "# S\n");
    assert_eq!(side.meta_yaml, "slug: s\n");
    assert_eq!(side.intuition_md, "");
    assert!(side.label.ends_with("(local)"));
}

#[test]
fn github_version_reads_the_package() {
    let p = package(&[
        ("SKILL.md", b"# S \xff\n"),
        ("sub/intuition.md", b"not this one"),
        ("./meta.knack.yaml", b"no"),
        ("meta.knack.yaml", b"slug: foo\n"),
    ]);
    let side = load_github_version("foo", "1.0.0", Ok(p)).unwrap();
    assert_eq!(side.label, "foo@1.0.0");
    assert_eq!(side.skill_md, "# S \u{fffd}\n");
    assert_eq!(side.intuition_md, "");
    assert_eq!(side.meta_yaml, "slug: foo\n");
}

#[test]
fn github_version_tells_what_is_missing() {
    let missing = BackendError::NotFound("tag foo/v9 not found".to_string());
    let err = load_github_version("foo", "9", Err(missing)).unwrap_err();
    assert_eq!(err.code(), "NOT_FOUND");
    assert_eq!(err.message(), "tag foo/v9 not found");
    let broken = BackendError::Other("open repo: x".to_string());
    let err = load_github_version("foo", "9", Err(broken)).unwrap_err();
    assert_eq!(err.code(), "GH_DIFF_FAILED");
    assert_eq!(err.message(), "github diff failed: open repo: x");
}

#[test]
fn cloud_version_is_labelled_as_served() {
    let v = CloudVersion {
        id: "v-1".to_string(),
        version: "1.2.0".to_string(),
        skill_md: "a".to_string(),
        intuition_md: "b".to_string(),
        meta_yaml: "c".to_string(),
    };
    let side = load_cloud_version("foo", Some(v)).unwrap();
    assert_eq!(side.label, "foo@1.2.0");
    assert_eq!((side.skill_md.as_str(), side.meta_yaml.as_str()), ("a", "c"));
    let err = load_cloud_version("foo", None).unwrap_err();
    assert_eq!(err.message(), "skill `foo` not found");
}

#[test]
fn unified_diff_marks_changes() {
    let d = unified_diff("a\nb\nc\n", "a\nB\nc\n");
    assert!(d.contains("-b"));
    assert!(d.contains("+B"));
    assert_eq!(d, " a\n-b\n+B\n c\n");
}

#[test]
fn unified_diff_empty_when_identical() {
    let d = unified_diff("a\nb\n", "a\nb\n");
    assert!(!d.contains("-"));
    assert!(!d.contains("+"));
}

#[test]
fn unified_diff_ends_every_line() {
    assert_eq!(unified_diff("a", "a\nb"), "-a\n+a\n+b\n");
    assert_eq!(unified_diff("", ""), "");
    assert_eq!(unified_diff("", "x\n"), "+x\n");
}

#[test]
fn unified_diff_compares_line_by_line() {
    assert_eq!(unified_diff("a\rb\r\n", "a\rc\r\n"), " a\r\n-b\r\n+c\r\n");
    assert_eq!(unified_diff("a\n\nb\n", "a\nb\n"), " a\n-\n b\n");
}

#[test]
fn changes_are_rendered_in_order() {
    let changes = vec![
        Change { kind: ChangeKind::Equal, value: "one\n".to_string() },
        Change { kind: ChangeKind::Delete, value: "two".to_string() },
        Change { kind: ChangeKind::Insert, value: String::new() },
    ];
    assert_eq!(render_changes(&changes), " one\n-two\n+\n");
}

#[test]
fn only_differing_files_are_reported() {
    let left = texts("foo@1", "a\n", "", "m\n");
    let right = texts("foo@2", "b\n", "", "m\n");
    let diffs = diff_sides(&left, &right);
    assert_eq!(diffs.len(), 1);
    assert_eq!(diffs[0].file, "SKILL.md");
    let value = payload(&left.label, &right.label, &diffs);
    assert_eq!(value["left"], "foo@1");
    assert_eq!(value["right"], "foo@2");
    assert_eq!(value["files_changed"].as_array().unwrap().len(), 1);
    assert_eq!(value["files_changed"][0], "SKILL.md");
    assert_eq!(value["diffs"][0]["file"], "SKILL.md");
    assert_eq!(value["diffs"][0]["unified"], "-a\n+b\n");
    assert_eq!(
        human(&left.label, &right.label, &diffs),
        "--- SKILL.md @ foo@1\n+++ SKILL.md @ foo@2\n-a\n+b\n"
    );
}

#[test]
fn identical_sides_say_so() {
    let side = texts("foo@1", "a", "i", "m");
    let diffs = diff_sides(&side, &side);
    assert!(diffs.is_empty());
    assert_eq!(human("l", "r", &diffs), "(identical)\n");
    let legacy = texts("foo@0", "a", "", "m");
    let diffs = diff_sides(&legacy, &side);
    assert_eq!(diffs.len(), 1);
    assert_eq!(diffs[0].file, "intuition.md");
}
