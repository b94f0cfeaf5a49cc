use knack::errors::OutputMode;
use knack::glob::{segment_matches, wildcard_matches};
use knack::skill_validators::{
    emit_format_invalid, validate_skill_folder, ModeSpec, SkillFolder, ValidationReport,
};

fn folder(skill_md: Option<&str>, meta: Option<&str>) -> SkillFolder {
    SkillFolder {
        is_dir: true,
        skill_md: skill_md.map(|s| s.as_bytes().to_vec()),
        meta: meta.map(|s| s.as_bytes().to_vec()),
        modes: None,
        files: Vec::new(),
    }
}

fn missing() -> SkillFolder {
    SkillFolder { is_dir: false, skill_md: None, meta: None, modes: None, files: Vec::new() }
}

fn mode(name: &str, load: &[&str]) -> ModeSpec {
    ModeSpec { name: name.to_string(), load: load.iter().map(|s| s.to_string()).collect() }
}

#[test]
fn ok_when_both_files_present_and_nonempty() {
    assert!(validate_skill_folder(&folder(Some("# x"), Some("name: x"))).is_ok());
}

#[test]
fn flags_missing_dir() {
    let report = validate_skill_folder(&missing());
    assert!(!report.is_ok());
    assert_eq!(report.issues[0].code, "DIR_MISSING");
}

#[test]
fn flags_missing_skill_md() {
    let report = validate_skill_folder(&folder(None, Some("name: x")));
    assert!(!report.is_ok());
    assert!(report.issues.iter().any(|i| i.path == "SKILL.md" && i.code == "FILE_MISSING"));
}

#[test]
fn flags_empty_meta_yaml() {
    let report = validate_skill_folder(&folder(Some("# x"), Some("   \n\n  ")));
    assert!(!report.is_ok());
    assert!(report.issues.iter().any(|i| i.path == "meta.knack.yaml" && i.code == "FILE_EMPTY"));
}

#[test]
fn wildcard_matching_rules() {
    assert!(wildcard_matches("SKILL.md", "SKILL.md"));
    assert!(wildcard_matches("examples/email-*.md", "examples/email-negotiation.md"));
    assert!(wildcard_matches("examples/*.md", "examples/a.md"));
    assert!(!wildcard_matches("examples/*.md", "references/a.md"));
    assert!(!wildcard_matches("*.md", "examples/a.md"));
    assert!(!wildcard_matches("examples/email-*.md", "examples/article-1.md"));
    assert!(!wildcard_matches("e*.md", "examples/a.md"));
    assert!(!wildcard_matches("*-email.md", "notemail.md"));
}

#[test]
fn stars_in_a_segment() {
    assert!(segment_matches("*", ""));
    assert!(segment_matches("**", "anything"));
    assert!(segment_matches("a*b*c", "a-b-b-c"));
    assert!(!segment_matches("a*a", "a"));
    assert!(!segment_matches("ab*bc", "abc"));
    assert!(segment_matches("a*b", "abcb"));
    assert!(!segment_matches("a*b", "xab"));
    assert!(!segment_matches("", "x"));
    assert!(segment_matches("", ""));
}

#[test]
fn a_literal_pattern_matches_itself_only() {
    assert!(wildcard_matches("a/b/c.md", "a/b/c.md"));
    assert!(!wildcard_matches("a/b/c.md", "a/b/c.mdx"));
    assert!(!wildcard_matches("a/b", "a/b/"));
}

#[test]
fn modes_gate_flags_unmatched_load_patterns() {
    let mut f = folder(Some("---\nname: s\n---\nbody\n"), Some("name: s"));
    f.modes = Some(vec![
        mode("broken", &["examples/missing-*.md"]),
        mode("email", &["references/style-guide.md", "examples/email-*.md"]),
    ]);
    f.files = ["SKILL.md", "examples/email-1.md", "meta.knack.yaml", "references/style-guide.md"]
        .iter()
        .map(|s| s.to_string())
        .collect();
    let report = validate_skill_folder(&f);
    assert!(!report.is_ok());
    assert_eq!(report.issues.len(), 1);
    assert_eq!(report.issues[0].code, "MODE_FILE_MISSING");
    assert!(report.issues[0].path.contains("broken"));
}

#[test]
fn modes_gate_passes_folder_without_modes() {
    let f = folder(Some("---\nname: s\ndescription: d\n---\nbody\n"), Some("name: s"));
    assert!(validate_skill_folder(&f).is_ok());
}

#[test]
fn modes_gate_flags_a_mode_without_files() {
    let mut f = folder(Some("# x"), Some("name: x"));
    f.modes = Some(vec![mode("idle", &[])]);
    let report = validate_skill_folder(&f);
    assert_eq!(report.issues.len(), 1);
    assert_eq!(report.issues[0].code, "MODE_EMPTY");
    assert_eq!(report.issues[0].path, "modes/idle/load");
}

#[test]
fn details_envelope_carries_issue_array() {
    let report = validate_skill_folder(&missing());
    let details = report.into_details();
    assert!(details["issues"].is_array());
    assert!(details["issues"][0]["code"].is_string());
}

#[test]
fn details_carry_what_was_pushed() {
    let mut report = ValidationReport::default();
    assert!(report.is_ok());
    report.push("SKILL.md", "file is empty".to_string(), "FILE_EMPTY");
    assert!(!report.is_ok());
    let details = report.into_details();
    assert_eq!(details["issues"].as_array().map(|a| a.len()), Some(1));
    assert_eq!(details["issues"][0]["path"], "SKILL.md");
    assert_eq!(details["issues"][0]["message"], "file is empty");
    assert_eq!(details["issues"][0]["code"], "FILE_EMPTY");
}

#[test]
fn format_error_has_an_envelope_in_json_only() {
    let json = OutputMode { json: true, quiet: false, no_color: false };
    let plain = OutputMode { json: false, quiet: false, no_color: false };
    let (err, envelope) = emit_format_invalid(json, validate_skill_folder(&missing()));
    assert_eq!(err.code(), "SKILL_FORMAT_INVALID");
    let envelope = envelope.unwrap();
    assert_eq!(envelope["$schema"], "knack://cli/v1");
    assert_eq!(envelope["ok"], false);
    assert_eq!(envelope["error"]["code"], "SKILL_FORMAT_INVALID");
    assert_eq!(envelope["error"]["details"]["issues"][0]["code"], "DIR_MISSING");
    assert_eq!(envelope["error"]["message"], err.message());
    let (_, none) = emit_format_invalid(plain, validate_skill_folder(&missing()));
    assert!(none.is_none());
}
