use knack::backend::{skill_dir, GithubBackend};
use knack::clock::Timestamp;
use knack::registry::{
    list_blocking, read_summary, search, search_blocking, skill_md_path, Listing, MetaFile, MetaYaml,
    Searchable,
};
use knack::skill::{SkillSource, SkillSummary};

const NOW: Timestamp = Timestamp { secs: 1_752_000_000, nanos: 7 };

fn meta(slug: &str, description: Option<&str>, version: Option<&str>) -> MetaFile {
    MetaFile::Parsed {
        meta: MetaYaml {
            slug: slug.to_string(),
            author: Some("t@example.com".to_string()),
            description: description.map(str::to_string),
            version: version.map(str::to_string),
        },
        modified: Some(1_700_000_000),
    }
}

fn skill(slug: &str, description: &str, body: Option<&str>) -> Searchable {
    Searchable {
        summary: read_summary(&meta(slug, Some(description), None), NOW).unwrap().unwrap(),
        body: body.map(str::to_string),
    }
}

fn slugs(found: &[SkillSummary]) -> Vec<&str> {
    found.iter().map(|s| s.slug.as_str()).collect()
}

#[test]
fn search_matches_skill_md_body_when_slug_and_description_miss() {
    let all = vec![
        skill(
            "alpha",
            "totally unrelated",
            Some("# Alpha\n\nA particular needle phrase lives here in the body.\n"),
        ),
        skill("beta", "also unrelated", Some("# Beta\n\nNothing of note.\n")),
    ];
    let results = search_blocking(&all, "needle");
    assert_eq!(slugs(&results), vec!["alpha"], "SKILL.md body match should surface alpha");
}

#[test]
fn list_tolerates_utf8_bom_in_meta() {
    let mut bytes = b"\xef\xbb\xbf".to_vec();
    bytes.extend_from_slice(
        b"slug: bommed\nname: bommed\nauthor: t@example.com\ndescription: d\nversion: 1.2.3\n",
    );
    let parsed: serde_yaml::Value =
        serde_yaml::from_slice(knack::bom::strip_utf8_bom(&bytes)).unwrap();
    let text = |key: &str| parsed.get(key).and_then(|v| v.as_str()).map(str::to_string);
    let file = MetaFile::Parsed {
        meta: MetaYaml {
            slug: text("slug").unwrap(),
            author: text("author"),
            description: text("description"),
            version: text("version"),
        },
        modified: None,
    };
    let results = list_blocking(&Listing::Entries(vec![(true, file)]), NOW).unwrap();
    assert_eq!(results.len(), 1);
    assert_eq!(results[0].slug, "bommed");
    assert_eq!(results[0].version, "1.2.3");
    assert_eq!(results[0].updated_at, NOW);
}

#[test]
fn search_still_matches_slug() {
    let results = search_blocking(&vec![skill("needle-skill", "x", Some("body"))], "needle");
    assert_eq!(results.len(), 1);
}

#[test]
fn search_still_matches_description() {
    let all = vec![skill("x", "this needle is in the description", Some("body"))];
    assert_eq!(search_blocking(&all, "needle").len(), 1);
}

#[test]
fn search_tolerates_missing_skill_md() {
    let results = search_blocking(&vec![skill("orphan", "anything", None)], "needle");
    assert!(results.is_empty());
}

#[test]
fn search_ignores_case() {
    let all = vec![
        skill("Upper-NEEDLE", "x", None),
        skill("b", "A Needle", None),
        skill("c", "x", Some("NEEDLE Ünïcode")),
        skill("d", "x", Some("hay")),
    ];
    assert_eq!(slugs(&search(&all, "NeEdLe")), vec!["Upper-NEEDLE", "b", "c"]);
    assert_eq!(slugs(&search(&all, "ÜNÏ")), vec!["c"]);
    assert_eq!(search(&all, "").len(), 4);
    assert!(search_blocking(&all, "NEEDLE").is_empty());
}

#[test]
fn summaries_have_fallbacks() {
    let bare = MetaFile::Parsed {
        meta: MetaYaml { slug: "s".to_string(), author: None, description: None, version: None },
        modified: Some(i64::MAX),
    };
    let s = read_summary(&bare, NOW).unwrap().unwrap();
    assert_eq!((s.author.as_str(), s.version.as_str()), ("unknown", "0.0.0"));
    assert_eq!(s.description, None);
    assert_eq!(s.updated_at, NOW);
    assert_eq!(s.source, SkillSource::Github);
    let dated = read_summary(&meta("s", None, Some("2.0.0")), NOW).unwrap().unwrap();
    assert_eq!(dated.updated_at, Timestamp { secs: 1_700_000_000, nanos: 0 });
    assert_eq!(dated.version, "2.0.0");
    assert!(read_summary(&MetaFile::Absent, NOW).unwrap().is_none());
}

#[test]
fn a_broken_meta_fails_the_list() {
    let broken = MetaFile::Unparsable("missing field `slug`".to_string());
    let listing = Listing::Entries(vec![
        (false, MetaFile::Unreadable("not a skill".to_string())),
        (true, MetaFile::Absent),
        (true, meta("a", None, None)),
        (true, broken),
        (true, MetaFile::Unreadable("later".to_string())),
    ]);
    let err = list_blocking(&listing, NOW).unwrap_err();
    assert_eq!(err.message(), "parse meta.knack.yaml: missing field `slug`");
    let unreadable = list_blocking(&Listing::Unreadable("denied".to_string()), NOW).unwrap_err();
    assert_eq!(unreadable.message(), "read skills dir: denied");
    let err = read_summary(&MetaFile::Unreadable("denied".to_string()), NOW).unwrap_err();
    assert_eq!(err.message(), "read meta: denied");
    assert!(list_blocking(&Listing::Absent, NOW).unwrap().is_empty());
}

#[test]
fn list_keeps_the_order_of_the_directory() {
    let listing = Listing::Entries(vec![
        (true, meta("b", None, None)),
        (false, meta("x", None, None)),
        (true, MetaFile::Absent),
        (true, meta("a", None, None)),
    ]);
    assert_eq!(slugs(&list_blocking(&listing, NOW).unwrap()), vec!["b", "a"]);
}

#[test]
fn skills_live_below_the_clone() {
    let b = GithubBackend::new("o", "r", "/home/u/knack".to_string());
    assert_eq!((b.owner.as_str(), b.repo.as_str()), ("o", "r"));
    assert_eq!(b.skills_root(), "/home/u/knack/skills");
    assert_eq!(skill_dir(&b.local_path, "s"), "/home/u/knack/skills/s");
    assert_eq!(skill_md_path(&b.skills_root(), "s"), "/home/u/knack/skills/s/SKILL.md");
    assert_eq!(b.clone().local_path, b.local_path);
}
