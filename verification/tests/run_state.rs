use knack::clock::Timestamp;
use knack::run_state::{
    is_plausible_prefix, last_open, load, open_runs_except, prepare_save, push_run, record_path,
    resolve_prefix, set_marked, stale_open_runs, PrefixMatch, RecentRuns,
};

const NOW: Timestamp = Timestamp { secs: 1_752_000_000, nanos: 5 };

fn record(runs: &[(&str, &str, &str)]) -> RecentRuns {
    let mut rec = load(None);
    for (id, slug, backend) in runs {
        push_run(&mut rec, id, slug, backend, NOW);
    }
    rec
}

#[test]
fn push_and_last_open_round_trip() {
    let rec = record(&[
        ("aaaa1111-0000-0000-0000-000000000001", "s1", "cloud"),
        ("bbbb2222-0000-0000-0000-000000000002", "s2", "cloud"),
    ]);
    let last = last_open(&rec, "cloud").unwrap();
    assert_eq!(last.run_id, "bbbb2222-0000-0000-0000-000000000002");
    assert_eq!(last.slug, "s2");
    assert_eq!(last.started_at, NOW);
}

#[test]
fn last_open_scopes_to_backend() {
    let rec = record(&[("aaaa1111-0000-0000-0000-000000000001", "s1", "github")]);
    assert!(last_open(&rec, "cloud").is_none());
    assert_eq!(
        last_open(&rec, "github").unwrap().run_id,
        "aaaa1111-0000-0000-0000-000000000001"
    );
}

#[test]
fn set_marked_hides_entry_from_last_open() {
    let mut rec = record(&[
        ("aaaa1111-0000-0000-0000-000000000001", "s1", "cloud"),
        ("bbbb2222-0000-0000-0000-000000000002", "s2", "cloud"),
    ]);
    set_marked(&mut rec, &vec!["bbbb2222-0000-0000-0000-000000000002".to_string()]);
    assert_eq!(
        last_open(&rec, "cloud").unwrap().run_id,
        "aaaa1111-0000-0000-0000-000000000001"
    );
}

#[test]
fn marking_twice_changes_nothing() {
    let mut rec = record(&[("aaaa1111-0000-0000-0000-000000000001", "s1", "cloud")]);
    let ids = vec!["aaaa1111-0000-0000-0000-000000000001".to_string()];
    assert!(set_marked(&mut rec, &ids));
    assert!(!set_marked(&mut rec, &ids));
    assert!(!set_marked(&mut rec, &vec!["other".to_string()]));
    assert!(!set_marked(&mut rec, &Vec::new()));
}

#[test]
fn prefix_resolution_unique_ambiguous_none() {
    let rec = record(&[
        ("aaaa1111-0000-0000-0000-000000000001", "s1", "cloud"),
        ("aaab2222-0000-0000-0000-000000000002", "s2", "cloud"),
    ]);
    assert_eq!(
        resolve_prefix(&rec, "aaaa"),
        PrefixMatch::One("aaaa1111-0000-0000-0000-000000000001".into())
    );
    match resolve_prefix(&rec, "aaa") {
        PrefixMatch::Ambiguous(v) => assert_eq!(v.len(), 2),
        other => panic!("expected ambiguous, got {other:?}"),
    }
    assert_eq!(resolve_prefix(&rec, "ffff"), PrefixMatch::NoMatch);
}

#[test]
fn the_same_run_twice_is_not_ambiguous() {
    let rec = record(&[
        ("aaaa1111-0000-0000-0000-000000000001", "s1", "cloud"),
        ("aaaa1111-0000-0000-0000-000000000001", "s1", "cloud"),
    ]);
    assert_eq!(
        resolve_prefix(&rec, "aaaa"),
        PrefixMatch::One("aaaa1111-0000-0000-0000-000000000001".into())
    );
}

#[test]
fn ring_buffer_caps_entries() {
    let mut rec = load(None);
    for i in 0..60 {
        push_run(&mut rec, &format!("{i:08}-0000-0000-0000-000000000000"), "s", "cloud", NOW);
    }
    assert_eq!(rec.entries.len(), 50);
    assert_eq!(
        rec.entries.last().unwrap().run_id,
        "00000059-0000-0000-0000-000000000000"
    );
    assert_eq!(
        rec.entries.first().unwrap().run_id,
        "00000010-0000-0000-0000-000000000000"
    );
}

#[test]
fn malformed_file_self_heals() {
    let mut rec = load(None);
    assert!(rec.entries.is_empty());
    push_run(&mut rec, "aaaa1111-0000-0000-0000-000000000001", "s1", "cloud", NOW);
    assert_eq!(rec.entries.len(), 1);
    let saved = prepare_save(rec, NOW);
    assert_eq!(saved.version, 1);
    assert_eq!(saved.updated_at, Some(NOW));
    assert_eq!(load(Some(saved)).entries.len(), 1);
}

#[test]
fn open_runs_except_skips_marked_and_current() {
    let mut rec = record(&[
        ("aaaa1111-0000-0000-0000-000000000001", "s1", "cloud"),
        ("bbbb2222-0000-0000-0000-000000000002", "s2", "cloud"),
        ("cccc3333-0000-0000-0000-000000000003", "s3", "cloud"),
    ]);
    set_marked(&mut rec, &vec!["aaaa1111-0000-0000-0000-000000000001".to_string()]);
    let open = open_runs_except(&rec, "cloud", "cccc3333-0000-0000-0000-000000000003");
    assert_eq!(open.len(), 1);
    assert_eq!(open[0].run_id, "bbbb2222-0000-0000-0000-000000000002");
}

#[test]
fn stale_open_runs_scopes_to_slug_and_skips_current() {
    let rec = record(&[
        ("aaaa1111-0000-0000-0000-000000000001", "alpha", "cloud"),
        ("bbbb2222-0000-0000-0000-000000000002", "beta", "cloud"),
        ("cccc3333-0000-0000-0000-000000000003", "alpha", "cloud"),
    ]);
    let stale = stale_open_runs(&rec, "cloud", "alpha", "cccc3333-0000-0000-0000-000000000003");
    assert_eq!(stale.len(), 1);
    assert_eq!(stale[0].run_id, "aaaa1111-0000-0000-0000-000000000001");
}

#[test]
fn stale_runs_come_newest_first() {
    let rec = record(&[("r1", "alpha", "cloud"), ("r2", "alpha", "cloud"), ("r3", "alpha", "cloud")]);
    let ids: Vec<String> =
        stale_open_runs(&rec, "cloud", "alpha", "r3").into_iter().map(|e| e.run_id).collect();
    assert_eq!(ids, vec!["r2", "r1"]);
}

#[test]
fn plausible_prefix_charset_and_length() {
    assert!(is_plausible_prefix("f887"));
    assert!(is_plausible_prefix("f8877899-cd2a"));
    assert!(!is_plausible_prefix("f88"));
    assert!(!is_plausible_prefix("last"));
    assert!(!is_plausible_prefix("f8877899-cd2a-4749-b38a-ae885a1b417c"));
}

#[test]
fn record_path_prefers_the_override() {
    assert_eq!(record_path(Some("/x/r.json"), Some("/home/u"), None).as_deref(), Some("/x/r.json"));
    assert_eq!(
        record_path(None, Some("/home/u"), Some("/cfg")).as_deref(),
        Some("/home/u/.knack/recent_runs.json")
    );
    assert_eq!(record_path(None, None, None), None);
}
