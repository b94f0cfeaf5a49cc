use knack::config::BackendMode;
use knack::flush::{idle_report, pushed_report, should_push, FlushArgs, PushTarget};

fn github() -> BackendMode {
    BackendMode::Github { owner: "o".into(), repo: "r".into(), local_path: "/reg".into() }
}

fn cloud() -> BackendMode {
    BackendMode::Cloud { api_base: "https://api".into() }
}

#[test]
fn the_cloud_has_nothing_to_flush() {
    let _ = FlushArgs {};
    assert!(!should_push(&cloud(), None));
    assert!(!should_push(&cloud(), Some(3)));
    let (v, human) = idle_report(&cloud());
    assert_eq!(v["backend"], "cloud");
    assert_eq!(v["pushed"], false);
    assert_eq!(v["pending"], 0);
    assert_eq!(human, "nothing to flush — cloud telemetry is never queued locally\n");
}

#[test]
fn an_empty_queue_is_not_pushed() {
    assert!(!should_push(&github(), Some(0)));
    assert!(should_push(&github(), Some(1)));
    assert!(should_push(&github(), None));
    let (v, human) = idle_report(&github());
    assert_eq!(v["backend"], "github");
    assert_eq!(human, "nothing to flush — no telemetry queued\n");
}

#[test]
fn a_push_is_reported() {
    let target = PushTarget { remote: "origin".into(), branch: "main".into() };
    let (v, human) = pushed_report(Some(12), &target);
    assert_eq!(v["backend"], "github");
    assert_eq!(v["pushed"], true);
    assert_eq!(v["pending"], 12);
    assert_eq!(v["remote"], "origin");
    assert_eq!(v["branch"], "main");
    assert_eq!(human, "✓ pushed 12 queued telemetry event(s)\n");
    let (v, human) = pushed_report(None, &target);
    assert!(v["pending"].is_null());
    assert_eq!(human, "✓ pushed (queued count unknown — no remote-tracking ref)\n");
}
