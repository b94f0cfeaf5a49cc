//! `knack runs flush`: pushing queued self-host telemetry now.
//!
//! On the cloud nothing is ever queued; that is reported as nothing to do, not as an error, so that
//! agents can call it unconditionally.
use vstd::prelude::*;

use crate::config;
use crate::config::BackendMode;
use crate::json;
use crate::json::Shape;
use crate::number;
use crate::number::decimal;

verus! {

/// Flushing takes no arguments.
#[derive(Debug)]
pub struct FlushArgs {}

/// Where a push goes.
#[derive(Debug)]
pub struct PushTarget {
    pub remote: String,
    pub branch: String,
}

/// Whether there is something to push: on the cloud never; self-hosted unless the queue is known to
/// be empty.
pub open spec fn needs_push(b: BackendMode, pending: Option<usize>) -> bool {
    b is Github && pending != Some(0usize)
}

/// Whether there is something to push. `pending` is the number of queued events, where it is known.
pub fn should_push(b: &BackendMode, pending: Option<usize>) -> (r: bool)
    ensures
        r == needs_push(*b, pending),
{
    match b {
        BackendMode::Cloud { .. } => false,
        BackendMode::Github { .. } => match pending {
            Some(n) => n != 0,
            None => true,
        },
    }
}

/// What a flush without a push reports as JSON.
pub open spec fn idle_shape(b: BackendMode) -> Shape {
    json::object_of(
        seq![
            (
                "backend"@,
                Shape::Text(
                    match b {
                        BackendMode::Cloud { .. } => "cloud"@,
                        BackendMode::Github { .. } => "github"@,
                    },
                ),
            ),
            ("pushed"@, Shape::Bool(false)),
            ("pending"@, Shape::Number(0)),
        ],
    )
}

/// What a flush without a push prints.
pub open spec fn idle_text(b: BackendMode) -> Seq<char> {
    match b {
        BackendMode::Cloud { .. } => "nothing to flush — cloud telemetry is never queued locally\n"@,
        BackendMode::Github { .. } => "nothing to flush — no telemetry queued\n"@,
    }
}

/// What a flush without a push reports and prints.
pub fn idle_report(b: &BackendMode) -> (r: (serde_json::Value, &'static str))
    ensures
        json::shape(r.0) == idle_shape(*b),
        r.1@ == idle_text(*b),
{
    let backend = match b {
        BackendMode::Cloud { .. } => json::text("cloud"),
        BackendMode::Github { .. } => json::text("github"),
    };
    let fields = vec![
        ("backend", backend),
        ("pushed", json::flag(false)),
        ("pending", json::count(0)),
    ];
    proof {
        assert(json::field_shapes(fields@) =~= seq![
            (
                "backend"@,
                Shape::Text(
                    match *b {
                        BackendMode::Cloud { .. } => "cloud"@,
                        BackendMode::Github { .. } => "github"@,
                    },
                ),
            ),
            ("pushed"@, Shape::Bool(false)),
            ("pending"@, Shape::Number(0)),
        ]);
    }
    let human = match b {
        BackendMode::Cloud { .. } => "nothing to flush — cloud telemetry is never queued locally\n",
        BackendMode::Github { .. } => "nothing to flush — no telemetry queued\n",
    };
    (json::object(fields), human)
}

/// The number of queued events as an entry of the payload, null where it is not known.
pub open spec fn pending_shape(pending: Option<usize>) -> Shape {
    match pending {
        Some(n) => Shape::Number(n as nat),
        None => Shape::Null,
    }
}

/// What a flush that pushed reports as JSON.
pub open spec fn pushed_shape(pending: Option<usize>, target: PushTarget) -> Shape {
    json::object_of(
        seq![
            ("backend"@, Shape::Text("github"@)),
            ("pushed"@, Shape::Bool(true)),
            (
                "pending"@,
                pending_shape(pending),
            ),
            ("remote"@, Shape::Text(target.remote@)),
            ("branch"@, Shape::Text(target.branch@)),
        ],
    )
}

/// What a flush that pushed prints.
pub open spec fn pushed_text(pending: Option<usize>) -> Seq<char> {
    match pending {
        Some(n) => "✓ pushed "@ + number::decimal_of(n as nat) + " queued telemetry event(s)\n"@,
        None => "✓ pushed (queued count unknown — no remote-tracking ref)\n"@,
    }
}

/// What a flush that pushed reports and prints.
pub fn pushed_report(pending: Option<usize>, target: &PushTarget) -> (r: (serde_json::Value, String))
    ensures
        json::shape(r.0) == pushed_shape(pending, *target),
        r.1@ == pushed_text(pending),
{
    let queued = match pending {
        Some(n) => json::count(n),
        None => json::null(),
    };
    let fields = vec![
        ("backend", json::text("github")),
        ("pushed", json::flag(true)),
        ("pending", queued),
        ("remote", json::text(target.remote.as_str())),
        ("branch", json::text(target.branch.as_str())),
    ];
    proof {
        assert(json::field_shapes(fields@) =~= seq![
            ("backend"@, Shape::Text("github"@)),
            ("pushed"@, Shape::Bool(true)),
            (
                "pending"@,
                pending_shape(pending),
            ),
            ("remote"@, Shape::Text(target.remote@)),
            ("branch"@, Shape::Text(target.branch@)),
        ]);
    }
    let human = match pending {
        Some(n) => {
            let mut s = "✓ pushed ".to_owned();
            let count = decimal(n as u64);
            s.append(count.as_str());
            s.append(" queued telemetry event(s)\n");
            s
        },
        None => "✓ pushed (queued count unknown — no remote-tracking ref)\n".to_owned(),
    };
    (json::object(fields), human)
}

/// A flush pushes where the backend is self-hosted and telemetry is queued, or may be: not on the
/// cloud, and not where the queue is known to be empty.
pub proof fn flush_pushes_what_may_be_queued(b: BackendMode, n: usize)
    ensures
        b is Cloud ==> !needs_push(b, Some(n)) && !needs_push(b, None),
        b is Github ==> needs_push(b, None) && (needs_push(b, Some(n)) <==> n > 0),
{
}

/// A flush that pushed tells where to and how many events, each under its own name.
pub proof fn pushed_report_tells_the_push(pending: Option<usize>, target: PushTarget)
    ensures
        json::field(pushed_shape(pending, target), "backend"@) == Some(Shape::Text("github"@)),
        json::field(pushed_shape(pending, target), "pushed"@) == Some(Shape::Bool(true)),
        json::field(pushed_shape(pending, target), "pending"@) == Some(pending_shape(pending)),
        json::field(pushed_shape(pending, target), "remote"@) == Some(Shape::Text(target.remote@)),
        json::field(pushed_shape(pending, target), "branch"@) == Some(Shape::Text(target.branch@)),
{
    reveal_strlit("backend");
    reveal_strlit("pushed");
    reveal_strlit("pending");
    reveal_strlit("remote");
    reveal_strlit("branch");
    assert("backend"@.len() == 7 && "pushed"@.len() == 6 && "pending"@.len() == 7 && "remote"@.len() == 6 && "branch"@.len() == 6);
    assert("pushed"@[0] == 'p' && "remote"@[0] == 'r' && "branch"@[0] == 'b');
    assert("backend"@[0] == 'b' && "pending"@[0] == 'p');
    let f = seq![
        ("backend"@, Shape::Text("github"@)),
        ("pushed"@, Shape::Bool(true)),
        ("pending"@, pending_shape(pending)),
        ("remote"@, Shape::Text(target.remote@)),
        ("branch"@, Shape::Text(target.branch@)),
    ];
    assert(pushed_shape(pending, target) == json::object_of(f));
    json::field_is_held(f, 0);
    json::field_is_held(f, 1);
    json::field_is_held(f, 2);
    json::field_is_held(f, 3);
    json::field_is_held(f, 4);
}

/// A flush without a push tells that nothing was pushed and nothing is queued.
pub proof fn idle_report_tells_that_nothing_was_pushed(b: BackendMode)
    ensures
        json::field(idle_shape(b), "backend"@) == Some(Shape::Text(config::tag_of(b))),
        json::field(idle_shape(b), "pushed"@) == Some(Shape::Bool(false)),
        json::field(idle_shape(b), "pending"@) == Some(Shape::Number(0)),
{
    reveal_strlit("backend");
    reveal_strlit("pushed");
    reveal_strlit("pending");
    assert("backend"@.len() == 7 && "pushed"@.len() == 6 && "pending"@.len() == 7);
    assert("backend"@[0] == 'b' && "pending"@[0] == 'p');
    let f = seq![
        ("backend"@, Shape::Text(config::tag_of(b))),
        ("pushed"@, Shape::Bool(false)),
        ("pending"@, Shape::Number(0)),
    ];
    assert(idle_shape(b) == json::object_of(f));
    json::field_is_held(f, 0);
    json::field_is_held(f, 1);
    json::field_is_held(f, 2);
}

} // verus!
