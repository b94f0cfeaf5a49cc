//! Recent-run registry: the local state behind `knack mark last` and short run-id prefixes.
//!
//! `knack run` appends every run started from this machine; `knack mark` reads it to resolve
//! `last` (newest unmarked run for the active backend) and unique id prefixes, then flips `marked`
//! on the entries it closed. This is a convenience cache: losing it costs nothing but the
//! shorthand.
//!
//! A ring buffer, newest last.
use vstd::prelude::*;

use crate::clock::Timestamp;
use crate::paths;
use crate::paths::join;
use crate::text;
use crate::text::{same, starts_with, to_chars};

verus! {

/// The version of the registry's layout.
pub const SCHEMA_VERSION: u32 = 1;

/// Ring-buffer cap. 50 comfortably covers a multi-day agent session while keeping the file
/// trivially small.
pub const MAX_ENTRIES: usize = 50;

/// Shortest accepted id prefix. Below this, collisions get likely and typos get expensive.
pub const MIN_PREFIX_LEN: usize = 4;

/// The length of a whole run id.
pub const RUN_ID_LEN: usize = 36;

/// A run that this machine started.
#[derive(Debug)]
pub struct RunEntry {
    pub run_id: String,
    pub slug: String,
    /// `"cloud"` or `"github"`: which backend started the run, so that `mark last` never closes a
    /// cloud run while in self-host mode.
    pub backend: String,
    pub started_at: Timestamp,
    pub marked: bool,
}

impl Clone for RunEntry {
    fn clone(&self) -> (r: Self)
        ensures
            r == *self,
    {
        RunEntry {
            run_id: self.run_id.clone(),
            slug: self.slug.clone(),
            backend: self.backend.clone(),
            started_at: self.started_at,
            marked: self.marked,
        }
    }
}

/// The runs that this machine started lately, the newest last.
#[derive(Debug)]
pub struct RecentRuns {
    pub version: u32,
    pub entries: Vec<RunEntry>,
    pub updated_at: Option<Timestamp>,
}

impl Clone for RecentRuns {
    fn clone(&self) -> (r: Self)
        ensures
            r.version == self.version,
            r.entries@ == self.entries@,
            r.updated_at == self.updated_at,
    {
        let n: usize = self.entries.len();
        let mut entries: Vec<RunEntry> = Vec::new();
        let mut i: usize = 0;
        while i < n
            invariant
                n == self.entries@.len(),
                i <= n,
                entries@ == self.entries@.take(i as int),
            decreases n - i,
        {
            entries.push(self.entries[i].clone());
            i += 1;
            proof {
                assert(entries@ =~= self.entries@.take(i as int));
            }
        }
        proof {
            assert(self.entries@.take(n as int) =~= self.entries@);
        }
        RecentRuns { version: self.version, entries, updated_at: self.updated_at }
    }
}

impl Default for RecentRuns {
    fn default() -> (r: Self)
        ensures
            r.version == SCHEMA_VERSION,
            r.entries@ == Seq::<RunEntry>::empty(),
            r.updated_at is None,
    {
        RecentRuns { version: SCHEMA_VERSION, entries: Vec::new(), updated_at: None }
    }
}

/// Outcome of resolving a short id prefix against the registry.
#[derive(Debug, PartialEq, Eq)]
pub enum PrefixMatch {
    One(String),
    Ambiguous(Vec<String>),
    NoMatch,
}

/// What resolving a short id prefix says.
pub enum PrefixMatchView {
    One(Seq<char>),
    Ambiguous(Seq<Seq<char>>),
    NoMatch,
}

impl View for PrefixMatch {
    type V = PrefixMatchView;

    open spec fn view(&self) -> PrefixMatchView {
        match self {
            PrefixMatch::One(id) => PrefixMatchView::One(id@),
            PrefixMatch::Ambiguous(ids) => PrefixMatchView::Ambiguous(text::texts(ids@)),
            PrefixMatch::NoMatch => PrefixMatchView::NoMatch,
        }
    }
}

/// The location of the registry: the override, else below the home directory, else below the
/// config directory.
pub open spec fn record_path_of(
    custom: Option<Seq<char>>,
    home: Option<Seq<char>>,
    config: Option<Seq<char>>,
) -> Option<Seq<char>> {
    match (custom, home, config) {
        (Some(path), _, _) => Some(path),
        (None, Some(home), _) => Some(
            paths::joined(paths::joined(home, ".knack"@), "recent_runs.json"@),
        ),
        (None, None, Some(config)) => Some(
            paths::joined(paths::joined(config, "knack"@), "recent_runs.json"@),
        ),
        (None, None, None) => None,
    }
}

/// Resolve the on-disk location for the registry from `$KNACK_RECENT_RUNS_FILE`, the home
/// directory and the config directory.
pub fn record_path(custom: Option<&str>, home: Option<&str>, config: Option<&str>) -> (r: Option<
    String,
>)
    ensures
        text::opt_text(r) == record_path_of(
            text::opt_slice(custom),
            text::opt_slice(home),
            text::opt_slice(config),
        ),
{
    if let Some(path) = custom {
        return Some(path.to_owned());
    }
    if let Some(h) = home {
        let dir = join(h, ".knack");
        return Some(join(dir.as_str(), "recent_runs.json"));
    }
    match config {
        Some(c) => {
            let dir = join(c, "knack");
            Some(join(dir.as_str(), "recent_runs.json"))
        },
        None => None,
    }
}

/// The registry as it was read. A missing, unreadable or malformed file heals to an empty one: a
/// corrupt cache must never block `knack mark <full-uuid>`.
pub fn load(read: Option<RecentRuns>) -> (r: RecentRuns)
    ensures
        read matches Some(rec) ==> r == rec,
        read is None ==> r.version == SCHEMA_VERSION && r.entries@.len() == 0 && r.updated_at is None,
{
    match read {
        Some(rec) => rec,
        None => RecentRuns::default(),
    }
}

/// The registry as it is to be written: in the current layout, with the time of writing.
pub fn prepare_save(rec: RecentRuns, now: Timestamp) -> (r: RecentRuns)
    ensures
        r.version == SCHEMA_VERSION,
        r.entries == rec.entries,
        r.updated_at == Some(now),
{
    RecentRuns { version: SCHEMA_VERSION, entries: rec.entries, updated_at: Some(now) }
}

/// The newest entries, as many as the cap allows.
pub open spec fn capped(entries: Seq<RunEntry>) -> Seq<RunEntry> {
    if entries.len() > MAX_ENTRIES {
        entries.skip(entries.len() - MAX_ENTRIES)
    } else {
        entries
    }
}

/// Whether a registry is another one with a freshly started run behind it.
pub open spec fn is_recorded(
    before: Seq<RunEntry>,
    then: Seq<RunEntry>,
    run_id: Seq<char>,
    slug: Seq<char>,
    backend: Seq<char>,
    now: Timestamp,
) -> bool {
    &&& then.len() > 0
    &&& then.last().run_id@ == run_id
    &&& then.last().slug@ == slug
    &&& then.last().backend@ == backend
    &&& then.last().started_at == now
    &&& !then.last().marked
    &&& then == capped(before.push(then.last()))
}

/// Append a freshly started run, evicting the oldest entries past the cap.
pub fn push_run(rec: &mut RecentRuns, run_id: &str, slug: &str, backend: &str, now: Timestamp)
    ensures
        final(rec).entries@.len() > 0,
        ({
            let e = final(rec).entries@.last();
            &&& e.run_id@ == run_id@
            &&& e.slug@ == slug@
            &&& e.backend@ == backend@
            &&& e.started_at == now
            &&& !e.marked
            &&& final(rec).entries@ == capped(old(rec).entries@.push(e))
        }),
        is_recorded(old(rec).entries@, final(rec).entries@, run_id@, slug@, backend@, now),
        final(rec).version == old(rec).version,
        final(rec).updated_at == old(rec).updated_at,
{
    let entry = RunEntry {
        run_id: run_id.to_owned(),
        slug: slug.to_owned(),
        backend: backend.to_owned(),
        started_at: now,
        marked: false,
    };
    rec.entries.push(entry);
    let ghost all = rec.entries@;
    let n: usize = rec.entries.len();
    if n > MAX_ENTRIES {
        let kept = rec.entries.split_off(n - MAX_ENTRIES);
        rec.entries = kept;
    }
    proof {
        assert(rec.entries@ =~= capped(all));
        assert(rec.entries@.last() == all.last());
    }
}

/// Whether a run of the given backend still waits for its mark.
pub open spec fn is_open(e: RunEntry, backend: Seq<char>) -> bool {
    !e.marked && e.backend@ == backend
}

/// The newest open run of a backend.
pub open spec fn last_open_of(entries: Seq<RunEntry>, backend: Seq<char>) -> Option<RunEntry>
    decreases entries.len(),
{
    if entries.len() == 0 {
        None
    } else if is_open(entries.last(), backend) {
        Some(entries.last())
    } else {
        last_open_of(entries.drop_last(), backend)
    }
}

/// Newest unmarked run started by this machine for `backend`. This is what `knack mark last`
/// closes.
pub fn last_open(rec: &RecentRuns, backend: &str) -> (r: Option<RunEntry>)
    ensures
        r == last_open_of(rec.entries@, backend@),
{
    let ghost all = rec.entries@;
    let mut i: usize = rec.entries.len();
    proof {
        assert(all.take(i as int) =~= all);
    }
    while i > 0
        invariant
            all == rec.entries@,
            i <= all.len(),
            last_open_of(all, backend@) == last_open_of(all.take(i as int), backend@),
        decreases i,
    {
        i -= 1;
        proof {
            assert(all.take(i + 1).drop_last() =~= all.take(i as int));
        }
        let e = &rec.entries[i];
        if !e.marked && same(e.backend.as_str(), backend) {
            return Some(e.clone());
        }
    }
    None
}

/// The entries to keep, newest first.
pub open spec fn newest_first(
    entries: Seq<RunEntry>,
    keep: spec_fn(RunEntry) -> bool,
) -> Seq<RunEntry>
    decreases entries.len(),
{
    if entries.len() == 0 {
        Seq::empty()
    } else if keep(entries.last()) {
        seq![entries.last()] + newest_first(entries.drop_last(), keep)
    } else {
        newest_first(entries.drop_last(), keep)
    }
}

/// Open runs of a backend other than the given one.
pub open spec fn open_except(backend: Seq<char>, except: Seq<char>) -> spec_fn(RunEntry) -> bool {
    |e: RunEntry| is_open(e, backend) && e.run_id@ != except
}

/// Open runs of a skill on a backend other than the given one.
pub open spec fn stale(backend: Seq<char>, slug: Seq<char>, except: Seq<char>) -> spec_fn(
    RunEntry,
) -> bool {
    |e: RunEntry| is_open(e, backend) && e.run_id@ != except && e.slug@ == slug
}

/// Runs of a skill.
pub open spec fn of_skill(slug: Seq<char>) -> spec_fn(RunEntry) -> bool {
    |e: RunEntry| e.slug@ == slug
}

/// All unmarked runs for `backend` other than `except_run_id`, newest first.
pub fn open_runs_except(rec: &RecentRuns, backend: &str, except_run_id: &str) -> (r: Vec<RunEntry>)
    ensures
        r@ == newest_first(rec.entries@, open_except(backend@, except_run_id@)),
{
    let ghost all = rec.entries@;
    let ghost keep = open_except(backend@, except_run_id@);
    let mut out: Vec<RunEntry> = Vec::new();
    let mut i: usize = rec.entries.len();
    proof {
        assert(all.take(i as int) =~= all);
        assert(out@ + newest_first(all, keep) =~= newest_first(all, keep));
    }
    while i > 0
        invariant
            all == rec.entries@,
            keep == open_except(backend@, except_run_id@),
            i <= all.len(),
            newest_first(all, keep) == out@ + newest_first(all.take(i as int), keep),
        decreases i,
    {
        i -= 1;
        proof {
            assert(all.take(i + 1).drop_last() =~= all.take(i as int));
        }
        let e = &rec.entries[i];
        let ghost before = out@;
        if !e.marked && same(e.backend.as_str(), backend) && !same(
            e.run_id.as_str(),
            except_run_id,
        ) {
            out.push(e.clone());
            proof {
                assert(out@ + newest_first(all.take(i as int), keep) =~= before + (seq![*e]
                    + newest_first(all.take(i as int), keep)));
            }
        }
    }
    proof {
        assert(out@ + newest_first(all.take(0), keep) =~= out@);
    }
    out
}

proof fn newest_first_twice(
    entries: Seq<RunEntry>,
    backend: Seq<char>,
    slug: Seq<char>,
    except: Seq<char>,
)
    ensures
        newest_first(entries, open_except(backend, except)).filter(of_skill(slug))
            == newest_first(entries, stale(backend, slug, except)),
    decreases entries.len(),
{
    let of_slug = of_skill(slug);
    if entries.len() > 0 {
        let t = entries.drop_last();
        let e = entries.last();
        newest_first_twice(t, backend, slug, except);
        let rest = newest_first(t, open_except(backend, except));
        if open_except(backend, except)(e) {
            filter_front(e, rest, of_slug);
        }
    } else {
        reveal(Seq::filter);
    }
}

proof fn filter_front(x: RunEntry, s: Seq<RunEntry>, keep: spec_fn(RunEntry) -> bool)
    ensures
        (seq![x] + s).filter(keep) == if keep(x) {
            seq![x] + s.filter(keep)
        } else {
            s.filter(keep)
        },
    decreases s.len(),
{
    reveal(Seq::filter);
    let all = seq![x] + s;
    if s.len() == 0 {
        assert(all.drop_last() =~= Seq::<RunEntry>::empty());
        assert(all.drop_last().filter(keep) =~= Seq::<RunEntry>::empty());
        assert(s.filter(keep) =~= Seq::<RunEntry>::empty());
        if keep(x) {
            assert(all.filter(keep) =~= seq![x]);
        }
    } else {
        filter_front(x, s.drop_last(), keep);
        assert(all.drop_last() =~= seq![x] + s.drop_last());
        assert(all.last() == s.last());
        if keep(x) && keep(s.last()) {
            assert((seq![x] + s.drop_last().filter(keep)).push(s.last()) =~= seq![x]
                + s.drop_last().filter(keep).push(s.last()));
        }
    }
}

/// The subset of [`open_runs_except`] for one skill: the runs a new `knack run <slug>`
/// supersedes. Interleaved runs of different skills are legitimate parallel work and stay open.
pub fn stale_open_runs(rec: &RecentRuns, backend: &str, slug: &str, except_run_id: &str) -> (r: Vec<
    RunEntry,
>)
    ensures
        r@ == newest_first(rec.entries@, stale(backend@, slug@, except_run_id@)),
        r@ == newest_first(rec.entries@, open_except(backend@, except_run_id@)).filter(
            of_skill(slug@),
        ),
{
    let open = open_runs_except(rec, backend, except_run_id);
    let ghost of_slug = of_skill(slug@);
    let n: usize = open.len();
    let mut out: Vec<RunEntry> = Vec::new();
    let mut i: usize = 0;
    proof {
        reveal(Seq::filter);
        assert(open@.take(0).filter(of_slug) =~= Seq::<RunEntry>::empty());
    }
    while i < n
        invariant
            n == open@.len(),
            i <= n,
            of_slug == of_skill(slug@),
            out@ == open@.take(i as int).filter(of_slug),
        decreases n - i,
    {
        proof {
            reveal(Seq::filter);
            assert(open@.take(i + 1).drop_last() =~= open@.take(i as int));
        }
        if same(open[i].slug.as_str(), slug) {
            out.push(open[i].clone());
        }
        i += 1;
    }
    proof {
        assert(open@.take(n as int) =~= open@);
        newest_first_twice(rec.entries@, backend@, slug@, except_run_id@);
    }
    out
}

/// The recorded ids that start with the prefix, in the order of the registry.
pub open spec fn ids_with_prefix(entries: Seq<RunEntry>, prefix: Seq<char>) -> Seq<Seq<char>>
    decreases entries.len(),
{
    if entries.len() == 0 {
        Seq::empty()
    } else {
        let before = ids_with_prefix(entries.drop_last(), prefix);
        if prefix.is_prefix_of(entries.last().run_id@) {
            before.push(entries.last().run_id@)
        } else {
            before
        }
    }
}

/// The list without the items that repeat the one before them.
pub open spec fn without_repeats(ids: Seq<Seq<char>>) -> Seq<Seq<char>>
    decreases ids.len(),
{
    if ids.len() == 0 {
        Seq::empty()
    } else {
        let before = without_repeats(ids.drop_last());
        if before.len() > 0 && before.last() == ids.last() {
            before
        } else {
            before.push(ids.last())
        }
    }
}

/// What a prefix resolves to.
pub open spec fn prefix_match_of(entries: Seq<RunEntry>, prefix: Seq<char>) -> PrefixMatchView {
    let ids = without_repeats(ids_with_prefix(entries, prefix));
    if ids.len() == 0 {
        PrefixMatchView::NoMatch
    } else if ids.len() == 1 {
        PrefixMatchView::One(ids[0])
    } else {
        PrefixMatchView::Ambiguous(ids)
    }
}

/// Resolve a short prefix against recorded run ids.
pub fn resolve_prefix(rec: &RecentRuns, prefix: &str) -> (r: PrefixMatch)
    ensures
        r@ == prefix_match_of(rec.entries@, prefix@),
{
    let ghost all = rec.entries@;
    let n: usize = rec.entries.len();
    let mut ids: Vec<String> = Vec::new();
    let mut i: usize = 0;
    proof {
        assert(text::texts(ids@) =~= without_repeats(ids_with_prefix(all.take(0), prefix@)));
    }
    while i < n
        invariant
            all == rec.entries@,
            n == all.len(),
            i <= n,
            text::texts(ids@) == without_repeats(ids_with_prefix(all.take(i as int), prefix@)),
        decreases n - i,
    {
        let id = rec.entries[i].run_id.as_str();
        let ghost before = ids@;
        proof {
            assert(all.take(i + 1).drop_last() =~= all.take(i as int));
            let found = ids_with_prefix(all.take(i as int), prefix@);
            assert(found.push(id@).drop_last() =~= found);
        }
        if starts_with(id, prefix) {
            let m: usize = ids.len();
            proof {
                if m > 0 {
                    assert(text::texts(ids@).last() == ids@[m - 1]@);
                }
            }
            if m > 0 && same(ids[m - 1].as_str(), id) {
            } else {
                ids.push(id.to_owned());
                proof {
                    assert(text::texts(ids@) =~= text::texts(before).push(id@));
                }
            }
        }
        i += 1;
    }
    proof {
        assert(all.take(n as int) =~= all);
    }
    if ids.len() == 0 {
        PrefixMatch::NoMatch
    } else if ids.len() == 1 {
        proof {
            assert(text::texts(ids@)[0] == ids@[0]@);
        }
        PrefixMatch::One(ids[0].clone())
    } else {
        PrefixMatch::Ambiguous(ids)
    }
}

/// The entry, closed.
pub open spec fn closed(e: RunEntry) -> RunEntry {
    RunEntry {
        run_id: e.run_id,
        slug: e.slug,
        backend: e.backend,
        started_at: e.started_at,
        marked: true,
    }
}

/// The entries, with every one closed whose id is among `ids`.
pub open spec fn with_marks(entries: Seq<RunEntry>, ids: Seq<Seq<char>>) -> Seq<RunEntry> {
    entries.map_values(
        |e: RunEntry|
            if ids.contains(e.run_id@) {
                closed(e)
            } else {
                e
            },
    )
}

fn listed(ids: &Vec<String>, id: &str) -> (r: bool)
    ensures
        r == text::texts(ids@).contains(id@),
{
    let n: usize = ids.len();
    let mut i: usize = 0;
    while i < n
        invariant
            n == ids@.len(),
            i <= n,
            forall|k: int| 0 <= k < i ==> text::texts(ids@)[k] != id@,
        decreases n - i,
    {
        proof {
            assert(text::texts(ids@)[i as int] == ids@[i as int]@);
        }
        if same(ids[i].as_str(), id) {
            return true;
        }
        i += 1;
    }
    false
}

/// Flip `marked` on every entry whose id is in `ids`. Returns whether anything changed, that is
/// whether the registry has to be written.
pub fn set_marked(rec: &mut RecentRuns, ids: &Vec<String>) -> (changed: bool)
    ensures
        final(rec).entries@ == with_marks(old(rec).entries@, text::texts(ids@)),
        final(rec).version == old(rec).version,
        final(rec).updated_at == old(rec).updated_at,
        changed <==> final(rec).entries@ != old(rec).entries@,
{
    let ghost all = rec.entries@;
    let ghost marks = with_marks(all, text::texts(ids@));
    let n: usize = rec.entries.len();
    let mut changed = false;
    let mut i: usize = 0;
    while i < n
        invariant
            n == all.len(),
            i <= n,
            marks == with_marks(all, text::texts(ids@)),
            rec.entries@.len() == n,
            rec.version == old(rec).version,
            rec.updated_at == old(rec).updated_at,
            forall|k: int| 0 <= k < i ==> rec.entries@[k] == marks[k],
            forall|k: int| i <= k < n ==> rec.entries@[k] == all[k],
            changed ==> exists|k: int| 0 <= k < i && marks[k] != all[k],
            !changed ==> forall|k: int| 0 <= k < i ==> marks[k] == all[k],
        decreases n - i,
    {
        let e = rec.entries[i].clone();
        proof {
            assert(e == all[i as int]);
        }
        if !e.marked && listed(ids, e.run_id.as_str()) {
            let mut e = e;
            e.marked = true;
            proof {
                assert(e == closed(all[i as int]));
                assert(marks[i as int] != all[i as int]);
            }
            rec.entries.set(i, e);
            changed = true;
        } else {
            proof {
                if e.marked {
                    assert(closed(e) == e);
                }
                assert(marks[i as int] == all[i as int]);
            }
        }
        i += 1;
    }
    proof {
        assert(rec.entries@ =~= marks);
        if !changed {
            assert(marks =~= all);
        }
    }
    changed
}

/// A character of a run id: a hexadecimal digit or a dash.
pub open spec fn is_id_char(c: char) -> bool {
    ('0' <= c <= '9') || ('a' <= c <= 'f') || ('A' <= c <= 'F') || c == '-'
}

/// Whether a text can be the start of a run id: nothing but such characters, and long enough to be
/// plausibly unique, but shorter than a whole id. Each such character is one byte.
pub open spec fn plausible_prefix(s: Seq<char>) -> bool {
    &&& MIN_PREFIX_LEN <= s.len() < RUN_ID_LEN
    &&& forall|i: int| 0 <= i < s.len() ==> is_id_char(#[trigger] s[i])
}

/// True when `s` looks like a candidate id prefix: hex/dash charset and long enough to be plausibly
/// unique. Anything else is a typo.
pub fn is_plausible_prefix(s: &str) -> (r: bool)
    ensures
        r == plausible_prefix(s@),
{
    let chars = to_chars(s);
    let n: usize = chars.len();
    if n < MIN_PREFIX_LEN || n >= RUN_ID_LEN {
        return false;
    }
    let mut i: usize = 0;
    while i < n
        invariant
            chars@ == s@,
            n == s@.len(),
            i <= n,
            forall|k: int| 0 <= k < i ==> is_id_char(#[trigger] s@[k]),
        decreases n - i,
    {
        let c = chars[i];
        if !(('0' <= c && c <= '9') || ('a' <= c && c <= 'f') || ('A' <= c && c <= 'F') || c == '-') {
            return false;
        }
        i += 1;
    }
    true
}

/// A run that was just recorded is the last open run of its backend.
pub proof fn recorded_run_is_last_open(entries: Seq<RunEntry>, e: RunEntry, backend: Seq<char>)
    requires
        is_open(e, backend),
    ensures
        last_open_of(capped(entries.push(e)), backend) == Some(e),
{
    assert(capped(entries.push(e)).last() == e);
}

/// The registry never holds more than the cap, its newest entry is the one just recorded, and what
/// it keeps of the others are the newest, in their order.
pub proof fn ring_buffer_keeps_the_newest(entries: Seq<RunEntry>, e: RunEntry)
    ensures
        capped(entries.push(e)).len() <= MAX_ENTRIES,
        capped(entries.push(e)).last() == e,
        capped(entries.push(e)).is_suffix_of(entries.push(e)),
        entries.len() < MAX_ENTRIES ==> capped(entries.push(e)) == entries.push(e),
{
    let all = entries.push(e);
    let kept = capped(all);
    assert(all.subrange(all.len() - kept.len(), all.len() as int) =~= kept);
}

/// `last` means a recorded, unmarked run of the backend, and no newer one is open.
pub proof fn last_open_is_the_newest(entries: Seq<RunEntry>, backend: Seq<char>)
    ensures
        match last_open_of(entries, backend) {
            Some(e) => exists|i: int|
                0 <= i < entries.len() && #[trigger] entries[i] == e && is_open(e, backend) && (
                forall|j: int| i < j < entries.len() ==> !is_open(#[trigger] entries[j], backend)),
            None => forall|j: int| 0 <= j < entries.len() ==> !is_open(#[trigger] entries[j], backend),
        },
    decreases entries.len(),
{
    if entries.len() > 0 {
        if is_open(entries.last(), backend) {
            assert(entries[entries.len() - 1] == entries.last());
        } else {
            let t = entries.drop_last();
            last_open_is_the_newest(t, backend);
            match last_open_of(t, backend) {
                Some(e) => {
                    let i = choose|i: int|
                        0 <= i < t.len() && #[trigger] t[i] == e && is_open(e, backend) && (forall|
                            j: int,
                        |
                            i < j < t.len() ==> !is_open(#[trigger] t[j], backend));
                    assert(entries[i] == e);
                    assert forall|j: int| i < j < entries.len() implies !is_open(
                        #[trigger] entries[j],
                        backend,
                    ) by {
                        if j < t.len() {
                            assert(t[j] == entries[j]);
                        }
                    }
                },
                None => {
                    assert forall|j: int| 0 <= j < entries.len() implies !is_open(
                        #[trigger] entries[j],
                        backend,
                    ) by {
                        if j < t.len() {
                            assert(t[j] == entries[j]);
                        }
                    }
                },
            }
        }
    }
}

/// A run that was marked is never again the last open run.
pub proof fn marked_run_is_not_last_open(
    entries: Seq<RunEntry>,
    ids: Seq<Seq<char>>,
    backend: Seq<char>,
)
    ensures
        last_open_of(with_marks(entries, ids), backend) matches Some(e) ==> !ids.contains(e.run_id@),
    decreases entries.len(),
{
    if entries.len() > 0 {
        assert(with_marks(entries, ids).drop_last() =~= with_marks(entries.drop_last(), ids));
        marked_run_is_not_last_open(entries.drop_last(), ids, backend);
    }
}

/// Marking leaves every run alone that it does not name, and marking again changes nothing.
pub proof fn marking_touches_only_the_named(entries: Seq<RunEntry>, ids: Seq<Seq<char>>)
    ensures
        with_marks(entries, ids).len() == entries.len(),
        forall|i: int|
            0 <= i < entries.len() && !ids.contains(entries[i].run_id@) ==> #[trigger] with_marks(
                entries,
                ids,
            )[i] == entries[i],
        forall|i: int|
            0 <= i < entries.len() && ids.contains(entries[i].run_id@) ==> (#[trigger] with_marks(
                entries,
                ids,
            )[i]).marked,
        with_marks(with_marks(entries, ids), ids) == with_marks(entries, ids),
{
    assert(with_marks(with_marks(entries, ids), ids) =~= with_marks(entries, ids));
}

/// The runs that a new run supersedes are recorded, open, of the same backend and of the same
/// skill, and the new run is not among them; and every such run is superseded.
pub proof fn superseded_runs(
    entries: Seq<RunEntry>,
    backend: Seq<char>,
    slug: Seq<char>,
    except: Seq<char>,
    e: RunEntry,
)
    ensures
        newest_first(entries, stale(backend, slug, except)).contains(e) <==> entries.contains(e)
            && is_open(e, backend) && e.slug@ == slug && e.run_id@ != except,
    decreases entries.len(),
{
    let keep = stale(backend, slug, except);
    if entries.len() > 0 {
        let t = entries.drop_last();
        superseded_runs(t, backend, slug, except, e);
        let r = newest_first(entries, keep);
        let rt = newest_first(t, keep);
        if entries.contains(e) && keep(e) {
            let k = choose|k: int| 0 <= k < entries.len() && entries[k] == e;
            if k < t.len() {
                assert(t[k] == e);
                let m = choose|m: int| 0 <= m < rt.len() && rt[m] == e;
                if keep(entries.last()) {
                    assert(r[m + 1] == e);
                }
            } else {
                assert(r[0] == e);
            }
        }
        if r.contains(e) {
            let m = choose|m: int| 0 <= m < r.len() && r[m] == e;
            if keep(entries.last()) && m == 0 {
                assert(entries[entries.len() - 1] == e);
            } else {
                assert(rt[if keep(entries.last()) { m - 1 } else { m }] == e);
                assert(t.contains(e));
                let k = choose|k: int| 0 <= k < t.len() && t[k] == e;
                assert(entries[k] == e);
            }
        }
    }
}

proof fn repeats_keep_the_ids(ids: Seq<Seq<char>>)
    ensures
        ids.len() > 0 ==> without_repeats(ids).len() > 0,
        ids.len() > 0 ==> without_repeats(ids).last() == ids.last(),
        without_repeats(ids).len() == 1 ==> forall|k: int|
            0 <= k < ids.len() ==> #[trigger] ids[k] == without_repeats(ids)[0],
        without_repeats(ids).len() == 0 ==> ids.len() == 0,
    decreases ids.len(),
{
    if ids.len() > 0 {
        let t = ids.drop_last();
        repeats_keep_the_ids(t);
        if without_repeats(ids).len() == 1 {
            assert forall|k: int| 0 <= k < ids.len() implies #[trigger] ids[k] == without_repeats(
                ids,
            )[0] by {
                if k < t.len() {
                    assert(t[k] == ids[k]);
                }
            }
        }
    }
}

proof fn ids_with_prefix_members(entries: Seq<RunEntry>, prefix: Seq<char>, id: Seq<char>)
    ensures
        ids_with_prefix(entries, prefix).contains(id) <==> prefix.is_prefix_of(id) && exists|i: int|
            0 <= i < entries.len() && (#[trigger] entries[i]).run_id@ == id,
    decreases entries.len(),
{
    if entries.len() > 0 {
        let t = entries.drop_last();
        ids_with_prefix_members(t, prefix, id);
        let r = ids_with_prefix(entries, prefix);
        let rt = ids_with_prefix(t, prefix);
        if prefix.is_prefix_of(id) && exists|i: int|
            0 <= i < entries.len() && (#[trigger] entries[i]).run_id@ == id {
            let i = choose|i: int| 0 <= i < entries.len() && (#[trigger] entries[i]).run_id@ == id;
            if i < t.len() {
                assert(t[i] == entries[i]);
                let m = choose|m: int| 0 <= m < rt.len() && rt[m] == id;
                assert(r[m] == id);
            } else {
                assert(r[r.len() - 1] == id);
            }
        }
        if r.contains(id) {
            let m = choose|m: int| 0 <= m < r.len() && r[m] == id;
            if m < rt.len() {
                assert(rt[m] == id);
                assert(rt.contains(id));
                let i = choose|i: int| 0 <= i < t.len() && (#[trigger] t[i]).run_id@ == id;
                assert(entries[i] == t[i]);
            } else {
                assert(entries[entries.len() - 1].run_id@ == id);
            }
        }
    }
}

/// A prefix that resolves to one run names a recorded run, and no other recorded id starts with it.
/// A prefix that resolves to none starts no recorded id.
pub proof fn resolved_prefix_is_unique(entries: Seq<RunEntry>, prefix: Seq<char>)
    ensures
        prefix_match_of(entries, prefix) matches PrefixMatchView::One(id) ==> {
            &&& prefix.is_prefix_of(id)
            &&& exists|i: int| 0 <= i < entries.len() && (#[trigger] entries[i]).run_id@ == id
            &&& forall|i: int|
                0 <= i < entries.len() && prefix.is_prefix_of((#[trigger] entries[i]).run_id@)
                    ==> entries[i].run_id@ == id
        },
        prefix_match_of(entries, prefix) is NoMatch ==> forall|i: int|
            0 <= i < entries.len() ==> !prefix.is_prefix_of((#[trigger] entries[i]).run_id@),
{
    let ids = ids_with_prefix(entries, prefix);
    repeats_keep_the_ids(ids);
    assert forall|i: int|
        0 <= i < entries.len() && prefix.is_prefix_of(
            (#[trigger] entries[i]).run_id@,
        ) implies ids.contains(entries[i].run_id@) by {
        ids_with_prefix_members(entries, prefix, entries[i].run_id@);
    }
    if let PrefixMatchView::One(id) = prefix_match_of(entries, prefix) {
        assert(ids.last() == id);
        assert(ids[ids.len() - 1] == id);
        ids_with_prefix_members(entries, prefix, id);
    }
}

/// The last open run of a backend, told by what is on record: a run of that backend that is not
/// marked, behind which every run of that backend is marked; none exactly when every run of that
/// backend is marked.
pub proof fn last_open_run_is_unmarked_and_newest(
    entries: Seq<RunEntry>,
    backend: Seq<char>,
    i: int,
)
    ensures
        0 <= i < entries.len() && !entries[i].marked && entries[i].backend@ == backend && (forall|
            j: int,
        |
            i < j < entries.len() ==> (#[trigger] entries[j]).marked || entries[j].backend@ != backend)
            ==> last_open_of(entries, backend) == Some(entries[i]),
        last_open_of(entries, backend) is None <==> forall|j: int|
            0 <= j < entries.len() ==> (#[trigger] entries[j]).marked || entries[j].backend@ != backend,
    decreases entries.len(),
{
    if entries.len() > 0 {
        let t = entries.drop_last();
        let n = entries.len() - 1;
        assert(entries[n] == entries.last());
        last_open_run_is_unmarked_and_newest(t, backend, i);
        if 0 <= i < entries.len() && !entries[i].marked && entries[i].backend@ == backend && (forall|
            j: int,
        |
            i < j < entries.len() ==> (#[trigger] entries[j]).marked || entries[j].backend@ != backend) {
            if i < n {
                assert(t[i] == entries[i]);
                assert forall|j: int| i < j < t.len() implies (#[trigger] t[j]).marked
                    || t[j].backend@ != backend by {
                    assert(entries[j] == t[j]);
                }
            }
        }
        if forall|j: int|
            0 <= j < entries.len() ==> (#[trigger] entries[j]).marked || entries[j].backend@ != backend {
            assert forall|j: int| 0 <= j < t.len() implies (#[trigger] t[j]).marked || t[j].backend@
                != backend by {
                assert(entries[j] == t[j]);
            }
        }
        if last_open_of(entries, backend) is None {
            assert forall|j: int| 0 <= j < entries.len() implies (#[trigger] entries[j]).marked
                || entries[j].backend@ != backend by {
                if j < n {
                    assert(t[j] == entries[j]);
                }
            }
        }
    }
}

/// The registry keeps the last fifty runs: of fewer it drops none, of more the oldest.
pub proof fn registry_keeps_fifty_runs(entries: Seq<RunEntry>, i: int)
    ensures
        entries.len() <= 50 ==> capped(entries) == entries,
        entries.len() > 50 ==> capped(entries).len() == 50 && (0 <= i < 50 ==> capped(entries)[i]
            == entries[entries.len() - 50 + i]),
{
}

/// The runs that a new run supersedes, told by what is on record: those of the same backend and the
/// same skill that are not marked, but for the new run itself.
pub proof fn open_runs_of_the_skill_are_superseded(
    entries: Seq<RunEntry>,
    backend: Seq<char>,
    slug: Seq<char>,
    except: Seq<char>,
    e: RunEntry,
)
    ensures
        newest_first(entries, stale(backend, slug, except)).contains(e) <==> entries.contains(e)
            && !e.marked && e.backend@ == backend && e.slug@ == slug && e.run_id@ != except,
        newest_first(entries.push(e), open_except(backend, except)) == if !e.marked && e.backend@
            == backend && e.run_id@ != except {
            seq![e] + newest_first(entries, open_except(backend, except))
        } else {
            newest_first(entries, open_except(backend, except))
        },
{
    superseded_runs(entries, backend, slug, except, e);
    assert(entries.push(e).drop_last() =~= entries);
}

/// Marking closes the named runs and changes nothing else of them: each keeps its id, its skill, its
/// backend and its start.
pub proof fn marking_keeps_what_a_run_is(entries: Seq<RunEntry>, ids: Seq<Seq<char>>, i: int)
    requires
        0 <= i < entries.len(),
    ensures
        ({
            let e = entries[i];
            let m = with_marks(entries, ids)[i];
            &&& m.run_id == e.run_id && m.slug == e.slug && m.backend == e.backend && m.started_at
                == e.started_at
            &&& m.marked <==> e.marked || ids.contains(e.run_id@)
        }),
{
}

proof fn one_id_repeated(ids: Seq<Seq<char>>, id: Seq<char>)
    requires
        ids.len() > 0,
        forall|k: int| 0 <= k < ids.len() ==> #[trigger] ids[k] == id,
    ensures
        without_repeats(ids) == seq![id],
    decreases ids.len(),
{
    let t = ids.drop_last();
    assert(ids[ids.len() - 1] == id);
    if t.len() > 0 {
        assert forall|k: int| 0 <= k < t.len() implies #[trigger] t[k] == id by {
            assert(ids[k] == t[k]);
        }
        one_id_repeated(t, id);
    } else {
        assert(without_repeats(t) =~= Seq::empty());
        assert(without_repeats(ids) =~= seq![id]);
    }
}

/// A prefix resolves to a run exactly when that run is on record, its id starts with the prefix, and
/// every recorded id that starts with it is this one; it resolves to none exactly when no recorded
/// id starts with it; and otherwise it is ambiguous.
pub proof fn prefix_resolves_to_the_only_run(entries: Seq<RunEntry>, prefix: Seq<char>, i: int)
    ensures
        0 <= i < entries.len() && prefix.is_prefix_of(entries[i].run_id@) && (forall|j: int|
            0 <= j < entries.len() && prefix.is_prefix_of((#[trigger] entries[j]).run_id@)
                ==> entries[j].run_id@ == entries[i].run_id@) ==> prefix_match_of(entries, prefix)
            == PrefixMatchView::One(entries[i].run_id@),
        (forall|j: int|
            0 <= j < entries.len() ==> !prefix.is_prefix_of((#[trigger] entries[j]).run_id@))
            <==> prefix_match_of(entries, prefix) is NoMatch,
        (exists|j: int, k: int|
            0 <= j < entries.len() && 0 <= k < entries.len() && prefix.is_prefix_of(
                (#[trigger] entries[j]).run_id@,
            ) && prefix.is_prefix_of((#[trigger] entries[k]).run_id@) && entries[j].run_id@
                != entries[k].run_id@) ==> prefix_match_of(entries, prefix) is Ambiguous,
{
    let ids = ids_with_prefix(entries, prefix);
    resolved_prefix_is_unique(entries, prefix);
    repeats_keep_the_ids(ids);
    assert forall|k: int| 0 <= k < ids.len() implies prefix.is_prefix_of(#[trigger] ids[k])
        && exists|j: int| 0 <= j < entries.len() && (#[trigger] entries[j]).run_id@ == ids[k] by {
        ids_with_prefix_members(entries, prefix, ids[k]);
        assert(ids.contains(ids[k]));
    }
    assert forall|j: int|
        0 <= j < entries.len() && prefix.is_prefix_of((#[trigger] entries[j]).run_id@) implies ids.len()
        > 0 by {
        ids_with_prefix_members(entries, prefix, entries[j].run_id@);
        assert(ids.contains(entries[j].run_id@));
    }
    if 0 <= i < entries.len() && prefix.is_prefix_of(entries[i].run_id@) && (forall|j: int|
        0 <= j < entries.len() && prefix.is_prefix_of((#[trigger] entries[j]).run_id@)
            ==> entries[j].run_id@ == entries[i].run_id@) {
        assert forall|k: int| 0 <= k < ids.len() implies #[trigger] ids[k] == entries[i].run_id@ by {
            let j = choose|j: int| 0 <= j < entries.len() && (#[trigger] entries[j]).run_id@ == ids[k];
            assert(prefix.is_prefix_of(entries[j].run_id@));
        }
        one_id_repeated(ids, entries[i].run_id@);
    }
    if exists|j: int, k: int|
        0 <= j < entries.len() && 0 <= k < entries.len() && prefix.is_prefix_of(
            (#[trigger] entries[j]).run_id@,
        ) && prefix.is_prefix_of((#[trigger] entries[k]).run_id@) && entries[j].run_id@
            != entries[k].run_id@ {
        assert(!(prefix_match_of(entries, prefix) is NoMatch));
        assert(!(prefix_match_of(entries, prefix) is One));
    }
}

/// A text is taken for the start of a run id exactly when it is four to thirty-five hexadecimal
/// digits or dashes.
pub proof fn plausible_prefix_is_hexadecimal(s: Seq<char>, i: int)
    ensures
        plausible_prefix(s) ==> 4 <= s.len() <= 35,
        plausible_prefix(s) && 0 <= i < s.len() ==> ('0' <= s[i] <= '9') || ('a' <= s[i] <= 'f') || (
        'A' <= s[i] <= 'F') || s[i] == '-',
        4 <= s.len() <= 35 && (forall|k: int|
            0 <= k < s.len() ==> ('0' <= #[trigger] s[k] <= '9') || ('a' <= s[k] <= 'f') || ('A' <= s[k]
                <= 'F') || s[k] == '-') ==> plausible_prefix(s),
{
    if plausible_prefix(s) && 0 <= i < s.len() {
        assert(is_id_char(s[i]));
    }
}

/// The registry is where the override says; else in `.knack` of the home directory; else in `knack`
/// of the config directory.
pub proof fn registry_is_found_in_order(custom: Seq<char>, home: Seq<char>, config: Seq<char>)
    requires
        home.len() > 0 && home.last() != '/',
        config.len() > 0 && config.last() != '/',
    ensures
        forall|h: Option<Seq<char>>, c: Option<Seq<char>>| #[trigger]
            record_path_of(Some(custom), h, c) == Some(custom),
        forall|c: Option<Seq<char>>| #[trigger]
            record_path_of(None, Some(home), c) == Some(home + "/.knack/recent_runs.json"@),
        record_path_of(None, None, Some(config)) == Some(config + "/knack/recent_runs.json"@),
        record_path_of(None, None, None) is None,
{
    reveal_strlit(".knack");
    reveal_strlit("knack");
    reveal_strlit("recent_runs.json");
    reveal_strlit("/.knack/recent_runs.json");
    reveal_strlit("/knack/recent_runs.json");
    let h = home + seq!['/'] + ".knack"@;
    let c = config + seq!['/'] + "knack"@;
    paths::joining_puts_one_slash(home, ".knack"@);
    paths::joining_puts_one_slash(config, "knack"@);
    assert(h.last() == 'k');
    assert(c.last() == 'k');
    paths::joining_puts_one_slash(h, "recent_runs.json"@);
    paths::joining_puts_one_slash(c, "recent_runs.json"@);
    assert(h + seq!['/'] + "recent_runs.json"@ =~= home + "/.knack/recent_runs.json"@);
    assert(c + seq!['/'] + "recent_runs.json"@ =~= config + "/knack/recent_runs.json"@);
}

/// A run that was just recorded is what `last` means on its backend, under its own id; on another
/// backend `last` means what it meant, as long as the registry is not full; and it closes the open
/// runs of its own skill only.
pub proof fn recorded_run_is_what_last_means(
    before: Seq<RunEntry>,
    then: Seq<RunEntry>,
    run_id: Seq<char>,
    slug: Seq<char>,
    backend: Seq<char>,
    now: Timestamp,
    other: Seq<char>,
)
    requires
        is_recorded(before, then, run_id, slug, backend, now),
    ensures
        last_open_of(then, backend) matches Some(e) && e.run_id@ == run_id && e.slug@ == slug
            && e.backend@ == backend && !e.marked,
        other != backend && before.len() < 50 ==> last_open_of(then, other) == last_open_of(
            before,
            other,
        ),
        then.len() <= 50,
        before.len() < 50 ==> then.len() == before.len() + 1 && then.drop_last() == before,
{
    let e = then.last();
    recorded_run_is_last_open(before, e, backend);
    assert(before.push(e).drop_last() =~= before);
}

} // verus!
