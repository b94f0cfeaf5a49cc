//! What a copy of a skill holds, and in what two copies differ.
//!
//! Comparisons do not tell CRLF from LF: otherwise every Windows clone with `core.autocrlf true`
//! would report permanent phantom drift.
use vstd::prelude::*;

use crate::order;
use crate::order::sort_unique;
use crate::skill;
use crate::skill::{same_bytes, FileView, SkillFile};
use crate::text;
use crate::text::{same, starts_with, with_slashes};

verus! {

/// Whether the bytes start with a carriage return that a line feed follows.
pub open spec fn starts_with_crlf(b: Seq<u8>) -> bool {
    b.len() >= 2 && b[0] == 13 && b[1] == 10
}

/// The bytes without each carriage return that a line feed follows. A bare one is content.
pub open spec fn normalized(b: Seq<u8>) -> Seq<u8>
    decreases b.len(),
{
    if b.len() == 0 {
        Seq::empty()
    } else if starts_with_crlf(b) {
        normalized(b.skip(1))
    } else {
        seq![b[0]] + normalized(b.skip(1))
    }
}

/// The bytes without each carriage return that a line feed follows.
pub fn normalize_eol(b: &[u8]) -> (r: Vec<u8>)
    ensures
        r@ == normalized(b@),
{
    let n: usize = b.len();
    let mut out: Vec<u8> = Vec::new();
    let mut i: usize = 0;
    proof {
        assert(b@.skip(0) =~= b@);
        assert(out@ + normalized(b@) =~= normalized(b@));
    }
    while i < n
        invariant
            n == b@.len(),
            i <= n,
            out@ + normalized(b@.skip(i as int)) == normalized(b@),
        decreases n - i,
    {
        let ghost rest = b@.skip(i as int);
        let ghost before = out@;
        proof {
            assert(rest.skip(1) =~= b@.skip(i + 1));
            assert(rest[0] == b@[i as int]);
            if i + 1 < n {
                assert(rest[1] == b@[i + 1]);
            }
        }
        if b[i] == 13 && n - i >= 2 && b[i + 1] == 10 {
            i += 1;
            continue ;
        }
        out.push(b[i]);
        proof {
            assert(out@ + normalized(rest.skip(1)) =~= before + (seq![rest[0]] + normalized(
                rest.skip(1),
            )));
        }
        i += 1;
    }
    proof {
        assert(b@.skip(n as int).len() == 0);
        assert(out@ + normalized(b@.skip(n as int)) =~= out@);
    }
    out
}

/// Whether two files hold the same, line ends aside.
pub fn eol_eq(a: &[u8], b: &[u8]) -> (r: bool)
    ensures
        r == (normalized(a@) == normalized(b@)),
{
    let x = normalize_eol(a);
    let y = normalize_eol(b);
    same_bytes(&x, &y)
}

/// The bytes with a carriage return put before each line feed.
pub open spec fn with_crlf(b: Seq<u8>) -> Seq<u8>
    decreases b.len(),
{
    if b.len() == 0 {
        Seq::empty()
    } else if b[0] == 10 {
        seq![13u8, 10u8] + with_crlf(b.skip(1))
    } else {
        seq![b[0]] + with_crlf(b.skip(1))
    }
}

/// A checkout that puts a carriage return before each line feed is no change.
pub proof fn crlf_checkout_is_no_change(b: Seq<u8>)
    ensures
        normalized(with_crlf(b)) == b,
    decreases b.len(),
{
    if b.len() > 0 {
        let t = b.skip(1);
        crlf_checkout_is_no_change(t);
        let w = with_crlf(b);
        let rest = with_crlf(t);
        if b[0] == 10 {
            assert(w.skip(1) =~= seq![10u8] + rest);
            assert(w.skip(1).skip(1) =~= rest);
            assert(normalized(w.skip(1)) =~= seq![10u8] + normalized(rest));
        } else {
            assert(w.skip(1) =~= rest);
            // What follows an ordinary byte never starts with a line feed of its own.
            assert(t.len() > 0 ==> rest[0] != 10);
            assert(!starts_with_crlf(w));
            assert(normalized(w) =~= seq![b[0]] + normalized(rest));
        }
        assert(seq![b[0]] + t =~= b);
    }
}

/// What a copy holds, by path, line ends aside; of two files with one path the later one counts.
pub open spec fn digest_of(files: Seq<FileView>) -> Map<Seq<char>, Seq<u8>>
    decreases files.len(),
{
    if files.len() == 0 {
        Map::empty()
    } else {
        digest_of(files.drop_last()).insert(files.last().path, normalized(files.last().bytes))
    }
}

proof fn digest_domain(files: Seq<FileView>)
    ensures
        forall|p: Seq<char>| #[trigger]
            digest_of(files).dom().contains(p) <==> skill::paths_of(files).contains(p),
    decreases files.len(),
{
    if files.len() > 0 {
        let t = files.drop_last();
        digest_domain(t);
        assert forall|p: Seq<char>| #[trigger]
            digest_of(files).dom().contains(p) <==> skill::paths_of(files).contains(p) by {
            assert(digest_of(files).dom().contains(p) <==> digest_of(t).dom().contains(p) || p
                == files.last().path);
            if skill::paths_of(t).contains(p) {
                let i = choose|i: int| 0 <= i < t.len() && skill::paths_of(t)[i] == p;
                assert(skill::paths_of(files)[i] == p);
            }
            if skill::paths_of(files).contains(p) {
                let i = choose|i: int| 0 <= i < files.len() && skill::paths_of(files)[i] == p;
                if i < t.len() {
                    assert(skill::paths_of(t)[i] == p);
                }
            }
            assert(skill::paths_of(files)[files.len() - 1] == files.last().path);
        }
    }
}

fn last_at(files: &Vec<SkillFile>, path: &str) -> (r: Option<usize>)
    ensures
        match r {
            Some(i) => i < files@.len() && digest_of(skill::files_of(files@)).dom().contains(path@)
                && digest_of(skill::files_of(files@))[path@] == normalized(
                files@[i as int].bytes@,
            ),
            None => !digest_of(skill::files_of(files@)).dom().contains(path@),
        },
{
    let ghost all = skill::files_of(files@);
    let mut i: usize = files.len();
    proof {
        assert(all.take(i as int) =~= all);
    }
    while i > 0
        invariant
            all == skill::files_of(files@),
            i <= files@.len(),
            digest_of(all).dom().contains(path@) <==> digest_of(
                all.take(i as int),
            ).dom().contains(path@),
            digest_of(all).dom().contains(path@) ==> digest_of(all)[path@] == digest_of(
                all.take(i as int),
            )[path@],
        decreases i,
    {
        i -= 1;
        proof {
            assert(all.take(i + 1).drop_last() =~= all.take(i as int));
            assert(all.take(i + 1).last() == files@[i as int]@);
        }
        if same(files[i].path.as_str(), path) {
            return Some(i);
        }
    }
    proof {
        assert(all.take(0).len() == 0);
    }
    None
}

/// Whether everything of `a` is in `b` as it is in `a`.
spec fn covered(a: Map<Seq<char>, Seq<u8>>, b: Map<Seq<char>, Seq<u8>>) -> bool {
    forall|p: Seq<char>| #[trigger] a.dom().contains(p) ==> b.dom().contains(p) && a[p] == b[p]
}

fn covers(a: &Vec<SkillFile>, b: &Vec<SkillFile>) -> (r: bool)
    ensures
        r == covered(digest_of(skill::files_of(a@)), digest_of(skill::files_of(b@))),
{
    let ghost da = digest_of(skill::files_of(a@));
    let ghost db = digest_of(skill::files_of(b@));
    let n: usize = a.len();
    let mut i: usize = 0;
    proof {
        digest_domain(skill::files_of(a@));
    }
    while i < n
        invariant
            n == a@.len(),
            i <= n,
            da == digest_of(skill::files_of(a@)),
            db == digest_of(skill::files_of(b@)),
            forall|p: Seq<char>| #[trigger]
                da.dom().contains(p) <==> skill::paths_of(skill::files_of(a@)).contains(p),
            forall|k: int|
                0 <= k < i ==> db.dom().contains((#[trigger] a@[k]).path@) && da[a@[k].path@]
                    == db[a@[k].path@],
        decreases n - i,
    {
        let path = a[i].path.as_str();
        proof {
            assert(skill::paths_of(skill::files_of(a@))[i as int] == path@);
            assert(da.dom().contains(path@));
        }
        match (last_at(a, path), last_at(b, path)) {
            (Some(x), Some(y)) => {
                if !eol_eq(a[x].bytes.as_slice(), b[y].bytes.as_slice()) {
                    return false;
                }
            },
            _ => {
                return false;
            },
        }
        i += 1;
    }
    proof {
        assert forall|p: Seq<char>| #[trigger] da.dom().contains(p) implies db.dom().contains(p)
            && da[p] == db[p] by {
            let paths = skill::paths_of(skill::files_of(a@));
            let k = choose|k: int| 0 <= k < paths.len() && paths[k] == p;
            assert(a@[k].path@ == p);
        }
    }
    true
}

/// Whether two copies hold the same.
pub fn same_content(a: &Vec<SkillFile>, b: &Vec<SkillFile>) -> (r: bool)
    ensures
        r == (digest_of(skill::files_of(a@)) == digest_of(skill::files_of(b@))),
{
    let r = covers(a, b) && covers(b, a);
    proof {
        let da = digest_of(skill::files_of(a@));
        let db = digest_of(skill::files_of(b@));
        if r {
            assert(da =~= db);
        }
    }
    r
}

/// What each of the copies holds.
pub open spec fn digests(copies: Seq<Vec<SkillFile>>) -> Seq<Map<Seq<char>, Seq<u8>>> {
    copies.map_values(|c: Vec<SkillFile>| digest_of(skill::files_of(c@)))
}

/// Whether any two of the copies hold something different.
pub open spec fn disagree(d: Seq<Map<Seq<char>, Seq<u8>>>) -> bool {
    exists|i: int, j: int| 0 <= i < j < d.len() && #[trigger] d[i] != #[trigger] d[j]
}

/// Whether any two of the copies hold something different. Each is compared with the next only,
/// which tells as much.
pub fn copies_disagree(copies: &Vec<Vec<SkillFile>>) -> (r: bool)
    ensures
        r == disagree(digests(copies@)),
{
    let ghost d = digests(copies@);
    let n: usize = copies.len();
    let mut i: usize = 1;
    while i < n
        invariant
            n == copies@.len(),
            d == digests(copies@),
            1 <= i,
            n > 0 ==> i <= n,
            forall|k: int| 0 <= k < i && k < n ==> #[trigger] d[k] == d[0],
        decreases n - i,
    {
        proof {
            assert(d[i - 1] == digest_of(skill::files_of(copies@[i - 1]@)));
            assert(d[i as int] == digest_of(skill::files_of(copies@[i as int]@)));
        }
        if !same_content(&copies[i - 1], &copies[i]) {
            proof {
                assert(d[i - 1] != d[i as int]);
            }
            return true;
        }
        i += 1;
    }
    false
}

/// What is wrong with a file of the local copy, if anything, held against the published version.
pub open spec fn local_note(
    path: Seq<char>,
    local: Map<Seq<char>, Seq<u8>>,
    tagged: Map<Seq<char>, Seq<u8>>,
) -> Seq<Seq<char>> {
    if !tagged.dom().contains(path) {
        seq![path + " (new)"@]
    } else if local[path] != tagged[path] {
        seq![path]
    } else {
        Seq::empty()
    }
}

/// What is wrong with the files of the local copy.
pub open spec fn local_notes(
    paths: Seq<Seq<char>>,
    local: Map<Seq<char>, Seq<u8>>,
    tagged: Map<Seq<char>, Seq<u8>>,
) -> Seq<Seq<char>>
    decreases paths.len(),
{
    if paths.len() == 0 {
        Seq::empty()
    } else {
        local_notes(paths.drop_last(), local, tagged) + local_note(paths.last(), local, tagged)
    }
}

/// Whether a published file counts as deleted: it is not in the local copy, and it is authored
/// content and no pack metadata.
pub open spec fn is_deleted(path: Seq<char>, local: Map<Seq<char>, Seq<u8>>) -> bool {
    !local.dom().contains(path) && !".knack/"@.is_prefix_of(path)
}

/// The published files that are not in the local copy.
pub open spec fn deleted_notes(
    paths: Seq<Seq<char>>,
    local: Map<Seq<char>, Seq<u8>>,
) -> Seq<Seq<char>>
    decreases paths.len(),
{
    if paths.len() == 0 {
        Seq::empty()
    } else {
        let before = deleted_notes(paths.drop_last(), local);
        if is_deleted(paths.last(), local) {
            before.push(paths.last() + " (deleted locally)"@)
        } else {
            before
        }
    }
}

/// The files of a version with `/` between the segments of their paths.
pub open spec fn with_slash_paths(files: Seq<FileView>) -> Seq<FileView> {
    files.map_values(
        |f: FileView| FileView { path: text::replaced(f.path, '\\', '/'), bytes: f.bytes },
    )
}

/// In which files a local copy differs from a published version: those of the local copy in the
/// order of their paths, and then the deleted ones.
pub open spec fn changes_list(tagged: Seq<FileView>, local: Seq<FileView>) -> Seq<Seq<char>> {
    local_notes(
        order::sorted_unique(skill::paths_of(local)),
        digest_of(local),
        digest_of(tagged),
    ) + deleted_notes(order::sorted_unique(skill::paths_of(tagged)), digest_of(local))
}

fn path_list(files: &Vec<SkillFile>) -> (r: Vec<String>)
    ensures
        text::texts(r@) == skill::paths_of(skill::files_of(files@)),
{
    let n: usize = files.len();
    let mut out: Vec<String> = Vec::new();
    let mut i: usize = 0;
    while i < n
        invariant
            n == files@.len(),
            i <= n,
            out@.len() == i,
            forall|k: int| 0 <= k < i ==> (#[trigger] out@[k])@ == files@[k].path@,
        decreases n - i,
    {
        out.push(files[i].path.clone());
        i += 1;
    }
    proof {
        assert(text::texts(out@) =~= skill::paths_of(skill::files_of(files@)));
    }
    out
}

fn slashed(files: Vec<SkillFile>) -> (r: Vec<SkillFile>)
    ensures
        skill::files_of(r@) == with_slash_paths(skill::files_of(files@)),
{
    let ghost all = skill::files_of(files@);
    let mut files = files;
    let mut back: Vec<SkillFile> = Vec::new();
    let ghost n = files@.len();
    while files.len() > 0
        invariant
            n == all.len(),
            files@.len() + back@.len() == n,
            skill::files_of(files@) == all.take(files@.len() as int),
            forall|k: int|
                0 <= k < back@.len() ==> (#[trigger] back@[k])@ == with_slash_paths(all)[n - 1 - k],
        decreases files@.len(),
    {
        let ghost before = files@;
        match files.pop() {
            Some(f) => {
                let ghost was = f@;
                proof {
                    assert(skill::files_of(before)[before.len() - 1] == was);
                    assert(all.take(before.len() as int)[before.len() - 1] == all[before.len() - 1]);
                    assert(skill::files_of(files@) =~= skill::files_of(before).drop_last());
                    assert(all.take(files@.len() as int) =~= all.take(
                        before.len() as int,
                    ).drop_last());
                }
                let path = with_slashes(f.path.as_str());
                back.push(SkillFile { path, bytes: f.bytes });
            },
            None => {
            },
        }
    }
    let mut out: Vec<SkillFile> = Vec::new();
    while back.len() > 0
        invariant
            n == all.len(),
            out@.len() + back@.len() == n,
            forall|k: int|
                0 <= k < back@.len() ==> (#[trigger] back@[k])@ == with_slash_paths(all)[n - 1 - k],
            forall|k: int|
                0 <= k < out@.len() ==> (#[trigger] out@[k])@ == with_slash_paths(all)[k],
        decreases back@.len(),
    {
        match back.pop() {
            Some(f) => {
                out.push(f);
            },
            None => {
            },
        }
    }
    proof {
        assert(skill::files_of(out@) =~= with_slash_paths(all));
    }
    out
}

/// In which files a local copy differs from the published version.
pub fn changed_vs_tag(published: Vec<SkillFile>, local: &Vec<SkillFile>) -> (r: Vec<String>)
    ensures
        text::texts(r@) == changes_list(
            with_slash_paths(skill::files_of(published@)),
            skill::files_of(local@),
        ),
{
    let tagged = slashed(published);
    let ghost dl = digest_of(skill::files_of(local@));
    let ghost dt = digest_of(skill::files_of(tagged@));
    let local_paths = sort_unique(&path_list(local));
    let ghost lp = text::texts(local_paths@);
    let n: usize = local_paths.len();
    let mut out: Vec<String> = Vec::new();
    let mut i: usize = 0;
    proof {
        order::sorted_unique_is_sorted(skill::paths_of(skill::files_of(local@)));
        digest_domain(skill::files_of(local@));
        assert(text::texts(out@) =~= local_notes(lp.take(0), dl, dt));
    }
    while i < n
        invariant
            n == local_paths@.len(),
            lp == text::texts(local_paths@),
            lp == order::sorted_unique(skill::paths_of(skill::files_of(local@))),
            dl == digest_of(skill::files_of(local@)),
            dt == digest_of(skill::files_of(tagged@)),
            i <= n,
            forall|x: Seq<char>| #[trigger]
                lp.contains(x) <==> skill::paths_of(skill::files_of(local@)).contains(x),
            forall|p: Seq<char>| #[trigger]
                dl.dom().contains(p) <==> skill::paths_of(skill::files_of(local@)).contains(p),
            text::texts(out@) == local_notes(lp.take(i as int), dl, dt),
        decreases n - i,
    {
        let path = local_paths[i].as_str();
        let ghost before = out@;
        proof {
            assert(lp[i as int] == path@);
            assert(lp.contains(path@));
            assert(dl.dom().contains(path@));
            assert(lp.take(i + 1).drop_last() =~= lp.take(i as int));
            assert(lp.take(i + 1).last() == path@);
        }
        match (last_at(local, path), last_at(&tagged, path)) {
            (Some(x), Some(y)) => {
                if !eol_eq(local[x].bytes.as_slice(), tagged[y].bytes.as_slice()) {
                    out.push(local_paths[i].clone());
                }
            },
            (_, None) => {
                let mut note = local_paths[i].clone();
                note.append(" (new)");
                out.push(note);
            },
            (None, _) => {
            },
        }
        proof {
            assert(text::texts(out@) =~= text::texts(before) + local_note(path@, dl, dt));
        }
        i += 1;
    }
    proof {
        assert(lp.take(n as int) =~= lp);
    }
    let ghost notes = text::texts(out@);
    let tagged_paths = sort_unique(&path_list(&tagged));
    let ghost tp = text::texts(tagged_paths@);
    let m: usize = tagged_paths.len();
    let mut j: usize = 0;
    proof {
        assert(notes + deleted_notes(tp.take(0), dl) =~= notes);
    }
    while j < m
        invariant
            m == tagged_paths@.len(),
            tp == text::texts(tagged_paths@),
            dl == digest_of(skill::files_of(local@)),
            j <= m,
            text::texts(out@) == notes + deleted_notes(tp.take(j as int), dl),
        decreases m - j,
    {
        let path = tagged_paths[j].as_str();
        let ghost before = out@;
        proof {
            assert(tp[j as int] == path@);
            assert(tp.take(j + 1).drop_last() =~= tp.take(j as int));
            assert(tp.take(j + 1).last() == path@);
        }
        if last_at(local, path).is_none() && !starts_with(path, ".knack/") {
            let mut note = tagged_paths[j].clone();
            note.append(" (deleted locally)");
            out.push(note);
            proof {
                assert(is_deleted(path@, dl));
                assert(text::texts(out@) =~= text::texts(before).push(
                    path@ + " (deleted locally)"@,
                ));
            }
        }
        proof {
            assert(text::texts(out@) =~= notes + deleted_notes(tp.take(j + 1), dl));
        }
        j += 1;
    }
    proof {
        assert(tp.take(m as int) =~= tp);
    }
    out
}

proof fn no_local_note(
    paths: Seq<Seq<char>>,
    local: Map<Seq<char>, Seq<u8>>,
    tagged: Map<Seq<char>, Seq<u8>>,
)
    ensures
        local_notes(paths, local, tagged).len() == 0 <==> (forall|p: Seq<char>| #[trigger]
            paths.contains(p) ==> tagged.dom().contains(p) && local[p] == tagged[p]),
    decreases paths.len(),
{
    if paths.len() > 0 {
        let t = paths.drop_last();
        no_local_note(t, local, tagged);
        assert(paths.contains(paths.last()));
        assert forall|p: Seq<char>| #[trigger] paths.contains(p) <==> t.contains(p) || p
            == paths.last() by {
            if t.contains(p) {
                let i = choose|i: int| 0 <= i < t.len() && t[i] == p;
                assert(paths[i] == p);
            }
            if paths.contains(p) && p != paths.last() {
                let i = choose|i: int| 0 <= i < paths.len() && paths[i] == p;
                assert(t[i] == p);
            }
        }
        if forall|p: Seq<char>| #[trigger]
            paths.contains(p) ==> tagged.dom().contains(p) && local[p] == tagged[p] {
            assert forall|p: Seq<char>| #[trigger] t.contains(p) implies tagged.dom().contains(p)
                && local[p] == tagged[p] by {
                assert(paths.contains(p));
            }
        }
    }
}

proof fn no_deleted_note(paths: Seq<Seq<char>>, local: Map<Seq<char>, Seq<u8>>)
    ensures
        deleted_notes(paths, local).len() == 0 <==> (forall|p: Seq<char>| #[trigger]
            paths.contains(p) ==> !is_deleted(p, local)),
    decreases paths.len(),
{
    if paths.len() > 0 {
        let t = paths.drop_last();
        no_deleted_note(t, local);
        assert(paths.contains(paths.last()));
        assert forall|p: Seq<char>| #[trigger] paths.contains(p) <==> t.contains(p) || p
            == paths.last() by {
            if t.contains(p) {
                let i = choose|i: int| 0 <= i < t.len() && t[i] == p;
                assert(paths[i] == p);
            }
            if paths.contains(p) && p != paths.last() {
                let i = choose|i: int| 0 <= i < paths.len() && paths[i] == p;
                assert(t[i] == p);
            }
        }
        if forall|p: Seq<char>| #[trigger] paths.contains(p) ==> !is_deleted(p, local) {
            assert forall|p: Seq<char>| #[trigger] t.contains(p) implies !is_deleted(p, local) by {
                assert(paths.contains(p));
            }
        }
    }
}

/// No file is reported exactly when the local copy is the published version: each of its files is
/// published with the same content, and each published file, pack metadata aside, is in it.
pub proof fn nothing_changed_iff_published(tagged: Seq<FileView>, local: Seq<FileView>)
    ensures
        changes_list(tagged, local).len() == 0 <==> {
            let l = digest_of(local);
            let t = digest_of(tagged);
            &&& forall|p: Seq<char>| #[trigger]
                l.dom().contains(p) ==> t.dom().contains(p) && l[p] == t[p]
            &&& forall|p: Seq<char>| #[trigger] t.dom().contains(p) ==> !is_deleted(p, l)
        },
{
    let l = digest_of(local);
    let t = digest_of(tagged);
    let lp = order::sorted_unique(skill::paths_of(local));
    let tp = order::sorted_unique(skill::paths_of(tagged));
    order::sorted_unique_is_sorted(skill::paths_of(local));
    order::sorted_unique_is_sorted(skill::paths_of(tagged));
    digest_domain(local);
    digest_domain(tagged);
    no_local_note(lp, l, t);
    no_deleted_note(tp, l);
    assert(forall|p: Seq<char>| #[trigger] l.dom().contains(p) <==> lp.contains(p));
    assert(forall|p: Seq<char>| #[trigger] t.dom().contains(p) <==> tp.contains(p));
    assert(forall|p: Seq<char>| #[trigger] lp.contains(p) <==> l.dom().contains(p));
    assert(forall|p: Seq<char>| #[trigger] tp.contains(p) <==> t.dom().contains(p));
}

/// Line ends are normalized piece by piece, unless a carriage return and its line feed are torn
/// apart: the pair becomes a line feed, and every other byte stays.
pub proof fn only_the_pair_is_normalized(a: Seq<u8>, b: Seq<u8>, c: u8)
    ensures
        !(a.len() > 0 && a.last() == 13 && b.len() > 0 && b[0] == 10) ==> normalized(a + b)
            == normalized(a) + normalized(b),
        normalized(seq![13u8, 10u8]) == seq![10u8],
        normalized(seq![c]) == seq![c],
        normalized(Seq::empty()) == Seq::<u8>::empty(),
    decreases a.len(),
{
    reveal_with_fuel(normalized, 3);
    assert(seq![13u8, 10u8].skip(1) =~= seq![10u8]);
    assert(seq![10u8].skip(1) =~= Seq::empty());
    assert(seq![c].skip(1) =~= Seq::empty());
    assert(normalized(seq![13u8, 10u8]) =~= seq![10u8]);
    assert(normalized(seq![c]) =~= seq![c]);
    if !(a.len() > 0 && a.last() == 13 && b.len() > 0 && b[0] == 10) {
        let s = a + b;
        if a.len() == 0 {
            assert(s =~= b);
            assert(normalized(s) =~= normalized(a) + normalized(b));
        } else {
            let t = a.skip(1);
            assert(s.skip(1) =~= t + b);
            assert(s[0] == a[0]);
            if t.len() > 0 {
                assert(t.last() == a.last());
                assert(s[1] == a[1]);
            } else {
                assert(a.last() == a[0]);
                if b.len() > 0 {
                    assert(s[1] == b[0]);
                }
            }
            only_the_pair_is_normalized(t, b, c);
            assert(starts_with_crlf(s) == starts_with_crlf(a));
            assert(normalized(s) =~= normalized(a) + normalized(b));
        }
    }
}

/// What a copy holds at a path is the content of its last file there, line ends aside, and nothing
/// where it has no file of that path.
pub proof fn copy_holds_its_last_files(files: Seq<FileView>, path: Seq<char>, i: int)
    ensures
        digest_of(files).dom().contains(path) <==> exists|k: int|
            0 <= k < files.len() && (#[trigger] files[k]).path == path,
        0 <= i < files.len() && files[i].path == path && (forall|k: int|
            i < k < files.len() ==> (#[trigger] files[k]).path != path) ==> digest_of(files)[path]
            == normalized(files[i].bytes),
    decreases files.len(),
{
    digest_domain(files);
    let names = skill::paths_of(files);
    if names.contains(path) {
        let k = choose|k: int| 0 <= k < names.len() && names[k] == path;
        assert(files[k].path == path);
    }
    if exists|k: int| 0 <= k < files.len() && (#[trigger] files[k]).path == path {
        let k = choose|k: int| 0 <= k < files.len() && (#[trigger] files[k]).path == path;
        assert(names[k] == path);
    }
    if 0 <= i < files.len() && files[i].path == path && (forall|k: int|
        i < k < files.len() ==> (#[trigger] files[k]).path != path) {
        let t = files.drop_last();
        if i < t.len() {
            assert(files[files.len() - 1].path != path);
            assert forall|k: int| i < k < t.len() implies (#[trigger] t[k]).path != path by {
                assert(files[k] == t[k]);
            }
            assert(t[i] == files[i]);
            copy_holds_its_last_files(t, path, i);
        }
    }
}

/// Whether one copy has a file at a path that the other does not have, or has with other content,
/// line ends aside.
pub open spec fn differs_at(
    a: Map<Seq<char>, Seq<u8>>,
    b: Map<Seq<char>, Seq<u8>>,
    p: Seq<char>,
) -> bool {
    a.dom().contains(p) && (!b.dom().contains(p) || a[p] != b[p])
}

/// Copies disagree exactly when one of them differs from another at some path.
pub proof fn copies_disagree_at_a_path(d: Seq<Map<Seq<char>, Seq<u8>>>)
    ensures
        disagree(d) <==> exists|i: int, j: int, p: Seq<char>|
            0 <= i < d.len() && 0 <= j < d.len() && #[trigger] differs_at(d[i], d[j], p),
{
    if disagree(d) {
        let (i, j) = choose|i: int, j: int|
            0 <= i < j < d.len() && #[trigger] d[i] != #[trigger] d[j];
        let a = d[i];
        let b = d[j];
        if (forall|p: Seq<char>| !#[trigger] differs_at(a, b, p)) && (forall|p: Seq<char>|
            !#[trigger] differs_at(b, a, p)) {
            assert forall|p: Seq<char>| #[trigger] a.dom().contains(p) <==> b.dom().contains(p) by {
                assert(!differs_at(a, b, p));
                assert(!differs_at(b, a, p));
            }
            assert forall|p: Seq<char>| #[trigger] a.dom().contains(p) implies a[p] == b[p] by {
                assert(!differs_at(a, b, p));
            }
            assert(a.dom() =~= b.dom());
            assert(a =~= b);
        }
        if exists|p: Seq<char>| #[trigger] differs_at(a, b, p) {
            let p = choose|p: Seq<char>| #[trigger] differs_at(a, b, p);
            assert(differs_at(d[i], d[j], p));
        } else {
            let p = choose|p: Seq<char>| #[trigger] differs_at(b, a, p);
            assert(differs_at(d[j], d[i], p));
        }
    }
    if exists|i: int, j: int, p: Seq<char>|
        0 <= i < d.len() && 0 <= j < d.len() && #[trigger] differs_at(d[i], d[j], p) {
        let (i, j, p) = choose|i: int, j: int, p: Seq<char>|
            0 <= i < d.len() && 0 <= j < d.len() && #[trigger] differs_at(d[i], d[j], p);
        assert(d[i] != d[j]);
        if i < j {
            assert(d[i] != d[j]);
        } else {
            assert(d[j] != d[i]);
        }
    }
}

proof fn local_notes_of(
    paths: Seq<Seq<char>>,
    local: Map<Seq<char>, Seq<u8>>,
    tagged: Map<Seq<char>, Seq<u8>>,
    x: Seq<char>,
)
    ensures
        local_notes(paths, local, tagged).contains(x) <==> exists|i: int|
            0 <= i < paths.len() && local_note(#[trigger] paths[i], local, tagged).contains(x),
    decreases paths.len(),
{
    if paths.len() > 0 {
        let t = paths.drop_last();
        let n = paths.len() - 1;
        let before = local_notes(t, local, tagged);
        let note = local_note(paths.last(), local, tagged);
        let all = local_notes(paths, local, tagged);
        local_notes_of(t, local, tagged, x);
        if all.contains(x) {
            let k = choose|k: int| 0 <= k < all.len() && all[k] == x;
            if k < before.len() {
                assert(before[k] == x);
                let i = choose|i: int|
                    0 <= i < t.len() && local_note(#[trigger] t[i], local, tagged).contains(x);
                assert(paths[i] == t[i]);
            } else {
                assert(note[k - before.len()] == x);
                assert(local_note(paths[n], local, tagged).contains(x));
            }
        }
        if exists|i: int|
            0 <= i < paths.len() && local_note(#[trigger] paths[i], local, tagged).contains(x) {
            let i = choose|i: int|
                0 <= i < paths.len() && local_note(#[trigger] paths[i], local, tagged).contains(x);
            if i < n {
                assert(t[i] == paths[i]);
                let k = choose|k: int| 0 <= k < before.len() && before[k] == x;
                assert(all[k] == x);
            } else {
                let k = choose|k: int| 0 <= k < note.len() && note[k] == x;
                assert(all[before.len() + k] == x);
            }
        }
    }
}

proof fn deleted_notes_of(paths: Seq<Seq<char>>, local: Map<Seq<char>, Seq<u8>>, x: Seq<char>)
    ensures
        deleted_notes(paths, local).contains(x) <==> exists|i: int|
            0 <= i < paths.len() && is_deleted(#[trigger] paths[i], local) && x == paths[i]
                + " (deleted locally)"@,
    decreases paths.len(),
{
    if paths.len() > 0 {
        let t = paths.drop_last();
        let n = paths.len() - 1;
        let before = deleted_notes(t, local);
        let all = deleted_notes(paths, local);
        deleted_notes_of(t, local, x);
        if all.contains(x) {
            let k = choose|k: int| 0 <= k < all.len() && all[k] == x;
            if k < before.len() {
                assert(before[k] == x);
                let i = choose|i: int|
                    0 <= i < t.len() && is_deleted(#[trigger] t[i], local) && x == t[i]
                        + " (deleted locally)"@;
                assert(paths[i] == t[i]);
            } else {
                assert(is_deleted(paths[n], local));
            }
        }
        if exists|i: int|
            0 <= i < paths.len() && is_deleted(#[trigger] paths[i], local) && x == paths[i]
                + " (deleted locally)"@ {
            let i = choose|i: int|
                0 <= i < paths.len() && is_deleted(#[trigger] paths[i], local) && x == paths[i]
                    + " (deleted locally)"@;
            if i < n {
                assert(t[i] == paths[i]);
                let k = choose|k: int| 0 <= k < before.len() && before[k] == x;
                assert(all[k] == x);
            } else {
                assert(all[before.len() as int] == x);
            }
        }
    }
}

/// Whether a note tells of the file at a path: new, changed, or deleted and no pack metadata.
pub open spec fn tells_of(
    note: Seq<char>,
    p: Seq<char>,
    local: Map<Seq<char>, Seq<u8>>,
    tagged: Map<Seq<char>, Seq<u8>>,
) -> bool {
    ||| local.dom().contains(p) && !tagged.dom().contains(p) && note == p + " (new)"@
    ||| local.dom().contains(p) && tagged.dom().contains(p) && local[p] != tagged[p] && note == p
    ||| tagged.dom().contains(p) && !local.dom().contains(p) && !".knack/"@.is_prefix_of(p) && note
        == p + " (deleted locally)"@
}

/// A file that only the local copy has is reported as new, one that both have with other content by
/// its path, and one that only the published version has as deleted, unless it is pack metadata; and
/// nothing else is reported.
pub proof fn each_change_is_reported_for_what_it_is(
    tagged: Seq<FileView>,
    local: Seq<FileView>,
    x: Seq<char>,
)
    ensures
        changes_list(tagged, local).contains(x) <==> exists|p: Seq<char>| #[trigger]
            tells_of(x, p, digest_of(local), digest_of(tagged)),
{
    let l = digest_of(local);
    let t = digest_of(tagged);
    let lp = order::sorted_unique(skill::paths_of(local));
    let tp = order::sorted_unique(skill::paths_of(tagged));
    order::sorted_unique_is_sorted(skill::paths_of(local));
    order::sorted_unique_is_sorted(skill::paths_of(tagged));
    digest_domain(local);
    digest_domain(tagged);
    local_notes_of(lp, l, t, x);
    deleted_notes_of(tp, l, x);
    let a = local_notes(lp, l, t);
    let b = deleted_notes(tp, l);
    let all = a + b;
    assert(all == changes_list(tagged, local));
    if all.contains(x) {
        let k = choose|k: int| 0 <= k < all.len() && all[k] == x;
        if k < a.len() {
            assert(a[k] == x);
            let i = choose|i: int| 0 <= i < lp.len() && local_note(#[trigger] lp[i], l, t).contains(x);
            assert(lp.contains(lp[i]));
            assert(l.dom().contains(lp[i]));
            assert(tells_of(x, lp[i], l, t));
        } else {
            assert(b[k - a.len()] == x);
            let i = choose|i: int|
                0 <= i < tp.len() && is_deleted(#[trigger] tp[i], l) && x == tp[i]
                    + " (deleted locally)"@;
            assert(tp.contains(tp[i]));
            assert(t.dom().contains(tp[i]));
            assert(tells_of(x, tp[i], l, t));
        }
    }
    if exists|p: Seq<char>| #[trigger] tells_of(x, p, l, t) {
        let p = choose|p: Seq<char>| #[trigger] tells_of(x, p, l, t);
        if l.dom().contains(p) {
            assert(lp.contains(p));
            let i = choose|i: int| 0 <= i < lp.len() && lp[i] == p;
            assert(local_note(lp[i], l, t)[0] == x);
            let k = choose|k: int| 0 <= k < a.len() && a[k] == x;
            assert(all[k] == x);
        } else {
            assert(tp.contains(p));
            let i = choose|i: int| 0 <= i < tp.len() && tp[i] == p;
            assert(is_deleted(tp[i], l));
            let k = choose|k: int| 0 <= k < b.len() && b[k] == x;
            assert(all[a.len() + k] == x);
        }
    }
}

/// What is reported does not depend on the order in which the files are listed.
pub proof fn changes_ignore_the_order_of_the_files(
    tagged: Seq<FileView>,
    local: Seq<FileView>,
    tagged2: Seq<FileView>,
    local2: Seq<FileView>,
)
    requires
        digest_of(tagged) == digest_of(tagged2),
        digest_of(local) == digest_of(local2),
    ensures
        changes_list(tagged, local) == changes_list(tagged2, local2),
{
    same_paths_sort_alike(tagged, tagged2);
    same_paths_sort_alike(local, local2);
}

proof fn same_paths_sort_alike(a: Seq<FileView>, b: Seq<FileView>)
    requires
        digest_of(a) == digest_of(b),
    ensures
        order::sorted_unique(skill::paths_of(a)) == order::sorted_unique(skill::paths_of(b)),
{
    digest_domain(a);
    digest_domain(b);
    order::sorted_unique_is_sorted(skill::paths_of(a));
    order::sorted_unique_is_sorted(skill::paths_of(b));
    let x = order::sorted_unique(skill::paths_of(a));
    let y = order::sorted_unique(skill::paths_of(b));
    assert forall|p: Seq<char>| x.contains(p) <==> y.contains(p) by {
        assert(x.contains(p) <==> skill::paths_of(a).contains(p));
        assert(y.contains(p) <==> skill::paths_of(b).contains(p));
        assert(digest_of(a).dom().contains(p) <==> skill::paths_of(a).contains(p));
        assert(digest_of(b).dom().contains(p) <==> skill::paths_of(b).contains(p));
    }
    order::ascending_is_unique(x, y);
}

/// The paths of a published version are compared with a slash wherever they have a backslash, and
/// nothing else of its files is changed.
pub proof fn backslashes_count_as_slashes(files: Seq<FileView>, i: int, k: int)
    requires
        0 <= i < files.len(),
        0 <= k < files[i].path.len(),
    ensures
        with_slash_paths(files).len() == files.len(),
        with_slash_paths(files)[i].bytes == files[i].bytes,
        with_slash_paths(files)[i].path.len() == files[i].path.len(),
        with_slash_paths(files)[i].path[k] == if files[i].path[k] == '\\' {
            '/'
        } else {
            files[i].path[k]
        },
{
    text::replacing_keeps_the_others(files[i].path, '\\', '/', k);
}

} // verus!
