//! Posix paths as text.
use vstd::prelude::*;

use crate::text;
use crate::text::{same, split, to_chars};

verus! {

/// `seg` below `base`: an absolute `seg` replaces `base`, else a slash stands between the two
/// where `base` does not end in one.
pub open spec fn joined(base: Seq<char>, seg: Seq<char>) -> Seq<char> {
    if seg.len() > 0 && seg[0] == '/' {
        seg
    } else if base.len() == 0 || base.last() == '/' {
        base + seg
    } else {
        base + "/"@ + seg
    }
}

/// `seg` below `base`.
pub fn join(base: &str, seg: &str) -> (r: String)
    ensures
        r@ == joined(base@, seg@),
{
    let s = to_chars(seg);
    if s.len() > 0 && s[0] == '/' {
        return seg.to_owned();
    }
    let b = to_chars(base);
    let mut out = base.to_owned();
    if b.len() > 0 && b[b.len() - 1] != '/' {
        out.append("/");
    }
    out.append(seg);
    out
}

/// The segments of a path that count: neither empty nor `.`.
pub open spec fn named_segments(segs: Seq<Seq<char>>) -> Seq<Seq<char>>
    decreases segs.len(),
{
    if segs.len() == 0 {
        Seq::empty()
    } else {
        let before = named_segments(segs.drop_last());
        if segs.last().len() == 0 || segs.last() == "."@ {
            before
        } else {
            before.push(segs.last())
        }
    }
}

/// What a path is made of: whether it is absolute, whether it starts with `.`, and its named
/// segments.
pub open spec fn components(p: Seq<char>) -> (bool, bool, Seq<Seq<char>>) {
    let segs = text::split_on(p, '/');
    (p.len() > 0 && p[0] == '/', segs[0] == "."@, named_segments(segs))
}

/// Whether two paths are the same: `a//b`, `a/./b` and `a/b/` are all `a/b`.
pub open spec fn same_path(a: Seq<char>, b: Seq<char>) -> bool {
    components(a) == components(b)
}

fn named<'a>(p: &'a str) -> (r: Vec<&'a str>)
    ensures
        text::slices(r@) == named_segments(text::split_on(p@, '/')),
{
    let segs = split(p, '/');
    let ghost all = text::split_on(p@, '/');
    let n: usize = segs.len();
    let mut out: Vec<&'a str> = Vec::new();
    let mut i: usize = 0;
    proof {
        assert(text::slices(out@) =~= named_segments(all.take(0)));
    }
    while i < n
        invariant
            text::slices(segs@) == all,
            n == all.len(),
            i <= n,
            text::slices(out@) == named_segments(all.take(i as int)),
        decreases n - i,
    {
        let seg = segs[i];
        let ghost before = out@;
        proof {
            assert(text::slices(segs@)[i as int] == seg@);
            assert(all.take(i + 1).drop_last() =~= all.take(i as int));
        }
        if !(seg.is_empty() || same(seg, ".")) {
            out.push(seg);
            proof {
                assert(text::slices(out@) =~= text::slices(before).push(seg@));
            }
        }
        i += 1;
    }
    proof {
        assert(all.take(n as int) =~= all);
    }
    out
}

fn is_absolute(p: &str) -> (r: bool)
    ensures
        r == (p@.len() > 0 && p@[0] == '/'),
{
    let c = to_chars(p);
    c.len() > 0 && c[0] == '/'
}

fn starts_with_dot(p: &str) -> (r: bool)
    ensures
        r == (text::split_on(p@, '/')[0] == "."@),
{
    let segs = split(p, '/');
    proof {
        text::split_join(p@, '/');
        assert(text::slices(segs@)[0] == segs@[0]@);
    }
    same(segs[0], ".")
}

/// Whether two paths are the same.
pub fn same_as(a: &str, b: &str) -> (r: bool)
    ensures
        r == same_path(a@, b@),
{
    if is_absolute(a) != is_absolute(b) || starts_with_dot(a) != starts_with_dot(b) {
        return false;
    }
    let x = named(a);
    let y = named(b);
    let ghost xs = text::slices(x@);
    let ghost ys = text::slices(y@);
    proof {
        assert(xs == components(a@).2);
        assert(ys == components(b@).2);
        assert(xs.len() == x@.len() && ys.len() == y@.len());
    }
    if x.len() != y.len() {
        return false;
    }
    let n: usize = x.len();
    let mut i: usize = 0;
    while i < n
        invariant
            n == x@.len(),
            n == y@.len(),
            xs == text::slices(x@),
            ys == text::slices(y@),
            xs == components(a@).2,
            ys == components(b@).2,
            i <= n,
            forall|k: int| 0 <= k < i ==> xs[k] == ys[k],
        decreases n - i,
    {
        proof {
            assert(xs[i as int] == x@[i as int]@);
            assert(ys[i as int] == y@[i as int]@);
        }
        if !same(x[i], y[i]) {
            return false;
        }
        i += 1;
    }
    proof {
        assert(xs =~= ys);
    }
    true
}

/// The name that a path ends in, where it ends in one.
pub open spec fn file_name_of(p: Seq<char>) -> Option<Seq<char>> {
    let segs = components(p).2;
    if segs.len() == 0 || segs.last() == ".."@ {
        None
    } else {
        Some(segs.last())
    }
}

/// The name that a path ends in, where it ends in one.
pub fn file_name<'a>(p: &'a str) -> (r: Option<&'a str>)
    ensures
        text::opt_slice(r) == file_name_of(p@),
{
    let segs = named(p);
    let n: usize = segs.len();
    proof {
        assert(text::slices(segs@).len() == n);
    }
    if n == 0 {
        return None;
    }
    let last = segs[n - 1];
    proof {
        assert(text::slices(segs@)[n - 1] == last@);
    }
    if same(last, "..") {
        None
    } else {
        Some(last)
    }
}

/// A name below a directory is the directory, a slash and the name, whether or not the directory is
/// written with a slash at its end; a rooted path stands for itself.
pub proof fn joining_puts_one_slash(base: Seq<char>, seg: Seq<char>)
    ensures
        base.len() > 0 && base.last() != '/' && (seg.len() == 0 || seg[0] != '/') ==> joined(base, seg)
            == base + seq!['/'] + seg,
        base.len() > 0 && base.last() == '/' && (seg.len() == 0 || seg[0] != '/') ==> joined(base, seg)
            == base + seg,
        base.len() == 0 ==> joined(base, seg) == seg,
        seg.len() > 0 && seg[0] == '/' ==> joined(base, seg) == seg,
{
    reveal_strlit("/");
    assert("/"@ =~= seq!['/']);
    assert(Seq::<char>::empty() + seg =~= seg);
    if base.len() == 0 {
        assert(base =~= Seq::<char>::empty());
    }
}

proof fn named_of_two(x: Seq<Seq<char>>, y: Seq<Seq<char>>)
    ensures
        named_segments(x + y) == named_segments(x) + named_segments(y),
    decreases y.len(),
{
    let z = x + y;
    if y.len() == 0 {
        assert(z =~= x);
        assert(named_segments(z) =~= named_segments(x) + named_segments(y));
    } else {
        named_of_two(x, y.drop_last());
        assert(z.drop_last() =~= x + y.drop_last());
        assert(z.last() == y.last());
        assert(named_segments(z) =~= named_segments(x) + named_segments(y));
    }
}

/// Whether every segment of a path is a name: none is empty, and none is `.`.
pub open spec fn is_plain(p: Seq<char>) -> bool {
    forall|i: int|
        0 <= i < text::split_on(p, '/').len() ==> (#[trigger] text::split_on(p, '/')[i]).len() > 0
            && text::split_on(p, '/')[i] != "."@
}

proof fn all_named(segs: Seq<Seq<char>>)
    requires
        forall|i: int| 0 <= i < segs.len() ==> (#[trigger] segs[i]).len() > 0 && segs[i] != "."@,
    ensures
        named_segments(segs) == segs,
    decreases segs.len(),
{
    if segs.len() > 0 {
        let t = segs.drop_last();
        assert forall|i: int| 0 <= i < t.len() implies (#[trigger] t[i]).len() > 0 && t[i] != "."@ by {
            assert(t[i] == segs[i]);
        }
        all_named(t);
        assert(segs[segs.len() - 1] == segs.last());
        assert(t.push(segs.last()) =~= segs);
    } else {
        assert(named_segments(segs) =~= segs);
    }
}

/// Two paths whose segments are all names are the same path only if they are the same text.
pub proof fn plain_paths_are_texts(a: Seq<char>, b: Seq<char>)
    requires
        is_plain(a),
        is_plain(b),
    ensures
        same_path(a, b) <==> a == b,
{
    all_named(text::split_on(a, '/'));
    all_named(text::split_on(b, '/'));
    text::split_join(a, '/');
    text::split_join(b, '/');
}

/// A slash at the end of a path, a doubled slash and a `.` between two segments make no other path.
pub proof fn written_otherwise_is_the_same_path(a: Seq<char>, b: Seq<char>)
    requires
        a.len() > 0,
    ensures
        same_path(a + seq!['/'], a),
        same_path(a + seq!['/', '/'] + b, a + seq!['/'] + b),
        same_path(a + seq!['/', '.', '/'] + b, a + seq!['/'] + b),
{
    reveal_strlit(".");
    let e = Seq::<char>::empty();
    let dot = seq!['.'];
    assert(dot =~= "."@);
    let sa = text::split_on(a, '/');
    let sb = text::split_on(b, '/');
    text::split_join(a, '/');
    text::split_join(b, '/');
    text::split_at_a_separator(a, e, '/');
    text::split_at_a_separator(a, b, '/');
    text::split_at_a_separator(e, b, '/');
    text::split_at_a_separator(dot, b, '/');
    text::split_at_a_separator(a, e + seq!['/'] + b, '/');
    text::split_at_a_separator(a, dot + seq!['/'] + b, '/');
    assert(a + seq!['/'] + e =~= a + seq!['/']);
    assert(a + seq!['/'] + (e + seq!['/'] + b) =~= a + seq!['/', '/'] + b);
    assert(a + seq!['/'] + (dot + seq!['/'] + b) =~= a + seq!['/', '.', '/'] + b);
    assert(text::split_on(e, '/') == seq![e]);
    reveal_with_fuel(named_segments, 2);
    let ne = named_segments(seq![e]);
    let nd = named_segments(seq![dot]);
    assert(seq![e].drop_last() =~= Seq::empty());
    assert(seq![dot].drop_last() =~= Seq::empty());
    assert(ne =~= Seq::empty());
    assert(nd =~= Seq::empty());
    named_of_two(sa, seq![e]);
    named_of_two(sa, sb);
    named_of_two(seq![e], sb);
    named_of_two(seq![dot], sb);
    named_of_two(sa, seq![e] + sb);
    named_of_two(sa, seq![dot] + sb);
    assert(named_segments(sa) + ne =~= named_segments(sa));
    assert(ne + named_segments(sb) =~= named_segments(sb));
    assert((sa + seq![e])[0] == sa[0]);
    assert((sa + sb)[0] == sa[0]);
    assert((sa + (seq![e] + sb))[0] == sa[0]);
    assert((sa + (seq![dot] + sb))[0] == sa[0]);
    assert((a + seq!['/'])[0] == a[0]);
    assert((a + seq!['/'] + b)[0] == a[0]);
    assert((a + seq!['/', '/'] + b)[0] == a[0]);
    assert((a + seq!['/', '.', '/'] + b)[0] == a[0]);
}

/// A path below a directory ends in its last segment.
pub proof fn file_name_is_the_last_segment(dir: Seq<char>, name: Seq<char>)
    requires
        name.len() > 0,
        !name.contains('/'),
        name != "."@,
        name != ".."@,
    ensures
        file_name_of(dir + seq!['/'] + name) == Some(name),
        file_name_of(name) == Some(name),
{
    text::split_at_a_separator(dir, name, '/');
    text::split_at_a_separator(name, dir, '/');
    reveal_with_fuel(named_segments, 2);
    let one = seq![name];
    named_of_two(text::split_on(dir, '/'), one);
    assert(one.drop_last() =~= Seq::empty());
    assert(named_segments(one) =~= one);
    assert((named_segments(text::split_on(dir, '/')) + one).last() == name);
}

/// A rooted path, and one that starts with `.`, is another path than the one without.
pub proof fn roots_and_dots_in_front_count(a: Seq<char>)
    requires
        is_plain(a),
    ensures
        !same_path(seq!['/'] + a, a),
        !same_path(seq!['.', '/'] + a, a),
{
    reveal_strlit(".");
    let e = Seq::<char>::empty();
    let dot = seq!['.'];
    assert(dot =~= "."@);
    text::split_join(a, '/');
    let segs = text::split_on(a, '/');
    assert(segs[0].len() > 0 && segs[0] != "."@);
    text::split_at_a_separator(dot, a, '/');
    assert(seq!['.', '/'] + a =~= dot + seq!['/'] + a);
    assert(!dot.contains('/'));
    assert((seq![dot] + segs)[0] == dot);
    if a.len() > 0 && a[0] == '/' {
        let rest = a.skip(1);
        text::split_at_a_separator(e, rest, '/');
        assert(e + seq!['/'] + rest =~= a);
        assert(segs[0] == e);
    }
}

} // verus!
