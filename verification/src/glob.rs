//! Mode `load` patterns: per-segment wildcards over skill-relative paths.
use vstd::prelude::*;

use crate::text;
use crate::text::{find_from, same, split, stands_at, to_chars};

verus! {

/// Whether the pattern `p` matches the whole of `s`: a `*` stands for any characters, each other
/// character for itself.
pub open spec fn glob(p: Seq<char>, s: Seq<char>) -> bool
    decreases p.len(),
{
    if p.len() == 0 {
        s.len() == 0
    } else if p[0] == '*' {
        exists|k: int| 0 <= k <= s.len() && glob(p.skip(1), #[trigger] s.skip(k))
    } else {
        s.len() > 0 && s[0] == p[0] && glob(p.skip(1), s.skip(1))
    }
}

/// Whether the pattern `p` matches the path `s`: as many segments, and segment by segment.
pub open spec fn wildcard(p: Seq<char>, s: Seq<char>) -> bool {
    let ps = text::split_on(p, '/');
    let fs = text::split_on(s, '/');
    &&& ps.len() == fs.len()
    &&& forall|i: int| 0 <= i < ps.len() ==> glob(#[trigger] ps[i], fs[i])
}

// What a pattern's pieces between its stars ask of a text: the first stands at the start, the
// others follow in their order with anything before them, the last ends the text.
spec fn pieces_match(ps: Seq<Seq<char>>, s: Seq<char>) -> bool
    decreases ps.len(),
{
    if ps.len() <= 1 {
        s == ps[0]
    } else {
        &&& ps[0].is_prefix_of(s)
        &&& exists|k: int|
            0 <= k <= s.len() - ps[0].len() && pieces_match(
                ps.skip(1),
                #[trigger] s.skip(ps[0].len() as int).skip(k),
            )
    }
}

spec fn star_match(ps: Seq<Seq<char>>, s: Seq<char>) -> bool {
    exists|k: int| 0 <= k <= s.len() && pieces_match(ps, #[trigger] s.skip(k))
}

proof fn split_front(s: Seq<char>, sep: char)
    requires
        s.len() > 0,
    ensures
        text::split_on(s, sep) == if s[0] == sep {
            seq![Seq::<char>::empty()] + text::split_on(s.skip(1), sep)
        } else {
            seq![seq![s[0]] + text::split_on(s.skip(1), sep)[0]] + text::split_on(s.skip(1), sep).skip(1)
        },
    decreases s.len(),
{
    let t = s.drop_last();
    let r = text::split_on(s.skip(1), sep);
    text::split_join(s.skip(1), sep);
    if s.len() == 1 {
        assert(t =~= Seq::empty());
        assert(s.skip(1) =~= Seq::empty());
        assert(text::split_on(t, sep) =~= seq![Seq::<char>::empty()]);
        assert(r =~= seq![Seq::<char>::empty()]);
        if s[0] == sep {
            assert(text::split_on(s, sep) =~= seq![Seq::<char>::empty()] + r);
        } else {
            assert(text::split_on(t, sep).last().push(s[0]) =~= seq![s[0]] + r[0]);
            assert(text::split_on(s, sep) =~= seq![seq![s[0]] + r[0]] + r.skip(1));
        }
    } else {
        split_front(t, sep);
        let rt = text::split_on(t.skip(1), sep);
        text::split_join(t.skip(1), sep);
        text::split_join(t, sep);
        assert(s.skip(1).drop_last() =~= t.skip(1));
        assert(s.skip(1).last() == s.last());
        let before = text::split_on(t, sep);
        if s[0] == sep {
            assert(before == seq![Seq::<char>::empty()] + rt);
            if s.last() == sep {
                assert(text::split_on(s, sep) =~= seq![Seq::<char>::empty()] + r);
            } else {
                assert(before.last() == rt.last());
                assert(text::split_on(s, sep) =~= seq![Seq::<char>::empty()] + r);
            }
        } else {
            assert(before == seq![seq![s[0]] + rt[0]] + rt.skip(1));
            if s.last() == sep {
                assert(text::split_on(s, sep) =~= seq![seq![s[0]] + r[0]] + r.skip(1));
            } else if rt.len() == 1 {
                assert(before.last() == seq![s[0]] + rt[0]);
                assert(before.last().push(s.last()) =~= seq![s[0]] + r[0]);
                assert(text::split_on(s, sep) =~= seq![seq![s[0]] + r[0]] + r.skip(1));
            } else {
                assert(before.last() == rt.last());
                assert(text::split_on(s, sep) =~= seq![seq![s[0]] + r[0]] + r.skip(1));
            }
        }
    }
}

proof fn glob_by_pieces(p: Seq<char>, s: Seq<char>)
    ensures
        glob(p, s) == pieces_match(text::split_on(p, '*'), s),
    decreases p.len(),
{
    let ps = text::split_on(p, '*');
    if p.len() == 0 {
        assert(ps =~= seq![Seq::<char>::empty()]);
        assert((s.len() == 0) == (s =~= Seq::<char>::empty()));
    } else {
        split_front(p, '*');
        let q = p.skip(1);
        let r = text::split_on(q, '*');
        text::split_join(q, '*');
        if p[0] == '*' {
            assert(ps.skip(1) =~= r);
            assert(s.skip(0) =~= s);
            assert(ps[0].is_prefix_of(s)) by {
                assert(s.subrange(0, 0) =~= Seq::<char>::empty());
            }
            assert forall|k: int| 0 <= k <= s.len() implies glob(q, s.skip(k)) == pieces_match(
                r,
                s.skip(0).skip(k),
            ) by {
                glob_by_pieces(q, s.skip(k));
            }
            if glob(p, s) {
                let k = choose|k: int| 0 <= k <= s.len() && glob(q, #[trigger] s.skip(k));
                assert(pieces_match(ps.skip(1), s.skip(ps[0].len() as int).skip(k)));
            }
            if pieces_match(ps, s) {
                let k = choose|k: int|
                    0 <= k <= s.len() - ps[0].len() && pieces_match(
                        ps.skip(1),
                        #[trigger] s.skip(ps[0].len() as int).skip(k),
                    );
                assert(glob(q, s.skip(k)));
            }
        } else {
            let c = p[0];
            let first = seq![c] + r[0];
            assert(ps[0] == first);
            assert(ps.skip(1) =~= r.skip(1));
            if s.len() > 0 && s[0] == c {
                let u = s.skip(1);
                glob_by_pieces(q, u);
                assert(s =~= seq![c] + u);
                if r.len() == 1 {
                    if u == r[0] {
                        assert(s =~= first);
                    }
                    if s == first {
                        assert(u =~= r[0]);
                    }
                } else {
                    if r[0].is_prefix_of(u) {
                        assert(s.subrange(0, first.len() as int) =~= first);
                    }
                    if first.is_prefix_of(s) {
                        assert(u.subrange(0, r[0].len() as int) =~= first.skip(1));
                        assert(first.skip(1) =~= r[0]);
                    }
                    if first.len() <= s.len() {
                        assert(s.skip(first.len() as int) =~= u.skip(r[0].len() as int));
                    }
                }
            } else {
                if pieces_match(ps, s) {
                    assert(first[0] == c);
                    if r.len() == 1 {
                        assert(s[0] == c);
                    } else {
                        assert(s.subrange(0, first.len() as int)[0] == c);
                    }
                }
            }
        }
    }
}

// Taking the leftmost place of the next piece loses no match.
proof fn leftmost_is_enough(ps: Seq<Seq<char>>, s: Seq<char>, j: int)
    requires
        ps.len() >= 2,
        text::occurs_at(s, ps[0], j),
        forall|i: int| 0 <= i < j ==> !text::occurs_at(s, ps[0], i),
    ensures
        star_match(ps, s) == star_match(ps.skip(1), s.skip(j + ps[0].len())),
{
    let n = ps[0].len() as int;
    let rest = s.skip(j + n);
    if star_match(ps, s) {
        let k = choose|k: int| 0 <= k <= s.len() && pieces_match(ps, #[trigger] s.skip(k));
        let u = s.skip(k);
        let k2 = choose|k2: int|
            0 <= k2 <= u.len() - n && pieces_match(ps.skip(1), #[trigger] u.skip(n).skip(k2));
        assert(s.subrange(k, k + n) =~= u.subrange(0, n));
        assert(text::occurs_at(s, ps[0], k));
        assert(k >= j);
        let m = k + k2 - j;
        assert(rest.skip(m) =~= u.skip(n).skip(k2));
        assert(pieces_match(ps.skip(1), rest.skip(m)));
    }
    if star_match(ps.skip(1), rest) {
        let m = choose|m: int| 0 <= m <= rest.len() && pieces_match(ps.skip(1), #[trigger] rest.skip(m));
        let u = s.skip(j);
        assert(u.subrange(0, n) =~= s.subrange(j, j + n));
        assert(u.skip(n) =~= rest);
        assert(pieces_match(ps.skip(1), u.skip(n).skip(m)));
        assert(pieces_match(ps, s.skip(j)));
    }
}

proof fn nowhere_is_no_match(ps: Seq<Seq<char>>, s: Seq<char>)
    requires
        ps.len() >= 2,
        forall|i: int| 0 <= i ==> !text::occurs_at(s, ps[0], i),
    ensures
        !star_match(ps, s),
{
    if star_match(ps, s) {
        let k = choose|k: int| 0 <= k <= s.len() && pieces_match(ps, #[trigger] s.skip(k));
        let n = ps[0].len() as int;
        assert(s.subrange(k, k + n) =~= s.skip(k).subrange(0, n));
        assert(text::occurs_at(s, ps[0], k));
    }
}

proof fn last_piece(ps: Seq<Seq<char>>, s: Seq<char>)
    requires
        ps.len() == 1,
    ensures
        star_match(ps, s) == ps[0].is_suffix_of(s),
{
    let n = ps[0].len() as int;
    if star_match(ps, s) {
        let k = choose|k: int| 0 <= k <= s.len() && pieces_match(ps, #[trigger] s.skip(k));
        assert(s.subrange(s.len() - n, s.len() as int) =~= s.skip(k));
    }
    if ps[0].is_suffix_of(s) {
        let k = s.len() - n;
        assert(s.skip(k) =~= ps[0]);
        assert(pieces_match(ps, s.skip(k)));
    }
}

proof fn no_star_is_equality(p: Seq<char>, s: Seq<char>)
    requires
        !p.contains('*'),
    ensures
        glob(p, s) == (p == s),
    decreases p.len(),
{
    if p.len() > 0 {
        assert(p.contains(p[0]));
        assert(!p.skip(1).contains('*')) by {
            if p.skip(1).contains('*') {
                let k = choose|k: int| 0 <= k < p.skip(1).len() && p.skip(1)[k] == '*';
                assert(p[k + 1] == '*');
            }
        }
        if s.len() > 0 {
            no_star_is_equality(p.skip(1), s.skip(1));
            if p[0] == s[0] && p.skip(1) == s.skip(1) {
                assert(p =~= seq![p[0]] + p.skip(1));
                assert(s =~= seq![s[0]] + s.skip(1));
            }
        }
    } else {
        assert((s.len() == 0) == (p =~= s));
    }
}

fn has_star(chars: &Vec<char>) -> (r: bool)
    ensures
        r == chars@.contains('*'),
{
    let n: usize = chars.len();
    let mut i: usize = 0;
    while i < n
        invariant
            n == chars@.len(),
            i <= n,
            forall|k: int| 0 <= k < i ==> chars@[k] != '*',
        decreases n - i,
    {
        if chars[i] == '*' {
            return true;
        }
        i += 1;
    }
    false
}

/// Whether one segment of a pattern matches one segment of a path.
pub fn segment_matches(pattern: &str, segment: &str) -> (r: bool)
    ensures
        r == glob(pattern@, segment@),
{
    let p = to_chars(pattern);
    if !has_star(&p) {
        proof {
            no_star_is_equality(pattern@, segment@);
        }
        return same(pattern, segment);
    }
    let seg = to_chars(segment);
    let end: usize = seg.len();
    let parts = split(pattern, '*');
    let ghost ps = text::split_on(pattern@, '*');
    proof {
        glob_by_pieces(pattern@, segment@);
        text::split_join(pattern@, '*');
        if ps.len() == 1 {
            assert(text::join_with(ps, seq!['*']) == ps[0]);
            assert(false);
        }
    }
    let n: usize = parts.len();
    // The first piece anchors at the start.
    let first = to_chars(parts[0]);
    proof {
        assert(text::slices(parts@)[0] == first@);
    }
    if !stands_at(&seg, &first, 0) {
        proof {
            assert(!ps[0].is_prefix_of(segment@));
        }
        return false;
    }
    let mut pos: usize = first.len();
    let mut i: usize = 1;
    proof {
        assert(ps[0].is_prefix_of(segment@));
        let rest = segment@.skip(pos as int);
        assert(pieces_match(ps, segment@) == star_match(ps.skip(1), rest)) by {
            assert(rest.len() == segment@.len() - ps[0].len());
            if star_match(ps.skip(1), rest) {
                let k = choose|k: int| 0 <= k <= rest.len() && pieces_match(ps.skip(1), #[trigger] rest.skip(k));
                assert(pieces_match(ps.skip(1), segment@.skip(ps[0].len() as int).skip(k)));
            }
            if pieces_match(ps, segment@) {
                let k = choose|k: int|
                    0 <= k <= segment@.len() - ps[0].len() && pieces_match(
                        ps.skip(1),
                        #[trigger] segment@.skip(ps[0].len() as int).skip(k),
                    );
                assert(pieces_match(ps.skip(1), rest.skip(k)));
            }
        }
    }
    while i < n - 1
        invariant
            seg@ == segment@,
            ps == text::split_on(pattern@, '*'),
            text::slices(parts@) == ps,
            n == ps.len(),
            1 <= i <= n - 1,
            pos <= segment@.len() <= usize::MAX,
            glob(pattern@, segment@) == star_match(ps.skip(i as int), segment@.skip(pos as int)),
        decreases n - i,
    {
        let part = to_chars(parts[i]);
        let ghost tail = ps.skip(i as int);
        let ghost rest = segment@.skip(pos as int);
        proof {
            assert(text::slices(parts@)[i as int] == part@);
            assert(tail[0] == part@);
            assert(tail.skip(1) =~= ps.skip(i + 1));
            assert forall|j: int| 0 <= j implies text::occurs_at(rest, part@, j) == text::occurs_at(
                segment@,
                part@,
                pos + j,
            ) by {
                if j + part@.len() <= rest.len() {
                    assert(rest.subrange(j, j + part@.len()) =~= segment@.subrange(
                        pos + j,
                        pos + j + part@.len(),
                    ));
                }
            }
        }
        match find_from(&seg, &part, pos) {
            Some(at) => {
                proof {
                    let j = at - pos;
                    assert(text::occurs_at(rest, part@, j));
                    assert forall|k: int| 0 <= k < j implies !text::occurs_at(rest, part@, k) by {
                        assert(!text::occurs_at(segment@, part@, pos + k));
                    }
                    leftmost_is_enough(tail, rest, j);
                    assert(rest.skip(j + part@.len()) =~= segment@.skip(at + part@.len()));
                }
                pos = at + part.len();
            },
            None => {
                proof {
                    assert forall|k: int| 0 <= k implies !text::occurs_at(rest, tail[0], k) by {
                        assert(!text::occurs_at(segment@, part@, pos + k));
                    }
                    nowhere_is_no_match(tail, rest);
                }
                return false;
            },
        }
        i += 1;
    }
    // The last piece anchors at the end.
    let last = to_chars(parts[n - 1]);
    proof {
        assert(text::slices(parts@)[n - 1] == last@);
        assert(ps.skip(n - 1) =~= seq![last@]);
        last_piece(seq![last@], segment@.skip(pos as int));
    }
    if end - pos < last.len() {
        return false;
    }
    proof {
        let rest = segment@.skip(pos as int);
        assert(rest.subrange(rest.len() - last@.len(), rest.len() as int) =~= segment@.subrange(
            segment@.len() - last@.len(),
            segment@.len() as int,
        ));
    }
    stands_at(&seg, &last, end - last.len())
}

/// Match a mode `load` pattern against a skill-relative posix path. `*` matches within a single
/// path segment (`examples/email-*.md`); there is deliberately no `**`.
pub fn wildcard_matches(pattern: &str, path: &str) -> (r: bool)
    ensures
        r == wildcard(pattern@, path@),
{
    let psegs = split(pattern, '/');
    let fsegs = split(path, '/');
    let ghost ps = text::split_on(pattern@, '/');
    let ghost fs = text::split_on(path@, '/');
    if psegs.len() != fsegs.len() {
        return false;
    }
    let n: usize = psegs.len();
    let mut i: usize = 0;
    while i < n
        invariant
            text::slices(psegs@) == ps,
            text::slices(fsegs@) == fs,
            ps == text::split_on(pattern@, '/'),
            fs == text::split_on(path@, '/'),
            n == ps.len(),
            n == fs.len(),
            i <= n,
            forall|k: int| 0 <= k < i ==> glob(#[trigger] ps[k], fs[k]),
        decreases n - i,
    {
        proof {
            assert(text::slices(psegs@)[i as int] == psegs@[i as int]@);
            assert(text::slices(fsegs@)[i as int] == fsegs@[i as int]@);
        }
        if !segment_matches(psegs[i], fsegs[i]) {
            return false;
        }
        i += 1;
    }
    true
}

/// A pattern without a star matches exactly the path that it spells.
pub proof fn literal_pattern_matches_itself(p: Seq<char>, s: Seq<char>)
    requires
        !p.contains('*'),
    ensures
        wildcard(p, s) <==> p == s,
{
    let ps = text::split_on(p, '/');
    let fs = text::split_on(s, '/');
    text::split_join(p, '/');
    text::split_join(s, '/');
    assert forall|i: int| 0 <= i < ps.len() implies !(#[trigger] ps[i]).contains('*') by {
        piece_is_part(p, '/', i, '*');
    }
    if wildcard(p, s) {
        assert forall|i: int| 0 <= i < ps.len() implies ps[i] == fs[i] by {
            no_star_is_equality(ps[i], fs[i]);
        }
        assert(ps =~= fs);
    }
    if p == s {
        assert forall|i: int| 0 <= i < ps.len() implies glob(#[trigger] ps[i], fs[i]) by {
            no_star_is_equality(ps[i], fs[i]);
        }
    }
}

// A piece of a text holds no character that the text does not hold.
proof fn piece_is_part(s: Seq<char>, sep: char, i: int, c: char)
    requires
        0 <= i < text::split_on(s, sep).len(),
        !s.contains(c),
    ensures
        !text::split_on(s, sep)[i].contains(c),
    decreases s.len(),
{
    if s.len() > 0 {
        let t = s.drop_last();
        text::split_join(t, sep);
        assert(!t.contains(c)) by {
            if t.contains(c) {
                let k = choose|k: int| 0 <= k < t.len() && t[k] == c;
                assert(s[k] == c);
            }
        }
        let before = text::split_on(t, sep);
        if i < before.len() {
            piece_is_part(t, sep, i, c);
        }
        assert(s.contains(s.last()));
        let piece = text::split_on(s, sep)[i];
        if piece.contains(c) {
            let k = choose|k: int| 0 <= k < piece.len() && piece[k] == c;
            if i < before.len() && k < before[i].len() {
                assert(before[i].contains(c));
            }
        }
    }
}

/// A star never stands for a slash: whatever a pattern matches has as many slashes as the
/// pattern.
pub proof fn star_stays_in_its_segment(p: Seq<char>, s: Seq<char>)
    requires
        wildcard(p, s),
    ensures
        text::split_on(p, '/').len() == text::split_on(s, '/').len(),
{
}

proof fn literal_front(a: Seq<char>, p: Seq<char>, s: Seq<char>)
    requires
        !a.contains('*'),
    ensures
        glob(a + p, s) <==> a.is_prefix_of(s) && glob(p, s.skip(a.len() as int)),
    decreases a.len(),
{
    let q = a + p;
    if a.len() == 0 {
        assert(q =~= p);
        assert(s.skip(0) =~= s);
        assert(a =~= s.subrange(0, 0));
    } else {
        let t = a.skip(1);
        assert forall|i: int| 0 <= i < t.len() implies t[i] != '*' by {
            assert(t[i] == a[i + 1]);
        }
        assert(a[0] != '*');
        assert(q[0] == a[0]);
        assert(q.skip(1) =~= t + p);
        if s.len() > 0 {
            literal_front(t, p, s.skip(1));
            if a.len() <= s.len() {
                assert(s.skip(1).skip(t.len() as int) =~= s.skip(a.len() as int));
            }
            if a.is_prefix_of(s) {
                assert(a =~= s.subrange(0, a.len() as int));
                assert(t =~= s.skip(1).subrange(0, t.len() as int));
                assert(s[0] == a[0]);
            }
            if s[0] == a[0] && t.is_prefix_of(s.skip(1)) {
                let u = s.skip(1).subrange(0, t.len() as int);
                assert(t =~= u);
                assert forall|i: int| 0 <= i < a.len() implies a[i] == s[i] by {
                    if i > 0 {
                        assert(t[i - 1] == u[i - 1]);
                    }
                }
                assert(a =~= s.subrange(0, a.len() as int));
            }
        }
    }
}

proof fn star_then_literal(b: Seq<char>, s: Seq<char>)
    requires
        !b.contains('*'),
    ensures
        glob(seq!['*'] + b, s) <==> b.is_suffix_of(s),
{
    let p = seq!['*'] + b;
    assert(p[0] == '*');
    assert(p.skip(1) =~= b);
    if glob(p, s) {
        let k = choose|k: int| 0 <= k <= s.len() && glob(p.skip(1), #[trigger] s.skip(k));
        no_star_is_equality(b, s.skip(k));
        assert(b =~= s.subrange(s.len() - b.len(), s.len() as int));
    }
    if b.is_suffix_of(s) {
        let k = s.len() - b.len();
        assert(b =~= s.subrange(k, s.len() as int));
        assert(s.skip(k) =~= b);
        no_star_is_equality(b, s.skip(k));
        assert(glob(p.skip(1), s.skip(k)));
    }
}

/// A pattern with one star, in a path of one segment, matches exactly the names that start with what
/// stands before the star and, behind that, end with what stands behind it.
pub proof fn one_star_matches_what_lies_between(a: Seq<char>, b: Seq<char>, s: Seq<char>)
    requires
        !a.contains('*') && !a.contains('/'),
        !b.contains('*') && !b.contains('/'),
        !s.contains('/'),
    ensures
        wildcard(a + seq!['*'] + b, s) <==> s.len() >= a.len() + b.len() && a.is_prefix_of(s)
            && b.is_suffix_of(s),
{
    let p = a + seq!['*'] + b;
    assert(p =~= a + (seq!['*'] + b));
    assert forall|i: int| 0 <= i < p.len() implies p[i] != '/' by {
        if i < a.len() {
            assert(p[i] == a[i]);
        } else if i > a.len() {
            assert(p[i] == b[i - a.len() - 1]);
        }
    }
    text::split_at_a_separator(p, a, '/');
    text::split_at_a_separator(s, a, '/');
    assert(text::split_on(p, '/')[0] == p);
    assert(text::split_on(s, '/')[0] == s);
    assert(wildcard(p, s) <==> glob(p, s));
    literal_front(a, seq!['*'] + b, s);
    if a.is_prefix_of(s) {
        let rest = s.skip(a.len() as int);
        star_then_literal(b, rest);
        if b.is_suffix_of(rest) {
            assert(b =~= rest.subrange(rest.len() - b.len(), rest.len() as int));
            assert(b =~= s.subrange(s.len() - b.len(), s.len() as int));
        }
        if s.len() >= a.len() + b.len() && b.is_suffix_of(s) {
            assert(b =~= s.subrange(s.len() - b.len(), s.len() as int));
            assert(b =~= rest.subrange(rest.len() - b.len(), rest.len() as int));
        }
    }
}

/// A pattern is matched directory by directory: what stands before the last slash against what
/// stands before the last slash, and what stands behind it against what stands behind it.
pub proof fn pattern_is_matched_by_segment(
    p: Seq<char>,
    last: Seq<char>,
    s: Seq<char>,
    name: Seq<char>,
)
    requires
        !last.contains('/'),
        !name.contains('/'),
    ensures
        wildcard(p + seq!['/'] + last, s + seq!['/'] + name) <==> wildcard(p, s) && wildcard(
            last,
            name,
        ),
        !wildcard(last, s + seq!['/'] + name),
        !wildcard(p + seq!['/'] + last, name),
{
    let ps = text::split_on(p, '/');
    let fs = text::split_on(s, '/');
    text::split_at_a_separator(p, last, '/');
    text::split_at_a_separator(s, name, '/');
    text::split_at_a_separator(last, p, '/');
    text::split_at_a_separator(name, p, '/');
    text::split_join(p, '/');
    text::split_join(s, '/');
    let pl = text::split_on(p + seq!['/'] + last, '/');
    let fl = text::split_on(s + seq!['/'] + name, '/');
    assert(pl == ps + seq![last]);
    assert(fl == fs + seq![name]);
    if wildcard(p + seq!['/'] + last, s + seq!['/'] + name) {
        assert forall|i: int| 0 <= i < ps.len() implies glob(#[trigger] ps[i], fs[i]) by {
            assert(glob(pl[i], fl[i]));
        }
        assert(glob(pl[ps.len() as int], fl[ps.len() as int]));
    }
    if wildcard(p, s) && wildcard(last, name) {
        assert(glob(text::split_on(last, '/')[0], text::split_on(name, '/')[0]));
        assert forall|i: int| 0 <= i < pl.len() implies glob(#[trigger] pl[i], fl[i]) by {
            if i < ps.len() {
                assert(glob(ps[i], fs[i]));
            }
        }
    }
}

} // verus!
