//! The order of texts, and lists in that order.
use vstd::prelude::*;

use crate::text;
use crate::text::{same, to_chars};

verus! {

/// Whether `a` comes before `b`: by code points, from the left, a prefix first.
pub open spec fn text_lt(a: Seq<char>, b: Seq<char>) -> bool
    decreases a.len(),
{
    if b.len() == 0 {
        false
    } else if a.len() == 0 {
        true
    } else if a[0] != b[0] {
        a[0] < b[0]
    } else {
        text_lt(a.skip(1), b.skip(1))
    }
}

/// No text comes before itself.
pub proof fn text_lt_irreflexive(a: Seq<char>)
    ensures
        !text_lt(a, a),
    decreases a.len(),
{
    if a.len() > 0 {
        text_lt_irreflexive(a.skip(1));
    }
}

/// The order of texts is transitive.
pub proof fn text_lt_transitive(a: Seq<char>, b: Seq<char>, c: Seq<char>)
    requires
        text_lt(a, b),
        text_lt(b, c),
    ensures
        text_lt(a, c),
    decreases a.len(),
{
    if a.len() > 0 && b.len() > 0 && c.len() > 0 && a[0] == b[0] && b[0] == c[0] {
        text_lt_transitive(a.skip(1), b.skip(1), c.skip(1));
    }
}

/// Of two different texts one comes before the other.
pub proof fn text_lt_total(a: Seq<char>, b: Seq<char>)
    ensures
        a == b || text_lt(a, b) || text_lt(b, a),
    decreases a.len(),
{
    if a.len() > 0 && b.len() > 0 && a[0] == b[0] {
        text_lt_total(a.skip(1), b.skip(1));
        if a.skip(1) == b.skip(1) {
            assert(a =~= seq![a[0]] + a.skip(1));
            assert(b =~= seq![b[0]] + b.skip(1));
        }
    } else if a.len() == 0 && b.len() == 0 {
        assert(a =~= b);
    }
}

/// Whether `a` comes before `b`.
pub fn less(a: &str, b: &str) -> (r: bool)
    ensures
        r == text_lt(a@, b@),
{
    let x = to_chars(a);
    let y = to_chars(b);
    let n: usize = x.len();
    let m: usize = y.len();
    let mut i: usize = 0;
    proof {
        assert(a@.skip(0) =~= a@);
        assert(b@.skip(0) =~= b@);
    }
    while i < n && i < m
        invariant
            x@ == a@,
            y@ == b@,
            n == a@.len(),
            m == b@.len(),
            i <= n,
            i <= m,
            text_lt(a@, b@) == text_lt(a@.skip(i as int), b@.skip(i as int)),
        decreases n - i,
    {
        if x[i] != y[i] {
            return x[i] < y[i];
        }
        proof {
            assert(a@.skip(i as int).skip(1) =~= a@.skip(i + 1));
            assert(b@.skip(i as int).skip(1) =~= b@.skip(i + 1));
        }
        i += 1;
    }
    i < m
}

/// Whether each text comes before all that follow it.
pub open spec fn ascending(s: Seq<Seq<char>>) -> bool {
    forall|i: int, j: int| 0 <= i < j < s.len() ==> text_lt(#[trigger] s[i], #[trigger] s[j])
}

/// `x` put into the ascending list `s`, once.
pub open spec fn insert_in_order(s: Seq<Seq<char>>, x: Seq<char>) -> Seq<Seq<char>>
    decreases s.len(),
{
    if s.len() == 0 {
        seq![x]
    } else if s[0] == x {
        s
    } else if text_lt(x, s[0]) {
        seq![x] + s
    } else {
        seq![s[0]] + insert_in_order(s.skip(1), x)
    }
}

/// The different texts of `s`, in ascending order.
pub open spec fn sorted_unique(s: Seq<Seq<char>>) -> Seq<Seq<char>>
    decreases s.len(),
{
    if s.len() == 0 {
        Seq::empty()
    } else {
        insert_in_order(sorted_unique(s.drop_last()), s.last())
    }
}

proof fn insert_at(s: Seq<Seq<char>>, x: Seq<char>, i: int)
    requires
        ascending(s),
        0 <= i <= s.len(),
        forall|k: int| 0 <= k < i ==> text_lt(#[trigger] s[k], x),
        i < s.len() ==> !text_lt(s[i], x),
    ensures
        insert_in_order(s, x) == if i < s.len() && s[i] == x {
            s
        } else {
            s.insert(i, x)
        },
        ascending(insert_in_order(s, x)),
    decreases s.len(),
{
    if s.len() == 0 {
        assert(s.insert(0, x) =~= seq![x]);
    } else if i == 0 {
        text_lt_total(s[0], x);
        if s[0] != x {
            assert(s.insert(0, x) =~= seq![x] + s);
            let r = s.insert(0, x);
            assert forall|a: int, b: int| 0 <= a < b < r.len() implies text_lt(#[trigger] r[a], #[trigger] r[b]) by {
                if a == 0 && b > 1 {
                    text_lt_transitive(x, s[0], s[b - 1]);
                } else if a > 0 {
                    assert(text_lt(s[a - 1], s[b - 1]));
                }
            }
        }
    } else {
        let t = s.skip(1);
        assert(text_lt(s[0], x));
        text_lt_irreflexive(x);
        if text_lt(x, s[0]) {
            text_lt_transitive(x, s[0], x);
        }
        assert forall|a: int, b: int| 0 <= a < b < t.len() implies text_lt(#[trigger] t[a], #[trigger] t[b]) by {
            assert(text_lt(s[a + 1], s[b + 1]));
        }
        insert_at(t, x, i - 1);
        let r = insert_in_order(s, x);
        if i < s.len() && s[i] == x {
            assert(r =~= s);
        } else {
            assert(r =~= s.insert(i, x));
            assert forall|a: int, b: int| 0 <= a < b < r.len() implies text_lt(#[trigger] r[a], #[trigger] r[b]) by {
                if a > 0 {
                    assert(text_lt(t.insert(i - 1, x)[a - 1], t.insert(i - 1, x)[b - 1]));
                } else if b == i {
                } else if b < i {
                    assert(text_lt(s[0], s[b]));
                } else {
                    assert(text_lt(s[0], s[b - 1]));
                }
            }
        }
    }
}

proof fn insert_place(s: Seq<Seq<char>>, x: Seq<char>) -> (i: int)
    requires
        ascending(s),
    ensures
        0 <= i <= s.len(),
        forall|k: int| 0 <= k < i ==> text_lt(#[trigger] s[k], x),
        i < s.len() ==> !text_lt(s[i], x),
    decreases s.len(),
{
    if s.len() == 0 || !text_lt(s[0], x) {
        0
    } else {
        let t = s.skip(1);
        assert forall|a: int, b: int| 0 <= a < b < t.len() implies text_lt(#[trigger] t[a], #[trigger] t[b]) by {
            assert(text_lt(s[a + 1], s[b + 1]));
        }
        let j = insert_place(t, x);
        assert forall|k: int| 0 <= k < j + 1 implies text_lt(#[trigger] s[k], x) by {
            if k > 0 {
                assert(text_lt(t[k - 1], x));
            }
        }
        j + 1
    }
}

/// Sorting gives an ascending list, and it holds exactly the texts of the list that was sorted.
pub proof fn sorted_unique_is_sorted(s: Seq<Seq<char>>)
    ensures
        ascending(sorted_unique(s)),
        forall|x: Seq<char>| #[trigger] sorted_unique(s).contains(x) <==> s.contains(x),
    decreases s.len(),
{
    if s.len() > 0 {
        let t = s.drop_last();
        let x = s.last();
        sorted_unique_is_sorted(t);
        let before = sorted_unique(t);
        let i = insert_place(before, x);
        insert_at(before, x, i);
        let r = sorted_unique(s);
        assert forall|y: Seq<char>| #[trigger] r.contains(y) <==> s.contains(y) by {
            if s.contains(y) {
                let k = choose|k: int| 0 <= k < s.len() && s[k] == y;
                if k < t.len() {
                    assert(t[k] == y);
                    assert(before.contains(y));
                    let m = choose|m: int| 0 <= m < before.len() && before[m] == y;
                    if r != before {
                        assert(r[if m < i { m } else { m + 1 }] == y);
                    }
                } else {
                    assert(y == x);
                    assert(r[i] == x);
                }
            }
            if r.contains(y) {
                let m = choose|m: int| 0 <= m < r.len() && r[m] == y;
                if y != x {
                    if r != before {
                        assert(before[if m < i { m } else { m - 1 }] == y);
                    }
                    assert(before.contains(y));
                    assert(t.contains(y));
                    let k = choose|k: int| 0 <= k < t.len() && t[k] == y;
                    assert(s[k] == y);
                } else {
                    assert(s[s.len() - 1] == y);
                }
            }
        }
    }
}

/// Two ascending lists that hold the same texts are the same list.
pub proof fn ascending_is_unique(a: Seq<Seq<char>>, b: Seq<Seq<char>>)
    requires
        ascending(a),
        ascending(b),
        forall|x: Seq<char>| a.contains(x) <==> b.contains(x),
    ensures
        a == b,
    decreases a.len(),
{
    if a.len() == 0 {
        if b.len() > 0 {
            assert(b.contains(b[0]));
        }
        assert(a =~= b);
    } else {
        assert(a.contains(a[0]));
        assert(b.len() > 0);
        assert(b.contains(b[0]));
        if a[0] != b[0] {
            let i = choose|i: int| 0 <= i < b.len() && b[i] == a[0];
            let j = choose|j: int| 0 <= j < a.len() && a[j] == b[0];
            assert(text_lt(b[0], b[i]));
            assert(text_lt(a[0], a[j]));
            text_lt_transitive(a[0], b[0], a[0]);
            text_lt_irreflexive(a[0]);
        }
        let ta = a.skip(1);
        let tb = b.skip(1);
        assert forall|i: int, j: int| 0 <= i < j < ta.len() implies text_lt(#[trigger] ta[i], #[trigger] ta[j]) by {
            assert(text_lt(a[i + 1], a[j + 1]));
        }
        assert forall|i: int, j: int| 0 <= i < j < tb.len() implies text_lt(#[trigger] tb[i], #[trigger] tb[j]) by {
            assert(text_lt(b[i + 1], b[j + 1]));
        }
        assert forall|x: Seq<char>| ta.contains(x) <==> tb.contains(x) by {
            if ta.contains(x) {
                let i = choose|i: int| 0 <= i < ta.len() && ta[i] == x;
                assert(a[i + 1] == x);
                assert(text_lt(a[0], a[i + 1]));
                text_lt_irreflexive(x);
                assert(b.contains(x));
                let k = choose|k: int| 0 <= k < b.len() && b[k] == x;
                assert(tb[k - 1] == x);
            }
            if tb.contains(x) {
                let i = choose|i: int| 0 <= i < tb.len() && tb[i] == x;
                assert(b[i + 1] == x);
                assert(text_lt(b[0], b[i + 1]));
                text_lt_irreflexive(x);
                assert(a.contains(x));
                let k = choose|k: int| 0 <= k < a.len() && a[k] == x;
                assert(ta[k - 1] == x);
            }
        }
        ascending_is_unique(ta, tb);
        assert(a =~= seq![a[0]] + ta);
        assert(b =~= seq![b[0]] + tb);
    }
}

/// The different strings of `items`, in ascending order.
pub fn sort_unique(items: &Vec<String>) -> (r: Vec<String>)
    ensures
        text::texts(r@) == sorted_unique(text::texts(items@)),
{
    let n: usize = items.len();
    let mut out: Vec<String> = Vec::new();
    let mut k: usize = 0;
    let ghost all = text::texts(items@);
    proof {
        assert(text::texts(out@) =~= sorted_unique(all.take(0)));
    }
    while k < n
        invariant
            n == items@.len(),
            all == text::texts(items@),
            k <= n,
            text::texts(out@) == sorted_unique(all.take(k as int)),
        decreases n - k,
    {
        let ghost before = text::texts(out@);
        let x = items[k].as_str();
        proof {
            sorted_unique_is_sorted(all.take(k as int));
            assert(all.take(k + 1).drop_last() =~= all.take(k as int));
        }
        let m: usize = out.len();
        let mut i: usize = 0;
        while i < m && less(out[i].as_str(), x)
            invariant
                m == out@.len(),
                i <= m,
                before == text::texts(out@),
                forall|j: int| 0 <= j < i ==> text_lt(#[trigger] before[j], x@),
            decreases m - i,
        {
            i += 1;
        }
        proof {
            insert_at(before, x@, i as int);
        }
        if i < m && same(out[i].as_str(), x) {
        } else {
            let ghost old_out = out@;
            out.insert(i, x.to_owned());
            proof {
                assert(text::texts(out@) =~= before.insert(i as int, x@));
            }
        }
        k += 1;
    }
    proof {
        assert(all.take(n as int) =~= all);
    }
    out
}

/// The order of texts is told by the first character in which they differ; a text comes before all
/// that it starts.
pub proof fn first_difference_tells(p: Seq<char>, a: Seq<char>, b: Seq<char>)
    ensures
        a.len() > 0 && b.len() > 0 && a[0] != b[0] ==> (text_lt(p + a, p + b) <==> a[0] < b[0]),
        a.len() > 0 ==> text_lt(p, p + a) && !text_lt(p + a, p),
    decreases p.len(),
{
    if p.len() == 0 {
        assert(p + a =~= a);
        assert(p + b =~= b);
    } else {
        let t = p.skip(1);
        first_difference_tells(t, a, b);
        assert((p + a).skip(1) =~= t + a);
        assert((p + b).skip(1) =~= t + b);
        assert((p + a)[0] == p[0]);
        assert((p + b)[0] == p[0]);
    }
}

} // verus!
