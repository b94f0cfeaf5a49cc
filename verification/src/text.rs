//! Text as sequences of characters: comparing, searching, splitting and joining.
use vstd::prelude::*;

verus! {

/// The texts of a list of strings.
pub open spec fn texts(v: Seq<String>) -> Seq<Seq<char>> {
    v.map_values(|s: String| s@)
}

/// The texts of a list of string slices.
pub open spec fn slices(v: Seq<&str>) -> Seq<Seq<char>> {
    v.map_values(|s: &str| s@)
}

/// The text of an optional string.
pub open spec fn opt_text(o: Option<String>) -> Option<Seq<char>> {
    match o {
        Some(s) => Some(s@),
        None => None,
    }
}

/// The text of an optional string slice.
pub open spec fn opt_slice(o: Option<&str>) -> Option<Seq<char>> {
    match o {
        Some(s) => Some(s@),
        None => None,
    }
}

/// The characters of `s`.
pub fn to_chars(s: &str) -> (r: Vec<char>)
    ensures
        r@ == s@,
{
    let mut out: Vec<char> = Vec::new();
    for c in it: s.chars()
        invariant
            it.seq() == s@,
            out@ == s@.take(it.index() as int),
    {
        proof {
            assert(s@.take(it.index() as int).push(c) =~= s@.take(it.index() + 1));
        }
        out.push(c);
    }
    proof {
        assert(s@.take(s@.len() as int) =~= s@);
    }
    out
}

/// Whether two texts are the same.
pub fn same(a: &str, b: &str) -> (r: bool)
    ensures
        r == (a@ == b@),
{
    let x = to_chars(a);
    let y = to_chars(b);
    if x.len() != y.len() {
        return false;
    }
    let n: usize = x.len();
    let mut i: usize = 0;
    while i < n
        invariant
            n == x@.len(),
            x@ == a@,
            y@ == b@,
            x@.len() == y@.len(),
            i <= n,
            forall|k: int| 0 <= k < i ==> x@[k] == y@[k],
        decreases n - i,
    {
        if x[i] != y[i] {
            return false;
        }
        i += 1;
    }
    proof {
        assert(x@ =~= y@);
    }
    true
}

/// Whether `needle` stands in `hay` at position `i`.
pub open spec fn occurs_at(hay: Seq<char>, needle: Seq<char>, i: int) -> bool {
    &&& 0 <= i
    &&& i + needle.len() <= hay.len()
    &&& hay.subrange(i, i + needle.len()) == needle
}

/// Whether `needle` stands anywhere in `hay`.
pub open spec fn occurs_in(hay: Seq<char>, needle: Seq<char>) -> bool {
    exists|i: int| occurs_at(hay, needle, i)
}

/// Whether `needle` stands in `hay` at position `i`.
pub fn stands_at(hay: &Vec<char>, needle: &Vec<char>, i: usize) -> (r: bool)
    ensures
        r == occurs_at(hay@, needle@, i as int),
{
    let n: usize = needle.len();
    let m: usize = hay.len();
    if i > m || m - i < n {
        return false;
    }
    let mut k: usize = 0;
    while k < n
        invariant
            n == needle@.len(),
            i + n <= hay@.len() <= usize::MAX,
            k <= n,
            forall|j: int| 0 <= j < k ==> hay@[i + j] == needle@[j],
        decreases n - k,
    {
        if hay[i + k] != needle[k] {
            proof {
                assert(hay@.subrange(i as int, i + n)[k as int] != needle@[k as int]);
            }
            return false;
        }
        k += 1;
    }
    proof {
        assert(hay@.subrange(i as int, i + n) =~= needle@);
    }
    true
}

/// The first position of `needle` in `hay` that is at or behind `from`.
pub fn find_from(hay: &Vec<char>, needle: &Vec<char>, from: usize) -> (r: Option<usize>)
    requires
        from <= hay@.len(),
    ensures
        match r {
            Some(i) => from <= i && occurs_at(hay@, needle@, i as int) && (forall|j: int|
                from <= j < i ==> !occurs_at(hay@, needle@, j)),
            None => forall|j: int| from <= j ==> !occurs_at(hay@, needle@, j),
        },
{
    let n: usize = hay.len();
    let mut i: usize = from;
    loop
        invariant
            n == hay@.len(),
            from <= i <= n,
            forall|j: int| from <= j < i ==> !occurs_at(hay@, needle@, j),
        decreases n - i,
    {
        if stands_at(hay, needle, i) {
            return Some(i);
        }
        if i == n {
            return None;
        }
        i += 1;
    }
}

/// Whether `s` starts with `prefix`.
pub fn starts_with(s: &str, prefix: &str) -> (r: bool)
    ensures
        r == prefix@.is_prefix_of(s@),
{
    let hay = to_chars(s);
    let needle = to_chars(prefix);
    stands_at(&hay, &needle, 0)
}

/// Whether `s` ends with `suffix`.
pub fn ends_with(s: &str, suffix: &str) -> (r: bool)
    ensures
        r == suffix@.is_suffix_of(s@),
{
    let hay = to_chars(s);
    let needle = to_chars(suffix);
    if needle.len() > hay.len() {
        return false;
    }
    stands_at(&hay, &needle, hay.len() - needle.len())
}

/// Whether `needle` stands anywhere in `s`.
pub fn contains(s: &str, needle: &str) -> (r: bool)
    ensures
        r == occurs_in(s@, needle@),
{
    let hay = to_chars(s);
    let n = to_chars(needle);
    match find_from(&hay, &n, 0) {
        Some(i) => {
            proof {
                assert(occurs_at(s@, needle@, i as int));
            }
            true
        },
        None => false,
    }
}

/// What is left of `s` behind `prefix`.
pub fn strip_prefix<'a>(s: &'a str, prefix: &str) -> (r: Option<&'a str>)
    ensures
        r is Some <==> prefix@.is_prefix_of(s@),
        r matches Some(rest) ==> rest@ == s@.skip(prefix@.len() as int),
{
    let hay = to_chars(s);
    let needle = to_chars(prefix);
    if stands_at(&hay, &needle, 0) {
        Some(s.substring_char(needle.len(), hay.len()))
    } else {
        None
    }
}

/// The pieces of `s` between the occurrences of `sep`: one more than there are occurrences.
pub open spec fn split_on(s: Seq<char>, sep: char) -> Seq<Seq<char>>
    decreases s.len(),
{
    if s.len() == 0 {
        seq![Seq::empty()]
    } else {
        let before = split_on(s.drop_last(), sep);
        if s.last() == sep {
            before.push(Seq::empty())
        } else {
            before.drop_last().push(before.last().push(s.last()))
        }
    }
}

/// The pieces joined again, with `sep` between them.
pub open spec fn join_with(pieces: Seq<Seq<char>>, sep: Seq<char>) -> Seq<char>
    decreases pieces.len(),
{
    if pieces.len() == 0 {
        Seq::empty()
    } else if pieces.len() == 1 {
        pieces[0]
    } else {
        join_with(pieces.drop_last(), sep) + sep + pieces.last()
    }
}

/// Splitting always gives at least one piece, no piece holds the separator, and joining the
/// pieces with the separator gives the text back.
pub proof fn split_join(s: Seq<char>, sep: char)
    ensures
        split_on(s, sep).len() >= 1,
        forall|i: int| 0 <= i < split_on(s, sep).len() ==> !(#[trigger] split_on(s, sep)[i]).contains(sep),
        join_with(split_on(s, sep), seq![sep]) == s,
    decreases s.len(),
{
    if s.len() > 0 {
        let t = s.drop_last();
        let before = split_on(t, sep);
        split_join(t, sep);
        let all = split_on(s, sep);
        if s.last() == sep {
            assert(all.drop_last() =~= before);
            assert(all.len() >= 2);
            assert(join_with(all, seq![sep]) =~= t + seq![sep] + Seq::<char>::empty());
            assert(s =~= t + seq![sep]);
        } else {
            let last = before.last().push(s.last());
            assert(all.last() == last);
            assert(!last.contains(sep)) by {
                assert forall|k: int| 0 <= k < last.len() implies last[k] != sep by {
                    if k < before.last().len() {
                        assert(before[before.len() - 1].contains(before.last()[k]));
                    }
                }
            }
            assert(all.drop_last() =~= before.drop_last());
            assert forall|i: int| 0 <= i < all.len() implies !(#[trigger] all[i]).contains(sep) by {
                if i < all.len() - 1 {
                    assert(all[i] == before[i]);
                }
            }
            if before.len() == 1 {
                assert(all.len() == 1);
                assert(join_with(all, seq![sep]) == last);
                assert(s =~= t.push(s.last()));
            } else {
                assert(join_with(all, seq![sep]) =~= join_with(before, seq![sep]).push(s.last()));
                assert(s =~= t.push(s.last()));
            }
        }
    } else {
        assert(split_on(s, sep) =~= seq![Seq::<char>::empty()]);
        assert(s =~= Seq::empty());
    }
}

/// The pieces of `s` between the occurrences of `sep`.
pub fn split<'a>(s: &'a str, sep: char) -> (r: Vec<&'a str>)
    ensures
        slices(r@) == split_on(s@, sep),
{
    let chars = to_chars(s);
    let n: usize = chars.len();
    let mut out: Vec<&'a str> = Vec::new();
    let mut start: usize = 0;
    let mut i: usize = 0;
    proof {
        assert(s@.subrange(0, 0) =~= Seq::<char>::empty());
        assert(split_on(s@.take(0), sep) =~= seq![Seq::<char>::empty()]);
    }
    while i < n
        invariant
            chars@ == s@,
            n == s@.len(),
            start <= i <= n,
            split_on(s@.take(i as int), sep) =~= slices(out@).push(s@.subrange(start as int, i as int)),
        decreases n - i,
    {
        proof {
            assert(s@.take(i + 1).drop_last() =~= s@.take(i as int));
        }
        let ghost before = out@;
        let ghost from = start as int;
        if chars[i] == sep {
            out.push(s.substring_char(start, i));
            start = i + 1;
            proof {
                assert(slices(out@) =~= slices(before).push(s@.subrange(from, i as int)));
                assert(s@.subrange(start as int, i + 1) =~= Seq::<char>::empty());
            }
        } else {
            proof {
                assert(s@.subrange(start as int, i + 1) =~= s@.subrange(start as int, i as int).push(s@[i as int]));
                let whole = split_on(s@.take(i as int), sep);
                assert(whole.drop_last() =~= slices(out@));
            }
        }
        i += 1;
    }
    out.push(s.substring_char(start, n));
    proof {
        assert(s@.take(n as int) =~= s@);
        assert(slices(out@) =~= slices(out@.drop_last()).push(s@.subrange(start as int, n as int)));
    }
    out
}

/// The text before and the text behind the first `sep`.
pub open spec fn cut_at_first(s: Seq<char>, sep: char) -> Option<(Seq<char>, Seq<char>)>
    decreases s.len(),
{
    if s.len() == 0 {
        None
    } else if s[0] == sep {
        Some((Seq::empty(), s.skip(1)))
    } else {
        match cut_at_first(s.skip(1), sep) {
            Some(p) => Some((seq![s[0]] + p.0, p.1)),
            None => None,
        }
    }
}

/// What the first cut is, told by position: `s` is the first half, the separator, the second
/// half, and the first half does not hold the separator.
pub proof fn cut_at_first_position(s: Seq<char>, sep: char, i: int)
    requires
        0 <= i <= s.len(),
        forall|k: int| 0 <= k < i ==> s[k] != sep,
        i < s.len() ==> s[i] == sep,
    ensures
        i < s.len() ==> cut_at_first(s, sep) == Some((s.take(i), s.skip(i + 1))),
        i == s.len() ==> cut_at_first(s, sep) is None,
    decreases s.len(),
{
    if s.len() > 0 {
        if i == 0 {
            assert(s.take(0) =~= Seq::empty());
        } else {
            cut_at_first_position(s.skip(1), sep, i - 1);
            if i < s.len() {
                assert(seq![s[0]] + s.skip(1).take(i - 1) =~= s.take(i));
                assert(s.skip(1).skip(i) =~= s.skip(i + 1));
            }
        }
    }
}

/// Cuts `s` at the first `sep`.
pub fn split_once<'a>(s: &'a str, sep: char) -> (r: Option<(&'a str, &'a str)>)
    ensures
        r is Some <==> cut_at_first(s@, sep) is Some,
        r matches Some(p) ==> cut_at_first(s@, sep) == Some((p.0@, p.1@)),
{
    let chars = to_chars(s);
    let n: usize = chars.len();
    let mut i: usize = 0;
    while i < n
        invariant
            chars@ == s@,
            n == s@.len(),
            i <= n,
            forall|k: int| 0 <= k < i ==> s@[k] != sep,
        decreases n - i,
    {
        if chars[i] == sep {
            proof {
                cut_at_first_position(s@, sep, i as int);
                assert(s@.subrange(0, i as int) =~= s@.take(i as int));
                assert(s@.subrange(i + 1, n as int) =~= s@.skip(i + 1));
            }
            return Some((s.substring_char(0, i), s.substring_char(i + 1, n)));
        }
        i += 1;
    }
    proof {
        cut_at_first_position(s@, sep, n as int);
    }
    None
}

/// The characters that have the Unicode property White_Space.
pub open spec fn is_white(c: char) -> bool {
    ||| '\u{9}' <= c <= '\u{d}'
    ||| c == ' '
    ||| c == '\u{85}'
    ||| c == '\u{a0}'
    ||| c == '\u{1680}'
    ||| '\u{2000}' <= c <= '\u{200a}'
    ||| c == '\u{2028}'
    ||| c == '\u{2029}'
    ||| c == '\u{202f}'
    ||| c == '\u{205f}'
    ||| c == '\u{3000}'
}

fn white(c: char) -> (r: bool)
    ensures
        r == is_white(c),
{
    ('\u{9}' <= c && c <= '\u{d}') || c == ' ' || c == '\u{85}' || c == '\u{a0}' || c == '\u{1680}'
        || ('\u{2000}' <= c && c <= '\u{200a}') || c == '\u{2028}' || c == '\u{2029}' || c
        == '\u{202f}' || c == '\u{205f}' || c == '\u{3000}'
}

/// `s` without the white space at its start.
pub open spec fn trim_start_of(s: Seq<char>) -> Seq<char>
    decreases s.len(),
{
    if s.len() > 0 && is_white(s[0]) {
        trim_start_of(s.skip(1))
    } else {
        s
    }
}

/// `s` without the white space at its end.
pub open spec fn trim_end_of(s: Seq<char>) -> Seq<char>
    decreases s.len(),
{
    if s.len() > 0 && is_white(s.last()) {
        trim_end_of(s.drop_last())
    } else {
        s
    }
}

/// `s` without the white space at its two ends.
pub open spec fn trimmed(s: Seq<char>) -> Seq<char> {
    trim_end_of(trim_start_of(s))
}

/// `s` without the white space at its two ends.
pub fn trim<'a>(s: &'a str) -> (r: &'a str)
    ensures
        r@ == trimmed(s@),
{
    let chars = to_chars(s);
    let n: usize = chars.len();
    let mut i: usize = 0;
    proof {
        assert(s@.skip(0) =~= s@);
    }
    while i < n && white(chars[i])
        invariant
            chars@ == s@,
            n == s@.len(),
            i <= n,
            trim_start_of(s@) == trim_start_of(s@.skip(i as int)),
        decreases n - i,
    {
        proof {
            assert(s@.skip(i as int).skip(1) =~= s@.skip(i + 1));
        }
        i += 1;
    }
    let ghost body = s@.skip(i as int);
    let mut j: usize = n;
    proof {
        assert(trim_start_of(s@) == body);
        assert(s@.subrange(i as int, n as int) =~= body);
    }
    while j > i && white(chars[j - 1])
        invariant
            chars@ == s@,
            n == s@.len(),
            i <= j <= n,
            trimmed(s@) == trim_end_of(s@.subrange(i as int, j as int)),
        decreases j,
    {
        proof {
            assert(s@.subrange(i as int, j as int).drop_last() =~= s@.subrange(i as int, j - 1));
        }
        j -= 1;
    }
    s.substring_char(i, j)
}

/// `s` without the characters `c` that it starts with.
pub open spec fn without_leading(s: Seq<char>, c: char) -> Seq<char>
    decreases s.len(),
{
    if s.len() > 0 && s[0] == c {
        without_leading(s.skip(1), c)
    } else {
        s
    }
}

/// `s` without the characters `c` that it starts with.
pub fn trim_leading<'a>(s: &'a str, c: char) -> (r: &'a str)
    ensures
        r@ == without_leading(s@, c),
{
    let chars = to_chars(s);
    let n: usize = chars.len();
    let mut i: usize = 0;
    proof {
        assert(s@.skip(0) =~= s@);
    }
    while i < n && chars[i] == c
        invariant
            chars@ == s@,
            n == s@.len(),
            i <= n,
            without_leading(s@, c) == without_leading(s@.skip(i as int), c),
        decreases n - i,
    {
        proof {
            assert(s@.skip(i as int).skip(1) =~= s@.skip(i + 1));
        }
        i += 1;
    }
    proof {
        assert(s@.subrange(i as int, n as int) =~= s@.skip(i as int));
    }
    s.substring_char(i, n)
}

/// The strings of `items` with `sep` between them.
pub fn join(items: &Vec<String>, sep: &str) -> (r: String)
    ensures
        r@ == join_with(texts(items@), sep@),
{
    let n: usize = items.len();
    let mut out = String::new();
    let mut i: usize = 0;
    let ghost all = texts(items@);
    proof {
        assert(all.take(0).len() == 0);
    }
    while i < n
        invariant
            n == items@.len(),
            all == texts(items@),
            i <= n,
            out@ == join_with(all.take(i as int), sep@),
        decreases n - i,
    {
        proof {
            assert(all.take(i + 1).drop_last() =~= all.take(i as int));
        }
        if i > 0 {
            out.append(sep);
        }
        out.append(items[i].as_str());
        i += 1;
        proof {
            assert(out@ =~= join_with(all.take(i as int), sep@));
        }
    }
    proof {
        assert(all.take(n as int) =~= all);
    }
    out
}

/// `s` with `to` in place of each `from`.
pub open spec fn replaced(s: Seq<char>, from: char, to: char) -> Seq<char> {
    s.map_values(
        |c: char|
            if c == from {
                to
            } else {
                c
            },
    )
}

proof fn replaced_by_joining(s: Seq<char>, from: char, to: char)
    ensures
        join_with(split_on(s, from), seq![to]) == replaced(s, from, to),
    decreases s.len(),
{
    split_join(s, from);
    if s.len() > 0 {
        let t = s.drop_last();
        let before = split_on(t, from);
        replaced_by_joining(t, from, to);
        split_join(t, from);
        let all = split_on(s, from);
        if s.last() == from {
            assert(all.drop_last() =~= before);
            assert(replaced(s, from, to) =~= replaced(t, from, to).push(to));
            assert(join_with(all, seq![to]) =~= replaced(t, from, to) + seq![to] + Seq::<char>::empty());
        } else {
            assert(all.drop_last() =~= before.drop_last());
            assert(replaced(s, from, to) =~= replaced(t, from, to).push(s.last()));
            if before.len() == 1 {
                assert(join_with(all, seq![to]) == before.last().push(s.last()));
            } else {
                assert(join_with(all, seq![to]) =~= join_with(before, seq![to]).push(s.last()));
            }
        }
    } else {
        assert(split_on(s, from) =~= seq![Seq::<char>::empty()]);
        assert(replaced(s, from, to) =~= Seq::<char>::empty());
    }
}

/// `s` with a slash in place of each backslash.
pub fn with_slashes(s: &str) -> (r: String)
    ensures
        r@ == replaced(s@, '\\', '/'),
{
    let parts = split(s, '\\');
    let mut owned: Vec<String> = Vec::new();
    let n: usize = parts.len();
    let mut i: usize = 0;
    while i < n
        invariant
            n == parts@.len(),
            i <= n,
            texts(owned@) == slices(parts@).take(i as int),
        decreases n - i,
    {
        let ghost before = owned@;
        owned.push(parts[i].to_owned());
        proof {
            assert(texts(owned@) =~= texts(before).push(parts@[i as int]@));
            assert(slices(parts@).take(i + 1) =~= slices(parts@).take(i as int).push(parts@[i as int]@));
        }
        i += 1;
    }
    proof {
        assert(slices(parts@).take(n as int) =~= slices(parts@));
        reveal_strlit("/");
        assert("/"@ =~= seq!['/']);
        replaced_by_joining(s@, '\\', '/');
    }
    join(&owned, "/")
}

/// The text, filled with blanks behind it up to the given number of characters.
pub open spec fn padded_right(s: Seq<char>, width: nat) -> Seq<char>
    decreases width - s.len(),
{
    if s.len() >= width {
        s
    } else {
        padded_right(s.push(' '), width)
    }
}

/// The text, filled with blanks behind it up to the given number of characters.
pub fn pad_right(s: &str, width: usize) -> (r: String)
    ensures
        r@ == padded_right(s@, width as nat),
{
    let mut out = s.to_owned();
    let mut n: usize = s.unicode_len();
    proof {
        reveal_strlit(" ");
    }
    while n < width
        invariant
            n == out@.len(),
            " "@ == seq![' '],
            padded_right(out@, width as nat) == padded_right(s@, width as nat),
        decreases width - n,
    {
        let ghost before = out@;
        out.append(" ");
        proof {
            assert(out@ =~= before.push(' '));
        }
        n += 1;
    }
    out
}

/// The pieces of two texts with the separator between them are the pieces of the one and then those
/// of the other; a text without the separator is one piece.
pub proof fn split_at_a_separator(a: Seq<char>, b: Seq<char>, sep: char)
    ensures
        split_on(a + seq![sep] + b, sep) == split_on(a, sep) + split_on(b, sep),
        !a.contains(sep) ==> split_on(a, sep) == seq![a],
    decreases a.len() + b.len(),
{
    let s = a + seq![sep] + b;
    split_join(a, sep);
    split_join(b, sep);
    if b.len() == 0 {
        assert(s.drop_last() =~= a);
        assert(split_on(s, sep) =~= split_on(a, sep) + split_on(b, sep));
    } else {
        let t = b.drop_last();
        split_at_a_separator(a, t, sep);
        split_join(t, sep);
        assert(s.drop_last() =~= a + seq![sep] + t);
        assert(s.last() == b.last());
        let x = split_on(a, sep);
        let y = split_on(t, sep);
        assert((x + y).last() == y.last());
        assert((x + y).drop_last() =~= x + y.drop_last());
        assert(split_on(s, sep) =~= split_on(a, sep) + split_on(b, sep));
    }
    if !a.contains(sep) {
        if a.len() > 0 {
            let t = a.drop_last();
            assert forall|i: int| 0 <= i < t.len() implies t[i] != sep by {
                assert(a[i] == t[i]);
            }
            split_at_a_separator(t, Seq::empty(), sep);
            assert(a[a.len() - 1] != sep);
            assert(t.push(a.last()) =~= a);
            assert(split_on(a, sep) =~= seq![a]);
        } else {
            assert(split_on(a, sep) =~= seq![a]);
        }
    }
}

/// Joining two lists together puts the separator between what each of them joins to; one text joins
/// to itself.
pub proof fn join_of_two_lists(x: Seq<Seq<char>>, y: Seq<Seq<char>>, sep: Seq<char>)
    requires
        x.len() > 0,
        y.len() > 0,
    ensures
        join_with(x + y, sep) == join_with(x, sep) + sep + join_with(y, sep),
        x.len() == 1 ==> join_with(x, sep) == x[0],
    decreases y.len(),
{
    let z = x + y;
    assert(z.last() == y.last());
    if y.len() == 1 {
        assert(z.drop_last() =~= x);
    } else {
        let t = y.drop_last();
        join_of_two_lists(x, t, sep);
        assert(z.drop_last() =~= x + t);
        assert(join_with(z, sep) =~= join_with(x, sep) + sep + join_with(y, sep));
    }
}

/// Whether a text is nothing but blanks, tabs and line ends.
pub open spec fn only_blanks(s: Seq<char>) -> bool {
    forall|i: int|
        0 <= i < s.len() ==> (#[trigger] s[i] == ' ' || s[i] == '\t' || s[i] == '\n' || s[i] == '\r')
}

proof fn no_blank_start(w: Seq<char>, s: Seq<char>)
    requires
        only_blanks(w),
        s.len() > 0 ==> '!' <= s[0] <= '~',
    ensures
        trim_start_of(w + s) == s,
    decreases w.len(),
{
    let all = w + s;
    if w.len() > 0 {
        assert(all[0] == w[0]);
        let t = w.skip(1);
        assert forall|i: int| 0 <= i < t.len() implies (#[trigger] t[i] == ' ' || t[i] == '\t' || t[i]
            == '\n' || t[i] == '\r') by {
            assert(t[i] == w[i + 1]);
        }
        assert(all.skip(1) =~= t + s);
        no_blank_start(t, s);
    } else {
        assert(all =~= s);
    }
}

proof fn no_blank_end(s: Seq<char>, w: Seq<char>)
    requires
        only_blanks(w),
        s.len() > 0 ==> '!' <= s.last() <= '~',
    ensures
        trim_end_of(s + w) == s,
    decreases w.len(),
{
    let all = s + w;
    if w.len() > 0 {
        assert(all.last() == w[w.len() - 1]);
        let t = w.drop_last();
        assert forall|i: int| 0 <= i < t.len() implies (#[trigger] t[i] == ' ' || t[i] == '\t' || t[i]
            == '\n' || t[i] == '\r') by {
            assert(t[i] == w[i]);
        }
        assert(all.drop_last() =~= s + t);
        no_blank_end(s, t);
    } else {
        assert(all =~= s);
    }
}

/// Trimming takes the blanks, tabs and line ends around a text away, and nothing of the text
/// between its first and its last visible character; of nothing but blanks nothing is left.
pub proof fn trim_takes_the_blanks_only(before: Seq<char>, s: Seq<char>, behind: Seq<char>)
    requires
        only_blanks(before),
        only_blanks(behind),
        s.len() > 0 ==> '!' <= s[0] <= '~' && '!' <= s.last() <= '~',
    ensures
        trimmed(before + s + behind) == s,
{
    if s.len() > 0 {
        assert(before + s + behind =~= before + (s + behind));
        assert((s + behind)[0] == s[0]);
        no_blank_start(before, s + behind);
        no_blank_end(s, behind);
    } else {
        let w = before + behind;
        assert(before + s + behind =~= w + Seq::<char>::empty());
        assert forall|i: int| 0 <= i < w.len() implies (#[trigger] w[i] == ' ' || w[i] == '\t' || w[i]
            == '\n' || w[i] == '\r') by {
            if i < before.len() {
                assert(w[i] == before[i]);
            } else {
                assert(w[i] == behind[i - before.len()]);
            }
        }
        no_blank_start(w, Seq::empty());
        assert(s =~= Seq::empty());
    }
}

/// What is left of a text without the characters that it starts with does not start with that
/// character, and only that character was taken away.
pub proof fn leading_characters_are_taken(s: Seq<char>, c: char)
    ensures
        without_leading(s, c).len() > 0 ==> without_leading(s, c)[0] != c,
        without_leading(s, c).len() <= s.len(),
        without_leading(s, c) == s.skip(s.len() - without_leading(s, c).len()),
        forall|i: int| 0 <= i < s.len() - without_leading(s, c).len() ==> #[trigger] s[i] == c,
    decreases s.len(),
{
    if s.len() > 0 && s[0] == c {
        let t = s.skip(1);
        leading_characters_are_taken(t, c);
        let left = without_leading(t, c);
        assert(t.skip(t.len() - left.len()) =~= s.skip(s.len() - left.len()));
        assert forall|i: int| 0 <= i < s.len() - left.len() implies #[trigger] s[i] == c by {
            if i > 0 {
                assert(t[i - 1] == s[i]);
            }
        }
    } else {
        assert(s.skip(0) =~= s);
    }
}

/// A text stands in another exactly when the other is made of something, the text, and something.
pub proof fn occurs_between(hay: Seq<char>, needle: Seq<char>)
    ensures
        occurs_in(hay, needle) <==> exists|before: Seq<char>, behind: Seq<char>|
            hay == #[trigger] (before + needle + behind),
{
    if occurs_in(hay, needle) {
        let i = choose|i: int| occurs_at(hay, needle, i);
        let before = hay.take(i);
        let behind = hay.skip(i + needle.len());
        assert(hay =~= before + hay.subrange(i, i + needle.len()) + behind);
        assert(hay == before + needle + behind);
    }
    if exists|before: Seq<char>, behind: Seq<char>| hay == #[trigger] (before + needle + behind) {
        let (before, behind) = choose|before: Seq<char>, behind: Seq<char>|
            hay == #[trigger] (before + needle + behind);
        assert(hay.subrange(before.len() as int, (before.len() + needle.len()) as int) =~= needle);
        assert(occurs_at(hay, needle, before.len() as int));
    }
}

/// The first cut of a text is at its first separator: the half before it holds none.
pub proof fn cut_is_at_the_first(a: Seq<char>, b: Seq<char>, sep: char)
    requires
        !a.contains(sep),
    ensures
        cut_at_first(a + seq![sep] + b, sep) == Some((a, b)),
        cut_at_first(a, sep) is None,
{
    let s = a + seq![sep] + b;
    assert forall|k: int| 0 <= k < a.len() implies s[k] != sep by {
        assert(a[k] == s[k]);
    }
    cut_at_first_position(s, sep, a.len() as int);
    assert(s.take(a.len() as int) =~= a);
    assert(s.skip((a.len() + 1) as int) =~= b);
    assert forall|k: int| 0 <= k < a.len() implies a[k] != sep by {}
    cut_at_first_position(a, sep, a.len() as int);
}

/// A text is filled up to the width with blanks behind it, and one that is as wide stays as it is.
pub proof fn padding_is_blank(s: Seq<char>, width: nat)
    ensures
        padded_right(s, width).len() == if s.len() >= width {
            s.len()
        } else {
            width
        },
        s.is_prefix_of(padded_right(s, width)),
        forall|i: int|
            s.len() <= i < padded_right(s, width).len() ==> #[trigger] padded_right(s, width)[i] == ' ',
    decreases width - s.len(),
{
    if s.len() < width {
        let t = s.push(' ');
        padding_is_blank(t, width);
        let p = padded_right(t, width);
        assert(t =~= p.subrange(0, t.len() as int));
        assert forall|i: int| 0 <= i < s.len() implies s[i] == p[i] by {
            assert(t[i] == p.subrange(0, t.len() as int)[i]);
        }
        assert(s =~= p.subrange(0, s.len() as int));
        assert(p[s.len() as int] == p.subrange(0, t.len() as int)[s.len() as int]);
    } else {
        assert(s =~= s.subrange(0, s.len() as int));
    }
}

/// Replacing a character keeps every other one in its place.
pub proof fn replacing_keeps_the_others(s: Seq<char>, from: char, to: char, i: int)
    requires
        0 <= i < s.len(),
    ensures
        replaced(s, from, to).len() == s.len(),
        s[i] == from ==> replaced(s, from, to)[i] == to,
        s[i] != from ==> replaced(s, from, to)[i] == s[i],
{
}

/// Each of the joined texts stands in what they join to.
pub proof fn join_names_each(pieces: Seq<Seq<char>>, sep: Seq<char>, i: int)
    requires
        0 <= i < pieces.len(),
    ensures
        occurs_in(join_with(pieces, sep), pieces[i]),
    decreases pieces.len(),
{
    let all = join_with(pieces, sep);
    if pieces.len() == 1 {
        occurs_in_what_is_made_with_it(all, sep, pieces[i]);
    } else {
        let t = pieces.drop_last();
        let head = join_with(t, sep);
        let last = pieces.last();
        if i < t.len() {
            join_names_each(t, sep, i);
            assert(t[i] == pieces[i]);
            occurs_in_what_is_made_with_it(head, sep, pieces[i]);
            occurs_in_what_is_made_with_it(head + sep, last, pieces[i]);
        } else {
            occurs_in_what_is_made_with_it(last, head + sep, last);
        }
    }
}

/// What stands in a text stands in every text that is made with it, and a text stands in itself.
pub proof fn occurs_in_what_is_made_with_it(a: Seq<char>, b: Seq<char>, x: Seq<char>)
    ensures
        occurs_in(a, x) ==> occurs_in(a + b, x) && occurs_in(b + a, x),
        occurs_in(a, a),
{
    assert(a.subrange(0, a.len() as int) =~= a);
    assert(occurs_at(a, a, 0));
    if occurs_in(a, x) {
        let i = choose|i: int| occurs_at(a, x, i);
        let n = b.len() as int;
        assert((a + b).subrange(i, i + x.len()) =~= a.subrange(i, i + x.len()));
        assert((b + a).subrange(n + i, n + i + x.len()) =~= a.subrange(i, i + x.len()));
        assert(occurs_at(a + b, x, i));
        assert(occurs_at(b + a, x, n + i));
    }
}

/// Of the ASCII characters the blank and those from the tab to the carriage return are white space,
/// and no other.
pub proof fn ascii_white_space(c: char)
    requires
        (c as u32) < 128,
    ensures
        is_white(c) <==> c == ' ' || 9 <= c as u32 <= 13,
{
}

/// What stands in a text stands wherever that text stands.
pub proof fn occurs_through(a: Seq<char>, b: Seq<char>, x: Seq<char>)
    requires
        occurs_in(a, b),
        occurs_in(b, x),
    ensures
        occurs_in(a, x),
{
    let i = choose|i: int| occurs_at(a, b, i);
    let j = choose|j: int| occurs_at(b, x, j);
    assert(a.subrange(i, i + b.len()).subrange(j, j + x.len()) =~= a.subrange(
        i + j,
        i + j + x.len(),
    ));
    assert(occurs_at(a, x, i + j));
}

} // verus!
