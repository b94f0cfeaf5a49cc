//! Versions as `<major>.<minor>.<patch>`, the tags that carry them, and the latest of a list.
use vstd::prelude::*;

use crate::number;
use crate::text;
use crate::text::{split, strip_prefix, to_chars, trim_leading};

verus! {

/// A version: major, minor, patch. Versions are ordered by major, then minor, then patch.
#[derive(Clone, Copy, Debug, PartialEq, Eq, Ord, Structural)]
pub struct SemVerTuple(pub u32, pub u32, pub u32);

/// Whether the version `a` is newer than the version `b`.
pub open spec fn newer(a: SemVerTuple, b: SemVerTuple) -> bool {
    a.0 > b.0 || (a.0 == b.0 && (a.1 > b.1 || (a.1 == b.1 && a.2 > b.2)))
}

impl vstd::std_specs::cmp::PartialOrdSpecImpl for SemVerTuple {
    open spec fn obeys_partial_cmp_spec() -> bool {
        true
    }

    open spec fn partial_cmp_spec(&self, other: &SemVerTuple) -> Option<core::cmp::Ordering> {
        if newer(*other, *self) {
            Some(core::cmp::Ordering::Less)
        } else if newer(*self, *other) {
            Some(core::cmp::Ordering::Greater)
        } else {
            Some(core::cmp::Ordering::Equal)
        }
    }
}

impl PartialOrd for SemVerTuple {
    fn partial_cmp(&self, other: &SemVerTuple) -> (r: Option<core::cmp::Ordering>) {
        if newer_than(*other, *self) {
            Some(core::cmp::Ordering::Less)
        } else if newer_than(*self, *other) {
            Some(core::cmp::Ordering::Greater)
        } else {
            Some(core::cmp::Ordering::Equal)
        }
    }
}

fn newer_than(a: SemVerTuple, b: SemVerTuple) -> (r: bool)
    ensures
        r == newer(a, b),
{
    a.0 > b.0 || (a.0 == b.0 && (a.1 > b.1 || (a.1 == b.1 && a.2 > b.2)))
}

/// Whether `c` is a decimal digit.
pub open spec fn is_digit(c: char) -> bool {
    '0' <= c <= '9'
}

/// The number that a row of decimal digits spells.
pub open spec fn number(digits: Seq<char>) -> nat
    decreases digits.len(),
{
    if digits.len() == 0 {
        0
    } else {
        number(digits.drop_last()) * 10 + ((digits.last() as int - '0' as int) as nat)
    }
}

/// Whether there is nothing but digits.
pub open spec fn all_digits(s: Seq<char>) -> bool {
    forall|i: int| 0 <= i < s.len() ==> is_digit(#[trigger] s[i])
}

/// `s` behind its plus sign, where it starts with one.
pub open spec fn behind_plus(s: Seq<char>) -> Seq<char> {
    if s.len() > 0 && s[0] == '+' {
        s.skip(1)
    } else {
        s
    }
}

/// The 32-bit number that `s` spells: an optional plus sign, then at least one digit and nothing
/// but digits, and no more than the largest such number.
pub open spec fn u32_of(s: Seq<char>) -> Option<u32> {
    let digits = behind_plus(s);
    if digits.len() > 0 && all_digits(digits) && number(digits) <= u32::MAX {
        Some(number(digits) as u32)
    } else {
        None
    }
}

/// The version that `s` spells: three numbers with dots between them.
pub open spec fn version_of(s: Seq<char>) -> Option<SemVerTuple> {
    let parts = text::split_on(s, '.');
    if parts.len() == 3 {
        match (u32_of(parts[0]), u32_of(parts[1]), u32_of(parts[2])) {
            (Some(a), Some(b), Some(c)) => Some(SemVerTuple(a, b, c)),
            _ => None,
        }
    } else {
        None
    }
}

proof fn number_grows(digits: Seq<char>, i: int)
    requires
        0 <= i <= digits.len(),
        all_digits(digits),
    ensures
        number(digits.take(i)) <= number(digits),
    decreases digits.len(),
{
    if i < digits.len() {
        let t = digits.drop_last();
        number_grows(t, i);
        assert(t.take(i) =~= digits.take(i));
    } else {
        assert(digits.take(i) =~= digits);
    }
}

fn parse_u32(s: &str) -> (r: Option<u32>)
    ensures
        r == u32_of(s@),
{
    let chars = to_chars(s);
    let n: usize = chars.len();
    let from: usize = if n > 0 && chars[0] == '+' {
        1
    } else {
        0
    };
    let ghost digits = behind_plus(s@);
    if from == n {
        return None;
    }
    let mut value: u64 = 0;
    let mut i: usize = from;
    proof {
        assert(digits =~= s@.skip(from as int));
        assert(digits.take(0).len() == 0);
    }
    while i < n
        invariant
            chars@ == s@,
            n == s@.len(),
            from <= i <= n,
            digits == s@.skip(from as int),
            digits.len() == n - from,
            digits == behind_plus(s@),
            forall|k: int| 0 <= k < i - from ==> is_digit(#[trigger] digits[k]),
            value == number(digits.take(i - from)),
            value <= u32::MAX,
        decreases n - i,
    {
        let c = chars[i];
        proof {
            assert(digits[i - from] == c);
            assert(digits.take(i - from + 1).drop_last() =~= digits.take(i - from));
        }
        if !('0' <= c && c <= '9') {
            return None;
        }
        let d: u64 = (c as u32 - '0' as u32) as u64;
        value = value * 10 + d;
        if value > u32::MAX as u64 {
            proof {
                if all_digits(digits) {
                    number_grows(digits, i - from + 1);
                }
            }
            return None;
        }
        i += 1;
    }
    proof {
        assert(digits.take(n - from) =~= digits);
    }
    Some(value as u32)
}

/// Reads a version.
pub fn parse(s: &str) -> (r: Option<SemVerTuple>)
    ensures
        r == version_of(s@),
{
    let parts = split(s, '.');
    let ghost ps = text::split_on(s@, '.');
    proof {
        assert(text::slices(parts@) == ps);
        assert forall|k: int| 0 <= k < parts@.len() implies ps[k] == (#[trigger] parts@[k])@ by {
            assert(text::slices(parts@)[k] == parts@[k]@);
        }
    }
    if parts.len() != 3 {
        return None;
    }
    let major = parse_u32(parts[0]);
    let minor = parse_u32(parts[1]);
    let patch = parse_u32(parts[2]);
    match (major, minor, patch) {
        (Some(a), Some(b), Some(c)) => Some(SemVerTuple(a, b, c)),
        _ => None,
    }
}

/// What the tags of a skill start with.
pub open spec fn tag_prefix_of(slug: Seq<char>) -> Seq<char> {
    slug + "/v"@
}

/// The tag of a version of a skill.
pub open spec fn tag_of(slug: Seq<char>, version: Seq<char>) -> Seq<char> {
    slug + "/v"@ + version
}

/// The tag of a version of a skill.
pub fn tag_name(slug: &str, version: &str) -> (r: String)
    ensures
        r@ == tag_of(slug@, version@),
{
    let mut tag = slug.to_owned();
    tag.append("/v");
    tag.append(version);
    tag
}

/// The pattern that the tags of a skill match.
pub fn tag_pattern(slug: &str) -> (r: String)
    ensures
        r@ == tag_prefix_of(slug@) + "*"@,
{
    let mut p = slug.to_owned();
    p.append("/v");
    p.append("*");
    p
}

/// The version that a tag carries for a skill, where it carries one.
pub open spec fn tagged_version(name: Seq<char>, slug: Seq<char>) -> Option<SemVerTuple> {
    if tag_prefix_of(slug).is_prefix_of(name) {
        version_of(name.skip(tag_prefix_of(slug).len() as int))
    } else {
        None
    }
}

/// Whether the tag at position `i` carries the latest version of the skill: no tag carries a newer
/// one, and no tag before it the same one.
pub open spec fn is_latest(names: Seq<Seq<char>>, slug: Seq<char>, i: int) -> bool {
    &&& 0 <= i < names.len()
    &&& tagged_version(names[i], slug) is Some
    &&& forall|j: int|
        0 <= j < names.len() && tagged_version(#[trigger] names[j], slug) is Some ==> !newer(
            tagged_version(names[j], slug)->0,
            tagged_version(names[i], slug)->0,
        )
    &&& forall|j: int|
        0 <= j < i && tagged_version(#[trigger] names[j], slug) is Some ==> newer(
            tagged_version(names[i], slug)->0,
            tagged_version(names[j], slug)->0,
        )
}

/// The tag of the latest version of a skill among the given tags; names that carry no version of
/// the skill do not count.
pub fn find_latest_tag(names: &Vec<String>, slug: &str) -> (r: Option<String>)
    ensures
        match r {
            Some(t) => exists|i: int|
                #[trigger] is_latest(text::texts(names@), slug@, i) && t@ == names@[i]@,
            None => forall|j: int|
                0 <= j < names@.len() ==> tagged_version((#[trigger] names@[j])@, slug@) is None,
        },
{
    let mut prefix = slug.to_owned();
    prefix.append("/v");
    let ghost all = text::texts(names@);
    let n: usize = names.len();
    let mut best: Option<(SemVerTuple, usize)> = None;
    let mut k: usize = 0;
    while k < n
        invariant
            n == names@.len(),
            all == text::texts(names@),
            prefix@ == tag_prefix_of(slug@),
            k <= n,
            match best {
                Some(b) => {
                    &&& b.1 < k
                    &&& tagged_version(all[b.1 as int], slug@) == Some(b.0)
                    &&& forall|j: int|
                        0 <= j < k && tagged_version(#[trigger] all[j], slug@) is Some ==> !newer(
                            tagged_version(all[j], slug@)->0,
                            b.0,
                        )
                    &&& forall|j: int|
                        0 <= j < b.1 && tagged_version(#[trigger] all[j], slug@) is Some ==> newer(
                            b.0,
                            tagged_version(all[j], slug@)->0,
                        )
                },
                None => forall|j: int| 0 <= j < k ==> tagged_version(#[trigger] all[j], slug@) is None,
            },
        decreases n - k,
    {
        proof {
            assert(all[k as int] == names@[k as int]@);
        }
        if let Some(rest) = strip_prefix(names[k].as_str(), prefix.as_str()) {
            if let Some(version) = parse(rest) {
                let better = match best {
                    Some(b) => newer_than(version, b.0),
                    None => true,
                };
                if better {
                    best = Some((version, k));
                }
            }
        }
        k += 1;
    }
    match best {
        Some(b) => {
            let i = b.1;
            proof {
                assert(is_latest(all, slug@, i as int));
            }
            Some(names[i].clone())
        },
        None => {
            proof {
                assert forall|j: int| 0 <= j < names@.len() implies tagged_version(
                    (#[trigger] names@[j])@,
                    slug@,
                ) is None by {
                    assert(all[j] == names@[j]@);
                }
            }
            None
        },
    }
}

/// The version that the last segment of a tag shows.
pub open spec fn shown_version(tag: Seq<char>) -> Seq<char> {
    text::without_leading(text::split_on(tag, '/').last(), 'v')
}

/// The version that the last segment of a tag shows.
pub fn version_of_tag(tag: &str) -> (r: String)
    ensures
        r@ == shown_version(tag@),
{
    let parts = split(tag, '/');
    proof {
        text::split_join(tag@, '/');
        assert(text::slices(parts@)[parts@.len() - 1] == parts@[parts@.len() - 1]@);
    }
    let last = parts[parts.len() - 1];
    trim_leading(last, 'v').to_owned()
}

/// The version that was published last, told from the tags of the repository.
pub fn latest_published_version(names: &Vec<String>, slug: &str) -> (r: Option<String>)
    ensures
        match r {
            Some(v) => exists|i: int|
                #[trigger] is_latest(text::texts(names@), slug@, i) && v@ == shown_version(
                    names@[i]@,
                ),
            None => forall|j: int|
                0 <= j < names@.len() ==> tagged_version((#[trigger] names@[j])@, slug@) is None,
        },
{
    match find_latest_tag(names, slug) {
        Some(tag) => Some(version_of_tag(tag.as_str())),
        None => None,
    }
}

/// At most one tag of a list is the latest.
pub proof fn latest_is_unique(names: Seq<Seq<char>>, slug: Seq<char>, i: int, j: int)
    requires
        is_latest(names, slug, i),
        is_latest(names, slug, j),
    ensures
        i == j,
{
    if i < j {
        assert(newer(tagged_version(names[j], slug)->0, tagged_version(names[i], slug)->0));
    }
    if j < i {
        assert(newer(tagged_version(names[i], slug)->0, tagged_version(names[j], slug)->0));
    }
}

/// The latest tag carries the same version in whatever order the tags are listed.
pub proof fn latest_ignores_the_order(
    a: Seq<Seq<char>>,
    b: Seq<Seq<char>>,
    slug: Seq<char>,
    i: int,
    j: int,
)
    requires
        forall|x: Seq<char>| a.contains(x) <==> b.contains(x),
        is_latest(a, slug, i),
        is_latest(b, slug, j),
    ensures
        tagged_version(a[i], slug) == tagged_version(b[j], slug),
{
    assert(a.contains(a[i]));
    assert(b.contains(b[j]));
    let p = choose|p: int| 0 <= p < b.len() && b[p] == a[i];
    let q = choose|q: int| 0 <= q < a.len() && a[q] == b[j];
    assert(!newer(tagged_version(b[p], slug)->0, tagged_version(b[j], slug)->0));
    assert(!newer(tagged_version(a[q], slug)->0, tagged_version(a[i], slug)->0));
}

proof fn last_segment(head: Seq<char>, tail: Seq<char>)
    requires
        !tail.contains('/'),
    ensures
        text::split_on(head + seq!['/'] + tail, '/').last() == tail,
    decreases tail.len(),
{
    let s = head + seq!['/'] + tail;
    if tail.len() == 0 {
        assert(s.last() == '/');
        assert(tail =~= Seq::empty());
    } else {
        let t = tail.drop_last();
        assert(tail.contains(tail.last()));
        assert(!t.contains('/')) by {
            if t.contains('/') {
                let k = choose|k: int| 0 <= k < t.len() && t[k] == '/';
                assert(tail[k] == '/');
            }
        }
        last_segment(head, t);
        assert(s.drop_last() =~= head + seq!['/'] + t);
        assert(s.last() == tail.last());
        assert(t.push(tail.last()) =~= tail);
    }
}

/// The tag of a version shows that version again, unless the version holds a slash or starts with
/// a `v`.
pub proof fn tag_shows_its_version(slug: Seq<char>, version: Seq<char>)
    requires
        !version.contains('/'),
        version.len() > 0 ==> version[0] != 'v',
    ensures
        shown_version(tag_of(slug, version)) == version,
{
    reveal_strlit("/v");
    let tail = seq!['v'] + version;
    assert(tag_of(slug, version) =~= slug + seq!['/'] + tail);
    assert(!tail.contains('/')) by {
        if tail.contains('/') {
            let k = choose|k: int| 0 <= k < tail.len() && tail[k] == '/';
            assert(version[k - 1] == '/');
        }
    }
    last_segment(slug, tail);
    assert(tail.skip(1) =~= version);
    assert(text::without_leading(tail, 'v') == text::without_leading(version, 'v'));
}

/// A tag that was made for a version of a skill carries that version for that skill.
pub proof fn tag_carries_its_version(slug: Seq<char>, version: Seq<char>)
    ensures
        tagged_version(tag_of(slug, version), slug) == version_of(version),
{
    let tag = tag_of(slug, version);
    let p = tag_prefix_of(slug);
    assert(tag.subrange(0, p.len() as int) =~= p);
    assert(tag.skip(p.len() as int) =~= version);
}

/// Versions are ordered by their numbers from the left: by major, then by minor, then by patch.
pub proof fn versions_are_ordered_by_their_numbers(a: u32, b: u32, c: u32, d: u32, e: u32, f: u32)
    ensures
        a > d ==> newer(SemVerTuple(a, b, c), SemVerTuple(d, e, f)),
        b > e ==> newer(SemVerTuple(a, b, c), SemVerTuple(a, e, f)),
        newer(SemVerTuple(a, b, c), SemVerTuple(a, b, f)) <==> c > f,
        c < u32::MAX ==> newer(SemVerTuple(a, b, (c + 1) as u32), SemVerTuple(a, b, c)),
{
}

/// No version is newer than itself, of two different versions one is newer, and what is newer than
/// a newer version is newer.
pub proof fn newer_is_a_strict_order(a: SemVerTuple, b: SemVerTuple, c: SemVerTuple)
    ensures
        !newer(a, a),
        newer(a, b) ==> !newer(b, a),
        a != b ==> newer(a, b) || newer(b, a),
        newer(a, b) && newer(b, c) ==> newer(a, c),
{
}

/// Digits are read from the left, each ten times what stands behind it; a single digit is its
/// value.
pub proof fn digits_are_read_in_base_ten(s: Seq<char>, d: char)
    requires
        is_digit(d),
    ensures
        number(s.push(d)) == 10 * number(s) + (d as int - 48),
        number(seq![d]) == d as int - 48,
{
    assert(s.push(d).drop_last() =~= s);
    assert(seq![d].drop_last() =~= Seq::empty());
    assert(number(Seq::empty()) == 0);
}

/// A version of which each part spells a number reads as those three numbers, and a text that reads
/// as a version has three parts that each spell theirs.
pub proof fn version_is_its_three_numbers(x: Seq<char>, y: Seq<char>, z: Seq<char>)
    requires
        !x.contains('.'),
        !y.contains('.'),
        !z.contains('.'),
    ensures
        ({
            let s = x + seq!['.'] + y + seq!['.'] + z;
            match (u32_of(x), u32_of(y), u32_of(z)) {
                (Some(a), Some(b), Some(c)) => version_of(s) == Some(SemVerTuple(a, b, c)),
                _ => version_of(s) is None,
            }
        }),
        version_of(x) is None,
        version_of(x + seq!['.'] + y) is None,
        version_of(x + seq!['.'] + y + seq!['.'] + z + seq!['.'] + x) is None,
{
    let xy = x + seq!['.'] + y;
    let xyz = xy + seq!['.'] + z;
    text::split_at_a_separator(x, y, '.');
    text::split_at_a_separator(y, x, '.');
    text::split_at_a_separator(z, x, '.');
    text::split_at_a_separator(xy, z, '.');
    text::split_at_a_separator(xyz, x, '.');
    assert(text::split_on(xyz, '.') =~= seq![x, y, z]);
    assert(text::split_on(xy, '.') =~= seq![x, y]);
    assert(text::split_on(xyz + seq!['.'] + x, '.').len() == 4);
}

/// A number without a sign is read exactly when it is digits alone, at least one, and fits in 32
/// bits; it is then the number that the digits spell.
pub proof fn unsigned_number_is_its_digits(s: Seq<char>)
    requires
        s.len() > 0,
        s[0] != '+',
    ensures
        u32_of(s) is Some <==> (forall|i: int| 0 <= i < s.len() ==> '0' <= #[trigger] s[i] <= '9')
            && number(s) <= 0xffff_ffff,
        u32_of(s) matches Some(n) ==> n == number(s),
{
    if forall|i: int| 0 <= i < s.len() ==> '0' <= #[trigger] s[i] <= '9' {
        assert(all_digits(s));
    }
}

proof fn plain_decimal(n: u32)
    ensures
        u32_of(number::decimal_of(n as nat)) == Some(n),
        !number::decimal_of(n as nat).contains('.'),
{
    let d = number::decimal_of(n as nat);
    number::decimal_spells(n as nat);
    assert(is_digit(d[0]));
    assert forall|i: int| 0 <= i < d.len() implies d[i] != '.' by {
        assert(is_digit(d[i]));
    }
}

/// A version, written with its numbers in decimal, as a tag of a skill.
pub open spec fn written_tag(slug: Seq<char>, v: SemVerTuple) -> Seq<char> {
    slug + seq!['/', 'v'] + number::decimal_of(v.0 as nat) + seq!['.'] + number::decimal_of(
        v.1 as nat,
    ) + seq!['.'] + number::decimal_of(v.2 as nat)
}

/// A tag that is the skill, `/v` and the numbers of a version in decimal carries that version for
/// that skill, and none for a skill whose name does not start it.
pub proof fn written_tag_carries_its_numbers(slug: Seq<char>, v: SemVerTuple, other: Seq<char>)
    ensures
        tagged_version(written_tag(slug, v), slug) == Some(v),
        !(other + seq!['/', 'v']).is_prefix_of(written_tag(slug, v)) ==> tagged_version(
            written_tag(slug, v),
            other,
        ) is None,
{
    reveal_strlit("/v");
    assert("/v"@ =~= seq!['/', 'v']);
    let x = number::decimal_of(v.0 as nat);
    let y = number::decimal_of(v.1 as nat);
    let z = number::decimal_of(v.2 as nat);
    plain_decimal(v.0);
    plain_decimal(v.1);
    plain_decimal(v.2);
    version_is_its_three_numbers(x, y, z);
    let text = x + seq!['.'] + y + seq!['.'] + z;
    tag_carries_its_version(slug, text);
    assert(tag_of(slug, text) =~= written_tag(slug, v));
    assert(tag_prefix_of(other) == other + seq!['/', 'v']);
}

/// The latest tag of a skill is a tag of that skill, and no tag of a version of the skill has
/// greater numbers, read from the left.
pub proof fn latest_tag_has_the_greatest_numbers(
    names: Seq<Seq<char>>,
    slug: Seq<char>,
    i: int,
    j: int,
    v: SemVerTuple,
)
    requires
        is_latest(names, slug, i),
        0 <= j < names.len(),
        names[j] == written_tag(slug, v),
    ensures
        (slug + seq!['/', 'v']).is_prefix_of(names[i]),
        tagged_version(names[i], slug) matches Some(w) && (w.0 > v.0 || (w.0 == v.0 && w.1 > v.1) || (
        w.0 == v.0 && w.1 == v.1 && w.2 >= v.2)),
{
    reveal_strlit("/v");
    assert("/v"@ =~= seq!['/', 'v']);
    written_tag_carries_its_numbers(slug, v, slug);
    assert(!newer(v, tagged_version(names[i], slug)->0));
}

/// Where some tag carries a version of a skill, one of the tags is the latest.
pub proof fn versioned_tags_have_a_latest(names: Seq<Seq<char>>, slug: Seq<char>, k: int)
    requires
        0 <= k < names.len(),
        tagged_version(names[k], slug) is Some,
    ensures
        exists|i: int| #[trigger] is_latest(names, slug, i),
    decreases names.len(),
{
    let t = names.drop_last();
    let n = names.len() - 1;
    if exists|j: int| 0 <= j < t.len() && tagged_version(#[trigger] t[j], slug) is Some {
        let j = choose|j: int| 0 <= j < t.len() && tagged_version(#[trigger] t[j], slug) is Some;
        versioned_tags_have_a_latest(t, slug, j);
        let i = choose|i: int| #[trigger] is_latest(t, slug, i);
        assert(names[i] == t[i]);
        if tagged_version(names[n], slug) is Some && newer(
            tagged_version(names[n], slug)->0,
            tagged_version(names[i], slug)->0,
        ) {
            assert forall|m: int|
                0 <= m < names.len() && tagged_version(#[trigger] names[m], slug) is Some implies !newer(
                tagged_version(names[m], slug)->0,
                tagged_version(names[n], slug)->0,
            ) by {
                if m < n {
                    assert(t[m] == names[m]);
                }
            }
            assert forall|m: int| 0 <= m < n && tagged_version(
                #[trigger] names[m],
                slug,
            ) is Some implies newer(
                tagged_version(names[n], slug)->0,
                tagged_version(names[m], slug)->0,
            ) by {
                assert(t[m] == names[m]);
            }
            assert(is_latest(names, slug, n));
        } else {
            assert forall|m: int|
                0 <= m < names.len() && tagged_version(#[trigger] names[m], slug) is Some implies !newer(
                tagged_version(names[m], slug)->0,
                tagged_version(names[i], slug)->0,
            ) by {
                if m < n {
                    assert(t[m] == names[m]);
                }
            }
            assert forall|m: int| 0 <= m < i && tagged_version(
                #[trigger] names[m],
                slug,
            ) is Some implies newer(
                tagged_version(names[i], slug)->0,
                tagged_version(names[m], slug)->0,
            ) by {
                assert(t[m] == names[m]);
            }
            assert(is_latest(names, slug, i));
        }
    } else {
        if k < n {
            assert(t[k] == names[k]);
        }
        assert forall|m: int| 0 <= m < n implies tagged_version(#[trigger] names[m], slug) is None by {
            assert(t[m] == names[m]);
        }
        assert(is_latest(names, slug, n));
    }
}

/// A patch release is pulled: where the latest tag so far carries a version, a tag with the patch
/// number raised is the latest once it is there.
pub proof fn patch_release_becomes_the_latest(
    names: Seq<Seq<char>>,
    slug: Seq<char>,
    i: int,
    v: SemVerTuple,
)
    requires
        is_latest(names, slug, i),
        tagged_version(names[i], slug) == Some(v),
        v.2 < u32::MAX,
    ensures
        is_latest(
            names.push(written_tag(slug, SemVerTuple(v.0, v.1, (v.2 + 1) as u32))),
            slug,
            names.len() as int,
        ),
{
    let raised = SemVerTuple(v.0, v.1, (v.2 + 1) as u32);
    let all = names.push(written_tag(slug, raised));
    written_tag_carries_its_numbers(slug, raised, slug);
    assert forall|m: int| 0 <= m < all.len() && tagged_version(
        #[trigger] all[m],
        slug,
    ) is Some implies !newer(tagged_version(all[m], slug)->0, raised) && (m < names.len() ==> newer(
        raised,
        tagged_version(all[m], slug)->0,
    )) by {
        if m < names.len() {
            assert(all[m] == names[m]);
        }
    }
}

/// One plus sign before the digits of a number makes no other number; two are no number.
pub proof fn plus_sign_is_taken_off(s: Seq<char>)
    ensures
        s.len() > 0 && s[0] != '+' ==> u32_of(seq!['+'] + s) == u32_of(s),
        u32_of(seq!['+', '+'] + s) is None,
        u32_of(Seq::empty()) is None,
        u32_of(seq!['+']) is None,
{
    assert((seq!['+'] + s).skip(1) =~= s);
    let two = seq!['+', '+'] + s;
    assert(two.skip(1)[0] == '+');
    assert(!is_digit(two.skip(1)[0]));
}

} // verus!
