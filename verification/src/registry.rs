//! Listing and searching the skills of a self-hosted registry.
use vstd::prelude::*;

use crate::clock;
use crate::clock::{commit_time, Timestamp};
use crate::errors::{BackendError, BackendErrorView};
use crate::paths;
use crate::paths::join;
use crate::skill;
use crate::skill::{SkillSource, SkillSummary, SummaryView};
use crate::text;
use crate::text::contains;

verus! {

/// What `meta.knack.yaml` says of a skill.
#[derive(Debug)]
pub struct MetaYaml {
    pub slug: String,
    pub author: Option<String>,
    pub description: Option<String>,
    pub version: Option<String>,
}

/// What was found of a `meta.knack.yaml`.
#[derive(Debug)]
pub enum MetaFile {
    Absent,
    Unreadable(String),
    Unparsable(String),
    /// What it says, and the second at which it was last modified, where that is known.
    Parsed { meta: MetaYaml, modified: Option<i64> },
}

/// The summary that a `meta.knack.yaml` gives.
pub open spec fn summary_of(meta: MetaYaml, modified: Option<i64>, now: Timestamp) -> SummaryView {
    SummaryView {
        slug: meta.slug@,
        author: match meta.author {
            Some(a) => a@,
            None => "unknown"@,
        },
        version: match meta.version {
            Some(v) => v@,
            None => "0.0.0"@,
        },
        description: text::opt_text(meta.description),
        updated_at: match modified {
            Some(secs) => clock::second_or(secs as int, now),
            None => now,
        },
        source: SkillSource::Github,
    }
}

/// The summary of a skill's directory, none where it has no `meta.knack.yaml`.
pub open spec fn read_summary_of(file: MetaFile, now: Timestamp) -> Result<
    Option<SummaryView>,
    BackendErrorView,
> {
    match file {
        MetaFile::Absent => Ok(None),
        MetaFile::Unreadable(e) => Err(BackendErrorView::Other("read meta: "@ + e@)),
        MetaFile::Unparsable(e) => Err(BackendErrorView::Other("parse meta.knack.yaml: "@ + e@)),
        MetaFile::Parsed { meta, modified } => Ok(Some(summary_of(meta, modified, now))),
    }
}

/// What a summary that was read says.
pub open spec fn summary_result(r: Result<Option<SkillSummary>, BackendError>) -> Result<
    Option<SummaryView>,
    BackendErrorView,
> {
    match r {
        Ok(Some(s)) => Ok(Some(s@)),
        Ok(None) => Ok(None),
        Err(e) => Err(e@),
    }
}

fn copy_optional(o: &Option<String>) -> (r: Option<String>)
    ensures
        r == *o,
{
    match o {
        Some(s) => Some(s.clone()),
        None => None,
    }
}

/// The summary of a skill's directory.
pub fn read_summary(file: &MetaFile, now: Timestamp) -> (r: Result<
    Option<SkillSummary>,
    BackendError,
>)
    ensures
        summary_result(r) == read_summary_of(*file, now),
{
    match file {
        MetaFile::Absent => Ok(None),
        MetaFile::Unreadable(e) => {
            let mut m = "read meta: ".to_owned();
            m.append(e.as_str());
            Err(BackendError::Other(m))
        },
        MetaFile::Unparsable(e) => {
            let mut m = "parse meta.knack.yaml: ".to_owned();
            m.append(e.as_str());
            Err(BackendError::Other(m))
        },
        MetaFile::Parsed { meta, modified } => {
            let author = match &meta.author {
                Some(a) => a.clone(),
                None => "unknown".to_owned(),
            };
            let version = match &meta.version {
                Some(v) => v.clone(),
                None => "0.0.0".to_owned(),
            };
            let updated_at = match modified {
                Some(secs) => commit_time(*secs, now),
                None => now,
            };
            Ok(
                Some(
                    SkillSummary {
                        slug: meta.slug.clone(),
                        author,
                        version,
                        description: copy_optional(&meta.description),
                        updated_at,
                        source: SkillSource::Github,
                    },
                ),
            )
        },
    }
}

/// What was found of the directory that holds the skills.
#[derive(Debug)]
pub enum Listing {
    Absent,
    Unreadable(String),
    /// For each entry, in the order in which they come, whether it is a directory, and its
    /// `meta.knack.yaml`.
    Entries(Vec<(bool, MetaFile)>),
}

/// The summaries of the given entries, in their order. What is not a directory, or has no
/// `meta.knack.yaml`, is passed over; the first error ends it.
pub open spec fn summaries_in(entries: Seq<(bool, MetaFile)>, now: Timestamp) -> Result<
    Seq<SummaryView>,
    BackendErrorView,
>
    decreases entries.len(),
{
    if entries.len() == 0 {
        Ok(Seq::empty())
    } else {
        match summaries_in(entries.drop_last(), now) {
            Err(e) => Err(e),
            Ok(before) => if !entries.last().0 {
                Ok(before)
            } else {
                match read_summary_of(entries.last().1, now) {
                    Err(e) => Err(e),
                    Ok(None) => Ok(before),
                    Ok(Some(s)) => Ok(before.push(s)),
                }
            },
        }
    }
}

/// The skills of a registry.
pub open spec fn list_of(listing: Listing, now: Timestamp) -> Result<
    Seq<SummaryView>,
    BackendErrorView,
> {
    match listing {
        Listing::Absent => Ok(Seq::empty()),
        Listing::Unreadable(e) => Err(BackendErrorView::Other("read skills dir: "@ + e@)),
        Listing::Entries(entries) => summaries_in(entries@, now),
    }
}

/// What a list that was read says.
pub open spec fn list_result(r: Result<Vec<SkillSummary>, BackendError>) -> Result<
    Seq<SummaryView>,
    BackendErrorView,
> {
    match r {
        Ok(v) => Ok(skill::summaries_of(v@)),
        Err(e) => Err(e@),
    }
}

proof fn error_stays(entries: Seq<(bool, MetaFile)>, k: int, now: Timestamp)
    requires
        0 <= k <= entries.len(),
        summaries_in(entries.take(k), now) is Err,
    ensures
        summaries_in(entries, now) == summaries_in(entries.take(k), now),
    decreases entries.len(),
{
    if k == entries.len() {
        assert(entries.take(k) =~= entries);
    } else {
        assert(entries.drop_last().take(k) =~= entries.take(k));
        error_stays(entries.drop_last(), k, now);
    }
}

/// The skills of a registry.
pub fn list_blocking(listing: &Listing, now: Timestamp) -> (r: Result<
    Vec<SkillSummary>,
    BackendError,
>)
    ensures
        list_result(r) == list_of(*listing, now),
{
    match listing {
        Listing::Absent => {
            let out: Vec<SkillSummary> = Vec::new();
            proof {
                assert(skill::summaries_of(out@) =~= Seq::empty());
            }
            Ok(out)
        },
        Listing::Unreadable(e) => {
            let mut m = "read skills dir: ".to_owned();
            m.append(e.as_str());
            Err(BackendError::Other(m))
        },
        Listing::Entries(entries) => {
            let n: usize = entries.len();
            let mut out: Vec<SkillSummary> = Vec::new();
            let mut i: usize = 0;
            proof {
                assert(skill::summaries_of(out@) =~= Seq::empty());
            }
            while i < n
                invariant
                    n == entries@.len(),
                    i <= n,
                    summaries_in(entries@.take(i as int), now) == Ok::<
                        Seq<SummaryView>,
                        BackendErrorView,
                    >(skill::summaries_of(out@)),
                    *listing == Listing::Entries(*entries),
                decreases n - i,
            {
                let ghost longer = entries@.take(i + 1);
                let ghost before = out@;
                proof {
                    assert(longer.drop_last() =~= entries@.take(i as int));
                    assert(longer.last() == entries@[i as int]);
                }
                if entries[i].0 {
                    let file = &entries[i].1;
                    match read_summary(file, now) {
                        Err(e) => {
                            proof {
                                error_stays(entries@, i + 1, now);
                            }
                            return Err(e);
                        },
                        Ok(Some(s)) => {
                            let ghost added = s@;
                            out.push(s);
                            proof {
                                assert(skill::summaries_of(out@) =~= skill::summaries_of(
                                    before,
                                ).push(added));
                            }
                        },
                        Ok(None) => {
                        },
                    }
                }
                i += 1;
            }
            proof {
                assert(entries@.take(n as int) =~= entries@);
            }
            Ok(out)
        },
    }
}

/// What `str::to_lowercase` makes of a text.
pub uninterp spec fn lowercase(s: Seq<char>) -> Seq<char>;

/// `str::to_lowercase` of the standard library: the lower case of a text by the rules of Unicode.
#[verifier::external_body]
pub(crate) fn to_lowercase(s: &str) -> (r: String)
    ensures
        r@ == lowercase(s@),
{
    s.to_lowercase()
}

/// A skill that can be found, with the text of its `SKILL.md` where there is one to read.
#[derive(Debug)]
pub struct Searchable {
    pub summary: SkillSummary,
    pub body: Option<String>,
}

/// Where the `SKILL.md` of a skill is.
pub fn skill_md_path(skills_root: &str, slug: &str) -> (r: String)
    ensures
        r@ == paths::joined(paths::joined(skills_root@, slug@), "SKILL.md"@),
{
    let dir = join(skills_root, slug);
    join(dir.as_str(), "SKILL.md")
}

/// Whether a text, where there is one, holds the query in lower case.
pub open spec fn text_matches(t: Option<Seq<char>>, query_lc: Seq<char>) -> bool {
    t is Some && text::occurs_in(lowercase(t->0), query_lc)
}

/// Whether a skill matches a query in lower case: by its slug, its description or its `SKILL.md`.
pub open spec fn matches_query(s: Searchable, query_lc: Seq<char>) -> bool {
    text_matches(Some(s.summary.slug@), query_lc) || text_matches(
        text::opt_text(s.summary.description),
        query_lc,
    ) || text_matches(text::opt_text(s.body), query_lc)
}

/// The skills that match a query in lower case, in their order.
pub open spec fn hits(all: Seq<Searchable>, query_lc: Seq<char>) -> Seq<SkillSummary>
    decreases all.len(),
{
    if all.len() == 0 {
        Seq::empty()
    } else {
        let before = hits(all.drop_last(), query_lc);
        if matches_query(all.last(), query_lc) {
            before.push(all.last().summary)
        } else {
            before
        }
    }
}

fn holds(t: &str, query_lc: &str) -> (r: bool)
    ensures
        r == text_matches(Some(t@), query_lc@),
{
    let lower = to_lowercase(t);
    contains(lower.as_str(), query_lc)
}

fn optional_holds(t: &Option<String>, query_lc: &str) -> (r: bool)
    ensures
        r == text_matches(text::opt_text(*t), query_lc@),
{
    match t {
        Some(t) => holds(t.as_str(), query_lc),
        None => false,
    }
}

/// The skills that match a query in lower case.
pub fn search_blocking(all: &Vec<Searchable>, query_lc: &str) -> (r: Vec<SkillSummary>)
    ensures
        r@ == hits(all@, query_lc@),
{
    let n: usize = all.len();
    let mut out: Vec<SkillSummary> = Vec::new();
    let mut i: usize = 0;
    while i < n
        invariant
            n == all@.len(),
            i <= n,
            out@ == hits(all@.take(i as int), query_lc@),
        decreases n - i,
    {
        let s = &all[i];
        proof {
            assert(all@.take(i + 1).drop_last() =~= all@.take(i as int));
            assert(all@.take(i + 1).last() == s);
        }
        if holds(s.summary.slug.as_str(), query_lc) || optional_holds(
            &s.summary.description,
            query_lc,
        ) || optional_holds(&s.body, query_lc) {
            out.push(s.summary.clone());
        }
        i += 1;
    }
    proof {
        assert(all@.take(n as int) =~= all@);
    }
    out
}

/// The skills that match a query, whatever its case.
pub open spec fn found_for(all: Seq<Searchable>, query: Seq<char>) -> Seq<SkillSummary> {
    hits(all, lowercase(query))
}

/// The skills that match a query, whatever its case.
pub fn search(all: &Vec<Searchable>, query: &str) -> (r: Vec<SkillSummary>)
    ensures
        r@ == hits(all@, lowercase(query@)),
        r@ == found_for(all@, query@),
{
    let q = to_lowercase(query);
    search_blocking(all, q.as_str())
}

/// A search finds exactly the skills whose slug, description or `SKILL.md` holds the query.
pub proof fn search_finds_exactly_the_matches(all: Seq<Searchable>, query_lc: Seq<char>)
    ensures
        forall|i: int|
            0 <= i < all.len() && matches_query(#[trigger] all[i], query_lc) ==> hits(
                all,
                query_lc,
            ).contains(all[i].summary),
        forall|s: SkillSummary| #[trigger]
            hits(all, query_lc).contains(s) ==> exists|i: int|
                0 <= i < all.len() && (#[trigger] all[i]).summary == s && matches_query(
                    all[i],
                    query_lc,
                ),
    decreases all.len(),
{
    if all.len() > 0 {
        let t = all.drop_last();
        let before = hits(t, query_lc);
        let after = hits(all, query_lc);
        search_finds_exactly_the_matches(t, query_lc);
        assert forall|i: int| 0 <= i < all.len() && matches_query(#[trigger] all[i], query_lc) implies after.contains(
            all[i].summary,
        ) by {
            if i < t.len() {
                assert(t[i] == all[i]);
                assert(before.contains(all[i].summary));
                let k = choose|k: int| 0 <= k < before.len() && before[k] == all[i].summary;
                assert(after[k] == all[i].summary);
            } else {
                assert(after[before.len() as int] == all[i].summary);
            }
        }
        assert forall|s: SkillSummary| #[trigger] after.contains(s) implies exists|i: int|
            0 <= i < all.len() && (#[trigger] all[i]).summary == s && matches_query(
                all[i],
                query_lc,
            ) by {
            let k = choose|k: int| 0 <= k < after.len() && after[k] == s;
            if k < before.len() {
                assert(before[k] == s);
                assert(before.contains(s));
                let i = choose|i: int|
                    0 <= i < t.len() && (#[trigger] t[i]).summary == s && matches_query(
                        t[i],
                        query_lc,
                    );
                assert(all[i] == t[i]);
            } else {
                assert(all[all.len() - 1].summary == s);
            }
        }
    } else {
        assert(hits(all, query_lc) =~= Seq::empty());
    }
}

/// A skill is found exactly when its slug, its description or its `SKILL.md`, in lower case, holds
/// the query in lower case; what does not match is passed over, and the order is kept.
pub proof fn skill_is_found_by_its_texts(all: Seq<Searchable>, s: Searchable, query_lc: Seq<char>)
    ensures
        ({
            let found = text::occurs_in(lowercase(s.summary.slug@), query_lc) || (
            s.summary.description matches Some(d) && text::occurs_in(lowercase(d@), query_lc)) || (
            s.body matches Some(b) && text::occurs_in(lowercase(b@), query_lc));
            hits(all.push(s), query_lc) == if found {
                hits(all, query_lc).push(s.summary)
            } else {
                hits(all, query_lc)
            }
        }),
        hits(Seq::empty(), query_lc).len() == 0,
{
    assert(all.push(s).drop_last() =~= all);
    assert(all.push(s).last() == s);
}

/// A listed skill is told by its `meta.knack.yaml`, with `unknown` for an author and `0.0.0` for a
/// version that it does not state; what is no directory, or has no such file, is not listed; and a
/// file that cannot be read or understood fails the list.
pub proof fn list_tells_what_the_files_state(
    entries: Seq<(bool, MetaFile)>,
    is_dir: bool,
    meta: MetaYaml,
    modified: Option<i64>,
    e: String,
    now: Timestamp,
)
    requires
        summaries_in(entries, now) is Ok,
    ensures
        ({
            let before = summaries_in(entries, now)->Ok_0;
            let with_file = summaries_in(
                entries.push((is_dir, MetaFile::Parsed { meta, modified })),
                now,
            );
            &&& is_dir ==> {
                &&& with_file is Ok
                &&& with_file->Ok_0.drop_last() == before
                &&& with_file->Ok_0.len() == before.len() + 1
                &&& with_file->Ok_0.last().slug == meta.slug@
                &&& meta.author matches Some(a) ==> with_file->Ok_0.last().author == a@
                &&& meta.author is None ==> with_file->Ok_0.last().author == "unknown"@
                &&& meta.version matches Some(v) ==> with_file->Ok_0.last().version == v@
                &&& meta.version is None ==> with_file->Ok_0.last().version == "0.0.0"@
                &&& with_file->Ok_0.last().description == text::opt_text(meta.description)
                &&& modified is None ==> with_file->Ok_0.last().updated_at == now
            }
            &&& !is_dir ==> with_file == Ok::<Seq<SummaryView>, BackendErrorView>(before)
            &&& summaries_in(entries.push((is_dir, MetaFile::Absent)), now) == Ok::<
                Seq<SummaryView>,
                BackendErrorView,
            >(before)
            &&& is_dir ==> summaries_in(entries.push((is_dir, MetaFile::Unreadable(e))), now) is Err
            &&& is_dir ==> summaries_in(entries.push((is_dir, MetaFile::Unparsable(e))), now) is Err
        }),
        list_of(Listing::Absent, now) == Ok::<Seq<SummaryView>, BackendErrorView>(Seq::empty()),
        list_of(Listing::Unreadable(e), now) is Err,
{
    let before = summaries_in(entries, now)->Ok_0;
    let p = entries.push((is_dir, MetaFile::Parsed { meta, modified }));
    assert(p.drop_last() =~= entries);
    assert(entries.push((is_dir, MetaFile::Absent)).drop_last() =~= entries);
    assert(entries.push((is_dir, MetaFile::Unreadable(e))).drop_last() =~= entries);
    assert(entries.push((is_dir, MetaFile::Unparsable(e))).drop_last() =~= entries);
    assert(before.push(summary_of(meta, modified, now)).drop_last() =~= before);
}

/// Two queries that are the same in lower case find the same skills, and a query finds a skill whose
/// slug is the query, whatever the case of either.
pub proof fn search_ignores_case(all: Seq<Searchable>, s: Searchable, a: Seq<char>, b: Seq<char>)
    requires
        lowercase(a) == lowercase(b),
    ensures
        found_for(all, a) == found_for(all, b),
        s.summary.slug@ == b ==> found_for(all.push(s), a) == found_for(all, a).push(s.summary),
{
    skill_is_found_by_its_texts(all, s, lowercase(a));
    if s.summary.slug@ == b {
        text::occurs_in_what_is_made_with_it(lowercase(b), Seq::empty(), lowercase(b));
    }
}

} // verus!
