//! `knack status`: which copy of a skill is real.
//!
//! A skill can exist in up to four places at once: a workspace draft, a workspace skill, the HOME
//! pool and, self-host only, the registry clone. The overview shows every locally present skill with
//! its copies and whether any two disagree; the view of one skill adds the latest published version
//! and in which files the resolved copy differs from it.
use vstd::prelude::*;

use crate::bom;
use crate::cloud::{CloudSkill, CloudVersion};
use crate::config;
use crate::config::{backend_tag, BackendMode};
use crate::content;
use crate::content::{changed_vs_tag, copies_disagree, eol_eq};
use crate::errors;
use crate::errors::{BackendError, CliError, CliErrorView};
use crate::json;
use crate::json::Shape;
use crate::order;
use crate::order::sort_unique;
use crate::paths;
use crate::paths::{join, same_as};
use crate::skill;
use crate::skill::{SkillFile, SkillPackage};
use crate::text;
use crate::text::pad_right;
use crate::yaml;
use crate::yaml::meta_version;

verus! {

/// What to show the status of: one skill, or all of them.
#[derive(Debug)]
pub struct StatusArgs {
    pub slug: Option<String>,
}

/// Where a copy is.
#[derive(Clone, Copy, Debug, PartialEq, Eq, Structural)]
pub enum CopyKind {
    WorkspaceDraft,
    WorkspaceSkill,
    HomePool,
    Registry,
}

/// The name of a place.
pub open spec fn kind_name(kind: CopyKind) -> Seq<char> {
    match kind {
        CopyKind::WorkspaceDraft => "workspace-draft"@,
        CopyKind::WorkspaceSkill => "workspace-skill"@,
        CopyKind::HomePool => "home-pool"@,
        CopyKind::Registry => "registry"@,
    }
}

impl CopyKind {
    /// The name of the place.
    pub fn name(self) -> (r: &'static str)
        ensures
            r@ == kind_name(self),
    {
        match self {
            CopyKind::WorkspaceDraft => "workspace-draft",
            CopyKind::WorkspaceSkill => "workspace-skill",
            CopyKind::HomePool => "home-pool",
            CopyKind::Registry => "registry",
        }
    }
}

/// A place where a copy of a skill may be.
#[derive(Debug)]
pub struct Candidate {
    pub kind: CopyKind,
    pub path: String,
}

/// The places where a copy of a skill may be, in the order in which they are resolved.
pub open spec fn places(
    slug: Seq<char>,
    workspace: Option<Seq<char>>,
    skills_dir: Seq<char>,
    registry: Option<Seq<char>>,
) -> Seq<(CopyKind, Seq<char>)> {
    (match workspace {
        Some(ws) => seq![
            (CopyKind::WorkspaceDraft, paths::joined(paths::joined(ws, "drafts"@), slug)),
            (CopyKind::WorkspaceSkill, paths::joined(paths::joined(ws, "skills"@), slug)),
        ],
        None => Seq::empty(),
    }) + seq![(CopyKind::HomePool, paths::joined(skills_dir, slug))] + (match registry {
        Some(repo) => seq![
            (CopyKind::Registry, paths::joined(paths::joined(repo, "skills"@), slug)),
        ],
        None => Seq::empty(),
    })
}

/// What the candidates say.
pub open spec fn candidates_of(v: Seq<Candidate>) -> Seq<(CopyKind, Seq<char>)> {
    v.map_values(|c: Candidate| (c.kind, c.path@))
}

/// The places where a copy of a skill may be.
pub fn candidates(
    slug: &str,
    workspace: Option<&str>,
    skills_dir: &str,
    registry: Option<&str>,
) -> (r: Vec<Candidate>)
    ensures
        candidates_of(r@) == places(
            slug@,
            text::opt_slice(workspace),
            skills_dir@,
            text::opt_slice(registry),
        ),
{
    let mut out: Vec<Candidate> = Vec::new();
    if let Some(ws) = workspace {
        let drafts = join(ws, "drafts");
        out.push(
            Candidate { kind: CopyKind::WorkspaceDraft, path: join(drafts.as_str(), slug) },
        );
        let skills = join(ws, "skills");
        out.push(
            Candidate { kind: CopyKind::WorkspaceSkill, path: join(skills.as_str(), slug) },
        );
    }
    out.push(Candidate { kind: CopyKind::HomePool, path: join(skills_dir, slug) });
    if let Some(repo) = registry {
        let skills = join(repo, "skills");
        out.push(Candidate { kind: CopyKind::Registry, path: join(skills.as_str(), slug) });
    }
    proof {
        assert(candidates_of(out@) =~= places(
            slug@,
            text::opt_slice(workspace),
            skills_dir@,
            text::opt_slice(registry),
        ));
    }
    out
}

/// A place that was looked at.
#[derive(Debug)]
pub struct Inspected {
    pub kind: CopyKind,
    pub path: String,
    pub is_dir: bool,
    pub has_skill_md: bool,
    /// The bytes of its `meta.knack.yaml`, where there is one to read.
    pub meta: Option<Vec<u8>>,
}

/// Whether `publish` and `run` could take the copy: the registry clone is what a publish writes to,
/// never what it reads from.
pub open spec fn is_source(p: Inspected) -> bool {
    p.is_dir && p.kind != CopyKind::Registry
}

/// The copy that `publish` and `run` take: the first one that exists.
pub open spec fn resolved_of(found: Seq<Inspected>) -> Option<Seq<char>>
    decreases found.len(),
{
    if found.len() == 0 {
        None
    } else if is_source(found[0]) {
        Some(found[0].path@)
    } else {
        resolved_of(found.skip(1))
    }
}

/// The copy that `publish` and `run` take.
pub fn resolve_existing_skill_dir(found: &Vec<Inspected>) -> (r: Option<String>)
    ensures
        text::opt_text(r) == resolved_of(found@),
{
    let n: usize = found.len();
    let mut i: usize = 0;
    proof {
        assert(found@.skip(0) =~= found@);
    }
    while i < n
        invariant
            n == found@.len(),
            i <= n,
            resolved_of(found@.skip(i as int)) == resolved_of(found@),
        decreases n - i,
    {
        proof {
            assert(found@.skip(i as int)[0] == found@[i as int]);
            assert(found@.skip(i as int).skip(1) =~= found@.skip(i + 1));
        }
        if found[i].is_dir && found[i].kind != CopyKind::Registry {
            return Some(found[i].path.clone());
        }
        i += 1;
    }
    None
}

/// One locally present copy of a skill.
#[derive(Debug)]
pub struct SkillCopy {
    pub kind: CopyKind,
    pub path: String,
    /// The version that its `meta.knack.yaml` states, when parseable.
    pub version: Option<String>,
    /// True when this is the copy that `publish` and `run` would resolve.
    pub resolved: bool,
}

/// What a copy says.
pub struct CopyView {
    pub kind: CopyKind,
    pub path: Seq<char>,
    pub version: Option<Seq<char>>,
    pub resolved: bool,
}

impl View for SkillCopy {
    type V = CopyView;

    open spec fn view(&self) -> CopyView {
        CopyView {
            kind: self.kind,
            path: self.path@,
            version: text::opt_text(self.version),
            resolved: self.resolved,
        }
    }
}

/// What the copies say.
pub open spec fn copy_views(v: Seq<SkillCopy>) -> Seq<CopyView> {
    v.map_values(|c: SkillCopy| c@)
}

/// Whether a place holds a copy.
pub open spec fn holds_copy(p: Inspected) -> bool {
    p.is_dir && p.has_skill_md
}

/// The version that a `meta.knack.yaml` states, where there is one to read.
pub open spec fn stated_version(meta: Option<Vec<u8>>) -> Option<Seq<char>> {
    match meta {
        Some(b) => yaml::yaml_text(bom::without_bom(b@), "version"@),
        None => None,
    }
}

/// The copy in a place.
pub open spec fn copy_in(p: Inspected, resolved: Option<Seq<char>>) -> CopyView {
    CopyView {
        kind: p.kind,
        path: p.path@,
        version: stated_version(p.meta),
        resolved: resolved is Some && paths::same_path(resolved->0, p.path@),
    }
}

/// The copies in the given places, in their order.
pub open spec fn copies_in(found: Seq<Inspected>, resolved: Option<Seq<char>>) -> Seq<CopyView>
    decreases found.len(),
{
    if found.len() == 0 {
        Seq::empty()
    } else {
        let before = copies_in(found.drop_last(), resolved);
        if holds_copy(found.last()) {
            before.push(copy_in(found.last(), resolved))
        } else {
            before
        }
    }
}

/// Every existing copy, in the order in which they are resolved.
pub fn copies_of(found: &Vec<Inspected>) -> (r: Vec<SkillCopy>)
    ensures
        copy_views(r@) == copies_in(found@, resolved_of(found@)),
{
    let resolved = resolve_existing_skill_dir(found);
    let ghost res = resolved_of(found@);
    let n: usize = found.len();
    let mut out: Vec<SkillCopy> = Vec::new();
    let mut i: usize = 0;
    proof {
        assert(copy_views(out@) =~= copies_in(found@.take(0), res));
    }
    while i < n
        invariant
            n == found@.len(),
            i <= n,
            text::opt_text(resolved) == res,
            copy_views(out@) == copies_in(found@.take(i as int), res),
        decreases n - i,
    {
        let p = &found[i];
        let ghost before = out@;
        proof {
            assert(found@.take(i + 1).drop_last() =~= found@.take(i as int));
            assert(found@.take(i + 1).last() == p);
        }
        if p.is_dir && p.has_skill_md {
            let version = match &p.meta {
                Some(b) => meta_version(b.as_slice()),
                None => None,
            };
            let is_resolved = match &resolved {
                Some(r) => same_as(r.as_str(), p.path.as_str()),
                None => false,
            };
            let c = SkillCopy {
                kind: p.kind,
                path: p.path.clone(),
                version,
                resolved: is_resolved,
            };
            let ghost added = c@;
            out.push(c);
            proof {
                assert(copy_views(out@) =~= copy_views(before).push(added));
            }
        }
        i += 1;
    }
    proof {
        assert(found@.take(n as int) =~= found@);
    }
    out
}

/// A copy as an entry of the payload.
pub open spec fn copy_shape(c: CopyView) -> Shape {
    json::object_of(
        seq![
            ("kind"@, Shape::Text(kind_name(c.kind))),
            ("path"@, Shape::Text(c.path)),
            ("version"@, json::text_or_null(c.version)),
            ("resolved"@, Shape::Bool(c.resolved)),
        ],
    )
}

/// The copies as a list of the payload.
pub open spec fn copies_shape(copies: Seq<CopyView>) -> Shape {
    Shape::List(copies.map_values(|c: CopyView| copy_shape(c)))
}

fn copy_value(c: &SkillCopy) -> (r: serde_json::Value)
    ensures
        json::shape(r) == copy_shape(c@),
{
    let fields = vec![
        ("kind", json::text(c.kind.name())),
        ("path", json::text(c.path.as_str())),
        ("version", json::optional_text(&c.version)),
        ("resolved", json::flag(c.resolved)),
    ];
    proof {
        assert(json::field_shapes(fields@) =~= seq![
            ("kind"@, Shape::Text(kind_name(c.kind))),
            ("path"@, Shape::Text(c.path@)),
            ("version"@, json::text_or_null(text::opt_text(c.version))),
            ("resolved"@, Shape::Bool(c.resolved)),
        ]);
    }
    json::object(fields)
}

fn copies_value(copies: &Vec<SkillCopy>) -> (r: serde_json::Value)
    ensures
        json::shape(r) == copies_shape(copy_views(copies@)),
{
    let n: usize = copies.len();
    let mut out: Vec<serde_json::Value> = Vec::new();
    let mut i: usize = 0;
    while i < n
        invariant
            n == copies@.len(),
            i <= n,
            out@.len() == i,
            forall|k: int| 0 <= k < i ==> json::shape(#[trigger] out@[k]) == copy_shape(copies@[k]@),
        decreases n - i,
    {
        out.push(copy_value(&copies[i]));
        i += 1;
    }
    proof {
        assert(json::shapes(out@) =~= copy_views(copies@).map_values(|c: CopyView| copy_shape(c)));
    }
    json::list(out)
}

/// A copy as a line of what is printed. An arrow marks the resolved one.
pub open spec fn copy_line(c: CopyView) -> Seq<char> {
    "  "@ + (if c.resolved {
        "→"@
    } else {
        " "@
    }) + " "@ + text::padded_right(kind_name(c.kind), 16) + " "@ + c.path + "  ("@ + (
    match c.version {
        Some(v) => v,
        None => "?"@,
    }) + ")\n"@
}

/// The copies as lines of what is printed.
pub open spec fn copy_lines(copies: Seq<CopyView>) -> Seq<char>
    decreases copies.len(),
{
    if copies.len() == 0 {
        Seq::empty()
    } else {
        copy_lines(copies.drop_last()) + copy_line(copies.last())
    }
}

fn print_copy(c: &SkillCopy) -> (r: String)
    ensures
        r@ == copy_line(c@),
{
    let mut s = "  ".to_owned();
    s.append(
        if c.resolved {
            "→"
        } else {
            " "
        },
    );
    s.append(" ");
    let kind = pad_right(c.kind.name(), 16);
    s.append(kind.as_str());
    s.append(" ");
    s.append(c.path.as_str());
    s.append("  (");
    match &c.version {
        Some(v) => {
            s.append(v.as_str());
        },
        None => {
            s.append("?");
        },
    }
    s.append(")\n");
    s
}

fn print_copies(out: &mut String, copies: &Vec<SkillCopy>)
    ensures
        final(out)@ == old(out)@ + copy_lines(copy_views(copies@)),
{
    let ghost start = out@;
    let ghost all = copy_views(copies@);
    let n: usize = copies.len();
    let mut i: usize = 0;
    proof {
        assert(start + copy_lines(all.take(0)) =~= start);
    }
    while i < n
        invariant
            n == copies@.len(),
            all == copy_views(copies@),
            i <= n,
            out@ == start + copy_lines(all.take(i as int)),
        decreases n - i,
    {
        proof {
            assert(all.take(i + 1).drop_last() =~= all.take(i as int));
            assert(all.take(i + 1).last() == copies@[i as int]@);
        }
        let line = print_copy(&copies[i]);
        out.append(line.as_str());
        proof {
            assert(out@ =~= start + copy_lines(all.take(i + 1)));
        }
        i += 1;
    }
    proof {
        assert(all.take(n as int) =~= all);
    }
}

/// An entry of a directory that holds skills.
#[derive(Debug)]
pub struct RootEntry {
    /// Its name, where that is text.
    pub name: Option<String>,
    pub is_dir: bool,
    pub has_skill_md: bool,
}

/// The directories that may hold skills, in the order in which they are looked at.
pub open spec fn roots_of(
    workspace: Option<Seq<char>>,
    skills_dir: Seq<char>,
    registry: Option<Seq<char>>,
) -> Seq<Seq<char>> {
    (match workspace {
        Some(ws) => seq![paths::joined(ws, "drafts"@), paths::joined(ws, "skills"@)],
        None => Seq::empty(),
    }) + seq![skills_dir] + (match registry {
        Some(repo) => seq![paths::joined(repo, "skills"@)],
        None => Seq::empty(),
    })
}

/// The directories that may hold skills.
pub fn roots(workspace: Option<&str>, skills_dir: &str, registry: Option<&str>) -> (r: Vec<String>)
    ensures
        text::texts(r@) == roots_of(
            text::opt_slice(workspace),
            skills_dir@,
            text::opt_slice(registry),
        ),
{
    let mut out: Vec<String> = Vec::new();
    if let Some(ws) = workspace {
        out.push(join(ws, "drafts"));
        out.push(join(ws, "skills"));
    }
    out.push(skills_dir.to_owned());
    if let Some(repo) = registry {
        out.push(join(repo, "skills"));
    }
    proof {
        assert(text::texts(out@) =~= roots_of(
            text::opt_slice(workspace),
            skills_dir@,
            text::opt_slice(registry),
        ));
    }
    out
}

/// The names of the entries that are skills.
pub open spec fn skill_names(entries: Seq<RootEntry>) -> Seq<Seq<char>>
    decreases entries.len(),
{
    if entries.len() == 0 {
        Seq::empty()
    } else {
        let before = skill_names(entries.drop_last());
        let e = entries.last();
        if e.is_dir && e.has_skill_md && e.name is Some {
            before.push(e.name->0@)
        } else {
            before
        }
    }
}

/// Every locally present skill, once, in ascending order.
pub fn local_slugs(entries: &Vec<RootEntry>) -> (r: Vec<String>)
    ensures
        text::texts(r@) == order::sorted_unique(skill_names(entries@)),
{
    let n: usize = entries.len();
    let mut names: Vec<String> = Vec::new();
    let mut i: usize = 0;
    proof {
        assert(text::texts(names@) =~= skill_names(entries@.take(0)));
    }
    while i < n
        invariant
            n == entries@.len(),
            i <= n,
            text::texts(names@) == skill_names(entries@.take(i as int)),
        decreases n - i,
    {
        let e = &entries[i];
        let ghost before = names@;
        proof {
            assert(entries@.take(i + 1).drop_last() =~= entries@.take(i as int));
            assert(entries@.take(i + 1).last() == e);
        }
        if e.is_dir && e.has_skill_md {
            if let Some(name) = &e.name {
                names.push(name.clone());
                proof {
                    assert(text::texts(names@) =~= text::texts(before).push(name@));
                }
            }
        }
        i += 1;
    }
    proof {
        assert(entries@.take(n as int) =~= entries@);
    }
    sort_unique(&names)
}

/// A skill of the overview.
#[derive(Debug)]
pub struct SkillRow {
    pub slug: String,
    pub copies: Vec<SkillCopy>,
    pub copies_disagree: bool,
}

/// What a row says.
pub struct RowView {
    pub slug: Seq<char>,
    pub copies: Seq<CopyView>,
    pub copies_disagree: bool,
}

impl View for SkillRow {
    type V = RowView;

    open spec fn view(&self) -> RowView {
        RowView {
            slug: self.slug@,
            copies: copy_views(self.copies@),
            copies_disagree: self.copies_disagree,
        }
    }
}

/// What the rows say.
pub open spec fn row_views(v: Seq<SkillRow>) -> Seq<RowView> {
    v.map_values(|r: SkillRow| r@)
}

/// The row of a skill.
pub open spec fn row_of(
    slug: Seq<char>,
    found: Seq<Inspected>,
    contents: Seq<Vec<SkillFile>>,
) -> RowView {
    RowView {
        slug,
        copies: copies_in(found, resolved_of(found)),
        copies_disagree: content::disagree(content::digests(contents)),
    }
}

/// The row of a skill, out of the places that were looked at and of what its copies hold, as far as
/// that can be told.
pub fn skill_row(slug: &str, found: &Vec<Inspected>, contents: &Vec<Vec<SkillFile>>) -> (r: SkillRow)
    ensures
        r@ == (RowView {
            slug: slug@,
            copies: copies_in(found@, resolved_of(found@)),
            copies_disagree: content::disagree(content::digests(contents@)),
        }),
        r@ == row_of(slug@, found@, contents@),
{
    SkillRow {
        slug: slug.to_owned(),
        copies: copies_of(found),
        copies_disagree: copies_disagree(contents),
    }
}

/// A row as an entry of the payload.
pub open spec fn row_shape(r: RowView) -> Shape {
    json::object_of(
        seq![
            ("slug"@, Shape::Text(r.slug)),
            ("copies"@, copies_shape(r.copies)),
            ("copies_disagree"@, Shape::Bool(r.copies_disagree)),
        ],
    )
}

/// The registry clone of a backend, where it has one.
pub open spec fn registry_of(b: BackendMode) -> Option<Seq<char>> {
    match b {
        BackendMode::Github { local_path, .. } => Some(local_path@),
        BackendMode::Cloud { .. } => None,
    }
}

/// The registry clone of a backend, where it has one.
pub fn registry_root(b: &BackendMode) -> (r: Option<&str>)
    ensures
        text::opt_slice(r) == registry_of(*b),
{
    match b {
        BackendMode::Github { local_path, .. } => Some(local_path.as_str()),
        BackendMode::Cloud { .. } => None,
    }
}

/// What the overview reports as JSON.
pub open spec fn overview_shape(
    b: BackendMode,
    workspace: Option<Seq<char>>,
    skills_dir: Seq<char>,
    rows: Seq<RowView>,
) -> Shape {
    json::object_of(
        seq![
            ("backend"@, Shape::Text(config::tag_of(b))),
            ("workspace"@, json::text_or_null(workspace)),
            ("home_pool"@, Shape::Text(skills_dir)),
            ("registry"@, json::text_or_null(registry_of(b))),
            ("skills"@, Shape::List(rows.map_values(|r: RowView| row_shape(r)))),
        ],
    )
}

fn row_value(r: &SkillRow) -> (v: serde_json::Value)
    ensures
        json::shape(v) == row_shape(r@),
{
    let fields = vec![
        ("slug", json::text(r.slug.as_str())),
        ("copies", copies_value(&r.copies)),
        ("copies_disagree", json::flag(r.copies_disagree)),
    ];
    proof {
        assert(json::field_shapes(fields@) =~= seq![
            ("slug"@, Shape::Text(r.slug@)),
            ("copies"@, copies_shape(copy_views(r.copies@))),
            ("copies_disagree"@, Shape::Bool(r.copies_disagree)),
        ]);
    }
    json::object(fields)
}

fn slice_value(o: Option<&str>) -> (v: serde_json::Value)
    ensures
        json::shape(v) == json::text_or_null(text::opt_slice(o)),
{
    match o {
        Some(s) => json::text(s),
        None => json::null(),
    }
}

/// What the overview reports as JSON.
pub fn overview_payload(
    b: &BackendMode,
    workspace: Option<&str>,
    skills_dir: &str,
    rows: &Vec<SkillRow>,
) -> (v: serde_json::Value)
    ensures
        json::shape(v) == overview_shape(
            *b,
            text::opt_slice(workspace),
            skills_dir@,
            row_views(rows@),
        ),
{
    let n: usize = rows.len();
    let mut out: Vec<serde_json::Value> = Vec::new();
    let mut i: usize = 0;
    while i < n
        invariant
            n == rows@.len(),
            i <= n,
            out@.len() == i,
            forall|k: int| 0 <= k < i ==> json::shape(#[trigger] out@[k]) == row_shape(rows@[k]@),
        decreases n - i,
    {
        out.push(row_value(&rows[i]));
        i += 1;
    }
    proof {
        assert(json::shapes(out@) =~= row_views(rows@).map_values(|r: RowView| row_shape(r)));
    }
    let fields = vec![
        ("backend", json::text(backend_tag(b))),
        ("workspace", slice_value(workspace)),
        ("home_pool", json::text(skills_dir)),
        ("registry", slice_value(registry_root(b))),
        ("skills", json::list(out)),
    ];
    proof {
        assert(json::field_shapes(fields@) =~= seq![
            ("backend"@, Shape::Text(config::tag_of(*b))),
            ("workspace"@, json::text_or_null(text::opt_slice(workspace))),
            ("home_pool"@, Shape::Text(skills_dir@)),
            ("registry"@, json::text_or_null(registry_of(*b))),
            ("skills"@, Shape::List(row_views(rows@).map_values(|r: RowView| row_shape(r)))),
        ]);
    }
    json::object(fields)
}

/// The rows as they are printed.
pub open spec fn row_lines(rows: Seq<RowView>) -> Seq<char>
    decreases rows.len(),
{
    if rows.len() == 0 {
        Seq::empty()
    } else {
        let r = rows.last();
        row_lines(rows.drop_last()) + r.slug + (if r.copies_disagree {
            "  ⚠ copies disagree\n"@
        } else {
            "\n"@
        }) + copy_lines(r.copies)
    }
}

/// What the overview prints.
pub open spec fn overview_text(rows: Seq<RowView>) -> Seq<char> {
    if rows.len() == 0 {
        "no local skills found\n"@
    } else {
        row_lines(rows)
            + "\n→ marks the copy `publish`/`run` resolve from this directory.\n`knack status <slug>` compares against the published version.\n"@
    }
}

/// What the overview prints.
pub fn overview_human(rows: &Vec<SkillRow>) -> (r: String)
    ensures
        r@ == overview_text(row_views(rows@)),
{
    let ghost all = row_views(rows@);
    let n: usize = rows.len();
    if n == 0 {
        return "no local skills found\n".to_owned();
    }
    let mut out = String::new();
    let mut i: usize = 0;
    while i < n
        invariant
            n == rows@.len(),
            all == row_views(rows@),
            i <= n,
            out@ == row_lines(all.take(i as int)),
        decreases n - i,
    {
        let row = &rows[i];
        proof {
            assert(all.take(i + 1).drop_last() =~= all.take(i as int));
            assert(all.take(i + 1).last() == row@);
        }
        out.append(row.slug.as_str());
        out.append(
            if row.copies_disagree {
                "  ⚠ copies disagree\n"
            } else {
                "\n"
            },
        );
        print_copies(&mut out, &row.copies);
        i += 1;
    }
    proof {
        assert(all.take(n as int) =~= all);
    }
    out.append(
        "\n→ marks the copy `publish`/`run` resolve from this directory.\n`knack status <slug>` compares against the published version.\n",
    );
    out
}

/// The error for a skill without a local copy.
pub open spec fn no_copy_error(slug: Seq<char>) -> CliErrorView {
    CliErrorView::NotFound("no local copy of `"@ + slug + "` found"@)
}

/// Whether a skill has a local copy to show.
pub fn check_copies(slug: &str, copies: &Vec<SkillCopy>) -> (r: Result<(), CliError>)
    ensures
        r is Ok <==> copies@.len() > 0,
        r matches Err(e) ==> e@ == no_copy_error(slug@),
{
    if copies.len() > 0 {
        return Ok(());
    }
    let mut m = "no local copy of `".to_owned();
    m.append(slug);
    m.append("` found");
    Err(CliError::NotFound(m))
}

/// The position of the first resolved copy.
pub open spec fn first_resolved(copies: Seq<CopyView>) -> Option<int>
    decreases copies.len(),
{
    if copies.len() == 0 {
        None
    } else {
        match first_resolved(copies.drop_last()) {
            Some(i) => Some(i),
            None => if copies.last().resolved {
                Some(copies.len() - 1)
            } else {
                None
            },
        }
    }
}

/// The position of the first registry copy.
pub open spec fn first_registry(copies: Seq<CopyView>) -> Option<int>
    decreases copies.len(),
{
    if copies.len() == 0 {
        None
    } else {
        match first_registry(copies.drop_last()) {
            Some(i) => Some(i),
            None => if copies.last().kind == CopyKind::Registry {
                Some(copies.len() - 1)
            } else {
                None
            },
        }
    }
}

/// The copy that is held against the published version, where there is one: the resolved copy, or
/// else, self-host only, the registry's working copy.
pub open spec fn compared(b: BackendMode, copies: Seq<CopyView>, is_published: bool) -> Option<
    int,
> {
    if !is_published {
        None
    } else {
        match first_resolved(copies) {
            Some(i) => Some(i),
            None => match b {
                BackendMode::Github { .. } => first_registry(copies),
                BackendMode::Cloud { .. } => None,
            },
        }
    }
}

/// The copy that is held against the published version.
pub fn copy_to_compare(
    b: &BackendMode,
    copies: &Vec<SkillCopy>,
    published: &Option<String>,
) -> (r: Option<usize>)
    ensures
        match r {
            Some(i) => i < copies@.len() && compared(*b, copy_views(copies@), *published is Some)
                == Some(i as int),
            None => compared(*b, copy_views(copies@), *published is Some) is None,
        },
{
    if published.is_none() {
        return None;
    }
    let ghost all = copy_views(copies@);
    let n: usize = copies.len();
    let mut resolved: Option<usize> = None;
    let mut registry: Option<usize> = None;
    let mut i: usize = 0;
    while i < n
        invariant
            n == copies@.len(),
            all == copy_views(copies@),
            i <= n,
            match resolved {
                Some(k) => k < i && first_resolved(all.take(i as int)) == Some(k as int),
                None => first_resolved(all.take(i as int)) is None,
            },
            match registry {
                Some(k) => k < i && first_registry(all.take(i as int)) == Some(k as int),
                None => first_registry(all.take(i as int)) is None,
            },
        decreases n - i,
    {
        proof {
            assert(all.take(i + 1).drop_last() =~= all.take(i as int));
            assert(all.take(i + 1).last() == copies@[i as int]@);
        }
        if resolved.is_none() && copies[i].resolved {
            resolved = Some(i);
        }
        if registry.is_none() && copies[i].kind == CopyKind::Registry {
            registry = Some(i);
        }
        i += 1;
    }
    proof {
        assert(all.take(n as int) =~= all);
    }
    match resolved {
        Some(k) => Some(k),
        None => match b {
            BackendMode::Github { .. } => registry,
            BackendMode::Cloud { .. } => None,
        },
    }
}

/// In which files a local copy differs from the version that was pulled.
pub fn github_changed(pulled: Result<SkillPackage, BackendError>, local: &Vec<SkillFile>) -> (r:
    Result<Vec<String>, CliError>)
    ensures
        r is Ok <==> pulled is Ok,
        r matches Err(e) ==> e@ == CliErrorView::Internal(
            "read published version: "@ + errors::backend_message_of(pulled->Err_0@),
        ),
        r matches Ok(changed) ==> text::texts(changed@) == content::changes_list(
            content::with_slash_paths(skill::files_of(pulled->Ok_0.files@)),
            skill::files_of(local@),
        ),
{
    match pulled {
        Ok(package) => Ok(changed_vs_tag(package.files, local)),
        Err(e) => {
            let mut m = "read published version: ".to_owned();
            m.append(e.message());
            Err(CliError::Internal(m))
        },
    }
}

/// The published version of a skill on the cloud, none where the cloud knows no such skill or no
/// version of it.
pub open spec fn cloud_published(skill: Option<CloudSkill>) -> Option<Seq<char>> {
    match skill {
        Some(s) => text::opt_text(s.current_version_semver),
        None => None,
    }
}

/// The published version of a skill on the cloud.
pub fn cloud_version(skill: &Option<CloudSkill>) -> (r: Option<String>)
    ensures
        text::opt_text(r) == cloud_published(*skill),
{
    match skill {
        Some(s) => match &s.current_version_semver {
            Some(latest) => Some(latest.clone()),
            None => None,
        },
        None => None,
    }
}

/// The name of a file, where its local text is not the published one, line ends aside. A local text
/// that cannot be read counts as empty.
pub open spec fn text_note(name: Seq<char>, local: Option<String>, remote: Seq<char>) -> Seq<
    Seq<char>,
> {
    let here = match local {
        Some(s) => s@,
        None => Seq::empty(),
    };
    if content::normalized(vstd::utf8::encode_utf8(here)) == content::normalized(
        vstd::utf8::encode_utf8(remote),
    ) {
        Seq::empty()
    } else {
        seq![name]
    }
}

fn note_text(out: &mut Vec<String>, name: &str, local: &Option<String>, remote: &String)
    ensures
        text::texts(final(out)@) == text::texts(old(out)@) + text_note(name@, *local, remote@),
{
    let ghost before = out@;
    let eq = match local {
        Some(s) => eol_eq(s.as_str().as_bytes(), remote.as_str().as_bytes()),
        None => {
            let none = String::new();
            proof {
                assert(none@ =~= Seq::empty());
            }
            eol_eq(none.as_str().as_bytes(), remote.as_str().as_bytes())
        },
    };
    if !eq {
        out.push(name.to_owned());
    }
    proof {
        assert(text::texts(out@) =~= text::texts(before) + text_note(name@, *local, remote@));
    }
}

/// The names of the three canonical text files whose local text is not the published one.
pub open spec fn cloud_notes(
    version: CloudVersion,
    skill_md: Option<String>,
    intuition_md: Option<String>,
    meta_yaml: Option<String>,
) -> Seq<Seq<char>> {
    text_note("SKILL.md"@, skill_md, version.skill_md@) + text_note(
        "intuition.md"@,
        intuition_md,
        version.intuition_md@,
    ) + text_note("meta.knack.yaml"@, meta_yaml, version.meta_yaml@)
}

/// In which of the three canonical text files a local copy differs from the version on the cloud.
pub fn cloud_changed(
    version: &CloudVersion,
    skill_md: &Option<String>,
    intuition_md: &Option<String>,
    meta_yaml: &Option<String>,
) -> (r: Vec<String>)
    ensures
        text::texts(r@) == text_note("SKILL.md"@, *skill_md, version.skill_md@) + text_note(
            "intuition.md"@,
            *intuition_md,
            version.intuition_md@,
        ) + text_note("meta.knack.yaml"@, *meta_yaml, version.meta_yaml@),
        text::texts(r@) == cloud_notes(*version, *skill_md, *intuition_md, *meta_yaml),
{
    let mut out: Vec<String> = Vec::new();
    note_text(&mut out, "SKILL.md", skill_md, &version.skill_md);
    note_text(&mut out, "intuition.md", intuition_md, &version.intuition_md);
    note_text(&mut out, "meta.knack.yaml", meta_yaml, &version.meta_yaml);
    proof {
        assert(text::texts(out@) =~= text_note("SKILL.md"@, *skill_md, version.skill_md@)
            + text_note("intuition.md"@, *intuition_md, version.intuition_md@) + text_note(
            "meta.knack.yaml"@,
            *meta_yaml,
            version.meta_yaml@,
        ));
    }
    out
}

/// What is known of one skill.
#[derive(Debug)]
pub struct SkillStatus {
    pub row: SkillRow,
    pub published: Option<String>,
    pub changed: Option<Vec<String>>,
}

/// What the status of one skill says.
pub struct StatusView {
    pub row: RowView,
    pub published: Option<Seq<char>>,
    pub changed: Option<Seq<Seq<char>>>,
}

/// The files that changed, where there was something to compare.
pub open spec fn changed_texts(changed: Option<Vec<String>>) -> Option<Seq<Seq<char>>> {
    match changed {
        Some(v) => Some(text::texts(v@)),
        None => None,
    }
}

impl View for SkillStatus {
    type V = StatusView;

    open spec fn view(&self) -> StatusView {
        StatusView {
            row: self.row@,
            published: text::opt_text(self.published),
            changed: changed_texts(self.changed),
        }
    }
}

/// The files that changed as an entry of the payload.
pub open spec fn changed_shape(changed: Option<Seq<Seq<char>>>) -> Shape {
    match changed {
        Some(files) => json::list_of_texts(files),
        None => Shape::Null,
    }
}

/// What the status of one skill reports as JSON.
pub open spec fn status_shape(b: BackendMode, s: StatusView) -> Shape {
    json::object_of(
        seq![
            ("slug"@, Shape::Text(s.row.slug)),
            ("backend"@, Shape::Text(config::tag_of(b))),
            ("copies"@, copies_shape(s.row.copies)),
            ("copies_disagree"@, Shape::Bool(s.row.copies_disagree)),
            ("published_version"@, json::text_or_null(s.published)),
            ("changed_vs_published"@, changed_shape(s.changed)),
        ],
    )
}

/// What the status of one skill reports as JSON.
pub fn status_payload(b: &BackendMode, s: &SkillStatus) -> (v: serde_json::Value)
    ensures
        json::shape(v) == status_shape(*b, s@),
{
    let changed = match &s.changed {
        Some(files) => json::text_list(files),
        None => json::null(),
    };
    let fields = vec![
        ("slug", json::text(s.row.slug.as_str())),
        ("backend", json::text(backend_tag(b))),
        ("copies", copies_value(&s.row.copies)),
        ("copies_disagree", json::flag(s.row.copies_disagree)),
        ("published_version", json::optional_text(&s.published)),
        ("changed_vs_published", changed),
    ];
    proof {
        assert(json::field_shapes(fields@) =~= seq![
            ("slug"@, Shape::Text(s.row.slug@)),
            ("backend"@, Shape::Text(config::tag_of(*b))),
            ("copies"@, copies_shape(copy_views(s.row.copies@))),
            ("copies_disagree"@, Shape::Bool(s.row.copies_disagree)),
            ("published_version"@, json::text_or_null(text::opt_text(s.published))),
            ("changed_vs_published"@, changed_shape(changed_texts(s.changed))),
        ]);
    }
    json::object(fields)
}

/// What the status of one skill prints.
pub open spec fn status_text(s: StatusView) -> Seq<char> {
    "skill: "@ + s.row.slug + "\n"@ + copy_lines(s.row.copies) + (
    if s.row.copies_disagree {
        "  ⚠ local copies disagree with each other\n"@
    } else {
        ""@
    }) + "  published: "@ + (match s.published {
        Some(v) => v,
        None => "(none)"@,
    }) + "\n"@ + (match s.changed {
        Some(files) => if files.len() == 0 {
            "  resolved copy matches the published version\n"@
        } else {
            "  resolved copy differs from published in: "@ + text::join_with(files, ", "@) + "\n"@
        },
        None => ""@,
    })
}

/// What the status of one skill prints.
pub fn status_human(s: &SkillStatus) -> (r: String)
    ensures
        r@ == status_text(s@),
{
    let mut out = "skill: ".to_owned();
    out.append(s.row.slug.as_str());
    out.append("\n");
    print_copies(&mut out, &s.row.copies);
    out.append(
        if s.row.copies_disagree {
            "  ⚠ local copies disagree with each other\n"
        } else {
            ""
        },
    );
    out.append("  published: ");
    match &s.published {
        Some(v) => {
            out.append(v.as_str());
        },
        None => {
            out.append("(none)");
        },
    }
    out.append("\n");
    match &s.changed {
        Some(files) => {
            if files.len() == 0 {
                out.append("  resolved copy matches the published version\n");
            } else {
                let mut m = "  resolved copy differs from published in: ".to_owned();
                let list = text::join(files, ", ");
                m.append(list.as_str());
                m.append("\n");
                out.append(m.as_str());
            }
        },
        None => {
            out.append("");
        },
    }
    out
}

/// The copy that `publish` and `run` take is the first existing one that is not the registry clone.
pub proof fn resolved_copy_is_the_first(found: Seq<Inspected>)
    ensures
        match resolved_of(found) {
            Some(p) => exists|i: int|
                0 <= i < found.len() && is_source(#[trigger] found[i]) && found[i].path@ == p && (
                forall|j: int| 0 <= j < i ==> !is_source(#[trigger] found[j])),
            None => forall|j: int| 0 <= j < found.len() ==> !is_source(#[trigger] found[j]),
        },
    decreases found.len(),
{
    if found.len() > 0 {
        let t = found.skip(1);
        if is_source(found[0]) {
        } else {
            resolved_copy_is_the_first(t);
            match resolved_of(t) {
                Some(p) => {
                    let i = choose|i: int|
                        0 <= i < t.len() && is_source(#[trigger] t[i]) && t[i].path@ == p && (
                        forall|j: int| 0 <= j < i ==> !is_source(#[trigger] t[j]));
                    assert(found[i + 1] == t[i]);
                    assert forall|j: int| 0 <= j < i + 1 implies !is_source(#[trigger] found[j]) by {
                        if j > 0 {
                            assert(t[j - 1] == found[j]);
                        }
                    }
                },
                None => {
                    assert forall|j: int| 0 <= j < found.len() implies !is_source(
                        #[trigger] found[j],
                    ) by {
                        if j > 0 {
                            assert(t[j - 1] == found[j]);
                        }
                    }
                },
            }
        }
    }
}

proof fn copies_hold(found: Seq<Inspected>, resolved: Option<Seq<char>>, i: int)
    requires
        0 <= i < found.len(),
        holds_copy(found[i]),
    ensures
        copies_in(found, resolved).contains(copy_in(found[i], resolved)),
    decreases found.len(),
{
    let t = found.drop_last();
    let before = copies_in(t, resolved);
    let after = copies_in(found, resolved);
    if i < t.len() {
        copies_hold(t, resolved, i);
        let k = choose|k: int| 0 <= k < before.len() && before[k] == copy_in(t[i], resolved);
        assert(after[k] == copy_in(found[i], resolved));
    } else {
        assert(after[before.len() as int] == copy_in(found[i], resolved));
    }
}

/// Where the copy that `publish` and `run` take has a `SKILL.md`, it is shown, and marked as the
/// resolved one.
pub proof fn resolved_copy_is_marked(found: Seq<Inspected>, i: int)
    requires
        0 <= i < found.len(),
        is_source(found[i]),
        found[i].has_skill_md,
        forall|j: int| 0 <= j < i ==> !is_source(#[trigger] found[j]),
    ensures
        copies_in(found, resolved_of(found)).contains(copy_in(found[i], resolved_of(found))),
        copy_in(found[i], resolved_of(found)).resolved,
{
    resolved_copy_is_the_first(found);
    let p = resolved_of(found)->0;
    let k = choose|k: int|
        0 <= k < found.len() && is_source(#[trigger] found[k]) && found[k].path@ == p && (forall|
            j: int,
        |
            0 <= j < k ==> !is_source(#[trigger] found[j]));
    assert(k == i);
    copies_hold(found, resolved_of(found), i);
}

/// The copy that `publish` and `run` take, told by kind: of the places that were looked at, the
/// first that is a directory and not the registry clone, whether it is a draft, a workspace skill or
/// the pool's.
pub proof fn any_directory_but_the_registry_is_taken(found: Seq<Inspected>, i: int)
    requires
        0 <= i < found.len(),
        found[i].is_dir,
        found[i].kind == CopyKind::WorkspaceDraft || found[i].kind == CopyKind::WorkspaceSkill
            || found[i].kind == CopyKind::HomePool,
        forall|j: int|
            0 <= j < i ==> !(#[trigger] found[j]).is_dir || found[j].kind == CopyKind::Registry,
    ensures
        resolved_of(found) == Some(found[i].path@),
    decreases found.len(),
{
    if i > 0 {
        let t = found.skip(1);
        assert(!found[0].is_dir || found[0].kind == CopyKind::Registry);
        assert(t[i - 1] == found[i]);
        assert forall|j: int| 0 <= j < i - 1 implies !(#[trigger] t[j]).is_dir || t[j].kind
            == CopyKind::Registry by {
            assert(t[j] == found[j + 1]);
        }
        any_directory_but_the_registry_is_taken(t, i - 1);
    }
}

proof fn nothing_is_taken(found: Seq<Inspected>)
    requires
        forall|j: int|
            0 <= j < found.len() ==> !(#[trigger] found[j]).is_dir || found[j].kind
                == CopyKind::Registry,
    ensures
        resolved_of(found) is None,
    decreases found.len(),
{
    if found.len() > 0 {
        let t = found.skip(1);
        assert(!found[0].is_dir || found[0].kind == CopyKind::Registry);
        assert forall|j: int| 0 <= j < t.len() implies !(#[trigger] t[j]).is_dir || t[j].kind
            == CopyKind::Registry by {
            assert(t[j] == found[j + 1]);
        }
        nothing_is_taken(t);
    }
}

/// Where the places were looked at in their order, the draft is taken if it is a directory; else the
/// workspace skill, if it is one; else the pool's copy, if it is one; and else none: the registry
/// clone is never taken.
pub proof fn draft_comes_before_skill_before_pool(
    draft: Inspected,
    skill: Inspected,
    pool: Inspected,
    registry: Inspected,
)
    requires
        draft.kind == CopyKind::WorkspaceDraft,
        skill.kind == CopyKind::WorkspaceSkill,
        pool.kind == CopyKind::HomePool,
        registry.kind == CopyKind::Registry,
    ensures
        resolved_of(seq![draft, skill, pool, registry]) == if draft.is_dir {
            Some(draft.path@)
        } else if skill.is_dir {
            Some(skill.path@)
        } else if pool.is_dir {
            Some(pool.path@)
        } else {
            None
        },
        resolved_of(seq![draft, skill, pool]) == resolved_of(seq![draft, skill, pool, registry]),
        resolved_of(seq![pool, registry]) == if pool.is_dir {
            Some(pool.path@)
        } else {
            None
        },
        resolved_of(seq![pool]) == resolved_of(seq![pool, registry]),
{
    let all = seq![draft, skill, pool, registry];
    let three = seq![draft, skill, pool];
    let two = seq![pool, registry];
    let one = seq![pool];
    if draft.is_dir {
        any_directory_but_the_registry_is_taken(all, 0);
        any_directory_but_the_registry_is_taken(three, 0);
    } else if skill.is_dir {
        any_directory_but_the_registry_is_taken(all, 1);
        any_directory_but_the_registry_is_taken(three, 1);
    } else if pool.is_dir {
        any_directory_but_the_registry_is_taken(all, 2);
        any_directory_but_the_registry_is_taken(three, 2);
    } else {
        nothing_is_taken(all);
        nothing_is_taken(three);
    }
    if pool.is_dir {
        any_directory_but_the_registry_is_taken(two, 0);
        any_directory_but_the_registry_is_taken(one, 0);
    } else {
        nothing_is_taken(two);
        nothing_is_taken(one);
    }
}

/// The places of a skill are, in this order, the draft and the skill of the workspace, where there
/// is one, the pool's copy, and the registry's, where there is one; each lies below the directory
/// that is looked through for the overview.
pub proof fn places_lie_below_the_roots(
    slug: Seq<char>,
    ws: Seq<char>,
    skills_dir: Seq<char>,
    repo: Seq<char>,
)
    ensures
        ({
            let all = places(slug, Some(ws), skills_dir, Some(repo));
            &&& all.len() == 4
            &&& all[0].0 == CopyKind::WorkspaceDraft && all[1].0 == CopyKind::WorkspaceSkill
            &&& all[2].0 == CopyKind::HomePool && all[3].0 == CopyKind::Registry
            &&& forall|i: int|
                0 <= i < 4 ==> (#[trigger] all[i]).1 == paths::joined(
                    roots_of(Some(ws), skills_dir, Some(repo))[i],
                    slug,
                )
        }),
        roots_of(Some(ws), skills_dir, Some(repo)) == seq![
            paths::joined(ws, "drafts"@),
            paths::joined(ws, "skills"@),
            skills_dir,
            paths::joined(repo, "skills"@),
        ],
        places(slug, None, skills_dir, None) == seq![
            (CopyKind::HomePool, paths::joined(skills_dir, slug)),
        ],
        roots_of(None, skills_dir, None) == seq![skills_dir],
        places(slug, None, skills_dir, Some(repo)) == places(
            slug,
            Some(ws),
            skills_dir,
            Some(repo),
        ).skip(2),
        places(slug, Some(ws), skills_dir, None) == places(
            slug,
            Some(ws),
            skills_dir,
            Some(repo),
        ).take(3),
{
    assert(roots_of(Some(ws), skills_dir, Some(repo)) =~= seq![
        paths::joined(ws, "drafts"@),
        paths::joined(ws, "skills"@),
        skills_dir,
        paths::joined(repo, "skills"@),
    ]);
    assert(places(slug, None, skills_dir, None) =~= seq![
        (CopyKind::HomePool, paths::joined(skills_dir, slug)),
    ]);
    assert(roots_of(None, skills_dir, None) =~= seq![skills_dir]);
    let all = places(slug, Some(ws), skills_dir, Some(repo));
    assert(places(slug, None, skills_dir, Some(repo)) =~= all.skip(2));
    assert(places(slug, Some(ws), skills_dir, None) =~= all.take(3));
}

/// The copies that are shown are those of the places that are directories with a `SKILL.md`, in
/// their order, each with its kind and path, and marked exactly when its path is the resolved one.
pub proof fn place_with_a_skill_is_shown(
    found: Seq<Inspected>,
    p: Inspected,
    resolved: Option<Seq<char>>,
)
    ensures
        p.is_dir && p.has_skill_md ==> {
            let all = copies_in(found.push(p), resolved);
            &&& all.len() == copies_in(found, resolved).len() + 1
            &&& all.drop_last() == copies_in(found, resolved)
            &&& all.last().kind == p.kind
            &&& all.last().path == p.path@
            &&& all.last().resolved <==> (resolved matches Some(r) && paths::same_path(r, p.path@))
            &&& p.meta is None ==> all.last().version is None
            &&& p.meta matches Some(b) ==> all.last().version == yaml::yaml_text(
                bom::without_bom(b@),
                "version"@,
            )
        },
        !(p.is_dir && p.has_skill_md) ==> copies_in(found.push(p), resolved) == copies_in(
            found,
            resolved,
        ),
        copies_in(Seq::empty(), resolved).len() == 0,
{
    assert(found.push(p).drop_last() =~= found);
    let before = copies_in(found, resolved);
    if holds_copy(p) {
        assert(before.push(copy_in(p, resolved)).drop_last() =~= before);
    }
}

proof fn first_of(copies: Seq<CopyView>)
    ensures
        match first_resolved(copies) {
            Some(i) => 0 <= i < copies.len() && copies[i].resolved && (forall|j: int|
                0 <= j < i ==> !(#[trigger] copies[j]).resolved),
            None => forall|j: int| 0 <= j < copies.len() ==> !(#[trigger] copies[j]).resolved,
        },
        match first_registry(copies) {
            Some(i) => 0 <= i < copies.len() && copies[i].kind == CopyKind::Registry && (forall|j: int|
                0 <= j < i ==> (#[trigger] copies[j]).kind != CopyKind::Registry),
            None => forall|j: int|
                0 <= j < copies.len() ==> (#[trigger] copies[j]).kind != CopyKind::Registry,
        },
    decreases copies.len(),
{
    if copies.len() > 0 {
        let t = copies.drop_last();
        first_of(t);
        assert forall|j: int| 0 <= j < t.len() implies #[trigger] copies[j] == t[j] by {}
    }
}

/// The copy that is held against the published version is the first marked one; where none is
/// marked, the registry's working copy, self-host only; and without a published version none.
pub proof fn resolved_copy_is_compared(b: BackendMode, copies: Seq<CopyView>)
    ensures
        compared(b, copies, false) is None,
        match compared(b, copies, true) {
            Some(i) => 0 <= i < copies.len() && if copies[i].resolved {
                forall|j: int| 0 <= j < i ==> !(#[trigger] copies[j]).resolved
            } else {
                b is Github && copies[i].kind == CopyKind::Registry && forall|j: int|
                    0 <= j < copies.len() ==> !(#[trigger] copies[j]).resolved
            },
            None => forall|j: int|
                0 <= j < copies.len() ==> !(#[trigger] copies[j]).resolved && (b is Github
                    ==> copies[j].kind != CopyKind::Registry),
        },
{
    first_of(copies);
}

/// A skill is listed exactly when some entry that is a directory with a `SKILL.md` has its name.
pub proof fn directories_with_a_skill_are_listed(entries: Seq<RootEntry>, name: Seq<char>)
    ensures
        order::sorted_unique(skill_names(entries)).contains(name) <==> exists|i: int|
            0 <= i < entries.len() && (#[trigger] entries[i]).is_dir && entries[i].has_skill_md
                && entries[i].name is Some && entries[i].name->0@ == name,
{
    order::sorted_unique_is_sorted(skill_names(entries));
    assert(order::sorted_unique(skill_names(entries)).contains(name) <==> skill_names(
        entries,
    ).contains(name));
    names_of_entries(entries, name);
}

proof fn names_of_entries(entries: Seq<RootEntry>, name: Seq<char>)
    ensures
        skill_names(entries).contains(name) <==> exists|i: int|
            0 <= i < entries.len() && (#[trigger] entries[i]).is_dir && entries[i].has_skill_md
                && entries[i].name is Some && entries[i].name->0@ == name,
    decreases entries.len(),
{
    if entries.len() > 0 {
        let t = entries.drop_last();
        let n = entries.len() - 1;
        names_of_entries(t, name);
        let before = skill_names(t);
        let all = skill_names(entries);
        if all.contains(name) {
            let k = choose|k: int| 0 <= k < all.len() && all[k] == name;
            if k < before.len() {
                assert(before[k] == name);
                let i = choose|i: int|
                    0 <= i < t.len() && (#[trigger] t[i]).is_dir && t[i].has_skill_md && t[i].name is Some
                        && t[i].name->0@ == name;
                assert(entries[i] == t[i]);
            } else {
                assert(entries[n].is_dir);
            }
        }
        if exists|i: int|
            0 <= i < entries.len() && (#[trigger] entries[i]).is_dir && entries[i].has_skill_md
                && entries[i].name is Some && entries[i].name->0@ == name {
            let i = choose|i: int|
                0 <= i < entries.len() && (#[trigger] entries[i]).is_dir && entries[i].has_skill_md
                    && entries[i].name is Some && entries[i].name->0@ == name;
            if i < n {
                assert(t[i] == entries[i]);
                let k = choose|k: int| 0 <= k < before.len() && before[k] == name;
                assert(all[k] == name);
            } else {
                assert(all[before.len() as int] == name);
            }
        }
    }
}

/// Held against the cloud, each of the three text files is reported under its own name exactly when
/// its local text is not the published one, line ends aside; a text that cannot be read counts as
/// empty.
pub proof fn cloud_texts_are_reported_under_their_names(
    v: CloudVersion,
    skill_md: Option<String>,
    intuition_md: Option<String>,
    meta_yaml: Option<String>,
)
    ensures
        ({
            let notes = cloud_notes(v, skill_md, intuition_md, meta_yaml);
            let bytes = |s: Seq<char>| content::normalized(vstd::utf8::encode_utf8(s));
            let here = |o: Option<String>|
                match o {
                    Some(s) => s@,
                    None => Seq::<char>::empty(),
                };
            &&& notes.contains("SKILL.md"@) <==> bytes(here(skill_md)) != bytes(v.skill_md@)
            &&& notes.contains("intuition.md"@) <==> bytes(here(intuition_md)) != bytes(
                v.intuition_md@,
            )
            &&& notes.contains("meta.knack.yaml"@) <==> bytes(here(meta_yaml)) != bytes(v.meta_yaml@)
            &&& notes.len() <= 3
        }),
{
    reveal_strlit("SKILL.md");
    reveal_strlit("intuition.md");
    reveal_strlit("meta.knack.yaml");
    assert("SKILL.md"@.len() == 8);
    assert("intuition.md"@.len() == 12);
    assert("meta.knack.yaml"@.len() == 15);
    let a = text_note("SKILL.md"@, skill_md, v.skill_md@);
    let b = text_note("intuition.md"@, intuition_md, v.intuition_md@);
    let c = text_note("meta.knack.yaml"@, meta_yaml, v.meta_yaml@);
    let all = a + b + c;
    assert(all == cloud_notes(v, skill_md, intuition_md, meta_yaml));
    if a.len() > 0 {
        assert(all[0] == "SKILL.md"@);
    }
    if b.len() > 0 {
        assert(all[a.len() as int] == "intuition.md"@);
    }
    if c.len() > 0 {
        assert(all[(a.len() + b.len()) as int] == "meta.knack.yaml"@);
    }
    assert forall|i: int| 0 <= i < all.len() implies ({
        ||| i < a.len() && #[trigger] all[i] == "SKILL.md"@
        ||| a.len() <= i < a.len() + b.len() && all[i] == "intuition.md"@
        ||| a.len() + b.len() <= i && all[i] == "meta.knack.yaml"@
    }) by {}
}

/// The status of a skill tells its copies, whether they disagree, the published version and the files that
/// changed, each under its own name.
pub proof fn status_tells_the_skill(b: BackendMode, s: StatusView)
    ensures
        json::field(status_shape(b, s), "slug"@) == Some(Shape::Text(s.row.slug)),
        json::field(status_shape(b, s), "backend"@) == Some(Shape::Text(config::tag_of(b))),
        json::field(status_shape(b, s), "copies"@) == Some(copies_shape(s.row.copies)),
        json::field(status_shape(b, s), "copies_disagree"@) == Some(Shape::Bool(s.row.copies_disagree)),
        json::field(status_shape(b, s), "published_version"@) == Some(json::text_or_null(s.published)),
        json::field(status_shape(b, s), "changed_vs_published"@) == Some(changed_shape(s.changed)),
{
    reveal_strlit("slug");
    reveal_strlit("backend");
    reveal_strlit("copies");
    reveal_strlit("copies_disagree");
    reveal_strlit("published_version");
    reveal_strlit("changed_vs_published");
    assert("slug"@.len() == 4 && "backend"@.len() == 7 && "copies"@.len() == 6 && "copies_disagree"@.len() == 15 && "published_version"@.len() == 17 && "changed_vs_published"@.len() == 20);
    let f = seq![
        ("slug"@, Shape::Text(s.row.slug)),
        ("backend"@, Shape::Text(config::tag_of(b))),
        ("copies"@, copies_shape(s.row.copies)),
        ("copies_disagree"@, Shape::Bool(s.row.copies_disagree)),
        ("published_version"@, json::text_or_null(s.published)),
        ("changed_vs_published"@, changed_shape(s.changed)),
    ];
    assert(status_shape(b, s) == json::object_of(f));
    json::field_is_held(f, 0);
    json::field_is_held(f, 1);
    json::field_is_held(f, 2);
    json::field_is_held(f, 3);
    json::field_is_held(f, 4);
    json::field_is_held(f, 5);
}

/// A copy tells its kind, its path, its version and whether it is the resolved one, each under its own
/// name.
pub proof fn copy_tells_where_it_is(c: CopyView)
    ensures
        json::field(copy_shape(c), "kind"@) == Some(Shape::Text(kind_name(c.kind))),
        json::field(copy_shape(c), "path"@) == Some(Shape::Text(c.path)),
        json::field(copy_shape(c), "version"@) == Some(json::text_or_null(c.version)),
        json::field(copy_shape(c), "resolved"@) == Some(Shape::Bool(c.resolved)),
{
    reveal_strlit("kind");
    reveal_strlit("path");
    reveal_strlit("version");
    reveal_strlit("resolved");
    assert("kind"@.len() == 4 && "path"@.len() == 4 && "version"@.len() == 7 && "resolved"@.len() == 8);
    assert("kind"@[0] == 'k' && "path"@[0] == 'p');
    let f = seq![
        ("kind"@, Shape::Text(kind_name(c.kind))),
        ("path"@, Shape::Text(c.path)),
        ("version"@, json::text_or_null(c.version)),
        ("resolved"@, Shape::Bool(c.resolved)),
    ];
    assert(copy_shape(c) == json::object_of(f));
    json::field_is_held(f, 0);
    json::field_is_held(f, 1);
    json::field_is_held(f, 2);
    json::field_is_held(f, 3);
}

/// A row of the overview tells the skill, its copies and whether they disagree, each under its own name.
pub proof fn row_tells_the_copies(r: RowView)
    ensures
        json::field(row_shape(r), "slug"@) == Some(Shape::Text(r.slug)),
        json::field(row_shape(r), "copies"@) == Some(copies_shape(r.copies)),
        json::field(row_shape(r), "copies_disagree"@) == Some(Shape::Bool(r.copies_disagree)),
{
    reveal_strlit("slug");
    reveal_strlit("copies");
    reveal_strlit("copies_disagree");
    assert("slug"@.len() == 4 && "copies"@.len() == 6 && "copies_disagree"@.len() == 15);
    let f = seq![
        ("slug"@, Shape::Text(r.slug)),
        ("copies"@, copies_shape(r.copies)),
        ("copies_disagree"@, Shape::Bool(r.copies_disagree)),
    ];
    assert(row_shape(r) == json::object_of(f));
    json::field_is_held(f, 0);
    json::field_is_held(f, 1);
    json::field_is_held(f, 2);
}

/// The overview tells the backend, the workspace, the pool, the registry and the skills, each under its
/// own name.
pub proof fn overview_tells_the_places(b: BackendMode, workspace: Option<Seq<char>>, skills_dir: Seq<char>, rows: Seq<RowView>)
    ensures
        json::field(overview_shape(b, workspace, skills_dir, rows), "backend"@) == Some(Shape::Text(config::tag_of(b))),
        json::field(overview_shape(b, workspace, skills_dir, rows), "workspace"@) == Some(json::text_or_null(workspace)),
        json::field(overview_shape(b, workspace, skills_dir, rows), "home_pool"@) == Some(Shape::Text(skills_dir)),
        json::field(overview_shape(b, workspace, skills_dir, rows), "registry"@) == Some(json::text_or_null(registry_of(b))),
        json::field(overview_shape(b, workspace, skills_dir, rows), "skills"@) == Some(Shape::List(rows.map_values(|r: RowView| row_shape(r)))),
{
    reveal_strlit("backend");
    reveal_strlit("workspace");
    reveal_strlit("home_pool");
    reveal_strlit("registry");
    reveal_strlit("skills");
    assert("backend"@.len() == 7 && "workspace"@.len() == 9 && "home_pool"@.len() == 9 && "registry"@.len() == 8 && "skills"@.len() == 6);
    assert("workspace"@[0] == 'w' && "home_pool"@[0] == 'h');
    let f = seq![
        ("backend"@, Shape::Text(config::tag_of(b))),
        ("workspace"@, json::text_or_null(workspace)),
        ("home_pool"@, Shape::Text(skills_dir)),
        ("registry"@, json::text_or_null(registry_of(b))),
        ("skills"@, Shape::List(rows.map_values(|r: RowView| row_shape(r)))),
    ];
    assert(overview_shape(b, workspace, skills_dir, rows) == json::object_of(f));
    json::field_is_held(f, 0);
    json::field_is_held(f, 1);
    json::field_is_held(f, 2);
    json::field_is_held(f, 3);
    json::field_is_held(f, 4);
}

/// A copy is printed behind an arrow exactly when it is the resolved one, with its path and its
/// version, a question mark where it states none.
pub proof fn arrow_marks_the_resolved_copy(c: CopyView)
    ensures
        copy_line(c).len() >= 3,
        copy_line(c)[2] == if c.resolved {
            '→'
        } else {
            ' '
        },
        text::occurs_in(copy_line(c), c.path),
        c.version matches Some(v) ==> (seq!['('] + v + seq![')', '\n']).is_suffix_of(copy_line(c)),
        c.version is None ==> seq!['(', '?', ')', '\n'].is_suffix_of(copy_line(c)),
{
    reveal_strlit("  ");
    reveal_strlit("→");
    reveal_strlit(" ");
    reveal_strlit("  (");
    reveal_strlit("?");
    reveal_strlit(")\n");
    let mark = if c.resolved {
        "→"@
    } else {
        " "@
    };
    let v = match c.version {
        Some(v) => v,
        None => "?"@,
    };
    let head = "  "@ + mark + " "@ + text::padded_right(kind_name(c.kind), 16) + " "@;
    let line = copy_line(c);
    assert(line =~= head + c.path + ("  ("@ + v + ")\n"@));
    text::occurs_between(line, c.path);
    assert(head[2] == mark[0]);
    assert(line[2] == head[2]);
    let tail = seq!['('] + v + seq![')', '\n'];
    assert(tail =~= line.subrange(line.len() - tail.len(), line.len() as int));
    if c.version is None {
        assert(tail =~= seq!['(', '?', ')', '\n']);
    }
}

/// What is printed of a skill says whether its copies disagree, which version is published, and, where
/// something was compared, that nothing differs or each file that does.
pub proof fn status_says_what_differs(s: StatusView, i: int)
    ensures
        text::occurs_in(status_text(s), s.row.slug),
        text::occurs_in(status_text(s), copy_lines(s.row.copies)),
        s.row.copies_disagree ==> text::occurs_in(
            status_text(s),
            "  ⚠ local copies disagree with each other\n"@,
        ),
        s.published matches Some(v) ==> text::occurs_in(status_text(s), "  published: "@ + v + "\n"@),
        s.published is None ==> text::occurs_in(status_text(s), "  published: "@ + "(none)"@ + "\n"@),
        s.changed matches Some(files) && files.len() == 0 ==> text::occurs_in(
            status_text(s),
            "  resolved copy matches the published version\n"@,
        ),
        s.changed matches Some(files) && 0 <= i < files.len() ==> text::occurs_in(
            status_text(s),
            s.changed->0[i],
        ),
{
    let a = "skill: "@ + s.row.slug;
    let lines = copy_lines(s.row.copies);
    let warn = if s.row.copies_disagree {
        "  ⚠ local copies disagree with each other\n"@
    } else {
        ""@
    };
    let version = match s.published {
        Some(v) => v,
        None => "(none)"@,
    };
    let told = "  published: "@ + version + "\n"@;
    let head = a + "\n"@ + lines + warn;
    let last = changed_text(s.changed);
    assert(status_text(s) =~= head + told + last);
    text::occurs_in_what_is_made_with_it(s.row.slug, "skill: "@, s.row.slug);
    text::occurs_in_what_is_made_with_it(a, "\n"@, s.row.slug);
    text::occurs_in_what_is_made_with_it(a + "\n"@, lines, s.row.slug);
    text::occurs_in_what_is_made_with_it(a + "\n"@ + lines, warn, s.row.slug);
    text::occurs_in_what_is_made_with_it(lines, a + "\n"@, lines);
    text::occurs_in_what_is_made_with_it(a + "\n"@ + lines, warn, lines);
    text::occurs_in_what_is_made_with_it(warn, a + "\n"@ + lines, warn);
    text::occurs_in_what_is_made_with_it(head, told, s.row.slug);
    text::occurs_in_what_is_made_with_it(head, told, lines);
    text::occurs_in_what_is_made_with_it(head, told, warn);
    text::occurs_in_what_is_made_with_it(told, head, told);
    text::occurs_in_what_is_made_with_it(head + told, last, s.row.slug);
    text::occurs_in_what_is_made_with_it(head + told, last, lines);
    text::occurs_in_what_is_made_with_it(head + told, last, warn);
    text::occurs_in_what_is_made_with_it(head + told, last, told);
    text::occurs_in_what_is_made_with_it(last, head + told, last);
    if let Some(files) = s.changed {
        if 0 <= i < files.len() {
            let list = text::join_with(files, ", "@);
            let intro = "  resolved copy differs from published in: "@;
            text::join_names_each(files, ", "@, i);
            text::occurs_in_what_is_made_with_it(list, intro, files[i]);
            text::occurs_in_what_is_made_with_it(intro + list, "\n"@, files[i]);
            text::occurs_in_what_is_made_with_it(last, head + told, files[i]);
        }
    }
}

spec fn changed_text(changed: Option<Seq<Seq<char>>>) -> Seq<char> {
    match changed {
        Some(files) => if files.len() == 0 {
            "  resolved copy matches the published version\n"@
        } else {
            "  resolved copy differs from published in: "@ + text::join_with(files, ", "@) + "\n"@
        },
        None => ""@,
    }
}

/// Rows are printed one behind the other, each with its skill, a warning exactly when its copies
/// disagree, and its copies; copies are printed one behind the other.
pub proof fn rows_are_printed_in_order(rows: Seq<RowView>, r: RowView, copies: Seq<CopyView>, c: CopyView)
    ensures
        row_lines(rows.push(r)) == row_lines(rows) + r.slug + (if r.copies_disagree {
            "  ⚠ copies disagree\n"@
        } else {
            "\n"@
        }) + copy_lines(r.copies),
        copy_lines(copies.push(c)) == copy_lines(copies) + copy_line(c),
        row_lines(Seq::empty()).len() == 0,
        copy_lines(Seq::empty()).len() == 0,
        overview_text(Seq::empty()) == "no local skills found\n"@,
        row_lines(rows.push(r)).is_prefix_of(overview_text(rows.push(r))),
{
    assert(rows.push(r).drop_last() =~= rows);
    assert(copies.push(c).drop_last() =~= copies);
    let lines = row_lines(rows.push(r));
    let all = overview_text(rows.push(r));
    assert(lines =~= all.subrange(0, lines.len() as int));
}

/// Each kind of place has a name of its own.
pub proof fn kinds_have_their_names(a: CopyKind, b: CopyKind)
    ensures
        kind_name(a) == kind_name(b) ==> a == b,
        kind_name(CopyKind::WorkspaceDraft) == "workspace-draft"@,
        kind_name(CopyKind::WorkspaceSkill) == "workspace-skill"@,
        kind_name(CopyKind::HomePool) == "home-pool"@,
        kind_name(CopyKind::Registry) == "registry"@,
{
    reveal_strlit("workspace-draft");
    reveal_strlit("workspace-skill");
    reveal_strlit("home-pool");
    reveal_strlit("registry");
    assert("workspace-draft"@.len() == 15 && "workspace-draft"@[10] == 'd');
    assert("workspace-skill"@.len() == 15 && "workspace-skill"@[10] == 's');
    assert("home-pool"@.len() == 9);
    assert("registry"@.len() == 8);
}

/// The row of a skill shows the copy that `publish` and `run` take, marked, where it has a
/// `SKILL.md`; and it says that copies disagree exactly when one of them differs from another at some
/// path.
pub proof fn row_marks_the_copy_that_is_taken(
    slug: Seq<char>,
    found: Seq<Inspected>,
    contents: Seq<Vec<SkillFile>>,
    i: int,
)
    ensures
        row_of(slug, found, contents).slug == slug,
        0 <= i < found.len() && found[i].is_dir && found[i].kind != CopyKind::Registry
            && found[i].has_skill_md && (forall|j: int|
            0 <= j < i ==> !(#[trigger] found[j]).is_dir || found[j].kind == CopyKind::Registry)
            ==> exists|k: int|
            0 <= k < row_of(slug, found, contents).copies.len() && (#[trigger] row_of(
                slug,
                found,
                contents,
            ).copies[k]).resolved && row_of(slug, found, contents).copies[k].path == found[i].path@
                && row_of(slug, found, contents).copies[k].kind == found[i].kind,
        row_of(slug, found, contents).copies_disagree <==> exists|a: int, b: int, p: Seq<char>|
            0 <= a < contents.len() && 0 <= b < contents.len() && #[trigger] content::differs_at(
                content::digests(contents)[a],
                content::digests(contents)[b],
                p,
            ),
{
    content::copies_disagree_at_a_path(content::digests(contents));
    let row = row_of(slug, found, contents);
    if 0 <= i < found.len() && found[i].is_dir && found[i].kind != CopyKind::Registry
        && found[i].has_skill_md && (forall|j: int|
        0 <= j < i ==> !(#[trigger] found[j]).is_dir || found[j].kind == CopyKind::Registry) {
        assert forall|j: int| 0 <= j < i implies !is_source(#[trigger] found[j]) by {
            assert(!found[j].is_dir || found[j].kind == CopyKind::Registry);
        }
        resolved_copy_is_marked(found, i);
        let c = copy_in(found[i], resolved_of(found));
        let k = choose|k: int| 0 <= k < row.copies.len() && row.copies[k] == c;
        assert(row.copies[k].resolved);
    }
}

} // verus!
