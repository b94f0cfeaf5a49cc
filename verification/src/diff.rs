//! `knack diff`: two versions of a skill, or a version and a local folder, line by line.
//!
//! `SKILL.md` and `meta.knack.yaml` are always compared; `intuition.md` shows up only where either
//! side has one.
use vstd::prelude::*;

use crate::cloud;
use crate::cloud::{unknown_skill, CloudVersion};
use crate::errors;
use crate::errors::{user, BackendError, BackendErrorView, CliError, CliErrorView};
use crate::json;
use crate::json::Shape;
use crate::paths;
use crate::skill;
use crate::skill::SkillPackage;
use crate::text;
use crate::text::{ends_with, same, split_once, trim_leading};
use crate::tree;
use crate::tree::find_first;
use crate::utf8;
use crate::utf8::show;

verus! {

/// The two sides as they were asked for: `monthly-close@1.0.0`, or a local skill folder path.
#[derive(Debug)]
pub struct DiffArgs {
    pub left: String,
    pub right: String,
}

/// One side of the diff.
#[derive(Debug)]
pub enum SideSpec {
    Version { slug: String, ver: String },
    Local(String),
}

/// What one side of the diff says.
pub enum SideSpecView {
    Version { slug: Seq<char>, ver: Seq<char> },
    Local(Seq<char>),
}

impl View for SideSpec {
    type V = SideSpecView;

    open spec fn view(&self) -> SideSpecView {
        match self {
            SideSpec::Version { slug, ver } => SideSpecView::Version { slug: slug@, ver: ver@ },
            SideSpec::Local(p) => SideSpecView::Local(p@),
        }
    }
}

/// The three comparable text files of one side, plus its display label.
#[derive(Debug)]
pub struct SideTexts {
    pub label: String,
    pub skill_md: String,
    pub intuition_md: String,
    pub meta_yaml: String,
}

/// What the texts of one side say.
pub struct SideTextsView {
    pub label: Seq<char>,
    pub skill_md: Seq<char>,
    pub intuition_md: Seq<char>,
    pub meta_yaml: Seq<char>,
}

impl View for SideTexts {
    type V = SideTextsView;

    open spec fn view(&self) -> SideTextsView {
        SideTextsView {
            label: self.label@,
            skill_md: self.skill_md@,
            intuition_md: self.intuition_md@,
            meta_yaml: self.meta_yaml@,
        }
    }
}

/// Whether the argument names a version: something on either side of its first `@`.
pub open spec fn names_version(s: Seq<char>) -> bool {
    text::cut_at_first(s, '@') matches Some(cut) && cut.0.len() > 0 && cut.1.len() > 0
}

/// The error for an argument that names neither a version nor a folder.
pub open spec fn usage_error(s: Seq<char>) -> CliErrorView {
    CliErrorView::User {
        code: "DIFF_USAGE"@,
        message: "expected `<slug>@<semver>` or a local skill folder path, got `"@ + s + "`"@,
        hint: Some(
            "e.g. `knack diff monthly-close@1.0.0 monthly-close@1.1.0` or `knack diff monthly-close@1.0.0 ./monthly-close`"@,
        ),
    }
}

/// What an argument asks for. A real directory wins over the `@`.
pub open spec fn side_of(s: Seq<char>, is_dir: bool) -> Result<SideSpecView, CliErrorView> {
    if is_dir {
        Ok(SideSpecView::Local(s))
    } else if names_version(s) {
        let cut = text::cut_at_first(s, '@')->0;
        Ok(SideSpecView::Version { slug: cut.0, ver: text::without_leading(cut.1, 'v') })
    } else {
        Err(usage_error(s))
    }
}

/// What a side that was parsed says.
pub open spec fn side_result(r: Result<SideSpec, CliError>) -> Result<SideSpecView, CliErrorView> {
    match r {
        Ok(s) => Ok(s@),
        Err(e) => Err(e@),
    }
}

/// What an argument asks for; `is_dir` says whether it is the path of a directory.
pub fn parse_side(s: &str, is_dir: bool) -> (r: Result<SideSpec, CliError>)
    ensures
        side_result(r) == side_of(s@, is_dir),
{
    if is_dir {
        return Ok(SideSpec::Local(s.to_owned()));
    }
    if let Some((slug, ver)) = split_once(s, '@') {
        if !slug.is_empty() && !ver.is_empty() {
            return Ok(
                SideSpec::Version { slug: slug.to_owned(), ver: trim_leading(ver, 'v').to_owned() },
            );
        }
    }
    let mut m = "expected `<slug>@<semver>` or a local skill folder path, got `".to_owned();
    m.append(s);
    m.append("`");
    Err(
        user(
            "DIFF_USAGE",
            m,
            Some(
                "e.g. `knack diff monthly-close@1.0.0 monthly-close@1.1.0` or `knack diff monthly-close@1.0.0 ./monthly-close`",
            ),
        ),
    )
}

/// What keeps two sides from being compared, if anything: versions of two skills, or two folders.
pub open spec fn sides_error(left: SideSpecView, right: SideSpecView) -> Option<CliErrorView> {
    match (left, right) {
        (
            SideSpecView::Version { slug: l, .. },
            SideSpecView::Version { slug: r, .. },
        ) => if l == r {
            None
        } else {
            Some(
                CliErrorView::User {
                    code: "DIFF_DIFFERENT_SKILLS"@,
                    message: "left and right must be the same skill slug"@,
                    hint: Some("e.g. `knack diff foo@1.0.0 foo@1.1.0`"@),
                },
            )
        },
        (SideSpecView::Local(_), SideSpecView::Local(_)) => Some(
            CliErrorView::User {
                code: "DIFF_USAGE"@,
                message: "at most one side can be a local folder"@,
                hint: Some(
                    "compare a local folder against a published version: `knack diff foo@1.0.0 ./path/to/foo`"@,
                ),
            },
        ),
        _ => None,
    }
}

/// Whether two sides can be compared.
pub fn check_sides(left: &SideSpec, right: &SideSpec) -> (r: Result<(), CliError>)
    ensures
        r is Ok <==> sides_error(left@, right@) is None,
        r matches Err(e) ==> Some(e@) == sides_error(left@, right@),
{
    match (left, right) {
        (SideSpec::Version { slug: l, .. }, SideSpec::Version { slug: r, .. }) => {
            if same(l.as_str(), r.as_str()) {
                Ok(())
            } else {
                Err(
                    user(
                        "DIFF_DIFFERENT_SKILLS",
                        "left and right must be the same skill slug".to_owned(),
                        Some("e.g. `knack diff foo@1.0.0 foo@1.1.0`"),
                    ),
                )
            }
        },
        (SideSpec::Local(_), SideSpec::Local(_)) => Err(
            user(
                "DIFF_USAGE",
                "at most one side can be a local folder".to_owned(),
                Some(
                    "compare a local folder against a published version: `knack diff foo@1.0.0 ./path/to/foo`",
                ),
            ),
        ),
        _ => Ok(()),
    }
}

/// What two arguments ask for together: each side parsed, the left one first, and then held against
/// the other.
pub open spec fn sides_of(args: DiffArgs, left_is_dir: bool, right_is_dir: bool) -> Result<
    (SideSpecView, SideSpecView),
    CliErrorView,
> {
    match (side_of(args.left@, left_is_dir), side_of(args.right@, right_is_dir)) {
        (Err(e), _) => Err(e),
        (_, Err(e)) => Err(e),
        (Ok(l), Ok(r)) => match sides_error(l, r) {
            Some(e) => Err(e),
            None => Ok((l, r)),
        },
    }
}

/// The two sides to load.
pub fn parse_sides(args: &DiffArgs, left_is_dir: bool, right_is_dir: bool) -> (r: Result<
    (SideSpec, SideSpec),
    CliError,
>)
    ensures
        match r {
            Ok(s) => Ok::<(SideSpecView, SideSpecView), CliErrorView>((s.0@, s.1@)),
            Err(e) => Err(e@),
        } == sides_of(*args, left_is_dir, right_is_dir),
{
    let left = match parse_side(args.left.as_str(), left_is_dir) {
        Ok(s) => s,
        Err(e) => {
            return Err(e);
        },
    };
    let right = match parse_side(args.right.as_str(), right_is_dir) {
        Ok(s) => s,
        Err(e) => {
            return Err(e);
        },
    };
    match check_sides(&left, &right) {
        Ok(()) => Ok((left, right)),
        Err(e) => Err(e),
    }
}

/// The text, or nothing where there is none.
pub open spec fn text_or_empty(o: Option<String>) -> Seq<char> {
    match o {
        Some(s) => s@,
        None => Seq::empty(),
    }
}

fn or_empty(o: Option<String>) -> (r: String)
    ensures
        r@ == text_or_empty(o),
{
    match o {
        Some(s) => s,
        None => String::new(),
    }
}

/// What a side that was loaded says.
pub open spec fn texts_result(r: Result<SideTexts, CliError>) -> Result<
    SideTextsView,
    CliErrorView,
> {
    match r {
        Ok(s) => Ok(s@),
        Err(e) => Err(e@),
    }
}

/// The side of a local folder.
pub open spec fn local_side(
    dir: Seq<char>,
    skill_md: Option<String>,
    intuition_md: Option<String>,
    meta_yaml: Option<String>,
) -> SideTextsView {
    SideTextsView {
        label: dir + " (local)"@,
        skill_md: text_or_empty(skill_md),
        intuition_md: text_or_empty(intuition_md),
        meta_yaml: text_or_empty(meta_yaml),
    }
}

/// The side of a version that was pulled.
pub open spec fn version_side(slug: Seq<char>, ver: Seq<char>, p: SkillPackage) -> SideTextsView {
    SideTextsView {
        label: version_label(slug, ver),
        skill_md: package_text(p, "SKILL.md"@),
        intuition_md: package_text(p, "intuition.md"@),
        meta_yaml: package_text(p, "meta.knack.yaml"@),
    }
}

/// The side of a version as the cloud serves it.
pub open spec fn cloud_side(slug: Seq<char>, v: CloudVersion) -> SideTextsView {
    SideTextsView {
        label: version_label(slug, v.version@),
        skill_md: v.skill_md@,
        intuition_md: v.intuition_md@,
        meta_yaml: v.meta_yaml@,
    }
}

/// The texts of a local folder: `SKILL.md` has to be a file there; a text that cannot be read is
/// empty.
pub fn load_local(
    dir: &str,
    has_skill_md: bool,
    skill_md: Option<String>,
    intuition_md: Option<String>,
    meta_yaml: Option<String>,
) -> (r: Result<SideTexts, CliError>)
    ensures
        texts_result(r) == if has_skill_md {
            Ok::<SideTextsView, CliErrorView>(
                SideTextsView {
                    label: dir@ + " (local)"@,
                    skill_md: text_or_empty(skill_md),
                    intuition_md: text_or_empty(intuition_md),
                    meta_yaml: text_or_empty(meta_yaml),
                },
            )
        } else {
            Err(
                CliErrorView::User {
                    code: "DIFF_LOCAL_INVALID"@,
                    message: dir@ + " has no SKILL.md"@,
                    hint: Some("point at a skill folder (the directory containing SKILL.md)"@),
                },
            )
        },
        has_skill_md ==> texts_result(r) == Ok::<SideTextsView, CliErrorView>(
            local_side(dir@, skill_md, intuition_md, meta_yaml),
        ),
{
    if !has_skill_md {
        let mut m = dir.to_owned();
        m.append(" has no SKILL.md");
        return Err(
            user(
                "DIFF_LOCAL_INVALID",
                m,
                Some("point at a skill folder (the directory containing SKILL.md)"),
            ),
        );
    }
    let mut label = dir.to_owned();
    label.append(" (local)");
    Ok(
        SideTexts {
            label,
            skill_md: or_empty(skill_md),
            intuition_md: or_empty(intuition_md),
            meta_yaml: or_empty(meta_yaml),
        },
    )
}

/// The error of a comparison whose version could not be pulled.
pub open spec fn pull_failure(e: BackendErrorView) -> CliErrorView {
    match e {
        BackendErrorView::NotFound(m) => CliErrorView::NotFound(m),
        other => CliErrorView::User {
            code: "GH_DIFF_FAILED"@,
            message: "github diff failed: "@ + errors::backend_message_of(other),
            hint: None,
        },
    }
}

/// The text of a file of a package, empty where there is no such file.
pub open spec fn package_text(p: SkillPackage, name: Seq<char>) -> Seq<char> {
    match tree::first_bytes_at(skill::files_of(p.files@), name) {
        Some(bytes) => utf8::shown_text(bytes),
        None => Seq::empty(),
    }
}

fn text_of(p: &SkillPackage, name: &str) -> (r: String)
    ensures
        r@ == package_text(*p, name@),
{
    match find_first(&p.files, name) {
        Some(i) => show(p.files[i].bytes.as_slice()),
        None => String::new(),
    }
}

/// The label of a version.
pub open spec fn version_label(slug: Seq<char>, ver: Seq<char>) -> Seq<char> {
    slug + "@"@ + ver
}

/// The texts of a version, out of the package that was pulled for it.
pub fn load_github_version(slug: &str, ver: &str, pulled: Result<SkillPackage, BackendError>) -> (r:
    Result<SideTexts, CliError>)
    ensures
        texts_result(r) == match pulled {
            Ok(p) => Ok::<SideTextsView, CliErrorView>(
                SideTextsView {
                    label: version_label(slug@, ver@),
                    skill_md: package_text(p, "SKILL.md"@),
                    intuition_md: package_text(p, "intuition.md"@),
                    meta_yaml: package_text(p, "meta.knack.yaml"@),
                },
            ),
            Err(e) => Err(pull_failure(e@)),
        },
        pulled matches Ok(p) ==> texts_result(r) == Ok::<SideTextsView, CliErrorView>(
            version_side(slug@, ver@, p),
        ),
{
    let package = match pulled {
        Ok(p) => p,
        Err(BackendError::NotFound(m)) => {
            return Err(CliError::NotFound(m));
        },
        Err(other) => {
            let mut m = "github diff failed: ".to_owned();
            m.append(other.message());
            return Err(user("GH_DIFF_FAILED", m, None));
        },
    };
    let mut label = slug.to_owned();
    label.append("@");
    label.append(ver);
    Ok(
        SideTexts {
            label,
            skill_md: text_of(&package, "SKILL.md"),
            intuition_md: text_of(&package, "intuition.md"),
            meta_yaml: text_of(&package, "meta.knack.yaml"),
        },
    )
}

/// The texts of a version as the cloud serves it; none where the cloud does not know the skill.
pub fn load_cloud_version(slug: &str, found: Option<CloudVersion>) -> (r: Result<
    SideTexts,
    CliError,
>)
    ensures
        texts_result(r) == match found {
            Some(v) => Ok::<SideTextsView, CliErrorView>(
                SideTextsView {
                    label: version_label(slug@, v.version@),
                    skill_md: v.skill_md@,
                    intuition_md: v.intuition_md@,
                    meta_yaml: v.meta_yaml@,
                },
            ),
            None => Err(cloud::unknown_skill_error(slug@)),
        },
        found matches Some(v) ==> texts_result(r) == Ok::<SideTextsView, CliErrorView>(
            cloud_side(slug@, v),
        ),
{
    match found {
        Some(v) => {
            let mut label = slug.to_owned();
            label.append("@");
            label.append(v.version.as_str());
            Ok(
                SideTexts {
                    label,
                    skill_md: v.skill_md,
                    intuition_md: v.intuition_md,
                    meta_yaml: v.meta_yaml,
                },
            )
        },
        None => Err(unknown_skill(slug)),
    }
}

/// Which side a line belongs to.
#[derive(Clone, Copy, Debug, PartialEq, Eq, Structural)]
pub enum ChangeKind {
    Equal,
    Delete,
    Insert,
}

/// A line of a comparison.
#[derive(Debug)]
pub struct Change {
    pub kind: ChangeKind,
    pub value: String,
}

/// What the lines of a comparison say.
pub open spec fn changes_of(v: Seq<Change>) -> Seq<(ChangeKind, Seq<char>)> {
    v.map_values(|c: Change| (c.kind, c.value@))
}

/// What is left of the lines of a comparison without those of one kind.
pub open spec fn side_without(changes: Seq<(ChangeKind, Seq<char>)>, left_out: ChangeKind) -> Seq<
    char,
>
    decreases changes.len(),
{
    if changes.len() == 0 {
        Seq::empty()
    } else if changes.last().0 == left_out {
        side_without(changes.drop_last(), left_out)
    } else {
        side_without(changes.drop_last(), left_out) + changes.last().1
    }
}

/// The values of a comparison without those of one kind.
pub open spec fn values_without(
    changes: Seq<(ChangeKind, Seq<char>)>,
    left_out: ChangeKind,
) -> Seq<Seq<char>>
    decreases changes.len(),
{
    if changes.len() == 0 {
        Seq::empty()
    } else if changes.last().0 == left_out {
        values_without(changes.drop_last(), left_out)
    } else {
        values_without(changes.drop_last(), left_out).push(changes.last().1)
    }
}

/// How long the first line of a text is, its end included: a line feed, a carriage return, or both
/// in this order.
pub open spec fn first_line_len(s: Seq<char>) -> int
    decreases s.len(),
{
    if s.len() == 0 {
        0
    } else if s[0] == '\n' {
        1
    } else if s[0] == '\r' {
        if s.len() > 1 && s[1] == '\n' {
            2
        } else {
            1
        }
    } else {
        1 + first_line_len(s.skip(1))
    }
}

/// The first line lies within its text, and that of a text with anything in it is not empty.
pub proof fn first_line_fits(s: Seq<char>)
    ensures
        0 <= first_line_len(s) <= s.len(),
        s.len() > 0 ==> first_line_len(s) > 0,
    decreases s.len(),
{
    if s.len() > 0 && s[0] != '\n' && s[0] != '\r' {
        first_line_fits(s.skip(1));
    }
}

/// The lines of a text, each with its end.
pub open spec fn lines_of(s: Seq<char>) -> Seq<Seq<char>>
    decreases s.len(),
{
    if s.len() == 0 {
        Seq::empty()
    } else {
        proof {
            first_line_fits(s);
        }
        let n = first_line_len(s);
        seq![s.take(n)] + lines_of(s.skip(n))
    }
}

/// Whether changes are a comparison of two texts line by line: without the inserted lines they are
/// the lines of the first text and make it up, without the deleted ones those of the second; and
/// two texts that are the same have no other line than equal ones.
pub open spec fn is_comparison(
    changes: Seq<(ChangeKind, Seq<char>)>,
    a: Seq<char>,
    b: Seq<char>,
) -> bool {
    &&& values_without(changes, ChangeKind::Insert) == lines_of(a)
    &&& values_without(changes, ChangeKind::Delete) == lines_of(b)
    &&& side_without(changes, ChangeKind::Insert) == a
    &&& side_without(changes, ChangeKind::Delete) == b
    &&& a == b ==> forall|i: int|
        0 <= i < changes.len() ==> (#[trigger] changes[i]).0 == ChangeKind::Equal
}

spec fn glued(lines: Seq<Seq<char>>) -> Seq<char>
    decreases lines.len(),
{
    if lines.len() == 0 {
        Seq::empty()
    } else {
        glued(lines.drop_last()) + lines.last()
    }
}

proof fn glued_front(x: Seq<char>, lines: Seq<Seq<char>>)
    ensures
        glued(seq![x] + lines) == x + glued(lines),
    decreases lines.len(),
{
    let all = seq![x] + lines;
    if lines.len() == 0 {
        assert(all.drop_last() =~= lines);
        assert(all.last() == x);
        assert(glued(all) =~= x + glued(lines));
    } else {
        glued_front(x, lines.drop_last());
        assert(all.drop_last() =~= seq![x] + lines.drop_last());
        assert(glued(all) =~= x + glued(lines));
    }
}

proof fn lines_make_up_the_text(s: Seq<char>)
    ensures
        glued(lines_of(s)) == s,
    decreases s.len(),
{
    if s.len() > 0 {
        first_line_fits(s);
        let n = first_line_len(s);
        lines_make_up_the_text(s.skip(n));
        glued_front(s.take(n), lines_of(s.skip(n)));
        assert(s.take(n) + s.skip(n) =~= s);
    } else {
        assert(glued(lines_of(s)) =~= s);
    }
}

proof fn side_is_glued(changes: Seq<(ChangeKind, Seq<char>)>, left_out: ChangeKind)
    ensures
        side_without(changes, left_out) == glued(values_without(changes, left_out)),
    decreases changes.len(),
{
    if changes.len() > 0 {
        let t = changes.drop_last();
        side_is_glued(t, left_out);
        if changes.last().0 != left_out {
            let v = values_without(changes, left_out);
            assert(v.drop_last() =~= values_without(t, left_out));
        }
    }
}

/// The changes that `similar::TextDiff::from_lines` finds between two texts.
pub uninterp spec fn line_changes(a: Seq<char>, b: Seq<char>) -> Seq<(ChangeKind, Seq<char>)>;

/// `similar::TextDiff::from_lines` and its `iter_all_changes`, each change with its tag and its
/// value. Without the inserted values the changes are the lines of the first text, without the
/// deleted ones those of the second; and two texts that are the same have no other line than equal
/// ones. Which of the possible comparisons it is, is left to the name.
#[verifier::external_body]
pub(crate) fn diff_lines(a: &str, b: &str) -> (r: Vec<Change>)
    ensures
        changes_of(r@) == line_changes(a@, b@),
        values_without(changes_of(r@), ChangeKind::Insert) == lines_of(a@),
        values_without(changes_of(r@), ChangeKind::Delete) == lines_of(b@),
        a@ == b@ ==> (forall|i: int| 0 <= i < r@.len() ==> (#[trigger] r@[i]).kind == ChangeKind::Equal),
{
    let diff = similar::TextDiff::from_lines(a, b);
    let changes = diff.iter_all_changes().map(|c| {
        let kind = match c.tag() {
            similar::ChangeTag::Equal => ChangeKind::Equal,
            similar::ChangeTag::Delete => ChangeKind::Delete,
            similar::ChangeTag::Insert => ChangeKind::Insert,
        };
        Change { kind, value: c.value().to_string() }
    });
    changes.collect()
}

/// What a line of a comparison is marked with.
pub open spec fn marker(kind: ChangeKind) -> Seq<char> {
    match kind {
        ChangeKind::Equal => " "@,
        ChangeKind::Delete => "-"@,
        ChangeKind::Insert => "+"@,
    }
}

/// A line of a comparison as it is written: behind its mark, and ended where it has no end.
pub open spec fn rendered_line(c: (ChangeKind, Seq<char>)) -> Seq<char> {
    if "\n"@.is_suffix_of(c.1) {
        marker(c.0) + c.1
    } else {
        marker(c.0) + c.1 + "\n"@
    }
}

/// A comparison as it is written.
pub open spec fn rendered(changes: Seq<(ChangeKind, Seq<char>)>) -> Seq<char>
    decreases changes.len(),
{
    if changes.len() == 0 {
        Seq::empty()
    } else {
        rendered(changes.drop_last()) + rendered_line(changes.last())
    }
}

/// A comparison as it is written.
pub fn render_changes(changes: &Vec<Change>) -> (r: String)
    ensures
        r@ == rendered(changes_of(changes@)),
{
    let ghost all = changes_of(changes@);
    let n: usize = changes.len();
    let mut out = String::new();
    let mut i: usize = 0;
    while i < n
        invariant
            n == changes@.len(),
            all == changes_of(changes@),
            i <= n,
            out@ == rendered(all.take(i as int)),
        decreases n - i,
    {
        let c = &changes[i];
        proof {
            assert(all.take(i + 1).drop_last() =~= all.take(i as int));
            assert(all.take(i + 1).last() == (c.kind, c.value@));
        }
        let ghost before = out@;
        out.append(
            match c.kind {
                ChangeKind::Equal => " ",
                ChangeKind::Delete => "-",
                ChangeKind::Insert => "+",
            },
        );
        out.append(c.value.as_str());
        if !ends_with(c.value.as_str(), "\n") {
            out.append("\n");
        }
        proof {
            assert(out@ =~= before + rendered_line((c.kind, c.value@)));
        }
        i += 1;
    }
    proof {
        assert(all.take(n as int) =~= all);
    }
    out
}

/// The comparison of two texts as it is written.
pub fn unified_diff(a: &str, b: &str) -> (r: String)
    ensures
        r@ == rendered(line_changes(a@, b@)),
        is_comparison(line_changes(a@, b@), a@, b@),
{
    let changes = diff_lines(a, b);
    proof {
        let found = line_changes(a@, b@);
        side_is_glued(found, ChangeKind::Insert);
        side_is_glued(found, ChangeKind::Delete);
        lines_make_up_the_text(a@);
        lines_make_up_the_text(b@);
        assert forall|i: int| 0 <= i < found.len() && a@ == b@ implies (#[trigger] found[i]).0
            == ChangeKind::Equal by {
            assert(found[i].0 == changes@[i].kind);
        }
    }
    render_changes(&changes)
}

/// A file in which the two sides differ.
#[derive(Debug)]
pub struct FileDiff {
    pub file: String,
    pub unified: String,
}

/// What the differences say: the name of each file with its comparison.
pub open spec fn diffs_of(v: Seq<FileDiff>) -> Seq<(Seq<char>, Seq<char>)> {
    v.map_values(|d: FileDiff| (d.file@, d.unified@))
}

/// The difference in one file, none where the two texts are the same.
pub open spec fn file_diff(name: Seq<char>, a: Seq<char>, b: Seq<char>) -> Seq<
    (Seq<char>, Seq<char>),
> {
    if a == b {
        Seq::empty()
    } else {
        seq![(name, rendered(line_changes(a, b)))]
    }
}

/// The differences of two sides, file by file.
pub open spec fn side_diffs(left: SideTextsView, right: SideTextsView) -> Seq<
    (Seq<char>, Seq<char>),
> {
    file_diff("SKILL.md"@, left.skill_md, right.skill_md) + file_diff(
        "intuition.md"@,
        left.intuition_md,
        right.intuition_md,
    ) + file_diff("meta.knack.yaml"@, left.meta_yaml, right.meta_yaml)
}

fn add_diff(out: &mut Vec<FileDiff>, name: &str, a: &str, b: &str)
    ensures
        diffs_of(final(out)@) == diffs_of(old(out)@) + file_diff(name@, a@, b@),
        a@ != b@ ==> is_comparison(line_changes(a@, b@), a@, b@),
{
    let ghost before = out@;
    if !same(a, b) {
        let d = FileDiff { file: name.to_owned(), unified: unified_diff(a, b) };
        out.push(d);
    }
    proof {
        assert(diffs_of(out@) =~= diffs_of(before) + file_diff(name@, a@, b@));
    }
}

/// The differences of two sides.
pub fn diff_sides(left: &SideTexts, right: &SideTexts) -> (r: Vec<FileDiff>)
    ensures
        diffs_of(r@) == side_diffs(left@, right@),
        left.skill_md@ != right.skill_md@ ==> is_comparison(
            line_changes(left.skill_md@, right.skill_md@),
            left.skill_md@,
            right.skill_md@,
        ),
        left.intuition_md@ != right.intuition_md@ ==> is_comparison(
            line_changes(left.intuition_md@, right.intuition_md@),
            left.intuition_md@,
            right.intuition_md@,
        ),
        left.meta_yaml@ != right.meta_yaml@ ==> is_comparison(
            line_changes(left.meta_yaml@, right.meta_yaml@),
            left.meta_yaml@,
            right.meta_yaml@,
        ),
{
    let mut out: Vec<FileDiff> = Vec::new();
    add_diff(&mut out, "SKILL.md", left.skill_md.as_str(), right.skill_md.as_str());
    add_diff(&mut out, "intuition.md", left.intuition_md.as_str(), right.intuition_md.as_str());
    add_diff(&mut out, "meta.knack.yaml", left.meta_yaml.as_str(), right.meta_yaml.as_str());
    proof {
        assert(diffs_of(out@) =~= side_diffs(left@, right@));
    }
    out
}

/// The names of the files that differ.
pub open spec fn changed_names(diffs: Seq<(Seq<char>, Seq<char>)>) -> Seq<Seq<char>> {
    diffs.map_values(|d: (Seq<char>, Seq<char>)| d.0)
}

/// A difference as an entry of the payload.
pub open spec fn diff_entry(d: (Seq<char>, Seq<char>)) -> Shape {
    json::object_of(seq![("file"@, Shape::Text(d.0)), ("unified"@, Shape::Text(d.1))])
}

/// What the comparison reports as JSON.
pub open spec fn diff_payload(
    left: Seq<char>,
    right: Seq<char>,
    diffs: Seq<(Seq<char>, Seq<char>)>,
) -> Shape {
    json::object_of(
        seq![
            ("left"@, Shape::Text(left)),
            ("right"@, Shape::Text(right)),
            ("files_changed"@, json::list_of_texts(changed_names(diffs))),
            ("diffs"@, Shape::List(diffs.map_values(|d: (Seq<char>, Seq<char>)| diff_entry(d)))),
        ],
    )
}

fn entry(d: &FileDiff) -> (r: serde_json::Value)
    ensures
        json::shape(r) == diff_entry((d.file@, d.unified@)),
{
    let fields = vec![
        ("file", json::text(d.file.as_str())),
        ("unified", json::text(d.unified.as_str())),
    ];
    proof {
        assert(json::field_shapes(fields@) =~= seq![
            ("file"@, Shape::Text(d.file@)),
            ("unified"@, Shape::Text(d.unified@)),
        ]);
    }
    json::object(fields)
}

/// What the comparison reports as JSON.
pub fn payload(left: &str, right: &str, diffs: &Vec<FileDiff>) -> (r: serde_json::Value)
    ensures
        json::shape(r) == diff_payload(left@, right@, diffs_of(diffs@)),
{
    let n: usize = diffs.len();
    let mut names: Vec<String> = Vec::new();
    let mut entries: Vec<serde_json::Value> = Vec::new();
    let mut i: usize = 0;
    while i < n
        invariant
            n == diffs@.len(),
            i <= n,
            names@.len() == i,
            entries@.len() == i,
            forall|k: int| 0 <= k < i ==> (#[trigger] names@[k])@ == diffs@[k].file@,
            forall|k: int|
                0 <= k < i ==> json::shape(#[trigger] entries@[k]) == diff_entry(
                    (diffs@[k].file@, diffs@[k].unified@),
                ),
        decreases n - i,
    {
        names.push(diffs[i].file.clone());
        entries.push(entry(&diffs[i]));
        i += 1;
    }
    let ghost said = diffs_of(diffs@);
    proof {
        assert(text::texts(names@) =~= changed_names(said));
        assert(json::shapes(entries@) =~= said.map_values(
            |d: (Seq<char>, Seq<char>)| diff_entry(d),
        ));
    }
    let fields = vec![
        ("left", json::text(left)),
        ("right", json::text(right)),
        ("files_changed", json::text_list(&names)),
        ("diffs", json::list(entries)),
    ];
    proof {
        assert(json::field_shapes(fields@) =~= seq![
            ("left"@, Shape::Text(left@)),
            ("right"@, Shape::Text(right@)),
            ("files_changed"@, json::list_of_texts(changed_names(said))),
            ("diffs"@, Shape::List(said.map_values(|d: (Seq<char>, Seq<char>)| diff_entry(d)))),
        ]);
    }
    json::object(fields)
}

/// The differences as they are printed.
pub open spec fn printed(
    left: Seq<char>,
    right: Seq<char>,
    diffs: Seq<(Seq<char>, Seq<char>)>,
) -> Seq<char>
    decreases diffs.len(),
{
    if diffs.len() == 0 {
        Seq::empty()
    } else {
        let d = diffs.last();
        printed(left, right, diffs.drop_last()) + ("--- "@ + d.0 + " @ "@ + left + "\n+++ "@ + d.0
            + " @ "@ + right + "\n"@ + d.1)
    }
}

/// What the comparison prints.
pub open spec fn human_of(
    left: Seq<char>,
    right: Seq<char>,
    diffs: Seq<(Seq<char>, Seq<char>)>,
) -> Seq<char> {
    if diffs.len() == 0 {
        "(identical)\n"@
    } else {
        printed(left, right, diffs)
    }
}

/// What the comparison prints.
pub fn human(left: &str, right: &str, diffs: &Vec<FileDiff>) -> (r: String)
    ensures
        r@ == human_of(left@, right@, diffs_of(diffs@)),
{
    let ghost all = diffs_of(diffs@);
    let n: usize = diffs.len();
    if n == 0 {
        return "(identical)\n".to_owned();
    }
    let mut out = String::new();
    let mut i: usize = 0;
    while i < n
        invariant
            n == diffs@.len(),
            all == diffs_of(diffs@),
            i <= n,
            out@ == printed(left@, right@, all.take(i as int)),
        decreases n - i,
    {
        let d = &diffs[i];
        proof {
            assert(all.take(i + 1).drop_last() =~= all.take(i as int));
            assert(all.take(i + 1).last() == (d.file@, d.unified@));
        }
        let mut block = "--- ".to_owned();
        block.append(d.file.as_str());
        block.append(" @ ");
        block.append(left);
        block.append("\n+++ ");
        block.append(d.file.as_str());
        block.append(" @ ");
        block.append(right);
        block.append("\n");
        block.append(d.unified.as_str());
        out.append(block.as_str());
        i += 1;
    }
    proof {
        assert(all.take(n as int) =~= all);
    }
    out
}

/// A comparison reports no file exactly when all three texts are the same on both sides.
pub proof fn identical_sides_report_nothing(left: SideTextsView, right: SideTextsView)
    ensures
        side_diffs(left, right).len() == 0 <==> left.skill_md == right.skill_md && left.intuition_md
            == right.intuition_md && left.meta_yaml == right.meta_yaml,
{
}

/// Where neither side has an `intuition.md`, it is not reported.
pub proof fn absent_intuition_is_not_reported(left: SideTextsView, right: SideTextsView)
    requires
        left.intuition_md.len() == 0,
        right.intuition_md.len() == 0,
    ensures
        !changed_names(side_diffs(left, right)).contains("intuition.md"@),
{
    assert(left.intuition_md =~= right.intuition_md);
    let names = changed_names(side_diffs(left, right));
    reveal_strlit("intuition.md");
    reveal_strlit("SKILL.md");
    reveal_strlit("meta.knack.yaml");
    assert("SKILL.md"@.len() != "intuition.md"@.len());
    assert("meta.knack.yaml"@.len() != "intuition.md"@.len());
}

proof fn only_equal_lines(changes: Seq<(ChangeKind, Seq<char>)>)
    requires
        forall|i: int| 0 <= i < changes.len() ==> (#[trigger] changes[i]).0 == ChangeKind::Equal,
    ensures
        side_without(changes, ChangeKind::Insert) == side_without(changes, ChangeKind::Delete),
    decreases changes.len(),
{
    if changes.len() > 0 {
        assert(changes[changes.len() - 1].0 == ChangeKind::Equal);
        assert forall|i: int| 0 <= i < changes.drop_last().len() implies (
        #[trigger] changes.drop_last()[i]).0 == ChangeKind::Equal by {
            assert(changes.drop_last()[i] == changes[i]);
        }
        only_equal_lines(changes.drop_last());
    }
}

/// Whether a text is one line: it is not empty, and no line ends before its end.
pub open spec fn is_line(s: Seq<char>) -> bool {
    s.len() > 0 && first_line_len(s) == s.len()
}

proof fn first_line_is_a_line(s: Seq<char>)
    requires
        s.len() > 0,
    ensures
        is_line(s.take(first_line_len(s))),
    decreases s.len(),
{
    first_line_fits(s);
    let n = first_line_len(s);
    let line = s.take(n);
    assert(line[0] == s[0]);
    if s[0] == '\r' {
        if n == 2 {
            assert(line[1] == s[1]);
        }
    } else if s[0] != '\n' {
        let t = s.skip(1);
        if t.len() > 0 {
            first_line_is_a_line(t);
            assert(line.skip(1) =~= t.take(first_line_len(t)));
        } else {
            assert(line.skip(1) =~= t);
        }
    }
}

proof fn lines_are_lines(s: Seq<char>)
    ensures
        forall|i: int| 0 <= i < lines_of(s).len() ==> is_line(#[trigger] lines_of(s)[i]),
    decreases s.len(),
{
    if s.len() > 0 {
        first_line_fits(s);
        first_line_is_a_line(s);
        let n = first_line_len(s);
        let rest = lines_of(s.skip(n));
        lines_are_lines(s.skip(n));
        assert forall|i: int| 0 <= i < lines_of(s).len() implies is_line(
            #[trigger] lines_of(s)[i],
        ) by {
            if i > 0 {
                assert(lines_of(s)[i] == rest[i - 1]);
            }
        }
    }
}

proof fn kept_values(changes: Seq<(ChangeKind, Seq<char>)>, left_out: ChangeKind, i: int)
    requires
        0 <= i < changes.len(),
        changes[i].0 != left_out,
    ensures
        values_without(changes, left_out).contains(changes[i].1),
    decreases changes.len(),
{
    let t = changes.drop_last();
    let before = values_without(t, left_out);
    let after = values_without(changes, left_out);
    if i < t.len() {
        kept_values(t, left_out, i);
        let k = choose|k: int| 0 <= k < before.len() && before[k] == t[i].1;
        assert(after[k] == changes[i].1);
    } else {
        assert(after[before.len() as int] == changes[i].1);
    }
}

/// Every change of a comparison is a single line.
pub proof fn every_change_is_a_line(
    changes: Seq<(ChangeKind, Seq<char>)>,
    a: Seq<char>,
    b: Seq<char>,
    i: int,
)
    requires
        is_comparison(changes, a, b),
        0 <= i < changes.len(),
    ensures
        is_line(changes[i].1),
{
    lines_are_lines(a);
    lines_are_lines(b);
    if changes[i].0 != ChangeKind::Insert {
        kept_values(changes, ChangeKind::Insert, i);
        let k = choose|k: int| 0 <= k < lines_of(a).len() && lines_of(a)[k] == changes[i].1;
        assert(is_line(lines_of(a)[k]));
    } else {
        kept_values(changes, ChangeKind::Delete, i);
        let k = choose|k: int| 0 <= k < lines_of(b).len() && lines_of(b)[k] == changes[i].1;
        assert(is_line(lines_of(b)[k]));
    }
}

/// A comparison that makes up its two texts has a deleted or an inserted line wherever the texts
/// differ.
pub proof fn different_texts_show(changes: Seq<(ChangeKind, Seq<char>)>)
    requires
        side_without(changes, ChangeKind::Insert) != side_without(changes, ChangeKind::Delete),
    ensures
        exists|i: int| 0 <= i < changes.len() && (#[trigger] changes[i]).0 != ChangeKind::Equal,
{
    if forall|i: int| 0 <= i < changes.len() ==> (#[trigger] changes[i]).0 == ChangeKind::Equal {
        only_equal_lines(changes);
    }
}

proof fn names_differ()
    ensures
        "SKILL.md"@ != "intuition.md"@,
        "SKILL.md"@ != "meta.knack.yaml"@,
        "intuition.md"@ != "meta.knack.yaml"@,
{
    reveal_strlit("SKILL.md");
    reveal_strlit("intuition.md");
    reveal_strlit("meta.knack.yaml");
    assert("SKILL.md"@.len() == 8);
    assert("intuition.md"@.len() == 12);
    assert("meta.knack.yaml"@.len() == 15);
}

/// A file is reported under its own name exactly when its text differs between the two sides, with
/// the comparison of its own two texts, the left one first; no file is reported twice, and no other
/// file is.
pub proof fn files_are_reported_under_their_names(left: SideTextsView, right: SideTextsView)
    ensures
        ({
            let names = changed_names(side_diffs(left, right));
            &&& names.contains("SKILL.md"@) <==> left.skill_md != right.skill_md
            &&& names.contains("intuition.md"@) <==> left.intuition_md != right.intuition_md
            &&& names.contains("meta.knack.yaml"@) <==> left.meta_yaml != right.meta_yaml
            &&& forall|i: int, j: int| 0 <= i < j < names.len() ==> #[trigger] names[i] != #[trigger] names[j]
            &&& forall|d: (Seq<char>, Seq<char>)| #[trigger]
                side_diffs(left, right).contains(d) ==> {
                    ||| d.0 == "SKILL.md"@ && d.1 == rendered(
                        line_changes(left.skill_md, right.skill_md),
                    )
                    ||| d.0 == "intuition.md"@ && d.1 == rendered(
                        line_changes(left.intuition_md, right.intuition_md),
                    )
                    ||| d.0 == "meta.knack.yaml"@ && d.1 == rendered(
                        line_changes(left.meta_yaml, right.meta_yaml),
                    )
                }
        }),
{
    names_differ();
    let a = file_diff("SKILL.md"@, left.skill_md, right.skill_md);
    let b = file_diff("intuition.md"@, left.intuition_md, right.intuition_md);
    let c = file_diff("meta.knack.yaml"@, left.meta_yaml, right.meta_yaml);
    let all = side_diffs(left, right);
    let names = changed_names(all);
    assert(all == a + b + c);
    if left.skill_md != right.skill_md {
        assert(names[0] == "SKILL.md"@);
    }
    if left.intuition_md != right.intuition_md {
        assert(names[a.len() as int] == "intuition.md"@);
    }
    if left.meta_yaml != right.meta_yaml {
        assert(names[(a.len() + b.len()) as int] == "meta.knack.yaml"@);
    }
    assert forall|i: int| 0 <= i < names.len() implies ({
        ||| i < a.len() && #[trigger] names[i] == "SKILL.md"@
        ||| a.len() <= i < a.len() + b.len() && names[i] == "intuition.md"@
        ||| a.len() + b.len() <= i && names[i] == "meta.knack.yaml"@
    }) by {
        assert(names[i] == all[i].0);
    }
}

/// Swapping the two sides reports the same files.
pub proof fn the_same_files_differ_the_other_way(left: SideTextsView, right: SideTextsView)
    ensures
        changed_names(side_diffs(left, right)) == changed_names(side_diffs(right, left)),
{
    assert(changed_names(side_diffs(left, right)) =~= changed_names(side_diffs(right, left)));
}

/// Comparisons are written one behind the other; a deleted line is written behind a minus, an
/// inserted one behind a plus, an equal one behind a blank, and each ends in one line feed.
pub proof fn lines_are_written_behind_their_marks(
    x: Seq<(ChangeKind, Seq<char>)>,
    y: Seq<(ChangeKind, Seq<char>)>,
    line: Seq<char>,
)
    requires
        line.len() == 0 || line.last() != '\n',
    ensures
        rendered(x + y) == rendered(x) + rendered(y),
        rendered(seq![(ChangeKind::Delete, line)]) == seq!['-'] + line + seq!['\n'],
        rendered(seq![(ChangeKind::Insert, line)]) == seq!['+'] + line + seq!['\n'],
        rendered(seq![(ChangeKind::Equal, line)]) == seq![' '] + line + seq!['\n'],
        rendered(seq![(ChangeKind::Delete, line.push('\n'))]) == seq!['-'] + line + seq!['\n'],
        rendered(seq![(ChangeKind::Insert, line.push('\n'))]) == seq!['+'] + line + seq!['\n'],
        rendered(seq![(ChangeKind::Equal, line.push('\n'))]) == seq![' '] + line + seq!['\n'],
    decreases y.len(),
{
    if y.len() > 0 {
        lines_are_written_behind_their_marks(x, y.drop_last(), line);
        assert((x + y).drop_last() =~= x + y.drop_last());
        assert((x + y).last() == y.last());
        assert(rendered(x + y) =~= rendered(x) + rendered(y));
    } else {
        assert(x + y =~= x);
        assert(rendered(x + y) =~= rendered(x) + rendered(y));
    }
    one_line_is_written(ChangeKind::Delete, line);
    one_line_is_written(ChangeKind::Insert, line);
    one_line_is_written(ChangeKind::Equal, line);
    reveal_strlit("-");
    reveal_strlit("+");
    reveal_strlit(" ");
    assert("-"@ =~= seq!['-']);
    assert("+"@ =~= seq!['+']);
    assert(" "@ =~= seq![' ']);
}

proof fn one_line_is_written(kind: ChangeKind, line: Seq<char>)
    requires
        line.len() == 0 || line.last() != '\n',
    ensures
        rendered(seq![(kind, line)]) == marker(kind) + line + seq!['\n'],
        rendered(seq![(kind, line.push('\n'))]) == marker(kind) + line + seq!['\n'],
{
    reveal_strlit("\n");
    assert("\n"@ =~= seq!['\n']);
    reveal_with_fuel(rendered, 2);
    let x = seq![(kind, line)];
    let ended = line.push('\n');
    let y = seq![(kind, ended)];
    assert(x.drop_last() =~= Seq::empty());
    assert(y.drop_last() =~= Seq::empty());
    if "\n"@.is_suffix_of(line) {
        assert("\n"@[0] == line[line.len() - 1]);
    }
    assert("\n"@ =~= ended.subrange(ended.len() - 1, ended.len() as int));
    assert(rendered(x) =~= marker(kind) + line + seq!['\n']);
    assert(rendered(y) =~= marker(kind) + line + seq!['\n']);
}

/// A skill, an `@` and a version name that version of that skill, a leading `v` aside; a directory
/// is a local side whatever its name holds; and a text without an `@`, or with nothing on one side
/// of it, is refused.
pub proof fn argument_names_a_version_or_a_folder(s: Seq<char>, slug: Seq<char>, ver: Seq<char>)
    requires
        !slug.contains('@'),
    ensures
        side_of(s, true) == Ok::<SideSpecView, CliErrorView>(SideSpecView::Local(s)),
        slug.len() > 0 && ver.len() > 0 && ver[0] != 'v' ==> side_of(slug + seq!['@'] + ver, false)
            == Ok::<SideSpecView, CliErrorView>(SideSpecView::Version { slug, ver }) && side_of(
            slug + seq!['@'] + (seq!['v'] + ver),
            false,
        ) == Ok::<SideSpecView, CliErrorView>(SideSpecView::Version { slug, ver }),
        side_of(slug, false) is Err,
        side_of(slug + seq!['@'], false) is Err,
        side_of(seq!['@'] + ver, false) is Err,
{
    let e = Seq::<char>::empty();
    text::cut_is_at_the_first(slug, ver, '@');
    text::cut_is_at_the_first(slug, seq!['v'] + ver, '@');
    text::cut_is_at_the_first(slug, e, '@');
    text::cut_is_at_the_first(e, ver, '@');
    assert(slug + seq!['@'] + e =~= slug + seq!['@']);
    assert(e + seq!['@'] + ver =~= seq!['@'] + ver);
    assert((seq!['v'] + ver).skip(1) =~= ver);
    reveal_with_fuel(text::without_leading, 2);
}

/// Two versions can be compared exactly when they are of one skill, two folders never, and a version
/// and a folder always.
pub proof fn sides_have_to_fit(a: Seq<char>, v: Seq<char>, b: Seq<char>, w: Seq<char>)
    ensures
        ({
            let left = SideSpecView::Version { slug: a, ver: v };
            let right = SideSpecView::Version { slug: b, ver: w };
            &&& sides_error(left, right) is None <==> a == b
            &&& sides_error(left, SideSpecView::Local(w)) is None
            &&& sides_error(SideSpecView::Local(v), right) is None
            &&& sides_error(SideSpecView::Local(v), SideSpecView::Local(w)) is Some
        }),
{
}

/// The report of a comparison tells the left and the right side, the files that differ and how, each under
/// its own name.
pub proof fn payload_tells_the_comparison(left: Seq<char>, right: Seq<char>, diffs: Seq<(Seq<char>, Seq<char>)>)
    ensures
        json::field(diff_payload(left, right, diffs), "left"@) == Some(Shape::Text(left)),
        json::field(diff_payload(left, right, diffs), "right"@) == Some(Shape::Text(right)),
        json::field(diff_payload(left, right, diffs), "files_changed"@) == Some(json::list_of_texts(changed_names(diffs))),
        json::field(diff_payload(left, right, diffs), "diffs"@) == Some(Shape::List(diffs.map_values(|d: (Seq<char>, Seq<char>)| diff_entry(d)))),
{
    reveal_strlit("left");
    reveal_strlit("right");
    reveal_strlit("files_changed");
    reveal_strlit("diffs");
    assert("left"@.len() == 4 && "right"@.len() == 5 && "files_changed"@.len() == 13 && "diffs"@.len() == 5);
    assert("right"@[0] == 'r' && "diffs"@[0] == 'd');
    let f = seq![
        ("left"@, Shape::Text(left)),
        ("right"@, Shape::Text(right)),
        ("files_changed"@, json::list_of_texts(changed_names(diffs))),
        ("diffs"@, Shape::List(diffs.map_values(|d: (Seq<char>, Seq<char>)| diff_entry(d)))),
    ];
    assert(diff_payload(left, right, diffs) == json::object_of(f));
    json::field_is_held(f, 0);
    json::field_is_held(f, 1);
    json::field_is_held(f, 2);
    json::field_is_held(f, 3);
}

/// A difference tells the file and its comparison, each under its own name.
pub proof fn entry_tells_the_file(d: (Seq<char>, Seq<char>))
    ensures
        json::field(diff_entry(d), "file"@) == Some(Shape::Text(d.0)),
        json::field(diff_entry(d), "unified"@) == Some(Shape::Text(d.1)),
{
    reveal_strlit("file");
    reveal_strlit("unified");
    assert("file"@.len() == 4 && "unified"@.len() == 7);
    let f = seq![
        ("file"@, Shape::Text(d.0)),
        ("unified"@, Shape::Text(d.1)),
    ];
    assert(diff_entry(d) == json::object_of(f));
    json::field_is_held(f, 0);
    json::field_is_held(f, 1);
}

/// What is printed of a comparison are its files one behind the other, each under a head that names
/// the file and the two sides, the left one first; without a difference it says so.
pub proof fn files_are_printed_in_order(
    left: Seq<char>,
    right: Seq<char>,
    diffs: Seq<(Seq<char>, Seq<char>)>,
    name: Seq<char>,
    unified: Seq<char>,
)
    ensures
        human_of(left, right, Seq::empty()) == "(identical)\n"@,
        human_of(left, right, diffs.push((name, unified))) == (if diffs.len() > 0 {
            human_of(left, right, diffs)
        } else {
            Seq::empty()
        }) + ("--- "@ + name + " @ "@ + left + "\n+++ "@ + name + " @ "@ + right + "\n"@ + unified),
{
    let all = diffs.push((name, unified));
    assert(all.drop_last() =~= diffs);
    assert(all.last() == (name, unified));
    let own = "--- "@ + name + " @ "@ + left + "\n+++ "@ + name + " @ "@ + right + "\n"@ + unified;
    let before = printed(left, right, diffs);
    assert(human_of(left, right, all) == before + own);
    if diffs.len() == 0 {
        assert(before == Seq::<char>::empty());
    }
}

/// A version that is not found is not found for the comparison either; any other failure of a pull is
/// `GH_DIFF_FAILED` and says what failed.
pub proof fn pull_failures_are_told(m: Seq<char>)
    ensures
        pull_failure(BackendErrorView::NotFound(m)) == CliErrorView::NotFound(m),
        forall|e: BackendErrorView|
            !(e is NotFound) && errors::backend_message_of(e) == m ==> (#[trigger] pull_failure(e))
                == (CliErrorView::User {
                code: "GH_DIFF_FAILED"@,
                message: "github diff failed: "@ + m,
                hint: None,
            }),
{
}

/// The text of a file of a package is what the first file of that name says, and nothing where there
/// is no such file.
pub proof fn package_text_is_that_of_the_file(p: SkillPackage, name: Seq<char>, i: int)
    ensures
        0 <= i < p.files@.len() && paths::same_path(p.files@[i].path@, name) && vstd::utf8::valid_utf8(
            p.files@[i].bytes@,
        ) && (forall|j: int|
            0 <= j < i ==> !paths::same_path((#[trigger] p.files@[j]).path@, name)) ==> package_text(
            p,
            name,
        ) == vstd::utf8::decode_utf8(p.files@[i].bytes@),
        (forall|j: int|
            0 <= j < p.files@.len() ==> !paths::same_path((#[trigger] p.files@[j]).path@, name))
            ==> package_text(p, name).len() == 0,
{
    let files = skill::files_of(p.files@);
    tree::first_bytes_are_those_of_the_first_file(files, name);
    assert forall|j: int| 0 <= j < files.len() implies (#[trigger] files[j]).path == p.files@[j].path@
        && files[j].bytes == p.files@[j].bytes@ by {}
    if 0 <= i < p.files@.len() && paths::same_path(p.files@[i].path@, name) && (forall|j: int|
        0 <= j < i ==> !paths::same_path((#[trigger] p.files@[j]).path@, name)) {
        assert(paths::same_path(files[i].path, name));
        let b = tree::first_bytes_at(files, name)->0;
        let k = choose|k: int|
            0 <= k < files.len() && paths::same_path((#[trigger] files[k]).path, name)
                && files[k].bytes == b && (forall|j: int|
                0 <= j < k ==> !paths::same_path((#[trigger] files[j]).path, name));
        assert(k == i) by {
            if k < i {
                assert(!paths::same_path(p.files@[k].path@, name));
            }
            if i < k {
                assert(!paths::same_path(files[i].path, name));
            }
        }
    }
    if forall|j: int|
        0 <= j < p.files@.len() ==> !paths::same_path((#[trigger] p.files@[j]).path@, name) {
        if tree::first_bytes_at(files, name) is Some {
            let k = choose|k: int|
                0 <= k < files.len() && paths::same_path((#[trigger] files[k]).path, name);
            assert(!paths::same_path(p.files@[k].path@, name));
        }
    }
}

/// Each side has the text of each of the three files under its own name, and says what it is: a
/// version by skill and version, a folder by its path. A text that is not there is empty.
pub proof fn sides_have_their_own_texts(
    slug: Seq<char>,
    ver: Seq<char>,
    p: SkillPackage,
    v: CloudVersion,
    dir: Seq<char>,
    a: String,
    b: String,
    c: String,
)
    ensures
        ({
            let pulled = version_side(slug, ver, p);
            &&& pulled.label == slug + "@"@ + ver
            &&& pulled.skill_md == package_text(p, "SKILL.md"@)
            &&& pulled.intuition_md == package_text(p, "intuition.md"@)
            &&& pulled.meta_yaml == package_text(p, "meta.knack.yaml"@)
        }),
        ({
            let served = cloud_side(slug, v);
            &&& served.label == slug + "@"@ + v.version@
            &&& served.skill_md == v.skill_md@
            &&& served.intuition_md == v.intuition_md@
            &&& served.meta_yaml == v.meta_yaml@
        }),
        ({
            let here = local_side(dir, Some(a), Some(b), Some(c));
            &&& dir.is_prefix_of(here.label)
            &&& here.skill_md == a@ && here.intuition_md == b@ && here.meta_yaml == c@
        }),
        local_side(dir, None, None, None).skill_md.len() == 0 && local_side(
            dir,
            None,
            None,
            None,
        ).intuition_md.len() == 0 && local_side(dir, None, None, None).meta_yaml.len() == 0,
{
    let here = local_side(dir, Some(a), Some(b), Some(c));
    assert(dir =~= here.label.subrange(0, dir.len() as int));
}

} // verus!
