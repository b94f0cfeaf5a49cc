//! Publishing a version of a skill to a self-hosted repository.
//!
//! The version number asserts content: after the commit is tagged, the tagged tree is read back
//! and compared byte for byte with what was to be published, and nothing is pushed, and no success
//! reported, on any mismatch.
//!
//! [`step`] is the decision: from the phase of a publish and what was just found to the next phase
//! and what to do next. The program around it does what it is told and comes back with what it
//! found.
use vstd::prelude::*;

use crate::backend;
use crate::backend::{skill_dir, GithubBackend};
use crate::errors;
use crate::errors::{BackendError, BackendErrorView};
use crate::paths;
use crate::paths::join;
use crate::semver;
use crate::semver::tag_name;
use crate::skill;
use crate::skill::{
    copy_bytes, same_bytes, FileView, PublishReceipt, ReceiptView, SkillFile, SkillPackage,
};
use crate::text;
use crate::text::{same, starts_with, trim};
use crate::tree;
use crate::tree::{find_last, walk_tree, TreeNode};
use crate::utf8;
use crate::utf8::show;

verus! {

/// Where a skill lives in a repository.
pub open spec fn subdir_of(slug: Seq<char>) -> Seq<char> {
    "skills/"@ + slug
}

/// Where a skill lives in a repository.
pub fn subdir(slug: &str) -> (r: String)
    ensures
        r@ == subdir_of(slug@),
{
    let mut s = "skills/".to_owned();
    s.append(slug);
    s
}

/// Whether a changed path belongs to the skill: `skills/<slug>` itself or something under it.
pub open spec fn belongs_to(path: Seq<char>, slug: Seq<char>) -> bool {
    path == subdir_of(slug) || (subdir_of(slug) + "/"@).is_prefix_of(path)
}

/// Whether some changed path does not belong to the skill. A path that is not text does not count.
pub open spec fn unrelated_dirty(paths: Seq<Option<String>>, slug: Seq<char>) -> bool {
    exists|i: int|
        0 <= i < paths.len() && (#[trigger] paths[i]) is Some && !belongs_to(paths[i]->0@, slug)
}

/// Whether the working tree has changes outside `skills/<slug>`. The paths are those of the changed
/// and of the untracked files, without the ignored ones.
pub fn has_unrelated_dirty(paths: &Vec<Option<String>>, current_slug: &str) -> (r: bool)
    ensures
        r == unrelated_dirty(paths@, current_slug@),
{
    let own = subdir(current_slug);
    let mut below = own.clone();
    below.append("/");
    let n: usize = paths.len();
    let mut i: usize = 0;
    while i < n
        invariant
            n == paths@.len(),
            i <= n,
            own@ == subdir_of(current_slug@),
            below@ == subdir_of(current_slug@) + "/"@,
            forall|k: int|
                0 <= k < i && (#[trigger] paths@[k]) is Some ==> belongs_to(
                    paths@[k]->0@,
                    current_slug@,
                ),
        decreases n - i,
    {
        if let Some(path) = &paths[i] {
            if !same(path.as_str(), own.as_str()) && !starts_with(path.as_str(), below.as_str()) {
                return true;
            }
        }
        i += 1;
    }
    false
}

/// Who a commit is by: the configured name and e-mail address, or else those of the owner's
/// account.
pub fn git_signature(name: Option<String>, email: Option<String>, owner: &str) -> (r: (
    String,
    String,
))
    ensures
        r.0@ == match name {
            Some(n) => n@,
            None => owner@,
        },
        r.1@ == match email {
            Some(e) => e@,
            None => owner@ + "@users.noreply.github.com"@,
        },
{
    let name = match name {
        Some(n) => n,
        None => owner.to_owned(),
    };
    let email = match email {
        Some(e) => e,
        None => {
            let mut e = owner.to_owned();
            e.append("@users.noreply.github.com");
            e
        },
    };
    (name, email)
}

/// What reading a skill back from a tag came to.
#[derive(Debug)]
pub enum TagRead {
    TagMissing(String),
    PeelFailed(String),
    TreeFailed(String),
    SubdirMissing,
    SubtreeFailed(String),
    BlobFailed(String),
    ChildFailed(String),
    /// The entries below `skills/<slug>` and the second of the commit.
    Entries { nodes: Vec<TreeNode>, commit_secs: i64 },
}

/// The files that a publish has to ship: those of the package, or, where the package carries none,
/// those of the two required files that are on disk.
pub open spec fn expected_files(
    files: Seq<FileView>,
    skill_md: Option<Seq<u8>>,
    meta: Option<Seq<u8>>,
) -> Seq<FileView> {
    if files.len() > 0 {
        files
    } else {
        (match skill_md {
            Some(b) => seq![FileView { path: "SKILL.md"@, bytes: b }],
            None => Seq::empty(),
        }) + (match meta {
            Some(b) => seq![FileView { path: "meta.knack.yaml"@, bytes: b }],
            None => Seq::empty(),
        })
    }
}

/// Whether every expected file is in the tag with the same bytes.
pub open spec fn content_matches(tagged: Seq<FileView>, expected: Seq<FileView>) -> bool {
    forall|i: int|
        0 <= i < expected.len() ==> tree::bytes_at(tagged, (#[trigger] expected[i]).path) == Some(
            expected[i].bytes,
        )
}

/// The expected files that are not in the tag as they should be, each with what is wrong.
pub open spec fn mismatches(tagged: Seq<FileView>, expected: Seq<FileView>) -> Seq<Seq<char>>
    decreases expected.len(),
{
    if expected.len() == 0 {
        Seq::empty()
    } else {
        let before = mismatches(tagged, expected.drop_last());
        let f = expected.last();
        match tree::bytes_at(tagged, f.path) {
            Some(b) => if b == f.bytes {
                before
            } else {
                before.push(f.path + " (content differs)"@)
            },
            None => before.push(f.path + " (missing from tag)"@),
        }
    }
}

proof fn no_mismatch_iff(tagged: Seq<FileView>, expected: Seq<FileView>)
    ensures
        mismatches(tagged, expected).len() == 0 <==> content_matches(tagged, expected),
    decreases expected.len(),
{
    if expected.len() > 0 {
        let t = expected.drop_last();
        no_mismatch_iff(tagged, t);
        if mismatches(tagged, expected).len() == 0 {
            assert forall|i: int| 0 <= i < expected.len() implies tree::bytes_at(
                tagged,
                (#[trigger] expected[i]).path,
            ) == Some(expected[i].bytes) by {
                if i < t.len() {
                    assert(t[i] == expected[i]);
                }
            }
        }
        if content_matches(tagged, expected) {
            assert forall|i: int| 0 <= i < t.len() implies tree::bytes_at(
                tagged,
                (#[trigger] t[i]).path,
            ) == Some(t[i].bytes) by {
                assert(expected[i] == t[i]);
            }
            assert(expected[expected.len() - 1] == expected.last());
        }
    }
}

/// What keeps a publish from being pushed after its tag was read back, if anything.
pub open spec fn verify_error(
    tag: Seq<char>,
    slug: Seq<char>,
    files: Seq<FileView>,
    read: TagRead,
    skill_md: Option<Seq<u8>>,
    meta: Option<Seq<u8>>,
) -> Option<BackendErrorView> {
    match read {
        TagRead::TagMissing(e) => Some(BackendErrorView::Other("verify tag: "@ + e@)),
        TagRead::PeelFailed(e) => Some(BackendErrorView::Other("verify: peel tag: "@ + e@)),
        TagRead::TreeFailed(e) => Some(BackendErrorView::Other("verify: commit tree: "@ + e@)),
        TagRead::SubdirMissing => Some(
            BackendErrorView::Other(
                "verify: tag "@ + tag + " does not contain "@ + subdir_of(slug),
            ),
        ),
        TagRead::SubtreeFailed(e) => Some(BackendErrorView::Other("verify: find subtree: "@ + e@)),
        TagRead::BlobFailed(e) => Some(BackendErrorView::Other("find blob: "@ + e@)),
        TagRead::ChildFailed(e) => Some(BackendErrorView::Other("find subtree: "@ + e@)),
        TagRead::Entries { nodes, .. } => {
            let bad = mismatches(
                tree::walk_of(nodes@, ""@),
                expected_files(files, skill_md, meta),
            );
            if bad.len() == 0 {
                None
            } else {
                Some(
                    BackendErrorView::Invalid(
                        "tag "@ + tag + " does not match the content being published: "@
                            + text::join_with(bad, ", "@)
                            + ". nothing was pushed. check the registry repo's .gitignore for rules that exclude skill files, then delete the local tag and re-publish"@,
                    ),
                )
            }
        },
    }
}

/// Whether a tag that was read back holds every file that it was to ship, each with its very bytes.
pub open spec fn tag_is_faithful(
    files: Seq<FileView>,
    read: TagRead,
    skill_md: Option<Seq<u8>>,
    meta: Option<Seq<u8>>,
) -> bool {
    read matches TagRead::Entries { nodes, .. } && content_matches(
        tree::walk_of(nodes@, ""@),
        expected_files(files, skill_md, meta),
    )
}

fn other(head: &str, detail: &str) -> (r: BackendError)
    ensures
        r@ == BackendErrorView::Other(head@ + detail@),
{
    let mut m = head.to_owned();
    m.append(detail);
    BackendError::Other(m)
}

/// The bytes of an optional file.
pub open spec fn opt_bytes(o: Option<Vec<u8>>) -> Option<Seq<u8>> {
    match o {
        Some(v) => Some(v@),
        None => None,
    }
}

fn expected_list(
    files: &Vec<SkillFile>,
    skill_md: &Option<Vec<u8>>,
    meta: &Option<Vec<u8>>,
) -> (r: Vec<SkillFile>)
    requires
        files@.len() == 0,
    ensures
        skill::files_of(r@) == expected_files(
            skill::files_of(files@),
            opt_bytes(*skill_md),
            opt_bytes(*meta),
        ),
{
    let mut out: Vec<SkillFile> = Vec::new();
    if let Some(b) = skill_md {
        out.push(SkillFile { path: "SKILL.md".to_owned(), bytes: copy_bytes(b) });
    }
    if let Some(b) = meta {
        out.push(SkillFile { path: "meta.knack.yaml".to_owned(), bytes: copy_bytes(b) });
    }
    proof {
        assert(skill::files_of(out@) =~= expected_files(
            skill::files_of(files@),
            opt_bytes(*skill_md),
            opt_bytes(*meta),
        ));
    }
    out
}

fn find_mismatches(tagged: &Vec<SkillFile>, expected: &Vec<SkillFile>) -> (r: Vec<String>)
    ensures
        text::texts(r@) == mismatches(skill::files_of(tagged@), skill::files_of(expected@)),
{
    let ghost have = skill::files_of(tagged@);
    let ghost want = skill::files_of(expected@);
    let n: usize = expected.len();
    let mut bad: Vec<String> = Vec::new();
    let mut i: usize = 0;
    proof {
        assert(text::texts(bad@) =~= mismatches(have, want.take(0)));
    }
    while i < n
        invariant
            n == expected@.len(),
            have == skill::files_of(tagged@),
            want == skill::files_of(expected@),
            i <= n,
            text::texts(bad@) == mismatches(have, want.take(i as int)),
        decreases n - i,
    {
        let f = &expected[i];
        let ghost before = bad@;
        proof {
            assert(want.take(i + 1).drop_last() =~= want.take(i as int));
            assert(want.take(i + 1).last() == f@);
        }
        match find_last(tagged, f.path.as_str()) {
            Some(k) => {
                if !same_bytes(&tagged[k].bytes, &f.bytes) {
                    let mut m = f.path.clone();
                    m.append(" (content differs)");
                    bad.push(m);
                    proof {
                        assert(text::texts(bad@) =~= text::texts(before).push(
                            f.path@ + " (content differs)"@,
                        ));
                    }
                }
            },
            None => {
                let mut m = f.path.clone();
                m.append(" (missing from tag)");
                bad.push(m);
                proof {
                    assert(text::texts(bad@) =~= text::texts(before).push(
                        f.path@ + " (missing from tag)"@,
                    ));
                }
            },
        }
        i += 1;
    }
    proof {
        assert(want.take(n as int) =~= want);
    }
    bad
}

/// Post-commit, pre-push integrity check: every file the publish was asked to ship must exist in
/// the tagged tree with identical bytes. A package that carried explicit files is checked for all
/// of them; for a publish in place (no files) the two required files on disk are checked.
pub fn verify_tagged_content(
    tag: &str,
    package: &SkillPackage,
    read: &TagRead,
    skill_md: &Option<Vec<u8>>,
    meta: &Option<Vec<u8>>,
) -> (r: Result<(), BackendError>)
    ensures
        r is Ok <==> tag_is_faithful(
            skill::files_of(package.files@),
            *read,
            opt_bytes(*skill_md),
            opt_bytes(*meta),
        ),
        r is Ok <==> verify_error(
            tag@,
            package.slug@,
            skill::files_of(package.files@),
            *read,
            opt_bytes(*skill_md),
            opt_bytes(*meta),
        ) is None,
        r matches Err(e) ==> Some(e@) == verify_error(
            tag@,
            package.slug@,
            skill::files_of(package.files@),
            *read,
            opt_bytes(*skill_md),
            opt_bytes(*meta),
        ),
{
    let ghost files = skill::files_of(package.files@);
    match read {
        TagRead::TagMissing(e) => Err(other("verify tag: ", e.as_str())),
        TagRead::PeelFailed(e) => Err(other("verify: peel tag: ", e.as_str())),
        TagRead::TreeFailed(e) => Err(other("verify: commit tree: ", e.as_str())),
        TagRead::SubdirMissing => {
            let mut m = "verify: tag ".to_owned();
            m.append(tag);
            m.append(" does not contain ");
            let dir = subdir(package.slug.as_str());
            m.append(dir.as_str());
            Err(BackendError::Other(m))
        },
        TagRead::SubtreeFailed(e) => Err(other("verify: find subtree: ", e.as_str())),
        TagRead::BlobFailed(e) => Err(other("find blob: ", e.as_str())),
        TagRead::ChildFailed(e) => Err(other("find subtree: ", e.as_str())),
        TagRead::Entries { nodes, .. } => {
            let mut tagged: Vec<SkillFile> = Vec::new();
            walk_tree(nodes, "", &mut tagged);
            let ghost have = tree::walk_of(nodes@, ""@);
            proof {
                assert(skill::files_of(tagged@) =~= have);
            }
            let bad = if package.files.len() == 0 {
                let expected = expected_list(&package.files, skill_md, meta);
                find_mismatches(&tagged, &expected)
            } else {
                find_mismatches(&tagged, &package.files)
            };
            proof {
                no_mismatch_iff(have, expected_files(files, opt_bytes(*skill_md), opt_bytes(*meta)));
                assert(text::texts(bad@).len() == bad@.len());
            }
            if bad.len() == 0 {
                return Ok(());
            }
            let mut m = "tag ".to_owned();
            m.append(tag);
            m.append(" does not match the content being published: ");
            let list = text::join(&bad, ", ");
            m.append(list.as_str());
            m.append(
                ". nothing was pushed. check the registry repo's .gitignore for rules that exclude skill files, then delete the local tag and re-publish",
            );
            Err(BackendError::Invalid(m))
        },
    }
}

/// Where a publish stands: what was asked for last.
#[derive(Clone, Copy, Debug, PartialEq, Eq, Structural)]
pub enum Phase {
    Clone,
    Status,
    SkillDir,
    /// The files are written; whether they replace a directory that was there.
    Files { clear: bool },
    Commit,
    Tag,
    Verify,
    Push,
    Done,
}

/// The outside step that failed.
#[derive(Debug)]
pub enum FailedStep {
    OpenRepo,
    Status,
    ClearDir,
    CreateDir,
    MakeParent,
    WriteFile(String),
    Index,
    Stage,
    WriteIndex,
    WriteTree,
    FindTree,
    Config,
    Signature,
    Commit,
    FindCommit,
    Tag,
    ReadBack(String),
    InvokeGit,
}

/// What was found when the last action was carried out.
#[derive(Debug)]
pub enum PublishEvent {
    /// Whether the clone has a `.git`.
    CloneChecked(bool),
    /// The changed and untracked paths, without the ignored ones.
    Statuses(Vec<Option<String>>),
    /// Whether the skill's directory exists.
    DirChecked(bool),
    Written,
    Committed,
    Tagged,
    TagExists,
    /// The tag as it reads back, and the two required files as they are on disk.
    ReadBack { read: TagRead, skill_md: Option<Vec<u8>>, meta: Option<Vec<u8>> },
    Pushed,
    PushRefused { remote: String, branch: String, stderr: Vec<u8> },
    Failed { step: FailedStep, error: String },
}

/// What to do next.
#[derive(Debug)]
pub enum PublishAction {
    /// Look whether the given path exists.
    CheckClone(String),
    /// List the changed and the untracked paths of the clone.
    ListChanges,
    /// Look whether the given directory exists.
    CheckSkillDir(String),
    /// Make the directory, after removing it where `clear` says so, and write each file of the
    /// package to its destination.
    WriteFiles { dir: String, clear: bool, dests: Vec<String> },
    /// Stage the given path and commit it.
    Commit { path: String, message: String },
    /// Tag the commit; an existing tag is not moved.
    Tag { name: String, message: String },
    /// Read the given directory of the tag back, and the two required files from disk.
    ReadBack { reference: String, subdir: String, skill_dir: String },
    /// Push the branch and the tags that lead to it.
    Push,
    /// The publish is over.
    Finish(Result<PublishReceipt, BackendError>),
    /// Nothing is left to do.
    Rest,
}

/// What an action says.
pub enum ActionView {
    CheckClone(Seq<char>),
    ListChanges,
    CheckSkillDir(Seq<char>),
    WriteFiles { dir: Seq<char>, clear: bool, dests: Seq<Seq<char>> },
    Commit { path: Seq<char>, message: Seq<char> },
    Tag { name: Seq<char>, message: Seq<char> },
    ReadBack { reference: Seq<char>, subdir: Seq<char>, skill_dir: Seq<char> },
    Push,
    Finish(Result<ReceiptView, BackendErrorView>),
    Rest,
}

impl View for PublishAction {
    type V = ActionView;

    open spec fn view(&self) -> ActionView {
        match self {
            PublishAction::CheckClone(p) => ActionView::CheckClone(p@),
            PublishAction::ListChanges => ActionView::ListChanges,
            PublishAction::CheckSkillDir(p) => ActionView::CheckSkillDir(p@),
            PublishAction::WriteFiles { dir, clear, dests } => ActionView::WriteFiles {
                dir: dir@,
                clear: *clear,
                dests: text::texts(dests@),
            },
            PublishAction::Commit { path, message } => ActionView::Commit {
                path: path@,
                message: message@,
            },
            PublishAction::Tag { name, message } => ActionView::Tag {
                name: name@,
                message: message@,
            },
            PublishAction::ReadBack { reference, subdir, skill_dir } => ActionView::ReadBack {
                reference: reference@,
                subdir: subdir@,
                skill_dir: skill_dir@,
            },
            PublishAction::Push => ActionView::Push,
            PublishAction::Finish(Ok(receipt)) => ActionView::Finish(Ok(receipt@)),
            PublishAction::Finish(Err(e)) => ActionView::Finish(Err(e@)),
            PublishAction::Rest => ActionView::Rest,
        }
    }
}

/// The message of the commit and of the tag.
pub open spec fn commit_message_of(slug: Seq<char>, version: Seq<char>) -> Seq<char> {
    "publish "@ + slug + "@v"@ + version
}

/// Where each file of the package goes.
pub open spec fn dests_of(skill_dir: Seq<char>, files: Seq<FileView>) -> Seq<Seq<char>> {
    files.map_values(|f: FileView| paths::joined(skill_dir, f.path))
}

/// The error for an outside step that failed.
pub open spec fn failure_of(step: FailedStep, e: Seq<char>) -> BackendErrorView {
    match step {
        FailedStep::OpenRepo => BackendErrorView::Other("open repo: "@ + e),
        FailedStep::Status => BackendErrorView::Other("git status: "@ + e),
        FailedStep::ClearDir => BackendErrorView::Other("clear skill dir: "@ + e),
        FailedStep::CreateDir => BackendErrorView::Other("create skill dir: "@ + e),
        FailedStep::MakeParent => BackendErrorView::Other("mkdir: "@ + e),
        FailedStep::WriteFile(dest) => BackendErrorView::Other("write "@ + dest@ + ": "@ + e),
        FailedStep::Index => BackendErrorView::Other("index: "@ + e),
        FailedStep::Stage => BackendErrorView::Other("git add: "@ + e),
        FailedStep::WriteIndex => BackendErrorView::Other("write index: "@ + e),
        FailedStep::WriteTree => BackendErrorView::Other("write tree: "@ + e),
        FailedStep::FindTree => BackendErrorView::Other("find tree: "@ + e),
        FailedStep::Config => BackendErrorView::Other("git config: "@ + e),
        FailedStep::Signature => BackendErrorView::Other("signature: "@ + e),
        FailedStep::Commit => BackendErrorView::Other("git commit: "@ + e),
        FailedStep::FindCommit => BackendErrorView::Other("find commit: "@ + e),
        FailedStep::Tag => BackendErrorView::Other("git tag: "@ + e),
        FailedStep::ReadBack(name) => BackendErrorView::Other(
            "verify: read "@ + name@ + ": "@ + e,
        ),
        FailedStep::InvokeGit => BackendErrorView::Network("invoke git: "@ + e),
    }
}

/// The receipt of a publish.
pub open spec fn receipt_of(b: GithubBackend, p: SkillPackage) -> ReceiptView {
    ReceiptView {
        slug: p.slug@,
        version: p.version@,
        url: "https://github.com/"@ + b.owner@ + "/"@ + b.repo@ + "/tree/"@ + semver::tag_of(
            p.slug@,
            p.version@,
        ),
    }
}

/// What is asked for in a phase.
pub open spec fn action_in(b: GithubBackend, p: SkillPackage, phase: Phase) -> ActionView {
    let dir = backend::skill_dir_of(b.local_path@, p.slug@);
    match phase {
        Phase::Clone => ActionView::CheckClone(paths::joined(b.local_path@, ".git"@)),
        Phase::Status => ActionView::ListChanges,
        Phase::SkillDir => ActionView::CheckSkillDir(dir),
        Phase::Files { clear } => ActionView::WriteFiles {
            dir,
            clear,
            dests: dests_of(dir, skill::files_of(p.files@)),
        },
        Phase::Commit => ActionView::Commit {
            path: paths::joined("skills"@, p.slug@),
            message: commit_message_of(p.slug@, p.version@),
        },
        Phase::Tag => ActionView::Tag {
            name: semver::tag_of(p.slug@, p.version@),
            message: commit_message_of(p.slug@, p.version@),
        },
        Phase::Verify => ActionView::ReadBack {
            reference: "refs/tags/"@ + semver::tag_of(p.slug@, p.version@),
            subdir: subdir_of(p.slug@),
            skill_dir: dir,
        },
        Phase::Push => ActionView::Push,
        Phase::Done => ActionView::Rest,
    }
}

/// The phase, and what is asked for in it.
pub open spec fn enter(b: GithubBackend, p: SkillPackage, phase: Phase) -> (Phase, ActionView) {
    (phase, action_in(b, p, phase))
}

/// The end of a publish that failed.
pub open spec fn fail(e: BackendErrorView) -> (Phase, ActionView) {
    (Phase::Done, ActionView::Finish(Err(e)))
}

/// Where a publish goes from a phase on what was found, and what it asks for next. An outside step
/// that failed, whichever it is, ends a publish that is not over. What else does not answer what was
/// asked for last changes nothing, and the same is asked for again.
pub open spec fn step_of(
    b: GithubBackend,
    p: SkillPackage,
    phase: Phase,
    event: PublishEvent,
) -> (Phase, ActionView) {
    let dir = backend::skill_dir_of(b.local_path@, p.slug@);
    let tag = semver::tag_of(p.slug@, p.version@);
    match event {
        PublishEvent::Failed { step, error } => if phase == Phase::Done {
            enter(b, p, phase)
        } else {
            fail(failure_of(step, error@))
        },
        PublishEvent::CloneChecked(there) => if phase != Phase::Clone {
            enter(b, p, phase)
        } else if there {
            enter(b, p, Phase::Status)
        } else {
            fail(
                BackendErrorView::Other(
                    "no local clone at "@ + b.local_path@
                        + " — run `knack init --self-host` first"@,
                ),
            )
        },
        PublishEvent::Statuses(paths) => if phase != Phase::Status {
            enter(b, p, phase)
        } else if unrelated_dirty(paths@, p.slug@) {
            fail(
                BackendErrorView::Invalid(
                    "working tree has uncommitted changes outside skills/"@ + p.slug@
                        + ". commit or stash them first"@,
                ),
            )
        } else {
            enter(b, p, Phase::SkillDir)
        },
        PublishEvent::DirChecked(there) => if phase != Phase::SkillDir {
            enter(b, p, phase)
        } else if p.files@.len() > 0 {
            enter(b, p, Phase::Files { clear: there })
        } else if there {
            enter(b, p, Phase::Commit)
        } else {
            fail(
                BackendErrorView::NotFound(
                    "no skill at "@ + dir + " and no files in the package"@,
                ),
            )
        },
        PublishEvent::Written => if phase is Files {
            enter(b, p, Phase::Commit)
        } else {
            enter(b, p, phase)
        },
        PublishEvent::Committed => if phase != Phase::Commit {
            enter(b, p, phase)
        } else {
            enter(b, p, Phase::Tag)
        },
        PublishEvent::Tagged => if phase != Phase::Tag {
            enter(b, p, phase)
        } else {
            enter(b, p, Phase::Verify)
        },
        PublishEvent::TagExists => if phase != Phase::Tag {
            enter(b, p, phase)
        } else {
            fail(BackendErrorView::Conflict("tag "@ + tag + " already exists"@))
        },
        PublishEvent::ReadBack { read, skill_md, meta } => if phase != Phase::Verify {
            enter(b, p, phase)
        } else {
            match verify_error(
                tag,
                p.slug@,
                skill::files_of(p.files@),
                read,
                opt_bytes(skill_md),
                opt_bytes(meta),
            ) {
                Some(e) => fail(e),
                None => enter(b, p, Phase::Push),
            }
        },
        PublishEvent::Pushed => if phase != Phase::Push {
            enter(b, p, phase)
        } else {
            (Phase::Done, ActionView::Finish(Ok(receipt_of(b, p))))
        },
        PublishEvent::PushRefused { remote, branch, stderr } => if phase != Phase::Push {
            enter(b, p, phase)
        } else {
            fail(
                BackendErrorView::Network(
                    "git push "@ + remote@ + " "@ + branch@ + ": "@ + text::trimmed(utf8::shown_text(stderr@)),
                ),
            )
        },
    }
}

/// The message of the commit and of the tag.
fn commit_message(p: &SkillPackage) -> (r: String)
    ensures
        r@ == commit_message_of(p.slug@, p.version@),
{
    let mut m = "publish ".to_owned();
    m.append(p.slug.as_str());
    m.append("@v");
    m.append(p.version.as_str());
    m
}

fn dests(dir: &str, files: &Vec<SkillFile>) -> (r: Vec<String>)
    ensures
        text::texts(r@) == dests_of(dir@, skill::files_of(files@)),
{
    let n: usize = files.len();
    let mut out: Vec<String> = Vec::new();
    let mut i: usize = 0;
    while i < n
        invariant
            n == files@.len(),
            i <= n,
            out@.len() == i,
            forall|k: int|
                0 <= k < i ==> (#[trigger] out@[k])@ == paths::joined(dir@, files@[k].path@),
        decreases n - i,
    {
        out.push(join(dir, files[i].path.as_str()));
        i += 1;
    }
    proof {
        assert(text::texts(out@) =~= dests_of(dir@, skill::files_of(files@)));
    }
    out
}

fn failure(step: &FailedStep, e: &str) -> (r: BackendError)
    ensures
        r@ == failure_of(*step, e@),
{
    match step {
        FailedStep::OpenRepo => other("open repo: ", e),
        FailedStep::Status => other("git status: ", e),
        FailedStep::ClearDir => other("clear skill dir: ", e),
        FailedStep::CreateDir => other("create skill dir: ", e),
        FailedStep::MakeParent => other("mkdir: ", e),
        FailedStep::WriteFile(dest) => {
            let mut m = "write ".to_owned();
            m.append(dest.as_str());
            m.append(": ");
            other(m.as_str(), e)
        },
        FailedStep::Index => other("index: ", e),
        FailedStep::Stage => other("git add: ", e),
        FailedStep::WriteIndex => other("write index: ", e),
        FailedStep::WriteTree => other("write tree: ", e),
        FailedStep::FindTree => other("find tree: ", e),
        FailedStep::Config => other("git config: ", e),
        FailedStep::Signature => other("signature: ", e),
        FailedStep::Commit => other("git commit: ", e),
        FailedStep::FindCommit => other("find commit: ", e),
        FailedStep::Tag => other("git tag: ", e),
        FailedStep::ReadBack(name) => {
            let mut m = "verify: read ".to_owned();
            m.append(name.as_str());
            m.append(": ");
            other(m.as_str(), e)
        },
        FailedStep::InvokeGit => {
            let mut m = "invoke git: ".to_owned();
            m.append(e);
            BackendError::Network(m)
        },
    }
}

fn receipt(b: &GithubBackend, p: &SkillPackage) -> (r: PublishReceipt)
    ensures
        r@ == receipt_of(*b, *p),
{
    let mut url = "https://github.com/".to_owned();
    url.append(b.owner.as_str());
    url.append("/");
    url.append(b.repo.as_str());
    url.append("/tree/");
    let tag = tag_name(p.slug.as_str(), p.version.as_str());
    url.append(tag.as_str());
    PublishReceipt { slug: p.slug.clone(), version: p.version.clone(), url }
}

/// What is asked for in a phase.
pub fn action(b: &GithubBackend, p: &SkillPackage, phase: Phase) -> (r: PublishAction)
    ensures
        r@ == action_in(*b, *p, phase),
{
    match phase {
        Phase::Clone => PublishAction::CheckClone(join(b.local_path.as_str(), ".git")),
        Phase::Status => PublishAction::ListChanges,
        Phase::SkillDir => PublishAction::CheckSkillDir(
            skill_dir(b.local_path.as_str(), p.slug.as_str()),
        ),
        Phase::Files { clear } => {
            let dir = skill_dir(b.local_path.as_str(), p.slug.as_str());
            let dests = dests(dir.as_str(), &p.files);
            PublishAction::WriteFiles { dir, clear, dests }
        },
        Phase::Commit => PublishAction::Commit {
            path: join("skills", p.slug.as_str()),
            message: commit_message(p),
        },
        Phase::Tag => PublishAction::Tag {
            name: tag_name(p.slug.as_str(), p.version.as_str()),
            message: commit_message(p),
        },
        Phase::Verify => {
            let mut reference = "refs/tags/".to_owned();
            let tag = tag_name(p.slug.as_str(), p.version.as_str());
            reference.append(tag.as_str());
            PublishAction::ReadBack {
                reference,
                subdir: subdir(p.slug.as_str()),
                skill_dir: skill_dir(b.local_path.as_str(), p.slug.as_str()),
            }
        },
        Phase::Push => PublishAction::Push,
        Phase::Done => PublishAction::Rest,
    }
}

/// The start of a publish: the first phase and what is asked for in it.
pub fn start(b: &GithubBackend, p: &SkillPackage) -> (r: (Phase, PublishAction))
    ensures
        (r.0, r.1@) == enter(*b, *p, Phase::Clone),
{
    go(b, p, Phase::Clone)
}

fn failed(e: BackendError) -> (r: (Phase, PublishAction))
    ensures
        (r.0, r.1@) == fail(e@),
{
    (Phase::Done, PublishAction::Finish(Err(e)))
}

fn go(b: &GithubBackend, p: &SkillPackage, phase: Phase) -> (r: (Phase, PublishAction))
    ensures
        (r.0, r.1@) == enter(*b, *p, phase),
{
    (phase, action(b, p, phase))
}

/// One step of a publish.
pub fn step(b: &GithubBackend, p: &SkillPackage, phase: Phase, event: &PublishEvent) -> (r: (
    Phase,
    PublishAction,
))
    ensures
        (r.0, r.1@) == step_of(*b, *p, phase, *event),
{
    match event {
        PublishEvent::Failed { step, error } => {
            if phase == Phase::Done {
                return go(b, p, phase);
            }
            failed(failure(step, error.as_str()))
        },
        PublishEvent::CloneChecked(there) => {
            if phase != Phase::Clone {
                return go(b, p, phase);
            }
            if *there {
                return go(b, p, Phase::Status);
            }
            let mut m = "no local clone at ".to_owned();
            m.append(b.local_path.as_str());
            m.append(" — run `knack init --self-host` first");
            failed(BackendError::Other(m))
        },
        PublishEvent::Statuses(changed) => {
            if phase != Phase::Status {
                return go(b, p, phase);
            }
            if !has_unrelated_dirty(changed, p.slug.as_str()) {
                return go(b, p, Phase::SkillDir);
            }
            let mut m = "working tree has uncommitted changes outside skills/".to_owned();
            m.append(p.slug.as_str());
            m.append(". commit or stash them first");
            failed(BackendError::Invalid(m))
        },
        PublishEvent::DirChecked(there) => {
            if phase != Phase::SkillDir {
                return go(b, p, phase);
            }
            if p.files.len() > 0 {
                return go(b, p, Phase::Files { clear: *there });
            }
            if *there {
                return go(b, p, Phase::Commit);
            }
            let mut m = "no skill at ".to_owned();
            let dir = skill_dir(b.local_path.as_str(), p.slug.as_str());
            m.append(dir.as_str());
            m.append(" and no files in the package");
            failed(BackendError::NotFound(m))
        },
        PublishEvent::Written => {
            match phase {
                Phase::Files { .. } => go(b, p, Phase::Commit),
                _ => go(b, p, phase),
            }
        },
        PublishEvent::Committed => {
            if phase != Phase::Commit {
                return go(b, p, phase);
            }
            go(b, p, Phase::Tag)
        },
        PublishEvent::Tagged => {
            if phase != Phase::Tag {
                return go(b, p, phase);
            }
            go(b, p, Phase::Verify)
        },
        PublishEvent::TagExists => {
            if phase != Phase::Tag {
                return go(b, p, phase);
            }
            let mut m = "tag ".to_owned();
            let tag = tag_name(p.slug.as_str(), p.version.as_str());
            m.append(tag.as_str());
            m.append(" already exists");
            failed(BackendError::Conflict(m))
        },
        PublishEvent::ReadBack { read, skill_md, meta } => {
            if phase != Phase::Verify {
                return go(b, p, phase);
            }
            let tag = tag_name(p.slug.as_str(), p.version.as_str());
            match verify_tagged_content(tag.as_str(), p, read, skill_md, meta) {
                Ok(()) => go(b, p, Phase::Push),
                Err(e) => failed(e),
            }
        },
        PublishEvent::Pushed => {
            if phase != Phase::Push {
                return go(b, p, phase);
            }
            (Phase::Done, PublishAction::Finish(Ok(receipt(b, p))))
        },
        PublishEvent::PushRefused { remote, branch, stderr } => {
            if phase != Phase::Push {
                return go(b, p, phase);
            }
            let mut m = "git push ".to_owned();
            m.append(remote.as_str());
            m.append(" ");
            m.append(branch.as_str());
            m.append(": ");
            let said = show(stderr.as_slice());
            m.append(trim(said.as_str()));
            failed(BackendError::Network(m))
        },
    }
}

/// Whether an event is what carrying out the action of a phase can find, other than a failure.
pub open spec fn answers(phase: Phase, event: PublishEvent) -> bool {
    match phase {
        Phase::Clone => event is CloneChecked,
        Phase::Status => event is Statuses,
        Phase::SkillDir => event is DirChecked,
        Phase::Files { .. } => event is Written,
        Phase::Commit => event is Committed,
        Phase::Tag => event is Tagged || event is TagExists,
        Phase::Verify => event is ReadBack,
        Phase::Push => event is Pushed || event is PushRefused,
        Phase::Done => false,
    }
}

/// Where a publish stands after the given events, and what it asked for last.
pub open spec fn after(b: GithubBackend, p: SkillPackage, events: Seq<PublishEvent>) -> (
    Phase,
    ActionView,
)
    decreases events.len(),
{
    if events.len() == 0 {
        enter(b, p, Phase::Clone)
    } else {
        step_of(b, p, after(b, p, events.drop_last()).0, events.last())
    }
}

/// Whether an event answers a publish that asked for its tag, with every file that it was to ship,
/// each with its very bytes.
pub open spec fn verified_at(
    b: GithubBackend,
    p: SkillPackage,
    events: Seq<PublishEvent>,
    i: int,
) -> bool {
    &&& 0 <= i < events.len()
    &&& after(b, p, events.take(i)).1 is ReadBack
    &&& events[i] matches PublishEvent::ReadBack { read, skill_md, meta } && tag_is_faithful(
        skill::files_of(p.files@),
        read,
        opt_bytes(skill_md),
        opt_bytes(meta),
    )
}

/// Whether the tag was read back, at some point, with every file that it was to ship, each with its
/// very bytes.
pub open spec fn read_back_faithfully(
    b: GithubBackend,
    p: SkillPackage,
    events: Seq<PublishEvent>,
) -> bool {
    exists|i: int| #[trigger] verified_at(b, p, events, i)
}

/// Whether the changed paths were listed, at some point, with nothing outside the skill.
pub open spec fn seen_clean(p: SkillPackage, events: Seq<PublishEvent>) -> bool {
    exists|i: int|
        0 <= i < events.len() && ((#[trigger] events[i]) matches PublishEvent::Statuses(paths)
            && !unrelated_dirty(paths@, p.slug@))
}

/// Whether the push succeeded at some point.
pub open spec fn was_pushed(events: Seq<PublishEvent>) -> bool {
    exists|i: int| 0 <= i < events.len() && (#[trigger] events[i]) is Pushed
}

spec fn behind_status(phase: Phase) -> bool {
    phase != Phase::Clone && phase != Phase::Status && phase != Phase::Done
}

proof fn reached(b: GithubBackend, p: SkillPackage, events: Seq<PublishEvent>)
    ensures
        behind_status(after(b, p, events).0) ==> seen_clean(p, events),
        after(b, p, events).0 == Phase::Push ==> read_back_faithfully(b, p, events),
        after(b, p, events).1 matches ActionView::Finish(Ok(_)) ==> seen_clean(p, events)
            && read_back_faithfully(b, p, events) && was_pushed(events),
        after(b, p, events).0 != Phase::Done ==> after(b, p, events).1 == action_in(
            b,
            p,
            after(b, p, events).0,
        ),
        after(b, p, events).1 is ReadBack ==> after(b, p, events).0 == Phase::Verify,
        after(b, p, events).1 is Push ==> after(b, p, events).0 == Phase::Push,
        after(b, p, events).1 is Commit ==> after(b, p, events).0 == Phase::Commit,
        after(b, p, events).1 is WriteFiles ==> after(b, p, events).0 is Files,
        after(b, p, events).1 is Tag ==> after(b, p, events).0 == Phase::Tag,
    decreases events.len(),
{
    if events.len() > 0 {
        let t = events.drop_last();
        reached(b, p, t);
        let e = events.last();
        let at = after(b, p, t).0;
        assert(events[events.len() - 1] == e);
        if seen_clean(p, t) {
            let i = choose|i: int|
                0 <= i < t.len() && ((#[trigger] t[i]) matches PublishEvent::Statuses(paths)
                    && !unrelated_dirty(paths@, p.slug@));
            assert(events[i] == t[i]);
        }
        if read_back_faithfully(b, p, t) {
            let i = choose|i: int| #[trigger] verified_at(b, p, t, i);
            assert(events[i] == t[i]);
            assert(events.take(i) =~= t.take(i));
            assert(verified_at(b, p, events, i));
        }
        if let PublishEvent::ReadBack { read: TagRead::Entries { nodes, .. }, skill_md, meta } = e {
            no_mismatch_iff(
                tree::walk_of(nodes@, ""@),
                expected_files(skill::files_of(p.files@), opt_bytes(skill_md), opt_bytes(meta)),
            );
            assert(events.take(events.len() - 1) =~= t);
            if at == Phase::Verify && after(b, p, events).0 == Phase::Push {
                assert(verified_at(b, p, events, events.len() - 1));
            }
        }
    }
}

/// Nothing is pushed, and no success reported, unless the tag was read back and held every file
/// with exactly the bytes that were to be published.
pub proof fn nothing_is_pushed_unverified(
    b: GithubBackend,
    p: SkillPackage,
    events: Seq<PublishEvent>,
)
    ensures
        after(b, p, events).1 is Push ==> read_back_faithfully(b, p, events),
        after(b, p, events).1 matches ActionView::Finish(Ok(_)) ==> read_back_faithfully(b, p, events),
{
    reached(b, p, events);
}

/// A publish succeeds only after its push did.
pub proof fn success_means_pushed(b: GithubBackend, p: SkillPackage, events: Seq<PublishEvent>)
    ensures
        after(b, p, events).1 matches ActionView::Finish(Ok(_)) ==> was_pushed(events),
{
    reached(b, p, events);
}

/// Nothing is written, committed, tagged or pushed while the working tree has changes outside the
/// skill.
pub proof fn nothing_is_touched_while_dirty(
    b: GithubBackend,
    p: SkillPackage,
    events: Seq<PublishEvent>,
)
    ensures
        ({
            let asked = after(b, p, events).1;
            asked is WriteFiles || asked is Commit || asked is Tag || asked is Push
        }) ==> seen_clean(p, events),
{
    reached(b, p, events);
}

/// A read-back that misses a file, or holds it with other bytes, ends the publish with an error.
pub proof fn mismatch_ends_the_publish(
    b: GithubBackend,
    p: SkillPackage,
    read: TagRead,
    skill_md: Option<Vec<u8>>,
    meta: Option<Vec<u8>>,
)
    requires
        !tag_is_faithful(skill::files_of(p.files@), read, opt_bytes(skill_md), opt_bytes(meta)),
    ensures
        ({
            let next = step_of(
                b,
                p,
                Phase::Verify,
                PublishEvent::ReadBack { read, skill_md, meta },
            );
            next.0 == Phase::Done && (next.1 matches ActionView::Finish(Err(_)))
        }),
{
    if let TagRead::Entries { nodes, .. } = read {
        no_mismatch_iff(
            tree::walk_of(nodes@, ""@),
            expected_files(skill::files_of(p.files@), opt_bytes(skill_md), opt_bytes(meta)),
        );
    }
}

/// A read-back that holds every file with its very bytes leads to the push.
pub proof fn faithful_tag_is_pushed(
    b: GithubBackend,
    p: SkillPackage,
    read: TagRead,
    skill_md: Option<Vec<u8>>,
    meta: Option<Vec<u8>>,
)
    requires
        tag_is_faithful(skill::files_of(p.files@), read, opt_bytes(skill_md), opt_bytes(meta)),
    ensures
        step_of(b, p, Phase::Verify, PublishEvent::ReadBack { read, skill_md, meta }) == (
            Phase::Push,
            ActionView::Push,
        ),
{
    if let TagRead::Entries { nodes, .. } = read {
        no_mismatch_iff(
            tree::walk_of(nodes@, ""@),
            expected_files(skill::files_of(p.files@), opt_bytes(skill_md), opt_bytes(meta)),
        );
    }
}

/// A package with files replaces what is in the directory of the skill: where there is one it is
/// removed, and every file of the package goes below it.
pub proof fn published_files_replace_the_directory(b: GithubBackend, p: SkillPackage, there: bool)
    requires
        p.files@.len() > 0,
    ensures
        ({
            let dir = backend::skill_dir_of(b.local_path@, p.slug@);
            step_of(b, p, Phase::SkillDir, PublishEvent::DirChecked(there)) == (
                Phase::Files { clear: there },
                ActionView::WriteFiles {
                    dir,
                    clear: there,
                    dests: dests_of(dir, skill::files_of(p.files@)),
                },
            )
        }),
{
}

/// What does not answer what was asked for last changes nothing: the same is asked for again.
pub proof fn stray_answer_changes_nothing(
    b: GithubBackend,
    p: SkillPackage,
    phase: Phase,
    event: PublishEvent,
)
    requires
        !(event is Failed),
        !answers(phase, event),
    ensures
        step_of(b, p, phase, event) == enter(b, p, phase),
{
}

/// Whether an action of a publish was carried out as it was asked for. `before` and `then` are the
/// files below the directory of the skill, by their paths in it, before and after. A directory that
/// is not there holds no files. Writing leaves the package's files, and beside them only what was
/// not to be cleared. A tag holds nothing beside what the directory held. Nothing else touches the
/// directory.
pub open spec fn carried(
    p: SkillPackage,
    asked: ActionView,
    event: PublishEvent,
    before: Seq<FileView>,
    then: Seq<FileView>,
) -> bool {
    match (asked, event) {
        (ActionView::CheckSkillDir(_), PublishEvent::DirChecked(there)) => {
            then == before && (!there ==> before.len() == 0)
        },
        (ActionView::WriteFiles { clear, .. }, PublishEvent::Written) => if clear {
            tree::holds_nothing_else(then, skill::files_of(p.files@))
        } else {
            tree::holds_nothing_else(then, before + skill::files_of(p.files@))
        },
        (ActionView::WriteFiles { .. }, PublishEvent::Failed { .. }) => true,
        (
            ActionView::ReadBack { .. },
            PublishEvent::ReadBack { read: TagRead::Entries { nodes, .. }, .. },
        ) => {
            then == before && tree::holds_nothing_else(tree::walk_of(nodes@, ""@), before)
        },
        _ => then == before,
    }
}

/// Whether every action of a publish was carried out as it was asked for; `disks` are the files
/// below the directory of the skill before each event, and after the last.
pub open spec fn carried_out(
    b: GithubBackend,
    p: SkillPackage,
    events: Seq<PublishEvent>,
    disks: Seq<Seq<FileView>>,
) -> bool {
    &&& disks.len() == events.len() + 1
    &&& forall|i: int|
        0 <= i < events.len() ==> carried(
            p,
            after(b, p, events.take(i)).1,
            #[trigger] events[i],
            disks[i],
            disks[i + 1],
        )
}

proof fn carried_out_up_to(
    b: GithubBackend,
    p: SkillPackage,
    events: Seq<PublishEvent>,
    disks: Seq<Seq<FileView>>,
    n: int,
)
    requires
        carried_out(b, p, events, disks),
        0 <= n <= events.len(),
    ensures
        carried_out(b, p, events.take(n), disks.take(n + 1)),
{
    let t = events.take(n);
    let d = disks.take(n + 1);
    assert forall|i: int| 0 <= i < t.len() implies carried(
        p,
        after(b, p, t.take(i)).1,
        #[trigger] t[i],
        d[i],
        d[i + 1],
    ) by {
        assert(t[i] == events[i]);
        assert(t.take(i) =~= events.take(i));
    }
}

spec fn directory_fits(p: SkillPackage, at: Phase, disk: Seq<FileView>) -> bool {
    match at {
        Phase::Files { clear } => !clear ==> disk.len() == 0,
        Phase::Commit | Phase::Tag | Phase::Verify | Phase::Push => tree::holds_nothing_else(
            disk,
            skill::files_of(p.files@),
        ),
        _ => true,
    }
}

proof fn step_fits_the_directory(
    b: GithubBackend,
    p: SkillPackage,
    at: Phase,
    event: PublishEvent,
    before: Seq<FileView>,
    then: Seq<FileView>,
)
    requires
        p.files@.len() > 0,
        at != Phase::Done,
        directory_fits(p, at, before),
        carried(p, action_in(b, p, at), event, before, then),
    ensures
        directory_fits(p, step_of(b, p, at, event).0, then),
{
    let files = skill::files_of(p.files@);
    if before.len() == 0 {
        assert(before + files =~= files);
    }
}

proof fn phase_tells_what_is_asked(b: GithubBackend, p: SkillPackage, events: Seq<PublishEvent>)
    ensures
        after(b, p, events).0 != Phase::Done ==> after(b, p, events).1 == action_in(
            b,
            p,
            after(b, p, events).0,
        ),
{
    reached(b, p, events);
}

proof fn directory_holds_only_the_package(
    b: GithubBackend,
    p: SkillPackage,
    events: Seq<PublishEvent>,
    disks: Seq<Seq<FileView>>,
)
    requires
        p.files@.len() > 0,
        carried_out(b, p, events, disks),
    ensures
        directory_fits(p, after(b, p, events).0, disks.last()),
    decreases events.len(),
{
    if events.len() > 0 {
        let n = events.len() - 1;
        let t = events.drop_last();
        let d = disks.take(n + 1);
        assert(events.take(n) =~= t);
        carried_out_up_to(b, p, events, disks, n);
        directory_holds_only_the_package(b, p, t, d);
        assert(events[n] == events.last());
        assert(d.last() == disks[n]);
        assert(disks.last() == disks[n + 1]);
        let at = after(b, p, t).0;
        phase_tells_what_is_asked(b, p, t);
        if at != Phase::Done {
            step_fits_the_directory(b, p, at, events[n], disks[n], disks[n + 1]);
        }
    }
}

/// The tag of a publish that was carried out as it was asked for holds nothing beside the files of
/// the package: what an earlier version left in the directory was removed before.
pub proof fn tag_holds_only_the_package(
    b: GithubBackend,
    p: SkillPackage,
    events: Seq<PublishEvent>,
    disks: Seq<Seq<FileView>>,
    i: int,
)
    requires
        p.files@.len() > 0,
        carried_out(b, p, events, disks),
        verified_at(b, p, events, i),
    ensures
        tree::holds_nothing_else(
            tree::walk_of(events[i]->read->nodes@, ""@),
            skill::files_of(p.files@),
        ),
{
    carried_out_up_to(b, p, events, disks, i);
    directory_holds_only_the_package(b, p, events.take(i), disks.take(i + 1));
    reached(b, p, events.take(i));
    assert(disks.take(i + 1).last() == disks[i]);
    tree::nothing_else_of_nothing_else(
        tree::walk_of(events[i]->read->nodes@, ""@),
        disks[i],
        skill::files_of(p.files@),
    );
}

/// Changes below `skills/<slug>/`, at whatever depth, are the publish's own and do not hold it up:
/// where every changed path that is text starts so, the publish goes on.
pub proof fn own_changes_do_not_hold_up_a_publish(
    b: GithubBackend,
    p: SkillPackage,
    paths: Vec<Option<String>>,
)
    requires
        forall|i: int|
            0 <= i < paths@.len() && (#[trigger] paths@[i]) is Some ==> ("skills/"@ + p.slug@
                + "/"@).is_prefix_of(paths@[i]->0@) || paths@[i]->0@ == "skills/"@ + p.slug@,
    ensures
        !unrelated_dirty(paths@, p.slug@),
        step_of(b, p, Phase::Status, PublishEvent::Statuses(paths)).0 == Phase::SkillDir,
        step_of(b, p, Phase::Status, PublishEvent::Statuses(paths)).1 is CheckSkillDir,
{
}

/// Whatever stands behind `skills/<slug>/` in a path, slashes included, is the skill's.
pub proof fn everything_below_belongs_to_the_skill(slug: Seq<char>, rest: Seq<char>)
    ensures
        belongs_to("skills/"@ + slug + "/"@ + rest, slug),
{
    let head = "skills/"@ + slug + "/"@;
    let path = head + rest;
    assert(head =~= path.subrange(0, head.len() as int));
}

/// A changed path that is neither `skills/<slug>` nor starts with `skills/<slug>/` ends the publish
/// with an error, wherever it stands in the list: nothing is written, committed, tagged or pushed.
pub proof fn foreign_change_ends_the_publish(
    b: GithubBackend,
    p: SkillPackage,
    paths: Vec<Option<String>>,
    i: int,
)
    requires
        0 <= i < paths@.len(),
        paths@[i] is Some,
        paths@[i]->0@ != "skills/"@ + p.slug@,
        !("skills/"@ + p.slug@ + "/"@).is_prefix_of(paths@[i]->0@),
    ensures
        unrelated_dirty(paths@, p.slug@),
        step_of(b, p, Phase::Status, PublishEvent::Statuses(paths)) == (
            Phase::Done,
            ActionView::Finish(
                Err::<ReceiptView, BackendErrorView>(
                    BackendErrorView::Invalid(
                        "working tree has uncommitted changes outside skills/"@ + p.slug@
                            + ". commit or stash them first"@,
                    ),
                ),
            ),
        ),
{
    assert(paths@[i] is Some && !belongs_to(paths@[i]->0@, p.slug@));
}

/// A tag that was read back is pushed exactly when it holds what was to be shipped: each file of the
/// package with its very bytes; or, where the package carries no files, the `SKILL.md` and the
/// `meta.knack.yaml` that are on disk. Otherwise the publish ends with an error.
pub proof fn tag_is_pushed_iff_it_holds_the_files(
    b: GithubBackend,
    p: SkillPackage,
    nodes: Vec<TreeNode>,
    commit_secs: i64,
    skill_md: Option<Vec<u8>>,
    meta: Option<Vec<u8>>,
)
    ensures
        ({
            let next = step_of(
                b,
                p,
                Phase::Verify,
                PublishEvent::ReadBack {
                    read: TagRead::Entries { nodes, commit_secs },
                    skill_md,
                    meta,
                },
            );
            let tagged = tree::walk_of(nodes@, Seq::empty());
            let held = if p.files@.len() > 0 {
                forall|i: int|
                    0 <= i < p.files@.len() ==> tree::bytes_at(
                        tagged,
                        (#[trigger] p.files@[i]).path@,
                    ) == Some(p.files@[i].bytes@)
            } else {
                &&& skill_md matches Some(x) ==> tree::bytes_at(tagged, "SKILL.md"@) == Some(x@)
                &&& meta matches Some(x) ==> tree::bytes_at(tagged, "meta.knack.yaml"@) == Some(x@)
            };
            &&& held ==> next == (Phase::Push, ActionView::Push)
            &&& !held ==> next.0 == Phase::Done && next.1 is Finish && next.1->Finish_0 is Err
        }),
{
    reveal_strlit("");
    assert(""@ =~= Seq::<char>::empty());
    let tagged = tree::walk_of(nodes@, Seq::empty());
    let files = skill::files_of(p.files@);
    let expected = expected_files(files, opt_bytes(skill_md), opt_bytes(meta));
    no_mismatch_iff(tagged, expected);
    if p.files@.len() > 0 {
        assert(expected == files);
        if content_matches(tagged, expected) {
            assert forall|i: int| 0 <= i < p.files@.len() implies tree::bytes_at(
                tagged,
                (#[trigger] p.files@[i]).path@,
            ) == Some(p.files@[i].bytes@) by {
                assert(expected[i] == p.files@[i]@);
            }
        }
        if forall|i: int|
            0 <= i < p.files@.len() ==> tree::bytes_at(tagged, (#[trigger] p.files@[i]).path@) == Some(
                p.files@[i].bytes@,
            ) {
            assert forall|i: int| 0 <= i < expected.len() implies tree::bytes_at(
                tagged,
                (#[trigger] expected[i]).path,
            ) == Some(expected[i].bytes) by {
                assert(expected[i] == p.files@[i]@);
            }
        }
    } else {
        assert(files.len() == 0);
        if content_matches(tagged, expected) {
            if skill_md is Some {
                assert(expected[0].path == "SKILL.md"@);
            }
            if meta is Some {
                assert(expected[expected.len() - 1].path == "meta.knack.yaml"@);
            }
        }
    }
}

/// The tag that a publish makes is `<slug>/v<version>`; it is the one that is read back and the one
/// that the receipt points to, and the commit and the tag say which version was published.
pub proof fn one_tag_is_made_read_and_reported(b: GithubBackend, p: SkillPackage)
    ensures
        ({
            let tag = p.slug@ + "/v"@ + p.version@;
            let said = "publish "@ + p.slug@ + "@v"@ + p.version@;
            &&& step_of(b, p, Phase::Commit, PublishEvent::Committed).1 == ActionView::Tag {
                name: tag,
                message: said,
            }
            &&& step_of(b, p, Phase::Tag, PublishEvent::Tagged).1 matches ActionView::ReadBack {
                reference,
                subdir,
                ..
            } && reference == "refs/tags/"@ + tag && subdir == "skills/"@ + p.slug@
            &&& step_of(b, p, Phase::Tag, PublishEvent::TagExists).1 matches ActionView::Finish(
                Err(BackendErrorView::Conflict(m)),
            ) && m == "tag "@ + tag + " already exists"@
            &&& forall|clear: bool|
                (#[trigger] step_of(b, p, Phase::Files { clear }, PublishEvent::Written)).1 == (
                ActionView::Commit { path: paths::joined("skills"@, p.slug@), message: said })
            &&& step_of(b, p, Phase::Push, PublishEvent::Pushed).1 matches ActionView::Finish(Ok(r))
                && r.slug == p.slug@ && r.version == p.version@ && r.url == "https://github.com/"@
                + b.owner@ + "/"@ + b.repo@ + "/tree/"@ + tag
        }),
{
}

/// Each file of a package is written below `<clone>/skills/<slug>/`, at its own path.
pub proof fn files_are_written_below_the_skill(
    b: GithubBackend,
    p: SkillPackage,
    there: bool,
    i: int,
)
    requires
        0 <= i < p.files@.len(),
        b.local_path@.len() > 0 && b.local_path@.last() != '/',
        p.slug@.len() > 0 && p.slug@[0] != '/' && p.slug@.last() != '/',
        p.files@[i].path@.len() > 0 && p.files@[i].path@[0] != '/',
    ensures
        step_of(b, p, Phase::SkillDir, PublishEvent::DirChecked(there)).1 matches
            ActionView::WriteFiles { dir, clear, dests } && dir == b.local_path@ + "/skills/"@
            + p.slug@ && clear == there && dests.len() == p.files@.len() && dests[i] == dir + "/"@
            + p.files@[i].path@,
{
    reveal_strlit("/");
    reveal_strlit("skills");
    reveal_strlit("/skills/");
    let l = b.local_path@;
    let s = l + seq!['/'] + "skills"@;
    let dir = s + seq!['/'] + p.slug@;
    paths::joining_puts_one_slash(l, "skills"@);
    paths::joining_puts_one_slash(s, p.slug@);
    assert(s.last() == 's');
    assert(dir.last() == p.slug@.last());
    paths::joining_puts_one_slash(dir, p.files@[i].path@);
    assert("/"@ =~= seq!['/']);
    assert(dir =~= l + "/skills/"@ + p.slug@);
    assert(backend::skill_dir_of(l, p.slug@) == dir);
    assert(skill::files_of(p.files@)[i].path == p.files@[i].path@);
}

/// A publish without a clone, of a package without files into a directory that is not there, or
/// whose push is refused, ends with an error that says so; a clone that is there is looked over
/// first.
pub proof fn publish_fails_where_it_cannot_go_on(
    b: GithubBackend,
    p: SkillPackage,
    there: bool,
    remote: String,
    branch: String,
    stderr: Vec<u8>,
)
    ensures
        step_of(b, p, Phase::Clone, PublishEvent::CloneChecked(true)) == (
            Phase::Status,
            ActionView::ListChanges,
        ),
        step_of(b, p, Phase::Clone, PublishEvent::CloneChecked(false)).1 matches ActionView::Finish(
            Err(BackendErrorView::Other(_)),
        ),
        p.files@.len() == 0 ==> (step_of(
            b,
            p,
            Phase::SkillDir,
            PublishEvent::DirChecked(there),
        ).1 is Commit <==> there),
        p.files@.len() == 0 && !there ==> (step_of(
            b,
            p,
            Phase::SkillDir,
            PublishEvent::DirChecked(there),
        ).1 matches ActionView::Finish(Err(BackendErrorView::NotFound(_)))),
        step_of(b, p, Phase::Push, PublishEvent::PushRefused { remote, branch, stderr }).1 matches
            ActionView::Finish(Err(BackendErrorView::Network(_))),
{
}

/// A publish looks for the clone's `.git` first, then at the skill's directory in the clone, and
/// reads the two required files back from that same directory.
pub proof fn publish_works_in_the_clone(b: GithubBackend, p: SkillPackage)
    requires
        b.local_path@.len() > 0 && b.local_path@.last() != '/',
        p.slug@.len() > 0 && p.slug@[0] != '/',
    ensures
        after(b, p, Seq::empty()) == (
            Phase::Clone,
            ActionView::CheckClone(b.local_path@ + "/.git"@),
        ),
        action_in(b, p, Phase::SkillDir) == ActionView::CheckSkillDir(
            b.local_path@ + "/skills/"@ + p.slug@,
        ),
        action_in(b, p, Phase::Verify) matches ActionView::ReadBack { skill_dir, .. } && skill_dir
            == b.local_path@ + "/skills/"@ + p.slug@,
        action_in(b, p, Phase::Commit) matches ActionView::Commit { path, .. } && path == "skills/"@
            + p.slug@,
{
    reveal_strlit(".git");
    reveal_strlit("/.git");
    reveal_strlit("skills");
    reveal_strlit("skills/");
    reveal_strlit("/skills/");
    let l = b.local_path@;
    let s = l + seq!['/'] + "skills"@;
    paths::joining_puts_one_slash(l, ".git"@);
    paths::joining_puts_one_slash(l, "skills"@);
    paths::joining_puts_one_slash(s, p.slug@);
    paths::joining_puts_one_slash("skills"@, p.slug@);
    assert(s.last() == 's');
    assert("skills"@.last() == 's');
    assert(l + seq!['/'] + ".git"@ =~= l + "/.git"@);
    assert(s + seq!['/'] + p.slug@ =~= l + "/skills/"@ + p.slug@);
    assert("skills"@ + seq!['/'] + p.slug@ =~= "skills/"@ + p.slug@);
}

/// The error of a failed read-back names each expected file that the tag misses, and each that it
/// holds with other bytes, as what it is.
pub proof fn every_bad_file_is_named(
    tagged: Seq<FileView>,
    expected: Seq<FileView>,
    i: int,
)
    requires
        0 <= i < expected.len(),
    ensures
        match tree::bytes_at(tagged, expected[i].path) {
            None => mismatches(tagged, expected).contains(expected[i].path + " (missing from tag)"@),
            Some(b) => b != expected[i].bytes ==> mismatches(tagged, expected).contains(
                expected[i].path + " (content differs)"@,
            ),
        },
    decreases expected.len(),
{
    let t = expected.drop_last();
    let before = mismatches(tagged, t);
    let all = mismatches(tagged, expected);
    if i < t.len() {
        every_bad_file_is_named(tagged, t, i);
        assert(t[i] == expected[i]);
        assert forall|x: Seq<char>| before.contains(x) implies all.contains(x) by {
            let k = choose|k: int| 0 <= k < before.len() && before[k] == x;
            assert(all[k] == x);
        }
    } else {
        assert(expected[i] == expected.last());
        if all.len() > before.len() {
            assert(all[before.len() as int] == all.last());
        }
    }
}

/// An outside step that failed ends a publish that is not over, with an error that tells what the
/// step said; only a `git` that cannot be run for the push counts as the network's.
pub proof fn failed_step_ends_the_publish(
    b: GithubBackend,
    p: SkillPackage,
    phase: Phase,
    step: FailedStep,
    error: String,
)
    requires
        phase != Phase::Done,
    ensures
        step_of(b, p, phase, PublishEvent::Failed { step, error }).0 == Phase::Done,
        step_of(b, p, phase, PublishEvent::Failed { step, error }).1 matches ActionView::Finish(Err(e))
            && (e is Network <==> step is InvokeGit) && (e is Other <==> !(step is InvokeGit))
            && error@.is_suffix_of(errors::backend_message_of(e)),
{
    let e = failure_of(step, error@);
    let m = errors::backend_message_of(e);
    assert(error@ =~= m.subrange(m.len() - error@.len(), m.len() as int));
}

} // verus!
