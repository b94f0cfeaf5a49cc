//! Pulling a version of a skill out of the local clone of a self-hosted registry.
use vstd::prelude::*;

use crate::backend::GithubBackend;
use crate::clock;
use crate::clock::{commit_time, Timestamp};
use crate::errors::{BackendError, BackendErrorView};
use crate::number;
use crate::paths;
use crate::publish;
use crate::publish::{subdir, PublishEvent, TagRead};
use crate::semver;
use crate::semver::{find_latest_tag, tag_name, version_of_tag};
use crate::skill;
use crate::skill::{FileView, SkillFile, SkillManifest, SkillPackage};
use crate::text;
use crate::tree;
use crate::tree::{walk_tree, TreeNode};

verus! {

/// What was found of the local clone.
#[derive(Debug)]
pub enum CloneState {
    /// There is no `.git`.
    Missing,
    /// The repository does not open.
    Unreadable(String),
    /// The repository opens, its tags cannot be listed.
    TagsUnreadable(String),
    /// The tags whose names are text.
    Tags(Vec<String>),
}

/// What keeps a pull from having a tag to read, if anything.
pub open spec fn no_tag_error(
    local_path: Seq<char>,
    slug: Seq<char>,
    version: Option<Seq<char>>,
    state: CloneState,
) -> Option<BackendErrorView> {
    match state {
        CloneState::Missing => Some(BackendErrorView::Other("no local clone at "@ + local_path)),
        CloneState::Unreadable(e) => Some(BackendErrorView::Other("open repo: "@ + e@)),
        CloneState::TagsUnreadable(e) => if version is Some {
            None
        } else {
            Some(BackendErrorView::Other("tag list: "@ + e@))
        },
        CloneState::Tags(names) => if version is Some || (exists|j: int|
            0 <= j < names@.len() && semver::tagged_version((#[trigger] names@[j])@, slug) is Some) {
            None
        } else {
            Some(BackendErrorView::NotFound("no versions of "@ + slug))
        },
    }
}

/// Whether a pull reads a tag: that of the version asked for, or else the latest one.
pub open spec fn reads_tag(
    slug: Seq<char>,
    version: Option<Seq<char>>,
    state: CloneState,
    tag: Seq<char>,
) -> bool {
    match version {
        Some(v) => tag == semver::tag_of(slug, v),
        None => state is Tags && exists|i: int|
            #[trigger] semver::is_latest(text::texts(state->Tags_0@), slug, i) && tag
                == state->Tags_0@[i]@,
    }
}

/// The tag that a pull reads: that of the version asked for, or else the latest one.
pub fn tag_to_pull(
    local_path: &str,
    slug: &str,
    version: Option<&str>,
    state: &CloneState,
) -> (r: Result<String, BackendError>)
    ensures
        r is Ok <==> no_tag_error(local_path@, slug@, text::opt_slice(version), *state) is None,
        r matches Err(e) ==> Some(e@) == no_tag_error(
            local_path@,
            slug@,
            text::opt_slice(version),
            *state,
        ),
        r matches Ok(tag) ==> match version {
            Some(v) => tag@ == semver::tag_of(slug@, v@),
            None => *state is Tags && exists|i: int|
                #[trigger] semver::is_latest(text::texts(state->Tags_0@), slug@, i) && tag@
                    == state->Tags_0@[i]@,
        },
        r matches Ok(tag) ==> reads_tag(slug@, text::opt_slice(version), *state, tag@),
{
    match state {
        CloneState::Missing => {
            let mut m = "no local clone at ".to_owned();
            m.append(local_path);
            Err(BackendError::Other(m))
        },
        CloneState::Unreadable(e) => {
            let mut m = "open repo: ".to_owned();
            m.append(e.as_str());
            Err(BackendError::Other(m))
        },
        CloneState::TagsUnreadable(e) => match version {
            Some(v) => Ok(tag_name(slug, v)),
            None => {
                let mut m = "tag list: ".to_owned();
                m.append(e.as_str());
                Err(BackendError::Other(m))
            },
        },
        CloneState::Tags(names) => match version {
            Some(v) => Ok(tag_name(slug, v)),
            None => match find_latest_tag(names, slug) {
                Some(tag) => {
                    proof {
                        let i = choose|i: int|
                            #[trigger] semver::is_latest(text::texts(names@), slug@, i) && tag@
                                == names@[i]@;
                        assert(semver::tagged_version(names@[i]@, slug@) is Some);
                    }
                    Ok(tag)
                },
                None => {
                    let mut m = "no versions of ".to_owned();
                    m.append(slug);
                    Err(BackendError::NotFound(m))
                },
            },
        },
    }
}

/// What keeps a pull from having the files of a tag, if anything.
pub open spec fn read_error(
    slug: Seq<char>,
    tag: Seq<char>,
    read: TagRead,
) -> Option<BackendErrorView> {
    match read {
        TagRead::TagMissing(_) => Some(BackendErrorView::NotFound("tag "@ + tag + " not found"@)),
        TagRead::PeelFailed(e) => Some(BackendErrorView::Other("peel to commit: "@ + e@)),
        TagRead::TreeFailed(e) => Some(BackendErrorView::Other("commit tree: "@ + e@)),
        TagRead::SubdirMissing => Some(
            BackendErrorView::NotFound(publish::subdir_of(slug) + " not in tag "@ + tag),
        ),
        TagRead::SubtreeFailed(e) => Some(BackendErrorView::Other("find subtree: "@ + e@)),
        TagRead::BlobFailed(e) => Some(BackendErrorView::Other("find blob: "@ + e@)),
        TagRead::ChildFailed(e) => Some(BackendErrorView::Other("find subtree: "@ + e@)),
        TagRead::Entries { .. } => None,
    }
}

/// The version that a pulled package says it is: the one asked for, or else the one that the tag
/// shows.
pub open spec fn pulled_version(version: Option<Seq<char>>, tag: Seq<char>) -> Seq<char> {
    match version {
        Some(v) => v,
        None => semver::shown_version(tag),
    }
}

/// Whether a package is the given version of a skill, made of the given files.
pub open spec fn is_package(
    p: SkillPackage,
    slug: Seq<char>,
    version: Seq<char>,
    files: Seq<FileView>,
    created_at: Timestamp,
) -> bool {
    &&& p.slug@ == slug
    &&& p.version@ == version
    &&& skill::files_of(p.files@) == files
    &&& p.manifest.slug@ == slug
    &&& p.manifest.version@ == version
    &&& p.manifest.description is None
    &&& p.manifest.entry@ == "SKILL.md"@
    &&& text::texts(p.manifest.assets@) == skill::paths_of(files)
    &&& p.manifest.created_at == created_at
}

fn paths_list(files: &Vec<SkillFile>) -> (r: Vec<String>)
    ensures
        text::texts(r@) == skill::paths_of(skill::files_of(files@)),
{
    let n: usize = files.len();
    let mut out: Vec<String> = Vec::new();
    let mut i: usize = 0;
    while i < n
        invariant
            n == files@.len(),
            i <= n,
            out@.len() == i,
            forall|k: int| 0 <= k < i ==> (#[trigger] out@[k])@ == files@[k].path@,
        decreases n - i,
    {
        out.push(files[i].path.clone());
        i += 1;
    }
    proof {
        assert(text::texts(out@) =~= skill::paths_of(skill::files_of(files@)));
    }
    out
}

/// The package that a tag holds.
pub fn package_of(
    slug: &str,
    version: Option<&str>,
    tag: &str,
    read: &TagRead,
    now: Timestamp,
) -> (r: Result<SkillPackage, BackendError>)
    ensures
        r is Ok <==> *read is Entries,
        r matches Err(e) ==> Some(e@) == read_error(slug@, tag@, *read),
        r matches Ok(p) ==> is_package(
            p,
            slug@,
            pulled_version(text::opt_slice(version), tag@),
            tree::walk_of(read->nodes@, ""@),
            clock::second_or(read->commit_secs as int, now),
        ),
{
    match read {
        TagRead::TagMissing(_) => {
            let mut m = "tag ".to_owned();
            m.append(tag);
            m.append(" not found");
            Err(BackendError::NotFound(m))
        },
        TagRead::PeelFailed(e) => {
            let mut m = "peel to commit: ".to_owned();
            m.append(e.as_str());
            Err(BackendError::Other(m))
        },
        TagRead::TreeFailed(e) => {
            let mut m = "commit tree: ".to_owned();
            m.append(e.as_str());
            Err(BackendError::Other(m))
        },
        TagRead::SubdirMissing => {
            let mut m = subdir(slug);
            m.append(" not in tag ");
            m.append(tag);
            Err(BackendError::NotFound(m))
        },
        TagRead::SubtreeFailed(e) | TagRead::ChildFailed(e) => {
            let mut m = "find subtree: ".to_owned();
            m.append(e.as_str());
            Err(BackendError::Other(m))
        },
        TagRead::BlobFailed(e) => {
            let mut m = "find blob: ".to_owned();
            m.append(e.as_str());
            Err(BackendError::Other(m))
        },
        TagRead::Entries { nodes, commit_secs } => {
            let mut files: Vec<SkillFile> = Vec::new();
            walk_tree(nodes, "", &mut files);
            proof {
                assert(skill::files_of(files@) =~= tree::walk_of(nodes@, ""@));
            }
            let version = match version {
                Some(v) => v.to_owned(),
                None => version_of_tag(tag),
            };
            let manifest = SkillManifest {
                slug: slug.to_owned(),
                version: version.clone(),
                description: None,
                entry: "SKILL.md".to_owned(),
                assets: paths_list(&files),
                created_at: commit_time(*commit_secs, now),
            };
            Ok(SkillPackage { slug: slug.to_owned(), version, manifest, files })
        },
    }
}

/// A pull gives back what a publish shipped: where the tag was found faithful to the files that
/// were published, the package pulled from it holds each of them with its very bytes.
pub proof fn pull_gives_back_what_was_published(
    published: SkillPackage,
    skill_md: Option<Vec<u8>>,
    meta: Option<Vec<u8>>,
    read: TagRead,
    pulled: SkillPackage,
    version: Seq<char>,
    created_at: Timestamp,
    i: int,
)
    requires
        publish::tag_is_faithful(
            skill::files_of(published.files@),
            read,
            publish::opt_bytes(skill_md),
            publish::opt_bytes(meta),
        ),
        is_package(
            pulled,
            published.slug@,
            version,
            tree::walk_of(read->nodes@, ""@),
            created_at,
        ),
        0 <= i < publish::expected_files(
            skill::files_of(published.files@),
            publish::opt_bytes(skill_md),
            publish::opt_bytes(meta),
        ).len(),
    ensures
        ({
            let f = publish::expected_files(
                skill::files_of(published.files@),
                publish::opt_bytes(skill_md),
                publish::opt_bytes(meta),
            )[i];
            tree::bytes_at(skill::files_of(pulled.files@), f.path) == Some(f.bytes)
        }),
{
}

proof fn bytes_at_one_path(files: Seq<FileView>, p: Seq<char>, q: Seq<char>)
    requires
        paths::same_path(p, q),
    ensures
        tree::bytes_at(files, p) == tree::bytes_at(files, q),
    decreases files.len(),
{
    if files.len() > 0 {
        bytes_at_one_path(files.drop_last(), p, q);
    }
}

proof fn bytes_come_from_a_file(files: Seq<FileView>, path: Seq<char>)
    ensures
        match tree::bytes_at(files, path) {
            Some(bytes) => exists|i: int|
                0 <= i < files.len() && paths::same_path((#[trigger] files[i]).path, path)
                    && files[i].bytes == bytes,
            None => forall|i: int|
                0 <= i < files.len() ==> !paths::same_path((#[trigger] files[i]).path, path),
        },
    decreases files.len(),
{
    if files.len() > 0 {
        let t = files.drop_last();
        bytes_come_from_a_file(t, path);
        assert(files[files.len() - 1] == files.last());
        if !paths::same_path(files.last().path, path) {
            match tree::bytes_at(t, path) {
                Some(bytes) => {
                    let i = choose|i: int|
                        0 <= i < t.len() && paths::same_path((#[trigger] t[i]).path, path)
                            && t[i].bytes == bytes;
                    assert(files[i] == t[i]);
                },
                None => {
                    assert forall|i: int| 0 <= i < files.len() implies !paths::same_path(
                        (#[trigger] files[i]).path,
                        path,
                    ) by {
                        if i < t.len() {
                            assert(t[i] == files[i]);
                        }
                    }
                },
            }
        }
    }
}

/// A pull of what was published, by its version or as the latest, gives back the package as it was:
/// where the tag was found faithful to its files, and holds nothing beside them, the pulled files
/// are the published ones as a map from path to bytes, with nothing missing, altered or left over.
pub proof fn pull_gives_back_exactly_what_was_published(
    published: SkillPackage,
    asked: Option<Seq<char>>,
    skill_md: Option<Vec<u8>>,
    meta: Option<Vec<u8>>,
    read: TagRead,
    pulled: SkillPackage,
    created_at: Timestamp,
    path: Seq<char>,
)
    requires
        published.files@.len() > 0,
        asks_for(asked, published),
        publish::tag_is_faithful(
            skill::files_of(published.files@),
            read,
            publish::opt_bytes(skill_md),
            publish::opt_bytes(meta),
        ),
        tree::holds_nothing_else(
            tree::walk_of(read->nodes@, ""@),
            skill::files_of(published.files@),
        ),
        is_package(
            pulled,
            published.slug@,
            pulled_version(asked, semver::tag_of(published.slug@, published.version@)),
            tree::walk_of(read->nodes@, ""@),
            created_at,
        ),
    ensures
        pulled.slug@ == published.slug@,
        pulled.version@ == published.version@,
        tree::bytes_at(skill::files_of(pulled.files@), path) == tree::bytes_at(
            skill::files_of(published.files@),
            path,
        ),
{
    if asked is None {
        pulled_package_says_its_version(published.slug@, published.version@);
    }
    let files = skill::files_of(published.files@);
    let tagged = tree::walk_of(read->nodes@, ""@);
    bytes_come_from_a_file(files, path);
    bytes_come_from_a_file(tagged, path);
    match tree::bytes_at(files, path) {
        Some(bytes) => {
            let i = choose|i: int|
                0 <= i < files.len() && paths::same_path((#[trigger] files[i]).path, path)
                    && files[i].bytes == bytes;
            assert(tree::bytes_at(tagged, files[i].path) == Some(bytes));
            bytes_at_one_path(tagged, files[i].path, path);
        },
        None => {
            if let Some(bytes) = tree::bytes_at(tagged, path) {
                let j = choose|j: int|
                    0 <= j < tagged.len() && paths::same_path((#[trigger] tagged[j]).path, path)
                        && tagged[j].bytes == bytes;
                assert(tree::has_path(files, tagged[j].path));
                let i = choose|i: int|
                    0 <= i < files.len() && paths::same_path(
                        (#[trigger] files[i]).path,
                        tagged[j].path,
                    );
                assert(paths::same_path(files[i].path, path));
            }
        },
    }
}

/// Whether a package is another one: the same skill, the same version, and the same files as a map
/// from path to bytes.
pub open spec fn same_package(q: SkillPackage, p: SkillPackage) -> bool {
    &&& q.slug@ == p.slug@
    &&& q.version@ == p.version@
    &&& forall|path: Seq<char>| #[trigger]
        tree::bytes_at(skill::files_of(q.files@), path) == tree::bytes_at(
            skill::files_of(p.files@),
            path,
        )
}

/// Whether a pull, asked for a version or for the latest, that reads the given tree at the tag of a
/// package gives that package.
pub open spec fn pulls_back(p: SkillPackage, asked: Option<Seq<char>>, read: TagRead) -> bool {
    &&& read is Entries
    &&& forall|q: SkillPackage, created_at: Timestamp| #[trigger]
        is_package(
            q,
            p.slug@,
            pulled_version(asked, semver::tag_of(p.slug@, p.version@)),
            tree::walk_of(read->nodes@, ""@),
            created_at,
        ) ==> same_package(q, p)
}

/// Whether a pull is asked for the version of a package, or for the latest where the tag of the
/// package shows its version.
pub open spec fn asks_for(asked: Option<Seq<char>>, p: SkillPackage) -> bool {
    match asked {
        Some(v) => v == p.version@,
        None => !p.version@.contains('/') && (p.version@.len() > 0 ==> p.version@[0] != 'v'),
    }
}

proof fn faithful_tag_is_pulled_back(
    p: SkillPackage,
    asked: Option<Seq<char>>,
    read: TagRead,
    skill_md: Option<Vec<u8>>,
    meta: Option<Vec<u8>>,
)
    requires
        p.files@.len() > 0,
        asks_for(asked, p),
        publish::tag_is_faithful(
            skill::files_of(p.files@),
            read,
            publish::opt_bytes(skill_md),
            publish::opt_bytes(meta),
        ),
        tree::holds_nothing_else(tree::walk_of(read->nodes@, ""@), skill::files_of(p.files@)),
    ensures
        pulls_back(p, asked, read),
{
    assert forall|q: SkillPackage, created_at: Timestamp| #[trigger]
        is_package(
            q,
            p.slug@,
            pulled_version(asked, semver::tag_of(p.slug@, p.version@)),
            tree::walk_of(read->nodes@, ""@),
            created_at,
        ) implies same_package(q, p) by {
        assert forall|path: Seq<char>| #[trigger]
            tree::bytes_at(skill::files_of(q.files@), path) == tree::bytes_at(
                skill::files_of(p.files@),
                path,
            ) by {
            pull_gives_back_exactly_what_was_published(
                p,
                asked,
                skill_md,
                meta,
                read,
                q,
                created_at,
                path,
            );
        }
        pull_gives_back_exactly_what_was_published(
            p,
            asked,
            skill_md,
            meta,
            read,
            q,
            created_at,
            Seq::empty(),
        );
    }
}

/// A publish that succeeded had read its tag back, when it asked for that, as a tree from which a
/// pull gives the package back, provided that the tree holds nothing beside the package's files.
pub proof fn published_tag_is_pulled_back(
    b: GithubBackend,
    p: SkillPackage,
    events: Seq<PublishEvent>,
    asked: Option<Seq<char>>,
)
    requires
        p.files@.len() > 0,
        asks_for(asked, p),
        publish::after(b, p, events).1 matches publish::ActionView::Finish(Ok(_)),
    ensures
        exists|i: int|
            #[trigger] publish::verified_at(b, p, events, i) && (tree::holds_nothing_else(
                tree::walk_of(events[i]->read->nodes@, ""@),
                skill::files_of(p.files@),
            ) ==> pulls_back(p, asked, events[i]->read)),
{
    publish::nothing_is_pushed_unverified(b, p, events);
    let i = choose|i: int| #[trigger] publish::verified_at(b, p, events, i);
    let read = events[i]->read;
    if tree::holds_nothing_else(
        tree::walk_of(read->nodes@, ""@),
        skill::files_of(p.files@),
    ) {
        faithful_tag_is_pulled_back(p, asked, read, events[i]->skill_md, events[i]->meta);
    }
}

/// Publish, then pull: where every step of a publish was carried out as it was asked for, and the
/// publish succeeded, a pull that reads the tag as the publish read it back gives the package back,
/// with nothing missing, altered or left over from an earlier version.
pub proof fn pull_after_publish_gives_the_package_back(
    b: GithubBackend,
    p: SkillPackage,
    events: Seq<PublishEvent>,
    disks: Seq<Seq<FileView>>,
    asked: Option<Seq<char>>,
)
    requires
        p.files@.len() > 0,
        asks_for(asked, p),
        publish::carried_out(b, p, events, disks),
        publish::after(b, p, events).1 matches publish::ActionView::Finish(Ok(_)),
    ensures
        exists|i: int|
            #[trigger] publish::verified_at(b, p, events, i) && pulls_back(
                p,
                asked,
                events[i]->read,
            ),
{
    published_tag_is_pulled_back(b, p, events, asked);
    let i = choose|i: int|
        #[trigger] publish::verified_at(b, p, events, i) && (tree::holds_nothing_else(
            tree::walk_of(events[i]->read->nodes@, ""@),
            skill::files_of(p.files@),
        ) ==> pulls_back(p, asked, events[i]->read));
    publish::tag_holds_only_the_package(b, p, events, disks, i);
}

/// A package pulled from the tag of a version says that version, whether it was asked for or found
/// as the latest.
pub proof fn pulled_package_says_its_version(slug: Seq<char>, version: Seq<char>)
    requires
        !version.contains('/'),
        version.len() > 0 ==> version[0] != 'v',
    ensures
        pulled_version(Some(version), semver::tag_of(slug, version)) == version,
        pulled_version(None, semver::tag_of(slug, version)) == version,
{
    semver::tag_shows_its_version(slug, version);
}

/// A version that is newer than all the published ones is, once it is tagged, the one that a pull
/// without a version reads.
pub proof fn newest_publish_is_pulled(names: Seq<Seq<char>>, slug: Seq<char>, version: Seq<char>)
    requires
        semver::version_of(version) is Some,
        forall|j: int|
            0 <= j < names.len() && semver::tagged_version(#[trigger] names[j], slug) is Some
                ==> semver::newer(
                semver::version_of(version)->0,
                semver::tagged_version(names[j], slug)->0,
            ),
    ensures
        semver::is_latest(
            names.push(semver::tag_of(slug, version)),
            slug,
            names.len() as int,
        ),
{
    semver::tag_carries_its_version(slug, version);
    let all = names.push(semver::tag_of(slug, version));
    let v = semver::version_of(version)->0;
    assert forall|j: int| 0 <= j < all.len() && semver::tagged_version(
        #[trigger] all[j],
        slug,
    ) is Some implies !semver::newer(semver::tagged_version(all[j], slug)->0, v) by {
        if j < names.len() {
            assert(all[j] == names[j]);
        }
    }
    assert forall|j: int| 0 <= j < names.len() && semver::tagged_version(
        #[trigger] all[j],
        slug,
    ) is Some implies semver::newer(v, semver::tagged_version(all[j], slug)->0) by {
        assert(all[j] == names[j]);
    }
}

/// A pull that names a version needs no list of tags and reads `<slug>/v<version>`; one that names
/// none needs a tag of some version of the skill. Without a clone there is nothing to pull.
pub proof fn pull_needs_a_clone_and_a_version(
    local_path: Seq<char>,
    slug: Seq<char>,
    version: Seq<char>,
    names: Vec<String>,
    e: String,
)
    ensures
        no_tag_error(local_path, slug, Some(version), CloneState::Tags(names)) is None,
        no_tag_error(local_path, slug, Some(version), CloneState::TagsUnreadable(e)) is None,
        no_tag_error(local_path, slug, None, CloneState::TagsUnreadable(e)) is Some,
        no_tag_error(local_path, slug, None, CloneState::Tags(names)) is None <==> exists|i: int|
            #[trigger] semver::is_latest(text::texts(names@), slug, i),
        no_tag_error(local_path, slug, None, CloneState::Tags(names)) is Some ==> no_tag_error(
            local_path,
            slug,
            None,
            CloneState::Tags(names),
        )->0 is NotFound,
        forall|v: Option<Seq<char>>| #[trigger]
            no_tag_error(local_path, slug, v, CloneState::Missing) is Some,
        forall|v: Option<Seq<char>>| #[trigger]
            no_tag_error(local_path, slug, v, CloneState::Unreadable(e)) is Some,
        semver::tag_of(slug, version) == slug + seq!['/', 'v'] + version,
{
    reveal_strlit("/v");
    assert("/v"@ =~= seq!['/', 'v']);
    let all = text::texts(names@);
    if no_tag_error(local_path, slug, None, CloneState::Tags(names)) is None {
        let j = choose|j: int|
            0 <= j < names@.len() && semver::tagged_version((#[trigger] names@[j])@, slug) is Some;
        assert(0 <= j < names@.len() && semver::tagged_version(names@[j]@, slug) is Some);
        assert(all[j] == names@[j]@);
        semver::versioned_tags_have_a_latest(all, slug, j);
        let i = choose|i: int| #[trigger] semver::is_latest(all, slug, i);
        assert(semver::is_latest(text::texts(names@), slug, i));
    } else {
        assert forall|i: int| !#[trigger] semver::is_latest(text::texts(names@), slug, i) by {
            if semver::is_latest(text::texts(names@), slug, i) {
                assert(all[i] == names@[i]@);
                assert(0 <= i < names@.len() && semver::tagged_version(names@[i]@, slug) is Some);
            }
        }
    }
}

/// A pulled package carries the version that was asked for, and where none was, the numbers of the
/// tag that was read.
pub proof fn pulled_package_carries_the_version_read(
    slug: Seq<char>,
    asked: Seq<char>,
    tag: Seq<char>,
    v: semver::SemVerTuple,
)
    ensures
        pulled_version(Some(asked), tag) == asked,
        slug + seq!['/', 'v'] + pulled_version(None, semver::written_tag(slug, v))
            == semver::written_tag(slug, v),
{
    reveal_strlit("/v");
    assert("/v"@ =~= seq!['/', 'v']);
    let x = number::decimal_of(v.0 as nat);
    let y = number::decimal_of(v.1 as nat);
    let z = number::decimal_of(v.2 as nat);
    let text = x + seq!['.'] + y + seq!['.'] + z;
    number::decimal_spells(v.0 as nat);
    number::decimal_spells(v.1 as nat);
    number::decimal_spells(v.2 as nat);
    assert forall|i: int| 0 <= i < text.len() implies text[i] != '/' && text[i] != 'v' by {
        if i < x.len() {
            assert(semver::is_digit(x[i]));
            assert(text[i] == x[i]);
        } else if i > x.len() && i < x.len() + 1 + y.len() {
            assert(semver::is_digit(y[i - x.len() - 1]));
            assert(text[i] == y[i - x.len() - 1]);
        } else if i > x.len() + 1 + y.len() {
            assert(semver::is_digit(z[i - x.len() - y.len() - 2]));
            assert(text[i] == z[i - x.len() - y.len() - 2]);
        }
    }
    semver::tag_shows_its_version(slug, text);
    assert(semver::tag_of(slug, text) =~= semver::written_tag(slug, v));
}

/// The manifest of a pulled package says what the package is: its skill, its version, `SKILL.md` as
/// its entry, and the path of each of its files, in their order.
pub proof fn manifest_says_what_the_package_is(
    p: SkillPackage,
    slug: Seq<char>,
    version: Seq<char>,
    files: Seq<FileView>,
    created_at: Timestamp,
    i: int,
)
    requires
        is_package(p, slug, version, files, created_at),
    ensures
        p.slug@ == slug && p.manifest.slug@ == slug,
        p.version@ == version && p.manifest.version@ == version,
        p.manifest.entry@ == "SKILL.md"@,
        p.files@.len() == files.len() && p.manifest.assets@.len() == files.len(),
        0 <= i < files.len() ==> p.files@[i].path@ == files[i].path && p.files@[i].bytes@
            == files[i].bytes && p.manifest.assets@[i]@ == files[i].path,
        p.manifest.created_at == created_at,
{
    let names = text::texts(p.manifest.assets@);
    let held = skill::files_of(p.files@);
    assert(names.len() == p.manifest.assets@.len());
    assert(held.len() == p.files@.len());
    if 0 <= i < files.len() {
        assert(names[i] == p.manifest.assets@[i]@);
        assert(held[i] == p.files@[i]@);
    }
}

/// A tag that is not there, and a skill that is not in it, are not found; whatever else keeps the
/// files from being read is another error; and entries that were read are none.
pub proof fn read_errors_are_told_apart(
    slug: Seq<char>,
    tag: Seq<char>,
    e: String,
    nodes: Vec<TreeNode>,
    commit_secs: i64,
)
    ensures
        read_error(slug, tag, TagRead::TagMissing(e)) matches Some(x) && x is NotFound,
        read_error(slug, tag, TagRead::SubdirMissing) matches Some(x) && x is NotFound,
        read_error(slug, tag, TagRead::PeelFailed(e)) matches Some(x) && x is Other,
        read_error(slug, tag, TagRead::TreeFailed(e)) matches Some(x) && x is Other,
        read_error(slug, tag, TagRead::SubtreeFailed(e)) matches Some(x) && x is Other,
        read_error(slug, tag, TagRead::BlobFailed(e)) matches Some(x) && x is Other,
        read_error(slug, tag, TagRead::ChildFailed(e)) matches Some(x) && x is Other,
        read_error(slug, tag, TagRead::Entries { nodes, commit_secs }) is None,
{
}

/// A pull by version reads `<slug>/v<version>`. A pull without one reads one of the tags that are
/// there, a tag of that very skill, and no tag of the skill has greater numbers than the one read.
pub proof fn pull_reads_the_tag_asked_for_or_the_latest(
    slug: Seq<char>,
    version: Seq<char>,
    names: Vec<String>,
    tag: Seq<char>,
    j: int,
    v: semver::SemVerTuple,
)
    ensures
        forall|state: CloneState| #[trigger]
            reads_tag(slug, Some(version), state, tag) <==> tag == slug + seq!['/', 'v'] + version,
        reads_tag(slug, None, CloneState::Tags(names), tag) ==> {
            &&& exists|i: int| 0 <= i < names@.len() && (#[trigger] names@[i])@ == tag
            &&& (slug + seq!['/', 'v']).is_prefix_of(tag)
            &&& semver::tagged_version(tag, slug) is Some
            &&& 0 <= j < names@.len() && names@[j]@ == semver::written_tag(slug, v) ==> {
                let w = semver::tagged_version(tag, slug)->0;
                w.0 > v.0 || (w.0 == v.0 && w.1 > v.1) || (w.0 == v.0 && w.1 == v.1 && w.2 >= v.2)
            }
        },
{
    reveal_strlit("/v");
    assert("/v"@ =~= seq!['/', 'v']);
    let all = text::texts(names@);
    if reads_tag(slug, None, CloneState::Tags(names), tag) {
        let i = choose|i: int| #[trigger] semver::is_latest(all, slug, i) && tag == names@[i]@;
        assert(all[i] == names@[i]@);
        assert(names@[i]@ == tag);
        if 0 <= j < names@.len() && names@[j]@ == semver::written_tag(slug, v) {
            assert(all[j] == names@[j]@);
            semver::latest_tag_has_the_greatest_numbers(all, slug, i, j, v);
        }
    }
}

} // verus!
