//! The tree of a tagged commit, and the files that it holds.
use vstd::prelude::*;

use crate::paths;
use crate::paths::{join, same_as};
use crate::skill;
use crate::skill::{copy_bytes, FileView, SkillFile};

verus! {

/// An entry of a tree. An entry whose name is not text has no name.
#[derive(Debug)]
pub enum TreeNode {
    Blob { name: Option<String>, bytes: Vec<u8> },
    Tree { name: Option<String>, children: Vec<TreeNode> },
    /// Neither a file nor a directory.
    Other,
}

/// The name of an entry, or nothing.
pub open spec fn name_of(name: Option<String>) -> Seq<char> {
    match name {
        Some(s) => s@,
        None => ""@,
    }
}

/// The files below the given entries, depth first, with their paths below `rel`.
pub open spec fn walk_of(nodes: Seq<TreeNode>, rel: Seq<char>) -> Seq<FileView>
    decreases nodes,
{
    if nodes.len() == 0 {
        Seq::empty()
    } else {
        let before = walk_of(nodes.subrange(0, nodes.len() - 1), rel);
        match nodes[nodes.len() - 1] {
            TreeNode::Blob { name, bytes } => before.push(
                FileView { path: paths::joined(rel, name_of(name)), bytes: bytes@ },
            ),
            TreeNode::Tree { name, children } => before + walk_of(
                children@,
                paths::joined(rel, name_of(name)),
            ),
            TreeNode::Other => before,
        }
    }
}

fn name_text(name: &Option<String>) -> (r: &str)
    ensures
        r@ == name_of(*name),
{
    match name {
        Some(s) => s.as_str(),
        None => "",
    }
}

/// Collects the files below the given entries behind those that are there.
pub fn walk_tree(nodes: &Vec<TreeNode>, rel: &str, out: &mut Vec<SkillFile>)
    ensures
        skill::files_of(final(out)@) == skill::files_of(old(out)@) + walk_of(nodes@, rel@),
    decreases nodes,
{
    let ghost before = skill::files_of(out@);
    let n: usize = nodes.len();
    let mut i: usize = 0;
    proof {
        assert(before + walk_of(nodes@.subrange(0, 0), rel@) =~= before);
    }
    while i < n
        invariant
            n == nodes@.len(),
            i <= n,
            skill::files_of(out@) == before + walk_of(nodes@.subrange(0, i as int), rel@),
        decreases n - i,
    {
        let ghost so_far = out@;
        let ghost head = nodes@.subrange(0, i as int);
        let ghost longer = nodes@.subrange(0, i + 1);
        proof {
            assert(longer.subrange(0, longer.len() - 1) =~= head);
            assert(longer[longer.len() - 1] == nodes@[i as int]);
        }
        match &nodes[i] {
            TreeNode::Blob { name, bytes } => {
                let path = join(rel, name_text(name));
                let file = SkillFile { path, bytes: copy_bytes(bytes) };
                let ghost added = file@;
                out.push(file);
                proof {
                    assert(skill::files_of(out@) =~= skill::files_of(so_far).push(added));
                    assert(walk_of(longer, rel@) == walk_of(head, rel@).push(added));
                    assert(skill::files_of(out@) =~= before + walk_of(longer, rel@));
                }
            },
            TreeNode::Tree { name, children } => {
                let path = join(rel, name_text(name));
                proof {
                    assert(decreases_to!(nodes => nodes@));
                    assert(decreases_to!(nodes@ => nodes@[i as int]));
                    assert(decreases_to!(nodes@[i as int] => children));
                }
                walk_tree(children, path.as_str(), out);
                proof {
                    assert(skill::files_of(out@) =~= before + walk_of(longer, rel@));
                }
            },
            TreeNode::Other => {
            },
        }
        i += 1;
    }
    proof {
        assert(nodes@.subrange(0, n as int) =~= nodes@);
    }
}

/// The bytes of the file with the given path; of two files with one path the later one counts.
pub open spec fn bytes_at(files: Seq<FileView>, path: Seq<char>) -> Option<Seq<u8>>
    decreases files.len(),
{
    if files.len() == 0 {
        None
    } else if paths::same_path(files.last().path, path) {
        Some(files.last().bytes)
    } else {
        bytes_at(files.drop_last(), path)
    }
}

/// The position of the last file with the given path.
pub fn find_last(files: &Vec<SkillFile>, path: &str) -> (r: Option<usize>)
    ensures
        match r {
            Some(i) => i < files@.len() && paths::same_path(files@[i as int].path@, path@) && (
            forall|j: int|
                i < j < files@.len() ==> !paths::same_path((#[trigger] files@[j]).path@, path@))
                && bytes_at(skill::files_of(files@), path@) == Some(files@[i as int].bytes@),
            None => (forall|j: int|
                0 <= j < files@.len() ==> !paths::same_path((#[trigger] files@[j]).path@, path@))
                && bytes_at(skill::files_of(files@), path@) is None,
        },
{
    let ghost all = skill::files_of(files@);
    let mut i: usize = files.len();
    proof {
        assert(all.take(i as int) =~= all);
    }
    while i > 0
        invariant
            all == skill::files_of(files@),
            i <= files@.len(),
            forall|j: int|
                i <= j < files@.len() ==> !paths::same_path((#[trigger] files@[j]).path@, path@),
            bytes_at(all, path@) == bytes_at(all.take(i as int), path@),
        decreases i,
    {
        i -= 1;
        proof {
            assert(all.take(i + 1).drop_last() =~= all.take(i as int));
            assert(all.take(i + 1).last() == files@[i as int]@);
        }
        if same_as(files[i].path.as_str(), path) {
            return Some(i);
        }
    }
    None
}

/// The bytes of the first file with the given path.
pub open spec fn first_bytes_at(files: Seq<FileView>, path: Seq<char>) -> Option<Seq<u8>>
    decreases files.len(),
{
    if files.len() == 0 {
        None
    } else if paths::same_path(files[0].path, path) {
        Some(files[0].bytes)
    } else {
        first_bytes_at(files.skip(1), path)
    }
}

/// The position of the first file with the given path.
pub fn find_first(files: &Vec<SkillFile>, path: &str) -> (r: Option<usize>)
    ensures
        match r {
            Some(i) => i < files@.len() && paths::same_path(files@[i as int].path@, path@) && (
            forall|j: int|
                0 <= j < i ==> !paths::same_path((#[trigger] files@[j]).path@, path@))
                && first_bytes_at(skill::files_of(files@), path@) == Some(files@[i as int].bytes@),
            None => (forall|j: int|
                0 <= j < files@.len() ==> !paths::same_path((#[trigger] files@[j]).path@, path@))
                && first_bytes_at(skill::files_of(files@), path@) is None,
        },
{
    let ghost all = skill::files_of(files@);
    let n: usize = files.len();
    let mut i: usize = 0;
    proof {
        assert(all.skip(0) =~= all);
    }
    while i < n
        invariant
            all == skill::files_of(files@),
            n == files@.len(),
            i <= n,
            forall|j: int|
                0 <= j < i ==> !paths::same_path((#[trigger] files@[j]).path@, path@),
            first_bytes_at(all, path@) == first_bytes_at(all.skip(i as int), path@),
        decreases n - i,
    {
        proof {
            assert(all.skip(i as int).skip(1) =~= all.skip(i + 1));
            assert(all.skip(i as int)[0] == files@[i as int]@);
        }
        if same_as(files[i].path.as_str(), path) {
            return Some(i);
        }
        i += 1;
    }
    None
}

/// Whether one of the files lies at a path.
pub open spec fn has_path(files: Seq<FileView>, path: Seq<char>) -> bool {
    exists|i: int| 0 <= i < files.len() && paths::same_path((#[trigger] files[i]).path, path)
}

/// Whether files hold nothing beside the given ones: each lies at the path of one of these.
pub open spec fn holds_nothing_else(held: Seq<FileView>, files: Seq<FileView>) -> bool {
    forall|j: int| 0 <= j < held.len() ==> has_path(files, (#[trigger] held[j]).path)
}

/// What holds nothing beside files that themselves hold nothing beside others, holds nothing beside
/// those.
pub proof fn nothing_else_of_nothing_else(x: Seq<FileView>, y: Seq<FileView>, z: Seq<FileView>)
    requires
        holds_nothing_else(x, y),
        holds_nothing_else(y, z),
    ensures
        holds_nothing_else(x, z),
{
    assert forall|j: int| 0 <= j < x.len() implies has_path(z, (#[trigger] x[j]).path) by {
        assert(has_path(y, x[j].path));
        let k = choose|k: int|
            0 <= k < y.len() && paths::same_path((#[trigger] y[k]).path, x[j].path);
        assert(has_path(z, y[k].path));
        let i = choose|i: int|
            0 <= i < z.len() && paths::same_path((#[trigger] z[i]).path, y[k].path);
        assert(paths::same_path(z[i].path, x[j].path));
    }
}

/// Whether every entry has a name that is one segment of a path.
pub open spec fn are_named(nodes: Seq<TreeNode>) -> bool
    decreases nodes,
{
    if nodes.len() == 0 {
        true
    } else {
        are_named(nodes.subrange(0, nodes.len() - 1)) && match nodes[nodes.len() - 1] {
            TreeNode::Blob { name, .. } => name matches Some(s) && s@.len() > 0 && !s@.contains('/'),
            TreeNode::Tree { name, children } => name matches Some(s) && s@.len() > 0
                && !s@.contains('/') && are_named(children@),
            TreeNode::Other => true,
        }
    }
}

proof fn paths_below(nodes: Seq<TreeNode>, rel: Seq<char>)
    requires
        are_named(nodes),
        rel.len() > 0,
        rel.last() != '/',
    ensures
        walk_of(nodes, rel).len() == walk_of(nodes, Seq::empty()).len(),
        forall|i: int|
            0 <= i < walk_of(nodes, rel).len() ==> (#[trigger] walk_of(nodes, rel)[i]).path == rel
                + seq!['/'] + walk_of(nodes, Seq::empty())[i].path && walk_of(nodes, rel)[i].bytes
                == walk_of(nodes, Seq::empty())[i].bytes,
        forall|i: int|
            0 <= i < walk_of(nodes, Seq::empty()).len() ==> (#[trigger] walk_of(
                nodes,
                Seq::empty(),
            )[i]).path.len() > 0,
    decreases nodes,
{
    let e = Seq::<char>::empty();
    if nodes.len() > 0 {
        paths_below(nodes.subrange(0, nodes.len() - 1), rel);
        match nodes[nodes.len() - 1] {
            TreeNode::Blob { name, .. } => {
                let n = name->0@;
                assert(n[0] != '/');
                paths::joining_puts_one_slash(rel, n);
                paths::joining_puts_one_slash(e, n);
            },
            TreeNode::Tree { name, children } => {
                let n = name->0@;
                assert(n[0] != '/');
                assert(n[n.len() - 1] != '/');
                paths::joining_puts_one_slash(rel, n);
                paths::joining_puts_one_slash(e, n);
                let deep = rel + seq!['/'] + n;
                assert(deep.last() == n.last());
                paths_below(children@, deep);
                paths_below(children@, n);
                let x = walk_of(children@, deep);
                let y = walk_of(children@, n);
                let z = walk_of(children@, e);
                assert forall|i: int| 0 <= i < x.len() implies (#[trigger] x[i]).path == rel + seq!['/']
                    + y[i].path && x[i].bytes == y[i].bytes by {
                    assert(x[i].path == deep + seq!['/'] + z[i].path);
                    assert(y[i].path == n + seq!['/'] + z[i].path);
                    assert(deep + seq!['/'] + z[i].path =~= rel + seq!['/'] + (n + seq!['/'] + z[i].path));
                }
            },
            TreeNode::Other => {},
        }
    }
}

/// The path of a file of a tree is made of the names on the way to it: a file at the top has its
/// name for its path, and below a directory the name of the directory and a slash come first. What
/// is neither a file nor a directory does not count.
pub proof fn path_is_made_of_the_names(
    nodes: Seq<TreeNode>,
    name: String,
    bytes: Vec<u8>,
    children: Vec<TreeNode>,
    i: int,
)
    requires
        name@.len() > 0,
        !name@.contains('/'),
        are_named(children@),
        0 <= i < walk_of(children@, Seq::empty()).len(),
    ensures
        walk_of(nodes.push(TreeNode::Blob { name: Some(name), bytes }), Seq::empty()) == walk_of(
            nodes,
            Seq::empty(),
        ).push(FileView { path: name@, bytes: bytes@ }),
        walk_of(nodes.push(TreeNode::Other), Seq::empty()) == walk_of(nodes, Seq::empty()),
        ({
            let before = walk_of(nodes, Seq::empty());
            let all = walk_of(
                nodes.push(TreeNode::Tree { name: Some(name), children }),
                Seq::empty(),
            );
            let f = walk_of(children@, Seq::empty())[i];
            &&& all.len() == before.len() + walk_of(children@, Seq::empty()).len()
            &&& before.is_prefix_of(all)
            &&& all[before.len() + i] == FileView {
                path: name@ + seq!['/'] + f.path,
                bytes: f.bytes,
            }
        }),
{
    let e = Seq::<char>::empty();
    let n = name@;
    let before = walk_of(nodes, e);
    assert(n[0] != '/');
    assert(n[n.len() - 1] != '/');
    paths::joining_puts_one_slash(e, n);
    let blob = nodes.push(TreeNode::Blob { name: Some(name), bytes });
    assert(blob.subrange(0, blob.len() - 1) =~= nodes);
    let other = nodes.push(TreeNode::Other);
    assert(other.subrange(0, other.len() - 1) =~= nodes);
    let deep = nodes.push(TreeNode::Tree { name: Some(name), children });
    assert(deep.subrange(0, deep.len() - 1) =~= nodes);
    paths_below(children@, n);
    let below = walk_of(children@, n);
    let all = walk_of(deep, e);
    assert(all == before + below);
    assert(before =~= all.subrange(0, before.len() as int));
    assert(all[before.len() + i] == below[i]);
}

/// The bytes at a path are those of the last file that lies there, and there are none exactly when
/// no file lies there.
pub proof fn bytes_are_those_of_the_last_file(files: Seq<FileView>, path: Seq<char>)
    ensures
        match bytes_at(files, path) {
            Some(b) => exists|i: int|
                0 <= i < files.len() && paths::same_path((#[trigger] files[i]).path, path)
                    && files[i].bytes == b && (forall|j: int|
                    i < j < files.len() ==> !paths::same_path((#[trigger] files[j]).path, path)),
            None => forall|j: int|
                0 <= j < files.len() ==> !paths::same_path((#[trigger] files[j]).path, path),
        },
    decreases files.len(),
{
    if files.len() > 0 {
        let t = files.drop_last();
        let n = files.len() - 1;
        assert(files[n] == files.last());
        if !paths::same_path(files.last().path, path) {
            bytes_are_those_of_the_last_file(t, path);
            match bytes_at(t, path) {
                Some(b) => {
                    let i = choose|i: int|
                        0 <= i < t.len() && paths::same_path((#[trigger] t[i]).path, path)
                            && t[i].bytes == b && (forall|j: int|
                            i < j < t.len() ==> !paths::same_path((#[trigger] t[j]).path, path));
                    assert(files[i] == t[i]);
                    assert forall|j: int| i < j < files.len() implies !paths::same_path(
                        (#[trigger] files[j]).path,
                        path,
                    ) by {
                        if j < n {
                            assert(t[j] == files[j]);
                        }
                    }
                },
                None => {
                    assert forall|j: int| 0 <= j < files.len() implies !paths::same_path(
                        (#[trigger] files[j]).path,
                        path,
                    ) by {
                        if j < n {
                            assert(t[j] == files[j]);
                        }
                    }
                },
            }
        }
    }
}

/// The first bytes at a path are those of the first file that lies there.
pub proof fn first_bytes_are_those_of_the_first_file(files: Seq<FileView>, path: Seq<char>)
    ensures
        match first_bytes_at(files, path) {
            Some(b) => exists|i: int|
                0 <= i < files.len() && paths::same_path((#[trigger] files[i]).path, path)
                    && files[i].bytes == b && (forall|j: int|
                    0 <= j < i ==> !paths::same_path((#[trigger] files[j]).path, path)),
            None => forall|j: int|
                0 <= j < files.len() ==> !paths::same_path((#[trigger] files[j]).path, path),
        },
    decreases files.len(),
{
    if files.len() > 0 {
        let t = files.skip(1);
        if !paths::same_path(files[0].path, path) {
            first_bytes_are_those_of_the_first_file(t, path);
            match first_bytes_at(t, path) {
                Some(b) => {
                    let i = choose|i: int|
                        0 <= i < t.len() && paths::same_path((#[trigger] t[i]).path, path)
                            && t[i].bytes == b && (forall|j: int|
                            0 <= j < i ==> !paths::same_path((#[trigger] t[j]).path, path));
                    assert(files[i + 1] == t[i]);
                    assert forall|j: int| 0 <= j < i + 1 implies !paths::same_path(
                        (#[trigger] files[j]).path,
                        path,
                    ) by {
                        if j > 0 {
                            assert(t[j - 1] == files[j]);
                        }
                    }
                },
                None => {
                    assert forall|j: int| 0 <= j < files.len() implies !paths::same_path(
                        (#[trigger] files[j]).path,
                        path,
                    ) by {
                        if j > 0 {
                            assert(t[j - 1] == files[j]);
                        }
                    }
                },
            }
        }
    }
}

} // verus!
