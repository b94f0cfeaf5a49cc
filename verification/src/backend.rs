//! The backend that keeps skills in a repository of the user's own.
use vstd::prelude::*;

use crate::paths;
use crate::paths::join;

verus! {

/// A self-hosted registry: a local clone that mirrors a remote repository.
#[derive(Debug)]
pub struct GithubBackend {
    pub owner: String,
    pub repo: String,
    pub local_path: String,
}

impl Clone for GithubBackend {
    fn clone(&self) -> (r: Self)
        ensures
            r == *self,
    {
        GithubBackend {
            owner: self.owner.clone(),
            repo: self.repo.clone(),
            local_path: self.local_path.clone(),
        }
    }
}

impl GithubBackend {
    /// The backend for the given repository and its local clone.
    pub fn new(owner: &str, repo: &str, local_path: String) -> (r: Self)
        ensures
            r.owner@ == owner@,
            r.repo@ == repo@,
            r.local_path == local_path,
    {
        GithubBackend { owner: owner.to_owned(), repo: repo.to_owned(), local_path }
    }

    /// The directory that holds one directory per skill.
    pub fn skills_root(&self) -> (r: String)
        ensures
            r@ == paths::joined(self.local_path@, "skills"@),
    {
        join(self.local_path.as_str(), "skills")
    }
}

/// Where a skill is in a local clone.
pub open spec fn skill_dir_of(local_path: Seq<char>, slug: Seq<char>) -> Seq<char> {
    paths::joined(paths::joined(local_path, "skills"@), slug)
}

/// Where a skill is in a local clone.
pub fn skill_dir(local_path: &str, slug: &str) -> (r: String)
    ensures
        r@ == skill_dir_of(local_path@, slug@),
{
    let root = join(local_path, "skills");
    join(root.as_str(), slug)
}

} // verus!
