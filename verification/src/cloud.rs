//! Skills and versions as the cloud serves them.
use vstd::prelude::*;

use crate::errors::{CliError, CliErrorView};

verus! {

/// A skill as the cloud serves it.
#[derive(Debug)]
pub struct CloudSkill {
    pub id: String,
    pub current_version_id: Option<String>,
    pub current_version_semver: Option<String>,
    pub owner_username: Option<String>,
    pub owner_team_id: Option<String>,
}

/// A version as the cloud serves it.
#[derive(Debug)]
pub struct CloudVersion {
    pub id: String,
    pub version: String,
    pub skill_md: String,
    pub intuition_md: String,
    pub meta_yaml: String,
}

/// The error for a skill that the cloud does not know.
pub open spec fn unknown_skill_error(slug: Seq<char>) -> CliErrorView {
    CliErrorView::NotFound("skill `"@ + slug + "` not found"@)
}

/// The error for a skill that the cloud does not know.
pub fn unknown_skill(slug: &str) -> (r: CliError)
    ensures
        r@ == unknown_skill_error(slug@),
{
    let mut m = "skill `".to_owned();
    m.append(slug);
    m.append("` not found");
    CliError::NotFound(m)
}

} // verus!
