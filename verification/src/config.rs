//! Where the skills of this machine live.
use vstd::prelude::*;

verus! {

/// The backend that commands talk to.
#[derive(Debug)]
pub enum BackendMode {
    Cloud { api_base: String },
    Github { owner: String, repo: String, local_path: String },
}

impl Clone for BackendMode {
    fn clone(&self) -> (r: Self)
        ensures
            r == *self,
    {
        match self {
            BackendMode::Cloud { api_base } => BackendMode::Cloud { api_base: api_base.clone() },
            BackendMode::Github { owner, repo, local_path } => BackendMode::Github {
                owner: owner.clone(),
                repo: repo.clone(),
                local_path: local_path.clone(),
            },
        }
    }
}

/// What a backend mode says.
pub enum BackendModeView {
    Cloud { api_base: Seq<char> },
    Github { owner: Seq<char>, repo: Seq<char>, local_path: Seq<char> },
}

impl View for BackendMode {
    type V = BackendModeView;

    open spec fn view(&self) -> BackendModeView {
        match self {
            BackendMode::Cloud { api_base } => BackendModeView::Cloud { api_base: api_base@ },
            BackendMode::Github { owner, repo, local_path } => BackendModeView::Github {
                owner: owner@,
                repo: repo@,
                local_path: local_path@,
            },
        }
    }
}

/// The short name of a backend.
pub open spec fn tag_of(b: BackendMode) -> Seq<char> {
    match b {
        BackendMode::Cloud { .. } => "cloud"@,
        BackendMode::Github { .. } => "github"@,
    }
}

/// The short name of a backend.
pub fn backend_tag(b: &BackendMode) -> (r: &'static str)
    ensures
        r@ == tag_of(*b),
{
    match b {
        BackendMode::Cloud { .. } => "cloud",
        BackendMode::Github { .. } => "github",
    }
}

/// A backend as it is shown.
pub open spec fn label_of(b: BackendModeView) -> Seq<char> {
    match b {
        BackendModeView::Cloud { api_base } => "cloud ("@ + api_base + ")"@,
        BackendModeView::Github { owner, repo, .. } => "github ("@ + owner + "/"@ + repo + ")"@,
    }
}

/// A backend as it is shown.
pub fn backend_label(b: &BackendMode) -> (r: String)
    ensures
        r@ == label_of(b@),
{
    match b {
        BackendMode::Cloud { api_base } => {
            let mut s = "cloud (".to_owned();
            s.append(api_base.as_str());
            s.append(")");
            s
        },
        BackendMode::Github { owner, repo, .. } => {
            let mut s = "github (".to_owned();
            s.append(owner.as_str());
            s.append("/");
            s.append(repo.as_str());
            s.append(")");
            s
        },
    }
}

/// A backend is shown by its kind and what it is: the address of the cloud, or the owner and the name
/// of the repository.
pub proof fn backends_are_shown_by_what_they_are(
    api_base: String,
    owner: String,
    repo: String,
    local_path: String,
)
    ensures
        tag_of(BackendMode::Cloud { api_base }) == "cloud"@,
        tag_of(BackendMode::Github { owner, repo, local_path }) == "github"@,
        label_of(BackendMode::Cloud { api_base }@) == "cloud ("@ + api_base@ + ")"@,
        label_of(BackendMode::Github { owner, repo, local_path }@) == "github ("@ + owner@ + "/"@ + repo@
            + ")"@,
{
}

} // verus!
