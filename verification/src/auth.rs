//! GitHub credentials, resolved anew at each use and never stored.
use vstd::prelude::*;

use crate::text;
use crate::text::trim;
use crate::utf8::strict;

verus! {

/// Where a token came from.
#[derive(Clone, Copy, Debug, PartialEq, Eq, Structural)]
pub enum TokenSource {
    Env,
    GhCli,
    DeviceFlow,
}

/// Resolved GitHub credentials.
#[derive(Debug)]
pub struct GithubAuth {
    pub token: String,
    pub source: TokenSource,
}

impl Clone for GithubAuth {
    fn clone(&self) -> (r: Self)
        ensures
            r == *self,
    {
        GithubAuth { token: self.token.clone(), source: self.source }
    }
}

/// What credentials say.
pub struct AuthView {
    pub token: Seq<char>,
    pub source: TokenSource,
}

impl View for GithubAuth {
    type V = AuthView;

    open spec fn view(&self) -> AuthView {
        AuthView { token: self.token@, source: self.source }
    }
}

/// What keeps credentials from being resolved.
#[derive(Clone, Copy, Debug, PartialEq, Eq, Structural)]
pub enum AuthError {
    /// `gh auth token` answered with something that is no text.
    NotText,
    /// No source has a token.
    NoCredentials,
}

impl AuthError {
    /// The message of the error.
    pub fn message(self) -> (r: &'static str)
        ensures
            r@ == match self {
                AuthError::NotText => "gh auth token returned non-UTF-8"@,
                AuthError::NoCredentials => "no GitHub credentials. set GITHUB_TOKEN, install gh and run `gh auth login`, or run `knack auth login --github`"@,
            },
    {
        match self {
            AuthError::NotText => "gh auth token returned non-UTF-8",
            AuthError::NoCredentials => "no GitHub credentials. set GITHUB_TOKEN, install gh and run `gh auth login`, or run `knack auth login --github`",
        }
    }
}

/// A token that is there and not empty.
pub open spec fn present(token: Option<Seq<char>>) -> bool {
    token is Some && token->0.len() > 0
}

/// The token that `gh auth token` printed, where it ran and succeeded: the text without the white
/// space around it, none where nothing is left.
pub open spec fn gh_token(stdout: Option<Vec<u8>>) -> Result<Option<Seq<char>>, AuthError> {
    match stdout {
        None => Ok(None),
        Some(bytes) => if !vstd::utf8::valid_utf8(bytes@) {
            Err(AuthError::NotText)
        } else {
            let token = text::trimmed(vstd::utf8::decode_utf8(bytes@));
            if token.len() == 0 {
                Ok(None)
            } else {
                Ok(Some(token))
            }
        },
    }
}

/// The token that `gh auth token` printed. `stdout` is what it printed, none where it could not be
/// run or failed.
pub fn try_gh_cli(stdout: Option<Vec<u8>>) -> (r: Result<Option<String>, AuthError>)
    ensures
        match r {
            Ok(t) => gh_token(stdout) == Ok::<Option<Seq<char>>, AuthError>(text::opt_text(t)),
            Err(e) => gh_token(stdout) == Err::<Option<Seq<char>>, AuthError>(e),
        },
{
    let bytes = match stdout {
        Some(b) => b,
        None => {
            return Ok(None);
        },
    };
    match strict(bytes) {
        None => Err(AuthError::NotText),
        Some(s) => {
            let token = trim(s.as_str());
            if token.is_empty() {
                Ok(None)
            } else {
                Ok(Some(token.to_owned()))
            }
        },
    }
}

/// The credentials in the environment, where there are any: then nothing else is asked.
pub fn auth_from_env(token: &Option<String>) -> (r: Option<GithubAuth>)
    ensures
        match r {
            Some(a) => present(text::opt_text(*token)) && a@ == (AuthView {
                token: token->0@,
                source: TokenSource::Env,
            }),
            None => !present(text::opt_text(*token)),
        },
{
    match token {
        Some(t) => {
            if t.as_str().is_empty() {
                None
            } else {
                Some(GithubAuth { token: t.clone(), source: TokenSource::Env })
            }
        },
        None => None,
    }
}

/// The credentials, from the first source that has them: the environment, `gh`, the device flow.
pub open spec fn resolved(
    env: Option<Seq<char>>,
    gh: Result<Option<Seq<char>>, AuthError>,
    device: Option<Seq<char>>,
) -> Result<AuthView, AuthError> {
    if present(env) {
        Ok(AuthView { token: env->0, source: TokenSource::Env })
    } else {
        match gh {
            Err(e) => Err(e),
            Ok(Some(token)) => Ok(AuthView { token, source: TokenSource::GhCli }),
            Ok(None) => if present(device) {
                Ok(AuthView { token: device->0, source: TokenSource::DeviceFlow })
            } else {
                Err(AuthError::NoCredentials)
            },
        }
    }
}

/// The credentials, from the first source that has them: `$GITHUB_TOKEN`, `gh auth token`, the
/// device-code flow.
pub fn resolve_token(env: &Option<String>, gh: Option<Vec<u8>>, device: Option<String>) -> (r:
    Result<GithubAuth, AuthError>)
    ensures
        match r {
            Ok(a) => Ok::<AuthView, AuthError>(a@),
            Err(e) => Err::<AuthView, AuthError>(e),
        } == resolved(text::opt_text(*env), gh_token(gh), text::opt_text(device)),
{
    if let Some(auth) = auth_from_env(env) {
        return Ok(auth);
    }
    match try_gh_cli(gh) {
        Err(e) => {
            return Err(e);
        },
        Ok(Some(token)) => {
            return Ok(GithubAuth { token, source: TokenSource::GhCli });
        },
        Ok(None) => {
        },
    }
    match device {
        Some(token) => {
            if token.as_str().is_empty() {
                Err(AuthError::NoCredentials)
            } else {
                Ok(GithubAuth { token, source: TokenSource::DeviceFlow })
            }
        },
        None => Err(AuthError::NoCredentials),
    }
}

/// Resolved credentials never hold an empty token.
pub proof fn resolved_token_is_not_empty(
    env: Option<Seq<char>>,
    stdout: Option<Vec<u8>>,
    device: Option<Seq<char>>,
)
    ensures
        resolved(env, gh_token(stdout), device) matches Ok(a) ==> a.token.len() > 0,
{
}

/// A token in the environment is taken whatever else there is; without one the token that `gh`
/// printed, the blanks around it aside; without that the one of the device flow; and without any
/// there are no credentials. An empty token is none.
pub proof fn first_source_with_a_token_is_taken(
    token: Seq<char>,
    gh: Result<Option<Seq<char>>, AuthError>,
    device: Option<Seq<char>>,
)
    requires
        token.len() > 0,
    ensures
        resolved(Some(token), gh, device) == Ok::<AuthView, AuthError>(
            AuthView { token, source: TokenSource::Env },
        ),
        resolved(None, Ok(Some(token)), device) == Ok::<AuthView, AuthError>(
            AuthView { token, source: TokenSource::GhCli },
        ),
        resolved(None, Ok(None), Some(token)) == Ok::<AuthView, AuthError>(
            AuthView { token, source: TokenSource::DeviceFlow },
        ),
        resolved(None, Ok(None), None) == Err::<AuthView, AuthError>(AuthError::NoCredentials),
        resolved(Some(Seq::empty()), gh, device) == resolved(None, gh, device),
        resolved(None, Ok(None), Some(Seq::empty())) == resolved(None, Ok(None), None),
        forall|e: AuthError| #[trigger]
            resolved(None, Err(e), device) == Err::<AuthView, AuthError>(e),
{
}

/// What `gh` printed is the token without the blanks and line ends around it; nothing but blanks is
/// no token, bytes that are no text are an error, and a `gh` that did not run tells none.
pub proof fn gh_token_is_what_it_printed(
    stdout: Vec<u8>,
    before: Seq<char>,
    token: Seq<char>,
    behind: Seq<char>,
)
    requires
        text::only_blanks(before),
        text::only_blanks(behind),
        token.len() > 0 ==> '!' <= token[0] <= '~' && '!' <= token.last() <= '~',
    ensures
        vstd::utf8::valid_utf8(stdout@) && vstd::utf8::decode_utf8(stdout@) == before + token + behind
            ==> gh_token(Some(stdout)) == Ok::<Option<Seq<char>>, AuthError>(
            if token.len() > 0 {
                Some(token)
            } else {
                None
            },
        ),
        !vstd::utf8::valid_utf8(stdout@) ==> gh_token(Some(stdout)) == Err::<
            Option<Seq<char>>,
            AuthError,
        >(AuthError::NotText),
        gh_token(None) == Ok::<Option<Seq<char>>, AuthError>(None),
{
    text::trim_takes_the_blanks_only(before, token, behind);
}

} // verus!
