//! What can go wrong, and what the process then reports.
use vstd::prelude::*;

use crate::text;

verus! {

/// An error of the command line.
#[derive(Debug)]
pub enum CliError {
    /// The user can mend it.
    User { code: String, message: String, hint: Option<String> },
    /// Something that was asked for does not exist.
    NotFound(String),
    /// Anything else.
    Internal(String),
}

/// What a command line error says.
pub enum CliErrorView {
    User { code: Seq<char>, message: Seq<char>, hint: Option<Seq<char>> },
    NotFound(Seq<char>),
    Internal(Seq<char>),
}

impl View for CliError {
    type V = CliErrorView;

    open spec fn view(&self) -> CliErrorView {
        match self {
            CliError::User { code, message, hint } => CliErrorView::User {
                code: code@,
                message: message@,
                hint: text::opt_text(*hint),
            },
            CliError::NotFound(m) => CliErrorView::NotFound(m@),
            CliError::Internal(m) => CliErrorView::Internal(m@),
        }
    }
}

/// The stable code of an error.
pub open spec fn code_of(e: CliErrorView) -> Seq<char> {
    match e {
        CliErrorView::User { code, .. } => code,
        CliErrorView::NotFound(_) => "NOT_FOUND"@,
        CliErrorView::Internal(_) => "INTERNAL"@,
    }
}

/// The message of an error.
pub open spec fn message_of(e: CliErrorView) -> Seq<char> {
    match e {
        CliErrorView::User { message, .. } => message,
        CliErrorView::NotFound(m) => m,
        CliErrorView::Internal(m) => m,
    }
}

/// The hint of an error, where it has one.
pub open spec fn hint_of(e: CliErrorView) -> Option<Seq<char>> {
    match e {
        CliErrorView::User { hint, .. } => hint,
        _ => None,
    }
}

impl CliError {
    /// The stable code of the error.
    pub fn code(&self) -> (r: &str)
        ensures
            r@ == code_of(self@),
    {
        match self {
            CliError::User { code, .. } => code.as_str(),
            CliError::NotFound(_) => "NOT_FOUND",
            CliError::Internal(_) => "INTERNAL",
        }
    }

    /// The message of the error.
    pub fn message(&self) -> (r: &str)
        ensures
            r@ == message_of(self@),
    {
        match self {
            CliError::User { message, .. } => message.as_str(),
            CliError::NotFound(m) => m.as_str(),
            CliError::Internal(m) => m.as_str(),
        }
    }

    /// The hint of the error, where it has one.
    pub fn hint(&self) -> (r: Option<&str>)
        ensures
            text::opt_slice(r) == hint_of(self@),
    {
        match self {
            CliError::User { hint: Some(h), .. } => Some(h.as_str()),
            _ => None,
        }
    }
}

/// A user error with the given code and message.
pub(crate) fn user(code: &str, message: String, hint: Option<&str>) -> (r: CliError)
    ensures
        r@ == (CliErrorView::User { code: code@, message: message@, hint: text::opt_slice(hint) }),
{
    let hint = match hint {
        Some(h) => Some(h.to_owned()),
        None => None,
    };
    CliError::User { code: code.to_owned(), message, hint }
}

/// An error of a backend.
#[derive(Debug)]
pub enum BackendError {
    NotFound(String),
    Invalid(String),
    Conflict(String),
    Network(String),
    Other(String),
}

/// What a backend error says.
pub enum BackendErrorView {
    NotFound(Seq<char>),
    Invalid(Seq<char>),
    Conflict(Seq<char>),
    Network(Seq<char>),
    Other(Seq<char>),
}

impl View for BackendError {
    type V = BackendErrorView;

    open spec fn view(&self) -> BackendErrorView {
        match self {
            BackendError::NotFound(m) => BackendErrorView::NotFound(m@),
            BackendError::Invalid(m) => BackendErrorView::Invalid(m@),
            BackendError::Conflict(m) => BackendErrorView::Conflict(m@),
            BackendError::Network(m) => BackendErrorView::Network(m@),
            BackendError::Other(m) => BackendErrorView::Other(m@),
        }
    }
}

/// The message of a backend error.
pub open spec fn backend_message_of(e: BackendErrorView) -> Seq<char> {
    match e {
        BackendErrorView::NotFound(m) => m,
        BackendErrorView::Invalid(m) => m,
        BackendErrorView::Conflict(m) => m,
        BackendErrorView::Network(m) => m,
        BackendErrorView::Other(m) => m,
    }
}

impl BackendError {
    /// The message of the error.
    pub fn message(&self) -> (r: &str)
        ensures
            r@ == backend_message_of(self@),
    {
        match self {
            BackendError::NotFound(m) => m.as_str(),
            BackendError::Invalid(m) => m.as_str(),
            BackendError::Conflict(m) => m.as_str(),
            BackendError::Network(m) => m.as_str(),
            BackendError::Other(m) => m.as_str(),
        }
    }
}

/// The status byte of a failed process: never zero, and never more than a byte holds.
pub fn exit_status(code: i32) -> (r: u8)
    ensures
        r == if code < 1 {
            1
        } else if code > 255 {
            255
        } else {
            code as int
        },
{
    if code < 1 {
        1
    } else if code > 255 {
        255
    } else {
        code as u8
    }
}

/// How a command writes what it has to say.
#[derive(Clone, Copy, Debug, PartialEq, Eq, Structural)]
pub struct OutputMode {
    pub json: bool,
    pub quiet: bool,
    pub no_color: bool,
}

/// An error keeps the code, the message and the hint that it was made with; one without a code of its
/// own has the code of its kind, and no hint.
pub proof fn errors_say_what_they_were_made_with(
    code: Seq<char>,
    message: Seq<char>,
    hint: Option<Seq<char>>,
)
    ensures
        ({
            let e = CliErrorView::User { code, message, hint };
            code_of(e) == code && message_of(e) == message && hint_of(e) == hint
        }),
        code_of(CliErrorView::NotFound(message)) == "NOT_FOUND"@,
        code_of(CliErrorView::Internal(message)) == "INTERNAL"@,
        message_of(CliErrorView::NotFound(message)) == message,
        message_of(CliErrorView::Internal(message)) == message,
        hint_of(CliErrorView::NotFound(message)) is None,
        hint_of(CliErrorView::Internal(message)) is None,
        backend_message_of(BackendErrorView::NotFound(message)) == message,
        backend_message_of(BackendErrorView::Invalid(message)) == message,
        backend_message_of(BackendErrorView::Conflict(message)) == message,
        backend_message_of(BackendErrorView::Network(message)) == message,
        backend_message_of(BackendErrorView::Other(message)) == message,
{
}

} // verus!
