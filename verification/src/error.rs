//! The errors of commands.
use vstd::prelude::*;

verus! {

/// `std::io::Error`, carried unread.
#[verifier::external_type_specification]
#[verifier::external_body]
pub struct ExIoError(std::io::Error);

/// Why a command failed.
#[derive(Debug)]
pub enum CliError {
    /// The user did not confirm.
    AbortedError,
    /// A node or a faucet refused a request, or could not be reached.
    ApiError(String),
    /// An argument of the command is not valid.
    CommandArgumentError(String),
    /// An input or output failed on what has this name.
    IO(String, std::io::Error),
    /// The file at this path could not be read or understood.
    UnableToReadFile(String, String),
    /// Something else failed.
    UnexpectedError(String),
}

/// The contents of an error.
pub enum CliErrorView {
    AbortedError,
    ApiError(Seq<char>),
    CommandArgumentError(Seq<char>),
    IO(Seq<char>, std::io::Error),
    UnableToReadFile(Seq<char>, Seq<char>),
    UnexpectedError(Seq<char>),
}

impl View for CliError {
    type V = CliErrorView;

    open spec fn view(&self) -> CliErrorView {
        match *self {
            CliError::AbortedError => CliErrorView::AbortedError,
            CliError::ApiError(message) => CliErrorView::ApiError(message@),
            CliError::CommandArgumentError(message) => CliErrorView::CommandArgumentError(message@),
            CliError::IO(name, error) => CliErrorView::IO(name@, error),
            CliError::UnableToReadFile(path, message) => CliErrorView::UnableToReadFile(path@, message@),
            CliError::UnexpectedError(message) => CliErrorView::UnexpectedError(message@),
        }
    }
}

/// What a command gives, or why it failed.
pub type CliTypedResult<T> = Result<T, CliError>;

/// An error is told by its contents: they name the variant and hold the same texts.
pub proof fn law_error_contents(
    error: CliError,
    text: Seq<char>,
    other: Seq<char>,
    source: std::io::Error,
)
    ensures
        error@ == CliErrorView::AbortedError <==> error is AbortedError,
        error@ == CliErrorView::ApiError(text) <==> (error matches CliError::ApiError(message)
            && message@ == text),
        error@ == CliErrorView::CommandArgumentError(text) <==> (
        error matches CliError::CommandArgumentError(message) && message@ == text),
        error@ == CliErrorView::IO(text, source) <==> (error matches CliError::IO(name, inner)
            && name@ == text && inner == source),
        error@ == CliErrorView::UnableToReadFile(text, other) <==> (
        error matches CliError::UnableToReadFile(path, message) && path@ == text && message@
            == other),
        error@ == CliErrorView::UnexpectedError(text) <==> (
        error matches CliError::UnexpectedError(message) && message@ == text),
{
}

} // verus!
