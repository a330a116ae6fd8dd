//! The ways in which generating the command line can fail.

use vstd::prelude::*;
use vstd::string::StringExecFns;

verus! {

/// Why the commands could not be generated.
pub enum CommandError {
    /// An argument does not begin with an identifier.
    ExpectedIdent,
    /// An argument begins with a keyword where an identifier belongs.
    KeywordAsIdent(String),
    /// The key of an argument is not followed by `=`.
    ExpectedEq,
    /// The value of an argument is not a string literal.
    ExpectedStringLiteral,
    /// An argument has a key other than `src`, `exec_func` and `help_message`.
    UnknownArgument(String),
    /// A name that must become an identifier is not one.
    InvalidIdent(String),
    /// The command directory has no last path component.
    InvalidCommandDirectory,
    /// The last path component of the command directory is not valid UTF-8.
    InvalidCommandDirectoryName,
    /// The command directory could not be listed (with the system's message).
    ReadDirectory(String),
    /// An entry of a command directory could not be read.
    ReadEntry(String),
    /// A command file could not be read.
    ReadFile(String),
    /// The stem of a command file's name is not valid UTF-8.
    InvalidFileName,
    /// A `mod.rs` file could not be read.
    ReadModFile(String),
    /// The path of a subcommand directory is not valid UTF-8.
    InvalidSubcommandDirectory,
    /// A command directory has no `mod.rs`.
    MissingModFile,
    /// A `mod.rs` has no `//! router:` line.
    MissingRouter,
    /// A `mod.rs` has no `//! description:` line.
    MissingDescription,
    /// A command file is not Rust source (with syn's message).
    Syntax(String),
    /// Several functions of a command file carry `#[run]` (with the module path).
    MultipleRunFunctions(String),
    /// No function of a command file carries `#[run]` or is named `run` (with the module path).
    MissingRunFunction(String),
    /// The `#[run]` function takes `self`.
    SelfParameter,
    /// A parameter of the `#[run]` function is not bound to an identifier.
    NonIdentParameter,
    /// An option line names an empty short flag.
    EmptyShortFlag,
}

/// A `CommandError` seen as a mathematical value.
pub enum ErrorV {
    ExpectedIdent,
    KeywordAsIdent(Seq<char>),
    ExpectedEq,
    ExpectedStringLiteral,
    UnknownArgument(Seq<char>),
    InvalidIdent(Seq<char>),
    InvalidCommandDirectory,
    InvalidCommandDirectoryName,
    ReadDirectory(Seq<char>),
    ReadEntry(Seq<char>),
    ReadFile(Seq<char>),
    InvalidFileName,
    ReadModFile(Seq<char>),
    InvalidSubcommandDirectory,
    MissingModFile,
    MissingRouter,
    MissingDescription,
    Syntax(Seq<char>),
    MultipleRunFunctions(Seq<char>),
    MissingRunFunction(Seq<char>),
    SelfParameter,
    NonIdentParameter,
    EmptyShortFlag,
}

impl View for CommandError {
    type V = ErrorV;

    open spec fn view(&self) -> ErrorV {
        match self {
            CommandError::ExpectedIdent => ErrorV::ExpectedIdent,
            CommandError::KeywordAsIdent(s) => ErrorV::KeywordAsIdent(s@),
            CommandError::ExpectedEq => ErrorV::ExpectedEq,
            CommandError::ExpectedStringLiteral => ErrorV::ExpectedStringLiteral,
            CommandError::UnknownArgument(s) => ErrorV::UnknownArgument(s@),
            CommandError::InvalidIdent(s) => ErrorV::InvalidIdent(s@),
            CommandError::InvalidCommandDirectory => ErrorV::InvalidCommandDirectory,
            CommandError::InvalidCommandDirectoryName => ErrorV::InvalidCommandDirectoryName,
            CommandError::ReadDirectory(s) => ErrorV::ReadDirectory(s@),
            CommandError::ReadEntry(s) => ErrorV::ReadEntry(s@),
            CommandError::ReadFile(s) => ErrorV::ReadFile(s@),
            CommandError::InvalidFileName => ErrorV::InvalidFileName,
            CommandError::ReadModFile(s) => ErrorV::ReadModFile(s@),
            CommandError::InvalidSubcommandDirectory => ErrorV::InvalidSubcommandDirectory,
            CommandError::MissingModFile => ErrorV::MissingModFile,
            CommandError::MissingRouter => ErrorV::MissingRouter,
            CommandError::MissingDescription => ErrorV::MissingDescription,
            CommandError::Syntax(s) => ErrorV::Syntax(s@),
            CommandError::MultipleRunFunctions(s) => ErrorV::MultipleRunFunctions(s@),
            CommandError::MissingRunFunction(s) => ErrorV::MissingRunFunction(s@),
            CommandError::SelfParameter => ErrorV::SelfParameter,
            CommandError::NonIdentParameter => ErrorV::NonIdentParameter,
            CommandError::EmptyShortFlag => ErrorV::EmptyShortFlag,
        }
    }
}

/// The message that reports an error.
pub open spec fn error_message(e: ErrorV) -> Seq<char> {
    match e {
        ErrorV::ExpectedIdent => "expected identifier"@,
        ErrorV::KeywordAsIdent(k) => "expected identifier, found keyword `"@ + k + "`"@,
        ErrorV::ExpectedEq => "expected `=`"@,
        ErrorV::ExpectedStringLiteral => "expected string literal"@,
        ErrorV::UnknownArgument(_) => "Unknown argument"@,
        ErrorV::InvalidIdent(s) => "`"@ + s + "` is not a valid identifier"@,
        ErrorV::InvalidCommandDirectory => "Invalid command directory"@,
        ErrorV::InvalidCommandDirectoryName => "Invalid command directory name"@,
        ErrorV::ReadDirectory(m) => "Failed to read command directory: "@ + m,
        ErrorV::ReadEntry(m) => "Failed to read directory entry: "@ + m,
        ErrorV::ReadFile(m) => "Failed to read file: "@ + m,
        ErrorV::InvalidFileName => "Invalid file name"@,
        ErrorV::ReadModFile(m) => "Failed to read mod.rs file: "@ + m,
        ErrorV::InvalidSubcommandDirectory => "Invalid subcommand directory"@,
        ErrorV::MissingModFile => "Missing mod.rs with router/description"@,
        ErrorV::MissingRouter => "Missing //! router:"@,
        ErrorV::MissingDescription => "Missing //! description:"@,
        ErrorV::Syntax(m) => m,
        ErrorV::MultipleRunFunctions(p) => "Multiple #[run] functions found in "@ + p,
        ErrorV::MissingRunFunction(p) => "Missing #[run] function in "@ + p,
        ErrorV::SelfParameter => "#[run] function cannot take self parameter"@,
        ErrorV::NonIdentParameter => "#[run] argument must be an identifier"@,
        ErrorV::EmptyShortFlag => "called `Option::unwrap()` on a `None` value"@,
    }
}

impl CommandError {
    /// The message that reports this error.
    pub fn message(&self) -> (m: String)
        ensures
            m@ == error_message(self@),
    {
        match self {
            CommandError::ExpectedIdent => String::from_str("expected identifier"),
            CommandError::KeywordAsIdent(k) => {
                let m = String::from_str("expected identifier, found keyword `").concat(k.as_str());
                m.concat("`")
            },
            CommandError::ExpectedEq => String::from_str("expected `=`"),
            CommandError::ExpectedStringLiteral => String::from_str("expected string literal"),
            CommandError::UnknownArgument(_) => String::from_str("Unknown argument"),
            CommandError::InvalidIdent(s) => String::from_str("`").concat(s.as_str()).concat(
                "` is not a valid identifier",
            ),
            CommandError::InvalidCommandDirectory => String::from_str("Invalid command directory"),
            CommandError::InvalidCommandDirectoryName => String::from_str(
                "Invalid command directory name",
            ),
            CommandError::ReadDirectory(m) => String::from_str(
                "Failed to read command directory: ",
            ).concat(m.as_str()),
            CommandError::ReadEntry(m) => String::from_str("Failed to read directory entry: ").concat(
                m.as_str(),
            ),
            CommandError::ReadFile(m) => String::from_str("Failed to read file: ").concat(m.as_str()),
            CommandError::InvalidFileName => String::from_str("Invalid file name"),
            CommandError::ReadModFile(m) => String::from_str("Failed to read mod.rs file: ").concat(
                m.as_str(),
            ),
            CommandError::InvalidSubcommandDirectory => String::from_str(
                "Invalid subcommand directory",
            ),
            CommandError::MissingModFile => String::from_str("Missing mod.rs with router/description"),
            CommandError::MissingRouter => String::from_str("Missing //! router:"),
            CommandError::MissingDescription => String::from_str("Missing //! description:"),
            CommandError::Syntax(m) => m.clone(),
            CommandError::MultipleRunFunctions(p) => String::from_str(
                "Multiple #[run] functions found in ",
            ).concat(p.as_str()),
            CommandError::MissingRunFunction(p) => String::from_str("Missing #[run] function in ").concat(
                p.as_str(),
            ),
            CommandError::SelfParameter => String::from_str("#[run] function cannot take self parameter"),
            CommandError::NonIdentParameter => String::from_str("#[run] argument must be an identifier"),
            CommandError::EmptyShortFlag => String::from_str(
                "called `Option::unwrap()` on a `None` value",
            ),
        }
    }
}

} // verus!
