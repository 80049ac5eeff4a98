//! Error values for the whole engine.
//!
//! Every failure the engine can detect is a variant here, carrying the
//! data a front end needs to print a descriptive message.  Presentation
//! (message text, exit codes) is left to the caller.

use vstd::prelude::*;

verus! {

/// How a template string can be malformed.
#[derive(Debug, Clone, Copy, PartialEq, Eq, Structural)]
pub enum ParseErrorKind {
    /// A backslash was followed by something other than `\`, `{` or `}`,
    /// or stood at the end of the string.
    BadEscape,
    /// A `{` without a matching `}`, or a bare `}`.
    UnbalancedBrace,
    /// A key (the text between braces) contained a backslash.
    KeyEscape,
    /// A key was empty after trimming surrounding whitespace.
    EmptyKey,
}

/// Everything that can go wrong while selecting, resolving and running a
/// command.
#[derive(Debug, Clone)]
pub enum Error {
    /// The subprocess exited with a non-success code.
    SubProcessExit,
    /// The subprocess could not be spawned or waited on; carries the
    /// reported reason.
    SubProcess(String),
    /// Reading or writing a YAML file failed.
    Yaml { action: String, file_description: String, path: String, message: String },
    /// A color gave more than one of `rgb`, `ansi` and `name`.
    MultipleColorTypes,
    /// A named color that the terminal palette does not know.
    UnknownColorName(String),
    /// The command definition file held no commands.
    EmptyCommandDefinition { path: String },
    /// An I/O error on a file.
    Io { file_description: String, path: String, message: String },
    /// A template string was malformed.
    Parse(ParseErrorKind),
    /// Rendering a template failed; carries the key that had no value.
    Render(String),
    /// Rerun of the last command was combined with an explicit id or index.
    RerunWithIndex,
    /// Any other failure, described in prose.
    Misc(String),
    /// An error on the interactive terminal streams.
    Stdio(String),
    /// Two commands share an id.
    NonUniqueCommandId(String),
    /// Two parameters of one command share an id; carries the command's
    /// display name and the id.
    NonUniqueParameterId(String, String),
    /// A declared parameter id that no template variable uses; carries the
    /// command's display name and the id.
    NotFoundParameterId(String, String),
    /// An id was empty.
    EmptyId,
    /// An id contained a space.
    IdWithSpace(String),
    /// An id contained a colon.
    IdWithColon(String),
    /// An id was purely numeric.
    NumericId(String),
    /// Named and positional values were both supplied.
    MixedParameterMode,
    /// A named value was not of the form `key=value`; carries the raw entry.
    ParameterFormat(String),
    /// A named value's key is not a template variable; carries the key.
    MissingParameter(String),
    /// Positional values did not match the template variables one for one;
    /// carries the expected and the actual count.
    ParameterCountMismatch(usize, usize),
    /// No command has the requested id.
    CommandNotFound(String),
}

impl Error {
    /// Builds the YAML error from its parts.
    pub fn yaml_error(action: String, file_description: String, path: String, message: String) -> (r: Error)
        ensures
            (r matches Error::Yaml { action: a, file_description: f, path: p, message: m }
                && a == action && f == file_description && p == path && m == message),
    {
        Error::Yaml { action, file_description, path, message }
    }

    /// Builds the I/O error from its parts.
    pub fn io_error(file_description: String, path: String, message: String) -> (r: Error)
        ensures
            (r matches Error::Io { file_description: f, path: p, message: m }
                && f == file_description && p == path && m == message),
    {
        Error::Io { file_description, path, message }
    }

    /// Builds the empty-definition error for the given path.
    pub fn empty_command_definition(path: String) -> (r: Error)
        ensures
            (r matches Error::EmptyCommandDefinition { path: p } && p == path),
    {
        Error::EmptyCommandDefinition { path }
    }
}

} // verus!
