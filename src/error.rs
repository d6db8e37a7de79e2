use vstd::prelude::*;

verus! {

/// Every failure that a command, a navigation step or a path helper reports.
#[derive(Debug)]
pub enum FilmanError {
    CommandError(String),
    ShellCommandError(String),
    CommandParseError(String),
    NoParentError,
    ReadDirectoryError(String),
    FileOverwriteError(String),
    UnicodeError,
    PathHasNoFilename,
    EmptyDirectory,
    NotADirectory,
    NoFileSelectedError,
}

/// The human-readable text shown for an error.
pub open spec fn error_text(e: FilmanError) -> Seq<char> {
    match e {
        FilmanError::CommandError(s) => "Error executing filman command: "@ + s@,
        FilmanError::ShellCommandError(s) => "Error executing shell command: "@ + s@,
        FilmanError::CommandParseError(s) => "Command parse error: "@ + s@,
        FilmanError::NoParentError => "Directory has no parent"@,
        FilmanError::ReadDirectoryError(_) => "Failed to read directory"@,
        FilmanError::FileOverwriteError(s) => "This would overwrite an existing file: "@ + s@,
        FilmanError::UnicodeError => "Encountered non unicode characters in filename"@,
        FilmanError::PathHasNoFilename => "No filename error"@,
        FilmanError::EmptyDirectory => "Directory has no files"@,
        FilmanError::NotADirectory => "Not a directory"@,
        FilmanError::NoFileSelectedError => "No selected file"@,
    }
}

fn prefixed(prefix: &str, s: &String) -> (r: String)
    ensures
        r@ == prefix@ + s@,
{
    let mut r = String::from_str(prefix);
    r.append(s.as_str());
    r
}

impl FilmanError {
    /// The message that the session stores as its last error.
    pub fn message(&self) -> (r: String)
        ensures
            r@ == error_text(*self),
    {
        match self {
            FilmanError::CommandError(s) => prefixed("Error executing filman command: ", s),
            FilmanError::ShellCommandError(s) => prefixed("Error executing shell command: ", s),
            FilmanError::CommandParseError(s) => prefixed("Command parse error: ", s),
            FilmanError::NoParentError => String::from_str("Directory has no parent"),
            FilmanError::ReadDirectoryError(_) => String::from_str("Failed to read directory"),
            FilmanError::FileOverwriteError(s) => prefixed(
                "This would overwrite an existing file: ",
                s,
            ),
            FilmanError::UnicodeError => String::from_str(
                "Encountered non unicode characters in filename",
            ),
            FilmanError::PathHasNoFilename => String::from_str("No filename error"),
            FilmanError::EmptyDirectory => String::from_str("Directory has no files"),
            FilmanError::NotADirectory => String::from_str("Not a directory"),
            FilmanError::NoFileSelectedError => String::from_str("No selected file"),
        }
    }
}

} // verus!
