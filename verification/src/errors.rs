use vstd::prelude::*;

verus! {

/// The failure kinds of the pipeline, one per stage of a file's processing.
///
/// A failed match attempt on a single line is recovered locally (the line
/// counts as non-matching) and never surfaces as a value of this type.
#[derive(Clone, Copy, PartialEq, Eq, Structural, Debug)]
pub enum FileError {
    /// The file could not be opened.
    Open,
    /// The path is a directory or a symbolic link.
    InvalidInput,
    /// The pattern is not a valid regular expression.
    Pattern,
    /// The compressed stream is malformed.
    Format,
    /// A read failed while streaming, or the decompressed text is not UTF-8.
    Io,
}

impl FileError {
    /// A short description of the failure, for error reports.
    pub fn message(&self) -> (r: &'static str)
        ensures
            *self == FileError::Open ==> r@ == "cannot open file"@,
            *self == FileError::InvalidInput ==> r@ == "path is a directory or a symbolic link"@,
            *self == FileError::Pattern ==> r@ == "invalid regular expression"@,
            *self == FileError::Format ==> r@ == "malformed compressed stream"@,
            *self == FileError::Io ==> r@ == "read error while streaming"@,
    {
        match self {
            FileError::Open => "cannot open file",
            FileError::InvalidInput => "path is a directory or a symbolic link",
            FileError::Pattern => "invalid regular expression",
            FileError::Format => "malformed compressed stream",
            FileError::Io => "read error while streaming",
        }
    }
}

} // verus!
