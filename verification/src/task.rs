//! Per-file decisions and invocation parsing.
//!
//! Before any byte of a file is decompressed, its metadata and the pattern
//! settle what happens: an empty file finishes at once, a directory or a
//! symbolic link is rejected, a bad pattern is rejected, and only then is a
//! search planned. The caller opens the file and reads the metadata; the
//! decision itself is verified here.

use vstd::prelude::*;

use crate::errors::FileError;
use crate::pattern::{valid_pattern, Pattern};

verus! {

/// What the filesystem reports about an opened file, as plain values.
#[derive(Clone, Copy, PartialEq, Eq, Structural, Debug)]
pub struct FileMeta {
    /// The file's byte length.
    pub len: u64,
    /// Whether the path is a directory.
    pub is_dir: bool,
    /// Whether the path is a symbolic link.
    pub is_symlink: bool,
}

/// The plan for one file once its metadata and the pattern are known.
pub enum FilePlan {
    /// The file is empty: finish successfully, announce no total, read and
    /// search nothing.
    EmptyFile,
    /// Search the decompressed stream with `pattern`, announcing `total`
    /// once before the first read.
    Search { pattern: Pattern, total: u64 },
}

/// Decide one file. An empty file is done at once; a non-empty directory or
/// symbolic link is rejected before anything is read or decompressed; a
/// pattern the engine rejects fails before any decompression; otherwise the
/// search is planned with the file's length as the total to announce.
pub fn plan_file(pattern_text: &str, meta: FileMeta) -> (r: Result<FilePlan, FileError>)
    ensures
        meta.len == 0 ==> r == Ok::<FilePlan, FileError>(FilePlan::EmptyFile),
        meta.len != 0 && (meta.is_dir || meta.is_symlink) ==> r == Err::<FilePlan, FileError>(
            FileError::InvalidInput,
        ),
        meta.len != 0 && !meta.is_dir && !meta.is_symlink ==> {
            &&& r is Ok <==> valid_pattern(pattern_text@)
            &&& (r matches Ok(plan) ==> (plan matches FilePlan::Search { pattern, total }
                && pattern@ == pattern_text@ && total == meta.len))
            &&& (r is Err ==> r->Err_0 == FileError::Pattern)
        },
{
    if meta.len == 0 {
        return Ok(FilePlan::EmptyFile);
    }
    if meta.is_dir || meta.is_symlink {
        return Err(FileError::InvalidInput);
    }
    match Pattern::new(pattern_text) {
        Ok(pattern) => Ok(FilePlan::Search { pattern, total: meta.len }),
        Err(e) => Err(e),
    }
}

/// Parse the invocation: the program name, then the pattern, then one or
/// more files. Anything shorter is refused and calls for the usage message.
pub fn parse_args(args: &Vec<String>) -> (r: Option<(String, Vec<String>)>)
    ensures
        r is Some <==> args@.len() >= 3,
        r matches Some((pat, files)) ==> pat@ == args@[1]@ && files@.len() == args@.len() - 2 && (
        forall|i: int| 0 <= i < files@.len() ==> files@[i]@ == args@[i + 2]@),
{
    if args.len() < 3 {
        return None;
    }
    let pat = args[1].clone();
    let mut files: Vec<String> = Vec::new();
    let mut i: usize = 2;
    while i < args.len()
        invariant
            2 <= i <= args@.len(),
            args@.len() >= 3,
            files@.len() == i - 2,
            forall|j: int| 0 <= j < files@.len() ==> files@[j]@ == args@[j + 2]@,
        decreases args@.len() - i,
    {
        files.push(args[i].clone());
        i += 1;
    }
    Some((pat, files))
}

} // verus!
