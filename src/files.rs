//! Whole-file saving: whether a destination may be written, and the errors
//! that a save reports.
use vstd::prelude::*;
use crate::strings::push_str;

verus! {

/// Whether an existing destination file may be replaced.
#[derive(Clone, Copy, Debug, PartialEq, Eq, Structural)]
pub enum FileOpt {
    NoOverwrite,
    Overwrite,
}

/// Why a save failed, with the file name and, for I/O failures, the cause.
pub enum SaveFileError {
    FileExisted(String),
    Other(String, String),
}

pub type FileResult<T> = Result<T, SaveFileError>;

/// A save must be refused: the destination exists and replacing it was not
/// asked for.
pub open spec fn save_refused(exists: bool, opts: Option<FileOpt>) -> bool {
    exists && opts != Some(FileOpt::Overwrite)
}

/// Decides whether the content may be written to `file_name`, given whether
/// that file exists and the overwrite option.
pub fn check_save_target(file_name: &str, exists: bool, opts: Option<FileOpt>) -> (r: FileResult<()>)
    ensures
        r is Err <==> save_refused(exists, opts),
        r is Err ==> (match r->Err_0 {
            SaveFileError::FileExisted(name) => name@ == file_name@,
            _ => false,
        }),
{
    let replace = match opts {
        Some(FileOpt::Overwrite) => true,
        _ => false,
    };
    if exists && !replace {
        Err(SaveFileError::FileExisted(file_name.to_owned()))
    } else {
        Ok(())
    }
}

/// The error for an I/O failure while writing `file_name`.
pub fn io_failure(file_name: &str, cause: &str) -> (r: SaveFileError)
    ensures
        match r {
            SaveFileError::Other(name, why) => name@ == file_name@ && why@ == cause@,
            _ => false,
        },
{
    SaveFileError::Other(file_name.to_owned(), cause.to_owned())
}

impl SaveFileError {
    /// The message shown to the user.
    pub fn message(&self) -> (r: String)
        ensures
            r@ == match *self {
                SaveFileError::FileExisted(name) => name@
                    + " exists already, writing to file denied."@,
                SaveFileError::Other(name, cause) => "Writing to "@ + name@
                    + " failed. Underlying cause was: "@ + cause@,
            },
    {
        let mut out = String::new();
        match self {
            SaveFileError::FileExisted(name) => {
                push_str(&mut out, name.as_str());
                push_str(&mut out, " exists already, writing to file denied.");
            },
            SaveFileError::Other(name, cause) => {
                push_str(&mut out, "Writing to ");
                push_str(&mut out, name.as_str());
                push_str(&mut out, " failed. Underlying cause was: ");
                push_str(&mut out, cause.as_str());
            },
        }
        out
    }
}

} // verus!
