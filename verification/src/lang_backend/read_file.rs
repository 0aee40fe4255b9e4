//! What loading a source file yields.

use vstd::prelude::*;
use vstd::utf8::encode_utf8;

verus! {

/// A loaded source file: its text and its length in bytes.
#[derive(Debug, Clone, PartialEq, Eq)]
pub struct FileInfo {
    pub file_length: u64,
    pub file_data: String,
}

/// Why a source file could not be loaded.
#[derive(Debug, Clone, PartialEq, Eq)]
pub enum ReadFileErrors {
    /// Reading failed; the field holds the system's description.
    NoSuchDir(String),
    /// Nothing exists at the path that the field holds.
    NoSuchFile(String),
}

impl FileInfo {
    /// The recorded length is the length of the text in bytes.
    pub open spec fn wf(&self) -> bool {
        self.file_length == encode_utf8(self.file_data@).len()
    }

    /// The loaded file that holds `file_data`, with the length measured on
    /// the text itself.
    pub fn from_text(file_data: String) -> (info: FileInfo)
        ensures
            info.wf(),
            info.file_data@ == file_data@,
    {
        let bytes: usize = file_data.as_str().as_bytes().len();
        FileInfo { file_length: bytes as u64, file_data }
    }
}

impl ReadFileErrors {
    /// The error for a failed access to the file at `path`: `NoSuchFile`
    /// with the path where nothing exists there, else `NoSuchDir` with the
    /// system's description of the failure.
    pub fn from_failure(path: String, not_found: bool, details: String) -> (err: ReadFileErrors)
        ensures
            err == if not_found {
                ReadFileErrors::NoSuchFile(path)
            } else {
                ReadFileErrors::NoSuchDir(details)
            },
    {
        if not_found {
            ReadFileErrors::NoSuchFile(path)
        } else {
            ReadFileErrors::NoSuchDir(details)
        }
    }
}

} // verus!
