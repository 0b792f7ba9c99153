use vstd::prelude::*;

use crate::file_type::FileType;

verus! {

/// What the browser keeps of an entry's file system metadata, whichever
/// connection it was read over.
#[derive(Debug, Clone, Copy, PartialEq, Eq, Structural, Hash)]
pub struct Metadata {
    pub is_dir: bool,
    pub is_file: bool,
    pub is_symlink: bool,
    /// Whether any execute permission bit is set.
    pub executable: bool,
    /// Size in bytes.
    pub len: u64,
}

impl Metadata {
    /// The category the flags stand for, directories first; `None` where no
    /// flag is set (a socket, a device).
    pub open spec fn spec_file_type(self) -> Option<FileType> {
        if self.is_dir {
            Some(FileType::Directory)
        } else if self.is_file {
            Some(FileType::File)
        } else if self.is_symlink {
            Some(FileType::SymLink)
        } else {
            None
        }
    }

    #[verifier::when_used_as_spec(spec_file_type)]
    pub fn file_type(self) -> (filetype: Option<FileType>)
        ensures
            filetype == self.spec_file_type(),
    {
        if self.is_dir {
            Some(FileType::Directory)
        } else if self.is_file {
            Some(FileType::File)
        } else if self.is_symlink {
            Some(FileType::SymLink)
        } else {
            None
        }
    }
}

} // verus!
