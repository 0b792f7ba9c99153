use std::ops::Not;
use vstd::prelude::*;
use vstd::std_specs::ops::NotSpecImpl;

verus! {

/// The category of a directory entry. A symbolic link keeps its own category;
/// it is never relabelled as the kind of thing it points to.
#[derive(Debug, Clone, Copy, PartialEq, Eq, Structural, Hash)]
pub enum FileType {
    Directory,
    File,
    SymLink,
}

impl FileType {
    pub fn is_dir(&self) -> (b: bool)
        ensures
            b == (*self == FileType::Directory),
    {
        match self {
            FileType::Directory => true,
            _ => false,
        }
    }

    pub fn is_file(&self) -> (b: bool)
        ensures
            b == (*self == FileType::File),
    {
        match self {
            FileType::File => true,
            _ => false,
        }
    }

    pub fn is_symlink(&self) -> (b: bool)
        ensures
            b == (*self == FileType::SymLink),
    {
        match self {
            FileType::SymLink => true,
            _ => false,
        }
    }
}

impl FileType {
    /// The other side of the split between directories and everything
    /// else: a file for a directory, a directory for a file or a link.
    pub open spec fn flipped(self) -> FileType {
        match self {
            FileType::Directory => FileType::File,
            FileType::File => FileType::Directory,
            FileType::SymLink => FileType::Directory,
        }
    }
}

impl Not for FileType {
    type Output = FileType;

    fn not(self) -> (flipped: FileType) {
        match self {
            FileType::Directory => FileType::File,
            FileType::File => FileType::Directory,
            FileType::SymLink => FileType::Directory,
        }
    }
}

impl NotSpecImpl for FileType {
    open spec fn obeys_not_spec() -> bool {
        true
    }

    open spec fn not_req(self) -> bool {
        true
    }

    open spec fn not_spec(self) -> FileType {
        self.flipped()
    }
}

} // verus!
