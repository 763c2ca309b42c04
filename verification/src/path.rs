//! What the library has to know of a path to decide what is done with it.
//!
//! The library never touches the file system. Whoever calls it looks at the
//! disk, describes what is there in a [`PathInfo`], and carries out what the
//! library decides.

use vstd::prelude::*;

verus! {

/// What stands at a path.
#[derive(Clone, Copy, Debug, PartialEq, Eq, Structural)]
pub enum PathKind {
    /// Nothing, or nothing that the caller may see.
    Missing,
    /// A regular file.
    File,
    /// A directory.
    Dir,
    /// Something that is neither of the two.
    Other,
}

impl PathKind {
    /// What stands at a path of which the file system says whether
    /// something is there, whether it is a file and whether it is a
    /// directory.
    pub fn of(present: bool, file: bool, dir: bool) -> (kind: PathKind)
        ensures
            kind == (if !present {
                PathKind::Missing
            } else if file {
                PathKind::File
            } else if dir {
                PathKind::Dir
            } else {
                PathKind::Other
            }),
    {
        if !present {
            PathKind::Missing
        } else if file {
            PathKind::File
        } else if dir {
            PathKind::Dir
        } else {
            PathKind::Other
        }
    }
}

/// A name taken from a path.
#[derive(Debug)]
pub enum Name {
    /// The path has no such name.
    Absent,
    /// The name is there, but it is not valid Unicode.
    NotUnicode,
    /// The name.
    Text(String),
}

impl Name {
    /// The name that a part of a path gives: none where the path has no
    /// such part, and no text where the part is not valid Unicode.
    pub fn of(part: Option<Option<String>>) -> (name: Name)
        ensures
            name == match part {
                None => Name::Absent,
                Some(None) => Name::NotUnicode,
                Some(Some(text)) => Name::Text(text),
            },
    {
        match part {
            None => Name::Absent,
            Some(None) => Name::NotUnicode,
            Some(Some(text)) => Name::Text(text),
        }
    }
}

/// What a look at the file system found at a path.
#[derive(Debug)]
pub struct PathInfo {
    /// The whole path as text, unless it is not valid Unicode.
    pub text: Option<String>,
    /// What stands at the path.
    pub kind: PathKind,
    /// The name that a copy of a file at this path is given: the final
    /// component of the path, unless the path ends in `..` or is a root.
    pub file_name: Name,
    /// The name that a copy of a directory at this path is given: the last
    /// component of the path, whatever it is.
    pub dir_name: Name,
    /// The size in bytes: of a file its length, of a directory the lengths
    /// of all the files below it.
    pub size: u64,
}

impl PathInfo {
    /// Something stands at the path.
    pub fn is_present(&self) -> (found: bool)
        ensures
            found == (self.kind != PathKind::Missing),
    {
        self.kind != PathKind::Missing
    }

    /// A regular file stands at the path.
    pub fn is_file(&self) -> (found: bool)
        ensures
            found == (self.kind == PathKind::File),
    {
        self.kind == PathKind::File
    }

    /// A directory stands at the path.
    pub fn is_dir(&self) -> (found: bool)
        ensures
            found == (self.kind == PathKind::Dir),
    {
        self.kind == PathKind::Dir
    }
}

} // verus!
