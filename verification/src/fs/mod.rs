//! The filesystem interface, and paths.

use vstd::prelude::*;

pub mod memfs;
pub mod names;
pub mod path;

verus! {

#[derive(Debug, Clone, Copy, PartialEq, Eq, Structural)]
pub enum FileType {
    File,
    Directory,
}

#[derive(Debug, Clone, Copy, PartialEq, Eq, Structural)]
pub enum FsError {
    NotFound,
    AlreadyExists,
    NotADirectory,
    NotAFile,
    InvalidPath,
    PermissionDenied,
}

#[derive(Debug, Clone, Copy, PartialEq, Eq, Structural)]
pub struct FileStats {
    pub file_type: FileType,
    pub size: usize,
    pub permissions: u16,
}

/// The permissions that the statistics of a file report.
pub const FILE_PERMISSIONS: u16 = 0o644;

/// The permissions that the statistics of a directory report.
pub const DIRECTORY_PERMISSIONS: u16 = 0o755;

/// What the kernel asks of a filesystem. Paths are byte strings that
/// start with a slash.
pub trait Filesystem {
    /// Whether the tree is in order: every operation asks for that and keeps it.
    spec fn valid(&self) -> bool;

    fn create_file(&mut self, path: &[u8], data: Vec<u8>) -> (r: Result<(), FsError>)
        requires
            old(self).valid(),
        ensures
            final(self).valid(),
    ;

    fn create_dir(&mut self, path: &[u8]) -> (r: Result<(), FsError>)
        requires
            old(self).valid(),
        ensures
            final(self).valid(),
    ;

    fn remove(&mut self, path: &[u8]) -> (r: Result<(), FsError>)
        requires
            old(self).valid(),
        ensures
            final(self).valid(),
    ;

    fn read_file(&self, path: &[u8]) -> (r: Result<Vec<u8>, FsError>)
        requires
            self.valid(),
    ;

    fn read_dir(&self, path: &[u8]) -> (r: Result<Vec<(Vec<u8>, FileType)>, FsError>)
        requires
            self.valid(),
    ;

    fn is_dir(&self, path: &[u8]) -> (r: bool)
        requires
            self.valid(),
    ;
}

/// What the kernel asks of a file: its bytes can be read, replaced, added
/// to and dropped. A file that refuses a change stays as it is.
pub trait File {
    /// The bytes that the file holds.
    spec fn contents(&self) -> Seq<u8>;

    fn read(&self) -> (r: Result<Vec<u8>, FsError>)
        ensures
            r matches Ok(data) ==> data@ == self.contents(),
    ;

    fn write(&mut self, data: &[u8]) -> (r: Result<(), FsError>)
        ensures
            final(self).contents() == (if r is Ok {
                data@
            } else {
                old(self).contents()
            }),
    ;

    fn append(&mut self, data: &[u8]) -> (r: Result<(), FsError>)
        ensures
            final(self).contents() == (if r is Ok {
                old(self).contents() + data@
            } else {
                old(self).contents()
            }),
    ;

    fn truncate(&mut self) -> (r: Result<(), FsError>)
        ensures
            final(self).contents() == (if r is Ok {
                Seq::<u8>::empty()
            } else {
                old(self).contents()
            }),
    ;

    fn stats(&self) -> (r: Result<FileStats, FsError>)
        ensures
            r matches Ok(s) ==> s.file_type == FileType::File && s.size == self.contents().len(),
    ;
}

/// What the kernel asks of a directory. A name is a byte string.
pub trait Directory {
    /// Whether the directory is in order: every operation asks for that
    /// and keeps it.
    spec fn intact(&self) -> bool;

    fn list(&self) -> (r: Result<Vec<(Vec<u8>, FileType)>, FsError>)
        requires
            self.intact(),
    ;

    fn create_file(&mut self, name: &[u8], data: Vec<u8>) -> (r: Result<(), FsError>)
        requires
            old(self).intact(),
        ensures
            final(self).intact(),
    ;

    fn create_dir(&mut self, name: &[u8]) -> (r: Result<(), FsError>)
        requires
            old(self).intact(),
        ensures
            final(self).intact(),
    ;

    fn remove(&mut self, name: &[u8]) -> (r: Result<(), FsError>)
        requires
            old(self).intact(),
        ensures
            final(self).intact(),
    ;

    fn stats(&self) -> (r: Result<FileStats, FsError>)
        requires
            self.intact(),
        ensures
            r matches Ok(s) ==> s.file_type == FileType::Directory,
    ;
}

} // verus!
