//! Types, constants and errors shared by all parts of the filesystem.

use vstd::prelude::*;
use vstd::string::*;
use crate::text::spec_decimal;

verus! {

/// Inode number.
pub type InodeNumber = u64;
/// User identifier.
pub type UserId = u32;
/// Group identifier.
pub type GroupId = u32;
/// Size of a file in bytes.
pub type FileSize = u64;
/// Byte offset within a file.
pub type FileOffset = u64;
/// Timestamp in seconds.
pub type Timestamp = u64;
/// Number of hard links.
pub type LinkCount = u32;
/// Block number on the device.
pub type BlockNumber = u64;

/// Inode number of the root directory.
pub const VEXFS_ROOT_INO: u64 = 1;
/// Number of direct block pointers in an inode.
pub const VEXFS_DIRECT_BLOCKS: usize = 12;
/// Default block size in bytes.
pub const VEXFS_DEFAULT_BLOCK_SIZE: u64 = 4096;
/// Block size in bytes.
pub const VEXFS_BLOCK_SIZE: u32 = 4096;
/// Filesystem magic number ("VEXF").
pub const VEXFS_MAGIC: u32 = 0x5645_5846;
/// Major version.
pub const VEXFS_VERSION_MAJOR: u32 = 1;
/// Minor version.
pub const VEXFS_VERSION_MINOR: u32 = 0;
/// Patch version.
pub const VEXFS_VERSION_PATCH: u32 = 0;
/// Default permission bits of a new file.
pub const VEXFS_DEFAULT_FILE_MODE: u32 = 0o644;
/// Longest file name accepted, in bytes.
pub const MAX_FILENAME_LENGTH: usize = 255;

/// Kind of object an inode describes.
#[derive(Debug, Clone, Copy, PartialEq, Eq, Structural)]
pub enum FileType {
    Regular,
    Directory,
    Symlink,
    VectorFile,
}

/// Mode word of an inode (permission and special bits).
#[derive(Debug, Clone, Copy, PartialEq, Eq, Structural)]
pub struct FileMode {
    pub mode: u32,
}

/// The twelve permission bits (rwx for owner, group, other plus setuid,
/// setgid and sticky) of a mode word.
pub open spec fn spec_permissions(mode: u32) -> u16 {
    (mode & 0o7777u32) as u16
}

impl FileMode {
    /// Wraps a mode word.
    pub fn new(mode: u32) -> (m: FileMode)
        ensures
            m.mode == mode,
    {
        FileMode { mode }
    }

    /// The permission and special bits of the mode.
    pub fn permissions(&self) -> (p: u16)
        ensures
            p == spec_permissions(self.mode),
            p < 0o10000,
    {
        let m = self.mode;
        assert((m & 0o7777u32) < 0o10000u32) by (bit_vector);
        (m & 0o7777u32) as u16
    }
}

/// Kinds of I/O failure.
#[derive(Debug, Clone, Copy, PartialEq, Eq, Structural)]
pub enum IoErrorKind {
    ReadError,
}

/// Kinds of vector failure.
#[derive(Debug, Clone, Copy, PartialEq, Eq, Structural)]
pub enum VectorErrorKind {
    SearchError,
    /// A vector had this many components, not the index's number.
    InvalidDimensions(u16),
}

/// Kinds of index failure.
#[derive(Debug, Clone, Copy, PartialEq, Eq, Structural)]
pub enum IndexErrorKind {
    IndexCorrupted,
}

/// Kinds of search failure.
#[derive(Debug, Clone, Copy, PartialEq, Eq, Structural)]
pub enum SearchErrorKind {
    InvalidQuery,
}

/// Errors reported by filesystem operations.
#[derive(Debug, Clone, PartialEq, Eq)]
pub enum VexfsError {
    InvalidOperation(String),
    InvalidArgument(String),
    InodeNotFound(u64),
    LockConflict(String),
    NameTooLong,
    InvalidPath(String),
    PathTooLong,
    PermissionDenied(String),
    NotADirectory(u64),
    EntryNotFound(String),
    IoError(IoErrorKind),
    VectorError(VectorErrorKind),
    IndexError(IndexErrorKind),
    SearchError(SearchErrorKind),
    OutOfMemory,
}

/// An error with its message texts as character sequences.
pub enum ErrorView {
    InvalidOperation(Seq<char>),
    InvalidArgument(Seq<char>),
    InodeNotFound(u64),
    LockConflict(Seq<char>),
    NameTooLong,
    InvalidPath(Seq<char>),
    PathTooLong,
    PermissionDenied(Seq<char>),
    NotADirectory(u64),
    EntryNotFound(Seq<char>),
    IoError(IoErrorKind),
    VectorError(VectorErrorKind),
    IndexError(IndexErrorKind),
    SearchError(SearchErrorKind),
    OutOfMemory,
}

impl View for VexfsError {
    type V = ErrorView;

    open spec fn view(&self) -> ErrorView {
        match self {
            VexfsError::InvalidOperation(m) => ErrorView::InvalidOperation(m@),
            VexfsError::InvalidArgument(m) => ErrorView::InvalidArgument(m@),
            VexfsError::InodeNotFound(i) => ErrorView::InodeNotFound(*i),
            VexfsError::LockConflict(m) => ErrorView::LockConflict(m@),
            VexfsError::NameTooLong => ErrorView::NameTooLong,
            VexfsError::InvalidPath(m) => ErrorView::InvalidPath(m@),
            VexfsError::PathTooLong => ErrorView::PathTooLong,
            VexfsError::PermissionDenied(m) => ErrorView::PermissionDenied(m@),
            VexfsError::NotADirectory(i) => ErrorView::NotADirectory(*i),
            VexfsError::EntryNotFound(m) => ErrorView::EntryNotFound(m@),
            VexfsError::IoError(k) => ErrorView::IoError(*k),
            VexfsError::VectorError(k) => ErrorView::VectorError(*k),
            VexfsError::IndexError(k) => ErrorView::IndexError(*k),
            VexfsError::SearchError(k) => ErrorView::SearchError(*k),
            VexfsError::OutOfMemory => ErrorView::OutOfMemory,
        }
    }
}

/// Whether a result, taken by the views of its value and error, is `expected`.
pub open spec fn result_is<T: View>(r: VexfsResult<T>, expected: Result<T::V, ErrorView>) -> bool {
    match r {
        Ok(v) => expected == Ok::<T::V, ErrorView>(v@),
        Err(e) => expected == Err::<T::V, ErrorView>(e@),
    }
}

/// Whether a result without a value is `expected`, its error taken by its view.
pub open spec fn unit_result_is(r: VexfsResult<()>, expected: Result<(), ErrorView>) -> bool {
    match r {
        Ok(_) => expected is Ok,
        Err(e) => expected == Err::<(), ErrorView>(e@),
    }
}

/// The text of an error: a fixed prefix naming its kind, then its message
/// or the number it carries.
pub open spec fn error_text(e: ErrorView) -> Seq<char> {
    match e {
        ErrorView::InvalidOperation(m) => "Invalid operation: "@ + m,
        ErrorView::InvalidArgument(m) => "Invalid argument: "@ + m,
        ErrorView::InodeNotFound(i) => "Inode "@ + spec_decimal(i as nat) + " not found"@,
        ErrorView::LockConflict(m) => "Lock conflict: "@ + m,
        ErrorView::NameTooLong => "Name too long"@,
        ErrorView::InvalidPath(m) => "Invalid path: "@ + m,
        ErrorView::PathTooLong => "Path too long"@,
        ErrorView::PermissionDenied(m) => "Permission denied: "@ + m,
        ErrorView::NotADirectory(i) => "Not a directory: inode "@ + spec_decimal(i as nat),
        ErrorView::EntryNotFound(m) => "Entry not found: "@ + m,
        ErrorView::IoError(_) => "I/O error: read error"@,
        ErrorView::VectorError(VectorErrorKind::SearchError) => "Vector error: search error"@,
        ErrorView::VectorError(VectorErrorKind::InvalidDimensions(_)) => "Vector error: invalid dimensions"@,
        ErrorView::IndexError(_) => "Index error: index corrupted"@,
        ErrorView::SearchError(_) => "Search error: invalid query"@,
        ErrorView::OutOfMemory => "Out of memory"@,
    }
}

/// A prefix followed by a text.
fn prefixed(prefix: &str, m: &str) -> (r: String)
    ensures
        r@ == prefix@ + m@,
{
    let mut s = message(prefix);
    s.append(m);
    s
}

impl VexfsError {
    /// A human-readable description of the error.
    pub fn describe(&self) -> (r: String)
        ensures
            r@ == error_text(self@),
    {
        match self {
            VexfsError::InvalidOperation(m) => prefixed("Invalid operation: ", m.as_str()),
            VexfsError::InvalidArgument(m) => prefixed("Invalid argument: ", m.as_str()),
            VexfsError::InodeNotFound(ino) => {
                let n = crate::text::decimal_string(*ino);
                let mut s = prefixed("Inode ", n.as_str());
                s.append(" not found");
                s
            },
            VexfsError::LockConflict(m) => prefixed("Lock conflict: ", m.as_str()),
            VexfsError::NameTooLong => message("Name too long"),
            VexfsError::InvalidPath(m) => prefixed("Invalid path: ", m.as_str()),
            VexfsError::PathTooLong => message("Path too long"),
            VexfsError::PermissionDenied(m) => prefixed("Permission denied: ", m.as_str()),
            VexfsError::NotADirectory(ino) => {
                let n = crate::text::decimal_string(*ino);
                prefixed("Not a directory: inode ", n.as_str())
            },
            VexfsError::EntryNotFound(m) => prefixed("Entry not found: ", m.as_str()),
            VexfsError::IoError(_) => message("I/O error: read error"),
            VexfsError::VectorError(VectorErrorKind::SearchError) => message("Vector error: search error"),
            VexfsError::VectorError(VectorErrorKind::InvalidDimensions(_)) => message("Vector error: invalid dimensions"),
            VexfsError::IndexError(_) => message("Index error: index corrupted"),
            VexfsError::SearchError(_) => message("Search error: invalid query"),
            VexfsError::OutOfMemory => message("Out of memory"),
        }
    }
}

/// Result of a filesystem operation.
pub type VexfsResult<T> = Result<T, VexfsError>;

/// An owned copy of a text.
pub fn message(s: &str) -> (r: String)
    ensures
        r@ == s@,
{
    proof {
        broadcast use vstd::string::group_string_axioms;
    }
    s.to_string()
}

} // verus!
