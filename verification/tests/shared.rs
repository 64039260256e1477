use lib::shared::{FileMode, SearchErrorKind, VexfsError};

#[test]
fn error_descriptions() {
    assert_eq!(VexfsError::InodeNotFound(42).describe(), "Inode 42 not found");
    assert_eq!(VexfsError::NotADirectory(7).describe(), "Not a directory: inode 7");
    assert_eq!(VexfsError::InvalidArgument("bad".to_string()).describe(), "Invalid argument: bad");
    assert_eq!(VexfsError::NameTooLong.describe(), "Name too long");
    assert_eq!(VexfsError::SearchError(SearchErrorKind::InvalidQuery).describe(), "Search error: invalid query");
    assert_eq!(VexfsError::OutOfMemory.describe(), "Out of memory");
}

#[test]
fn mode_permission_bits() {
    assert_eq!(FileMode::new(0o100755).permissions(), 0o755);
    assert_eq!(FileMode::new(0o4755).permissions(), 0o4755);
}
