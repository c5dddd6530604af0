//! The ownership and permission rules for root-owned state directories and
//! files, decided on metadata that the caller has read.
use vstd::prelude::*;

verus! {

/// What `symlink_metadata` reports about one path.
#[derive(Clone, Debug, PartialEq, Eq)]
pub struct FileFacts {
    pub is_symlink: bool,
    pub is_dir: bool,
    pub is_file: bool,
    pub uid: u32,
    pub mode: u32,
    pub len: u64,
}

/// A real directory owned by `owner` that group and others cannot access.
pub open spec fn protected_directory(f: FileFacts, owner: u32) -> bool {
    !f.is_symlink && f.is_dir && f.uid == owner && f.mode & 0o077 == 0
}

/// A regular file owned by `owner` with mode exactly `0600`.
pub open spec fn protected_file(f: FileFacts, owner: u32) -> bool {
    !f.is_symlink && f.is_file && f.uid == owner && f.mode & 0o777 == 0o600
}

/// Whether a directory is a private, non-symlink directory of `owner`.
pub fn is_protected_directory(f: &FileFacts, owner: u32) -> (r: bool)
    ensures
        r == protected_directory(*f, owner),
{
    !f.is_symlink && f.is_dir && f.uid == owner && f.mode & 0o077 == 0
}

/// Whether a file is a private, non-symlink regular file of `owner` with mode `0600`.
pub fn is_protected_file(f: &FileFacts, owner: u32) -> (r: bool)
    ensures
        r == protected_file(*f, owner),
{
    !f.is_symlink && f.is_file && f.uid == owner && f.mode & 0o777 == 0o600
}

} // verus!
