//! UNIX-style permission checking: access modes, user contexts, the checks
//! for reading, writing, executing, creating, deleting, chown and chmod,
//! and the special setuid, setgid and sticky bits.

use vstd::prelude::*;
use crate::shared::{
    ErrorView, FileMode, FileType, GroupId, InodeNumber, UserId, VexfsError, VexfsResult,
    MAX_FILENAME_LENGTH, message, spec_permissions, unit_result_is,
};
use crate::text::str_eq;
use crate::fs_core::inode::{Inode, InodeManager};
use crate::fs_core::path::{byte_len, cache_with};

verus! {

/// Which kinds of access are asked for or allowed.
#[derive(Debug, Clone, Copy, PartialEq, Eq, Structural)]
pub struct AccessMode {
    pub read: bool,
    pub write: bool,
    pub execute: bool,
}

/// The octal digit of an access mode: read 4, write 2, execute 1.
pub open spec fn octal_of(m: AccessMode) -> u16 {
    ((if m.read { 4u16 } else { 0u16 }) + (if m.write { 2u16 } else { 0u16 }) + (if m.execute { 1u16 } else { 0u16 })) as u16
}

/// The access mode an octal digit grants (only its three low bits count).
pub open spec fn mode_of_octal(octal: u16) -> AccessMode {
    AccessMode { read: octal & 4 != 0, write: octal & 2 != 0, execute: octal & 1 != 0 }
}

impl AccessMode {
    /// An access mode from its three flags.
    pub fn new(read: bool, write: bool, execute: bool) -> (m: Self)
        ensures
            m == (AccessMode { read, write, execute }),
    {
        AccessMode { read, write, execute }
    }

    /// Read access only.
    pub fn read_only() -> (m: Self)
        ensures
            m == (AccessMode { read: true, write: false, execute: false }),
    {
        Self::new(true, false, false)
    }

    /// Write access only.
    pub fn write_only() -> (m: Self)
        ensures
            m == (AccessMode { read: false, write: true, execute: false }),
    {
        Self::new(false, true, false)
    }

    /// Read and write access.
    pub fn read_write() -> (m: Self)
        ensures
            m == (AccessMode { read: true, write: true, execute: false }),
    {
        Self::new(true, true, false)
    }

    /// Execute access only.
    pub fn execute_only() -> (m: Self)
        ensures
            m == (AccessMode { read: false, write: false, execute: true }),
    {
        Self::new(false, false, true)
    }

    /// Read, write and execute access.
    pub fn full() -> (m: Self)
        ensures
            m == (AccessMode { read: true, write: true, execute: true }),
    {
        Self::new(true, true, true)
    }

    /// The octal digit of the mode.
    pub fn to_octal(&self) -> (o: u16)
        ensures
            o == octal_of(*self),
            o < 8,
    {
        let mut octal: u16 = 0;
        if self.read {
            assert(0u16 | 4u16 == 4u16) by (bit_vector);
            octal = octal | 4;
        }
        let ghost o1 = octal;
        if self.write {
            assert(o1 == 0 || o1 == 4);
            assert((o1 == 0 || o1 == 4) ==> o1 | 2u16 == o1 + 2) by (bit_vector);
            octal = octal | 2;
        }
        let ghost o2 = octal;
        if self.execute {
            assert(o2 == 0 || o2 == 2 || o2 == 4 || o2 == 6);
            assert((o2 == 0 || o2 == 2 || o2 == 4 || o2 == 6) ==> o2 | 1u16 == o2 + 1) by (bit_vector);
            octal = octal | 1;
        }
        octal
    }

    /// The mode an octal digit grants.
    pub fn from_octal(octal: u16) -> (m: Self)
        ensures
            m == mode_of_octal(octal),
    {
        AccessMode { read: (octal & 4) != 0, write: (octal & 2) != 0, execute: (octal & 1) != 0 }
    }

    /// The mode a file is opened with: bit 0 of the flags asks for read,
    /// bit 1 for write; opening never asks for execute.
    pub fn from_flags(flags: u32) -> (m: Self)
        ensures
            m == (AccessMode { read: flags & 1 != 0, write: flags & 2 != 0, execute: false }),
    {
        let read_flag: u32 = 0x01;
        let write_flag: u32 = 0x02;
        AccessMode { read: (flags & read_flag) != 0, write: (flags & write_flag) != 0, execute: false }
    }
}

/// An access mode survives the trip through its octal digit, and a digit
/// survives the trip through its mode up to its three low bits.
pub proof fn lemma_octal_roundtrip(m: AccessMode, octal: u16)
    ensures
        mode_of_octal(octal_of(m)) == m,
        octal_of(mode_of_octal(octal)) == octal & 7,
{
    let r = m.read;
    let w = m.write;
    let x = m.execute;
    assert({
        let o = ((if r { 4u16 } else { 0u16 }) + (if w { 2u16 } else { 0u16 }) + (if x { 1u16 } else { 0u16 })) as u16;
        (o & 4 != 0) == r && (o & 2 != 0) == w && (o & 1 != 0) == x
    }) by (bit_vector);
    assert((((if octal & 4 != 0 { 4u16 } else { 0u16 }) + (if octal & 2 != 0 { 2u16 } else { 0u16 }) + (if octal & 1 != 0 { 1u16 } else { 0u16 })) as u16) == octal & 7) by (bit_vector);
}

/// Who asks for access.
#[derive(Debug, Clone, Copy)]
pub struct UserContext {
    pub uid: UserId,
    pub gid: GroupId,
    /// Supplementary groups.
    pub groups: &'static [GroupId],
    pub is_superuser: bool,
}

/// Whether a user belongs to a group, by primary or supplementary group.
pub open spec fn in_group(user: UserContext, gid: GroupId) -> bool {
    user.gid == gid || user.groups@.contains(gid)
}

impl UserContext {
    /// A user context; user 0 is the superuser.
    pub fn new(uid: UserId, gid: GroupId, groups: &'static [GroupId]) -> (u: Self)
        ensures
            u.uid == uid,
            u.gid == gid,
            u.groups@ == groups@,
            u.is_superuser == (uid == 0),
    {
        UserContext { uid, gid, groups, is_superuser: uid == 0 }
    }

    /// The superuser, in group 0 with no supplementary groups.
    pub fn root() -> (u: Self)
        ensures
            u.uid == 0,
            u.gid == 0,
            u.groups@.len() == 0,
            u.is_superuser,
    {
        let none: &'static [GroupId] = &[];
        assert(none@.len() == 0);
        UserContext { uid: 0, gid: 0, groups: none, is_superuser: true }
    }

    /// Whether the user belongs to a group.
    pub fn is_in_group(&self, gid: GroupId) -> (b: bool)
        ensures
            b == in_group(*self, gid),
    {
        if self.gid == gid {
            return true;
        }
        let mut i: usize = 0;
        while i < self.groups.len()
            invariant
                i <= self.groups@.len(),
                forall|j: int| 0 <= j < i ==> self.groups@[j] != gid,
            decreases self.groups@.len() - i,
        {
            if self.groups[i] == gid {
                return true;
            }
            i += 1;
        }
        false
    }
}

/// The outcome of an access check.
#[derive(Debug, Clone, Copy, PartialEq, Eq, Structural)]
pub enum AccessCheck {
    /// Access granted.
    Granted,
    /// The permission bits do not allow it.
    Denied,
    /// Only the owner may do it.
    NotOwner,
    /// The user is not in the group asked for.
    NotInGroup,
}

impl AccessCheck {
    /// Whether access was granted.
    pub fn is_granted(&self) -> (b: bool)
        ensures
            b == (*self == AccessCheck::Granted),
    {
        match self {
            AccessCheck::Granted => true,
            _ => false,
        }
    }

    /// Granted access as success, anything else as "Access denied".
    pub fn to_result(self) -> (r: VexfsResult<()>)
        ensures
            self == AccessCheck::Granted ==> r is Ok,
            self != AccessCheck::Granted ==> (r matches Err(e) && e@ == ErrorView::PermissionDenied("Access denied"@)),
    {
        match self {
            AccessCheck::Granted => Ok(()),
            _ => Err(VexfsError::PermissionDenied(message("Access denied"))),
        }
    }
}

/// The three permission bits that apply to a user: the owner's, else the
/// group's for a member of the file's group, else the others'.
pub open spec fn class_bits(inode: Inode, user: UserContext) -> u16 {
    let p = spec_permissions(inode.mode.mode);
    if user.uid == inode.uid {
        (p >> 6u16) & 7
    } else if in_group(user, inode.gid) {
        (p >> 3u16) & 7
    } else {
        p & 7
    }
}

/// Whether any execute bit (owner, group or other) is set.
pub open spec fn any_execute(mode: FileMode) -> bool {
    spec_permissions(mode.mode) & 0o111 != 0
}

/// The decision on an access request: the superuser is granted everything
/// except executing a non-directory that has no execute bit at all; anyone
/// else gets what the bits of their class allow.
pub open spec fn access_decision(inode: Inode, user: UserContext, requested: AccessMode) -> AccessCheck {
    if user.is_superuser {
        if requested.execute && inode.file_type != FileType::Directory && !any_execute(inode.mode) {
            AccessCheck::Denied
        } else {
            AccessCheck::Granted
        }
    } else {
        let allowed = mode_of_octal(class_bits(inode, user));
        if (requested.read && !allowed.read) || (requested.write && !allowed.write) || (requested.execute
            && !allowed.execute) {
            AccessCheck::Denied
        } else {
            AccessCheck::Granted
        }
    }
}

/// For anyone but the superuser, access is decided by the permission bits
/// of their class alone: the owner's bits (0o700) for the file's owner,
/// the group's bits (0o070) for a member of the file's group (by primary or
/// supplementary group) who is not the owner, the others' bits (0o007) for
/// everyone else. Each requested kind of access needs its bit; the answer
/// is then granted, otherwise denied.
pub proof fn lemma_access_by_class_bits(inode: Inode, user: UserContext, requested: AccessMode)
    requires
        !user.is_superuser,
    ensures
        ({
            let p = (inode.mode.mode & 0o7777u32) as u16;
            let owner = user.uid == inode.uid;
            let member = user.gid == inode.gid || user.groups@.contains(inode.gid);
            let rb: u16 = if owner { 0o400 } else if member { 0o040 } else { 0o004 };
            let wb: u16 = if owner { 0o200 } else if member { 0o020 } else { 0o002 };
            let xb: u16 = if owner { 0o100 } else if member { 0o010 } else { 0o001 };
            let ok = (requested.read ==> p & rb != 0) && (requested.write ==> p & wb != 0) && (requested.execute
                ==> p & xb != 0);
            &&& ok ==> access_decision(inode, user, requested) == AccessCheck::Granted
            &&& !ok ==> access_decision(inode, user, requested) == AccessCheck::Denied
        }),
{
    let p = (inode.mode.mode & 0o7777u32) as u16;
    assert(spec_permissions(inode.mode.mode) == p);
    assert((((p >> 6u16) & 7u16) & 4u16 != 0) == (p & 0o400u16 != 0)) by (bit_vector);
    assert((((p >> 6u16) & 7u16) & 2u16 != 0) == (p & 0o200u16 != 0)) by (bit_vector);
    assert((((p >> 6u16) & 7u16) & 1u16 != 0) == (p & 0o100u16 != 0)) by (bit_vector);
    assert((((p >> 3u16) & 7u16) & 4u16 != 0) == (p & 0o040u16 != 0)) by (bit_vector);
    assert((((p >> 3u16) & 7u16) & 2u16 != 0) == (p & 0o020u16 != 0)) by (bit_vector);
    assert((((p >> 3u16) & 7u16) & 1u16 != 0) == (p & 0o010u16 != 0)) by (bit_vector);
    assert(((p & 7u16) & 4u16 != 0) == (p & 0o004u16 != 0)) by (bit_vector);
    assert(((p & 7u16) & 2u16 != 0) == (p & 0o002u16 != 0)) by (bit_vector);
    assert(((p & 7u16) & 1u16 != 0) == (p & 0o001u16 != 0)) by (bit_vector);
}

/// The superuser is granted every access, except executing a file that is
/// not a directory and has no execute bit for anyone.
pub proof fn lemma_superuser_access(inode: Inode, user: UserContext, requested: AccessMode)
    requires
        user.is_superuser,
    ensures
        access_decision(inode, user, requested) == (if requested.execute && inode.file_type != FileType::Directory
            && (inode.mode.mode & 0o111u32) == 0 { AccessCheck::Denied } else { AccessCheck::Granted }),
{
    let m = inode.mode.mode;
    assert((((m & 0o7777u32) as u16) & 0o111u16 != 0) == (m & 0o111u32 != 0)) by (bit_vector);
}

/// Deleting needs write and search access to the directory; in a directory
/// with the sticky bit (0o1000) anyone but the superuser must also own the
/// directory or the file.
pub proof fn lemma_delete_rules(dir: Inode, file: Inode, user: UserContext)
    ensures
        delete_decision(dir, file, user) == AccessCheck::Granted <==> {
            &&& access_decision(dir, user, AccessMode { read: false, write: true, execute: true }) == AccessCheck::Granted
            &&& ((dir.mode.mode & 0o1000u32) != 0 && !user.is_superuser ==> user.uid == dir.uid || user.uid == file.uid)
        },
        (dir.mode.mode & 0o1000u32) != 0 && !user.is_superuser && user.uid != dir.uid && user.uid != file.uid
            ==> delete_decision(dir, file, user) != AccessCheck::Granted,
{
    let m = dir.mode.mode;
    assert((((m & 0o7777u32) as u16) & 0o1000u16 != 0) == (m & 0o1000u32 != 0)) by (bit_vector);
}

/// Changing owner and group: the superuser may always; the owner may keep
/// the owner and pick a group they belong to (primary or supplementary);
/// anyone else is refused as not the owner.
pub proof fn lemma_chown_rules(inode: Inode, user: UserContext, new_uid: UserId, new_gid: GroupId)
    ensures
        chown_decision(inode, user, new_uid, new_gid) == AccessCheck::Granted <==> user.is_superuser || (user.uid
            == inode.uid && new_uid == inode.uid && (user.gid == new_gid || user.groups@.contains(new_gid))),
        !user.is_superuser && user.uid != inode.uid ==> chown_decision(inode, user, new_uid, new_gid)
            == AccessCheck::NotOwner,
{
}

/// Whether the sticky bit is set.
pub open spec fn sticky(mode: FileMode) -> bool {
    spec_permissions(mode.mode) & 0o1000 != 0
}

/// Whether the setuid bit is set.
pub open spec fn setuid(mode: FileMode) -> bool {
    spec_permissions(mode.mode) & 0o4000 != 0
}

/// Whether the setgid bit is set.
pub open spec fn setgid(mode: FileMode) -> bool {
    spec_permissions(mode.mode) & 0o2000 != 0
}

/// Whether deleting from a sticky directory needs the file's owner to be
/// looked up.
pub open spec fn delete_needs_file(dir: Inode, user: UserContext) -> bool {
    sticky(dir.mode) && !user.is_superuser && user.uid != dir.uid
}

/// The decision on deleting `file` from directory `dir`: the user needs
/// write and search access to the directory; in a sticky directory only
/// the superuser, the directory's owner or the file's owner may delete.
pub open spec fn delete_decision(dir: Inode, file: Inode, user: UserContext) -> AccessCheck {
    let dir_check = access_decision(dir, user, AccessMode { read: false, write: true, execute: true });
    if dir_check != AccessCheck::Granted {
        dir_check
    } else if delete_needs_file(dir, user) && user.uid != file.uid {
        AccessCheck::NotOwner
    } else {
        AccessCheck::Granted
    }
}

/// The decision on changing owner and group: the superuser may; the owner
/// may keep the owner and pick a group they belong to; nobody else may.
pub open spec fn chown_decision(inode: Inode, user: UserContext, new_uid: UserId, new_gid: GroupId) -> AccessCheck {
    if user.is_superuser {
        AccessCheck::Granted
    } else if user.uid == inode.uid {
        if new_uid != inode.uid {
            AccessCheck::Denied
        } else if !in_group(user, new_gid) {
            AccessCheck::NotInGroup
        } else {
            AccessCheck::Granted
        }
    } else {
        AccessCheck::NotOwner
    }
}

/// The outcome of checking a mode to be set: bits beyond the twelve
/// permission bits are refused, and only the superuser may set setuid on a
/// directory.
pub open spec fn mode_check(mode: u16, file_type: FileType, user: UserContext) -> Result<(), ErrorView> {
    if mode & !0o7777u16 != 0 {
        Err(ErrorView::InvalidArgument("Invalid permission bits"@))
    } else if !user.is_superuser && file_type == FileType::Directory && mode & 0o4000 != 0 {
        Err(ErrorView::PermissionDenied("Cannot set setuid on directory"@))
    } else {
        Ok(())
    }
}

/// Access control decisions that read inodes through the inode manager.
pub struct PermissionChecker;

impl PermissionChecker {
    /// Decide whether the user may have the requested access to an inode.
    pub fn check_access(
        inode_manager: &mut InodeManager,
        inode_num: InodeNumber,
        user: &UserContext,
        requested: AccessMode,
    ) -> (r: VexfsResult<AccessCheck>)
        requires
            old(inode_manager).wf(),
            old(inode_manager).cache().contains_key(inode_num) || inode_num > 0,
        ensures
            final(inode_manager).wf(),
            final(inode_manager).cache() == cache_with(old(inode_manager).cache(), inode_num),
            final(inode_manager).dirty() == old(inode_manager).dirty(),
            final(inode_manager).next_ino() == old(inode_manager).next_ino(),
            final(inode_manager).free_list() == old(inode_manager).free_list(),
            r == Ok::<AccessCheck, VexfsError>(
                access_decision(final(inode_manager).cache()[inode_num], *user, requested),
            ),
    {
        let inode = inode_manager.get_inode(inode_num)?;
        if user.is_superuser {
            if requested.execute && !inode.is_dir() {
                let mode = inode.mode;
                if !Self::has_any_execute_permission(mode) {
                    return Ok(AccessCheck::Denied);
                }
            }
            return Ok(AccessCheck::Granted);
        }
        let is_owner = user.uid == inode.uid;
        let is_group_member = user.is_in_group(inode.gid);
        let p = inode.mode.permissions();
        let effective_mode = if is_owner {
            AccessMode::from_octal((p >> 6u16) & 7)
        } else if is_group_member {
            AccessMode::from_octal((p >> 3u16) & 7)
        } else {
            AccessMode::from_octal(p & 7)
        };
        if requested.read && !effective_mode.read {
            return Ok(AccessCheck::Denied);
        }
        if requested.write && !effective_mode.write {
            return Ok(AccessCheck::Denied);
        }
        if requested.execute && !effective_mode.execute {
            return Ok(AccessCheck::Denied);
        }
        Ok(AccessCheck::Granted)
    }

    /// Decide whether the user may read an inode.
    pub fn check_read(inode_manager: &mut InodeManager, inode_num: InodeNumber, user: &UserContext) -> (r:
        VexfsResult<AccessCheck>)
        requires
            old(inode_manager).wf(),
            old(inode_manager).cache().contains_key(inode_num) || inode_num > 0,
        ensures
            final(inode_manager).wf(),
            final(inode_manager).cache() == cache_with(old(inode_manager).cache(), inode_num),
            final(inode_manager).dirty() == old(inode_manager).dirty(),
            final(inode_manager).next_ino() == old(inode_manager).next_ino(),
            final(inode_manager).free_list() == old(inode_manager).free_list(),
            r == Ok::<AccessCheck, VexfsError>(
                access_decision(final(inode_manager).cache()[inode_num], *user, AccessMode {
                    read: true,
                    write: false,
                    execute: false,
                }),
            ),
    {
        Self::check_access(inode_manager, inode_num, user, AccessMode::read_only())
    }

    /// Decide whether the user may write an inode.
    pub fn check_write(inode_manager: &mut InodeManager, inode_num: InodeNumber, user: &UserContext) -> (r:
        VexfsResult<AccessCheck>)
        requires
            old(inode_manager).wf(),
            old(inode_manager).cache().contains_key(inode_num) || inode_num > 0,
        ensures
            final(inode_manager).wf(),
            final(inode_manager).cache() == cache_with(old(inode_manager).cache(), inode_num),
            final(inode_manager).dirty() == old(inode_manager).dirty(),
            final(inode_manager).next_ino() == old(inode_manager).next_ino(),
            final(inode_manager).free_list() == old(inode_manager).free_list(),
            r == Ok::<AccessCheck, VexfsError>(
                access_decision(final(inode_manager).cache()[inode_num], *user, AccessMode {
                    read: false,
                    write: true,
                    execute: false,
                }),
            ),
    {
        Self::check_access(inode_manager, inode_num, user, AccessMode::write_only())
    }

    /// Decide whether the user may execute an inode.
    pub fn check_execute(inode_manager: &mut InodeManager, inode_num: InodeNumber, user: &UserContext) -> (r:
        VexfsResult<AccessCheck>)
        requires
            old(inode_manager).wf(),
            old(inode_manager).cache().contains_key(inode_num) || inode_num > 0,
        ensures
            final(inode_manager).wf(),
            final(inode_manager).cache() == cache_with(old(inode_manager).cache(), inode_num),
            final(inode_manager).dirty() == old(inode_manager).dirty(),
            final(inode_manager).next_ino() == old(inode_manager).next_ino(),
            final(inode_manager).free_list() == old(inode_manager).free_list(),
            r == Ok::<AccessCheck, VexfsError>(
                access_decision(final(inode_manager).cache()[inode_num], *user, AccessMode {
                    read: false,
                    write: false,
                    execute: true,
                }),
            ),
    {
        Self::check_access(inode_manager, inode_num, user, AccessMode::execute_only())
    }

    /// Decide whether the user may create entries in a directory: that
    /// takes write and search (execute) access.
    pub fn check_create(inode_manager: &mut InodeManager, dir_inode: InodeNumber, user: &UserContext) -> (r:
        VexfsResult<AccessCheck>)
        requires
            old(inode_manager).wf(),
            old(inode_manager).cache().contains_key(dir_inode) || dir_inode > 0,
        ensures
            final(inode_manager).wf(),
            final(inode_manager).cache() == cache_with(old(inode_manager).cache(), dir_inode),
            final(inode_manager).dirty() == old(inode_manager).dirty(),
            final(inode_manager).next_ino() == old(inode_manager).next_ino(),
            final(inode_manager).free_list() == old(inode_manager).free_list(),
            r == Ok::<AccessCheck, VexfsError>(
                access_decision(final(inode_manager).cache()[dir_inode], *user, AccessMode {
                    read: false,
                    write: true,
                    execute: true,
                }),
            ),
    {
        let access_mode = AccessMode::new(false, true, true);
        Self::check_access(inode_manager, dir_inode, user, access_mode)
    }

    /// Decide whether the user may delete `file_inode` from `dir_inode`.
    pub fn check_delete(
        inode_manager: &mut InodeManager,
        dir_inode: InodeNumber,
        file_inode: InodeNumber,
        user: &UserContext,
    ) -> (r: VexfsResult<AccessCheck>)
        requires
            old(inode_manager).wf(),
            old(inode_manager).cache().contains_key(dir_inode) || dir_inode > 0,
            old(inode_manager).cache().contains_key(file_inode) || file_inode > 0,
        ensures
            final(inode_manager).wf(),
            final(inode_manager).dirty() == old(inode_manager).dirty(),
            final(inode_manager).next_ino() == old(inode_manager).next_ino(),
            final(inode_manager).free_list() == old(inode_manager).free_list(),
            ({
                let c1 = cache_with(old(inode_manager).cache(), dir_inode);
                let dir = c1[dir_inode];
                let granted = access_decision(dir, *user, AccessMode { read: false, write: true, execute: true })
                    == AccessCheck::Granted;
                let c2 = if granted && delete_needs_file(dir, *user) { cache_with(c1, file_inode) } else { c1 };
                &&& final(inode_manager).cache() == c2
                &&& r == Ok::<AccessCheck, VexfsError>(delete_decision(dir, c2[file_inode], *user))
            }),
    {
        let dir_check = Self::check_create(inode_manager, dir_inode, user)?;
        if !dir_check.is_granted() {
            return Ok(dir_check);
        }
        let dir = inode_manager.get_inode(dir_inode)?;
        if Self::has_sticky_bit(dir.mode) {
            if !user.is_superuser && user.uid != dir.uid {
                let file = inode_manager.get_inode(file_inode)?;
                if user.uid != file.uid {
                    return Ok(AccessCheck::NotOwner);
                }
            }
        }
        Ok(AccessCheck::Granted)
    }

    /// Decide whether the user may change owner and group of an inode.
    pub fn check_chown(
        inode_manager: &mut InodeManager,
        inode_num: InodeNumber,
        user: &UserContext,
        new_uid: UserId,
        new_gid: GroupId,
    ) -> (r: VexfsResult<AccessCheck>)
        requires
            old(inode_manager).wf(),
            !user.is_superuser ==> (old(inode_manager).cache().contains_key(inode_num) || inode_num > 0),
        ensures
            final(inode_manager).wf(),
            final(inode_manager).dirty() == old(inode_manager).dirty(),
            final(inode_manager).next_ino() == old(inode_manager).next_ino(),
            final(inode_manager).free_list() == old(inode_manager).free_list(),
            user.is_superuser ==> final(inode_manager).cache() == old(inode_manager).cache(),
            !user.is_superuser ==> final(inode_manager).cache() == cache_with(old(inode_manager).cache(), inode_num),
            r == Ok::<AccessCheck, VexfsError>(
                chown_decision(cache_with(old(inode_manager).cache(), inode_num)[inode_num], *user, new_uid, new_gid),
            ),
    {
        if user.is_superuser {
            return Ok(AccessCheck::Granted);
        }
        let inode = inode_manager.get_inode(inode_num)?;
        if user.uid == inode.uid {
            if new_uid != inode.uid {
                return Ok(AccessCheck::Denied);
            }
            if !user.is_in_group(new_gid) {
                return Ok(AccessCheck::NotInGroup);
            }
            return Ok(AccessCheck::Granted);
        }
        Ok(AccessCheck::NotOwner)
    }

    /// Decide whether the user may change the mode of an inode: only the
    /// superuser and the owner may.
    pub fn check_chmod(inode_manager: &mut InodeManager, inode_num: InodeNumber, user: &UserContext) -> (r:
        VexfsResult<AccessCheck>)
        requires
            old(inode_manager).wf(),
            !user.is_superuser ==> (old(inode_manager).cache().contains_key(inode_num) || inode_num > 0),
        ensures
            final(inode_manager).wf(),
            final(inode_manager).dirty() == old(inode_manager).dirty(),
            final(inode_manager).next_ino() == old(inode_manager).next_ino(),
            final(inode_manager).free_list() == old(inode_manager).free_list(),
            user.is_superuser ==> final(inode_manager).cache() == old(inode_manager).cache(),
            !user.is_superuser ==> final(inode_manager).cache() == cache_with(old(inode_manager).cache(), inode_num),
            r == Ok::<AccessCheck, VexfsError>(
                if user.is_superuser || user.uid == cache_with(old(inode_manager).cache(), inode_num)[inode_num].uid {
                    AccessCheck::Granted
                } else {
                    AccessCheck::NotOwner
                },
            ),
    {
        if user.is_superuser {
            return Ok(AccessCheck::Granted);
        }
        let inode = inode_manager.get_inode(inode_num)?;
        if user.uid == inode.uid {
            Ok(AccessCheck::Granted)
        } else {
            Ok(AccessCheck::NotOwner)
        }
    }

    fn has_setuid_bit(mode: FileMode) -> (b: bool)
        ensures
            b == setuid(mode),
    {
        (mode.permissions() & 0o4000) != 0
    }

    fn has_setgid_bit(mode: FileMode) -> (b: bool)
        ensures
            b == setgid(mode),
    {
        (mode.permissions() & 0o2000) != 0
    }

    fn has_sticky_bit(mode: FileMode) -> (b: bool)
        ensures
            b == sticky(mode),
    {
        (mode.permissions() & 0o1000) != 0
    }

    fn has_any_execute_permission(mode: FileMode) -> (b: bool)
        ensures
            b == any_execute(mode),
    {
        (mode.permissions() & 0o111) != 0
    }

    /// Check a mode before it is set.
    pub fn validate_mode(mode: u16, file_type: FileType, user: &UserContext) -> (r: VexfsResult<()>)
        ensures
            unit_result_is(r, mode_check(mode, file_type, *user)),
    {
        if mode & !0o7777u16 != 0 {
            return Err(VexfsError::InvalidArgument(message("Invalid permission bits")));
        }
        if !user.is_superuser {
            if file_type == FileType::Directory {
                if mode & 0o4000 != 0 {
                    return Err(VexfsError::PermissionDenied(message("Cannot set setuid on directory")));
                }
            }
        }
        Ok(())
    }

    /// The user id a program runs as: its owner's for a regular file with
    /// setuid, the caller's otherwise.
    pub fn calculate_effective_uid(
        inode_manager: &mut InodeManager,
        executable_inode: InodeNumber,
        user: &UserContext,
    ) -> (r: VexfsResult<UserId>)
        requires
            old(inode_manager).wf(),
            old(inode_manager).cache().contains_key(executable_inode) || executable_inode > 0,
        ensures
            final(inode_manager).wf(),
            final(inode_manager).cache() == cache_with(old(inode_manager).cache(), executable_inode),
            final(inode_manager).dirty() == old(inode_manager).dirty(),
            final(inode_manager).next_ino() == old(inode_manager).next_ino(),
            final(inode_manager).free_list() == old(inode_manager).free_list(),
            ({
                let i = final(inode_manager).cache()[executable_inode];
                r == Ok::<UserId, VexfsError>(
                    if setuid(i.mode) && i.file_type == FileType::Regular { i.uid } else { user.uid },
                )
            }),
    {
        let inode = inode_manager.get_inode(executable_inode)?;
        if Self::has_setuid_bit(inode.mode) && inode.file_type == FileType::Regular {
            Ok(inode.uid)
        } else {
            Ok(user.uid)
        }
    }

    /// The group id a program runs as: its group for a file with setgid,
    /// the caller's otherwise.
    pub fn calculate_effective_gid(
        inode_manager: &mut InodeManager,
        executable_inode: InodeNumber,
        user: &UserContext,
    ) -> (r: VexfsResult<GroupId>)
        requires
            old(inode_manager).wf(),
            old(inode_manager).cache().contains_key(executable_inode) || executable_inode > 0,
        ensures
            final(inode_manager).wf(),
            final(inode_manager).cache() == cache_with(old(inode_manager).cache(), executable_inode),
            final(inode_manager).dirty() == old(inode_manager).dirty(),
            final(inode_manager).next_ino() == old(inode_manager).next_ino(),
            final(inode_manager).free_list() == old(inode_manager).free_list(),
            ({
                let i = final(inode_manager).cache()[executable_inode];
                r == Ok::<GroupId, VexfsError>(if setgid(i.mode) { i.gid } else { user.gid })
            }),
    {
        let inode = inode_manager.get_inode(executable_inode)?;
        if Self::has_setgid_bit(inode.mode) {
            Ok(inode.gid)
        } else {
            Ok(user.gid)
        }
    }
}

/// Whether the bit `bit` (4 read, 2 write, 1 execute) of the user's class
/// is set; the superuser has every bit.
pub open spec fn class_allows(inode: Inode, user: UserContext, bit: u16) -> bool {
    user.is_superuser || class_bits(inode, user) & bit != 0
}

/// The permission bits of the user's class in an inode.
fn user_class_bits(inode: &Inode, user: &UserContext) -> (b: u16)
    ensures
        b == class_bits(*inode, *user),
{
    let mode = inode.mode.permissions();
    if user.uid == inode.uid {
        (mode >> 6u16) & 7
    } else if user.is_in_group(inode.gid) {
        (mode >> 3u16) & 7
    } else {
        mode & 7
    }
}

/// Whether the user may read the inode, by its permission bits alone.
pub fn can_read(inode: &Inode, user: &UserContext) -> (b: bool)
    ensures
        b == class_allows(*inode, *user, 4),
{
    if user.is_superuser {
        return true;
    }
    user_class_bits(inode, user) & 4 != 0
}

/// Whether the user may write the inode, by its permission bits alone.
pub fn can_write(inode: &Inode, user: &UserContext) -> (b: bool)
    ensures
        b == class_allows(*inode, *user, 2),
{
    if user.is_superuser {
        return true;
    }
    user_class_bits(inode, user) & 2 != 0
}

/// Whether the user may search the directory, by its permission bits alone.
pub fn can_access_directory(inode: &Inode, user: &UserContext) -> (b: bool)
    ensures
        b == class_allows(*inode, *user, 1),
{
    if user.is_superuser {
        return true;
    }
    user_class_bits(inode, user) & 1 != 0
}

/// Listing a directory takes read access.
pub fn can_list_directory(inode: &Inode, user: &UserContext) -> (b: bool)
    ensures
        b == class_allows(*inode, *user, 4),
{
    can_read(inode, user)
}

/// Creating in a directory takes write and search access.
pub fn can_create_in_directory(inode: &Inode, user: &UserContext) -> (b: bool)
    ensures
        b == (class_allows(*inode, *user, 2) && class_allows(*inode, *user, 1)),
{
    can_write(inode, user) && can_access_directory(inode, user)
}

/// Deleting from a directory takes write and search access.
pub fn can_delete_from_directory(inode: &Inode, user: &UserContext) -> (b: bool)
    ensures
        b == (class_allows(*inode, *user, 2) && class_allows(*inode, *user, 1)),
{
    can_write(inode, user) && can_access_directory(inode, user)
}

/// The rwx bits (owner, group, other) of a mode.
pub fn permission_bits(mode: FileMode) -> (b: u16)
    ensures
        b == mode.mode & 0o777,
{
    let m = mode.mode;
    assert(m & 0o777u32 <= 0o777u32) by (bit_vector);
    (m & 0o777u32) as u16
}

/// The mode with the bits of the umask cleared.
pub fn apply_umask(mode: FileMode, umask: u16) -> (m: FileMode)
    ensures
        m.mode == mode.mode & !(umask as u32),
{
    FileMode { mode: mode.mode & !(umask as u32) }
}

/// Read access by the permission bits, as a result.
pub fn check_read_permission(inode: &Inode, user: &UserContext) -> (r: VexfsResult<()>)
    ensures
        class_allows(*inode, *user, 4) ==> r is Ok,
        !class_allows(*inode, *user, 4) ==> (r matches Err(e) && e@ == ErrorView::PermissionDenied("Read permission denied"@)),
{
    if can_read(inode, user) {
        Ok(())
    } else {
        Err(VexfsError::PermissionDenied(message("Read permission denied")))
    }
}

/// Write access by the permission bits, as a result.
pub fn check_write_permission(inode: &Inode, user: &UserContext) -> (r: VexfsResult<()>)
    ensures
        class_allows(*inode, *user, 2) ==> r is Ok,
        !class_allows(*inode, *user, 2) ==> (r matches Err(e) && e@ == ErrorView::PermissionDenied("Write permission denied"@)),
{
    if can_write(inode, user) {
        Ok(())
    } else {
        Err(VexfsError::PermissionDenied(message("Write permission denied")))
    }
}

/// Access to create in a directory, as a result.
pub fn check_create_permission(inode: &Inode, user: &UserContext) -> (r: VexfsResult<()>)
    ensures
        (class_allows(*inode, *user, 2) && class_allows(*inode, *user, 1)) ==> r is Ok,
        !(class_allows(*inode, *user, 2) && class_allows(*inode, *user, 1)) ==> (r matches Err(e) && e@
            == ErrorView::PermissionDenied("Create permission denied"@)),
{
    if can_create_in_directory(inode, user) {
        Ok(())
    } else {
        Err(VexfsError::PermissionDenied(message("Create permission denied")))
    }
}

/// Access to delete from a directory, as a result.
pub fn check_delete_permission(inode: &Inode, user: &UserContext) -> (r: VexfsResult<()>)
    ensures
        (class_allows(*inode, *user, 2) && class_allows(*inode, *user, 1)) ==> r is Ok,
        !(class_allows(*inode, *user, 2) && class_allows(*inode, *user, 1)) ==> (r matches Err(e) && e@
            == ErrorView::PermissionDenied("Delete permission denied"@)),
{
    if can_delete_from_directory(inode, user) {
        Ok(())
    } else {
        Err(VexfsError::PermissionDenied(message("Delete permission denied")))
    }
}

/// Operations that are always audited.
pub open spec fn sensitive_operation(op: Seq<char>) -> bool {
    op == "chmod"@ || op == "chown"@ || op == "delete"@ || op == "setuid_exec"@
}

/// The outcome of checking a file to be created: a name longer than 255
/// bytes is refused, then the mode is checked.
pub open spec fn creation_check(name: Seq<char>, mode: FileMode, file_type: FileType, user: UserContext) -> Result<(), ErrorView> {
    if byte_len(name) > MAX_FILENAME_LENGTH {
        Err(ErrorView::NameTooLong)
    } else {
        mode_check(spec_permissions(mode.mode), file_type, user)
    }
}

/// Security policy decisions.
pub struct SecurityPolicy;

impl SecurityPolicy {
    /// Whether an operation is audited: everything the superuser does, and
    /// chmod, chown, delete and setuid execution by anyone.
    pub fn should_audit(operation: &str, _inode_num: InodeNumber, user: &UserContext) -> (b: bool)
        ensures
            b == (user.is_superuser || sensitive_operation(operation@)),
    {
        if user.is_superuser {
            return true;
        }
        str_eq(operation, "chmod") || str_eq(operation, "chown") || str_eq(operation, "delete")
            || str_eq(operation, "setuid_exec")
    }

    /// Check an operation against the security policy; no operation is
    /// refused.
    pub fn check_security_violation(_operation: &str, _inode_num: InodeNumber, _user: &UserContext) -> (r:
        VexfsResult<()>)
        ensures
            r is Ok,
    {
        Ok(())
    }

    /// Check the name and mode of a file to be created.
    pub fn validate_creation(name: &str, mode: FileMode, file_type: FileType, user: &UserContext) -> (r:
        VexfsResult<()>)
        ensures
            unit_result_is(r, creation_check(name@, mode, file_type, *user)),
    {
        if name.as_bytes().len() > MAX_FILENAME_LENGTH {
            return Err(VexfsError::NameTooLong);
        }
        PermissionChecker::validate_mode(mode.permissions(), file_type, user)?;
        Ok(())
    }
}

} // verus!
