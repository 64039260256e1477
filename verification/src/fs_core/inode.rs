//! Inode management: the in-memory inode record and the manager that
//! allocates inode numbers, caches inodes and tracks which are dirty.

use vstd::prelude::*;
use std::sync::Arc;
use crate::shared::{
    BlockNumber, FileMode, FileSize, FileType, GroupId, InodeNumber, LinkCount, Timestamp,
    UserId, VexfsError, VexfsResult, VEXFS_DEFAULT_BLOCK_SIZE, VEXFS_DEFAULT_FILE_MODE,
    VEXFS_ROOT_INO, message,
};
use crate::ordered_map::OrderedMap;

verus! {

/// In-memory inode representation.
#[derive(Debug, Clone, Copy)]
pub struct Inode {
    pub ino: InodeNumber,
    pub file_type: FileType,
    pub mode: FileMode,
    pub uid: UserId,
    pub gid: GroupId,
    pub size: FileSize,
    pub atime: Timestamp,
    pub mtime: Timestamp,
    pub ctime: Timestamp,
    pub nlink: LinkCount,
    pub blocks: u64,
    pub block_addrs: [BlockNumber; 12],
    pub indirect_block: BlockNumber,
    pub double_indirect: BlockNumber,
    pub triple_indirect: BlockNumber,
    pub dirty: bool,
    pub ref_count: u32,
}

/// Attributes of an inode as reported by `stat`.
#[derive(Debug, Clone, Copy)]
pub struct InodeStat {
    pub ino: InodeNumber,
    pub size: FileSize,
    pub blocks: u64,
    pub atime: Timestamp,
    pub mtime: Timestamp,
    pub ctime: Timestamp,
    pub mode: FileMode,
    pub nlink: LinkCount,
    pub uid: UserId,
    pub gid: GroupId,
    pub rdev: u64,
    pub blksize: u32,
}

/// The inode `Inode::new` builds: no data, one link, one reference, all
/// timestamps and block pointers zero, marked dirty.
pub open spec fn fresh_inode(
    ino: InodeNumber,
    file_type: FileType,
    mode: FileMode,
    uid: UserId,
    gid: GroupId,
) -> Inode {
    Inode {
        ino,
        file_type,
        mode,
        uid,
        gid,
        size: 0,
        atime: 0,
        mtime: 0,
        ctime: 0,
        nlink: 1,
        blocks: 0,
        block_addrs: vstd::array::spec_array_fill_for_copy_type::<u64, 12>(0u64),
        indirect_block: 0,
        double_indirect: 0,
        triple_indirect: 0,
        dirty: true,
        ref_count: 1,
    }
}

/// The stat record of an inode.
pub open spec fn stat_of(i: Inode) -> InodeStat {
    InodeStat {
        ino: i.ino,
        size: i.size,
        blocks: i.blocks,
        atime: i.atime,
        mtime: i.mtime,
        ctime: i.ctime,
        mode: i.mode,
        nlink: i.nlink,
        uid: i.uid,
        gid: i.gid,
        rdev: 0,
        blksize: 4096,
    }
}

/// The inode an unknown inode number is read back as.
pub open spec fn loaded_inode(ino: InodeNumber) -> Inode {
    fresh_inode(ino, FileType::Regular, FileMode { mode: VEXFS_DEFAULT_FILE_MODE }, 0, 0)
}

impl Inode {
    /// Create a new inode with default values.
    pub fn new(ino: InodeNumber, file_type: FileType, mode: FileMode, uid: UserId, gid: GroupId) -> (r: Self)
        ensures
            r == fresh_inode(ino, file_type, mode, uid, gid),
    {
        let now: u64 = 0;
        Inode {
            ino,
            file_type,
            mode,
            uid,
            gid,
            size: 0,
            atime: now,
            mtime: now,
            ctime: now,
            nlink: 1,
            blocks: 0,
            block_addrs: [0u64; 12],
            indirect_block: 0,
            double_indirect: 0,
            triple_indirect: 0,
            dirty: true,
            ref_count: 1,
        }
    }

    /// Check if inode is a directory.
    pub fn is_dir(&self) -> (b: bool)
        ensures
            b == (self.file_type == FileType::Directory),
    {
        match self.file_type {
            FileType::Directory => true,
            _ => false,
        }
    }

    /// Check if inode is a regular file.
    pub fn is_file(&self) -> (b: bool)
        ensures
            b == (self.file_type == FileType::Regular),
    {
        match self.file_type {
            FileType::Regular => true,
            _ => false,
        }
    }

    /// Check if inode is a symbolic link.
    pub fn is_symlink(&self) -> (b: bool)
        ensures
            b == (self.file_type == FileType::Symlink),
    {
        match self.file_type {
            FileType::Symlink => true,
            _ => false,
        }
    }

    /// Check if inode is a directory (alias for is_dir).
    pub fn is_directory(&self) -> (b: bool)
        ensures
            b == (self.file_type == FileType::Directory),
    {
        self.is_dir()
    }

    /// Check if inode is a regular file (alias for is_file).
    pub fn is_regular_file(&self) -> (b: bool)
        ensures
            b == (self.file_type == FileType::Regular),
    {
        self.is_file()
    }

    /// Check if inode is a vector file.
    pub fn is_vector_file(&self) -> (b: bool)
        ensures
            b == (self.file_type == FileType::VectorFile),
    {
        match self.file_type {
            FileType::VectorFile => true,
            _ => false,
        }
    }

    /// Mark inode as dirty (needs to be written to disk).
    pub fn mark_dirty(&mut self)
        ensures
            *final(self) == (Inode { dirty: true, ..*old(self) }),
    {
        self.dirty = true;
    }

    /// Update modification time.
    pub fn touch_mtime(&mut self)
        ensures
            *final(self) == (Inode { mtime: 0, dirty: true, ..*old(self) }),
    {
        self.mtime = 0;
        self.mark_dirty();
    }

    /// Update access time.
    pub fn touch_atime(&mut self)
        ensures
            *final(self) == (Inode { atime: 0, dirty: true, ..*old(self) }),
    {
        self.atime = 0;
        self.mark_dirty();
    }

    /// Update change time.
    pub fn touch_ctime(&mut self)
        ensures
            *final(self) == (Inode { ctime: 0, dirty: true, ..*old(self) }),
    {
        self.ctime = 0;
        self.mark_dirty();
    }

    /// Get inode statistics.
    pub fn to_stat(&self) -> (s: InodeStat)
        ensures
            s == stat_of(*self),
    {
        InodeStat {
            ino: self.ino,
            size: self.size,
            blocks: self.blocks,
            atime: self.atime,
            mtime: self.mtime,
            ctime: self.ctime,
            mode: self.mode,
            nlink: self.nlink,
            uid: self.uid,
            gid: self.gid,
            rdev: 0,
            blksize: VEXFS_DEFAULT_BLOCK_SIZE as u32,
        }
    }

    /// Increment reference count.
    pub fn inc_ref(&mut self)
        requires
            old(self).ref_count < u32::MAX,
        ensures
            *final(self) == (Inode { ref_count: (old(self).ref_count + 1) as u32, ..*old(self) }),
    {
        self.ref_count += 1;
    }

    /// Decrement reference count (never below zero); returns the new count.
    pub fn dec_ref(&mut self) -> (r: u32)
        ensures
            *final(self) == (Inode {
                ref_count: if old(self).ref_count > 0 { (old(self).ref_count - 1) as u32 } else { 0 },
                ..*old(self)
            }),
            r == final(self).ref_count,
    {
        if self.ref_count > 0 {
            self.ref_count -= 1;
        }
        self.ref_count
    }
}

/// Decrementing after incrementing gives back the original inode.
pub proof fn lemma_inc_dec_ref_roundtrip(i: Inode)
    requires
        i.ref_count < u32::MAX,
    ensures
        ({
            let up = Inode { ref_count: (i.ref_count + 1) as u32, ..i };
            Inode { ref_count: if up.ref_count > 0 { (up.ref_count - 1) as u32 } else { 0 }, ..up } == i
        }),
{
}

/// Inode manager for allocation, caching and dirty tracking.
pub struct InodeManager {
    inode_cache: OrderedMap<Inode>,
    next_inode: InodeNumber,
    free_inodes: Vec<InodeNumber>,
    dirty_inodes: OrderedMap<bool>,
}

/// Whether an inode may be evicted from the cache.
pub open spec fn evictable(i: Inode) -> bool {
    i.ref_count == 0 && !i.dirty
}

/// The cache after the first `n` dirty inodes listed in `keys` were written
/// back and marked clean.
pub open spec fn cleaned(cache: Map<u64, Inode>, keys: Seq<u64>, n: int) -> Map<u64, Inode> {
    Map::new(
        |k: u64| cache.contains_key(k),
        |k: u64|
            if keys.subrange(0, n).contains(k) {
                Inode { dirty: false, ..cache[k] }
            } else {
                cache[k]
            },
    )
}

impl InodeManager {
    /// The cached inodes by number.
    pub closed spec fn cache(&self) -> Map<u64, Inode> {
        self.inode_cache@
    }

    /// The inode numbers marked dirty, in increasing order.
    pub closed spec fn dirty_keys(&self) -> Seq<u64> {
        self.dirty_inodes.keys_seq()
    }

    /// The set of inode numbers marked dirty.
    pub open spec fn dirty(&self) -> Set<u64> {
        self.dirty_keys().to_set()
    }

    /// The next never-used inode number.
    pub closed spec fn next_ino(&self) -> u64 {
        self.next_inode
    }

    /// The freed inode numbers awaiting reuse (the last one is reused first).
    pub closed spec fn free_list(&self) -> Seq<u64> {
        self.free_inodes@
    }

    /// Number of cached inodes.
    pub closed spec fn cache_len(&self) -> nat {
        self.inode_cache.spec_len()
    }

    /// Whether inode number `ino` is in use: handed out (the root is never
    /// handed out and always in use) and not released since.
    pub open spec fn in_use(&self, ino: u64) -> bool {
        0 < ino < self.next_ino() && !self.free_list().contains(ino)
    }

    /// Internal consistency: every cached inode is stored under its own
    /// number, the dirty table only records `true`, and the free list holds
    /// distinct numbers that were handed out, never the root.
    pub closed spec fn wf(&self) -> bool {
        &&& self.inode_cache.wf()
        &&& self.dirty_inodes.wf()
        &&& forall|k: u64| #[trigger] self.inode_cache@.contains_key(k) ==> self.inode_cache@[k].ino == k
        &&& forall|k: u64| #[trigger] self.dirty_inodes@.contains_key(k) ==> self.dirty_inodes@[k]
        &&& self.next_inode > VEXFS_ROOT_INO
        &&& self.free_inodes@.no_duplicates()
        &&& forall|i: int| 0 <= i < self.free_inodes@.len() ==> VEXFS_ROOT_INO < #[trigger] self.free_inodes@[i] < self.next_inode
    }

    /// What well-formedness gives a caller: the cache and the dirty set are
    /// finite, the cache count is the size of the cache, the root is in use,
    /// and the free list holds distinct numbers below the next fresh number,
    /// none of them the root.
    pub proof fn lemma_wf_facts(&self)
        requires
            self.wf(),
        ensures
            self.cache().dom().finite(),
            self.cache().dom().len() == self.cache_len(),
            self.dirty().finite(),
            self.dirty().len() == self.dirty_keys().len(),
            self.next_ino() > VEXFS_ROOT_INO,
            self.in_use(VEXFS_ROOT_INO),
            self.free_list().no_duplicates(),
            forall|i: int| 0 <= i < self.free_list().len() ==> VEXFS_ROOT_INO < #[trigger] self.free_list()[i] < self.next_ino(),
    {
        self.dirty_inodes.lemma_len();
        self.inode_cache.lemma_len();
        if self.free_list().contains(VEXFS_ROOT_INO) {
            let w = choose|w: int| 0 <= w < self.free_list().len() && self.free_list()[w] == VEXFS_ROOT_INO;
            assert(VEXFS_ROOT_INO < self.free_list()[w]);
        }
    }

    /// Every cached inode is stored under its own number.
    pub proof fn lemma_cached_under_own_number(&self, k: u64)
        requires
            self.wf(),
            self.cache().contains_key(k),
        ensures
            self.cache()[k].ino == k,
    {
    }

    proof fn lemma_dirty_dom(&self)
        requires
            self.wf(),
        ensures
            self.dirty_inodes@.dom() == self.dirty(),
            self.dirty_inodes@.dom().len() == self.dirty_keys().len(),
            self.inode_cache@.dom().len() == self.cache_len(),
    {
        self.dirty_inodes.lemma_len();
        self.inode_cache.lemma_len();
    }

    /// Create a new, empty inode manager.
    pub fn new() -> (r: VexfsResult<Self>)
        ensures
            r matches Ok(m) && m.wf() && m.cache() == Map::<u64, Inode>::empty()
                && m.dirty() == Set::<u64>::empty() && m.next_ino() == VEXFS_ROOT_INO + 1
                && m.free_list() == Seq::<u64>::empty(),
    {
        let m = InodeManager {
            inode_cache: OrderedMap::new(),
            next_inode: VEXFS_ROOT_INO + 1,
            free_inodes: Vec::new(),
            dirty_inodes: OrderedMap::new(),
        };
        assert(m.dirty() =~= Set::<u64>::empty());
        Ok(m)
    }

    /// Create an inode, cache it and mark it dirty.
    fn create_and_cache_inode(
        &mut self,
        ino: InodeNumber,
        file_type: FileType,
        mode: FileMode,
        uid: UserId,
        gid: GroupId,
    )
        requires
            old(self).wf(),
        ensures
            final(self).wf(),
            final(self).cache() == old(self).cache().insert(ino, fresh_inode(ino, file_type, mode, uid, gid)),
            final(self).dirty() == old(self).dirty().insert(ino),
            final(self).next_ino() == old(self).next_ino(),
            final(self).free_list() == old(self).free_list(),
    {
        let inode = Inode::new(ino, file_type, mode, uid, gid);
        self.inode_cache.insert(ino, inode);
        self.mark_dirty_entry(ino);
    }

    /// Record `ino` in the dirty table.
    fn mark_dirty_entry(&mut self, ino: InodeNumber)
        requires
            old(self).inode_cache.wf(),
            old(self).dirty_inodes.wf(),
            forall|k: u64| #[trigger] old(self).dirty_inodes@.contains_key(k) ==> old(self).dirty_inodes@[k],
        ensures
            final(self).inode_cache == old(self).inode_cache,
            final(self).dirty_inodes.wf(),
            forall|k: u64| #[trigger] final(self).dirty_inodes@.contains_key(k) ==> final(self).dirty_inodes@[k],
            final(self).dirty() == old(self).dirty().insert(ino),
            final(self).next_inode == old(self).next_inode,
            final(self).free_inodes == old(self).free_inodes,
    {
        let ghost old_dirty = self.dirty_inodes@;
        self.dirty_inodes.insert(ino, true);
        proof {
            old(self).dirty_inodes.lemma_len();
            self.dirty_inodes.lemma_len();
            assert(self.dirty() =~= old(self).dirty().insert(ino));
        }
    }

    /// Allocate an inode number (reusing the most recently freed one if any)
    /// and create the inode structure; the inode is cached and marked dirty.
    pub fn allocate_inode(&mut self, file_type: FileType, mode: FileMode, uid: UserId, gid: GroupId) -> (r:
        VexfsResult<InodeNumber>)
        requires
            old(self).wf(),
            old(self).free_list().len() > 0 || old(self).next_ino() < u64::MAX,
        ensures
            final(self).wf(),
            r matches Ok(ino) && {
                &&& if old(self).free_list().len() > 0 {
                    &&& ino == old(self).free_list().last()
                    &&& final(self).free_list() == old(self).free_list().drop_last()
                    &&& final(self).next_ino() == old(self).next_ino()
                } else {
                    &&& ino == old(self).next_ino()
                    &&& final(self).free_list() == old(self).free_list()
                    &&& final(self).next_ino() == old(self).next_ino() + 1
                }
                &&& final(self).cache() == old(self).cache().insert(ino, fresh_inode(ino, file_type, mode, uid, gid))
                &&& final(self).dirty() == old(self).dirty().insert(ino)
                &&& !old(self).in_use(ino)
                &&& final(self).in_use(ino)
                &&& forall|k: u64| k != ino ==> final(self).in_use(k) == old(self).in_use(k)
            },
    {
        let ghost fl = self.free_inodes@;
        let ino = match self.free_inodes.pop() {
            Some(free_ino) => free_ino,
            None => {
                let ino = self.next_inode;
                self.next_inode = self.next_inode + 1;
                ino
            },
        };
        proof {
            if fl.len() > 0 {
                assert(fl[fl.len() - 1] == ino);
                assert(self.free_inodes@ == fl.drop_last());
                assert(!fl.drop_last().contains(ino)) by {
                    if fl.drop_last().contains(ino) {
                        let w = choose|w: int| 0 <= w < fl.drop_last().len() && fl.drop_last()[w] == ino;
                        assert(fl[w] == fl[fl.len() - 1]);
                    }
                }
                assert forall|k: u64| k != ino implies fl.drop_last().contains(k) == fl.contains(k) by {
                    if fl.contains(k) {
                        let w = choose|w: int| 0 <= w < fl.len() && fl[w] == k;
                        assert(w != fl.len() - 1);
                        assert(fl.drop_last()[w] == k);
                    }
                    if fl.drop_last().contains(k) {
                        let w = choose|w: int| 0 <= w < fl.drop_last().len() && fl.drop_last()[w] == k;
                        assert(fl[w] == k);
                    }
                }
                assert(fl.contains(ino));
                assert(VEXFS_ROOT_INO < fl[fl.len() - 1]);
                assert(fl.drop_last().no_duplicates());
                assert forall|i: int| 0 <= i < self.free_inodes@.len() implies VEXFS_ROOT_INO < #[trigger] self.free_inodes@[i]
                    < self.next_inode by {
                    assert(self.free_inodes@[i] == fl[i]);
                }
            } else {
                assert(!fl.contains(ino)) by {
                    if fl.contains(ino) {
                        let w = choose|w: int| 0 <= w < fl.len() && fl[w] == ino;
                    }
                }
                assert forall|i: int| 0 <= i < self.free_inodes@.len() implies VEXFS_ROOT_INO < #[trigger] self.free_inodes@[i]
                    < self.next_inode by {
                    assert(self.free_inodes@[i] == fl[i]);
                }
            }
        }
        self.create_and_cache_inode(ino, file_type, mode, uid, gid);
        Ok(ino)
    }

    /// Create the root directory under the root inode number, which is
    /// reserved for it and never handed out by `allocate_inode`; the inode is
    /// cached and marked dirty.
    pub fn create_root_inode(&mut self, mode: FileMode, uid: UserId, gid: GroupId) -> (r: VexfsResult<Arc<Inode>>)
        requires
            old(self).wf(),
        ensures
            final(self).wf(),
            r matches Ok(inode) && *inode == fresh_inode(VEXFS_ROOT_INO, FileType::Directory, mode, uid, gid),
            final(self).cache() == old(self).cache().insert(
                VEXFS_ROOT_INO,
                fresh_inode(VEXFS_ROOT_INO, FileType::Directory, mode, uid, gid),
            ),
            final(self).dirty() == old(self).dirty().insert(VEXFS_ROOT_INO),
            final(self).next_ino() == old(self).next_ino(),
            final(self).free_list() == old(self).free_list(),
    {
        self.create_and_cache_inode(VEXFS_ROOT_INO, FileType::Directory, mode, uid, gid);
        match self.inode_cache.get(VEXFS_ROOT_INO) {
            Some(inode_ref) => Ok(Arc::new(*inode_ref)),
            None => Err(VexfsError::InodeNotFound(VEXFS_ROOT_INO)),
        }
    }

    /// Allocate an inode and return a shared handle to it.
    pub fn create_inode(&mut self, file_type: FileType, mode: FileMode, uid: UserId, gid: GroupId) -> (r:
        VexfsResult<Arc<Inode>>)
        requires
            old(self).wf(),
            old(self).free_list().len() > 0 || old(self).next_ino() < u64::MAX,
        ensures
            final(self).wf(),
            r matches Ok(inode) && {
                let ino = if old(self).free_list().len() > 0 { old(self).free_list().last() } else { old(self).next_ino() };
                &&& *inode == fresh_inode(ino, file_type, mode, uid, gid)
                &&& final(self).cache() == old(self).cache().insert(ino, fresh_inode(ino, file_type, mode, uid, gid))
                &&& final(self).dirty() == old(self).dirty().insert(ino)
                &&& final(self).free_list() == if old(self).free_list().len() > 0 { old(self).free_list().drop_last() } else { old(self).free_list() }
                &&& final(self).next_ino() == if old(self).free_list().len() > 0 { old(self).next_ino() } else { (old(self).next_ino() + 1) as u64 }
            },
    {
        let ino = self.allocate_inode(file_type, mode, uid, gid)?;
        self.get_inode(ino)
    }

    /// Release an inode number: drop it from the cache and the dirty table
    /// and, when it is in use, put it on the free list. The root inode
    /// cannot be released. Releasing a number that is not in use (already
    /// free, or never handed out) only drops it from the cache, so that no
    /// number is ever on the free list twice or handed out while in use.
    pub fn deallocate_inode(&mut self, ino: InodeNumber) -> (r: VexfsResult<()>)
        requires
            old(self).wf(),
        ensures
            final(self).wf(),
            ino == VEXFS_ROOT_INO ==> (r matches Err(VexfsError::InvalidOperation(_)) && *final(self) == *old(self)),
            ino != VEXFS_ROOT_INO ==> {
                &&& r matches Ok(())
                &&& final(self).cache() == old(self).cache().remove(ino)
                &&& final(self).dirty() == old(self).dirty().remove(ino)
                &&& final(self).next_ino() == old(self).next_ino()
                &&& final(self).free_list() == if old(self).in_use(ino) {
                    old(self).free_list().push(ino)
                } else {
                    old(self).free_list()
                }
                &&& !final(self).in_use(ino)
                &&& forall|k: u64| k != ino ==> final(self).in_use(k) == old(self).in_use(k)
            },
    {
        if ino == VEXFS_ROOT_INO {
            return Err(VexfsError::InvalidOperation(message("Cannot deallocate root inode")));
        }
        if ino == 0 || ino >= self.next_inode || Self::is_free(&self.free_inodes, ino) {
            self.inode_cache.remove(ino);
            self.dirty_inodes.remove(ino);
            proof {
                old(self).dirty_inodes.lemma_len();
                self.dirty_inodes.lemma_len();
                assert(self.dirty() =~= old(self).dirty().remove(ino));
            }
            return Ok(());
        }
        let ghost fl = self.free_inodes@;
        self.inode_cache.remove(ino);
        self.dirty_inodes.remove(ino);
        proof {
            old(self).dirty_inodes.lemma_len();
            self.dirty_inodes.lemma_len();
            assert(self.dirty() =~= old(self).dirty().remove(ino));
        }
        self.free_inodes.push(ino);
        proof {
            let nl = self.free_inodes@;
            assert(nl == fl.push(ino));
            assert(nl[fl.len() as int] == ino);
            assert forall|i: int, j: int| 0 <= i < nl.len() && 0 <= j < nl.len() && i != j implies nl[i] != nl[j] by {
                if i < fl.len() && j < fl.len() {
                    assert(nl[i] == fl[i] && nl[j] == fl[j]);
                } else if i < fl.len() {
                    assert(nl[i] == fl[i]);
                    assert(fl.contains(fl[i]));
                } else {
                    assert(nl[j] == fl[j]);
                    assert(fl.contains(fl[j]));
                }
            }
            assert forall|i: int| 0 <= i < nl.len() implies VEXFS_ROOT_INO < #[trigger] nl[i] < self.next_inode by {
                if i < fl.len() {
                    assert(nl[i] == fl[i]);
                }
            }
            assert(nl.contains(ino));
            assert forall|k: u64| k != ino implies nl.contains(k) == fl.contains(k) by {
                if fl.contains(k) {
                    let w = choose|w: int| 0 <= w < fl.len() && fl[w] == k;
                    assert(nl[w] == k);
                }
                if nl.contains(k) {
                    let w = choose|w: int| 0 <= w < nl.len() && nl[w] == k;
                    assert(w < fl.len());
                    assert(fl[w] == k);
                }
            }
        }
        Ok(())
    }

    /// Whether `ino` is on the free list.
    fn is_free(free: &Vec<InodeNumber>, ino: InodeNumber) -> (b: bool)
        ensures
            b == free@.contains(ino),
    {
        let mut i: usize = 0;
        while i < free.len()
            invariant
                i <= free@.len(),
                forall|j: int| 0 <= j < i ==> free@[j] != ino,
            decreases free@.len() - i,
        {
            if free[i] == ino {
                assert(free@[i as int] == ino);
                return true;
            }
            i = i + 1;
        }
        false
    }

    /// Read an inode that is not cached into the cache. Nothing is read
    /// from disk yet: the inode comes back with default attributes.
    fn load_inode(&mut self, ino: InodeNumber) -> (r: VexfsResult<()>)
        requires
            old(self).wf(),
            ino > 0,
        ensures
            final(self).wf(),
            r matches Ok(()),
            final(self).cache() == old(self).cache().insert(ino, loaded_inode(ino)),
            final(self).dirty() == old(self).dirty(),
            final(self).next_ino() == old(self).next_ino(),
            final(self).free_list() == old(self).free_list(),
    {
        let inode = Inode::new(ino, FileType::Regular, FileMode::new(VEXFS_DEFAULT_FILE_MODE), 0, 0);
        self.inode_cache.insert(ino, inode);
        Ok(())
    }

    /// Get a shared handle to an inode, loading it into the cache first if
    /// it is not there.
    pub fn get_inode(&mut self, ino: InodeNumber) -> (r: VexfsResult<Arc<Inode>>)
        requires
            old(self).wf(),
            old(self).cache().contains_key(ino) || ino > 0,
        ensures
            final(self).wf(),
            final(self).cache() == if old(self).cache().contains_key(ino) {
                old(self).cache()
            } else {
                old(self).cache().insert(ino, loaded_inode(ino))
            },
            final(self).dirty() == old(self).dirty(),
            final(self).next_ino() == old(self).next_ino(),
            final(self).free_list() == old(self).free_list(),
            r matches Ok(inode) && *inode == final(self).cache()[ino],
    {
        if !self.inode_cache.contains_key(ino) {
            self.load_inode(ino)?;
        }
        match self.inode_cache.get(ino) {
            Some(inode_ref) => Ok(Arc::new(*inode_ref)),
            None => Err(VexfsError::InodeNotFound(ino)),
        }
    }

    /// Get a shared handle to an inode that is about to be modified; the
    /// inode is marked dirty.
    pub fn get_inode_mut(&mut self, ino: InodeNumber) -> (r: VexfsResult<Arc<Inode>>)
        requires
            old(self).wf(),
            old(self).cache().contains_key(ino) || ino > 0,
        ensures
            final(self).wf(),
            final(self).cache() == if old(self).cache().contains_key(ino) {
                old(self).cache()
            } else {
                old(self).cache().insert(ino, loaded_inode(ino))
            },
            final(self).dirty() == old(self).dirty().insert(ino),
            final(self).next_ino() == old(self).next_ino(),
            final(self).free_list() == old(self).free_list(),
            r matches Ok(inode) && *inode == final(self).cache()[ino],
    {
        if !self.inode_cache.contains_key(ino) {
            self.load_inode(ino)?;
        }
        self.mark_dirty_entry(ino);
        match self.inode_cache.get(ino) {
            Some(inode_ref) => Ok(Arc::new(*inode_ref)),
            None => Err(VexfsError::InodeNotFound(ino)),
        }
    }

    /// Store an updated inode in the cache (marked dirty) under its number.
    pub fn put_inode(&mut self, inode_arc: Arc<Inode>) -> (r: VexfsResult<()>)
        requires
            old(self).wf(),
        ensures
            final(self).wf(),
            r matches Ok(()),
            final(self).cache() == old(self).cache().insert(inode_arc.ino, Inode { dirty: true, ..*inode_arc }),
            final(self).dirty() == old(self).dirty().insert(inode_arc.ino),
            final(self).next_ino() == old(self).next_ino(),
            final(self).free_list() == old(self).free_list(),
    {
        let ino = inode_arc.ino;
        let mut inode_to_store: Inode = *inode_arc;
        inode_to_store.mark_dirty();
        self.inode_cache.insert(ino, inode_to_store);
        self.mark_dirty_entry(ino);
        Ok(())
    }

    /// Get the stat record of an inode (loading it if needed).
    pub fn get_stat(&mut self, ino: InodeNumber) -> (r: VexfsResult<InodeStat>)
        requires
            old(self).wf(),
            old(self).cache().contains_key(ino) || ino > 0,
        ensures
            final(self).wf(),
            final(self).cache() == if old(self).cache().contains_key(ino) {
                old(self).cache()
            } else {
                old(self).cache().insert(ino, loaded_inode(ino))
            },
            final(self).dirty() == old(self).dirty(),
            final(self).next_ino() == old(self).next_ino(),
            final(self).free_list() == old(self).free_list(),
            r matches Ok(s) && s == stat_of(final(self).cache()[ino]),
    {
        let inode = self.get_inode(ino)?;
        Ok(inode.to_stat())
    }

    /// Write a dirty inode back. Fails when the inode is not cached.
    fn write_inode(&self, ino: InodeNumber) -> (r: VexfsResult<()>)
        requires
            self.wf(),
        ensures
            r matches Ok(()) <==> self.cache().contains_key(ino),
            r matches Err(e) ==> e == VexfsError::InodeNotFound(ino),
    {
        if self.inode_cache.contains_key(ino) {
            Ok(())
        } else {
            Err(VexfsError::InodeNotFound(ino))
        }
    }

    /// Write every dirty inode back, in increasing inode order, clearing its
    /// dirty mark. Stops at the first dirty inode that is no longer cached.
    pub fn sync(&mut self) -> (r: VexfsResult<()>)
        requires
            old(self).wf(),
        ensures
            final(self).wf(),
            final(self).next_ino() == old(self).next_ino(),
            final(self).free_list() == old(self).free_list(),
            ({
                let keys = old(self).dirty_keys();
                match r {
                    Ok(()) => {
                        &&& forall|i: int| 0 <= i < keys.len() ==> old(self).cache().contains_key(#[trigger] keys[i])
                        &&& final(self).dirty() == Set::<u64>::empty()
                        &&& final(self).cache() == cleaned(old(self).cache(), keys, keys.len() as int)
                    },
                    Err(e) => exists|n: int| {
                        &&& 0 <= n < keys.len()
                        &&& e == VexfsError::InodeNotFound(keys[n])
                        &&& !old(self).cache().contains_key(keys[n])
                        &&& forall|i: int| 0 <= i < n ==> old(self).cache().contains_key(#[trigger] keys[i])
                        &&& final(self).dirty() == keys.subrange(n, keys.len() as int).to_set()
                        &&& final(self).cache() == cleaned(old(self).cache(), keys, n)
                    },
                }
            }),
    {
        let dirty_list = self.dirty_inodes.keys();
        let ghost keys = dirty_list@;
        let ghost cache0 = self.cache();
        proof {
            assert(cleaned(cache0, keys, 0) =~= cache0);
            assert(keys.subrange(0, keys.len() as int) =~= keys);
        }
        let mut idx: usize = 0;
        while idx < dirty_list.len()
            invariant
                self.wf(),
                keys == dirty_list@,
                keys == old(self).dirty_keys(),
                cache0 == old(self).cache(),
                idx <= keys.len(),
                self.next_ino() == old(self).next_ino(),
                self.free_list() == old(self).free_list(),
                forall|i: int| 0 <= i < idx ==> cache0.contains_key(#[trigger] keys[i]),
                self.dirty() == keys.subrange(idx as int, keys.len() as int).to_set(),
                self.cache() == cleaned(cache0, keys, idx as int),
                crate::ordered_map::strictly_increasing(keys),
            decreases keys.len() - idx,
        {
            let ino = dirty_list[idx];
            let w = self.write_inode(ino);
            if w.is_err() {
                proof {
                    assert(!self.cache().contains_key(ino));
                    assert(!cache0.contains_key(ino));
                }
                return Err(VexfsError::InodeNotFound(ino));
            }
            let ghost before = self.cache();
            self.dirty_inodes.remove(ino);
            let cur = self.inode_cache.get(ino);
            match cur {
                Some(inode_ref) => {
                    let mut inode: Inode = *inode_ref;
                    inode.dirty = false;
                    self.inode_cache.insert(ino, inode);
                },
                None => {},
            }
            proof {
                self.dirty_inodes.lemma_len();
                old(self).dirty_inodes.lemma_len();
                crate::ordered_map::lemma_suffix_set_step(keys, idx as int);
                crate::ordered_map::lemma_prefix_set_step(keys, idx as int);
                crate::ordered_map::lemma_not_in_prefix(keys, idx as int);
                assert(self.cache() =~= cleaned(cache0, keys, idx as int + 1)) by {
                    assert forall|k: u64| #[trigger] keys.subrange(0, idx as int + 1).contains(k)
                        == (keys.subrange(0, idx as int).contains(k) || k == ino) by {
                        assert(keys.subrange(0, idx as int + 1).to_set().contains(k)
                            == keys.subrange(0, idx as int).to_set().insert(ino).contains(k));
                    }
                }
            }
            idx = idx + 1;
        }
        proof {
            assert(keys.subrange(keys.len() as int, keys.len() as int).to_set() =~= Set::<u64>::empty());
        }
        Ok(())
    }

    /// Drop from the cache every inode with no references that is clean.
    pub fn evict_unused(&mut self)
        requires
            old(self).wf(),
        ensures
            final(self).wf(),
            final(self).cache() == old(self).cache().restrict(
                old(self).cache().dom().filter(|k: u64| !evictable(old(self).cache()[k])),
            ),
            final(self).dirty() == old(self).dirty(),
            final(self).next_ino() == old(self).next_ino(),
            final(self).free_list() == old(self).free_list(),
    {
        let mut to_evict: Vec<InodeNumber> = Vec::new();
        let n = self.inode_cache.len();
        let ghost cache0 = self.cache();
        let mut i: usize = 0;
        while i < n
            invariant
                self.wf(),
                self.cache() == cache0,
                n == self.inode_cache.spec_len(),
                i <= n,
                forall|j: int| 0 <= j < to_evict@.len() ==> cache0.contains_key(#[trigger] to_evict@[j]) && evictable(cache0[to_evict@[j]]),
                forall|j: int| 0 <= j < i && evictable(self.inode_cache.value_seq(j)) ==> to_evict@.contains(#[trigger] self.inode_cache.keys_seq()[j]),
            decreases n - i,
        {
            let ino = self.inode_cache.key_at(i);
            let inode = self.inode_cache.value_at(i);
            proof {
                self.inode_cache.lemma_entry(i as int);
            }
            let ghost prev = to_evict@;
            if inode.ref_count == 0 && !inode.dirty {
                to_evict.push(ino);
                proof {
                    assert(to_evict@[to_evict@.len() - 1] == ino);
                    assert forall|j: int| 0 <= j < i && evictable(self.inode_cache.value_seq(j))
                        implies to_evict@.contains(#[trigger] self.inode_cache.keys_seq()[j]) by {
                        let w = choose|w: int| #![trigger prev[w]] 0 <= w < prev.len() && prev[w] == self.inode_cache.keys_seq()[j];
                        assert(to_evict@[w] == prev[w]);
                    }
                }
            }
            i = i + 1;
        }
        let mut e: usize = 0;
        while e < to_evict.len()
            invariant
                self.wf(),
                e <= to_evict@.len(),
                self.dirty() == old(self).dirty(),
                self.next_ino() == old(self).next_ino(),
                self.free_list() == old(self).free_list(),
                forall|j: int| 0 <= j < to_evict@.len() ==> cache0.contains_key(#[trigger] to_evict@[j]) && evictable(cache0[to_evict@[j]]),
                self.cache() == cache0.remove_keys(to_evict@.subrange(0, e as int).to_set()),
            decreases to_evict@.len() - e,
        {
            let ino = to_evict[e];
            self.inode_cache.remove(ino);
            proof {
                crate::ordered_map::lemma_prefix_set_step(to_evict@, e as int);
                assert(self.cache() =~= cache0.remove_keys(to_evict@.subrange(0, e as int + 1).to_set()));
            }
            e = e + 1;
        }
        proof {
            assert(to_evict@.subrange(0, to_evict@.len() as int) =~= to_evict@);
            assert(self.cache() =~= cache0.restrict(cache0.dom().filter(|k: u64| !evictable(cache0[k])))) by {
                assert forall|k: u64| #[trigger] self.cache().contains_key(k) == cache0.restrict(cache0.dom().filter(|k: u64| !evictable(cache0[k]))).contains_key(k) by {
                    if cache0.contains_key(k) && evictable(cache0[k]) {
                        let p = old(self).inode_cache.lemma_key_position(k);
                        assert(to_evict@.contains(k));
                    }
                    if to_evict@.contains(k) {
                        let j = choose|j: int| #![trigger to_evict@[j]] 0 <= j < to_evict@.len() && to_evict@[j] == k;
                        assert(evictable(cache0[to_evict@[j]]));
                    }
                }
            }
        }
    }

    /// Number of cached inodes and of dirty inodes.
    pub fn cache_stats(&self) -> (r: (usize, usize))
        requires
            self.wf(),
        ensures
            r.0 == self.cache().dom().len(),
            r.1 == self.dirty().len(),
    {
        proof {
            self.lemma_dirty_dom();
        }
        (self.inode_cache.len(), self.dirty_inodes.len())
    }
}

/// Reading back an inode just stored gives that inode, marked dirty.
pub proof fn lemma_put_then_get(before: InodeManager, after_put: InodeManager, inode: Inode)
    requires
        after_put.cache() == before.cache().insert(inode.ino, Inode { dirty: true, ..inode }),
    ensures
        after_put.cache().contains_key(inode.ino),
        after_put.cache()[inode.ino] == (Inode { dirty: true, ..inode }),
{
}

/// Get a shared handle to an inode.
pub fn get_inode(manager: &mut InodeManager, inode_num: InodeNumber) -> (r: VexfsResult<Arc<Inode>>)
    requires
        old(manager).wf(),
        old(manager).cache().contains_key(inode_num) || inode_num > 0,
    ensures
        final(manager).wf(),
        final(manager).cache() == if old(manager).cache().contains_key(inode_num) {
            old(manager).cache()
        } else {
            old(manager).cache().insert(inode_num, loaded_inode(inode_num))
        },
        final(manager).dirty() == old(manager).dirty(),
        r matches Ok(inode) && *inode == final(manager).cache()[inode_num],
{
    manager.get_inode(inode_num)
}

/// Store an updated inode.
pub fn put_inode(manager: &mut InodeManager, inode: Arc<Inode>) -> (r: VexfsResult<()>)
    requires
        old(manager).wf(),
    ensures
        final(manager).wf(),
        r matches Ok(()),
        final(manager).cache() == old(manager).cache().insert(inode.ino, Inode { dirty: true, ..*inode }),
        final(manager).dirty() == old(manager).dirty().insert(inode.ino),
{
    manager.put_inode(inode)
}

/// Allocate a new inode and return a handle to it.
pub fn create_inode(manager: &mut InodeManager, file_type: FileType, mode: FileMode, uid: UserId, gid: GroupId) -> (r:
    VexfsResult<Arc<Inode>>)
    requires
        old(manager).wf(),
        old(manager).free_list().len() > 0 || old(manager).next_ino() < u64::MAX,
    ensures
        final(manager).wf(),
        r matches Ok(inode) && {
            let ino = if old(manager).free_list().len() > 0 { old(manager).free_list().last() } else { old(manager).next_ino() };
            &&& *inode == fresh_inode(ino, file_type, mode, uid, gid)
            &&& final(manager).cache() == old(manager).cache().insert(ino, *inode)
        },
{
    manager.create_inode(file_type, mode, uid, gid)
}

/// Delete an inode, releasing its number.
pub fn delete_inode(manager: &mut InodeManager, inode_num: InodeNumber) -> (r: VexfsResult<()>)
    requires
        old(manager).wf(),
    ensures
        final(manager).wf(),
        inode_num == VEXFS_ROOT_INO ==> r matches Err(VexfsError::InvalidOperation(_)),
        inode_num != VEXFS_ROOT_INO ==> (r matches Ok(())
            && final(manager).cache() == old(manager).cache().remove(inode_num)
            && final(manager).free_list() == if old(manager).in_use(inode_num) {
                old(manager).free_list().push(inode_num)
            } else {
                old(manager).free_list()
            }),
{
    manager.deallocate_inode(inode_num)
}

/// Release the data blocks of an inode. Block allocation is not tracked by
/// this layer, so there is nothing to release.
pub fn deallocate_inode_blocks(inode_num: InodeNumber) -> (r: VexfsResult<()>)
    ensures
        r matches Ok(()),
{
    Ok(())
}

} // verus!
