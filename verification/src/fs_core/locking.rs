//! Filesystem locking: inode locks, directory locks and POSIX-style byte
//! range locks, coordinated by a lock manager that hands out lock ids.

use vstd::prelude::*;
use crate::shared::{FileOffset, FileSize, InodeNumber, VexfsError, VexfsResult, message};
use crate::ordered_map::OrderedMap;

verus! {

/// Lock type.
#[derive(Debug, Clone, Copy, PartialEq, Eq, Structural)]
pub enum LockType {
    /// Shared read lock
    Read,
    /// Exclusive write lock
    Write,
    /// Advisory lock (for file locking)
    Advisory,
}

/// What a lock covers.
#[derive(Debug, Clone, Copy, PartialEq, Eq, Structural)]
pub enum LockScope {
    /// Lock on inode metadata
    Inode(InodeNumber),
    /// Lock on directory structure
    Directory(InodeNumber),
    /// Lock on a byte range of a file: inode, start, length
    FileRange(InodeNumber, FileOffset, FileSize),
    /// Global filesystem lock
    Global,
}

/// Identifier of a granted lock.
#[derive(Debug, Clone, Copy, PartialEq, Eq, PartialOrd, Ord, Structural)]
pub struct LockId(u64);

impl LockId {
    /// The number behind the identifier.
    pub closed spec fn id(self) -> u64 {
        self.0
    }
}

/// POSIX-style byte range lock.
#[derive(Debug, Clone, Copy, PartialEq, Eq, Structural)]
pub struct FileLock {
    pub lock_type: LockType,
    pub start: FileOffset,
    pub length: FileSize,
    /// Process ID or similar identifier
    pub owner: u32,
    pub exclusive: bool,
}

/// The byte range of the lock ends inside the offset space.
pub open spec fn range_fits(l: FileLock) -> bool {
    l.start + l.length <= u64::MAX
}

/// Two locks conflict when they belong to different owners, their ranges
/// overlap and at least one of them is exclusive.
pub open spec fn locks_conflict(a: FileLock, b: FileLock) -> bool {
    &&& a.owner != b.owner
    &&& !(a.start + a.length <= b.start || b.start + b.length <= a.start)
    &&& (a.exclusive || b.exclusive)
}

impl FileLock {
    /// A lock of the given type on `length` bytes from `start`; write locks
    /// are exclusive.
    pub fn new(lock_type: LockType, start: FileOffset, length: FileSize, owner: u32) -> (r: Self)
        ensures
            r == (FileLock { lock_type, start, length, owner, exclusive: lock_type == LockType::Write }),
    {
        FileLock { lock_type, start, length, owner, exclusive: lock_type == LockType::Write }
    }

    /// Check if this lock conflicts with another lock.
    pub fn conflicts_with(&self, other: &FileLock) -> (b: bool)
        requires
            range_fits(*self),
            range_fits(*other),
        ensures
            b == locks_conflict(*self, *other),
    {
        if self.owner == other.owner {
            return false;
        }
        let self_end = self.start + self.length;
        let other_end = other.start + other.length;
        let overlaps = !(self_end <= other.start || other_end <= self.start);
        overlaps && (self.exclusive || other.exclusive)
    }
}

/// Whether locks conflict does not depend on which one asks.
pub proof fn lemma_conflict_symmetric(a: FileLock, b: FileLock)
    ensures
        locks_conflict(a, b) == locks_conflict(b, a),
{
}

/// A lock never conflicts with a lock of the same owner.
pub proof fn lemma_no_self_conflict(a: FileLock, b: FileLock)
    requires
        a.owner == b.owner,
    ensures
        !locks_conflict(a, b),
{
}

/// Directory lock for structural operations.
#[derive(Debug, Clone, Copy, PartialEq, Eq, Structural)]
pub struct DirectoryLock {
    pub inode: InodeNumber,
    pub lock_type: LockType,
    pub owner: u32,
}

impl DirectoryLock {
    /// A directory lock record.
    pub fn new(inode: InodeNumber, lock_type: LockType, owner: u32) -> (r: Self)
        ensures
            r == (DirectoryLock { inode, lock_type, owner }),
    {
        DirectoryLock { inode, lock_type, owner }
    }
}

/// Abstract state of the lock manager.
pub struct LockState {
    /// Scope of every granted lock, by lock id.
    pub active: Map<u64, LockScope>,
    /// Owner of every granted lock, by lock id.
    pub owners: Map<u64, u32>,
    /// Type of every granted lock, by lock id.
    pub kinds: Map<u64, LockType>,
    /// Ids of the inode locks held on each inode, in grant order.
    pub inode_holders: Map<u64, Seq<u64>>,
    /// Ids of the directory locks held on each directory, in grant order.
    pub dir_holders: Map<u64, Seq<u64>>,
    /// Byte range locks held on each file with the ids they were granted
    /// under, in grant order.
    pub file_locks: Map<u64, Seq<(u64, FileLock)>>,
    /// The id the next granted lock receives.
    pub next_id: u64,
}

/// Keeps every id other than `id`.
pub open spec fn other_than(id: u64) -> spec_fn(u64) -> bool {
    |x: u64| x != id
}

/// Keeps every range lock record not granted under `id`.
pub open spec fn other_record(id: u64) -> spec_fn((u64, FileLock)) -> bool {
    |e: (u64, FileLock)| e.0 != id
}

/// Keeps the lock ids held by `owner`.
pub open spec fn owned_pred(owners: Map<u64, u32>, owner: u32) -> spec_fn(u64) -> bool {
    |id: u64| owners.contains_key(id) && owners[id] == owner
}

/// Appends `id` to the list kept under `key`.
pub open spec fn add_id(m: Map<u64, Seq<u64>>, key: u64, id: u64) -> Map<u64, Seq<u64>> {
    m.insert(key, if m.contains_key(key) { m[key].push(id) } else { seq![id] })
}

/// Removes `id` from the list kept under `key`, dropping the list when it
/// becomes empty.
pub open spec fn drop_id(m: Map<u64, Seq<u64>>, key: u64, id: u64) -> Map<u64, Seq<u64>> {
    if m.contains_key(key) {
        let rest = m[key].filter(other_than(id));
        if rest.len() == 0 {
            m.remove(key)
        } else {
            m.insert(key, rest)
        }
    } else {
        m
    }
}

/// Appends the range lock `l`, granted under `id`, to the list kept for
/// file `key`.
pub open spec fn add_range(m: Map<u64, Seq<(u64, FileLock)>>, key: u64, id: u64, l: FileLock) -> Map<
    u64,
    Seq<(u64, FileLock)>,
> {
    m.insert(key, if m.contains_key(key) { m[key].push((id, l)) } else { seq![(id, l)] })
}

/// Removes the range lock granted under `id` from file `key`, dropping the
/// list when it becomes empty; the other range locks stay.
pub open spec fn drop_range(m: Map<u64, Seq<(u64, FileLock)>>, key: u64, id: u64) -> Map<u64, Seq<(u64, FileLock)>> {
    if m.contains_key(key) {
        let rest = m[key].filter(other_record(id));
        if rest.len() == 0 {
            m.remove(key)
        } else {
            m.insert(key, rest)
        }
    } else {
        m
    }
}

/// Whether `length` bytes from `start` overlap the range of `l`.
pub open spec fn ranges_overlap(start: u64, length: u64, l: FileLock) -> bool {
    !(start + length <= l.start || l.start + l.length <= start)
}

/// Whether one of the locks listed under `key` is a write lock.
pub open spec fn held_for_writing(holders: Map<u64, Seq<u64>>, kinds: Map<u64, LockType>, key: u64) -> bool {
    holders.contains_key(key) && exists|j: int|
        0 <= j < holders[key].len() && kinds[#[trigger] holders[key][j]] == LockType::Write
}

impl LockState {
    /// Whether an inode lock is held on `inode`.
    pub open spec fn inode_locked(self, inode: u64) -> bool {
        self.inode_holders.contains_key(inode)
    }

    /// Whether a directory lock is held on `inode`.
    pub open spec fn dir_locked(self, inode: u64) -> bool {
        self.dir_holders.contains_key(inode)
    }

    /// Whether an inode write lock is held on `inode`.
    pub open spec fn inode_write_locked(self, inode: u64) -> bool {
        held_for_writing(self.inode_holders, self.kinds, inode)
    }

    /// Whether a directory write lock is held on `inode`.
    pub open spec fn dir_write_locked(self, inode: u64) -> bool {
        held_for_writing(self.dir_holders, self.kinds, inode)
    }

    /// Whether an inode lock of type `t` is refused: a write lock while any
    /// lock is held, any lock while a write lock is held.
    pub open spec fn inode_refused(self, inode: u64, t: LockType) -> bool {
        self.inode_locked(inode) && (t == LockType::Write || self.inode_write_locked(inode))
    }

    /// Whether a directory lock of type `t` is refused: a write lock while
    /// any lock is held, any lock while a write lock is held.
    pub open spec fn dir_refused(self, inode: u64, t: LockType) -> bool {
        self.dir_locked(inode) && (t == LockType::Write || self.dir_write_locked(inode))
    }

    /// Whether `l` conflicts with a range lock held on file `inode`.
    pub open spec fn range_blocked(self, inode: u64, l: FileLock) -> bool {
        self.file_locks.contains_key(inode) && exists|i: int|
            0 <= i < self.file_locks[inode].len() && #[trigger] locks_conflict(l, self.file_locks[inode][i].1)
    }

    /// Whether a range lock held on file `inode`, of any owner or type,
    /// overlaps `length` bytes from `start`.
    pub open spec fn range_held(self, inode: u64, start: u64, length: u64) -> bool {
        self.file_locks.contains_key(inode) && exists|i: int|
            0 <= i < self.file_locks[inode].len() && #[trigger] ranges_overlap(start, length, self.file_locks[inode][i].1)
    }

    /// The state after granting lock `self.next_id` of type `t` on `scope`
    /// to `owner`.
    pub open spec fn granted(self, scope: LockScope, t: LockType, owner: u32) -> LockState {
        LockState {
            active: self.active.insert(self.next_id, scope),
            owners: self.owners.insert(self.next_id, owner),
            kinds: self.kinds.insert(self.next_id, t),
            next_id: (self.next_id + 1) as u64,
            ..self
        }
    }

    /// The state after releasing the granted lock `id`.
    pub open spec fn after_unlock(self, id: u64) -> LockState {
        let base = LockState {
            active: self.active.remove(id),
            owners: self.owners.remove(id),
            kinds: self.kinds.remove(id),
            ..self
        };
        match self.active[id] {
            LockScope::Inode(i) => LockState { inode_holders: drop_id(self.inode_holders, i, id), ..base },
            LockScope::Directory(i) => LockState { dir_holders: drop_id(self.dir_holders, i, id), ..base },
            LockScope::FileRange(i, _, _) => LockState { file_locks: drop_range(self.file_locks, i, id), ..base },
            LockScope::Global => base,
        }
    }

    /// The state after releasing the locks `ids`, first to last.
    pub open spec fn after_unlocks(self, ids: Seq<u64>) -> LockState
        decreases ids.len(),
    {
        if ids.len() == 0 {
            self
        } else {
            self.after_unlocks(ids.drop_last()).after_unlock(ids.last())
        }
    }

    /// The ids of the locks `owner` holds, in increasing order.
    pub open spec fn owned_by(self, owner: u32, keys: Seq<u64>) -> Seq<u64> {
        keys.filter(owned_pred(self.owners, owner))
    }
}

/// Lock manager for coordinating all filesystem locks.
pub struct LockManager {
    next_lock_id: u64,
    inode_locks: OrderedMap<Vec<u64>>,
    directory_locks: OrderedMap<Vec<u64>>,
    file_locks: OrderedMap<Vec<(u64, FileLock)>>,
    active_locks: OrderedMap<LockScope>,
    lock_owners: OrderedMap<u32>,
    lock_types: OrderedMap<LockType>,
}

/// Holder lists are non-empty and name granted locks of
/// the matching scope; every granted lock of that kind is listed.
pub open spec fn holders_consistent(
    holders: Map<u64, Seq<u64>>,
    active: Map<u64, LockScope>,
    is_dir: bool,
) -> bool {
    &&& forall|i: u64| #[trigger] holders.contains_key(i) ==> holders[i].len() > 0
    &&& forall|i: u64, j: int| #![trigger holders[i][j]]
        holders.contains_key(i) && 0 <= j < holders[i].len() ==> active.contains_key(holders[i][j])
            && active[holders[i][j]] == (if is_dir { LockScope::Directory(i) } else { LockScope::Inode(i) })
    &&& forall|id: u64| #[trigger] active.contains_key(id) ==> match active[id] {
        LockScope::Inode(i) => !is_dir ==> holders.contains_key(i) && holders[i].contains(id),
        LockScope::Directory(i) => is_dir ==> holders.contains_key(i) && holders[i].contains(id),
        _ => true,
    }
}

/// Every range lock record of file `i` was granted under a lock id whose
/// scope is that range of that file.
pub open spec fn record_granted(active: Map<u64, LockScope>, i: u64, e: (u64, FileLock)) -> bool {
    active.contains_key(e.0) && active[e.0] == LockScope::FileRange(i, e.1.start, e.1.length)
}

impl LockState {
    /// Internal consistency of the lock tables.
    pub open spec fn consistent(self) -> bool {
        &&& self.active.dom() == self.owners.dom()
        &&& self.active.dom() == self.kinds.dom()
        &&& forall|id: u64| #[trigger] self.active.contains_key(id) ==> id < self.next_id
        &&& holders_consistent(self.inode_holders, self.active, false)
        &&& holders_consistent(self.dir_holders, self.active, true)
        &&& forall|i: u64| #[trigger] self.file_locks.contains_key(i) ==> self.file_locks[i].len() > 0
        &&& forall|i: u64, j: int| #![trigger self.file_locks[i][j]]
            self.file_locks.contains_key(i) && 0 <= j < self.file_locks[i].len() ==> range_fits(self.file_locks[i][j].1)
                && record_granted(self.active, i, self.file_locks[i][j])
    }
}

impl LockManager {
    /// The abstract state.
    pub closed spec fn view(&self) -> LockState {
        LockState {
            active: self.active_locks@,
            owners: self.lock_owners@,
            kinds: self.lock_types@,
            inode_holders: self.inode_locks@.map_values(|v: Vec<u64>| v@),
            dir_holders: self.directory_locks@.map_values(|v: Vec<u64>| v@),
            file_locks: self.file_locks@.map_values(|v: Vec<(u64, FileLock)>| v@),
            next_id: self.next_lock_id,
        }
    }

    /// The lock ids of the granted locks, in increasing order.
    pub closed spec fn owner_keys(&self) -> Seq<u64> {
        self.lock_owners.keys_seq()
    }

    /// Well-formedness.
    pub closed spec fn wf(&self) -> bool {
        &&& self.inode_locks.wf()
        &&& self.directory_locks.wf()
        &&& self.file_locks.wf()
        &&& self.active_locks.wf()
        &&& self.lock_owners.wf()
        &&& self.lock_types.wf()
        &&& self@.consistent()
    }

    /// What well-formedness gives a caller: the tables are consistent (so
    /// the next id names no granted lock) and every table is finite.
    pub proof fn lemma_wf_facts(&self)
        requires
            self.wf(),
        ensures
            self@.consistent(),
            !self@.active.contains_key(self@.next_id),
            self@.active.dom().finite(),
            self@.owners.dom().finite(),
            self@.kinds.dom().finite(),
            self@.inode_holders.dom().finite(),
            self@.dir_holders.dom().finite(),
            self@.file_locks.dom().finite(),
    {
        self.active_locks.lemma_len();
        self.lock_owners.lemma_len();
        self.lock_types.lemma_len();
        self.inode_locks.lemma_len();
        self.directory_locks.lemma_len();
        self.file_locks.lemma_len();
        assert(self@.inode_holders.dom() == self.inode_locks@.dom());
        assert(self@.dir_holders.dom() == self.directory_locks@.dom());
        assert(self@.file_locks.dom() == self.file_locks@.dom());
    }

    /// Create a new lock manager.
    pub fn new() -> (r: Self)
        ensures
            r.wf(),
            r@.active == Map::<u64, LockScope>::empty(),
            r@.owners == Map::<u64, u32>::empty(),
            r@.kinds == Map::<u64, LockType>::empty(),
            r@.inode_holders == Map::<u64, Seq<u64>>::empty(),
            r@.dir_holders == Map::<u64, Seq<u64>>::empty(),
            r@.file_locks == Map::<u64, Seq<(u64, FileLock)>>::empty(),
            r@.next_id == 1,
    {
        let r = LockManager {
            next_lock_id: 1,
            inode_locks: OrderedMap::new(),
            directory_locks: OrderedMap::new(),
            file_locks: OrderedMap::new(),
            active_locks: OrderedMap::new(),
            lock_owners: OrderedMap::new(),
            lock_types: OrderedMap::new(),
        };
        assert(r@.inode_holders =~= Map::<u64, Seq<u64>>::empty());
        assert(r@.dir_holders =~= Map::<u64, Seq<u64>>::empty());
        assert(r@.file_locks =~= Map::<u64, Seq<(u64, FileLock)>>::empty());
        r
    }

    /// Generate a new unique lock id.
    fn next_id(&mut self) -> (r: LockId)
        requires
            old(self).next_lock_id < u64::MAX,
        ensures
            r.id() == old(self).next_lock_id,
            final(self).next_lock_id == old(self).next_lock_id + 1,
            final(self).inode_locks == old(self).inode_locks,
            final(self).directory_locks == old(self).directory_locks,
            final(self).file_locks == old(self).file_locks,
            final(self).active_locks == old(self).active_locks,
            final(self).lock_owners == old(self).lock_owners,
            final(self).lock_types == old(self).lock_types,
    {
        let id = self.next_lock_id;
        self.next_lock_id = self.next_lock_id + 1;
        LockId(id)
    }

    /// Record the granted lock `id` in the id tables.
    fn record(&mut self, id: u64, scope: LockScope, lock_type: LockType, owner: u32)
        requires
            old(self).active_locks.wf(),
            old(self).lock_owners.wf(),
            old(self).lock_types.wf(),
        ensures
            final(self).active_locks.wf(),
            final(self).lock_owners.wf(),
            final(self).lock_types.wf(),
            final(self).active_locks@ == old(self).active_locks@.insert(id, scope),
            final(self).lock_owners@ == old(self).lock_owners@.insert(id, owner),
            final(self).lock_types@ == old(self).lock_types@.insert(id, lock_type),
            final(self).next_lock_id == old(self).next_lock_id,
            final(self).inode_locks == old(self).inode_locks,
            final(self).directory_locks == old(self).directory_locks,
            final(self).file_locks == old(self).file_locks,
    {
        self.active_locks.insert(id, scope);
        self.lock_owners.insert(id, owner);
        self.lock_types.insert(id, lock_type);
    }

    /// Append `id` to the holder list of `key` in `table`.
    fn push_holder(table: &mut OrderedMap<Vec<u64>>, key: u64, id: u64)
        requires
            old(table).wf(),
        ensures
            final(table).wf(),
            final(table)@.map_values(|v: Vec<u64>| v@) == add_id(old(table)@.map_values(|v: Vec<u64>| v@), key, id),
    {
        let ghost before = table@;
        let list = table.remove(key);
        let new_list = match list {
            Some(mut v) => {
                v.push(id);
                v
            },
            None => {
                let mut v: Vec<u64> = Vec::new();
                v.push(id);
                v
            },
        };
        let ghost nl = new_list@;
        table.insert(key, new_list);
        proof {
            if before.contains_key(key) {
                assert(nl == before[key]@.push(id));
            } else {
                assert(nl =~= seq![id]);
            }
            assert(table@.map_values(|v: Vec<u64>| v@) =~= add_id(before.map_values(|v: Vec<u64>| v@), key, id));
        }
    }

    /// The ids of `v` other than `id`, in order.
    fn ids_without(v: &Vec<u64>, id: u64) -> (r: Vec<u64>)
        ensures
            r@ == v@.filter(other_than(id)),
    {
        let mut r: Vec<u64> = Vec::new();
        let mut i: usize = 0;
        while i < v.len()
            invariant
                i <= v@.len(),
                r@ == v@.take(i as int).filter(other_than(id)),
            decreases v@.len() - i,
        {
            proof {
                assert(v@.take(i as int + 1).drop_last() =~= v@.take(i as int));
                reveal_with_fuel(Seq::<_>::filter, 1);
            }
            if v[i] != id {
                r.push(v[i]);
            }
            i = i + 1;
        }
        assert(v@.take(v@.len() as int) =~= v@);
        r
    }

    /// The range lock records of `v` not granted under `id`, in order.
    fn records_without(v: &Vec<(u64, FileLock)>, id: u64) -> (r: Vec<(u64, FileLock)>)
        ensures
            r@ == v@.filter(other_record(id)),
    {
        let mut r: Vec<(u64, FileLock)> = Vec::new();
        let mut i: usize = 0;
        while i < v.len()
            invariant
                i <= v@.len(),
                r@ == v@.take(i as int).filter(other_record(id)),
            decreases v@.len() - i,
        {
            proof {
                assert(v@.take(i as int + 1).drop_last() =~= v@.take(i as int));
                reveal_with_fuel(Seq::<_>::filter, 1);
            }
            let e = v[i];
            if e.0 != id {
                r.push(e);
            }
            i = i + 1;
        }
        assert(v@.take(v@.len() as int) =~= v@);
        r
    }

    /// Whether one of the locks listed under `key` in `table` is a write
    /// lock.
    fn write_held(table: &OrderedMap<Vec<u64>>, types: &OrderedMap<LockType>, key: u64) -> (b: bool)
        requires
            table.wf(),
            types.wf(),
            forall|j: int| #![trigger table@[key]@[j]]
                table@.contains_key(key) && 0 <= j < table@[key]@.len() ==> types@.contains_key(table@[key]@[j]),
        ensures
            b == held_for_writing(table@.map_values(|v: Vec<u64>| v@), types@, key),
    {
        let ghost hm = table@.map_values(|v: Vec<u64>| v@);
        match table.get(key) {
            Some(list) => {
                assert(hm.contains_key(key) && hm[key] == list@);
                let mut i: usize = 0;
                while i < list.len()
                    invariant
                        types.wf(),
                        i <= list@.len(),
                        hm.contains_key(key),
                        hm[key] == list@,
                        table@.contains_key(key),
                        table@[key]@ == list@,
                        forall|j: int| #![trigger table@[key]@[j]]
                            0 <= j < table@[key]@.len() ==> types@.contains_key(table@[key]@[j]),
                        forall|j: int| 0 <= j < i ==> types@[#[trigger] hm[key][j]] != LockType::Write,
                    decreases list@.len() - i,
                {
                    let id = list[i];
                    assert(table@[key]@[i as int] == id);
                    match types.get(id) {
                        Some(t) => {
                            if *t == LockType::Write {
                                assert(types@[hm[key][i as int]] == LockType::Write);
                                return true;
                            }
                        },
                        None => {},
                    }
                    i = i + 1;
                }
                false
            },
            None => false,
        }
    }

    /// Remove `id` from the holder list of `key` in `table`.
    fn pull_holder(table: &mut OrderedMap<Vec<u64>>, key: u64, id: u64)
        requires
            old(table).wf(),
        ensures
            final(table).wf(),
            final(table)@.map_values(|v: Vec<u64>| v@) == drop_id(old(table)@.map_values(|v: Vec<u64>| v@), key, id),
    {
        let ghost before = table@;
        let ghost bm = before.map_values(|v: Vec<u64>| v@);
        let list = table.remove(key);
        match list {
            Some(v) => {
                let rest = Self::ids_without(&v, id);
                assert(bm.contains_key(key) && bm[key] == v@);
                assert(rest@ == bm[key].filter(other_than(id)));
                if rest.len() != 0 {
                    assert(drop_id(bm, key, id) == bm.insert(key, rest@));
                    table.insert(key, rest);
                    assert(table@.map_values(|v: Vec<u64>| v@) =~= bm.insert(key, rest@));
                } else {
                    assert(drop_id(bm, key, id) == bm.remove(key));
                    assert(table@.map_values(|v: Vec<u64>| v@) =~= bm.remove(key));
                }
            },
            None => {
                assert(table@.map_values(|v: Vec<u64>| v@) =~= bm);
            },
        }
    }

    /// Acquire an inode lock. A write lock is exclusive: it is refused
    /// while any inode lock is held on the inode, and while it is held every
    /// other inode lock on the inode is refused; read and advisory locks
    /// share the inode with each other.
    pub fn lock_inode(&mut self, inode: InodeNumber, lock_type: LockType, owner: u32) -> (r: VexfsResult<LockId>)
        requires
            old(self).wf(),
            old(self)@.next_id < u64::MAX,
        ensures
            final(self).wf(),
            old(self)@.inode_refused(inode, lock_type) ==> (r matches Err(VexfsError::LockConflict(_))
                && final(self)@ == old(self)@),
            !old(self)@.inode_refused(inode, lock_type) ==> (r matches Ok(lid) && lid.id() == old(self)@.next_id
                && final(self)@ == LockState {
                    inode_holders: add_id(old(self)@.inode_holders, inode, old(self)@.next_id),
                    ..old(self)@.granted(LockScope::Inode(inode), lock_type, owner)
                }),
    {
        if self.inode_locks.contains_key(inode) {
            if lock_type == LockType::Write {
                return Err(VexfsError::LockConflict(message("Inode already locked")));
            }
            proof {
                self.lemma_holders_typed(false, inode);
            }
            if Self::write_held(&self.inode_locks, &self.lock_types, inode) {
                return Err(VexfsError::LockConflict(message("Inode already locked")));
            }
        }
        let ghost old_state = self@;
        let lock_id = self.next_id();
        let scope = LockScope::Inode(inode);
        self.record(lock_id.0, scope, lock_type, owner);
        Self::push_holder(&mut self.inode_locks, inode, lock_id.0);
        proof {
            self.lemma_grant_holder(old_state, inode, lock_id.0, lock_type, owner, false);
        }
        Ok(lock_id)
    }

    /// Acquire a directory lock. A write lock is exclusive: it is refused
    /// while any directory lock is held on the directory, and while it is
    /// held every other directory lock on it is refused; read and advisory
    /// locks share the directory with each other.
    pub fn lock_directory(&mut self, inode: InodeNumber, lock_type: LockType, owner: u32) -> (r: VexfsResult<LockId>)
        requires
            old(self).wf(),
            old(self)@.next_id < u64::MAX,
        ensures
            final(self).wf(),
            old(self)@.dir_refused(inode, lock_type) ==> (r matches Err(VexfsError::LockConflict(_))
                && final(self)@ == old(self)@),
            !old(self)@.dir_refused(inode, lock_type) ==> (r matches Ok(lid) && lid.id() == old(self)@.next_id
                && final(self)@ == LockState {
                    dir_holders: add_id(old(self)@.dir_holders, inode, old(self)@.next_id),
                    ..old(self)@.granted(LockScope::Directory(inode), lock_type, owner)
                }),
    {
        if self.directory_locks.contains_key(inode) {
            if lock_type == LockType::Write {
                return Err(VexfsError::LockConflict(message("Directory already locked")));
            }
            proof {
                self.lemma_holders_typed(true, inode);
            }
            if Self::write_held(&self.directory_locks, &self.lock_types, inode) {
                return Err(VexfsError::LockConflict(message("Directory already locked")));
            }
        }
        let ghost old_state = self@;
        let lock_id = self.next_id();
        let scope = LockScope::Directory(inode);
        self.record(lock_id.0, scope, lock_type, owner);
        Self::push_holder(&mut self.directory_locks, inode, lock_id.0);
        proof {
            self.lemma_grant_holder(old_state, inode, lock_id.0, lock_type, owner, true);
        }
        Ok(lock_id)
    }

    /// Every lock listed as holding an inode or directory has a type.
    proof fn lemma_holders_typed(&self, is_dir: bool, key: u64)
        requires
            self.wf(),
        ensures
            is_dir ==> forall|j: int| #![trigger self.directory_locks@[key]@[j]]
                self.directory_locks@.contains_key(key) && 0 <= j < self.directory_locks@[key]@.len()
                    ==> self.lock_types@.contains_key(self.directory_locks@[key]@[j]),
            !is_dir ==> forall|j: int| #![trigger self.inode_locks@[key]@[j]]
                self.inode_locks@.contains_key(key) && 0 <= j < self.inode_locks@[key]@.len()
                    ==> self.lock_types@.contains_key(self.inode_locks@[key]@[j]),
    {
        let st = self@;
        if is_dir {
            assert forall|j: int| #![trigger self.directory_locks@[key]@[j]]
                self.directory_locks@.contains_key(key) && 0 <= j < self.directory_locks@[key]@.len()
                    implies self.lock_types@.contains_key(self.directory_locks@[key]@[j]) by {
                assert(st.dir_holders[key] == self.directory_locks@[key]@);
                assert(st.dir_holders[key][j] == self.directory_locks@[key]@[j]);
                assert(st.active.contains_key(st.dir_holders[key][j]));
            }
        } else {
            assert forall|j: int| #![trigger self.inode_locks@[key]@[j]]
                self.inode_locks@.contains_key(key) && 0 <= j < self.inode_locks@[key]@.len()
                    implies self.lock_types@.contains_key(self.inode_locks@[key]@[j]) by {
                assert(st.inode_holders[key] == self.inode_locks@[key]@);
                assert(st.inode_holders[key][j] == self.inode_locks@[key]@[j]);
                assert(st.active.contains_key(st.inode_holders[key][j]));
            }
        }
    }

    /// After granting `id` on inode or directory `inode`, the tables are
    /// consistent again.
    proof fn lemma_grant_holder(&self, old_state: LockState, inode: u64, id: u64, t: LockType, owner: u32, is_dir: bool)
        requires
            old_state.consistent(),
            id == old_state.next_id,
            id < u64::MAX,
            self@.next_id == id + 1,
            self@.active == old_state.active.insert(id, if is_dir { LockScope::Directory(inode) } else { LockScope::Inode(inode) }),
            self@.owners == old_state.owners.insert(id, owner),
            self@.kinds == old_state.kinds.insert(id, t),
            is_dir ==> self@.dir_holders == add_id(old_state.dir_holders, inode, id) && self@.inode_holders == old_state.inode_holders,
            !is_dir ==> self@.inode_holders == add_id(old_state.inode_holders, inode, id) && self@.dir_holders == old_state.dir_holders,
            self@.file_locks == old_state.file_locks,
        ensures
            self@.consistent(),
    {
        assert(self@.active.dom() =~= self@.owners.dom());
        assert(self@.active.dom() =~= self@.kinds.dom());
        assert(!old_state.active.contains_key(id));
        let fl = self@.file_locks;
        assert forall|i: u64, j: int| #![trigger fl[i][j]]
            fl.contains_key(i) && 0 <= j < fl[i].len() implies range_fits(fl[i][j].1)
                && record_granted(self@.active, i, fl[i][j]) by {
            assert(record_granted(old_state.active, i, fl[i][j]));
        }
        let h0 = if is_dir { old_state.dir_holders } else { old_state.inode_holders };
        let h1 = if is_dir { self@.dir_holders } else { self@.inode_holders };
        let other0 = if is_dir { old_state.inode_holders } else { old_state.dir_holders };
        assert forall|i: u64, j: int| #![trigger h1[i][j]]
            h1.contains_key(i) && 0 <= j < h1[i].len() implies self@.active.contains_key(h1[i][j])
                && self@.active[h1[i][j]] == (if is_dir { LockScope::Directory(i) } else { LockScope::Inode(i) }) by {
            if i == inode && h0.contains_key(i) && j < h0[i].len() {
                assert(h1[i][j] == h0[i][j]);
                assert(old_state.active.contains_key(h0[i][j]));
            } else if i != inode {
                assert(h1[i][j] == h0[i][j]);
                assert(old_state.active.contains_key(h0[i][j]));
            }
        }
        assert forall|x: u64| #[trigger] self@.active.contains_key(x) implies match self@.active[x] {
            LockScope::Inode(i) => !is_dir ==> h1.contains_key(i) && h1[i].contains(x),
            LockScope::Directory(i) => is_dir ==> h1.contains_key(i) && h1[i].contains(x),
            _ => true,
        } by {
            if x == id {
                if h0.contains_key(inode) {
                    assert(h1[inode][h0[inode].len() as int] == id);
                } else {
                    assert(h1[inode][0] == id);
                }
            } else {
                match old_state.active[x] {
                    LockScope::Inode(i) => {
                        if !is_dir {
                            let w = choose|w: int| #![trigger h0[i][w]] 0 <= w < h0[i].len() && h0[i][w] == x;
                            assert(h1[i][w] == x);
                        }
                    },
                    LockScope::Directory(i) => {
                        if is_dir {
                            let w = choose|w: int| #![trigger h0[i][w]] 0 <= w < h0[i].len() && h0[i][w] == x;
                            assert(h1[i][w] == x);
                        }
                    },
                    _ => {},
                }
            }
        }
        let other1 = if is_dir { self@.inode_holders } else { self@.dir_holders };
        assert(other1 == other0);
        assert forall|i: u64, j: int| #![trigger other1[i][j]]
            other1.contains_key(i) && 0 <= j < other1[i].len() implies self@.active.contains_key(other1[i][j])
                && self@.active[other1[i][j]] == (if !is_dir { LockScope::Directory(i) } else { LockScope::Inode(i) }) by {
            assert(old_state.active.contains_key(other0[i][j]));
        }
        assert forall|x: u64| #[trigger] self@.active.contains_key(x) implies match self@.active[x] {
            LockScope::Inode(i) => is_dir ==> other1.contains_key(i) && other1[i].contains(x),
            LockScope::Directory(i) => !is_dir ==> other1.contains_key(i) && other1[i].contains(x),
            _ => true,
        } by {
            if x != id {
                assert(old_state.active.contains_key(x));
            }
        }
        if is_dir {
            assert(holders_consistent(self@.dir_holders, self@.active, true));
            assert(holders_consistent(self@.inode_holders, self@.active, false));
        } else {
            assert(holders_consistent(self@.inode_holders, self@.active, false));
            assert(holders_consistent(self@.dir_holders, self@.active, true));
        }
    }
}


impl LockManager {
    /// Append the range lock `l`, granted under `id`, to the list of file
    /// `key`.
    fn push_range(table: &mut OrderedMap<Vec<(u64, FileLock)>>, key: u64, id: u64, l: FileLock)
        requires
            old(table).wf(),
        ensures
            final(table).wf(),
            final(table)@.map_values(|v: Vec<(u64, FileLock)>| v@) == add_range(
                old(table)@.map_values(|v: Vec<(u64, FileLock)>| v@),
                key,
                id,
                l,
            ),
    {
        let ghost before = table@;
        let list = table.remove(key);
        let new_list = match list {
            Some(mut v) => {
                v.push((id, l));
                v
            },
            None => {
                let mut v: Vec<(u64, FileLock)> = Vec::new();
                v.push((id, l));
                v
            },
        };
        let ghost nl = new_list@;
        table.insert(key, new_list);
        proof {
            if before.contains_key(key) {
                assert(nl == before[key]@.push((id, l)));
            } else {
                assert(nl =~= seq![(id, l)]);
            }
            assert(table@.map_values(|v: Vec<(u64, FileLock)>| v@) =~= add_range(
                before.map_values(|v: Vec<(u64, FileLock)>| v@),
                key,
                id,
                l,
            ));
        }
    }

    /// Remove the range lock granted under `id` from file `key`.
    fn pull_range(table: &mut OrderedMap<Vec<(u64, FileLock)>>, key: u64, id: u64)
        requires
            old(table).wf(),
        ensures
            final(table).wf(),
            final(table)@.map_values(|v: Vec<(u64, FileLock)>| v@) == drop_range(
                old(table)@.map_values(|v: Vec<(u64, FileLock)>| v@),
                key,
                id,
            ),
    {
        let ghost before = table@;
        let ghost bm = before.map_values(|v: Vec<(u64, FileLock)>| v@);
        let list = table.remove(key);
        match list {
            Some(v) => {
                let rest = Self::records_without(&v, id);
                assert(bm.contains_key(key) && bm[key] == v@);
                if rest.len() != 0 {
                    table.insert(key, rest);
                    assert(drop_range(bm, key, id) == bm.insert(key, rest@));
                    assert(table@.map_values(|v: Vec<(u64, FileLock)>| v@) =~= bm.insert(key, rest@));
                } else {
                    assert(drop_range(bm, key, id) == bm.remove(key));
                    assert(table@.map_values(|v: Vec<(u64, FileLock)>| v@) =~= bm.remove(key));
                }
            },
            None => {
                assert(table@.map_values(|v: Vec<(u64, FileLock)>| v@) =~= bm);
            },
        }
    }

    /// Acquire a lock on `length` bytes of file `inode` from `start`. The
    /// request is refused when it conflicts with a range lock already held
    /// on the file.
    pub fn lock_file_range(
        &mut self,
        inode: InodeNumber,
        start: FileOffset,
        length: FileSize,
        lock_type: LockType,
        owner: u32,
    ) -> (r: VexfsResult<LockId>)
        requires
            old(self).wf(),
            old(self)@.next_id < u64::MAX,
            start + length <= u64::MAX,
        ensures
            final(self).wf(),
            old(self)@.range_blocked(inode, FileLock { lock_type, start, length, owner, exclusive: lock_type == LockType::Write })
                ==> (r matches Err(VexfsError::LockConflict(_)) && final(self)@ == old(self)@),
            !old(self)@.range_blocked(inode, FileLock { lock_type, start, length, owner, exclusive: lock_type == LockType::Write })
                ==> (r matches Ok(lid) && lid.id() == old(self)@.next_id
                    && final(self)@ == LockState {
                        file_locks: add_range(old(self)@.file_locks, inode, old(self)@.next_id,
                            FileLock { lock_type, start, length, owner, exclusive: lock_type == LockType::Write }),
                        ..old(self)@.granted(LockScope::FileRange(inode, start, length), lock_type, owner)
                    }),
    {
        let new_lock = FileLock::new(lock_type, start, length, owner);
        assert(new_lock == FileLock { lock_type, start, length, owner, exclusive: lock_type == LockType::Write });
        let ghost fl = self@.file_locks;
        match self.file_locks.get(inode) {
            Some(existing_locks) => {
                let mut i: usize = 0;
                while i < existing_locks.len()
                    invariant
                        self.wf(),
                        self@ == old(self)@,
                        new_lock == (FileLock { lock_type, start, length, owner, exclusive: lock_type == LockType::Write }),
                        fl == self@.file_locks,
                        fl.contains_key(inode),
                        existing_locks@ == fl[inode],
                        range_fits(new_lock),
                        i <= existing_locks@.len(),
                        forall|j: int| 0 <= j < i ==> !locks_conflict(new_lock, #[trigger] fl[inode][j].1),
                    decreases existing_locks@.len() - i,
                {
                    assert(range_fits(fl[inode][i as int].1));
                    if new_lock.conflicts_with(&existing_locks[i].1) {
                        assert(locks_conflict(new_lock, fl[inode][i as int].1));
                        return Err(VexfsError::LockConflict(message("File range already locked")));
                    }
                    i = i + 1;
                }
            },
            None => {},
        }
        let ghost old_state = self@;
        let lock_id = self.next_id();
        let scope = LockScope::FileRange(inode, start, length);
        self.record(lock_id.0, scope, lock_type, owner);
        Self::push_range(&mut self.file_locks, inode, lock_id.0, new_lock);
        proof {
            let st = self@;
            assert(st.active.dom() =~= st.owners.dom());
            assert(st.active.dom() =~= st.kinds.dom());
            assert(!old_state.active.contains_key(lock_id.0));
            assert forall|i: u64, j: int| #![trigger st.inode_holders[i][j]]
                st.inode_holders.contains_key(i) && 0 <= j < st.inode_holders[i].len() implies st.active.contains_key(st.inode_holders[i][j])
                    && st.active[st.inode_holders[i][j]] == LockScope::Inode(i) by {
                assert(old_state.active.contains_key(old_state.inode_holders[i][j]));
            }
            assert forall|i: u64, j: int| #![trigger st.dir_holders[i][j]]
                st.dir_holders.contains_key(i) && 0 <= j < st.dir_holders[i].len() implies st.active.contains_key(st.dir_holders[i][j])
                    && st.active[st.dir_holders[i][j]] == LockScope::Directory(i) by {
                assert(old_state.active.contains_key(old_state.dir_holders[i][j]));
            }
            assert forall|i: u64, j: int| #![trigger st.file_locks[i][j]]
                st.file_locks.contains_key(i) && 0 <= j < st.file_locks[i].len() implies range_fits(st.file_locks[i][j].1)
                    && record_granted(st.active, i, st.file_locks[i][j]) by {
                if i == inode && old_state.file_locks.contains_key(i) && j < old_state.file_locks[i].len() {
                    assert(st.file_locks[i][j] == old_state.file_locks[i][j]);
                    assert(record_granted(old_state.active, i, old_state.file_locks[i][j]));
                } else if i != inode {
                    assert(st.file_locks[i][j] == old_state.file_locks[i][j]);
                    assert(record_granted(old_state.active, i, old_state.file_locks[i][j]));
                }
            }
            assert(holders_consistent(st.inode_holders, st.active, false));
            assert(holders_consistent(st.dir_holders, st.active, true));
        }
        Ok(lock_id)
    }

    /// Release a lock. Fails when `lock_id` names no granted lock.
    pub fn unlock(&mut self, lock_id: LockId) -> (r: VexfsResult<()>)
        requires
            old(self).wf(),
        ensures
            final(self).wf(),
            !old(self)@.active.contains_key(lock_id.id()) ==> (r matches Err(VexfsError::InvalidOperation(_))
                && final(self)@ == old(self)@),
            old(self)@.active.contains_key(lock_id.id()) ==> (r matches Ok(())
                && final(self)@ == old(self)@.after_unlock(lock_id.id())),
    {
        let id = lock_id.0;
        let ghost old_state = self@;
        let scope = match self.active_locks.remove(id) {
            Some(s) => s,
            None => {
                assert(self.active_locks@ =~= old(self).active_locks@);
                assert(self@ =~= old_state);
                return Err(VexfsError::InvalidOperation(message("No such lock")));
            },
        };
        self.lock_owners.remove(id);
        self.lock_types.remove(id);
        match scope {
            LockScope::Inode(inode) => {
                Self::pull_holder(&mut self.inode_locks, inode, id);
            },
            LockScope::Directory(inode) => {
                Self::pull_holder(&mut self.directory_locks, inode, id);
            },
            LockScope::FileRange(inode, _, _) => {
                Self::pull_range(&mut self.file_locks, inode, id);
            },
            LockScope::Global => {},
        }
        proof {
            assert(self@ == old_state.after_unlock(id));
            lemma_unlock_consistent(old_state, id);
        }
        Ok(())
    }

    /// Release all locks held by `owner`, in increasing lock id order.
    pub fn unlock_all_for_owner(&mut self, owner: u32) -> (r: VexfsResult<()>)
        requires
            old(self).wf(),
        ensures
            final(self).wf(),
            r matches Ok(()),
            final(self)@ == old(self)@.after_unlocks(old(self)@.owned_by(owner, old(self).owner_keys())),
            forall|id: u64| #[trigger] final(self)@.owners.contains_key(id) ==> final(self)@.owners[id] != owner,
            forall|id: u64| #[trigger] old(self)@.owners.contains_key(id) && old(self)@.owners[id] != owner
                ==> final(self)@.owners.contains_key(id) && final(self)@.active[id] == old(self)@.active[id],
    {
        let ghost st0 = self@;
        let keys = self.lock_owners.keys();
        let ghost ks = keys@;
        let mut locks_to_release: Vec<u64> = Vec::new();
        let mut i: usize = 0;
        while i < keys.len()
            invariant
                self.wf(),
                self@ == st0,
                keys@ == ks,
                ks == self.lock_owners.keys_seq(),
                i <= ks.len(),
                locks_to_release@ == st0.owned_by(owner, ks.take(i as int)),
            decreases ks.len() - i,
        {
            let id = keys[i];
            proof {
                self.lock_owners.lemma_entry(i as int);
                assert(ks.take(i as int + 1).drop_last() =~= ks.take(i as int));
                reveal_with_fuel(Seq::<_>::filter, 1);
            }
            match self.lock_owners.get(id) {
                Some(o) => {
                    if *o == owner {
                        locks_to_release.push(id);
                    }
                },
                None => {},
            }
            i = i + 1;
        }
        proof {
            assert(ks.take(ks.len() as int) =~= ks);
        }
        let ghost ids = locks_to_release@;
        proof {
            lemma_owned_facts(st0, owner, ks);
        }
        let mut k: usize = 0;
        while k < locks_to_release.len()
            invariant
                self.wf(),
                st0.consistent(),
                ids == locks_to_release@,
                ids == st0.owned_by(owner, ks),
                k <= ids.len(),
                self@ == st0.after_unlocks(ids.take(k as int)),
                forall|a: int, b: int| 0 <= a < b < ids.len() ==> ids[a] < ids[b],
                forall|a: int| 0 <= a < ids.len() ==> st0.owners.contains_key(#[trigger] ids[a]),
            decreases ids.len() - k,
        {
            let id = locks_to_release[k];
            proof {
                let done = ids.take(k as int);
                assert forall|a: int| 0 <= a < done.len() implies st0.active.contains_key(#[trigger] done[a]) by {
                    assert(done[a] == ids[a]);
                    assert(st0.owners.contains_key(ids[a]));
                }
                lemma_after_unlocks_all(st0, done);
                assert(!done.to_set().contains(id)) by {
                    if done.contains(id) {
                        let w = choose|w: int| #![trigger done[w]] 0 <= w < done.len() && done[w] == id;
                        assert(ids[w] < ids[k as int]);
                    }
                }
                assert(st0.owners.contains_key(id));
            }
            let res = self.unlock(LockId(id));
            proof {
                assert(ids.take(k as int + 1).drop_last() =~= ids.take(k as int));
                assert(ids.take(k as int + 1).last() == id);
            }
            k = k + 1;
        }
        proof {
            assert(ids.take(ids.len() as int) =~= ids);
            assert forall|a: int| 0 <= a < ids.len() implies st0.active.contains_key(#[trigger] ids[a]) by {
                assert(st0.owners.contains_key(ids[a]));
            }
            lemma_after_unlocks_all(st0, ids);
            assert forall|id: u64| #[trigger] self@.owners.contains_key(id) implies self@.owners[id] != owner by {
                if st0.owners[id] == owner {
                    old(self).lock_owners.lemma_len();
                    lemma_owned_contains(st0, owner, ks, id);
                }
            }
            assert forall|id: u64| #[trigger] st0.owners.contains_key(id) && st0.owners[id] != owner
                implies self@.owners.contains_key(id) && self@.active[id] == st0.active[id] by {
                if ids.contains(id) {
                    let w = choose|w: int| #![trigger ids[w]] 0 <= w < ids.len() && ids[w] == id;
                    lemma_owned_member(st0, owner, ks, w);
                }
            }
        }
        Ok(())
    }

    /// Check if an inode lock is held on `inode`.
    pub fn is_inode_locked(&self, inode: InodeNumber) -> (b: bool)
        requires
            self.wf(),
        ensures
            b == self@.inode_locked(inode),
    {
        match self.inode_locks.get(inode) {
            Some(locks) => locks.len() != 0,
            None => false,
        }
    }

    /// Check if a directory lock is held on `inode`.
    pub fn is_directory_locked(&self, inode: InodeNumber) -> (b: bool)
        requires
            self.wf(),
        ensures
            b == self@.dir_locked(inode),
    {
        match self.directory_locks.get(inode) {
            Some(locks) => locks.len() != 0,
            None => false,
        }
    }

    /// Check if any range lock held on file `inode`, whatever its owner or
    /// type, overlaps `length` bytes from `start`.
    pub fn is_file_range_locked(&self, inode: InodeNumber, start: FileOffset, length: FileSize) -> (b: bool)
        requires
            self.wf(),
            start + length <= u64::MAX,
        ensures
            b == self@.range_held(inode, start, length),
    {
        let ghost fl = self@.file_locks;
        match self.file_locks.get(inode) {
            Some(locks) => {
                let end = start + length;
                let mut i: usize = 0;
                while i < locks.len()
                    invariant
                        self.wf(),
                        fl == self@.file_locks,
                        fl.contains_key(inode),
                        locks@ == fl[inode],
                        end == start + length,
                        i <= locks@.len(),
                        forall|j: int| 0 <= j < i ==> !ranges_overlap(start, length, #[trigger] fl[inode][j].1),
                    decreases locks@.len() - i,
                {
                    let l = locks[i].1;
                    assert(l == fl[inode][i as int].1);
                    assert(range_fits(l));
                    let l_end = l.start + l.length;
                    if !(end <= l.start || l_end <= start) {
                        assert(ranges_overlap(start, length, fl[inode][i as int].1));
                        return true;
                    }
                    i = i + 1;
                }
                false
            },
            None => false,
        }
    }

    /// Number of locked inodes, locked directories and files with range locks.
    pub fn lock_stats(&self) -> (r: (usize, usize, usize))
        requires
            self.wf(),
        ensures
            r.0 == self@.inode_holders.dom().len(),
            r.1 == self@.dir_holders.dom().len(),
            r.2 == self@.file_locks.dom().len(),
    {
        proof {
            assert(self@.inode_holders.dom() == self.inode_locks@.dom());
            assert(self@.dir_holders.dom() == self.directory_locks@.dom());
            assert(self@.file_locks.dom() == self.file_locks@.dom());
        }
        (self.inode_locks.len(), self.directory_locks.len(), self.file_locks.len())
    }

    /// Deadlock detection: no deadlock is ever reported.
    pub fn detect_deadlock(&self, _requesting_owner: u32, _requested_scope: &LockScope) -> (b: bool)
        ensures
            !b,
    {
        false
    }
}

/// Releasing a granted lock keeps the lock tables consistent.
pub proof fn lemma_unlock_consistent(st: LockState, id: u64)
    requires
        st.consistent(),
        st.active.contains_key(id),
    ensures
        st.after_unlock(id).consistent(),
{
    let nst = st.after_unlock(id);
    assert(nst.active.dom() =~= nst.owners.dom());
    lemma_drop_holders(st, id, false);
    lemma_drop_holders(st, id, true);
    assert(nst.active.dom() =~= nst.kinds.dom());
    assert forall|i: u64, j: int| #![trigger nst.file_locks[i][j]]
        nst.file_locks.contains_key(i) && 0 <= j < nst.file_locks[i].len() implies range_fits(nst.file_locks[i][j].1)
            && record_granted(nst.active, i, nst.file_locks[i][j]) by {
        let touched: bool = match st.active[id] {
            LockScope::FileRange(fi, _, _) => fi == i,
            _ => false,
        };
        if touched {
            let f = st.file_locks[i].filter(other_record(id));
            assert(nst.file_locks[i] == f);
            assert(f.contains(f[j]));
            st.file_locks[i].lemma_filter_contains_rev(other_record(id), f[j]);
            st.file_locks[i].lemma_filter_pred(other_record(id), j);
            let w = choose|w: int| #![trigger st.file_locks[i][w]] 0 <= w < st.file_locks[i].len() && st.file_locks[i][w] == f[j];
            assert(record_granted(st.active, i, st.file_locks[i][w]));
        } else {
            assert(st.file_locks.contains_key(i));
            assert(nst.file_locks[i] == st.file_locks[i]);
            assert(record_granted(st.active, i, st.file_locks[i][j]));
        }
    }
    assert(holders_consistent(nst.inode_holders, nst.active, false));
    assert(holders_consistent(nst.dir_holders, nst.active, true));
}

/// Releasing lock `id` keeps one holder table consistent with the granted
/// locks.
proof fn lemma_drop_holders(st: LockState, id: u64, is_dir: bool)
    requires
        st.consistent(),
        st.active.contains_key(id),
    ensures
        holders_consistent(
            if is_dir { st.after_unlock(id).dir_holders } else { st.after_unlock(id).inode_holders },
            st.after_unlock(id).active,
            is_dir,
        ),
{
    let nst = st.after_unlock(id);
    let h0 = if is_dir { st.dir_holders } else { st.inode_holders };
    let h1 = if is_dir { nst.dir_holders } else { nst.inode_holders };
    let mk = |i: u64| if is_dir { LockScope::Directory(i) } else { LockScope::Inode(i) };
    // the holder list the release touches, if any
    let touched: Option<u64> = match st.active[id] {
        LockScope::Inode(i0) => if !is_dir { Some(i0) } else { None },
        LockScope::Directory(i0) => if is_dir { Some(i0) } else { None },
        _ => None,
    };
    assert(touched is None ==> h1 == h0);
    assert(touched matches Some(i0) ==> h1 == drop_id(h0, i0, id));
    assert forall|i: u64| #[trigger] h1.contains_key(i) implies h1[i].len() > 0 by {
        if touched == Some(i) {
        }
    }
    assert forall|i: u64, j: int| #![trigger h1[i][j]]
        h1.contains_key(i) && 0 <= j < h1[i].len() implies nst.active.contains_key(h1[i][j])
            && nst.active[h1[i][j]] == (if is_dir { LockScope::Directory(i) } else { LockScope::Inode(i) }) by {
        if touched == Some(i) {
            let f = h0[i].filter(other_than(id));
            assert(h1[i] == f);
            assert(f.contains(f[j]));
            h0[i].lemma_filter_contains_rev(other_than(id), f[j]);
            h0[i].lemma_filter_pred(other_than(id), j);
            let w = choose|w: int| #![trigger h0[i][w]] 0 <= w < h0[i].len() && h0[i][w] == f[j];
            assert(st.active.contains_key(h0[i][w]));
        } else {
            assert(h1[i] == h0[i]);
            assert(st.active.contains_key(h0[i][j]));
            if h0[i][j] == id {
                assert(st.active[id] == mk(i));
            }
        }
    }
    assert forall|x: u64| #[trigger] nst.active.contains_key(x) implies match nst.active[x] {
        LockScope::Inode(i) => !is_dir ==> h1.contains_key(i) && h1[i].contains(x),
        LockScope::Directory(i) => is_dir ==> h1.contains_key(i) && h1[i].contains(x),
        _ => true,
    } by {
        assert(st.active.contains_key(x) && x != id);
        let i_opt: Option<u64> = match st.active[x] {
            LockScope::Inode(i) => if !is_dir { Some(i) } else { None },
            LockScope::Directory(i) => if is_dir { Some(i) } else { None },
            _ => None,
        };
        if let Some(i) = i_opt {
            assert(h0.contains_key(i) && h0[i].contains(x));
            let w = choose|w: int| #![trigger h0[i][w]] 0 <= w < h0[i].len() && h0[i][w] == x;
            if touched == Some(i) {
                h0[i].lemma_filter_contains(other_than(id), w);
                let f = h0[i].filter(other_than(id));
                assert(f.contains(x));
                assert(f.len() > 0);
                assert(h1 == h0.insert(i, f));
            } else {
                assert(h1[i] == h0[i]);
            }
        }
    }
}

/// Facts about the ids an owner holds: increasing, granted, owned by it.
proof fn lemma_owned_facts(st: LockState, owner: u32, ks: Seq<u64>)
    requires
        crate::ordered_map::strictly_increasing(ks),
        forall|a: int| 0 <= a < ks.len() ==> st.owners.contains_key(#[trigger] ks[a]),
    ensures
        forall|a: int, b: int| 0 <= a < b < st.owned_by(owner, ks).len() ==> st.owned_by(owner, ks)[a] < st.owned_by(owner, ks)[b],
        forall|a: int| 0 <= a < st.owned_by(owner, ks).len() ==> st.owners.contains_key(#[trigger] st.owned_by(owner, ks)[a])
            && st.owners[st.owned_by(owner, ks)[a]] == owner,
    decreases ks.len(),
{
    broadcast use vstd::seq_lib::group_filter_ensures;
    reveal_with_fuel(Seq::<_>::filter, 1);
    if ks.len() > 0 {
        let rest = ks.drop_last();
        assert forall|a: int| 0 <= a < rest.len() implies st.owners.contains_key(#[trigger] rest[a]) by {
            assert(rest[a] == ks[a]);
        }
        lemma_owned_facts(st, owner, rest);
        let f = st.owned_by(owner, rest);
        assert forall|a: int| 0 <= a < f.len() implies #[trigger] f[a] < ks.last() by {
            assert(f.contains(f[a]));
            rest.lemma_filter_contains_rev(owned_pred(st.owners, owner), f[a]);
            assert(rest.contains(f[a]));
            let w = choose|w: int| #![trigger rest[w]] 0 <= w < rest.len() && rest[w] == f[a];
            assert(ks[w] < ks[ks.len() - 1]);
        }
    }
}

/// An id owned by `owner` appears among the ids it holds.
proof fn lemma_owned_contains(st: LockState, owner: u32, ks: Seq<u64>, id: u64)
    requires
        ks.to_set() == st.owners.dom(),
        st.owners.contains_key(id),
        st.owners[id] == owner,
    ensures
        st.owned_by(owner, ks).contains(id),
{
    broadcast use vstd::seq_lib::group_filter_ensures;
    assert(ks.to_set().contains(id));
    let w = choose|w: int| #![trigger ks[w]] 0 <= w < ks.len() && ks[w] == id;
    assert(owned_pred(st.owners, owner)(ks[w]));
    ks.lemma_filter_contains(owned_pred(st.owners, owner), w);
}

/// Each id an owner holds is owned by it.
proof fn lemma_owned_member(st: LockState, owner: u32, ks: Seq<u64>, w: int)
    requires
        0 <= w < st.owned_by(owner, ks).len(),
    ensures
        st.owners.contains_key(st.owned_by(owner, ks)[w]),
        st.owners[st.owned_by(owner, ks)[w]] == owner,
{
    broadcast use vstd::seq_lib::group_filter_ensures;
}

/// Releasing granted locks with increasing ids one after the other keeps
/// the tables consistent and removes exactly those ids.
pub proof fn lemma_after_unlocks_all(st: LockState, done: Seq<u64>)
    requires
        st.consistent(),
        forall|a: int, b: int| 0 <= a < b < done.len() ==> done[a] < done[b],
        forall|a: int| 0 <= a < done.len() ==> st.active.contains_key(#[trigger] done[a]),
    ensures
        st.after_unlocks(done).consistent(),
        st.after_unlocks(done).owners == st.owners.remove_keys(done.to_set()),
        st.after_unlocks(done).active == st.active.remove_keys(done.to_set()),
    decreases done.len(),
{
    if done.len() > 0 {
        let rest = done.drop_last();
        let x = done.last();
        assert forall|a: int| 0 <= a < rest.len() implies st.active.contains_key(#[trigger] rest[a]) by {
            assert(rest[a] == done[a]);
        }
        lemma_after_unlocks_all(st, rest);
        let mid = st.after_unlocks(rest);
        assert(!rest.contains(x)) by {
            if rest.contains(x) {
                let w = choose|w: int| #![trigger rest[w]] 0 <= w < rest.len() && rest[w] == x;
                assert(done[w] < done[done.len() - 1]);
            }
        }
        assert(done.to_set() =~= rest.to_set().insert(x)) by {
            crate::ordered_map::lemma_prefix_set_step(done, done.len() - 1);
            assert(done.subrange(0, done.len() as int) =~= done);
            assert(done.subrange(0, done.len() - 1) =~= rest);
        }
        assert(mid.active.contains_key(x));
        lemma_unlock_consistent(mid, x);
        assert(mid.after_unlock(x).active =~= st.active.remove_keys(done.to_set()));
        assert(mid.after_unlock(x).owners =~= st.owners.remove_keys(done.to_set()));
    } else {
        assert(st.active.remove_keys(done.to_set()) =~= st.active);
        assert(st.owners.remove_keys(done.to_set()) =~= st.owners);
    }
}

/// A filter that keeps every element gives back the sequence.
proof fn lemma_filter_keeps_all<A>(s: Seq<A>, p: spec_fn(A) -> bool)
    requires
        forall|i: int| 0 <= i < s.len() ==> p(#[trigger] s[i]),
    ensures
        s.filter(p) == s,
    decreases s.len(),
{
    reveal_with_fuel(Seq::<_>::filter, 1);
    if s.len() > 0 {
        let rest = s.drop_last();
        assert forall|i: int| 0 <= i < rest.len() implies p(#[trigger] rest[i]) by {
            assert(rest[i] == s[i]);
        }
        lemma_filter_keeps_all(rest, p);
        assert(rest.push(s.last()) =~= s);
    }
}

/// Granting an inode or directory lock and releasing it again gives back
/// the tables as they were; only the id counter has moved on.
pub proof fn lemma_lock_then_unlock(st: LockState, inode: u64, t: LockType, owner: u32, is_dir: bool)
    requires
        st.consistent(),
    ensures
        ({
            let scope = if is_dir { LockScope::Directory(inode) } else { LockScope::Inode(inode) };
            let locked = if is_dir {
                LockState { dir_holders: add_id(st.dir_holders, inode, st.next_id), ..st.granted(scope, t, owner) }
            } else {
                LockState { inode_holders: add_id(st.inode_holders, inode, st.next_id), ..st.granted(scope, t, owner) }
            };
            locked.after_unlock(st.next_id) == LockState { next_id: (st.next_id + 1) as u64, ..st }
        }),
{
    let id = st.next_id;
    let scope = if is_dir { LockScope::Directory(inode) } else { LockScope::Inode(inode) };
    let h = if is_dir { st.dir_holders } else { st.inode_holders };
    let locked = if is_dir {
        LockState { dir_holders: add_id(st.dir_holders, inode, id), ..st.granted(scope, t, owner) }
    } else {
        LockState { inode_holders: add_id(st.inode_holders, inode, id), ..st.granted(scope, t, owner) }
    };
    let nh = add_id(h, inode, id);
    assert(!st.active.contains_key(id));
    assert(!st.kinds.contains_key(id));
    assert(locked.active[id] == scope);
    if h.contains_key(inode) {
        let l = h[inode];
        assert forall|i: int| 0 <= i < l.len() implies other_than(id)(#[trigger] l[i]) by {
            assert(st.active.contains_key(l[i]));
        }
        lemma_filter_keeps_all(l, other_than(id));
        reveal_with_fuel(Seq::<_>::filter, 1);
        assert(l.push(id).drop_last() =~= l);
        assert(nh[inode].filter(other_than(id)) == l);
        assert(drop_id(nh, inode, id) =~= h);
    } else {
        reveal_with_fuel(Seq::<_>::filter, 2);
        assert(seq![id].drop_last() =~= Seq::<u64>::empty());
        assert(nh[inode].filter(other_than(id)).len() == 0);
        assert(drop_id(nh, inode, id) =~= h);
    }
    assert(locked.after_unlock(id).active =~= st.active);
    assert(locked.after_unlock(id).owners =~= st.owners);
    assert(locked.after_unlock(id).kinds =~= st.kinds);
}

/// A granted inode write lock excludes every other inode lock on that
/// inode, of any type; a granted read or advisory lock on an inode without
/// a write lock leaves further read and advisory locks possible and only
/// refuses a write lock.
pub proof fn lemma_write_lock_excludes(st: LockState, inode: u64, t: LockType, owner: u32, other: LockType)
    requires
        st.consistent(),
    ensures
        ({
            let after = LockState {
                inode_holders: add_id(st.inode_holders, inode, st.next_id),
                ..st.granted(LockScope::Inode(inode), t, owner)
            };
            &&& t == LockType::Write ==> after.inode_refused(inode, other)
            &&& t != LockType::Write && !st.inode_write_locked(inode) ==> (after.inode_refused(inode, other)
                <==> other == LockType::Write)
        }),
{
    let id = st.next_id;
    let after = LockState {
        inode_holders: add_id(st.inode_holders, inode, id),
        ..st.granted(LockScope::Inode(inode), t, owner)
    };
    let h = after.inode_holders[inode];
    assert(!st.kinds.contains_key(id)) by {
        assert(!st.active.contains_key(id));
    }
    let last: int = if st.inode_holders.contains_key(inode) { st.inode_holders[inode].len() as int } else { 0 };
    assert(h[last] == id);
    assert(after.kinds[h[last]] == t);
    if t != LockType::Write && !st.inode_write_locked(inode) {
        if after.inode_write_locked(inode) {
            let j = choose|j: int| 0 <= j < h.len() && after.kinds[#[trigger] h[j]] == LockType::Write;
            if j < last {
                let x = st.inode_holders[inode][j];
                assert(h[j] == x);
                assert(st.active.contains_key(x));
                assert(x != id);
                assert(st.kinds[x] == LockType::Write);
            }
        }
    }
}

/// Granting a byte range lock and releasing it again gives back the tables
/// as they were, the other range locks of the file included; only the id
/// counter has moved on.
pub proof fn lemma_range_lock_then_unlock(st: LockState, inode: u64, l: FileLock)
    requires
        st.consistent(),
    ensures
        ({
            let locked = LockState {
                file_locks: add_range(st.file_locks, inode, st.next_id, l),
                ..st.granted(LockScope::FileRange(inode, l.start, l.length), l.lock_type, l.owner)
            };
            locked.after_unlock(st.next_id) == LockState { next_id: (st.next_id + 1) as u64, ..st }
        }),
{
    let id = st.next_id;
    let locked = LockState {
        file_locks: add_range(st.file_locks, inode, id, l),
        ..st.granted(LockScope::FileRange(inode, l.start, l.length), l.lock_type, l.owner)
    };
    let h = st.file_locks;
    let nh = add_range(h, inode, id, l);
    assert(!st.active.contains_key(id));
    assert(!st.kinds.contains_key(id));
    if h.contains_key(inode) {
        let rs = h[inode];
        assert forall|i: int| 0 <= i < rs.len() implies other_record(id)(#[trigger] rs[i]) by {
            assert(record_granted(st.active, inode, rs[i]));
        }
        lemma_filter_keeps_all(rs, other_record(id));
        reveal_with_fuel(Seq::<_>::filter, 1);
        assert(rs.push((id, l)).drop_last() =~= rs);
        assert(nh[inode].filter(other_record(id)) == rs);
        assert(drop_range(nh, inode, id) =~= h);
    } else {
        reveal_with_fuel(Seq::<_>::filter, 2);
        assert(seq![(id, l)].drop_last() =~= Seq::<(u64, FileLock)>::empty());
        assert(nh[inode].filter(other_record(id)).len() == 0);
        assert(drop_range(nh, inode, id) =~= h);
    }
    assert(locked.after_unlock(id).active =~= st.active);
    assert(locked.after_unlock(id).owners =~= st.owners);
    assert(locked.after_unlock(id).kinds =~= st.kinds);
}

/// Acquire a shared inode lock for owner 0; refused while a write lock
/// holds the inode.
pub fn lock_inode_read(manager: &mut LockManager, inode: InodeNumber) -> (r: VexfsResult<LockId>)
    requires
        old(manager).wf(),
        old(manager)@.next_id < u64::MAX,
    ensures
        final(manager).wf(),
        old(manager)@.inode_write_locked(inode) ==> (r matches Err(VexfsError::LockConflict(_))
            && final(manager)@ == old(manager)@),
        !old(manager)@.inode_write_locked(inode) ==> (r matches Ok(lid) && lid.id() == old(manager)@.next_id
            && final(manager)@ == LockState {
                inode_holders: add_id(old(manager)@.inode_holders, inode, old(manager)@.next_id),
                ..old(manager)@.granted(LockScope::Inode(inode), LockType::Read, 0)
            }),
{
    manager.lock_inode(inode, LockType::Read, 0)
}

/// Acquire an exclusive inode lock for owner 0.
pub fn lock_inode_write(manager: &mut LockManager, inode: InodeNumber) -> (r: VexfsResult<LockId>)
    requires
        old(manager).wf(),
        old(manager)@.next_id < u64::MAX,
    ensures
        final(manager).wf(),
        old(manager)@.inode_locked(inode) ==> (r matches Err(VexfsError::LockConflict(_)) && final(manager)@ == old(manager)@),
        !old(manager)@.inode_locked(inode) ==> (r matches Ok(lid) && lid.id() == old(manager)@.next_id
            && final(manager)@ == LockState {
                inode_holders: add_id(old(manager)@.inode_holders, inode, old(manager)@.next_id),
                ..old(manager)@.granted(LockScope::Inode(inode), LockType::Write, 0)
            }),
{
    manager.lock_inode(inode, LockType::Write, 0)
}

/// Release an inode lock.
pub fn unlock_inode(manager: &mut LockManager, lock_id: LockId) -> (r: VexfsResult<()>)
    requires
        old(manager).wf(),
    ensures
        final(manager).wf(),
        !old(manager)@.active.contains_key(lock_id.id()) ==> (r matches Err(VexfsError::InvalidOperation(_))
            && final(manager)@ == old(manager)@),
        old(manager)@.active.contains_key(lock_id.id()) ==> (r matches Ok(())
            && final(manager)@ == old(manager)@.after_unlock(lock_id.id())),
{
    manager.unlock(lock_id)
}

/// Acquire a shared directory lock for owner 0; refused while a write lock
/// holds the directory.
pub fn lock_directory_read(manager: &mut LockManager, inode: InodeNumber) -> (r: VexfsResult<LockId>)
    requires
        old(manager).wf(),
        old(manager)@.next_id < u64::MAX,
    ensures
        final(manager).wf(),
        old(manager)@.dir_write_locked(inode) ==> (r matches Err(VexfsError::LockConflict(_))
            && final(manager)@ == old(manager)@),
        !old(manager)@.dir_write_locked(inode) ==> (r matches Ok(lid) && lid.id() == old(manager)@.next_id
            && final(manager)@ == LockState {
                dir_holders: add_id(old(manager)@.dir_holders, inode, old(manager)@.next_id),
                ..old(manager)@.granted(LockScope::Directory(inode), LockType::Read, 0)
            }),
{
    manager.lock_directory(inode, LockType::Read, 0)
}

/// Acquire an exclusive directory lock for owner 0.
pub fn lock_directory_write(manager: &mut LockManager, inode: InodeNumber) -> (r: VexfsResult<LockId>)
    requires
        old(manager).wf(),
        old(manager)@.next_id < u64::MAX,
    ensures
        final(manager).wf(),
        old(manager)@.dir_locked(inode) ==> (r matches Err(VexfsError::LockConflict(_)) && final(manager)@ == old(manager)@),
        !old(manager)@.dir_locked(inode) ==> (r matches Ok(lid) && lid.id() == old(manager)@.next_id
            && final(manager)@ == LockState {
                dir_holders: add_id(old(manager)@.dir_holders, inode, old(manager)@.next_id),
                ..old(manager)@.granted(LockScope::Directory(inode), LockType::Write, 0)
            }),
{
    manager.lock_directory(inode, LockType::Write, 0)
}

/// Release a directory lock.
pub fn unlock_directory(manager: &mut LockManager, lock_id: LockId) -> (r: VexfsResult<()>)
    requires
        old(manager).wf(),
    ensures
        final(manager).wf(),
        !old(manager)@.active.contains_key(lock_id.id()) ==> (r matches Err(VexfsError::InvalidOperation(_))
            && final(manager)@ == old(manager)@),
        old(manager)@.active.contains_key(lock_id.id()) ==> (r matches Ok(())
            && final(manager)@ == old(manager)@.after_unlock(lock_id.id())),
{
    manager.unlock(lock_id)
}

/// Acquire an inode lock of the given type for `owner`.
pub fn acquire_inode_lock(manager: &mut LockManager, inode: InodeNumber, lock_type: LockType, owner: u32) -> (r:
    VexfsResult<LockId>)
    requires
        old(manager).wf(),
        old(manager)@.next_id < u64::MAX,
    ensures
        final(manager).wf(),
        old(manager)@.inode_refused(inode, lock_type) ==> (r matches Err(VexfsError::LockConflict(_))
            && final(manager)@ == old(manager)@),
        !old(manager)@.inode_refused(inode, lock_type) ==> (r matches Ok(lid) && lid.id() == old(manager)@.next_id
            && final(manager)@ == LockState {
                inode_holders: add_id(old(manager)@.inode_holders, inode, old(manager)@.next_id),
                ..old(manager)@.granted(LockScope::Inode(inode), lock_type, owner)
            }),
{
    manager.lock_inode(inode, lock_type, owner)
}

/// Release an inode lock.
pub fn release_inode_lock(manager: &mut LockManager, lock_id: LockId) -> (r: VexfsResult<()>)
    requires
        old(manager).wf(),
    ensures
        final(manager).wf(),
        !old(manager)@.active.contains_key(lock_id.id()) ==> (r matches Err(VexfsError::InvalidOperation(_))
            && final(manager)@ == old(manager)@),
        old(manager)@.active.contains_key(lock_id.id()) ==> (r matches Ok(())
            && final(manager)@ == old(manager)@.after_unlock(lock_id.id())),
{
    manager.unlock(lock_id)
}

/// Guard tying a granted lock to the manager that granted it. Dropping the
/// guard does not give the lock back: call `release`, which does, and whose
/// contract says how the manager ends.
pub struct LockGuard<'a> {
    /// The manager that granted the lock.
    pub lock_manager: &'a mut LockManager,
    /// The guarded lock.
    pub lock_id: LockId,
}

impl<'a> LockGuard<'a> {
    /// The manager as it stands while the guard lives.
    pub open spec fn manager(&self) -> &LockManager {
        &*self.lock_manager
    }

    /// Wrap a granted lock.
    pub fn new(lock_manager: &'a mut LockManager, lock_id: LockId) -> (g: Self)
        ensures
            g.lock_id == lock_id,
            *g.manager() == *old(lock_manager),
            *final(g.lock_manager) == *final(lock_manager),
    {
        LockGuard { lock_manager, lock_id }
    }

    /// Release the guarded lock: the manager ends as `unlock` leaves it.
    pub fn release(self) -> (r: VexfsResult<()>)
        requires
            self.manager().wf(),
        ensures
            final(self.lock_manager).wf(),
            !self.manager()@.active.contains_key(self.lock_id.id()) ==> (r matches Err(VexfsError::InvalidOperation(_))
                && final(self.lock_manager)@ == self.manager()@),
            self.manager()@.active.contains_key(self.lock_id.id()) ==> (r matches Ok(())
                && final(self.lock_manager)@ == self.manager()@.after_unlock(self.lock_id.id())),
    {
        self.lock_manager.unlock(self.lock_id)
    }
}

/// Acquire an exclusive inode lock for owner 0, wrapped in a guard.
pub fn acquire_write_lock_guard<'a>(manager: &'a mut LockManager, inode: InodeNumber) -> (r: VexfsResult<LockGuard<'a>>)
    requires
        old(manager).wf(),
        old(manager)@.next_id < u64::MAX,
    ensures
        old(manager)@.inode_locked(inode) ==> (r matches Err(VexfsError::LockConflict(_)) && final(manager).wf()
            && final(manager)@ == old(manager)@),
        !old(manager)@.inode_locked(inode) ==> (r matches Ok(g) && g.lock_id.id() == old(manager)@.next_id && g.manager().wf()
            && g.manager()@ == (LockState {
                inode_holders: add_id(old(manager)@.inode_holders, inode, old(manager)@.next_id),
                ..old(manager)@.granted(LockScope::Inode(inode), LockType::Write, 0)
            }) && *final(g.lock_manager) == *final(manager)),
{
    let lock_id = manager.lock_inode(inode, LockType::Write, 0)?;
    Ok(LockGuard::new(manager, lock_id))
}

/// Acquire a shared inode lock for owner 0, wrapped in a guard; refused
/// while a write lock holds the inode.
pub fn acquire_read_lock_guard<'a>(manager: &'a mut LockManager, inode: InodeNumber) -> (r: VexfsResult<LockGuard<'a>>)
    requires
        old(manager).wf(),
        old(manager)@.next_id < u64::MAX,
    ensures
        old(manager)@.inode_write_locked(inode) ==> (r matches Err(VexfsError::LockConflict(_)) && final(manager).wf()
            && final(manager)@ == old(manager)@),
        !old(manager)@.inode_write_locked(inode) ==> (r matches Ok(g) && g.lock_id.id() == old(manager)@.next_id
            && g.manager().wf() && g.manager()@ == (LockState {
                inode_holders: add_id(old(manager)@.inode_holders, inode, old(manager)@.next_id),
                ..old(manager)@.granted(LockScope::Inode(inode), LockType::Read, 0)
            }) && *final(g.lock_manager) == *final(manager)),
{
    let lock_id = manager.lock_inode(inode, LockType::Read, 0)?;
    Ok(LockGuard::new(manager, lock_id))
}

} // verus!
