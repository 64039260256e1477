//! Snapshot records: metadata with its flags and children, the delta
//! entries that describe changes between snapshots, and their statistics.

use vstd::prelude::*;
use crate::shared::{ErrorView, InodeNumber, Timestamp, VexfsError, VexfsResult, message};
use crate::ordered_map::{OrderedMap, strictly_increasing, lemma_prefix_set_step, lemma_not_in_prefix};

verus! {

/// Snapshot identifier.
pub type SnapshotId = u64;

/// Snapshot flag bits.
#[derive(Debug, Clone, Copy, PartialEq, Eq, Structural)]
pub struct SnapshotFlags(pub u32);

impl SnapshotFlags {
    /// The snapshot is in use.
    pub fn active() -> (f: Self)
        ensures
            f.0 == 0x01,
    {
        SnapshotFlags(0x01)
    }

    /// The snapshot cannot be written.
    pub fn readonly() -> (f: Self)
        ensures
            f.0 == 0x02,
    {
        SnapshotFlags(0x02)
    }

    /// The snapshot's data is compressed.
    pub fn compressed() -> (f: Self)
        ensures
            f.0 == 0x04,
    {
        SnapshotFlags(0x04)
    }

    /// The snapshot's data is encrypted.
    pub fn encrypted() -> (f: Self)
        ensures
            f.0 == 0x08,
    {
        SnapshotFlags(0x08)
    }

    /// The snapshot waits for garbage collection.
    pub fn marked_for_deletion() -> (f: Self)
        ensures
            f.0 == 0x10,
    {
        SnapshotFlags(0x10)
    }

    /// The snapshot stores deltas against its parent.
    pub fn incremental() -> (f: Self)
        ensures
            f.0 == 0x20,
    {
        SnapshotFlags(0x20)
    }

    /// The snapshot holds vector data.
    pub fn vector_enabled() -> (f: Self)
        ensures
            f.0 == 0x40,
    {
        SnapshotFlags(0x40)
    }


    /// Whether every bit of `other` is set.
    pub fn contains(&self, other: Self) -> (b: bool)
        ensures
            b == (self.0 & other.0 == other.0),
    {
        (self.0 & other.0) == other.0
    }

    /// Set the bits of `other`.
    pub fn insert(&mut self, other: Self)
        ensures
            final(self).0 == old(self).0 | other.0,
    {
        self.0 = self.0 | other.0;
    }

    /// Clear the bits of `other`.
    pub fn remove(&mut self, other: Self)
        ensures
            final(self).0 == old(self).0 & !other.0,
    {
        self.0 = self.0 & !other.0;
    }
}

/// After inserting flags they are contained; after removing them, the
/// flags they share no bit with are still contained.
pub proof fn lemma_flags_insert_remove(f: u32, g: u32, h: u32)
    ensures
        (f | g) & g == g,
        (f & !g) & g == 0,
        (g & h == 0 && f & h == h) ==> (f & !g) & h == h,
        f & h == h ==> (f | g) & h == h,
{
    assert((f | g) & g == g) by (bit_vector);
    assert((f & !g) & g == 0) by (bit_vector);
    assert((g & h == 0 && f & h == h) ==> (f & !g) & h == h) by (bit_vector);
    assert(f & h == h ==> (f | g) & h == h) by (bit_vector);
}

/// The ids other than `x`.
pub open spec fn id_other_than(x: u64) -> spec_fn(u64) -> bool {
    |y: u64| y != x
}

/// Metadata of one snapshot.
#[derive(Debug)]
pub struct SnapshotMetadata {
    pub id: SnapshotId,
    pub name: String,
    pub description: String,
    pub created_at: Timestamp,
    /// Root inode of the snapshot.
    pub root_inode: InodeNumber,
    pub parent_snapshot: Option<SnapshotId>,
    pub child_snapshots: Vec<SnapshotId>,
    pub flags: SnapshotFlags,
    /// Size of the snapshot's data in bytes.
    pub data_size: u64,
    pub inode_count: u64,
    pub ref_count: u32,
}

/// Snapshot metadata with its texts and children as sequences.
pub struct MetadataView {
    pub id: SnapshotId,
    pub name: Seq<char>,
    pub description: Seq<char>,
    pub created_at: Timestamp,
    pub root_inode: InodeNumber,
    pub parent_snapshot: Option<SnapshotId>,
    pub child_snapshots: Seq<SnapshotId>,
    pub flags: SnapshotFlags,
    pub data_size: u64,
    pub inode_count: u64,
    pub ref_count: u32,
}

impl View for SnapshotMetadata {
    type V = MetadataView;

    open spec fn view(&self) -> MetadataView {
        MetadataView {
            id: self.id,
            name: self.name@,
            description: self.description@,
            created_at: self.created_at,
            root_inode: self.root_inode,
            parent_snapshot: self.parent_snapshot,
            child_snapshots: self.child_snapshots@,
            flags: self.flags,
            data_size: self.data_size,
            inode_count: self.inode_count,
            ref_count: self.ref_count,
        }
    }
}

/// A copy of a list of snapshot ids.
fn copy_ids(v: &Vec<SnapshotId>) -> (r: Vec<SnapshotId>)
    ensures
        r@ == v@,
{
    let mut r: Vec<SnapshotId> = Vec::new();
    let mut i: usize = 0;
    while i < v.len()
        invariant
            i <= v@.len(),
            r@ == v@.subrange(0, i as int),
        decreases v@.len() - i,
    {
        r.push(v[i]);
        i += 1;
        assert(r@ =~= v@.subrange(0, i as int));
    }
    assert(r@ =~= v@);
    r
}

impl Clone for SnapshotMetadata {
    fn clone(&self) -> (r: Self)
        ensures
            r@ == self@,
    {
        SnapshotMetadata {
            id: self.id,
            name: self.name.clone(),
            description: self.description.clone(),
            created_at: self.created_at,
            root_inode: self.root_inode,
            parent_snapshot: self.parent_snapshot,
            child_snapshots: copy_ids(&self.child_snapshots),
            flags: self.flags,
            data_size: self.data_size,
            inode_count: self.inode_count,
            ref_count: self.ref_count,
        }
    }
}

impl SnapshotMetadata {
    /// Metadata of a new, active snapshot with one reference, no parent and
    /// no children.
    pub fn new(id: SnapshotId, name: String, root_inode: InodeNumber) -> (m: Self)
        ensures
            m.id == id,
            m.name == name,
            m.description@ == Seq::<char>::empty(),
            m.created_at == 0,
            m.root_inode == root_inode,
            m.parent_snapshot is None,
            m.child_snapshots@ == Seq::<SnapshotId>::empty(),
            m.flags == SnapshotFlags(0x01),
            m.data_size == 0,
            m.inode_count == 0,
            m.ref_count == 1,
    {
        SnapshotMetadata {
            id,
            name,
            description: String::new(),
            created_at: 0,
            root_inode,
            parent_snapshot: None,
            child_snapshots: Vec::new(),
            flags: SnapshotFlags::active(),
            data_size: 0,
            inode_count: 0,
            ref_count: 1,
        }
    }

    /// Whether the snapshot is read-only.
    pub fn is_readonly(&self) -> (b: bool)
        ensures
            b == (self.flags.0 & 0x02 == 0x02),
    {
        self.flags.contains(SnapshotFlags::readonly())
    }

    /// Whether the snapshot is marked for deletion.
    pub fn is_marked_for_deletion(&self) -> (b: bool)
        ensures
            b == (self.flags.0 & 0x10 == 0x10),
    {
        self.flags.contains(SnapshotFlags::marked_for_deletion())
    }

    /// Record a child snapshot, once.
    pub fn add_child(&mut self, child_id: SnapshotId)
        ensures
            final(self).child_snapshots@ == if old(self).child_snapshots@.contains(child_id) {
                old(self).child_snapshots@
            } else {
                old(self).child_snapshots@.push(child_id)
            },
            *final(self) == (SnapshotMetadata { child_snapshots: final(self).child_snapshots, ..*old(self) }),
    {
        let mut i: usize = 0;
        let n = self.child_snapshots.len();
        while i < n
            invariant
                n == self.child_snapshots@.len(),
                i <= n,
                forall|j: int| 0 <= j < i ==> self.child_snapshots@[j] != child_id,
            decreases n - i,
        {
            if self.child_snapshots[i] == child_id {
                assert(self.child_snapshots@.contains(child_id)) by {
                    assert(self.child_snapshots@[i as int] == child_id);
                }
                return;
            }
            i += 1;
        }
        self.child_snapshots.push(child_id);
    }

    /// Forget a child snapshot.
    pub fn remove_child(&mut self, child_id: SnapshotId)
        ensures
            final(self).child_snapshots@ == old(self).child_snapshots@.filter(id_other_than(child_id)),
            *final(self) == (SnapshotMetadata { child_snapshots: final(self).child_snapshots, ..*old(self) }),
    {
        let ghost old_children = self.child_snapshots@;
        let mut kept: Vec<SnapshotId> = Vec::new();
        let mut i: usize = 0;
        let n = self.child_snapshots.len();
        while i < n
            invariant
                n == self.child_snapshots@.len(),
                old_children == self.child_snapshots@,
                i <= n,
                kept@ == old_children.subrange(0, i as int).filter(id_other_than(child_id)),
            decreases n - i,
        {
            let id = self.child_snapshots[i];
            proof {
                reveal_with_fuel(Seq::<_>::filter, 1);
                assert(old_children.subrange(0, i + 1).drop_last() =~= old_children.subrange(0, i as int));
            }
            if id != child_id {
                kept.push(id);
            }
            i += 1;
        }
        assert(old_children.subrange(0, n as int) =~= old_children);
        self.child_snapshots = kept;
    }
}

/// Kind of change a delta entry records.
#[derive(Debug, Clone, Copy, PartialEq, Eq, Structural)]
pub enum DeltaChangeType {
    Created,
    Modified,
    Deleted,
    MetadataChanged,
    VectorModified,
}

/// One change between two snapshots.
#[derive(Debug, Clone)]
pub struct DeltaEntry {
    pub inode: InodeNumber,
    pub change_type: DeltaChangeType,
    /// Data before the change (modifications and deletions).
    pub old_data: Option<Vec<u8>>,
    /// Data after the change (modifications and creations).
    pub new_data: Option<Vec<u8>>,
    /// Offset of the change within the file.
    pub offset: u64,
    pub size: u64,
    pub checksum: u32,
}

/// The length of optional data, zero when there is none.
pub open spec fn data_len(d: Option<Vec<u8>>) -> nat {
    match d {
        Some(v) => v@.len(),
        None => 0,
    }
}

/// The bytes an entry takes: its own record plus the data it carries.
pub open spec fn entry_overhead(e: DeltaEntry) -> nat {
    vstd::layout::size_of::<DeltaEntry>() + data_len(e.old_data) + data_len(e.new_data)
}

impl DeltaEntry {
    /// An entry without data, at offset 0.
    pub fn new(inode: InodeNumber, change_type: DeltaChangeType) -> (e: Self)
        ensures
            e.inode == inode,
            e.change_type == change_type,
            e.old_data is None,
            e.new_data is None,
            e.offset == 0,
            e.size == 0,
            e.checksum == 0,
    {
        DeltaEntry { inode, change_type, old_data: None, new_data: None, offset: 0, size: 0, checksum: 0 }
    }

    /// The bytes the entry takes.
    pub fn space_overhead(&self) -> (r: u64)
        requires
            entry_overhead(*self) <= u64::MAX,
        ensures
            r == entry_overhead(*self),
    {
        let mut overhead = core::mem::size_of::<DeltaEntry>() as u64;
        if let Some(old_data) = &self.old_data {
            overhead += old_data.len() as u64;
        }
        if let Some(new_data) = &self.new_data {
            overhead += new_data.len() as u64;
        }
        overhead
    }
}

/// The changes from one snapshot to another.
#[derive(Debug)]
pub struct DeltaStorage {
    pub base_snapshot: SnapshotId,
    pub target_snapshot: SnapshotId,
    pub entries: Vec<DeltaEntry>,
    /// Bytes taken by the entries.
    pub total_size: u64,
    /// Compression ratio achieved, as the bit pattern of an IEEE 754 single.
    pub compression_ratio_bits: u32,
    pub created_at: Timestamp,
}

impl DeltaStorage {
    /// An empty delta between two snapshots, with ratio 1.0.
    pub fn new(base_snapshot: SnapshotId, target_snapshot: SnapshotId) -> (d: Self)
        ensures
            d.base_snapshot == base_snapshot,
            d.target_snapshot == target_snapshot,
            d.entries@ == Seq::<DeltaEntry>::empty(),
            d.total_size == 0,
            d.compression_ratio_bits == 0x3f80_0000,
            d.created_at == 0,
    {
        DeltaStorage {
            base_snapshot,
            target_snapshot,
            entries: Vec::new(),
            total_size: 0,
            compression_ratio_bits: 0x3f80_0000,
            created_at: 0,
        }
    }

    /// Append an entry and count the bytes it takes.
    pub fn add_entry(&mut self, entry: DeltaEntry)
        requires
            old(self).total_size + entry_overhead(entry) <= u64::MAX,
        ensures
            final(self).entries@ == old(self).entries@.push(entry),
            final(self).total_size == old(self).total_size + entry_overhead(entry),
            final(self).base_snapshot == old(self).base_snapshot,
            final(self).target_snapshot == old(self).target_snapshot,
            final(self).compression_ratio_bits == old(self).compression_ratio_bits,
            final(self).created_at == old(self).created_at,
    {
        let overhead = entry.space_overhead();
        self.total_size = self.total_size + overhead;
        self.entries.push(entry);
    }
}

/// Snapshot statistics.
#[derive(Debug, Clone, Copy, Default)]
pub struct SnapshotStats {
    pub total_snapshots: u64,
    pub active_snapshots: u64,
    pub total_space_used: u64,
    /// Bytes saved through deduplication.
    pub space_saved: u64,
    pub gc_runs: u64,
    pub space_freed: u64,
    pub avg_creation_time_ns: u64,
    pub avg_delta_size: u64,
}

/// Statistics with every count at zero.
pub open spec fn no_stats() -> SnapshotStats {
    SnapshotStats {
        total_snapshots: 0,
        active_snapshots: 0,
        total_space_used: 0,
        space_saved: 0,
        gc_runs: 0,
        space_freed: 0,
        avg_creation_time_ns: 0,
        avg_delta_size: 0,
    }
}

impl SnapshotStats {
    /// Statistics with every count at zero.
    fn zero() -> (r: Self)
        ensures
            r == no_stats(),
    {
        SnapshotStats {
            total_snapshots: 0,
            active_snapshots: 0,
            total_space_used: 0,
            space_saved: 0,
            gc_runs: 0,
            space_freed: 0,
            avg_creation_time_ns: 0,
            avg_delta_size: 0,
        }
    }
}

/// What a garbage collection run did.
#[derive(Debug, Default)]
pub struct GarbageCollectionResult {
    pub snapshots_deleted: u64,
    /// Bytes freed.
    pub space_freed: u64,
    pub errors: u64,
    pub duration_ms: u64,
}

/// The state of the snapshot manager: the snapshots by id, the base and
/// target of each stored delta, the next id to hand out, and the statistics.
pub struct ManagerView {
    pub snapshots: Map<SnapshotId, MetadataView>,
    pub deltas: Seq<(SnapshotId, SnapshotId)>,
    pub next_snapshot_id: SnapshotId,
    pub stats: SnapshotStats,
}

/// Keeps the snapshots of the filesystem, hands out their ids, and
/// collects those marked for deletion once nothing refers to them.
pub struct SnapshotManager {
    snapshots: OrderedMap<SnapshotMetadata>,
    deltas: Vec<DeltaStorage>,
    next_snapshot_id: SnapshotId,
    stats: SnapshotStats,
}

/// The base and target of a delta.
pub open spec fn delta_pair(d: DeltaStorage) -> (SnapshotId, SnapshotId) {
    (d.base_snapshot, d.target_snapshot)
}

impl View for SnapshotManager {
    type V = ManagerView;

    closed spec fn view(&self) -> ManagerView {
        ManagerView {
            snapshots: self.snapshots@.map_values(|m: SnapshotMetadata| m@),
            deltas: self.deltas@.map_values(|d: DeltaStorage| delta_pair(d)),
            next_snapshot_id: self.next_snapshot_id,
            stats: self.stats,
        }
    }
}

/// The metadata a new snapshot gets.
pub open spec fn new_snapshot_view(
    id: SnapshotId,
    name: Seq<char>,
    root_inode: InodeNumber,
    parent: Option<SnapshotId>,
) -> MetadataView {
    MetadataView {
        id,
        name,
        description: Seq::empty(),
        created_at: 0,
        root_inode,
        parent_snapshot: parent,
        child_snapshots: Seq::empty(),
        flags: SnapshotFlags(0x01),
        data_size: 0,
        inode_count: 0,
        ref_count: 1,
    }
}

/// Whether garbage collection removes a snapshot: it is marked for deletion
/// and nothing but the snapshot itself refers to it.
pub open spec fn collectable(m: MetadataView) -> bool {
    m.flags.0 & 0x10 == 0x10 && m.ref_count <= 1
}

/// The snapshots that survive garbage collection.
pub open spec fn survivors(snaps: Map<SnapshotId, MetadataView>) -> Map<SnapshotId, MetadataView> {
    Map::new(|k: SnapshotId| snaps.contains_key(k) && !collectable(snaps[k]), |k: SnapshotId| snaps[k])
}

/// A snapshot marked for deletion.
pub open spec fn marked(m: MetadataView) -> MetadataView {
    MetadataView { flags: SnapshotFlags(m.flags.0 | 0x10), ..m }
}

/// The state after a snapshot is deleted at once: it is gone with the
/// deltas that touch it, and one snapshot less is active.
pub open spec fn after_removal(v: ManagerView, id: SnapshotId) -> ManagerView {
    ManagerView {
        snapshots: v.snapshots.remove(id),
        deltas: v.deltas.filter(|p: (SnapshotId, SnapshotId)| p.0 != id && p.1 != id),
        next_snapshot_id: v.next_snapshot_id,
        stats: SnapshotStats {
            active_snapshots: if v.stats.active_snapshots > 0 { (v.stats.active_snapshots - 1) as u64 } else { 0 },
            ..v.stats
        },
    }
}

impl SnapshotManager {
    /// The manager's own consistency: the map is ordered, every id was
    /// handed out, the active count is the number of snapshots, at most the
    /// number ever created, and no deltas are stored.
    pub closed spec fn inv(&self) -> bool {
        &&& self.snapshots.wf()
        &&& forall|k: SnapshotId| self.snapshots@.contains_key(k) ==> k < self.next_snapshot_id
        &&& forall|k: SnapshotId| self.snapshots@.contains_key(k) ==> (#[trigger] self.snapshots@[k]).id == k
        &&& self.stats.active_snapshots == self.snapshots@.dom().len()
        &&& self.stats.active_snapshots <= self.stats.total_snapshots
        &&& self.stats.total_snapshots < self.next_snapshot_id
        &&& self.deltas@.len() == 0
    }

    /// What the consistency of a manager says of its state.
    pub proof fn lemma_inv(&self)
        requires
            self.inv(),
        ensures
            self@.snapshots.dom().finite(),
            self@.stats.active_snapshots == self@.snapshots.dom().len(),
            self@.stats.active_snapshots <= self@.stats.total_snapshots,
            self@.stats.total_snapshots < self@.next_snapshot_id,
            forall|k: SnapshotId| self@.snapshots.contains_key(k) ==> k < self@.next_snapshot_id,
            forall|k: SnapshotId| self@.snapshots.contains_key(k) ==> (#[trigger] self@.snapshots[k]).id == k,
            self@.deltas.len() == 0,
    {
        self.snapshots.lemma_len();
        assert(self@.snapshots.dom() =~= self.snapshots@.dom());
    }

    /// A manager without snapshots; the first id is 1.
    pub fn new() -> (r: Self)
        ensures
            r.inv(),
            r@.snapshots == Map::<SnapshotId, MetadataView>::empty(),
            r@.deltas == Seq::<(SnapshotId, SnapshotId)>::empty(),
            r@.next_snapshot_id == 1,
            r@.stats == no_stats(),
    {
        let r = SnapshotManager {
            snapshots: OrderedMap::new(),
            deltas: Vec::new(),
            next_snapshot_id: 1,
            stats: SnapshotStats::zero(),
        };
        proof {
            r.snapshots.lemma_len();
            assert(r@.snapshots =~= Map::<SnapshotId, MetadataView>::empty());
            assert(r@.deltas =~= Seq::<(SnapshotId, SnapshotId)>::empty());
        }
        r
    }

    /// Create a snapshot named `name` under an optional parent. Its root is
    /// the copy-on-write snapshot of the live root inode, which the caller
    /// made: `snapshot_root` is its inode, or the error that making it gave,
    /// which is returned after the id was used up.
    pub fn create_snapshot(
        &mut self,
        name: String,
        parent_snapshot: Option<SnapshotId>,
        snapshot_root: VexfsResult<InodeNumber>,
    ) -> (r: VexfsResult<SnapshotId>)
        requires
            old(self).inv(),
            old(self)@.next_snapshot_id < u64::MAX,
        ensures
            final(self).inv(),
            final(self)@.next_snapshot_id == old(self)@.next_snapshot_id + 1,
            final(self)@.deltas == old(self)@.deltas,
            match snapshot_root {
                Err(e) => r == Err::<SnapshotId, VexfsError>(e) && final(self)@.snapshots == old(self)@.snapshots
                    && final(self)@.stats == old(self)@.stats,
                Ok(ino) => r == Ok::<SnapshotId, VexfsError>(old(self)@.next_snapshot_id)
                    && !old(self)@.snapshots.contains_key(old(self)@.next_snapshot_id)
                    && final(self)@.snapshots == old(self)@.snapshots.insert(
                        old(self)@.next_snapshot_id,
                        new_snapshot_view(old(self)@.next_snapshot_id, name@, ino, parent_snapshot),
                    )
                    && final(self)@.stats == (SnapshotStats {
                        total_snapshots: (old(self)@.stats.total_snapshots + 1) as u64,
                        active_snapshots: (old(self)@.stats.active_snapshots + 1) as u64,
                        ..old(self)@.stats
                    }),
            },
    {
        proof {
            self.snapshots.lemma_len();
        }
        let ghost old_view = self@;
        let snapshot_id = self.next_snapshot_id;
        self.next_snapshot_id = self.next_snapshot_id + 1;
        let root = match snapshot_root {
            Ok(ino) => ino,
            Err(e) => {
                proof {
                    assert(self@.snapshots =~= old_view.snapshots);
                    assert(self@.deltas =~= old_view.deltas);
                }
                return Err(e);
            },
        };
        let mut metadata = SnapshotMetadata::new(snapshot_id, name, root);
        metadata.parent_snapshot = parent_snapshot;
        let ghost mv = metadata@;
        assert(mv == new_snapshot_view(snapshot_id, mv.name, root, parent_snapshot));
        self.snapshots.insert(snapshot_id, metadata);
        self.stats.total_snapshots = self.stats.total_snapshots + 1;
        self.stats.active_snapshots = self.stats.active_snapshots + 1;
        proof {
            self.snapshots.lemma_len();
            assert(self.snapshots@.dom() =~= old(self).snapshots@.dom().insert(snapshot_id));
            assert(self@.snapshots =~= old_view.snapshots.insert(snapshot_id, mv));
            assert(self@.deltas =~= old_view.deltas);
        }
        Ok(snapshot_id)
    }

    /// The metadata of a snapshot.
    pub fn get_snapshot(&self, snapshot_id: SnapshotId) -> (r: VexfsResult<SnapshotMetadata>)
        requires
            self.inv(),
        ensures
            match r {
                Ok(m) => self@.snapshots.contains_key(snapshot_id) && m@ == self@.snapshots[snapshot_id],
                Err(e) => !self@.snapshots.contains_key(snapshot_id)
                    && e@ == ErrorView::InvalidArgument("snapshot not found"@),
            },
    {
        match self.snapshots.get(snapshot_id) {
            Some(m) => Ok(m.clone()),
            None => Err(VexfsError::InvalidArgument(message("snapshot not found"))),
        }
    }

    /// The metadata of every snapshot, by increasing id.
    pub fn list_snapshots(&self) -> (r: VexfsResult<Vec<SnapshotMetadata>>)
        requires
            self.inv(),
        ensures
            r matches Ok(list) && list@.len() == self@.snapshots.dom().len()
                && (forall|i: int| 0 <= i < list@.len() ==> self@.snapshots.contains_key(#[trigger] list@[i].id)
                    && list@[i]@ == self@.snapshots[list@[i].id])
                && (forall|i: int, j: int| 0 <= i < j < list@.len() ==> list@[i].id < list@[j].id),
    {
        proof {
            self.snapshots.lemma_len();
        }
        let mut result: Vec<SnapshotMetadata> = Vec::new();
        let n = self.snapshots.len();
        let mut i: usize = 0;
        while i < n
            invariant
                self.inv(),
                n == self.snapshots.spec_len(),
                i <= n,
                result@.len() == i,
                forall|t: int| 0 <= t < i ==> #[trigger] result@[t].id == self.snapshots.keys_seq()[t]
                    && result@[t]@ == self.snapshots.value_seq(t)@,
            decreases n - i,
        {
            let m = self.snapshots.value_at(i);
            proof {
                self.snapshots.lemma_entry(i as int);
            }
            result.push(m.clone());
            i += 1;
        }
        proof {
            assert forall|t: int| 0 <= t < result@.len() implies self@.snapshots.contains_key(#[trigger] result@[t].id)
                && result@[t]@ == self@.snapshots[result@[t].id] by {
                self.snapshots.lemma_entry(t);
            }
            assert forall|a: int, b: int| 0 <= a < b < result@.len() implies result@[a].id < result@[b].id by {
            }
            assert(self@.snapshots.dom() =~= self.snapshots@.dom());
        }
        Ok(result)
    }

    /// Set the deletion mark of a snapshot.
    fn mark_for_deletion(&mut self, snapshot_id: SnapshotId) -> (r: VexfsResult<()>)
        requires
            old(self).inv(),
            old(self)@.snapshots.contains_key(snapshot_id),
        ensures
            r is Ok,
            final(self).inv(),
            final(self)@ == (ManagerView {
                snapshots: old(self)@.snapshots.insert(snapshot_id, marked(old(self)@.snapshots[snapshot_id])),
                ..old(self)@
            }),
    {
        proof {
            self.snapshots.lemma_len();
        }
        let ghost old_view = self@;
        let ghost old_dom = self.snapshots@.dom();
        let removed = self.snapshots.remove(snapshot_id);
        match removed {
            Some(mut metadata) => {
                let ghost before = metadata@;
                metadata.flags.insert(SnapshotFlags::marked_for_deletion());
                assert(metadata@ == marked(before));
                self.snapshots.insert(snapshot_id, metadata);
                proof {
                    self.snapshots.lemma_len();
                    assert(self.snapshots@.dom() =~= old_dom);
                    assert(self@.snapshots =~= old_view.snapshots.insert(snapshot_id, marked(before)));
                }
            },
            None => {},
        }
        Ok(())
    }

    /// Delete a snapshot at once, with the deltas that touch it.
    fn immediate_delete(&mut self, snapshot_id: SnapshotId) -> (r: VexfsResult<()>)
        requires
            old(self).inv(),
            old(self)@.snapshots.contains_key(snapshot_id),
        ensures
            r is Ok,
            final(self).inv(),
            final(self)@ == after_removal(old(self)@, snapshot_id),
    {
        proof {
            self.snapshots.lemma_len();
        }
        let ghost old_view = self@;
        let ghost old_dom = self.snapshots@.dom();
        self.snapshots.remove(snapshot_id);
        let ghost after_snapshots = self.snapshots;
        let mut pending: Vec<DeltaStorage> = Vec::new();
        std::mem::swap(&mut pending, &mut self.deltas);
        while pending.len() > 0
            invariant
                pending@.len() == 0,
                self.deltas@.len() == 0,
                self.snapshots == after_snapshots,
                self.stats == old(self).stats,
                self.next_snapshot_id == old(self).next_snapshot_id,
            decreases pending@.len(),
        {
            let d = pending.remove(0);
            if d.base_snapshot != snapshot_id && d.target_snapshot != snapshot_id {
                self.deltas.push(d);
            }
        }
        self.stats.active_snapshots = self.stats.active_snapshots.saturating_sub(1);
        proof {
            self.snapshots.lemma_len();
            assert(self.snapshots@.dom() =~= old_dom.remove(snapshot_id));
            assert(self@.snapshots =~= old_view.snapshots.remove(snapshot_id));
            assert(old_view.deltas.len() == 0);
            assert(self@.deltas =~= old_view.deltas.filter(
                |p: (SnapshotId, SnapshotId)| p.0 != snapshot_id && p.1 != snapshot_id,
            ));
            assert(self@.stats == after_removal(old_view, snapshot_id).stats);
            assert(self@.snapshots == after_removal(old_view, snapshot_id).snapshots);
            assert(self@.deltas == after_removal(old_view, snapshot_id).deltas);
        }
        Ok(())
    }

    /// Delete a snapshot. Without `force` a snapshot with children or with
    /// more than one reference is refused, and any other is marked for
    /// deletion, which the next garbage collection carries out; with `force`
    /// it goes at once.
    pub fn delete_snapshot(&mut self, snapshot_id: SnapshotId, force: bool) -> (r: VexfsResult<()>)
        requires
            old(self).inv(),
        ensures
            final(self).inv(),
            !old(self)@.snapshots.contains_key(snapshot_id) ==> (r matches Err(e)
                && e@ == ErrorView::InvalidArgument("snapshot not found"@) && final(self)@ == old(self)@),
            old(self)@.snapshots.contains_key(snapshot_id) ==> ({
                let m = old(self)@.snapshots[snapshot_id];
                &&& !force && m.child_snapshots.len() > 0 ==> (r matches Err(e)
                    && e@ == ErrorView::InvalidOperation("cannot delete snapshot with children"@)
                    && final(self)@ == old(self)@)
                &&& !force && m.child_snapshots.len() == 0 && m.ref_count > 1 ==> (r matches Err(e)
                    && e@ == ErrorView::InvalidOperation("snapshot is still referenced"@)
                    && final(self)@ == old(self)@)
                &&& !force && m.child_snapshots.len() == 0 && m.ref_count <= 1 ==> r is Ok
                    && final(self)@ == (ManagerView {
                        snapshots: old(self)@.snapshots.insert(snapshot_id, marked(m)),
                        ..old(self)@
                    })
                    && collectable(final(self)@.snapshots[snapshot_id])
                &&& force ==> r is Ok && final(self)@ == after_removal(old(self)@, snapshot_id)
            }),
    {
        let (has_children, refs) = match self.snapshots.get(snapshot_id) {
            Some(m) => (m.child_snapshots.len() > 0, m.ref_count),
            None => {
                return Err(VexfsError::InvalidArgument(message("snapshot not found")));
            },
        };
        if !force && has_children {
            return Err(VexfsError::InvalidOperation(message("cannot delete snapshot with children")));
        }
        if refs > 1 && !force {
            return Err(VexfsError::InvalidOperation(message("snapshot is still referenced")));
        }
        if force {
            self.immediate_delete(snapshot_id)
        } else {
            let r = self.mark_for_deletion(snapshot_id);
            proof {
                lemma_marked_collectable(old(self)@.snapshots[snapshot_id]);
            }
            r
        }
    }

    /// Remove every snapshot marked for deletion that nothing but itself
    /// refers to.
    pub fn garbage_collect(&mut self) -> (r: VexfsResult<GarbageCollectionResult>)
        requires
            old(self).inv(),
            old(self)@.stats.gc_runs < u64::MAX,
        ensures
            final(self).inv(),
            final(self)@.snapshots == survivors(old(self)@.snapshots),
            final(self)@.deltas == old(self)@.deltas,
            final(self)@.next_snapshot_id == old(self)@.next_snapshot_id,
            final(self)@.stats == (SnapshotStats {
                active_snapshots: final(self)@.snapshots.dom().len() as u64,
                gc_runs: (old(self)@.stats.gc_runs + 1) as u64,
                ..old(self)@.stats
            }),
            r matches Ok(res) && res.snapshots_deleted == old(self)@.snapshots.dom().len()
                - final(self)@.snapshots.dom().len() && res.space_freed == 0 && res.errors == 0
                && res.duration_ms == 0,
    {
        let ghost old_view = self@;
        let ghost snaps = self.snapshots;
        proof {
            self.lemma_inv();
        }
        let mut result = GarbageCollectionResult { snapshots_deleted: 0, space_freed: 0, errors: 0, duration_ms: 0 };
        let keys = self.snapshots.keys();
        let mut to_delete: Vec<SnapshotId> = Vec::new();
        let ghost mut pos: Seq<int> = seq![];
        let mut i: usize = 0;
        while i < keys.len()
            invariant
                self.inv(),
                self@ == old_view,
                self.snapshots == snaps,
                keys@ == snaps.keys_seq(),
                snaps.wf(),
                i <= keys@.len(),
                to_delete@.len() == pos.len(),
                forall|t: int| 0 <= t < pos.len() ==> 0 <= #[trigger] pos[t] < i && keys@[pos[t]] == to_delete@[t],
                forall|a: int, b: int| 0 <= a < b < pos.len() ==> pos[a] < pos[b],
                forall|t: int| 0 <= t < to_delete@.len() ==> old_view.snapshots.contains_key(#[trigger] to_delete@[t])
                    && collectable(old_view.snapshots[to_delete@[t]]),
                forall|x: int| 0 <= x < i && collectable(old_view.snapshots[#[trigger] keys@[x]]) ==> to_delete@.contains(keys@[x]),
            decreases keys@.len() - i,
        {
            let k = keys[i];
            let ghost td_before = to_delete@;
            proof {
                snaps.lemma_entry(i as int);
            }
            let collect = match self.snapshots.get(k) {
                Some(m) => m.is_marked_for_deletion() && m.ref_count <= 1,
                None => false,
            };
            if collect {
                to_delete.push(k);
                proof {
                    pos = pos.push(i as int);
                    assert(to_delete@[to_delete@.len() - 1] == k);
                }
            }
            proof {
                assert forall|x: int| 0 <= x < i + 1 && collectable(old_view.snapshots[#[trigger] keys@[x]])
                    implies to_delete@.contains(keys@[x]) by {
                    if x == i {
                        assert(to_delete@[to_delete@.len() - 1] == k);
                    } else {
                        assert(td_before.contains(keys@[x]));
                        let w = choose|w: int| 0 <= w < td_before.len() && td_before[w] == keys@[x];
                        assert(to_delete@[w] == keys@[x]);
                    }
                }
            }
            i += 1;
        }
        proof {
            assert(strictly_increasing(to_delete@)) by {
                assert forall|a: int, b: int| 0 <= a < b < to_delete@.len() implies to_delete@[a] < to_delete@[b] by {
                    assert(pos[a] < pos[b]);
                    assert(keys@[pos[a]] == to_delete@[a]);
                    assert(keys@[pos[b]] == to_delete@[b]);
                }
            }
            assert(to_delete@.subrange(0, 0).to_set() =~= Set::<SnapshotId>::empty());
            assert(old_view.snapshots.remove_keys(Set::<SnapshotId>::empty()) =~= old_view.snapshots);
        }
        let mut j: usize = 0;
        while j < to_delete.len()
            invariant
                self.inv(),
                strictly_increasing(to_delete@),
                j <= to_delete@.len(),
                forall|t: int| 0 <= t < to_delete@.len() ==> old_view.snapshots.contains_key(#[trigger] to_delete@[t])
                    && collectable(old_view.snapshots[to_delete@[t]]),
                self@.snapshots == old_view.snapshots.remove_keys(to_delete@.subrange(0, j as int).to_set()),
                j <= old_view.stats.active_snapshots,
                self@.stats == (SnapshotStats {
                    active_snapshots: (old_view.stats.active_snapshots - j) as u64,
                    ..old_view.stats
                }),
                self@.next_snapshot_id == old_view.next_snapshot_id,
                self@.deltas == old_view.deltas,
                result.snapshots_deleted == j,
                result.space_freed == 0,
                result.errors == 0,
                result.duration_ms == 0,
            decreases to_delete@.len() - j,
        {
            let id = to_delete[j];
            let ghost before_dom = self@.snapshots.dom();
            proof {
                lemma_not_in_prefix(to_delete@, j as int);
                lemma_prefix_set_step(to_delete@, j as int);
                self.lemma_inv();
                vstd::set::axiom_set_remove_len(before_dom, id);
                assert(before_dom.contains(id));
                assert(self@.stats.active_snapshots == before_dom.len());
                assert(before_dom.len() >= 1);
            }
            let ghost before_stats = self@.stats;
            match self.immediate_delete(id) {
                Ok(()) => {
                    result.snapshots_deleted = result.snapshots_deleted + 1;
                    result.space_freed = result.space_freed + 0;
                },
                Err(_) => {
                    result.errors = result.errors + 1;
                },
            }
            proof {
                assert(self@.snapshots =~= old_view.snapshots.remove_keys(to_delete@.subrange(0, j + 1).to_set()));
                assert(self@.snapshots.dom() =~= before_dom.remove(id));
                self.lemma_inv();
                assert(self@.stats.active_snapshots == before_stats.active_snapshots - 1);
            }
            j += 1;
        }
        self.stats.gc_runs = self.stats.gc_runs + 1;
        self.stats.space_freed = self.stats.space_freed + result.space_freed;
        proof {
            assert(to_delete@.subrange(0, to_delete@.len() as int) =~= to_delete@);
            assert forall|k: SnapshotId| #[trigger] self@.snapshots.contains_key(k) == survivors(old_view.snapshots).contains_key(k) by {
                if old_view.snapshots.contains_key(k) && collectable(old_view.snapshots[k]) {
                    assert(snaps@.contains_key(k));
                    let p = snaps.lemma_key_position(k);
                    assert(keys@[p] == k);
                    assert(to_delete@.contains(k));
                    assert(to_delete@.to_set().contains(k));
                }
                if to_delete@.to_set().contains(k) {
                    let w = choose|w: int| 0 <= w < to_delete@.len() && to_delete@[w] == k;
                    assert(collectable(old_view.snapshots[to_delete@[w]]));
                }
            }
            assert(self@.snapshots =~= survivors(old_view.snapshots));
            self.lemma_inv();
        }
        Ok(result)
    }

    /// The statistics.
    pub fn get_stats(&self) -> (r: VexfsResult<SnapshotStats>)
        ensures
            r == Ok::<SnapshotStats, VexfsError>(self@.stats),
    {
        Ok(self.stats)
    }
}

/// A second garbage collection right after a first removes nothing more.
pub proof fn lemma_collection_idempotent(snaps: Map<SnapshotId, MetadataView>)
    ensures
        survivors(survivors(snaps)) == survivors(snaps),
{
    assert(survivors(survivors(snaps)) =~= survivors(snaps));
}

/// A snapshot marked for deletion that nothing but itself refers to is one
/// garbage collection removes.
pub proof fn lemma_marked_collectable(m: MetadataView)
    requires
        m.ref_count <= 1,
    ensures
        collectable(marked(m)),
{
    let f = m.flags.0;
    assert((f | 0x10u32) & 0x10u32 == 0x10u32) by (bit_vector);
}

/// A snapshot that deletion marked and that nothing but itself refers to
/// is removed by the next garbage collection, and every snapshot without
/// the mark survives it unchanged.
pub proof fn lemma_marked_unreferenced_collected(snaps: Map<SnapshotId, MetadataView>, id: SnapshotId, k: SnapshotId)
    requires
        snaps.contains_key(id),
        snaps[id].ref_count <= 1,
    ensures
        !survivors(snaps.insert(id, marked(snaps[id]))).contains_key(id),
        snaps.contains_key(k) && snaps[k].flags.0 & 0x10 != 0x10 ==> survivors(snaps).contains_key(k)
            && survivors(snaps)[k] == snaps[k],
{
    let f = snaps[id].flags.0;
    assert((f | 0x10u32) & 0x10u32 == 0x10u32) by (bit_vector);
}

} // verus!
