//! Settings and reports of the copy-on-write and snapshot layer.

use vstd::prelude::*;
use std::sync::Arc;
use crate::fs_core::snapshot::{
    GarbageCollectionResult, ManagerView, SnapshotId, SnapshotManager, SnapshotMetadata, survivors,
};
use crate::fs_core::inode::{Inode, InodeManager, loaded_inode};
use crate::shared::{BlockNumber, InodeNumber, VexfsResult, VEXFS_DEFAULT_BLOCK_SIZE};

verus! {

/// Settings of copy-on-write operation.
#[derive(Debug, Clone)]
pub struct CowConfig {
    /// Copy on every write.
    pub auto_cow: bool,
    /// Most snapshots kept.
    pub max_snapshots: u32,
    /// Seconds between automatic garbage collections.
    pub gc_interval_seconds: u64,
    pub compress_snapshots: bool,
    pub enable_incremental: bool,
    /// Largest copy-on-write extent, in blocks.
    pub max_extent_size: u32,
}

impl Default for CowConfig {
    /// Copy on every write, keep up to 100 snapshots, collect hourly,
    /// compress, allow incremental snapshots, extents of up to 1024 blocks.
    fn default() -> (c: Self)
        ensures
            c.auto_cow,
            c.max_snapshots == 100,
            c.gc_interval_seconds == 3600,
            c.compress_snapshots,
            c.enable_incremental,
            c.max_extent_size == 1024,
    {
        CowConfig {
            auto_cow: true,
            max_snapshots: 100,
            gc_interval_seconds: 3600,
            compress_snapshots: true,
            enable_incremental: true,
            max_extent_size: 1024,
        }
    }
}

/// What a garbage collection over snapshots and copied blocks did.
#[derive(Debug, Default)]
pub struct GarbageCollectionSummary {
    pub snapshots_deleted: u64,
    /// Bytes freed from snapshots.
    pub space_freed: u64,
    pub cow_blocks_freed: u64,
    pub errors: u64,
    pub duration_ms: u64,
}

impl GarbageCollectionSummary {
    /// The summary of a snapshot collection run; copied blocks are not
    /// collected, so none are reported freed.
    fn from_snapshot_gc(result: &GarbageCollectionResult) -> (s: Self)
        ensures
            s.snapshots_deleted == result.snapshots_deleted,
            s.space_freed == result.space_freed,
            s.cow_blocks_freed == 0,
            s.errors == result.errors,
            s.duration_ms == result.duration_ms,
    {
        GarbageCollectionSummary {
            snapshots_deleted: result.snapshots_deleted,
            space_freed: result.space_freed,
            cow_blocks_freed: 0,
            errors: result.errors,
            duration_ms: result.duration_ms,
        }
    }
}

/// The outcome of a consistency check.
#[derive(Debug, Default)]
pub struct ConsistencyReport {
    pub cow_mappings_checked: u64,
    pub snapshots_checked: u64,
    pub errors_found: u64,
    pub warnings_found: u64,
}

/// What an optimisation pass did; the improvement is the bit pattern of an
/// IEEE 754 double, in percent.
#[derive(Debug, Default)]
pub struct OptimizationResult {
    pub operations_performed: u64,
    pub space_saved: u64,
    pub performance_improvement_bits: u64,
}

/// The bytes of a block from `offset` within it, at most `size` of them.
pub open spec fn block_portion(block: Seq<u8>, offset: u64, size: usize) -> Seq<u8> {
    let start = (offset % VEXFS_DEFAULT_BLOCK_SIZE) as int;
    let end = if start + size < block.len() { start + size } else { block.len() as int };
    if start >= block.len() {
        Seq::empty()
    } else {
        block.subrange(start, end)
    }
}

/// The inode after `len` bytes were written at `offset`: it grows to cover
/// them, and its modification and change times are touched.
pub open spec fn after_write(i: Inode, offset: u64, len: nat) -> Inode {
    Inode {
        size: if offset + len > i.size { (offset + len) as u64 } else { i.size },
        mtime: 0,
        ctime: 0,
        dirty: true,
        ..i
    }
}

/// File operations that copy blocks on write and keep snapshots.
pub struct CowFilesystemOperations {
    snapshot_manager: SnapshotManager,
    config: CowConfig,
}

impl CowFilesystemOperations {
    /// The snapshots.
    pub closed spec fn snapshots(&self) -> ManagerView {
        self.snapshot_manager@
    }

    /// The settings.
    pub closed spec fn settings(&self) -> CowConfig {
        self.config
    }

    /// The consistency of the snapshots.
    pub closed spec fn inv(&self) -> bool {
        self.snapshot_manager.inv()
    }

    /// Operations with the given settings and no snapshots yet.
    pub fn new(config: CowConfig) -> (r: VexfsResult<Self>)
        ensures
            r matches Ok(ops) && ops.inv() && ops.settings() == config && ops.snapshots().snapshots
                == Map::<SnapshotId, crate::fs_core::snapshot::MetadataView>::empty()
                && ops.snapshots().next_snapshot_id == 1,
    {
        Ok(CowFilesystemOperations { snapshot_manager: SnapshotManager::new(), config })
    }

    /// Write `data` at `offset` of a file. The block it falls in was copied
    /// before: `copied_block` is where the copy went, or the error copying
    /// gave, which is returned. The inode then grows to cover the data and
    /// its times are touched.
    pub fn cow_write_file(
        &self,
        inode: InodeNumber,
        offset: u64,
        data: &[u8],
        inode_manager: &mut InodeManager,
        copied_block: VexfsResult<BlockNumber>,
    ) -> (r: VexfsResult<usize>)
        requires
            old(inode_manager).wf(),
            old(inode_manager).cache().contains_key(inode) || inode > 0,
            offset + data@.len() <= u64::MAX,
        ensures
            final(inode_manager).wf(),
            copied_block is Err ==> r == Err::<usize, crate::shared::VexfsError>(copied_block->Err_0)
                && *final(inode_manager) == *old(inode_manager),
            copied_block is Ok ==> ({
                let before = if old(inode_manager).cache().contains_key(inode) {
                    old(inode_manager).cache()[inode]
                } else {
                    loaded_inode(inode)
                };
                &&& r == Ok::<usize, crate::shared::VexfsError>(data@.len() as usize)
                &&& final(inode_manager).cache() == old(inode_manager).cache().insert(
                    inode,
                    after_write(before, offset, data@.len()),
                )
                &&& final(inode_manager).dirty() == old(inode_manager).dirty().insert(inode)
            }),
    {
        let _logical_block = offset / VEXFS_DEFAULT_BLOCK_SIZE;
        match copied_block {
            Ok(_) => {},
            Err(e) => {
                return Err(e);
            },
        }
        let inode_arc = match inode_manager.get_inode(inode) {
            Ok(a) => a,
            Err(e) => {
                return Err(e);
            },
        };
        proof {
            inode_manager.lemma_cached_under_own_number(inode);
        }
        let mut inode_data: Inode = *inode_arc;
        let new_size = offset + data.len() as u64;
        if new_size > inode_data.size {
            inode_data.size = new_size;
        }
        inode_data.touch_mtime();
        inode_data.touch_ctime();
        let ghost written = inode_data;
        let _ = inode_manager.put_inode(Arc::new(inode_data));
        proof {
            assert(written.ino == inode);
        }
        Ok(data.len())
    }

    /// Read at most `size` bytes at `offset` of a file, from the block the
    /// offset falls in: `block` is that block as the copy-on-write mapping
    /// gives it, or the error reading it gave.
    pub fn cow_read_file(
        &self,
        inode: InodeNumber,
        offset: u64,
        size: usize,
        block: VexfsResult<Vec<u8>>,
    ) -> (r: VexfsResult<Vec<u8>>)
        requires
            (offset % VEXFS_DEFAULT_BLOCK_SIZE) + size <= usize::MAX,
        ensures
            block is Err ==> r == block,
            block matches Ok(b) ==> (r matches Ok(v) && v@ == block_portion(b@, offset, size)),
    {
        let block_data = match block {
            Ok(b) => b,
            Err(e) => {
                return Err(e);
            },
        };
        let block_offset = offset % VEXFS_DEFAULT_BLOCK_SIZE;
        let start = block_offset as usize;
        let end = if start + size < block_data.len() { start + size } else { block_data.len() };
        if start >= block_data.len() {
            return Ok(Vec::new());
        }
        let mut out: Vec<u8> = Vec::new();
        let mut i: usize = start;
        while i < end
            invariant
                start <= i <= end,
                end <= block_data@.len(),
                out@ == block_data@.subrange(start as int, i as int),
            decreases end - i,
        {
            out.push(block_data[i]);
            i += 1;
            assert(out@ =~= block_data@.subrange(start as int, i as int));
        }
        Ok(out)
    }

    /// Create a snapshot; `snapshot_root` as for the snapshot manager.
    pub fn create_snapshot(
        &mut self,
        name: String,
        parent_snapshot: Option<SnapshotId>,
        snapshot_root: VexfsResult<InodeNumber>,
    ) -> (r: VexfsResult<SnapshotId>)
        requires
            old(self).inv(),
            old(self).snapshots().next_snapshot_id < u64::MAX,
        ensures
            final(self).inv(),
            final(self).settings() == old(self).settings(),
            final(self).snapshots().next_snapshot_id == old(self).snapshots().next_snapshot_id + 1,
            snapshot_root is Err ==> r == Err::<SnapshotId, crate::shared::VexfsError>(snapshot_root->Err_0)
                && final(self).snapshots().snapshots == old(self).snapshots().snapshots,
            snapshot_root matches Ok(ino) ==> r == Ok::<SnapshotId, crate::shared::VexfsError>(
                old(self).snapshots().next_snapshot_id,
            ) && final(self).snapshots().snapshots == old(self).snapshots().snapshots.insert(
                old(self).snapshots().next_snapshot_id,
                crate::fs_core::snapshot::new_snapshot_view(
                    old(self).snapshots().next_snapshot_id,
                    name@,
                    ino,
                    parent_snapshot,
                ),
            ),
    {
        self.snapshot_manager.create_snapshot(name, parent_snapshot, snapshot_root)
    }

    /// Create a snapshot whose parent is `base_snapshot`; the delta against
    /// the base is not computed.
    pub fn create_incremental_snapshot(
        &mut self,
        name: String,
        base_snapshot: SnapshotId,
        snapshot_root: VexfsResult<InodeNumber>,
    ) -> (r: VexfsResult<SnapshotId>)
        requires
            old(self).inv(),
            old(self).snapshots().next_snapshot_id < u64::MAX,
        ensures
            final(self).inv(),
            final(self).settings() == old(self).settings(),
            snapshot_root is Err ==> r == Err::<SnapshotId, crate::shared::VexfsError>(snapshot_root->Err_0),
            snapshot_root matches Ok(ino) ==> r == Ok::<SnapshotId, crate::shared::VexfsError>(
                old(self).snapshots().next_snapshot_id,
            ) && final(self).snapshots().snapshots == old(self).snapshots().snapshots.insert(
                old(self).snapshots().next_snapshot_id,
                crate::fs_core::snapshot::new_snapshot_view(
                    old(self).snapshots().next_snapshot_id,
                    name@,
                    ino,
                    Some(base_snapshot),
                ),
            ),
    {
        self.snapshot_manager.create_snapshot(name, Some(base_snapshot), snapshot_root)
    }

    /// Delete a snapshot, as the snapshot manager does.
    pub fn delete_snapshot(&mut self, snapshot_id: SnapshotId, force: bool) -> (r: VexfsResult<()>)
        requires
            old(self).inv(),
        ensures
            final(self).inv(),
            final(self).settings() == old(self).settings(),
            !old(self).snapshots().snapshots.contains_key(snapshot_id) ==> r is Err && final(self).snapshots()
                == old(self).snapshots(),
            old(self).snapshots().snapshots.contains_key(snapshot_id) ==> ({
                let m = old(self).snapshots().snapshots[snapshot_id];
                &&& !force && (m.child_snapshots.len() > 0 || m.ref_count > 1) ==> r is Err
                    && final(self).snapshots() == old(self).snapshots()
                &&& !force && m.child_snapshots.len() == 0 && m.ref_count <= 1 ==> r is Ok
                    && final(self).snapshots() == (crate::fs_core::snapshot::ManagerView {
                        snapshots: old(self).snapshots().snapshots.insert(
                            snapshot_id,
                            crate::fs_core::snapshot::marked(m),
                        ),
                        ..old(self).snapshots()
                    })
                &&& force ==> r is Ok && final(self).snapshots() == crate::fs_core::snapshot::after_removal(
                    old(self).snapshots(),
                    snapshot_id,
                )
            }),
    {
        self.snapshot_manager.delete_snapshot(snapshot_id, force)
    }

    /// The snapshots, by increasing id.
    pub fn list_snapshots(&self) -> (r: VexfsResult<Vec<SnapshotMetadata>>)
        requires
            self.inv(),
        ensures
            r matches Ok(list) && list@.len() == self.snapshots().snapshots.dom().len()
                && (forall|i: int| 0 <= i < list@.len() ==> self.snapshots().snapshots.contains_key(#[trigger] list@[i].id)
                    && list@[i]@ == self.snapshots().snapshots[list@[i].id])
                && (forall|i: int, j: int| 0 <= i < j < list@.len() ==> list@[i].id < list@[j].id),
    {
        self.snapshot_manager.list_snapshots()
    }

    /// Read from a snapshot: the snapshot must exist, and `block` is the
    /// block of its root as the copy-on-write mapping gives it.
    pub fn read_from_snapshot(
        &self,
        snapshot_id: SnapshotId,
        inode: InodeNumber,
        offset: u64,
        size: usize,
        block: VexfsResult<Vec<u8>>,
    ) -> (r: VexfsResult<Vec<u8>>)
        requires
            self.inv(),
        ensures
            !self.snapshots().snapshots.contains_key(snapshot_id) ==> r is Err,
            self.snapshots().snapshots.contains_key(snapshot_id) ==> r == block,
    {
        let _snapshot = match self.snapshot_manager.get_snapshot(snapshot_id) {
            Ok(s) => s,
            Err(e) => {
                return Err(e);
            },
        };
        let _logical_block = offset / VEXFS_DEFAULT_BLOCK_SIZE;
        block
    }

    /// Restore a file from a snapshot: the snapshot's data (`block`, as
    /// for reading from a snapshot) is written over the start of the target
    /// file (`copied_block`, as for writing).
    pub fn restore_from_snapshot(
        &self,
        snapshot_id: SnapshotId,
        source_inode: InodeNumber,
        target_inode: InodeNumber,
        inode_manager: &mut InodeManager,
        block: VexfsResult<Vec<u8>>,
        copied_block: VexfsResult<BlockNumber>,
    ) -> (r: VexfsResult<()>)
        requires
            self.inv(),
            old(inode_manager).wf(),
            old(inode_manager).cache().contains_key(target_inode) || target_inode > 0,
        ensures
            final(inode_manager).wf(),
            !self.snapshots().snapshots.contains_key(snapshot_id) ==> r is Err && *final(inode_manager)
                == *old(inode_manager),
            self.snapshots().snapshots.contains_key(snapshot_id) && block is Err ==> r is Err
                && *final(inode_manager) == *old(inode_manager),
            self.snapshots().snapshots.contains_key(snapshot_id) && copied_block is Err ==> r is Err
                && *final(inode_manager) == *old(inode_manager),
            self.snapshots().snapshots.contains_key(snapshot_id) && block is Ok && copied_block is Ok ==> ({
                let before = if old(inode_manager).cache().contains_key(target_inode) {
                    old(inode_manager).cache()[target_inode]
                } else {
                    loaded_inode(target_inode)
                };
                &&& r is Ok
                &&& final(inode_manager).cache() == old(inode_manager).cache().insert(
                    target_inode,
                    after_write(before, 0, block->Ok_0@.len()),
                )
            }),
    {
        let _snapshot = match self.snapshot_manager.get_snapshot(snapshot_id) {
            Ok(s) => s,
            Err(e) => {
                return Err(e);
            },
        };
        let data = match self.read_from_snapshot(snapshot_id, source_inode, 0, usize::MAX, block) {
            Ok(d) => d,
            Err(e) => {
                return Err(e);
            },
        };
        let n = data.len();
        assert(n <= u64::MAX);
        match self.cow_write_file(target_inode, 0, data.as_slice(), inode_manager, copied_block) {
            Ok(_) => Ok(()),
            Err(e) => Err(e),
        }
    }

    /// Collect the snapshots marked for deletion that nothing refers to;
    /// copied blocks are not collected.
    pub fn garbage_collect(&mut self) -> (r: VexfsResult<GarbageCollectionSummary>)
        requires
            old(self).inv(),
            old(self).snapshots().stats.gc_runs < u64::MAX,
        ensures
            final(self).inv(),
            final(self).settings() == old(self).settings(),
            final(self).snapshots().snapshots == survivors(old(self).snapshots().snapshots),
            r matches Ok(s) && s.snapshots_deleted == old(self).snapshots().snapshots.dom().len()
                - final(self).snapshots().snapshots.dom().len() && s.space_freed == 0 && s.cow_blocks_freed == 0
                && s.errors == 0 && s.duration_ms == 0,
    {
        let result = match self.snapshot_manager.garbage_collect() {
            Ok(r) => r,
            Err(e) => {
                return Err(e);
            },
        };
        Ok(GarbageCollectionSummary::from_snapshot_gc(&result))
    }

    /// An optimisation pass; nothing is optimised yet.
    pub fn optimize(&self) -> (r: VexfsResult<OptimizationResult>)
        ensures
            r matches Ok(o) && o.operations_performed == 0 && o.space_saved == 0 && o.performance_improvement_bits
                == 0,
    {
        Ok(OptimizationResult { operations_performed: 0, space_saved: 0, performance_improvement_bits: 0 })
    }

    /// A consistency check; nothing is checked yet.
    pub fn check_consistency(&self) -> (r: VexfsResult<ConsistencyReport>)
        ensures
            r matches Ok(c) && c.cow_mappings_checked == 0 && c.snapshots_checked == 0 && c.errors_found == 0
                && c.warnings_found == 0,
    {
        Ok(ConsistencyReport { cow_mappings_checked: 0, snapshots_checked: 0, errors_found: 0, warnings_found: 0 })
    }
}

/// Which maintenance runs in the background, and how often.
#[derive(Debug, Default)]
struct BackgroundTaskConfig {
    gc_enabled: bool,
    auto_snapshot_enabled: bool,
    gc_interval: u64,
    snapshot_interval: u64,
}

/// Copy-on-write file operations with their background maintenance.
pub struct CowSnapshotIntegration {
    cow_ops: Arc<CowFilesystemOperations>,
    background_tasks: BackgroundTaskConfig,
}

impl CowSnapshotIntegration {
    /// Whether garbage collection runs in the background.
    pub closed spec fn gc_running(&self) -> bool {
        self.background_tasks.gc_enabled
    }

    /// Whether snapshots are taken in the background.
    pub closed spec fn auto_snapshots(&self) -> bool {
        self.background_tasks.auto_snapshot_enabled
    }

    /// The file operations.
    pub closed spec fn operations(&self) -> Arc<CowFilesystemOperations> {
        self.cow_ops
    }

    /// Maintenance for the given operations, with nothing running yet.
    pub fn new(cow_ops: Arc<CowFilesystemOperations>) -> (r: Self)
        ensures
            r.operations() == cow_ops,
            !r.gc_running(),
            !r.auto_snapshots(),
    {
        CowSnapshotIntegration {
            cow_ops,
            background_tasks: BackgroundTaskConfig {
                gc_enabled: false,
                auto_snapshot_enabled: false,
                gc_interval: 0,
                snapshot_interval: 0,
            },
        }
    }

    /// Start background garbage collection and snapshots.
    pub fn start_background_tasks(&mut self) -> (r: VexfsResult<()>)
        ensures
            r is Ok,
            final(self).gc_running(),
            final(self).auto_snapshots(),
            final(self).operations() == old(self).operations(),
    {
        self.background_tasks.gc_enabled = true;
        self.background_tasks.auto_snapshot_enabled = true;
        Ok(())
    }

    /// Stop background garbage collection and snapshots.
    pub fn stop_background_tasks(&mut self) -> (r: VexfsResult<()>)
        ensures
            r is Ok,
            !final(self).gc_running(),
            !final(self).auto_snapshots(),
            final(self).operations() == old(self).operations(),
    {
        self.background_tasks.gc_enabled = false;
        self.background_tasks.auto_snapshot_enabled = false;
        Ok(())
    }

    /// The file operations.
    pub fn cow_ops(&self) -> (r: &Arc<CowFilesystemOperations>)
        ensures
            *r == self.operations(),
    {
        &self.cow_ops
    }
}

} // verus!
