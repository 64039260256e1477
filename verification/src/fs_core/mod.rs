//! Core filesystem domain: inodes, paths, permissions, locking, snapshots,
//! and the filesystem context that ties the inode and lock managers together.

pub mod inode;
pub mod locking;
pub mod path;
pub mod permissions;
pub mod snapshot;
pub mod cow_integration;

use vstd::prelude::*;
use crate::shared::{
    FileMode, FileType, VexfsError, VexfsResult, VEXFS_BLOCK_SIZE, VEXFS_MAGIC, VEXFS_ROOT_INO,
    VEXFS_VERSION_MAJOR, VEXFS_VERSION_MINOR, VEXFS_VERSION_PATCH, message,
};
use crate::text::decimal_string;
use inode::InodeManager;
use locking::LockManager;

verus! {

/// Combined version number: major, minor and patch in bits 16.., 8..16 and 0..8.
pub const VEXFS_VERSION: u32 = 0x0001_0000;

/// Size in bytes of an inode record on disk.
pub const VEXFS_ONDISK_INODE_SIZE: u32 = 256;

/// File system statistics.
#[derive(Debug, Clone, Copy)]
pub struct FsStats {
    pub total_inodes: u64,
    pub free_inodes: u64,
    pub total_blocks: u64,
    pub free_blocks: u64,
    pub files: u64,
    pub directories: u64,
    pub symlinks: u64,
    pub block_size: u32,
}

impl FsStats {
    /// Empty statistics for the default block size.
    pub fn new() -> (r: Self)
        ensures
            r == (FsStats {
                total_inodes: 0,
                free_inodes: 0,
                total_blocks: 0,
                free_blocks: 0,
                files: 0,
                directories: 0,
                symlinks: 0,
                block_size: VEXFS_BLOCK_SIZE,
            }),
    {
        FsStats {
            total_inodes: 0,
            free_inodes: 0,
            total_blocks: 0,
            free_blocks: 0,
            files: 0,
            directories: 0,
            symlinks: 0,
            block_size: VEXFS_BLOCK_SIZE,
        }
    }

    /// Inodes in use (never negative).
    pub fn used_inodes(&self) -> (r: u64)
        ensures
            r == if self.total_inodes >= self.free_inodes { (self.total_inodes - self.free_inodes) as u64 } else { 0 },
    {
        self.total_inodes.saturating_sub(self.free_inodes)
    }

    /// Blocks in use (never negative).
    pub fn used_blocks(&self) -> (r: u64)
        ensures
            r == if self.total_blocks >= self.free_blocks { (self.total_blocks - self.free_blocks) as u64 } else { 0 },
    {
        self.total_blocks.saturating_sub(self.free_blocks)
    }
}

/// File system configuration.
#[derive(Debug, Clone, Copy)]
pub struct FsConfig {
    pub case_sensitive: bool,
    pub max_filename_length: usize,
    pub max_path_depth: usize,
    pub enable_quotas: bool,
    pub enable_extended_attributes: bool,
    pub default_file_mode: u16,
    pub default_dir_mode: u16,
}

/// The default configuration.
pub open spec fn default_fs_config() -> FsConfig {
    FsConfig {
        case_sensitive: true,
        max_filename_length: 255,
        max_path_depth: 32,
        enable_quotas: false,
        enable_extended_attributes: true,
        default_file_mode: 0o644,
        default_dir_mode: 0o755,
    }
}

impl Default for FsConfig {
    fn default() -> (r: Self)
        ensures
            r == default_fs_config(),
    {
        FsConfig {
            case_sensitive: true,
            max_filename_length: 255,
            max_path_depth: 32,
            enable_quotas: false,
            enable_extended_attributes: true,
            default_file_mode: 0o644,
            default_dir_mode: 0o755,
        }
    }
}

/// Feature bits of a configuration: extended attributes (1), quotas (2),
/// and always vector storage (4) and advanced indexing (8).
pub open spec fn feature_flags(c: FsConfig) -> u64 {
    ((if c.enable_extended_attributes { 1u64 } else { 0u64 }) + (if c.enable_quotas { 2u64 } else { 0u64 }) + 12) as u64
}

/// Comprehensive filesystem information.
#[derive(Debug, Clone, Copy)]
pub struct FsInfo {
    pub version: u32,
    pub magic: u32,
    pub block_size: u32,
    pub inode_size: u32,
    pub features: u64,
    pub stats: FsStats,
    pub config: FsConfig,
}

/// The placeholder statistics a filesystem reports.
pub open spec fn placeholder_stats(s: FsStats) -> FsStats {
    FsStats { total_blocks: 1000000, free_blocks: 800000, total_inodes: 100000, free_inodes: 90000, ..s }
}

/// Main filesystem context that coordinates all operations.
pub struct FileSystem {
    pub inode_manager: InodeManager,
    pub lock_manager: LockManager,
    pub config: FsConfig,
    pub stats: FsStats,
}

impl FileSystem {
    /// The managers are well formed.
    pub open spec fn wf(&self) -> bool {
        self.inode_manager.wf() && self.lock_manager.wf()
    }

    /// Create a new filesystem instance with empty inode and lock managers.
    pub fn new(config: FsConfig) -> (r: VexfsResult<Self>)
        ensures
            r matches Ok(fs) && fs.wf() && fs.config == config && fs.stats == FsStats::new_spec()
                && fs.inode_manager.cache() == Map::<u64, inode::Inode>::empty()
                && fs.inode_manager.dirty() == Set::<u64>::empty()
                && fs.inode_manager.next_ino() == VEXFS_ROOT_INO + 1
                && fs.inode_manager.free_list() == Seq::<u64>::empty()
                && fs.lock_manager@.active == Map::<u64, locking::LockScope>::empty(),
    {
        let inode_manager = InodeManager::new()?;
        let lock_manager = LockManager::new();
        let stats = FsStats::new();
        Ok(FileSystem { inode_manager, lock_manager, config, stats })
    }

    /// Mount the filesystem: refresh the statistics.
    pub fn mount(&mut self) -> (r: VexfsResult<()>)
        ensures
            r matches Ok(()),
            final(self).stats == placeholder_stats(old(self).stats),
            final(self).inode_manager == old(self).inode_manager,
            final(self).lock_manager == old(self).lock_manager,
            final(self).config == old(self).config,
    {
        self.update_stats()?;
        Ok(())
    }

    /// Unmount the filesystem: write back every dirty inode.
    pub fn unmount(&mut self) -> (r: VexfsResult<()>)
        requires
            old(self).wf(),
        ensures
            final(self).wf(),
            (r matches Ok(())) == (forall|i: int| 0 <= i < old(self).inode_manager.dirty_keys().len()
                ==> old(self).inode_manager.cache().contains_key(#[trigger] old(self).inode_manager.dirty_keys()[i])),
            r matches Ok(()) ==> final(self).inode_manager.dirty() == Set::<u64>::empty(),
            final(self).lock_manager == old(self).lock_manager,
            final(self).config == old(self).config,
            final(self).stats == old(self).stats,
    {
        self.inode_manager.sync()?;
        Ok(())
    }

    /// Update filesystem statistics.
    pub fn update_stats(&mut self) -> (r: VexfsResult<()>)
        ensures
            r matches Ok(()),
            final(self).stats == placeholder_stats(old(self).stats),
            final(self).inode_manager == old(self).inode_manager,
            final(self).lock_manager == old(self).lock_manager,
            final(self).config == old(self).config,
    {
        self.stats.total_blocks = 1000000;
        self.stats.free_blocks = 800000;
        self.stats.total_inodes = 100000;
        self.stats.free_inodes = 90000;
        Ok(())
    }

    /// Get filesystem statistics.
    pub fn get_stats(&self) -> (r: &FsStats)
        ensures
            *r == self.stats,
    {
        &self.stats
    }

    /// Get filesystem configuration.
    pub fn get_config(&self) -> (r: &FsConfig)
        ensures
            *r == self.config,
    {
        &self.config
    }

    /// Replace the configuration. Names longer than 4096 bytes and paths
    /// deeper than 256 levels are refused.
    pub fn update_config(&mut self, new_config: FsConfig) -> (r: VexfsResult<()>)
        ensures
            new_config.max_filename_length > 4096 ==> (r matches Err(VexfsError::InvalidArgument(_)) && *final(self) == *old(self)),
            new_config.max_filename_length <= 4096 && new_config.max_path_depth > 256
                ==> (r matches Err(VexfsError::InvalidArgument(_)) && *final(self) == *old(self)),
            new_config.max_filename_length <= 4096 && new_config.max_path_depth <= 256
                ==> (r matches Ok(()) && final(self).config == new_config && final(self).stats == old(self).stats
                    && final(self).inode_manager == old(self).inode_manager
                    && final(self).lock_manager == old(self).lock_manager),
    {
        if new_config.max_filename_length > 4096 {
            return Err(VexfsError::InvalidArgument(message("Filename length too large")));
        }
        if new_config.max_path_depth > 256 {
            return Err(VexfsError::InvalidArgument(message("Path depth too large")));
        }
        self.config = new_config;
        Ok(())
    }

    /// Check the filesystem. Reports how many inodes are dirty; with
    /// `repair`, writes them back and reports how that went.
    pub fn fsck(&mut self, repair: bool) -> (r: VexfsResult<Vec<String>>)
        requires
            old(self).wf(),
        ensures
            final(self).wf(),
            r matches Ok(issues) && ({
                let n = old(self).inode_manager.dirty().len();
                &&& n == 0 ==> issues@.len() == 0 && final(self).inode_manager == old(self).inode_manager
                &&& n > 0 && !repair ==> issues@.len() == 1 && final(self).inode_manager == old(self).inode_manager
                &&& n > 0 && repair ==> issues@.len() == 2
                &&& n > 0 ==> issues@[0]@ == dirty_report(n as nat)
            }),
            final(self).lock_manager == old(self).lock_manager,
            final(self).config == old(self).config,
            final(self).stats == old(self).stats,
    {
        let mut issues: Vec<String> = Vec::new();
        let (_cached_inodes, dirty_inodes) = self.inode_manager.cache_stats();
        if dirty_inodes > 0 {
            let mut line = message("Found ");
            let count = decimal_string(dirty_inodes as u64);
            line.append(count.as_str());
            line.append(" dirty inodes in cache");
            issues.push(line);
            if repair {
                match self.inode_manager.sync() {
                    Err(e) => {
                        let mut fail = message("Failed to sync dirty inodes: ");
                        let why = e.describe();
                        fail.append(why.as_str());
                        issues.push(fail);
                    },
                    Ok(()) => {
                        issues.push(message("Successfully synced dirty inodes"));
                    },
                }
            }
        }
        Ok(issues)
    }

    /// Write back every dirty inode.
    pub fn sync(&mut self) -> (r: VexfsResult<()>)
        requires
            old(self).wf(),
        ensures
            final(self).wf(),
            (r matches Ok(())) == (forall|i: int| 0 <= i < old(self).inode_manager.dirty_keys().len()
                ==> old(self).inode_manager.cache().contains_key(#[trigger] old(self).inode_manager.dirty_keys()[i])),
            r matches Ok(()) ==> final(self).inode_manager.dirty() == Set::<u64>::empty(),
            final(self).lock_manager == old(self).lock_manager,
            final(self).config == old(self).config,
            final(self).stats == old(self).stats,
    {
        self.inode_manager.sync()?;
        Ok(())
    }

    /// Detailed filesystem information.
    pub fn get_fs_info(&self) -> (r: FsInfo)
        ensures
            r == (FsInfo {
                version: VEXFS_VERSION,
                magic: VEXFS_MAGIC,
                block_size: VEXFS_BLOCK_SIZE,
                inode_size: VEXFS_ONDISK_INODE_SIZE,
                features: feature_flags(self.config),
                stats: self.stats,
                config: self.config,
            }),
    {
        FsInfo {
            version: VEXFS_VERSION,
            magic: VEXFS_MAGIC,
            block_size: VEXFS_BLOCK_SIZE,
            inode_size: VEXFS_ONDISK_INODE_SIZE,
            features: self.get_feature_flags(),
            stats: self.stats,
            config: self.config,
        }
    }

    /// Feature bits of the current configuration.
    pub fn get_feature_flags(&self) -> (r: u64)
        ensures
            r == feature_flags(self.config),
    {
        let mut flags: u64 = 0;
        if self.config.enable_extended_attributes {
            flags = flags + 1;
        }
        if self.config.enable_quotas {
            flags = flags + 2;
        }
        flags = flags + 4;
        flags = flags + 8;
        flags
    }
}

impl FsStats {
    /// The value `FsStats::new` returns.
    pub open spec fn new_spec() -> FsStats {
        FsStats {
            total_inodes: 0,
            free_inodes: 0,
            total_blocks: 0,
            free_blocks: 0,
            files: 0,
            directories: 0,
            symlinks: 0,
            block_size: VEXFS_BLOCK_SIZE,
        }
    }
}

/// The report line for `n` dirty inodes.
pub open spec fn dirty_report(n: nat) -> Seq<char> {
    "Found "@ + crate::text::spec_decimal(n) + " dirty inodes in cache"@
}

/// Creating and checking a filesystem.
pub trait FsInitializer {
    /// Whether a filesystem can be created now.
    spec fn ready(&self) -> bool;

    /// Initialize a new filesystem.
    fn mkfs(&mut self, config: &FsConfig) -> VexfsResult<()>
        requires
            old(self).ready();

    /// Check if filesystem exists and is valid.
    fn check_fs(&self) -> VexfsResult<bool>;
}

impl FsInitializer for FileSystem {
    open spec fn ready(&self) -> bool {
        self.wf()
    }

    /// Create the root directory under the root inode number (mode 0755,
    /// owned by uid 0 and gid 0), adopt the configuration and refresh the
    /// statistics.
    fn mkfs(&mut self, config: &FsConfig) -> (r: VexfsResult<()>)
        ensures
            final(self).wf(),
            r matches Ok(()),
            final(self).inode_manager.cache() == old(self).inode_manager.cache().insert(
                VEXFS_ROOT_INO, inode::fresh_inode(VEXFS_ROOT_INO, FileType::Directory, FileMode { mode: 0o755 }, 0, 0)),
            final(self).inode_manager.dirty() == old(self).inode_manager.dirty().insert(VEXFS_ROOT_INO),
            final(self).inode_manager.next_ino() == old(self).inode_manager.next_ino(),
            final(self).inode_manager.free_list() == old(self).inode_manager.free_list(),
            final(self).lock_manager == old(self).lock_manager,
            final(self).config == *config,
            final(self).stats == placeholder_stats(old(self).stats),
    {
        let _root = self.inode_manager.create_root_inode(FileMode::new(0o755), 0, 0)?;
        self.config = *config;
        self.update_stats()?;
        Ok(())
    }

    /// The filesystem is always reported valid.
    fn check_fs(&self) -> (r: VexfsResult<bool>)
        ensures
            r matches Ok(true),
    {
        Ok(true)
    }
}

} // verus!
