//! VexFS core library: filesystem metadata management (inodes, locking,
//! paths, permissions, snapshots), the IPC request/response bookkeeping for
//! embedding services, and the index bookkeeping of the vector search layer.

pub mod shared;
pub mod text;
pub mod ordered_map;
pub mod text_map;
pub mod fs_core;
pub mod vector_metrics;
pub mod vector_storage;
pub mod anns;
pub mod ipc;
pub mod ioctl_integration;
pub mod knn_search;
pub mod result_scoring;
pub mod hybrid_search;
pub mod test_runner;
pub mod hybrid_query_optimizer;
