//! The element types of stored vectors and the errors of the vector store.

use vstd::prelude::*;

verus! {

/// Element type of vector data.
#[derive(Debug, Clone, Copy, PartialEq, Eq, Structural)]
pub enum VectorDataType {
    Float32,
    Float16,
    Int8,
    Int16,
    Binary,
}

/// Errors of the vector store.
#[derive(Debug, Clone, Copy, PartialEq, Eq, Structural)]
pub enum VectorStorageError {
    InvalidDimensions(u32),
    InvalidDimension(u32),
    DimensionMismatch { expected: u32, actual: u32 },
    InvalidComponent(u32),
    VectorTooLarge,
    VectorNotFound,
    MetadataTooLarge,
    SerializationError,
    DeserializationError,
    NormalizationError,
    SearchError,
    IndexError,
    InvalidVectorId,
    CorruptedData,
    NoSpace,
    IoError,
    InvalidVersion,
    ChecksumMismatch,
    FileNotFound,
    CompressionError,
    MetadataError,
    AlignmentError,
}

} // verus!
