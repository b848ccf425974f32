use vstd::prelude::*;

use crate::attribute::NtfsAttributeType;
use crate::types::{Lcn, Vcn};

verus! {

/// The I/O error type of the storage source, which `binread::io` takes from std.
#[verifier::external_type_specification]
#[verifier::external_body]
pub struct ExIoError(binread::io::Error);

/// Central error type of the decoder.
///
/// Every variant carries the position and the expected and actual values needed to
/// diagnose a failure without reading the volume again.
#[derive(Debug)]
#[allow(inconsistent_fields)]
pub enum NtfsError {
    /// The file record at `position` has no attribute of type `ty`.
    AttributeNotFound { position: u64, ty: NtfsAttributeType },
    /// The given buffer should have at least `expected` bytes, but it only has `actual` bytes.
    BufferTooSmall { expected: usize, actual: usize },
    /// A data run header at `position` declares a field of `actual` bytes, more than `expected`.
    InvalidByteCountInDataRunHeader { position: u64, expected: u8, actual: u8 },
    /// The cluster count is invalid for the structure that declares it.
    InvalidClusterCount { cluster_count: u64 },
    /// The requested file `n` is invalid.
    InvalidNtfsFile { n: u64 },
    /// The file record at `position` has signature `actual` instead of `expected`.
    InvalidNtfsFileSignature { position: u64, expected: [u8; 4], actual: [u8; 4] },
    /// The index record at `position` has signature `actual` instead of `expected`.
    InvalidNtfsIndexSignature { position: u64, expected: [u8; 4], actual: [u8; 4] },
    /// The index record at `position` declares `actual` bytes where at most `expected` fit.
    InvalidNtfsIndexSize { position: u64, expected: u32, actual: u32 },
    /// The given time cannot be represented as an NTFS time.
    InvalidNtfsTime,
    /// A record size field of the boot sector is invalid for the cluster size.
    InvalidRecordSizeInfo { size_info: i8, cluster_size: u32 },
    /// The structured value at `position` of type `ty` has `actual` bytes, not `expected`.
    InvalidStructuredValueSize { position: u64, ty: NtfsAttributeType, expected: u64, actual: u64 },
    /// The 2-byte sector signature at `position` holds `actual` instead of `expected`.
    InvalidTwoByteSignature { position: u64, expected: [u8; 2], actual: [u8; 2] },
    /// The LCN delta `vcn` of the data run header at `position` cannot be added to the
    /// LCN `previous_lcn` of the previous data runs.
    InvalidVcnInDataRunHeader { position: u64, vcn: Vcn, previous_lcn: Lcn },
    /// An error of the storage source, passed on unchanged.
    Io(binread::io::Error),
    /// The LCN `lcn` is beyond what the volume can hold.
    LcnTooBig { lcn: Lcn },
    /// The cluster size `actual` exceeds the supported maximum `expected`.
    UnsupportedClusterSize { expected: u32, actual: u32 },
    /// The attribute at `position` has the unrecognised type code `actual`.
    UnsupportedNtfsAttributeType { position: u64, actual: u32 },
    /// The file name at `position` has the unsupported namespace `actual`.
    UnsupportedNtfsFileNamespace { position: u64, actual: u8 },
    /// The attribute at `position` of type `ty` cannot be read as a structured value.
    UnsupportedStructuredValue { position: u64, ty: NtfsAttributeType },
    /// The requested VCN leads to a record that holds VCN `record_vcn`.
    VcnMismatch { requested_vcn: Vcn, record_vcn: Vcn },
    /// The VCN `vcn` is too big to be processed.
    VcnTooBig { vcn: Vcn },
}

impl From<binread::io::Error> for NtfsError {
    fn from(error: binread::io::Error) -> (r: Self)
        ensures
            r == NtfsError::Io(error),
    {
        NtfsError::Io(error)
    }
}

impl vstd::std_specs::convert::FromSpecImpl<binread::io::Error> for NtfsError {
    open spec fn obeys_from_spec() -> bool {
        true
    }

    open spec fn from_spec(error: binread::io::Error) -> NtfsError {
        NtfsError::Io(error)
    }
}

} // verus!
