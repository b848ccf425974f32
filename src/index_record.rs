use vstd::prelude::*;

use crate::bytes::{le_uint, lemma_le_uint_bound, lemma_pow256_values, read_le, sign_extend, sign_extended};
use crate::error::NtfsError;
use crate::fixup::{fixup, fixup_result};
use crate::record::{has_signature, signature_of};
use crate::types::Vcn;

verus! {

/// Signature of an index record.
pub const INDEX_SIGNATURE: [u8; 4] = [0x49, 0x4e, 0x44, 0x58];

/// Offset of the node header in an index record.
pub const INDEX_NODE_OFFSET: usize = 0x18;

/// Offset of the node header in the value of an index root attribute.
pub const INDEX_ROOT_NODE_OFFSET: usize = 0x10;

/// Bytes of an index node header.
pub const INDEX_NODE_HEADER_SIZE: usize = 0x10;

/// Checks the index node header at byte `h` of `d`: the node may take at most `limit`
/// bytes, and it uses no more bytes than it has allocated. `position` is the byte of
/// the volume that failures report.
pub open spec fn check_index_node(d: Seq<u8>, h: int, limit: int, position: int) -> Result<(), NtfsError> {
    let used = le_uint(d, h + 4, 4) as int;
    let allocated = le_uint(d, h + 8, 4) as int;
    if h + INDEX_NODE_HEADER_SIZE > d.len() {
        Err(NtfsError::BufferTooSmall { expected: INDEX_NODE_HEADER_SIZE, actual: (d.len() - h) as usize })
    } else if allocated > limit {
        Err(NtfsError::InvalidNtfsIndexSize { position: position as u64, expected: limit as u32, actual: allocated as u32 })
    } else if used > allocated {
        Err(NtfsError::InvalidNtfsIndexSize { position: position as u64, expected: allocated as u32, actual: used as u32 })
    } else {
        Ok(())
    }
}

/// Checks the index node header at byte `header` of `data`; see `check_index_node`.
pub fn validate_index_node(data: &[u8], header: usize, limit: u32, position: u64) -> (r: Result<(), NtfsError>)
    requires
        header <= data@.len(),
    ensures
        r == check_index_node(data@, header as int, limit as int, position as int),
{
    let len: usize = data.len();
    if INDEX_NODE_HEADER_SIZE > len - header {
        return Err(NtfsError::BufferTooSmall { expected: INDEX_NODE_HEADER_SIZE, actual: len - header });
    }
    proof {
        lemma_pow256_values();
        lemma_le_uint_bound(data@, header + 4, 4);
        lemma_le_uint_bound(data@, header + 8, 4);
    }
    let used: u32 = read_le(data, header + 4, 4) as u32;
    let allocated: u32 = read_le(data, header + 8, 4) as u32;
    if allocated > limit {
        return Err(NtfsError::InvalidNtfsIndexSize { position, expected: limit, actual: allocated });
    }
    if used > allocated {
        return Err(NtfsError::InvalidNtfsIndexSize { position, expected: allocated, actual: used });
    }
    Ok(())
}

/// VCN that the header of index record `d` declares.
pub open spec fn index_record_vcn(d: Seq<u8>) -> int {
    sign_extended(le_uint(d, 0x10, 8) as int, 8)
}

/// What reading the index record `d` yields: its verified and repaired bytes, or the
/// first failure. `position` is its byte on the volume, `ss` the sector size,
/// `record_size` the volume's index record size and `vcn` the VCN it was read for.
/// The signature is checked first and the update sequence next; the VCN and the
/// node sizes are read only from the repaired bytes.
pub open spec fn index_record_result(d: Seq<u8>, position: int, ss: int, record_size: int, vcn: int) -> Result<Seq<u8>, NtfsError> {
    if d.len() >= 4 && !has_signature(d, INDEX_SIGNATURE) {
        Err(NtfsError::InvalidNtfsIndexSignature { position: position as u64, expected: INDEX_SIGNATURE, actual: signature_of(d) })
    } else if d.len() < INDEX_NODE_OFFSET {
        Err(NtfsError::BufferTooSmall { expected: INDEX_NODE_OFFSET, actual: d.len() as usize })
    } else {
        match fixup_result(d, position, ss) {
            Err(e) => Err(e),
            Ok(s) => if index_record_vcn(s) != vcn {
                Err(NtfsError::VcnMismatch { requested_vcn: Vcn(vcn as i64), record_vcn: Vcn(index_record_vcn(s) as i64) })
            } else if record_size < INDEX_NODE_OFFSET {
                Err(NtfsError::BufferTooSmall { expected: INDEX_NODE_OFFSET, actual: record_size as usize })
            } else {
                match check_index_node(s, INDEX_NODE_OFFSET as int, record_size - INDEX_NODE_OFFSET, position) {
                    Err(e) => Err(e),
                    Ok(_) => Ok(s),
                }
            },
        }
    }
}

/// An index record of a directory whose header has been validated and whose update
/// sequence has been verified.
pub struct NtfsIndexRecord {
    pub data: Vec<u8>,
    pub position: u64,
}

impl NtfsIndexRecord {
    /// Validates the index record `data`, read at byte `position` of the volume for VCN
    /// `vcn`, on a volume with index records of `record_size` bytes and sectors of
    /// `sector_size` bytes, then verifies and repairs its update sequence.
    pub fn new(data: Vec<u8>, position: u64, sector_size: usize, record_size: u32, vcn: i64) -> (r: Result<NtfsIndexRecord, NtfsError>)
        requires
            sector_size >= 2,
            position + data@.len() <= u64::MAX,
        ensures
            match index_record_result(data@, position as int, sector_size as int, record_size as int, vcn as int) {
                Ok(s) => r matches Ok(x) && x.data@ == s && x.position == position,
                Err(e) => r matches Err(x) && x == e,
            },
    {
        let mut data = data;
        let len: usize = data.len();
        if len >= 4 {
            let actual: [u8; 4] = [data[0], data[1], data[2], data[3]];
            if actual[0] != INDEX_SIGNATURE[0] || actual[1] != INDEX_SIGNATURE[1] || actual[2] != INDEX_SIGNATURE[2]
                || actual[3] != INDEX_SIGNATURE[3] {
                proof {
                    assert(!(data@.subrange(0, 4) =~= INDEX_SIGNATURE@));
                }
                return Err(NtfsError::InvalidNtfsIndexSignature { position, expected: INDEX_SIGNATURE, actual });
            }
            proof {
                assert(data@.subrange(0, 4) =~= INDEX_SIGNATURE@);
            }
        }
        if len < INDEX_NODE_OFFSET {
            return Err(NtfsError::BufferTooSmall { expected: INDEX_NODE_OFFSET, actual: len });
        }
        fixup(&mut data, position, sector_size)?;
        proof {
            lemma_pow256_values();
            lemma_le_uint_bound(data@, 0x10, 8);
        }
        let record_vcn: i64 = sign_extend(read_le(data.as_slice(), 0x10, 8), 8);
        if record_vcn != vcn {
            return Err(NtfsError::VcnMismatch { requested_vcn: Vcn(vcn), record_vcn: Vcn(record_vcn) });
        }
        if record_size < INDEX_NODE_OFFSET as u32 {
            return Err(NtfsError::BufferTooSmall { expected: INDEX_NODE_OFFSET, actual: record_size as usize });
        }
        validate_index_node(data.as_slice(), INDEX_NODE_OFFSET, record_size - INDEX_NODE_OFFSET as u32, position)?;
        Ok(NtfsIndexRecord { data, position })
    }
}

/// Validates the node header of the value of an index root attribute, which lies at
/// byte `offset` of `data` and takes `length` bytes; `position` is the byte of the
/// volume where `data` starts.
pub fn validate_index_root(data: &[u8], offset: usize, length: usize, position: u64) -> (r: Result<(), NtfsError>)
    requires
        offset + length <= data@.len(),
        position + data@.len() <= u64::MAX,
        length <= u32::MAX,
    ensures
        length < INDEX_ROOT_NODE_OFFSET ==> r == Err::<(), NtfsError>(
            NtfsError::BufferTooSmall { expected: INDEX_ROOT_NODE_OFFSET, actual: length },
        ),
        length >= INDEX_ROOT_NODE_OFFSET ==> r == check_index_node(
            data@.subrange(offset as int, offset + length),
            INDEX_ROOT_NODE_OFFSET as int,
            length - INDEX_ROOT_NODE_OFFSET,
            position + offset,
        ),
{
    if length < INDEX_ROOT_NODE_OFFSET {
        return Err(NtfsError::BufferTooSmall { expected: INDEX_ROOT_NODE_OFFSET, actual: length });
    }
    let len: usize = data.len();
    proof {
        assert(offset + length <= len);
    }
    let value: &[u8] = vstd::slice::slice_subrange(data, offset, offset + length);
    validate_index_node(value, INDEX_ROOT_NODE_OFFSET, (length - INDEX_ROOT_NODE_OFFSET) as u32, position + offset as u64)
}

} // verus!
