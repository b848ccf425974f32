use vstd::prelude::*;

use crate::bytes::{le_uint, lemma_le_uint_bound, lemma_pow256_values, read_le, sign_extend, sign_extended};
use crate::error::NtfsError;
use crate::types::Vcn;

verus! {

/// Type codes of the attributes that a file record can hold.
#[derive(Clone, Copy, Debug, PartialEq, Eq, Structural)]
pub enum NtfsAttributeType {
    StandardInformation,
    AttributeList,
    FileName,
    ObjectId,
    SecurityDescriptor,
    VolumeName,
    VolumeInformation,
    Data,
    IndexRoot,
    IndexAllocation,
    Bitmap,
    ReparsePoint,
    EAInformation,
    EA,
    PropertySet,
    LoggedUtilityStream,
    End,
}

/// Type code that ends the attribute list of a file record.
pub const END_CODE: u32 = 0xffff_ffff;

/// The attribute type of the on-disk type code `code`, if it is a known one.
pub open spec fn type_of_code(code: u32) -> Option<NtfsAttributeType> {
    if code == 0x10 {
        Some(NtfsAttributeType::StandardInformation)
    } else if code == 0x20 {
        Some(NtfsAttributeType::AttributeList)
    } else if code == 0x30 {
        Some(NtfsAttributeType::FileName)
    } else if code == 0x40 {
        Some(NtfsAttributeType::ObjectId)
    } else if code == 0x50 {
        Some(NtfsAttributeType::SecurityDescriptor)
    } else if code == 0x60 {
        Some(NtfsAttributeType::VolumeName)
    } else if code == 0x70 {
        Some(NtfsAttributeType::VolumeInformation)
    } else if code == 0x80 {
        Some(NtfsAttributeType::Data)
    } else if code == 0x90 {
        Some(NtfsAttributeType::IndexRoot)
    } else if code == 0xa0 {
        Some(NtfsAttributeType::IndexAllocation)
    } else if code == 0xb0 {
        Some(NtfsAttributeType::Bitmap)
    } else if code == 0xc0 {
        Some(NtfsAttributeType::ReparsePoint)
    } else if code == 0xd0 {
        Some(NtfsAttributeType::EAInformation)
    } else if code == 0xe0 {
        Some(NtfsAttributeType::EA)
    } else if code == 0xf0 {
        Some(NtfsAttributeType::PropertySet)
    } else if code == 0x100 {
        Some(NtfsAttributeType::LoggedUtilityStream)
    } else if code == END_CODE {
        Some(NtfsAttributeType::End)
    } else {
        None
    }
}

impl NtfsAttributeType {
    /// The attribute type of the on-disk type code `code`, if it is a known one.
    pub fn from_code(code: u32) -> (r: Option<NtfsAttributeType>)
        ensures
            r == type_of_code(code),
    {
        if code == 0x10 {
            Some(NtfsAttributeType::StandardInformation)
        } else if code == 0x20 {
            Some(NtfsAttributeType::AttributeList)
        } else if code == 0x30 {
            Some(NtfsAttributeType::FileName)
        } else if code == 0x40 {
            Some(NtfsAttributeType::ObjectId)
        } else if code == 0x50 {
            Some(NtfsAttributeType::SecurityDescriptor)
        } else if code == 0x60 {
            Some(NtfsAttributeType::VolumeName)
        } else if code == 0x70 {
            Some(NtfsAttributeType::VolumeInformation)
        } else if code == 0x80 {
            Some(NtfsAttributeType::Data)
        } else if code == 0x90 {
            Some(NtfsAttributeType::IndexRoot)
        } else if code == 0xa0 {
            Some(NtfsAttributeType::IndexAllocation)
        } else if code == 0xb0 {
            Some(NtfsAttributeType::Bitmap)
        } else if code == 0xc0 {
            Some(NtfsAttributeType::ReparsePoint)
        } else if code == 0xd0 {
            Some(NtfsAttributeType::EAInformation)
        } else if code == 0xe0 {
            Some(NtfsAttributeType::EA)
        } else if code == 0xf0 {
            Some(NtfsAttributeType::PropertySet)
        } else if code == 0x100 {
            Some(NtfsAttributeType::LoggedUtilityStream)
        } else if code == END_CODE {
            Some(NtfsAttributeType::End)
        } else {
            None
        }
    }
}

/// Where the value of an attribute lies.
#[derive(Clone, Copy, Debug, PartialEq, Eq, Structural)]
pub enum NtfsAttributeValue {
    /// Inline in the record, at byte `offset` of the record, `length` bytes long.
    Resident { offset: usize, length: usize },
    /// Out of line, in clusters that the run list at byte `runs_offset` of the record
    /// describes, up to byte `runs_end`.
    NonResident {
        start_vcn: i64,
        last_vcn: i64,
        runs_offset: usize,
        runs_end: usize,
        allocated_size: u64,
        data_size: u64,
        initialized_size: u64,
    },
}

/// An attribute of a file record: its type, the byte range of the record that it
/// takes, and where its value lies.
#[derive(Clone, Copy, Debug, PartialEq, Eq, Structural)]
pub struct NtfsAttribute {
    pub ty: NtfsAttributeType,
    pub offset: usize,
    pub length: usize,
    pub value: NtfsAttributeValue,
}

/// Whether the attribute `a` and its value lie within a record of `len` bytes.
pub open spec fn attribute_within(a: NtfsAttribute, len: int) -> bool {
    &&& a.offset + a.length <= len
    &&& match a.value {
        NtfsAttributeValue::Resident { offset, length } => offset + length <= len,
        NtfsAttributeValue::NonResident { start_vcn, last_vcn, runs_offset, runs_end, .. } => {
            &&& runs_offset <= runs_end <= len
            &&& 0 <= start_vcn <= last_vcn
        },
    }
}

/// Bytes of an attribute header up to the end of its length field.
pub const LENGTH_FIELD_END: usize = 8;

/// Bytes of the header part that all attributes share.
pub const COMMON_HEADER_SIZE: usize = 16;
/// Bytes of the header of a resident attribute.
pub const RESIDENT_HEADER_SIZE: usize = 0x18;
/// Bytes of the header of a non-resident attribute.
pub const NON_RESIDENT_HEADER_SIZE: usize = 0x40;

/// Decodes the attribute header at byte `off` of the record `d`, which was read at
/// byte `position` of the volume. `Ok(None)` is the end marker of the list.
pub open spec fn decode_attribute(d: Seq<u8>, off: int, position: int) -> Result<Option<NtfsAttribute>, NtfsError> {
    let rem = d.len() - off;
    let code = le_uint(d, off, 4) as u32;
    let length = le_uint(d, off + 4, 4) as int;
    if rem < 4 {
        Err(NtfsError::BufferTooSmall { expected: 4, actual: rem as usize })
    } else if code == END_CODE {
        Ok(None)
    } else if rem < LENGTH_FIELD_END {
        Err(NtfsError::BufferTooSmall { expected: COMMON_HEADER_SIZE, actual: rem as usize })
    } else if length > rem {
        Err(NtfsError::BufferTooSmall { expected: length as usize, actual: rem as usize })
    } else if length < COMMON_HEADER_SIZE {
        Err(NtfsError::BufferTooSmall { expected: COMMON_HEADER_SIZE, actual: length as usize })
    } else if type_of_code(code) is None {
        Err(NtfsError::UnsupportedNtfsAttributeType { position: (position + off) as u64, actual: code })
    } else if d[off + 8] == 0 {
        let vlen = le_uint(d, off + 0x10, 4) as int;
        let voff = le_uint(d, off + 0x14, 2) as int;
        if length < RESIDENT_HEADER_SIZE {
            Err(NtfsError::BufferTooSmall { expected: RESIDENT_HEADER_SIZE, actual: length as usize })
        } else if voff + vlen > length {
            Err(NtfsError::BufferTooSmall { expected: (voff + vlen) as usize, actual: length as usize })
        } else {
            Ok(Some(NtfsAttribute {
                ty: type_of_code(code)->Some_0,
                offset: off as usize,
                length: length as usize,
                value: NtfsAttributeValue::Resident { offset: (off + voff) as usize, length: vlen as usize },
            }))
        }
    } else {
        let start = sign_extended(le_uint(d, off + 0x10, 8) as int, 8);
        let last = sign_extended(le_uint(d, off + 0x18, 8) as int, 8);
        let roff = le_uint(d, off + 0x20, 2) as int;
        if length < NON_RESIDENT_HEADER_SIZE {
            Err(NtfsError::BufferTooSmall { expected: NON_RESIDENT_HEADER_SIZE, actual: length as usize })
        } else if start < 0 || start > last {
            Err(NtfsError::VcnTooBig { vcn: Vcn(start as i64) })
        } else if roff > length {
            Err(NtfsError::BufferTooSmall { expected: roff as usize, actual: length as usize })
        } else {
            Ok(Some(NtfsAttribute {
                ty: type_of_code(code)->Some_0,
                offset: off as usize,
                length: length as usize,
                value: NtfsAttributeValue::NonResident {
                    start_vcn: start as i64,
                    last_vcn: last as i64,
                    runs_offset: (off + roff) as usize,
                    runs_end: (off + length) as usize,
                    allocated_size: le_uint(d, off + 0x28, 8) as u64,
                    data_size: le_uint(d, off + 0x30, 8) as u64,
                    initialized_size: le_uint(d, off + 0x38, 8) as u64,
                },
            }))
        }
    }
}

/// Decodes the attribute header at byte `offset` of `record`, which was read at byte
/// `position` of the volume; `Ok(None)` at the end marker of the list.
pub fn decode_attribute_at(record: &[u8], offset: usize, position: u64) -> (r: Result<Option<NtfsAttribute>, NtfsError>)
    requires
        offset <= record@.len(),
        position + record@.len() <= u64::MAX,
    ensures
        r == decode_attribute(record@, offset as int, position as int),
        r matches Ok(Some(a)) ==> a.offset == offset && a.length >= RESIDENT_HEADER_SIZE
            && attribute_within(a, record@.len() as int),
{
    proof {
        lemma_pow256_values();
    }
    let rem: usize = record.len() - offset;
    if rem < 4 {
        return Err(NtfsError::BufferTooSmall { expected: 4, actual: rem });
    }
    proof {
        lemma_le_uint_bound(record@, offset as int, 4);
    }
    let code: u32 = read_le(record, offset, 4) as u32;
    if code == END_CODE {
        return Ok(None);
    }
    if rem < LENGTH_FIELD_END {
        return Err(NtfsError::BufferTooSmall { expected: COMMON_HEADER_SIZE, actual: rem });
    }
    proof {
        lemma_le_uint_bound(record@, offset + 4, 4);
    }
    let length: usize = read_le(record, offset + 4, 4) as usize;
    if length > rem {
        return Err(NtfsError::BufferTooSmall { expected: length, actual: rem });
    }
    if length < COMMON_HEADER_SIZE {
        return Err(NtfsError::BufferTooSmall { expected: COMMON_HEADER_SIZE, actual: length });
    }
    let ty: NtfsAttributeType = match NtfsAttributeType::from_code(code) {
        Some(t) => t,
        None => {
            return Err(NtfsError::UnsupportedNtfsAttributeType { position: position + offset as u64, actual: code });
        },
    };
    if record[offset + 8] == 0 {
        if length < RESIDENT_HEADER_SIZE {
            return Err(NtfsError::BufferTooSmall { expected: RESIDENT_HEADER_SIZE, actual: length });
        }
        proof {
            lemma_le_uint_bound(record@, offset + 0x10, 4);
            lemma_le_uint_bound(record@, offset + 0x14, 2);
        }
        let vlen: usize = read_le(record, offset + 0x10, 4) as usize;
        let voff: usize = read_le(record, offset + 0x14, 2) as usize;
        let needed: u64 = voff as u64 + vlen as u64;
        if needed > length as u64 {
            return Err(NtfsError::BufferTooSmall { expected: needed as usize, actual: length });
        }
        Ok(Some(NtfsAttribute {
            ty,
            offset,
            length,
            value: NtfsAttributeValue::Resident { offset: offset + voff, length: vlen },
        }))
    } else {
        if length < NON_RESIDENT_HEADER_SIZE {
            return Err(NtfsError::BufferTooSmall { expected: NON_RESIDENT_HEADER_SIZE, actual: length });
        }
        proof {
            lemma_le_uint_bound(record@, offset + 0x10, 8);
            lemma_le_uint_bound(record@, offset + 0x18, 8);
            lemma_le_uint_bound(record@, offset + 0x20, 2);
        }
        let start: i64 = sign_extend(read_le(record, offset + 0x10, 8), 8);
        let last: i64 = sign_extend(read_le(record, offset + 0x18, 8), 8);
        if start < 0 || start > last {
            return Err(NtfsError::VcnTooBig { vcn: Vcn(start) });
        }
        let roff: usize = read_le(record, offset + 0x20, 2) as usize;
        if roff > length {
            return Err(NtfsError::BufferTooSmall { expected: roff, actual: length });
        }
        Ok(Some(NtfsAttribute {
            ty,
            offset,
            length,
            value: NtfsAttributeValue::NonResident {
                start_vcn: start,
                last_vcn: last,
                runs_offset: offset + roff,
                runs_end: offset + length,
                allocated_size: read_le(record, offset + 0x28, 8),
                data_size: read_le(record, offset + 0x30, 8),
                initialized_size: read_le(record, offset + 0x38, 8),
            },
        }))
    }
}

} // verus!
