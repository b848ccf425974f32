use vstd::prelude::*;
use vstd::slice::{slice_subrange, slice_to_vec};

use crate::attribute::{attribute_within, decode_attribute, decode_attribute_at, NtfsAttribute, NtfsAttributeType, NtfsAttributeValue};
use crate::cluster_map::{check_runs, runs_cover, NtfsClusterMap};
use crate::data_runs::decode_runs;
use crate::bytes::{le_uint, lemma_le_uint_bound, lemma_pow256_values, read_le};
use crate::error::NtfsError;
use crate::fixup::{fixup, fixup_result};

verus! {

/// Signature of a file record.
pub const FILE_SIGNATURE: [u8; 4] = [0x46, 0x49, 0x4c, 0x45];

/// Bytes of a file record header up to the offset of its first attribute.
pub const FILE_HEADER_SIZE: usize = 0x18;

/// Whether the first four bytes of `d` are `sig`.
pub open spec fn has_signature(d: Seq<u8>, sig: [u8; 4]) -> bool {
    d.len() >= 4 && d.subrange(0, 4) == sig@
}

/// The first four bytes of `d`.
pub open spec fn signature_of(d: Seq<u8>) -> [u8; 4] {
    [d[0], d[1], d[2], d[3]]
}

/// Offset of the first attribute, as the header of file record `d` declares it.
pub open spec fn first_attribute_offset(d: Seq<u8>) -> int {
    le_uint(d, 0x14, 2) as int
}

/// What reading the file record `d` (at byte `position` of the volume, with sectors of
/// `ss` bytes) yields: its verified and repaired bytes, or the first failure. The
/// signature is checked first, before anything else of the record is read.
pub open spec fn file_record_result(d: Seq<u8>, position: int, ss: int) -> Result<Seq<u8>, NtfsError> {
    if d.len() >= 4 && !has_signature(d, FILE_SIGNATURE) {
        Err(NtfsError::InvalidNtfsFileSignature { position: position as u64, expected: FILE_SIGNATURE, actual: signature_of(d) })
    } else if d.len() < FILE_HEADER_SIZE {
        Err(NtfsError::BufferTooSmall { expected: FILE_HEADER_SIZE, actual: d.len() as usize })
    } else {
        match fixup_result(d, position, ss) {
            Err(e) => Err(e),
            Ok(s) => if first_attribute_offset(s) > s.len() {
                Err(NtfsError::BufferTooSmall { expected: first_attribute_offset(s) as usize, actual: s.len() as usize })
            } else {
                Ok(s)
            },
        }
    }
}

/// Looks for the first attribute of type `ty` in record `d` from byte `off` on.
pub open spec fn find_from(d: Seq<u8>, off: int, position: int, ty: NtfsAttributeType) -> Result<NtfsAttribute, NtfsError>
    decreases d.len() - off,
{
    match decode_attribute(d, off, position) {
        Err(e) => Err(e),
        Ok(None) => Err(NtfsError::AttributeNotFound { position: position as u64, ty }),
        Ok(Some(a)) => if a.ty == ty {
            Ok(a)
        } else if a.length < 1 || off < 0 || off + a.length > d.len() {
            // Never taken: a decoded attribute is non-empty and lies within the record.
            Err(NtfsError::AttributeNotFound { position: position as u64, ty })
        } else {
            find_from(d, off + a.length, position, ty)
        },
    }
}

/// The attributes of record `d` from byte `off` on, up to the end marker.
pub open spec fn attributes_from(d: Seq<u8>, off: int, position: int) -> Result<Seq<NtfsAttribute>, NtfsError>
    decreases d.len() - off,
{
    match decode_attribute(d, off, position) {
        Err(e) => Err(e),
        Ok(None) => Ok(Seq::empty()),
        Ok(Some(a)) => if a.length < 1 || off < 0 || off + a.length > d.len() {
            // Never taken: a decoded attribute is non-empty and lies within the record.
            Ok(Seq::empty())
        } else {
            match attributes_from(d, off + a.length, position) {
                Err(e) => Err(e),
                Ok(rest) => Ok(seq![a].add(rest)),
            }
        },
    }
}

/// Size of the structured value of each attribute type that has one.
pub open spec fn structured_size(ty: NtfsAttributeType) -> Option<u64> {
    match ty {
        NtfsAttributeType::StandardInformation => Some(72),
        NtfsAttributeType::VolumeInformation => Some(12),
        _ => None,
    }
}

/// Size of the structured value of attributes of type `ty`, if they have one.
pub fn structured_value_size(ty: NtfsAttributeType) -> (r: Option<u64>)
    ensures
        r == structured_size(ty),
{
    match ty {
        NtfsAttributeType::StandardInformation => Some(72),
        NtfsAttributeType::VolumeInformation => Some(12),
        _ => None,
    }
}

/// The value of `attr` in record `d` (read at byte `position` of the volume) as a
/// structured value of `expected` bytes: it must be resident and exactly that long.
pub open spec fn sized_value(d: Seq<u8>, position: int, attr: NtfsAttribute, expected: u64) -> Result<Seq<u8>, NtfsError> {
    match attr.value {
        NtfsAttributeValue::NonResident { .. } => Err(
            NtfsError::UnsupportedStructuredValue { position: (position + attr.offset) as u64, ty: attr.ty },
        ),
        NtfsAttributeValue::Resident { offset, length } => if length != expected {
            Err(
                NtfsError::InvalidStructuredValueSize {
                    position: (position + offset) as u64,
                    ty: attr.ty,
                    expected,
                    actual: length as u64,
                },
            )
        } else {
            Ok(d.subrange(offset as int, offset + length))
        },
    }
}

/// The structured value of `attr` in record `d`, for the types that have one.
pub open spec fn structured(d: Seq<u8>, position: int, attr: NtfsAttribute) -> Result<Seq<u8>, NtfsError> {
    match structured_size(attr.ty) {
        None => Err(NtfsError::UnsupportedStructuredValue { position: (position + attr.offset) as u64, ty: attr.ty }),
        Some(n) => sized_value(d, position, attr, n),
    }
}

/// A file record whose signature and update sequence have been verified.
pub struct NtfsFile {
    pub data: Vec<u8>,
    pub position: u64,
}

impl NtfsFile {
    pub open spec fn wf(&self) -> bool {
        &&& self.data@.len() >= FILE_HEADER_SIZE
        &&& first_attribute_offset(self.data@) <= self.data@.len()
        &&& self.position + self.data@.len() <= u64::MAX
    }

    /// Whether `attr` lies within this record.
    pub open spec fn holds(&self, attr: NtfsAttribute) -> bool {
        attribute_within(attr, self.data@.len() as int)
    }

    /// Checks the signature of the file record `data`, read at byte `position` of the
    /// volume, then verifies and repairs its update sequence.
    pub fn new(data: Vec<u8>, position: u64, sector_size: usize) -> (r: Result<NtfsFile, NtfsError>)
        requires
            sector_size >= 2,
            position + data@.len() <= u64::MAX,
        ensures
            match file_record_result(data@, position as int, sector_size as int) {
                Ok(s) => r matches Ok(f) && f.data@ == s && f.position == position && f.wf(),
                Err(e) => r matches Err(x) && x == e,
            },
    {
        let mut data = data;
        let len: usize = data.len();
        if len >= 4 {
            let actual: [u8; 4] = [data[0], data[1], data[2], data[3]];
            if actual[0] != FILE_SIGNATURE[0] || actual[1] != FILE_SIGNATURE[1] || actual[2] != FILE_SIGNATURE[2]
                || actual[3] != FILE_SIGNATURE[3] {
                proof {
                    assert(!(data@.subrange(0, 4) =~= FILE_SIGNATURE@));
                }
                return Err(NtfsError::InvalidNtfsFileSignature { position, expected: FILE_SIGNATURE, actual });
            }
            proof {
                assert(data@.subrange(0, 4) =~= FILE_SIGNATURE@);
            }
        }
        if len < FILE_HEADER_SIZE {
            return Err(NtfsError::BufferTooSmall { expected: FILE_HEADER_SIZE, actual: len });
        }
        fixup(&mut data, position, sector_size)?;
        proof {
            lemma_pow256_values();
            lemma_le_uint_bound(data@, 0x14, 2);
        }
        let first: usize = read_le(data.as_slice(), 0x14, 2) as usize;
        if first > data.len() {
            return Err(NtfsError::BufferTooSmall { expected: first, actual: data.len() });
        }
        Ok(NtfsFile { data, position })
    }

    /// Offset of the first attribute of the record.
    pub fn first_attribute(&self) -> (r: usize)
        requires
            self.wf(),
        ensures
            r == first_attribute_offset(self.data@),
    {
        proof {
            lemma_pow256_values();
            lemma_le_uint_bound(self.data@, 0x14, 2);
        }
        read_le(self.data.as_slice(), 0x14, 2) as usize
    }

    /// The first attribute of type `ty`.
    pub fn find_attribute(&self, ty: NtfsAttributeType) -> (r: Result<NtfsAttribute, NtfsError>)
        requires
            self.wf(),
        ensures
            r == find_from(self.data@, first_attribute_offset(self.data@), self.position as int, ty),
            r matches Ok(a) ==> self.holds(a),
    {
        let data: &[u8] = self.data.as_slice();
        let len: usize = data.len();
        let mut offset: usize = self.first_attribute();
        loop
            invariant
                self.wf(),
                data@ == self.data@,
                len == data@.len(),
                offset <= data@.len(),
                find_from(data@, offset as int, self.position as int, ty)
                    == find_from(self.data@, first_attribute_offset(self.data@), self.position as int, ty),
            decreases data@.len() - offset,
        {
            match decode_attribute_at(data, offset, self.position) {
                Err(e) => {
                    return Err(e);
                },
                Ok(None) => {
                    return Err(NtfsError::AttributeNotFound { position: self.position, ty });
                },
                Ok(Some(a)) => {
                    if a.ty == ty {
                        return Ok(a);
                    }
                    offset = offset + a.length;
                },
            }
        }
    }

    /// All attributes of the record, in their order, up to the end marker.
    pub fn attributes(&self) -> (r: Result<Vec<NtfsAttribute>, NtfsError>)
        requires
            self.wf(),
        ensures
            match attributes_from(self.data@, first_attribute_offset(self.data@), self.position as int) {
                Ok(s) => r matches Ok(v) && v@ == s,
                Err(e) => r matches Err(x) && x == e,
            },
    {
        let data: &[u8] = self.data.as_slice();
        let ghost whole = attributes_from(self.data@, first_attribute_offset(self.data@), self.position as int);
        let len: usize = data.len();
        let mut found: Vec<NtfsAttribute> = Vec::new();
        let mut offset: usize = self.first_attribute();
        proof {
            if let Ok(rest) = whole {
                assert(found@.add(rest) =~= rest);
            }
        }
        loop
            invariant
                self.wf(),
                data@ == self.data@,
                len == data@.len(),
                offset <= data@.len(),
                whole == attributes_from(self.data@, first_attribute_offset(self.data@), self.position as int),
                match attributes_from(data@, offset as int, self.position as int) {
                    Ok(rest) => whole == Ok::<Seq<NtfsAttribute>, NtfsError>(found@.add(rest)),
                    Err(e) => whole == Err::<Seq<NtfsAttribute>, NtfsError>(e),
                },
            decreases data@.len() - offset,
        {
            match decode_attribute_at(data, offset, self.position) {
                Err(e) => {
                    return Err(e);
                },
                Ok(None) => {
                    assert(found@.add(Seq::<NtfsAttribute>::empty()) =~= found@);
                    return Ok(found);
                },
                Ok(Some(a)) => {
                    proof {
                        if let Ok(rs) = attributes_from(data@, offset + a.length, self.position as int) {
                            assert(found@.push(a).add(rs) =~= found@.add(seq![a].add(rs)));
                        }
                    }
                    found.push(a);
                    offset = offset + a.length;
                },
            }
        }
    }

    /// The bytes of the value of `attr`, read as a structured value of `expected` bytes.
    pub fn value_of_size(&self, attr: &NtfsAttribute, expected: u64) -> (r: Result<Vec<u8>, NtfsError>)
        requires
            self.wf(),
            self.holds(*attr),
        ensures
            match sized_value(self.data@, self.position as int, *attr, expected) {
                Ok(s) => r matches Ok(v) && v@ == s,
                Err(e) => r matches Err(x) && x == e,
            },
    {
        match attr.value {
            NtfsAttributeValue::NonResident { .. } => {
                Err(NtfsError::UnsupportedStructuredValue { position: self.position + attr.offset as u64, ty: attr.ty })
            },
            NtfsAttributeValue::Resident { offset, length } => {
                if length as u64 != expected {
                    return Err(
                        NtfsError::InvalidStructuredValueSize {
                            position: self.position + offset as u64,
                            ty: attr.ty,
                            expected,
                            actual: length as u64,
                        },
                    );
                }
                let data: &[u8] = self.data.as_slice();
                let len: usize = data.len();
                proof {
                    assert(offset + length <= len);
                }
                Ok(slice_to_vec(slice_subrange(data, offset, offset + length)))
            },
        }
    }

    /// The bytes of the structured value of `attr`, for the attribute types that have one.
    pub fn structured_value(&self, attr: &NtfsAttribute) -> (r: Result<Vec<u8>, NtfsError>)
        requires
            self.wf(),
            self.holds(*attr),
        ensures
            match structured(self.data@, self.position as int, *attr) {
                Ok(s) => r matches Ok(v) && v@ == s,
                Err(e) => r matches Err(x) && x == e,
            },
    {
        match structured_value_size(attr.ty) {
            None => Err(NtfsError::UnsupportedStructuredValue { position: self.position + attr.offset as u64, ty: attr.ty }),
            Some(n) => self.value_of_size(attr, n),
        }
    }

    /// The cluster map of the non-resident attribute `attr` on a volume of
    /// `total_clusters` clusters; `None` for a resident one.
    pub fn cluster_map(&self, attr: &NtfsAttribute, total_clusters: u64) -> (r: Option<Result<NtfsClusterMap, NtfsError>>)
        requires
            self.wf(),
            self.holds(*attr),
        ensures
            match attr.value {
                NtfsAttributeValue::Resident { .. } => r is None,
                NtfsAttributeValue::NonResident { start_vcn, last_vcn, runs_offset, runs_end, .. } => {
                    let runs = self.data@.subrange(runs_offset as int, runs_end as int);
                    match decode_runs(runs, self.position + runs_offset, total_clusters as int, 0, start_vcn as int, 0) {
                        Err(e) => r matches Some(Err(x)) && x == e,
                        Ok(s) => r matches Some(m) && (m is Ok <==> runs_cover(s, start_vcn as int, last_vcn as int))
                            && (m matches Ok(map) ==> map.wf() && map.runs@ == s && map.start_vcn == start_vcn
                            && map.last_vcn == last_vcn)
                            && (check_runs(s, start_vcn as int, last_vcn as int) matches Err(e) ==> m matches Err(x) && x == e),
                    }
                },
            },
    {
        match attr.value {
            NtfsAttributeValue::Resident { .. } => None,
            NtfsAttributeValue::NonResident { start_vcn, last_vcn, runs_offset, runs_end, .. } => {
                let runs: &[u8] = slice_subrange(self.data.as_slice(), runs_offset, runs_end);
                Some(NtfsClusterMap::decode(runs, self.position + runs_offset as u64, start_vcn, last_vcn, total_clusters))
            },
        }
    }
}

/// A record whose first four bytes are not the file record signature is refused with
/// the signature error, before its update sequence or any attribute is read, and an
/// index record without the index record signature likewise.
pub proof fn lemma_bad_signature_refused(d: Seq<u8>, position: int, ss: int, record_size: int, vcn: int)
    requires
        d.len() >= 4,
    ensures
        !has_signature(d, FILE_SIGNATURE) ==> file_record_result(d, position, ss) == Err::<Seq<u8>, NtfsError>(
            NtfsError::InvalidNtfsFileSignature { position: position as u64, expected: FILE_SIGNATURE, actual: signature_of(d) },
        ),
        !has_signature(d, crate::index_record::INDEX_SIGNATURE) ==> crate::index_record::index_record_result(
            d,
            position,
            ss,
            record_size,
            vcn,
        ) == Err::<Seq<u8>, NtfsError>(
            NtfsError::InvalidNtfsIndexSignature {
                position: position as u64,
                expected: crate::index_record::INDEX_SIGNATURE,
                actual: signature_of(d),
            },
        ),
{
}

} // verus!
