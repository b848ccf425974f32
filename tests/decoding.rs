use ntfs::attribute::{decode_attribute_at, NtfsAttributeType, NtfsAttributeValue};
use ntfs::bytes::{read_le, sign_extend};
use ntfs::cluster_map::{NtfsClusterMap, NtfsClusterMapping};
use ntfs::data_runs::{decode_data_runs, decode_run_at, NtfsDataRun, NtfsDataRuns};
use ntfs::error::NtfsError;
use ntfs::fixup::fixup;
use ntfs::index_record::{validate_index_node, validate_index_root, NtfsIndexRecord};
use ntfs::record::{structured_value_size, NtfsFile};
use ntfs::types::{Lcn, Vcn};

const SECTOR: usize = 512;
const RECORD: usize = 1024;
const USA: usize = 0x30;
const FIRST_ATTRIBUTE: usize = 0x38;

fn put_u16(b: &mut [u8], at: usize, v: u16) {
    b[at..at + 2].copy_from_slice(&v.to_le_bytes());
}

fn put_u32(b: &mut [u8], at: usize, v: u32) {
    b[at..at + 4].copy_from_slice(&v.to_le_bytes());
}

fn put_u64(b: &mut [u8], at: usize, v: u64) {
    b[at..at + 8].copy_from_slice(&v.to_le_bytes());
}

/// An unprotected record of two sectors whose update sequence array already holds
/// the last two bytes of each sector.
fn plain_record(signature: &[u8; 4]) -> Vec<u8> {
    let mut b = vec![0u8; RECORD];
    b[0..4].copy_from_slice(signature);
    put_u16(&mut b, 4, USA as u16);
    put_u16(&mut b, 6, 3);
    put_u16(&mut b, 0x14, FIRST_ATTRIBUTE as u16);
    put_u16(&mut b, USA, 0x0102);
    b[SECTOR - 2] = 0xaa;
    b[SECTOR - 1] = 0xbb;
    b[RECORD - 2] = 0xcc;
    b[RECORD - 1] = 0xdd;
    save_tails(&mut b);
    b
}

fn save_tails(b: &mut [u8]) {
    for k in 0..b.len() / SECTOR {
        let t = k * SECTOR + SECTOR - 2;
        b[USA + 2 + 2 * k] = b[t];
        b[USA + 3 + 2 * k] = b[t + 1];
    }
}

fn protect(b: &[u8]) -> Vec<u8> {
    let mut p = b.to_vec();
    for k in 0..p.len() / SECTOR {
        let t = k * SECTOR + SECTOR - 2;
        p[t] = b[USA];
        p[t + 1] = b[USA + 1];
    }
    p
}

fn resident(b: &mut [u8], at: usize, code: u32, value: &[u8]) -> usize {
    let length = (0x18 + value.len() + 7) / 8 * 8;
    put_u32(b, at, code);
    put_u32(b, at + 4, length as u32);
    b[at + 8] = 0;
    put_u32(b, at + 0x10, value.len() as u32);
    put_u16(b, at + 0x14, 0x18);
    b[at + 0x18..at + 0x18 + value.len()].copy_from_slice(value);
    at + length
}

const RUNS: [u8; 9] = [0x11, 0x10, 0x64, 0x01, 0x08, 0x11, 0x04, 0xce, 0x00];

fn non_resident(b: &mut [u8], at: usize, code: u32, start: i64, last: i64, runs: &[u8]) -> usize {
    let length = (0x40 + runs.len() + 7) / 8 * 8;
    put_u32(b, at, code);
    put_u32(b, at + 4, length as u32);
    b[at + 8] = 1;
    put_u64(b, at + 0x10, start as u64);
    put_u64(b, at + 0x18, last as u64);
    put_u16(b, at + 0x20, 0x40);
    put_u64(b, at + 0x28, 28 * 4096);
    put_u64(b, at + 0x30, 27 * 4096 + 100);
    put_u64(b, at + 0x38, 27 * 4096 + 100);
    b[at + 0x40..at + 0x40 + runs.len()].copy_from_slice(runs);
    at + length
}

fn end_marker(b: &mut [u8], at: usize) {
    put_u32(b, at, 0xffff_ffff);
}

fn sample_file() -> Vec<u8> {
    let mut b = plain_record(b"FILE");
    let mut at = resident(&mut b, FIRST_ATTRIBUTE, 0x10, &[7u8; 72]);
    at = resident(&mut b, at, 0x30, &[1, 2, 3, 4, 5, 6]);
    at = non_resident(&mut b, at, 0x80, 0, 27, &RUNS);
    end_marker(&mut b, at);
    save_tails(&mut b);
    protect(&b)
}

#[test]
fn fixup_restores_protected_record() {
    let plain = plain_record(b"FILE");
    let mut data = protect(&plain);
    assert_ne!(data, plain);
    assert_eq!(data[SECTOR - 2], 0x02);
    assert!(fixup(&mut data, 0x4000, SECTOR).is_ok());
    assert_eq!(data, plain);
}

#[test]
fn fixup_detects_corrupted_sector() {
    let plain = plain_record(b"FILE");
    let protected = protect(&plain);
    for (k, byte) in [(0usize, 0usize), (0, 1), (1, 0), (1, 1)] {
        let mut data = protected.clone();
        let at = k * SECTOR + SECTOR - 2 + byte;
        data[at] ^= 0xff;
        let before = data.clone();
        match fixup(&mut data, 0x4000, SECTOR) {
            Err(NtfsError::InvalidTwoByteSignature { position, expected, actual }) => {
                assert_eq!(position, 0x4000 + (k * SECTOR + SECTOR - 2) as u64);
                assert_eq!(expected, [0x02, 0x01]);
                assert_eq!(actual, [before[at - byte], before[at - byte + 1]]);
            }
            other => panic!("unexpected {:?}", other),
        }
        assert_eq!(data, before);
    }
}

#[test]
fn fixup_needs_an_entry_per_sector() {
    let mut data = protect(&plain_record(b"FILE"));
    put_u16(&mut data, 6, 2);
    assert!(matches!(
        fixup(&mut data, 0, SECTOR),
        Err(NtfsError::BufferTooSmall { expected: 6, actual: 4 })
    ));
    let mut short = vec![0u8; 4];
    assert!(matches!(fixup(&mut short, 0, SECTOR), Err(NtfsError::BufferTooSmall { expected: 8, actual: 4 })));
}

#[test]
fn scenario_run_list_resolution() {
    let runs = decode_data_runs(&RUNS, 0, 0, 1000).unwrap();
    assert_eq!(
        runs,
        vec![
            NtfsDataRun { vcn: Vcn(0), cluster_count: 16, lcn: Some(Lcn(100)) },
            NtfsDataRun { vcn: Vcn(16), cluster_count: 8, lcn: None },
            NtfsDataRun { vcn: Vcn(24), cluster_count: 4, lcn: Some(Lcn(50)) },
        ]
    );
    let mut map = NtfsClusterMap::new(runs, 0, 27).unwrap();
    assert_eq!(map.last_vcn, 27);
    assert_eq!(map.resolve(0), NtfsClusterMapping::Allocated { lcn: Lcn(100), remaining: 16 });
    assert_eq!(map.resolve(16), NtfsClusterMapping::Sparse { remaining: 8 });
    assert_eq!(map.resolve(24), NtfsClusterMapping::Allocated { lcn: Lcn(50), remaining: 4 });
    assert_eq!(map.resolve(27), NtfsClusterMapping::Allocated { lcn: Lcn(53), remaining: 1 });
    assert_eq!(map.resolve(3), NtfsClusterMapping::Allocated { lcn: Lcn(103), remaining: 13 });
}

#[test]
fn cluster_map_round_trip_by_merging() {
    let runs = decode_data_runs(&RUNS, 0, 0, 1000).unwrap();
    let total: u64 = runs.iter().map(|r| r.cluster_count).sum();
    assert_eq!(total, 27 - 0 + 1);
    let mut map = NtfsClusterMap::new(runs.clone(), 0, 27).unwrap();
    let mut rebuilt: Vec<NtfsDataRun> = Vec::new();
    for v in 0..=27i64 {
        let lcn = match map.resolve(v) {
            NtfsClusterMapping::Allocated { lcn, .. } => Some(lcn),
            NtfsClusterMapping::Sparse { .. } => None,
        };
        if let Some(last) = rebuilt.last_mut() {
            let next = last.lcn.map(|l| Lcn(l.0 + last.cluster_count));
            if (last.lcn.is_none() && lcn.is_none()) || (lcn.is_some() && next == lcn) {
                last.cluster_count += 1;
                continue;
            }
        }
        rebuilt.push(NtfsDataRun { vcn: Vcn(v), cluster_count: 1, lcn });
    }
    assert_eq!(rebuilt, runs);
}

#[test]
fn sparse_run_leaves_lcn_unchanged() {
    let step = decode_run_at(&RUNS, 0, 1000, 3, 16, 100).unwrap().unwrap();
    assert_eq!(step, (NtfsDataRun { vcn: Vcn(16), cluster_count: 8, lcn: None }, 5, 24, 100));
    let data = [0x01, 0x05, 0x11, 0x02, 0x03, 0x00];
    let runs = decode_data_runs(&data, 0, 0, 1000).unwrap();
    assert_eq!(runs[1].lcn, Some(Lcn(3)));
}

#[test]
fn wide_run_fields_are_refused() {
    for (header, actual) in [(0x09u8, 9u8), (0x0f, 15), (0x91, 9), (0xf1, 15)] {
        let data = [0x11, 0x01, 0x01, header, 0, 0, 0];
        match decode_data_runs(&data, 0x100, 0, 1000) {
            Err(NtfsError::InvalidByteCountInDataRunHeader { position, expected, actual: a }) => {
                assert_eq!(position, 0x103);
                assert_eq!(expected, 8);
                assert_eq!(a, actual);
            }
            other => panic!("unexpected {:?}", other),
        }
    }
}

#[test]
fn run_list_errors() {
    assert!(matches!(
        decode_data_runs(&[0x11, 0x01, 0xff, 0x00], 0, 0, 1000),
        Err(NtfsError::InvalidVcnInDataRunHeader { position: 0, vcn: Vcn(-1), previous_lcn: Lcn(0) })
    ));
    assert!(matches!(
        decode_data_runs(&[0x11, 0x10, 0x64, 0x00], 0, 0, 110),
        Err(NtfsError::LcnTooBig { lcn: Lcn(100) })
    ));
    let huge = [0x08, 0xff, 0xff, 0xff, 0xff, 0xff, 0xff, 0xff, 0x7f, 0x01, 0x01, 0x00];
    assert!(matches!(decode_data_runs(&huge, 0, 0, 1000), Err(NtfsError::VcnTooBig { vcn: Vcn(0x7fff_ffff_ffff_ffff) })));
    assert!(matches!(
        decode_data_runs(&[0x21, 0x01, 0x05], 0, 0, 1000),
        Err(NtfsError::BufferTooSmall { expected: 4, actual: 3 })
    ));
    assert_eq!(decode_data_runs(&[], 0, 0, 1000).unwrap(), vec![]);
}

#[test]
fn cluster_map_refuses_gaps() {
    let runs = decode_data_runs(&RUNS, 0, 0, 1000).unwrap();
    assert!(matches!(NtfsClusterMap::new(runs.clone(), 0, 30), Err(NtfsError::InvalidClusterCount { cluster_count: 28 })));
    assert!(matches!(NtfsClusterMap::new(runs.clone(), 1, 27), Err(NtfsError::InvalidClusterCount { cluster_count: 0 })));
    let mut gap = runs.clone();
    gap[1].vcn = Vcn(17);
    assert!(matches!(NtfsClusterMap::new(gap, 0, 27), Err(NtfsError::InvalidClusterCount { cluster_count: 16 })));
    assert!(NtfsClusterMap::new(vec![], 0, 0).is_err());
}

#[test]
fn sign_extension_and_reading() {
    assert_eq!(sign_extend(0xce, 1), -50);
    assert_eq!(sign_extend(0x64, 1), 100);
    assert_eq!(sign_extend(0x8000, 2), -32768);
    assert_eq!(sign_extend(0xffff_ffff_ffff_ffff, 8), -1);
    assert_eq!(sign_extend(0x7f_ffff, 3), 0x7f_ffff);
    assert_eq!(read_le(&[0x34, 0x12, 0xff], 0, 2), 0x1234);
    assert_eq!(read_le(&[0x34, 0x12, 0xff], 1, 2), 0xff12);
}

#[test]
fn file_record_attributes() {
    let file = NtfsFile::new(sample_file(), 0x8000, SECTOR).unwrap();
    let attributes = file.attributes().unwrap();
    assert_eq!(attributes.len(), 3);
    assert_eq!(attributes[0].ty, NtfsAttributeType::StandardInformation);
    assert_eq!(attributes[1].ty, NtfsAttributeType::FileName);
    assert_eq!(attributes[2].ty, NtfsAttributeType::Data);
    let data = file.find_attribute(NtfsAttributeType::Data).unwrap();
    match data.value {
        NtfsAttributeValue::NonResident { start_vcn, last_vcn, data_size, .. } => {
            assert_eq!((start_vcn, last_vcn, data_size), (0, 27, 27 * 4096 + 100));
        }
        _ => panic!("expected a non-resident value"),
    }
    let mut map = file.cluster_map(&data, 1000).unwrap().unwrap();
    assert_eq!(map.resolve(24), NtfsClusterMapping::Allocated { lcn: Lcn(50), remaining: 4 });
    assert!(file.cluster_map(&attributes[0], 1000).is_none());
    assert!(matches!(
        file.find_attribute(NtfsAttributeType::IndexRoot),
        Err(NtfsError::AttributeNotFound { position: 0x8000, ty: NtfsAttributeType::IndexRoot })
    ));
}

#[test]
fn structured_values() {
    let file = NtfsFile::new(sample_file(), 0x8000, SECTOR).unwrap();
    let info = file.find_attribute(NtfsAttributeType::StandardInformation).unwrap();
    assert_eq!(structured_value_size(NtfsAttributeType::StandardInformation), Some(72));
    assert_eq!(file.structured_value(&info).unwrap(), vec![7u8; 72]);
    let name = file.find_attribute(NtfsAttributeType::FileName).unwrap();
    match file.value_of_size(&name, 8) {
        Err(NtfsError::InvalidStructuredValueSize { expected, actual, ty, .. }) => {
            assert_eq!((expected, actual), (8, 6));
            assert_eq!(ty, NtfsAttributeType::FileName);
        }
        other => panic!("unexpected {:?}", other),
    }
    assert_eq!(file.value_of_size(&name, 6).unwrap(), vec![1, 2, 3, 4, 5, 6]);
    assert!(matches!(
        file.structured_value(&name),
        Err(NtfsError::UnsupportedStructuredValue { ty: NtfsAttributeType::FileName, .. })
    ));
    let data = file.find_attribute(NtfsAttributeType::Data).unwrap();
    assert!(matches!(file.value_of_size(&data, 8), Err(NtfsError::UnsupportedStructuredValue { .. })));
}

#[test]
fn attribute_longer_than_record_is_refused() {
    let mut b = vec![0u8; 0x100];
    put_u32(&mut b, 0x38, 0x80);
    put_u32(&mut b, 0x3c, 0x200);
    match decode_attribute_at(&b, 0x38, 0) {
        Err(NtfsError::BufferTooSmall { expected, actual }) => assert_eq!((expected, actual), (0x200, 0x100 - 0x38)),
        other => panic!("unexpected {:?}", other),
    }
}

#[test]
fn unknown_attribute_type_is_refused() {
    let mut b = vec![0u8; 0x100];
    resident(&mut b, 0x38, 0x85, &[1, 2]);
    assert!(matches!(
        decode_attribute_at(&b, 0x38, 0x1000),
        Err(NtfsError::UnsupportedNtfsAttributeType { position: 0x1038, actual: 0x85 })
    ));
    non_resident(&mut b, 0x38, 0x80, 5, 4, &[0]);
    assert!(matches!(decode_attribute_at(&b, 0x38, 0), Err(NtfsError::VcnTooBig { vcn: Vcn(5) })));
    end_marker(&mut b, 0x38);
    assert!(decode_attribute_at(&b, 0x38, 0).unwrap().is_none());
}

#[test]
fn bad_record_signature_is_refused() {
    let data = protect(&plain_record(b"BAAD"));
    match NtfsFile::new(data, 0x2000, SECTOR) {
        Err(NtfsError::InvalidNtfsFileSignature { position, expected, actual }) => {
            assert_eq!(position, 0x2000);
            assert_eq!(&expected, b"FILE");
            assert_eq!(&actual, b"BAAD");
        }
        other => panic!("unexpected {:?}", other.err()),
    }
    let mut corrupt = sample_file();
    corrupt[SECTOR - 1] ^= 1;
    assert!(matches!(NtfsFile::new(corrupt, 0, SECTOR), Err(NtfsError::InvalidTwoByteSignature { .. })));
}

fn index_record(allocated: u32, used: u32, vcn: i64) -> Vec<u8> {
    let mut b = plain_record(b"INDX");
    put_u64(&mut b, 0x10, vcn as u64);
    put_u32(&mut b, 0x18, 0x28);
    put_u32(&mut b, 0x1c, used);
    put_u32(&mut b, 0x20, allocated);
    save_tails(&mut b);
    protect(&b)
}

#[test]
fn index_record_validation() {
    let ok = NtfsIndexRecord::new(index_record(1000, 0x100, 3), 0x9000, SECTOR, 1024, 3).unwrap();
    assert_eq!(ok.position, 0x9000);
    assert_eq!(ok.data[SECTOR - 2], 0xaa);
    assert!(matches!(
        NtfsIndexRecord::new(index_record(1001, 0x100, 3), 0x9000, SECTOR, 1024, 3),
        Err(NtfsError::InvalidNtfsIndexSize { position: 0x9000, expected: 1000, actual: 1001 })
    ));
    assert!(matches!(
        NtfsIndexRecord::new(index_record(0x80, 0x100, 3), 0, SECTOR, 1024, 3),
        Err(NtfsError::InvalidNtfsIndexSize { expected: 0x80, actual: 0x100, .. })
    ));
    assert!(matches!(
        NtfsIndexRecord::new(index_record(1000, 0x100, 3), 0, SECTOR, 1024, 4),
        Err(NtfsError::VcnMismatch { requested_vcn: Vcn(4), record_vcn: Vcn(3) })
    ));
    match NtfsIndexRecord::new(sample_file(), 0x9000, SECTOR, 1024, 0) {
        Err(NtfsError::InvalidNtfsIndexSignature { expected, actual, .. }) => {
            assert_eq!(&expected, b"INDX");
            assert_eq!(&actual, b"FILE");
        }
        other => panic!("unexpected {:?}", other.err()),
    }
}

#[test]
fn index_root_validation() {
    let mut b = vec![0u8; 0x80];
    put_u32(&mut b, 0x20 + 0x10 + 4, 0x20);
    put_u32(&mut b, 0x20 + 0x10 + 8, 0x30);
    assert!(validate_index_root(&b, 0x20, 0x40, 0).is_ok());
    assert!(matches!(
        validate_index_root(&b, 0x20, 0x38, 0x1000),
        Err(NtfsError::InvalidNtfsIndexSize { position: 0x1020, expected: 0x28, actual: 0x30 })
    ));
    assert!(matches!(validate_index_root(&b, 0x20, 8, 0), Err(NtfsError::BufferTooSmall { expected: 0x10, actual: 8 })));
    assert!(matches!(validate_index_node(&b, 0x78, 100, 0), Err(NtfsError::BufferTooSmall { expected: 0x10, actual: 8 })));
}

#[test]
fn io_errors_pass_through() {
    let e = NtfsError::from(binread::io::Error::new(binread::io::ErrorKind::UnexpectedEof, "short read"));
    match e {
        NtfsError::Io(inner) => assert_eq!(inner.kind(), binread::io::ErrorKind::UnexpectedEof),
        other => panic!("unexpected {:?}", other),
    }
}

#[test]
fn run_cursor_decodes_on_demand() {
    let mut runs = NtfsDataRuns::new(RUNS.to_vec(), 0x500, 0, 1000);
    assert_eq!(runs.next_run().unwrap().unwrap(), NtfsDataRun { vcn: Vcn(0), cluster_count: 16, lcn: Some(Lcn(100)) });
    assert_eq!(runs.offset, 3);
    assert_eq!(runs.next_run().unwrap().unwrap(), NtfsDataRun { vcn: Vcn(16), cluster_count: 8, lcn: None });
    assert_eq!(runs.lcn, 100);
    assert_eq!(runs.next_run().unwrap().unwrap(), NtfsDataRun { vcn: Vcn(24), cluster_count: 4, lcn: Some(Lcn(50)) });
    assert!(runs.next_run().is_none());
    assert!(runs.finished);
    assert!(runs.next_run().is_none());

    let mut bad = NtfsDataRuns::new(vec![0x11, 0x01, 0x01, 0x0a], 0x500, 0, 1000);
    assert!(bad.next_run().unwrap().is_ok());
    assert!(matches!(
        bad.next_run(),
        Some(Err(NtfsError::InvalidByteCountInDataRunHeader { position: 0x503, expected: 8, actual: 10 }))
    ));
    assert!(bad.next_run().is_none());
}

#[test]
fn attribute_type_codes() {
    assert_eq!(NtfsAttributeType::from_code(0x80), Some(NtfsAttributeType::Data));
    assert_eq!(NtfsAttributeType::from_code(0x90), Some(NtfsAttributeType::IndexRoot));
    assert_eq!(NtfsAttributeType::from_code(0xffff_ffff), Some(NtfsAttributeType::End));
    assert_eq!(NtfsAttributeType::from_code(0x11), None);
}

#[test]
fn attribute_length_checked_before_header_size() {
    let mut b = vec![0u8; 0x100];
    let at = 0x100 - 10;
    put_u32(&mut b, at, 0x80);
    put_u32(&mut b, at + 4, 100);
    assert!(matches!(decode_attribute_at(&b, at, 0), Err(NtfsError::BufferTooSmall { expected: 100, actual: 10 })));
    put_u32(&mut b, at + 4, 10);
    assert!(matches!(decode_attribute_at(&b, at, 0), Err(NtfsError::BufferTooSmall { expected: 16, actual: 10 })));
    assert!(matches!(decode_attribute_at(&b, 0x100 - 6, 0), Err(NtfsError::BufferTooSmall { expected: 16, actual: 6 })));
}

#[test]
fn lcn_beyond_signed_range_is_too_big() {
    let data = [0x81, 0x01, 0xff, 0xff, 0xff, 0xff, 0xff, 0xff, 0xff, 0x7f, 0x11, 0x01, 0x01, 0x00];
    assert!(matches!(
        decode_data_runs(&data, 0, 0, u64::MAX),
        Err(NtfsError::LcnTooBig { lcn: Lcn(0x8000_0000_0000_0000) })
    ));
}

#[test]
fn index_record_fixup_comes_first() {
    let mut corrupt = index_record(1000, 0x100, 3);
    corrupt[RECORD - 1] ^= 1;
    assert!(matches!(
        NtfsIndexRecord::new(corrupt, 0, SECTOR, 1024, 4),
        Err(NtfsError::InvalidTwoByteSignature { position: 1022, .. })
    ));
    assert!(matches!(
        NtfsIndexRecord::new(index_record(1000, 0x100, 3), 0, SECTOR, 0x10, 3),
        Err(NtfsError::BufferTooSmall { expected: 0x18, actual: 0x10 })
    ));
}
