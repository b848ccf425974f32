use vstd::prelude::*;

use crate::bytes::{le_uint, read_le, sign_extend, sign_extended, lemma_le_uint_bound, lemma_pow256_values};
use crate::error::NtfsError;
use crate::types::{Lcn, Vcn};

verus! {

/// Largest byte count of a field of a data run header.
pub const MAX_FIELD_BYTES: u8 = 8;

/// A contiguous range of `cluster_count` clusters of an attribute's stream, starting at
/// `vcn`, backed by the clusters from `lcn` on, or sparse (`lcn` is `None`).
#[derive(Clone, Copy, Debug, PartialEq, Eq, Structural)]
pub struct NtfsDataRun {
    pub vcn: Vcn,
    pub cluster_count: u64,
    pub lcn: Option<Lcn>,
}

/// State of the decoder after one run: the run, the offset of the next header byte,
/// the next VCN and the LCN that the next delta is relative to.
pub type RunStep = (NtfsDataRun, int, int, int);

/// Decodes the run whose header byte is at offset `off` of the run list `d` (which
/// starts at byte `position` of the volume), given the VCN `vcn` where it starts and
/// the LCN `lcn` reached by the allocated runs before it. `Ok(None)` marks the end of
/// the list: a zero header byte, or no byte left.
pub open spec fn decode_step(d: Seq<u8>, position: int, total: int, off: int, vcn: int, lcn: int) -> Result<Option<RunStep>, NtfsError> {
    if off < 0 || off >= d.len() || d[off] == 0 {
        Ok(None)
    } else {
        let h = d[off] as int;
        let ln = h % 16;
        let dn = h / 16;
        let count = le_uint(d, off + 1, ln as nat) as int;
        let next = off + 1 + ln + dn;
        if ln > 8 {
            Err(NtfsError::InvalidByteCountInDataRunHeader { position: (position + off) as u64, expected: 8, actual: ln as u8 })
        } else if dn > 8 {
            Err(NtfsError::InvalidByteCountInDataRunHeader { position: (position + off) as u64, expected: 8, actual: dn as u8 })
        } else if next > d.len() {
            Err(NtfsError::BufferTooSmall { expected: (next - off) as usize, actual: (d.len() - off) as usize })
        } else if dn == 0 {
            if vcn + count > i64::MAX {
                Err(NtfsError::VcnTooBig { vcn: Vcn(vcn as i64) })
            } else {
                Ok(Some((NtfsDataRun { vcn: Vcn(vcn as i64), cluster_count: count as u64, lcn: None }, next, vcn + count, lcn)))
            }
        } else {
            let delta = sign_extended(le_uint(d, off + 1 + ln, dn as nat) as int, dn as nat);
            let start = lcn + delta;
            if start < 0 {
                Err(NtfsError::InvalidVcnInDataRunHeader {
                    position: (position + off) as u64,
                    vcn: Vcn(delta as i64),
                    previous_lcn: Lcn(lcn as u64),
                })
            } else if start > i64::MAX || start + count > total {
                Err(NtfsError::LcnTooBig { lcn: Lcn(start as u64) })
            } else if vcn + count > i64::MAX {
                Err(NtfsError::VcnTooBig { vcn: Vcn(vcn as i64) })
            } else {
                Ok(Some((NtfsDataRun { vcn: Vcn(vcn as i64), cluster_count: count as u64, lcn: Some(Lcn(start as u64)) }, next, vcn + count, start)))
            }
        }
    }
}

/// Decodes the run list `d` from offset `off` on, to its end or its first failure.
pub open spec fn decode_runs(d: Seq<u8>, position: int, total: int, off: int, vcn: int, lcn: int) -> Result<Seq<NtfsDataRun>, NtfsError>
    decreases d.len() - off,
{
    match decode_step(d, position, total, off, vcn, lcn) {
        Err(e) => Err(e),
        Ok(None) => Ok(Seq::empty()),
        Ok(Some(step)) => {
            // A run takes at least its header byte, so this branch is never taken; it
            // makes the decreasing measure evident.
            if step.1 <= off || off < 0 {
                Ok(Seq::empty())
            } else {
                match decode_runs(d, position, total, step.1, step.2, step.3) {
                    Err(e) => Err(e),
                    Ok(rest) => Ok(seq![step.0].add(rest)),
                }
            }
        }
    }
}

/// Decodes the run at offset `offset` of `data`; see `decode_step`. On success it also
/// returns the offset of the next header byte, the next VCN and the LCN reached.
pub fn decode_run_at(data: &[u8], position: u64, total_clusters: u64, offset: usize, vcn: i64, lcn: i64) -> (r: Result<Option<(NtfsDataRun, usize, i64, i64)>, NtfsError>)
    requires
        position + data@.len() <= u64::MAX,
        offset <= data@.len(),
        vcn >= 0,
        lcn >= 0,
    ensures
        match decode_step(data@, position as int, total_clusters as int, offset as int, vcn as int, lcn as int) {
            Err(e) => r == Err::<Option<(NtfsDataRun, usize, i64, i64)>, NtfsError>(e),
            Ok(None) => r == Ok::<Option<(NtfsDataRun, usize, i64, i64)>, NtfsError>(None),
            Ok(Some(s)) => r matches Ok(Some(t)) && t.0 == s.0 && t.1 == s.1 && t.2 == s.2 && t.3 == s.3
                && offset < t.1 <= data@.len() && t.2 >= 0 && t.3 >= 0,
        },
{
    let len: usize = data.len();
    if offset >= len || data[offset] == 0 {
        return Ok(None);
    }
    let h: u8 = data[offset];
    let ln: u8 = h % 16;
    let dn: u8 = h / 16;
    let here: u64 = position + offset as u64;
    if ln > MAX_FIELD_BYTES {
        return Err(NtfsError::InvalidByteCountInDataRunHeader { position: here, expected: MAX_FIELD_BYTES, actual: ln });
    }
    if dn > MAX_FIELD_BYTES {
        return Err(NtfsError::InvalidByteCountInDataRunHeader { position: here, expected: MAX_FIELD_BYTES, actual: dn });
    }
    let field_bytes: usize = 1 + ln as usize + dn as usize;
    if field_bytes > len - offset {
        return Err(NtfsError::BufferTooSmall { expected: field_bytes, actual: len - offset });
    }
    let next: usize = offset + field_bytes;
    let count: u64 = read_le(data, offset + 1, ln as usize);
    if dn == 0 {
        if count > (i64::MAX - vcn) as u64 {
            return Err(NtfsError::VcnTooBig { vcn: Vcn(vcn) });
        }
        let run = NtfsDataRun { vcn: Vcn(vcn), cluster_count: count, lcn: None };
        return Ok(Some((run, next, vcn + count as i64, lcn)));
    }
    let raw: u64 = read_le(data, offset + 1 + ln as usize, dn as usize);
    proof {
        lemma_le_uint_bound(data@, offset + 1 + ln, dn as nat);
    }
    let delta: i64 = sign_extend(raw, dn);
    if delta < 0 && lcn + delta < 0 {
        return Err(NtfsError::InvalidVcnInDataRunHeader { position: here, vcn: Vcn(delta), previous_lcn: Lcn(lcn as u64) });
    }
    let start_lcn: u64 = if delta >= 0 {
        lcn as u64 + delta as u64
    } else {
        (lcn + delta) as u64
    };
    if start_lcn > i64::MAX as u64 || count > total_clusters || start_lcn > total_clusters - count {
        return Err(NtfsError::LcnTooBig { lcn: Lcn(start_lcn) });
    }
    let start: i64 = start_lcn as i64;
    if count > (i64::MAX - vcn) as u64 {
        return Err(NtfsError::VcnTooBig { vcn: Vcn(vcn) });
    }
    let run = NtfsDataRun { vcn: Vcn(vcn), cluster_count: count, lcn: Some(Lcn(start as u64)) };
    Ok(Some((run, next, vcn + count as i64, start)))
}

/// Decodes the whole run list `data`, read at byte `position` of the volume, for an
/// attribute whose stream starts at VCN `start_vcn`, on a volume of `total_clusters`
/// clusters. The first allocated run is relative to LCN 0.
pub fn decode_data_runs(data: &[u8], position: u64, start_vcn: i64, total_clusters: u64) -> (r: Result<Vec<NtfsDataRun>, NtfsError>)
    requires
        position + data@.len() <= u64::MAX,
        start_vcn >= 0,
    ensures
        match decode_runs(data@, position as int, total_clusters as int, 0, start_vcn as int, 0) {
            Ok(s) => r matches Ok(v) && v@ == s,
            Err(e) => r == Err::<Vec<NtfsDataRun>, NtfsError>(e),
        },
{
    let ghost d = data@;
    let ghost whole = decode_runs(d, position as int, total_clusters as int, 0, start_vcn as int, 0);
    let mut runs: Vec<NtfsDataRun> = Vec::new();
    let mut offset: usize = 0;
    let mut vcn: i64 = start_vcn;
    let mut lcn: i64 = 0;
    proof {
        if let Ok(rest) = whole {
            assert(runs@.add(rest) =~= rest);
        }
    }
    loop
        invariant
            position + data@.len() <= u64::MAX,
            d == data@,
            whole == decode_runs(d, position as int, total_clusters as int, 0, start_vcn as int, 0),
            offset <= data@.len(),
            vcn >= 0,
            lcn >= 0,
            match decode_runs(d, position as int, total_clusters as int, offset as int, vcn as int, lcn as int) {
                Ok(rest) => whole == Ok::<Seq<NtfsDataRun>, NtfsError>(runs@.add(rest)),
                Err(e) => whole == Err::<Seq<NtfsDataRun>, NtfsError>(e),
            },
        decreases data@.len() - offset,
    {
        match decode_run_at(data, position, total_clusters, offset, vcn, lcn) {
            Err(e) => {
                return Err(e);
            },
            Ok(None) => {
                assert(runs@.add(Seq::<NtfsDataRun>::empty()) =~= runs@);
                return Ok(runs);
            },
            Ok(Some(step)) => {
                let (run, next, next_vcn, next_lcn) = step;
                proof {
                    let rest = decode_runs(d, position as int, total_clusters as int, next as int, next_vcn as int, next_lcn as int);
                    if let Ok(rs) = rest {
                        assert(runs@.push(run).add(rs) =~= runs@.add(seq![run].add(rs)));
                    }
                }
                runs.push(run);
                offset = next;
                vcn = next_vcn;
                lcn = next_lcn;
            },
        }
    }
}

/// A run list decoded on demand, one run per call of `next_run`, until its end or its
/// first failure. It can be restarted by building it again from the same bytes.
pub struct NtfsDataRuns {
    pub data: Vec<u8>,
    pub position: u64,
    pub total_clusters: u64,
    pub offset: usize,
    pub vcn: i64,
    pub lcn: i64,
    pub finished: bool,
}

impl NtfsDataRuns {
    pub open spec fn wf(&self) -> bool {
        &&& self.offset <= self.data@.len()
        &&& self.position + self.data@.len() <= u64::MAX
        &&& self.vcn >= 0
        &&& self.lcn >= 0
    }

    /// A cursor at the start of the run list `data`, read at byte `position` of the
    /// volume, for a stream that starts at VCN `start_vcn`.
    pub fn new(data: Vec<u8>, position: u64, start_vcn: i64, total_clusters: u64) -> (r: NtfsDataRuns)
        requires
            position + data@.len() <= u64::MAX,
            start_vcn >= 0,
        ensures
            r.wf(),
            r.data@ == data@,
            r.position == position,
            r.total_clusters == total_clusters,
            r.offset == 0,
            r.vcn == start_vcn,
            r.lcn == 0,
            !r.finished,
    {
        NtfsDataRuns { data, position, total_clusters, offset: 0, vcn: start_vcn, lcn: 0, finished: false }
    }

    /// The next run, or `None` once the list has ended or failed.
    pub fn next_run(&mut self) -> (r: Option<Result<NtfsDataRun, NtfsError>>)
        requires
            old(self).wf(),
        ensures
            final(self).wf(),
            final(self).data@ == old(self).data@,
            final(self).position == old(self).position,
            final(self).total_clusters == old(self).total_clusters,
            old(self).finished ==> r is None && final(self).finished,
            !old(self).finished ==> match decode_step(
                old(self).data@,
                old(self).position as int,
                old(self).total_clusters as int,
                old(self).offset as int,
                old(self).vcn as int,
                old(self).lcn as int,
            ) {
                Err(e) => r matches Some(Err(x)) && x == e && final(self).finished,
                Ok(None) => r is None && final(self).finished,
                Ok(Some(s)) => r matches Some(Ok(run)) && run == s.0 && final(self).offset == s.1
                    && final(self).vcn == s.2 && final(self).lcn == s.3 && !final(self).finished,
            },
    {
        if self.finished {
            return None;
        }
        match decode_run_at(self.data.as_slice(), self.position, self.total_clusters, self.offset, self.vcn, self.lcn) {
            Err(e) => {
                self.finished = true;
                Some(Err(e))
            },
            Ok(None) => {
                self.finished = true;
                None
            },
            Ok(Some(step)) => {
                let (run, next, next_vcn, next_lcn) = step;
                self.offset = next;
                self.vcn = next_vcn;
                self.lcn = next_lcn;
                Some(Ok(run))
            },
        }
    }
}

/// A sparse run (an LCN field of zero bytes) has no clusters on the volume and leaves
/// the LCN that the next delta is relative to unchanged.
pub proof fn lemma_sparse_run_keeps_lcn(d: Seq<u8>, position: int, total: int, off: int, vcn: int, lcn: int)
    requires
        0 <= off < d.len(),
        d[off] != 0,
        d[off] / 16 == 0,
        decode_step(d, position, total, off, vcn, lcn) is Ok,
    ensures
        decode_step(d, position, total, off, vcn, lcn) matches Ok(Some(step)) && step.0.lcn is None && step.3 == lcn,
{
}

/// A run header that declares a field of more than 8 bytes is always refused with the
/// byte count error, whatever follows it, and so is the run list that holds it.
pub proof fn lemma_wide_field_refused(d: Seq<u8>, position: int, total: int, off: int, vcn: int, lcn: int)
    requires
        0 <= off < d.len(),
        d[off] % 16 > 8 || d[off] / 16 > 8,
    ensures
        decode_step(d, position, total, off, vcn, lcn) == Err::<Option<RunStep>, NtfsError>(
            NtfsError::InvalidByteCountInDataRunHeader {
                position: (position + off) as u64,
                expected: 8,
                actual: (if d[off] % 16 > 8 { d[off] % 16 } else { d[off] / 16 }) as u8,
            },
        ),
        decode_runs(d, position, total, off, vcn, lcn) == Err::<Seq<NtfsDataRun>, NtfsError>(
            NtfsError::InvalidByteCountInDataRunHeader {
                position: (position + off) as u64,
                expected: 8,
                actual: (if d[off] % 16 > 8 { d[off] % 16 } else { d[off] / 16 }) as u8,
            },
        ),
{
}

} // verus!
