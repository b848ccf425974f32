use vstd::prelude::*;

use crate::bytes::{le_uint, read_le};
use crate::error::NtfsError;

verus! {

/// Smallest record that holds the offset of its update sequence array.
pub const RECORD_HEADER_MIN: usize = 8;

/// Offset of the update sequence array that the header of record `d` declares.
pub open spec fn usa_offset(d: Seq<u8>) -> int {
    le_uint(d, 4, 2) as int
}

/// Number of 2-byte entries of that array: the update sequence number, then one
/// saved entry per sector.
pub open spec fn usa_count(d: Seq<u8>) -> int {
    le_uint(d, 6, 2) as int
}

/// Number of whole sectors of `ss` bytes from byte `pos` of a record of `len` bytes.
pub open spec fn sectors_from(len: int, ss: int, pos: int) -> nat
    decreases len - pos,
{
    if ss < 2 || pos + ss > len {
        0
    } else {
        1 + sectors_from(len, ss, pos + ss)
    }
}

/// Checks the sectors of `d` from byte `pos` on (sector number `idx`): each one needs
/// its saved entry in the update sequence array of `cnt` entries at `usa`, and its
/// last two bytes must equal the update sequence number stored at `usa`.
pub open spec fn check_sectors(d: Seq<u8>, usa: int, cnt: int, ss: int, pos: int, idx: int, position: int) -> Result<(), NtfsError>
    decreases d.len() - pos,
{
    if ss < 2 || pos + ss > d.len() {
        Ok(())
    } else if 2 * idx + 4 > 2 * cnt {
        Err(NtfsError::BufferTooSmall { expected: (2 * idx + 4) as usize, actual: (2 * cnt) as usize })
    } else if d[pos + ss - 2] != d[usa] || d[pos + ss - 1] != d[usa + 1] {
        Err(NtfsError::InvalidTwoByteSignature {
            position: (position + pos + ss - 2) as u64,
            expected: [d[usa], d[usa + 1]],
            actual: [d[pos + ss - 2], d[pos + ss - 1]],
        })
    } else {
        check_sectors(d, usa, cnt, ss, pos + ss, idx + 1, position)
    }
}

/// `d` with the last two bytes of each sector from byte `pos` on replaced by the
/// entry of the update sequence array of `src` that saved them.
pub open spec fn repaired(d: Seq<u8>, src: Seq<u8>, usa: int, ss: int, pos: int, idx: int) -> Seq<u8>
    decreases d.len() - pos,
{
    if ss < 2 || pos < 0 || pos + ss > d.len() {
        d
    } else {
        repaired(
            d.update(pos + ss - 2, src[usa + 2 + 2 * idx]).update(pos + ss - 1, src[usa + 3 + 2 * idx]),
            src,
            usa,
            ss,
            pos + ss,
            idx + 1,
        )
    }
}

pub proof fn lemma_repaired_len(d: Seq<u8>, src: Seq<u8>, usa: int, ss: int, pos: int, idx: int)
    ensures
        repaired(d, src, usa, ss, pos, idx).len() == d.len(),
    decreases d.len() - pos,
{
    if !(ss < 2 || pos < 0 || pos + ss > d.len()) {
        let d2 = d.update(pos + ss - 2, src[usa + 2 + 2 * idx]).update(pos + ss - 1, src[usa + 3 + 2 * idx]);
        lemma_repaired_len(d2, src, usa, ss, pos + ss, idx + 1);
    }
}

/// What verifying and repairing record `d` (read at byte `position` of the volume,
/// with sectors of `ss` bytes) yields: the repaired record, or the first failure.
pub open spec fn fixup_result(d: Seq<u8>, position: int, ss: int) -> Result<Seq<u8>, NtfsError> {
    if d.len() < RECORD_HEADER_MIN {
        Err(NtfsError::BufferTooSmall { expected: RECORD_HEADER_MIN, actual: d.len() as usize })
    } else if usa_offset(d) + 2 * usa_count(d) > d.len() {
        Err(NtfsError::BufferTooSmall {
            expected: (usa_offset(d) + 2 * usa_count(d)) as usize,
            actual: d.len() as usize,
        })
    } else {
        match check_sectors(d, usa_offset(d), usa_count(d), ss, 0, 0, position) {
            Err(e) => Err(e),
            Ok(_) => Ok(repaired(d, d, usa_offset(d), ss, 0, 0)),
        }
    }
}

/// Verifies the update sequence protection of the record in `data`, read at byte
/// `position` of the volume, and restores the bytes that it saved. The record is
/// changed only when every sector checks out.
pub fn fixup(data: &mut Vec<u8>, position: u64, sector_size: usize) -> (r: Result<(), NtfsError>)
    requires
        sector_size >= 2,
        position + old(data)@.len() <= u64::MAX,
    ensures
        match fixup_result(old(data)@, position as int, sector_size as int) {
            Ok(s) => r is Ok && final(data)@ == s && s.len() == old(data)@.len(),
            Err(e) => r == Err::<(), NtfsError>(e) && final(data)@ == old(data)@,
        },
{
    let ghost d0 = data@;
    let len: usize = data.len();
    if len < RECORD_HEADER_MIN {
        return Err(NtfsError::BufferTooSmall { expected: RECORD_HEADER_MIN, actual: len });
    }
    let usa: usize = read_le(data.as_slice(), 4, 2) as usize;
    let cnt: usize = read_le(data.as_slice(), 6, 2) as usize;
    proof {
        crate::bytes::lemma_le_uint_bound(d0, 4, 2);
        crate::bytes::lemma_le_uint_bound(d0, 6, 2);
        crate::bytes::lemma_pow256_values();
    }
    if usa + 2 * cnt > len {
        return Err(NtfsError::BufferTooSmall { expected: usa + 2 * cnt, actual: len });
    }
    let mut saved: Vec<u8> = Vec::new();
    let mut pos: usize = 0;
    let mut idx: usize = 0;
    while sector_size <= len - pos
        invariant
            data@ == d0,
            len == d0.len(),
            len >= RECORD_HEADER_MIN,
            sector_size >= 2,
            position + len <= u64::MAX,
            usa == usa_offset(d0),
            cnt == usa_count(d0),
            usa <= 0xffff,
            cnt <= 0xffff,
            usa + 2 * cnt <= len,
            pos <= len,
            idx < cnt || idx == 0,
            check_sectors(d0, usa as int, cnt as int, sector_size as int, 0, 0, position as int)
                == check_sectors(d0, usa as int, cnt as int, sector_size as int, pos as int, idx as int, position as int),
            saved@.len() == 2 * idx,
            forall|i: int| 0 <= i < 2 * idx ==> saved@[i] == d0[usa + 2 + i],
            idx + sectors_from(len as int, sector_size as int, pos as int)
                == sectors_from(len as int, sector_size as int, 0),
        decreases len - pos,
    {
        if 2 * idx + 4 > 2 * cnt {
            return Err(NtfsError::BufferTooSmall { expected: 2 * idx + 4, actual: 2 * cnt });
        }
        let usn0: u8 = data[usa];
        let usn1: u8 = data[usa + 1];
        let t: usize = pos + sector_size - 2;
        let a0: u8 = data[t];
        let a1: u8 = data[t + 1];
        if a0 != usn0 || a1 != usn1 {
            return Err(NtfsError::InvalidTwoByteSignature {
                position: position + t as u64,
                expected: [usn0, usn1],
                actual: [a0, a1],
            });
        }
        let entry: usize = usa + 2 + 2 * idx;
        saved.push(data[entry]);
        saved.push(data[entry + 1]);
        pos = pos + sector_size;
        idx = idx + 1;
    }
    let ghost n = idx;
    pos = 0;
    idx = 0;
    while sector_size <= len - pos
        invariant
            data@.len() == len,
            len == d0.len(),
            sector_size >= 2,
            usa == usa_offset(d0),
            n < cnt <= 0xffff || n == 0,
            usa + 2 * cnt <= len,
            pos <= len,
            saved@.len() == 2 * n,
            forall|i: int| 0 <= i < 2 * n ==> saved@[i] == d0[usa + 2 + i],
            idx + sectors_from(len as int, sector_size as int, pos as int) == n,
            repaired(data@, d0, usa as int, sector_size as int, pos as int, idx as int)
                == repaired(d0, d0, usa as int, sector_size as int, 0, 0),
        decreases len - pos,
    {
        proof {
            lemma_repaired_len(d0, d0, usa as int, sector_size as int, 0, 0);
        }
        let t: usize = pos + sector_size - 2;
        data[t] = saved[2 * idx];
        data[t + 1] = saved[2 * idx + 1];
        pos = pos + sector_size;
        idx = idx + 1;
    }
    proof {
        lemma_repaired_len(d0, d0, usa as int, sector_size as int, 0, 0);
    }
    Ok(())
}

/// `d` with the last two bytes of each sector from byte `pos` on set to `u0`, `u1`:
/// the protection that a record receives when it is written.
pub open spec fn protected(d: Seq<u8>, u0: u8, u1: u8, ss: int, pos: int) -> Seq<u8>
    decreases d.len() - pos,
{
    if ss < 2 || pos < 0 || pos + ss > d.len() {
        d
    } else {
        protected(d.update(pos + ss - 2, u0).update(pos + ss - 1, u1), u0, u1, ss, pos + ss)
    }
}

/// The update sequence array of `src` at `usa` holds, from entry `idx` on, the last
/// two bytes of each sector of `d` from byte `pos` on.
pub open spec fn saves_tails(src: Seq<u8>, d: Seq<u8>, usa: int, ss: int, pos: int, idx: int) -> bool
    decreases d.len() - pos,
{
    if ss < 2 || pos < 0 || pos + ss > d.len() {
        true
    } else {
        &&& src[usa + 2 + 2 * idx] == d[pos + ss - 2]
        &&& src[usa + 3 + 2 * idx] == d[pos + ss - 1]
        &&& saves_tails(src, d, usa, ss, pos + ss, idx + 1)
    }
}

proof fn lemma_protected_frame(d: Seq<u8>, u0: u8, u1: u8, ss: int, pos: int)
    ensures
        protected(d, u0, u1, ss, pos).len() == d.len(),
        forall|j: int| 0 <= j < d.len() && j < pos + ss - 2 ==> #[trigger] protected(d, u0, u1, ss, pos)[j] == d[j],
    decreases d.len() - pos,
{
    if !(ss < 2 || pos < 0 || pos + ss > d.len()) {
        let d1 = d.update(pos + ss - 2, u0).update(pos + ss - 1, u1);
        lemma_protected_frame(d1, u0, u1, ss, pos + ss);
    }
}

proof fn lemma_protected_commute(d: Seq<u8>, u0: u8, u1: u8, ss: int, pos: int, j: int, v: u8)
    requires
        0 <= j < d.len(),
        j < pos + ss - 2,
    ensures
        protected(d, u0, u1, ss, pos).update(j, v) == protected(d.update(j, v), u0, u1, ss, pos),
    decreases d.len() - pos,
{
    if !(ss < 2 || pos < 0 || pos + ss > d.len()) {
        let t = pos + ss - 2;
        let d1 = d.update(t, u0).update(t + 1, u1);
        let e1 = d.update(j, v).update(t, u0).update(t + 1, u1);
        assert(e1 =~= d1.update(j, v));
        lemma_protected_commute(d1, u0, u1, ss, pos + ss, j, v);
    }
}

proof fn lemma_le_uint_same(a: Seq<u8>, b: Seq<u8>, i: int, n: nat)
    requires
        forall|k: int| i <= k < i + n ==> a[k] == b[k],
    ensures
        le_uint(a, i, n) == le_uint(b, i, n),
    decreases n,
{
    if n > 0 {
        lemma_le_uint_same(a, b, i + 1, (n - 1) as nat);
    }
}

proof fn lemma_protected_passes(d: Seq<u8>, usa: int, cnt: int, ss: int, pos: int, idx: int, position: int, u0: u8, u1: u8)
    requires
        ss >= 2,
        pos >= 0,
        0 <= usa,
        usa + 1 < ss - 2,
        usa + 1 < d.len(),
        d[usa] == u0,
        d[usa + 1] == u1,
        idx + sectors_from(d.len() as int, ss, pos) + 1 <= cnt,
    ensures
        check_sectors(protected(d, u0, u1, ss, pos), usa, cnt, ss, pos, idx, position) == Ok::<(), NtfsError>(()),
    decreases d.len() - pos,
{
    lemma_protected_frame(d, u0, u1, ss, pos);
    if !(pos + ss > d.len()) {
        let d1 = d.update(pos + ss - 2, u0).update(pos + ss - 1, u1);
        lemma_protected_frame(d1, u0, u1, ss, pos + ss);
        lemma_protected_passes(d1, usa, cnt, ss, pos + ss, idx + 1, position, u0, u1);
    }
}

proof fn lemma_repaired_same_source(d: Seq<u8>, s1: Seq<u8>, s2: Seq<u8>, usa: int, ss: int, pos: int, idx: int)
    requires
        0 <= usa,
        0 <= idx,
        usa + 2 + 2 * (idx + sectors_from(d.len() as int, ss, pos)) <= ss - 2,
        forall|j: int| 0 <= j < ss - 2 ==> s1[j] == s2[j],
    ensures
        repaired(d, s1, usa, ss, pos, idx) == repaired(d, s2, usa, ss, pos, idx),
    decreases d.len() - pos,
{
    if !(ss < 2 || pos < 0 || pos + ss > d.len()) {
        let t = pos + ss - 2;
        let a = usa + 2 + 2 * idx;
        assert(s1[a] == s2[a] && s1[a + 1] == s2[a + 1]);
        let d1 = d.update(t, s1[a]).update(t + 1, s1[a + 1]);
        lemma_repaired_same_source(d1, s1, s2, usa, ss, pos + ss, idx + 1);
    }
}

proof fn lemma_repair_undoes_protection(d: Seq<u8>, src: Seq<u8>, usa: int, ss: int, pos: int, idx: int, u0: u8, u1: u8)
    requires
        saves_tails(src, d, usa, ss, pos, idx),
    ensures
        repaired(protected(d, u0, u1, ss, pos), src, usa, ss, pos, idx) == d,
    decreases d.len() - pos,
{
    lemma_protected_frame(d, u0, u1, ss, pos);
    if !(ss < 2 || pos < 0 || pos + ss > d.len()) {
        let t = pos + ss - 2;
        let a = usa + 2 + 2 * idx;
        let d1 = d.update(t, u0).update(t + 1, u1);
        let q = protected(d1, u0, u1, ss, pos + ss);
        lemma_protected_frame(d1, u0, u1, ss, pos + ss);
        lemma_protected_commute(d1, u0, u1, ss, pos + ss, t, d[t]);
        lemma_protected_commute(d1.update(t, d[t]), u0, u1, ss, pos + ss, t + 1, d[t + 1]);
        assert(d1.update(t, d[t]).update(t + 1, d[t + 1]) =~= d);
        lemma_repair_undoes_protection(d, src, usa, ss, pos + ss, idx + 1, u0, u1);
    }
}

/// Protecting a record and then verifying and repairing it gives back the record
/// exactly, when its update sequence array (which lies after the header and before
/// the end of the first sector, with an entry for every sector) holds the last two
/// bytes of each sector.
pub proof fn lemma_fixup_restores(orig: Seq<u8>, position: int, ss: int)
    requires
        2 <= ss <= orig.len(),
        RECORD_HEADER_MIN <= usa_offset(orig),
        usa_offset(orig) + 2 * usa_count(orig) <= ss - 2,
        sectors_from(orig.len() as int, ss, 0) + 1 <= usa_count(orig),
        saves_tails(orig, orig, usa_offset(orig), ss, 0, 0),
    ensures
        fixup_result(protected(orig, orig[usa_offset(orig)], orig[usa_offset(orig) + 1], ss, 0), position, ss)
            == Ok::<Seq<u8>, NtfsError>(orig),
{
    let usa = usa_offset(orig);
    let cnt = usa_count(orig);
    let u0 = orig[usa];
    let u1 = orig[usa + 1];
    let p = protected(orig, u0, u1, ss, 0);
    lemma_protected_frame(orig, u0, u1, ss, 0);
    lemma_le_uint_same(p, orig, 4, 2);
    lemma_le_uint_same(p, orig, 6, 2);
    lemma_protected_passes(orig, usa, cnt, ss, 0, 0, position, u0, u1);
    lemma_repaired_same_source(p, p, orig, usa, ss, 0, 0);
    lemma_repair_undoes_protection(orig, orig, usa, ss, 0, 0, u0, u1);
}

/// Whether byte `j` is one of the last two bytes of a whole sector of `ss` bytes from
/// byte `pos` on, in a record of `len` bytes.
pub open spec fn is_sector_tail(len: int, ss: int, pos: int, j: int) -> bool
    decreases len - pos,
{
    if ss < 2 || pos < 0 || pos + ss > len {
        false
    } else {
        j == pos + ss - 2 || j == pos + ss - 1 || is_sector_tail(len, ss, pos + ss, j)
    }
}

proof fn lemma_changed_tail_fails(d: Seq<u8>, usa: int, cnt: int, ss: int, pos: int, idx: int, position: int, j: int, v: u8)
    requires
        check_sectors(d, usa, cnt, ss, pos, idx, position) is Ok,
        is_sector_tail(d.len() as int, ss, pos, j),
        0 <= j < d.len(),
        0 <= usa,
        0 <= idx,
        usa + 2 * cnt <= d.len(),
        j != usa,
        j != usa + 1,
        v != d[j],
    ensures
        check_sectors(d.update(j, v), usa, cnt, ss, pos, idx, position) matches Err(
            NtfsError::InvalidTwoByteSignature { .. },
        ),
    decreases d.len() - pos,
{
    let t = pos + ss - 2;
    let e = d.update(j, v);
    assert(e.len() == d.len());
    assert(e[usa] == d[usa] && e[usa + 1] == d[usa + 1]);
    if j != t && j != t + 1 {
        assert(e[t] == d[t] && e[t + 1] == d[t + 1]);
        lemma_changed_tail_fails(d, usa, cnt, ss, pos + ss, idx + 1, position, j, v);
    } else {
        assert(e[t] != e[usa] || e[t + 1] != e[usa + 1]);
    }
}

/// Verification detects any corruption of a sector's last two bytes: when a record
/// passes, changing either of the last two bytes of any of its sectors (other than
/// the bytes of the header and of the update sequence number) makes it fail with the
/// two-byte signature error.
pub proof fn lemma_corrupted_sector_detected(d: Seq<u8>, position: int, ss: int, j: int, v: u8)
    requires
        fixup_result(d, position, ss) is Ok,
        is_sector_tail(d.len() as int, ss, 0, j),
        RECORD_HEADER_MIN <= j < d.len(),
        j != usa_offset(d),
        j != usa_offset(d) + 1,
        v != d[j],
    ensures
        fixup_result(d.update(j, v), position, ss) matches Err(NtfsError::InvalidTwoByteSignature { .. }),
{
    let e = d.update(j, v);
    lemma_le_uint_same(e, d, 4, 2);
    lemma_le_uint_same(e, d, 6, 2);
    lemma_changed_tail_fails(d, usa_offset(d), usa_count(d), ss, 0, 0, position, j, v);
}

} // verus!
