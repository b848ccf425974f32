use vstd::prelude::*;

use crate::data_runs::{decode_data_runs, decode_runs, NtfsDataRun};
use crate::error::NtfsError;
use crate::types::{Lcn, Vcn};

verus! {

/// Where a VCN lies on the volume: an allocated cluster and the number of clusters
/// from it to the end of its run, or a sparse hole and the same count.
#[derive(Clone, Copy, Debug, PartialEq, Eq, Structural)]
pub enum NtfsClusterMapping {
    Allocated { lcn: Lcn, remaining: u64 },
    Sparse { remaining: u64 },
}

/// First VCN after `run`.
pub open spec fn run_end(run: NtfsDataRun) -> int {
    run.vcn.0 + run.cluster_count
}

/// Whether `run` holds VCN `v`.
pub open spec fn covers(run: NtfsDataRun, v: int) -> bool {
    run.vcn.0 <= v < run_end(run)
}

/// Where VCN `v` of `run` lies.
pub open spec fn run_mapping(run: NtfsDataRun, v: int) -> NtfsClusterMapping {
    match run.lcn {
        Some(l) => NtfsClusterMapping::Allocated { lcn: Lcn((l.0 + (v - run.vcn.0)) as u64), remaining: (run_end(run) - v) as u64 },
        None => NtfsClusterMapping::Sparse { remaining: (run_end(run) - v) as u64 },
    }
}

/// `runs` follow one another without gap or overlap from VCN `start_vcn` up to and
/// including `last_vcn`, and each allocated run stays within the LCN range.
pub open spec fn runs_cover(runs: Seq<NtfsDataRun>, start_vcn: int, last_vcn: int) -> bool {
    &&& 0 <= start_vcn <= last_vcn < i64::MAX
    &&& runs.len() > 0
    &&& runs[0].vcn.0 == start_vcn
    &&& forall|i: int| 0 <= i < runs.len() - 1 ==> #[trigger] runs[i + 1].vcn.0 == run_end(runs[i])
    &&& run_end(runs.last()) == last_vcn + 1
    &&& forall|i: int| 0 <= i < runs.len() ==> start_vcn <= #[trigger] runs[i].vcn.0 && run_end(runs[i]) <= last_vcn + 1
    &&& forall|i: int| 0 <= i < runs.len() ==> (#[trigger] runs[i].lcn matches Some(l) ==> l.0 + runs[i].cluster_count <= u64::MAX)
}

/// The first reason, checking the runs from index `i` on, why `runs` do not cover
/// `start_vcn..=last_vcn` one after the other; `Ok` if there is none. A run whose
/// cluster count does not reach the next run, or overshoots the range, is reported
/// with that count.
pub open spec fn check_runs_from(runs: Seq<NtfsDataRun>, start_vcn: int, last_vcn: int, i: int) -> Result<(), NtfsError>
    decreases runs.len() - i,
{
    if i < 0 || i >= runs.len() {
        Ok(())
    } else {
        let run = runs[i];
        let end = run_end(run);
        if end > last_vcn + 1 {
            Err(NtfsError::InvalidClusterCount { cluster_count: run.cluster_count })
        } else if run.lcn matches Some(l) && l.0 + run.cluster_count > u64::MAX {
            Err(NtfsError::LcnTooBig { lcn: run.lcn->Some_0 })
        } else if i + 1 < runs.len() {
            if runs[i + 1].vcn.0 != end {
                Err(NtfsError::InvalidClusterCount { cluster_count: run.cluster_count })
            } else {
                check_runs_from(runs, start_vcn, last_vcn, i + 1)
            }
        } else if end != last_vcn + 1 {
            Err(NtfsError::InvalidClusterCount { cluster_count: (end - start_vcn) as u64 })
        } else {
            Ok(())
        }
    }
}

/// The first reason why `runs` do not make up the map of the stream from `start_vcn`
/// to `last_vcn`; `Ok` if there is none. Runs that do not start at `start_vcn` leave
/// it mapped by zero clusters.
pub open spec fn check_runs(runs: Seq<NtfsDataRun>, start_vcn: int, last_vcn: int) -> Result<(), NtfsError> {
    if start_vcn < 0 || start_vcn > last_vcn || last_vcn == i64::MAX {
        Err(NtfsError::VcnTooBig { vcn: Vcn(start_vcn as i64) })
    } else if runs.len() == 0 {
        Err(NtfsError::InvalidClusterCount { cluster_count: 0 })
    } else if runs[0].vcn.0 != start_vcn {
        Err(NtfsError::InvalidClusterCount { cluster_count: 0 })
    } else {
        check_runs_from(runs, start_vcn, last_vcn, 0)
    }
}

/// The mapping from the VCNs of one attribute's stream to clusters of the volume.
///
/// The run list is the source of truth and does not change once the map is built;
/// `cursor` only remembers the run of the last query, so that a forward scan costs
/// amortised constant time per query.
pub struct NtfsClusterMap {
    pub runs: Vec<NtfsDataRun>,
    pub start_vcn: i64,
    pub last_vcn: i64,
    pub cursor: usize,
}

impl NtfsClusterMap {
    pub open spec fn wf(&self) -> bool {
        &&& runs_cover(self.runs@, self.start_vcn as int, self.last_vcn as int)
        &&& self.cursor < self.runs@.len()
    }

    /// Builds the map of the stream from `start_vcn` to `last_vcn` over `runs`.
    /// Fails unless the runs cover exactly that range, one after the other.
    pub fn new(runs: Vec<NtfsDataRun>, start_vcn: i64, last_vcn: i64) -> (r: Result<NtfsClusterMap, NtfsError>)
        ensures
            r is Ok <==> runs_cover(runs@, start_vcn as int, last_vcn as int),
            r matches Ok(m) ==> m.wf() && m.runs@ == runs@ && m.start_vcn == start_vcn && m.last_vcn == last_vcn,
            match check_runs(runs@, start_vcn as int, last_vcn as int) {
                Ok(_) => r is Ok,
                Err(e) => r matches Err(x) && x == e,
            },
    {
        if start_vcn < 0 || start_vcn > last_vcn || last_vcn == i64::MAX {
            return Err(NtfsError::VcnTooBig { vcn: Vcn(start_vcn) });
        }
        let n: usize = runs.len();
        if n == 0 {
            return Err(NtfsError::InvalidClusterCount { cluster_count: 0 });
        }
        if runs[0].vcn.0 != start_vcn {
            return Err(NtfsError::InvalidClusterCount { cluster_count: 0 });
        }
        let mut i: usize = 0;
        while i < n
            invariant
                n == runs@.len(),
                0 <= start_vcn <= last_vcn < i64::MAX,
                runs@[0].vcn.0 == start_vcn,
                i < n ==> runs@[i as int].vcn.0 <= last_vcn + 1,
                forall|j: int| 0 <= j < i && j == n - 1 ==> run_end(runs@[j]) == last_vcn + 1,
                i <= n,
                check_runs(runs@, start_vcn as int, last_vcn as int) == check_runs_from(
                    runs@,
                    start_vcn as int,
                    last_vcn as int,
                    i as int,
                ),
                forall|j: int| 0 <= j < i ==> runs@[j].vcn.0 >= start_vcn,
                forall|j: int| 0 <= j < i ==> run_end(runs@[j]) <= last_vcn + 1,
                forall|j: int| 0 <= j < i && j < n - 1 ==> #[trigger] runs@[j + 1].vcn.0 == run_end(runs@[j]),
                forall|j: int| 0 <= j < i ==> (#[trigger] runs@[j].lcn matches Some(l) ==> l.0 + runs@[j].cluster_count <= u64::MAX),
                i > 0 ==> runs@[i - 1].vcn.0 >= start_vcn,
                i < n ==> runs@[i as int].vcn.0 >= start_vcn,
                i < n && i > 0 ==> runs@[i as int].vcn.0 == run_end(runs@[i - 1]),
            decreases n - i,
        {
            let run: NtfsDataRun = runs[i];
            let v: i64 = run.vcn.0;
            let room: u64 = if v > last_vcn {
                0
            } else {
                (last_vcn - v) as u64 + 1
            };
            if run.cluster_count > room {
                return Err(NtfsError::InvalidClusterCount { cluster_count: run.cluster_count });
            }
            let end: i64 = v + run.cluster_count as i64;
            if let Some(l) = run.lcn {
                if l.0 > u64::MAX - run.cluster_count {
                    return Err(NtfsError::LcnTooBig { lcn: l });
                }
            }
            if i + 1 < n {
                if runs[i + 1].vcn.0 != end {
                    return Err(NtfsError::InvalidClusterCount { cluster_count: run.cluster_count });
                }
            } else if end != last_vcn + 1 {
                return Err(NtfsError::InvalidClusterCount { cluster_count: (end - start_vcn) as u64 });
            }
            i = i + 1;
        }
        Ok(NtfsClusterMap { runs, start_vcn, last_vcn, cursor: 0 })
    }

    /// Decodes the run list `data`, read at byte `position` of the volume, and builds
    /// the map of the stream from `start_vcn` to `last_vcn` over it.
    pub fn decode(data: &[u8], position: u64, start_vcn: i64, last_vcn: i64, total_clusters: u64) -> (r: Result<NtfsClusterMap, NtfsError>)
        requires
            position + data@.len() <= u64::MAX,
            start_vcn >= 0,
        ensures
            match decode_runs(data@, position as int, total_clusters as int, 0, start_vcn as int, 0) {
                Err(e) => r == Err::<NtfsClusterMap, NtfsError>(e),
                Ok(s) => (r is Ok <==> runs_cover(s, start_vcn as int, last_vcn as int))
                    && (r matches Ok(m) ==> m.wf() && m.runs@ == s && m.start_vcn == start_vcn && m.last_vcn == last_vcn)
                    && (check_runs(s, start_vcn as int, last_vcn as int) matches Err(e) ==> r matches Err(x) && x == e),
            },
    {
        let runs = decode_data_runs(data, position, start_vcn, total_clusters)?;
        NtfsClusterMap::new(runs, start_vcn, last_vcn)
    }

    /// Where VCN `vcn` of the stream lies. Queries in ascending order of VCN take
    /// amortised constant time.
    pub fn resolve(&mut self, vcn: i64) -> (r: NtfsClusterMapping)
        requires
            old(self).wf(),
            old(self).start_vcn <= vcn <= old(self).last_vcn,
        ensures
            final(self).wf(),
            final(self).runs@ == old(self).runs@,
            final(self).start_vcn == old(self).start_vcn,
            final(self).last_vcn == old(self).last_vcn,
            exists|i: int| 0 <= i < old(self).runs@.len() && covers(old(self).runs@[i], vcn as int)
                && r == run_mapping(old(self).runs@[i], vcn as int),
    {
        let n: usize = self.runs.len();
        let mut k: usize = if self.runs[self.cursor].vcn.0 <= vcn {
            self.cursor
        } else {
            0
        };
        while (vcn - self.runs[k].vcn.0) as u64 >= self.runs[k].cluster_count
            invariant
                self.wf(),
                n == self.runs@.len(),
                self.start_vcn <= vcn <= self.last_vcn,
                k < n,
                self.runs@[k as int].vcn.0 <= vcn,
            decreases n - k,
        {
            assert(self.runs@[k + 1].vcn.0 == run_end(self.runs@[k as int]));
            k = k + 1;
        }
        self.cursor = k;
        let run: NtfsDataRun = self.runs[k];
        let offset: u64 = (vcn - run.vcn.0) as u64;
        let remaining: u64 = run.cluster_count - offset;
        match run.lcn {
            Some(l) => NtfsClusterMapping::Allocated { lcn: Lcn(l.0 + offset), remaining },
            None => NtfsClusterMapping::Sparse { remaining },
        }
    }
}

/// Whether some run of `runs` holds VCN `v`.
pub open spec fn mapped(runs: Seq<NtfsDataRun>, v: int) -> bool {
    exists|i: int| 0 <= i < runs.len() && #[trigger] covers(runs[i], v)
}

/// Number of clusters that `runs` cover together.
pub open spec fn total_cluster_count(runs: Seq<NtfsDataRun>) -> int
    decreases runs.len(),
{
    if runs.len() == 0 {
        0
    } else {
        total_cluster_count(runs.drop_last()) + runs.last().cluster_count
    }
}

proof fn lemma_prefix_end(runs: Seq<NtfsDataRun>, start_vcn: int, last_vcn: int, k: int)
    requires
        runs_cover(runs, start_vcn, last_vcn),
        1 <= k <= runs.len(),
    ensures
        run_end(runs[k - 1]) == start_vcn + total_cluster_count(runs.take(k)),
    decreases k,
{
    assert(runs.take(k).drop_last() =~= runs.take(k - 1));
    if k > 1 {
        lemma_prefix_end(runs, start_vcn, last_vcn, k - 1);
        assert(runs[(k - 2) + 1].vcn.0 == run_end(runs[k - 2]));
    } else {
        assert(total_cluster_count(runs.take(0)) == 0);
    }
}

proof fn lemma_runs_ordered(runs: Seq<NtfsDataRun>, start_vcn: int, last_vcn: int, i: int, j: int)
    requires
        runs_cover(runs, start_vcn, last_vcn),
        0 <= i < j < runs.len(),
    ensures
        run_end(runs[i]) <= runs[j].vcn.0,
    decreases j - i,
{
    assert(runs[(j - 1) + 1].vcn.0 == run_end(runs[j - 1]));
    if j > i + 1 {
        lemma_runs_ordered(runs, start_vcn, last_vcn, i, j - 1);
    }
}

proof fn lemma_some_run_covers(runs: Seq<NtfsDataRun>, start_vcn: int, last_vcn: int, v: int, k: int) -> (i: int)
    requires
        runs_cover(runs, start_vcn, last_vcn),
        0 <= k < runs.len(),
        runs[k].vcn.0 <= v <= last_vcn,
    ensures
        0 <= i < runs.len(),
        covers(runs[i], v),
    decreases runs.len() - k,
{
    if v < run_end(runs[k]) {
        k
    } else {
        assert(runs[k + 1].vcn.0 == run_end(runs[k]));
        lemma_some_run_covers(runs, start_vcn, last_vcn, v, k + 1)
    }
}

/// The runs of a map cover its VCN range exactly: their lengths add up to the number
/// of VCNs from `start_vcn` to `last_vcn`, every VCN of the range lies in exactly one
/// run, and resolving the VCNs of a run gives back that run: its first VCN maps to
/// its start LCN (or to a hole) with its whole length remaining, and each following
/// VCN to the next cluster with one cluster less remaining.
pub proof fn lemma_cluster_map_round_trip(runs: Seq<NtfsDataRun>, start_vcn: int, last_vcn: int)
    requires
        runs_cover(runs, start_vcn, last_vcn),
    ensures
        total_cluster_count(runs) == last_vcn - start_vcn + 1,
        forall|v: int| start_vcn <= v <= last_vcn ==> #[trigger] mapped(runs, v),
        forall|i: int, j: int, v: int|
            0 <= i < runs.len() && 0 <= j < runs.len() && #[trigger] covers(runs[i], v) && #[trigger] covers(runs[j], v) ==> i == j,
        forall|i: int| 0 <= i < runs.len() && runs[i].cluster_count > 0 ==> #[trigger] run_mapping(runs[i], runs[i].vcn.0 as int) == match runs[i].lcn {
            Some(l) => NtfsClusterMapping::Allocated { lcn: l, remaining: runs[i].cluster_count },
            None => NtfsClusterMapping::Sparse { remaining: runs[i].cluster_count },
        },
        forall|i: int, v: int| 0 <= i < runs.len() && covers(runs[i], v) && covers(runs[i], v + 1) ==>
            match (#[trigger] run_mapping(runs[i], v), run_mapping(runs[i], v + 1)) {
                (NtfsClusterMapping::Allocated { lcn: a, remaining: m }, NtfsClusterMapping::Allocated { lcn: b, remaining: n }) =>
                    b.0 == a.0 + 1 && n == m - 1,
                (NtfsClusterMapping::Sparse { remaining: m }, NtfsClusterMapping::Sparse { remaining: n }) => n == m - 1,
                _ => false,
            },
{
    lemma_prefix_end(runs, start_vcn, last_vcn, runs.len() as int);
    assert(runs.take(runs.len() as int) =~= runs);
    assert forall|v: int| start_vcn <= v <= last_vcn implies #[trigger] mapped(runs, v) by {
        let i = lemma_some_run_covers(runs, start_vcn, last_vcn, v, 0);
    }
    assert forall|i: int, j: int, v: int|
        0 <= i < runs.len() && 0 <= j < runs.len() && #[trigger] covers(runs[i], v) && #[trigger] covers(runs[j], v) implies i == j by {
        if i < j {
            lemma_runs_ordered(runs, start_vcn, last_vcn, i, j);
        } else if j < i {
            lemma_runs_ordered(runs, start_vcn, last_vcn, j, i);
        }
    }
}

} // verus!
