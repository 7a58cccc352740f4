//! Address normalization: converting a batch of process-virtual addresses
//! into file-relative offsets plus deduplicated provenance metadata.
//!
//! The caller supplies the ordered list of file-backed memory regions for
//! the process, each already carrying the provenance of its backing file
//! (obtaining that list, and resolving backends through the cache, needs the
//! operating system and stays with the caller). A single forward scan walks
//! addresses and regions together; the unsorted entry point first indexes
//! and sorts the addresses so the same scan serves it, and writes results
//! back to the original positions.

use vstd::prelude::*;

use crate::cache::ElfCache;
use crate::cache::DFL_CACHE_MAX;
use crate::meta::Unknown;
use crate::meta::UserAddrMeta;
use crate::meta::UserAddrMetaV;
use crate::Addr;

verus! {

/// One file-backed memory region of a process: its virtual address range,
/// the file offset it was loaded from, and the provenance of its backing
/// file.
pub struct Region {
    /// First virtual address of the region.
    pub start: u64,
    /// One past the last virtual address of the region.
    pub end: u64,
    /// Offset within the backing file at which the region was loaded.
    pub file_off: u64,
    /// Provenance of the backing file.
    pub meta: UserAddrMeta,
}

/// Whether address `a` lies inside region `r`.
pub open spec fn region_contains(r: Region, a: u64) -> bool {
    r.start <= a < r.end
}

/// Well-formedness of a region list: each region is an ordinary range, the
/// list is ordered and non-overlapping, and a file offset computed for any
/// contained address fits in 64 bits.
pub open spec fn regions_wf(rs: Seq<Region>) -> bool {
    &&& forall|j: int| 0 <= j < rs.len() ==> (#[trigger] rs[j]).start <= rs[j].end
    &&& forall|i: int, j: int|
        0 <= i < j < rs.len() ==> (#[trigger] rs[i]).end <= (#[trigger] rs[j]).start
    &&& forall|j: int|
        0 <= j < rs.len() ==> (#[trigger] rs[j]).file_off + (rs[j].end - rs[j].start) <= u64::MAX
}

/// The index of the first region containing `a`, if any.
pub open spec fn region_of(rs: Seq<Region>, a: u64) -> Option<int>
    decreases rs.len(),
{
    if rs.len() == 0 {
        None
    } else if region_contains(rs[0], a) {
        Some(0)
    } else {
        match region_of(rs.drop_first(), a) {
            Some(i) => Some(i + 1),
            None => None,
        }
    }
}

/// The file-relative offset of address `a` within region `r`.
pub open spec fn file_offset(r: Region, a: u64) -> int {
    a - r.start + r.file_off
}

/// No two metadata records of `s` are structurally equal.
pub open spec fn metas_distinct(s: Seq<UserAddrMeta>) -> bool {
    forall|i: int, j: int| 0 <= i < j < s.len() ==> (#[trigger] s[i])@ != (#[trigger] s[j])@
}

/// The result of one normalization call: one `(offset, meta_index)` pair
/// per input address, in input order, beside the deduplicated metadata the
/// indices point into.
pub struct NormalizedUserAddrs {
    /// Normalized `(offset, meta_index)` pairs, one per input address.
    pub addrs: Vec<(Addr, usize)>,
    /// Deduplicated metadata; no two entries are structurally equal.
    pub meta: Vec<UserAddrMeta>,
}

/// The full contract of a normalization result: one output pair per input
/// address in input order, every metadata index valid, the offset and
/// metadata of each address determined by the region containing it (an
/// uncontained address gets offset zero and `Unknown`), the metadata
/// pairwise distinct, no orphaned metadata entry, and the metadata in
/// canonical order — each entry first needed, in ascending address order,
/// strictly before the next. The last clause makes the result a function
/// of the batch and the regions alone: both entry points are pinned to one
/// and the same result.
pub open spec fn normalized_ok(
    addrs: Seq<u64>,
    regions: Seq<Region>,
    out: &NormalizedUserAddrs,
) -> bool {
    &&& out.addrs@.len() == addrs.len()
    &&& forall|i: int| 0 <= i < addrs.len() ==> (#[trigger] out.addrs@[i]).1 < out.meta@.len()
    &&& forall|i: int|
        #![trigger out.addrs@[i]]
        0 <= i < addrs.len() ==> (match region_of(regions, addrs[i]) {
            Some(j) => out.addrs@[i].0 == file_offset(regions[j], addrs[i])
                && out.meta@[out.addrs@[i].1 as int]@ == regions[j].meta@,
            None => out.addrs@[i].0 == 0 && out.meta@[out.addrs@[i].1 as int]@
                == UserAddrMetaV::Unknown,
        })
    &&& metas_distinct(out.meta@)
    &&& forall|m: int|
        0 <= m < out.meta@.len() ==> #[trigger] addr_points_at(out.addrs@, addrs.len() as int, m)
    &&& forall|m1: int, m2: int|
        0 <= m1 < m2 < out.meta@.len() ==> #[trigger] meta_first_use_before(
            addrs,
            out.addrs@,
            m1,
            m2,
        )
}

/// Some output pair among the first `n` carries metadata index `m`.
pub open spec fn addr_points_at(out_addrs: Seq<(u64, usize)>, n: int, m: int) -> bool {
    exists|i: int| 0 <= i < n && (#[trigger] out_addrs[i]).1 == m
}

/// The metadata owed to address `a`: its containing region's, or unknown.
pub open spec fn meta_of(regions: Seq<Region>, a: u64) -> UserAddrMetaV {
    match region_of(regions, a) {
        Some(j) => regions[j].meta@,
        None => UserAddrMetaV::Unknown,
    }
}

/// Metadata entry `m1` is first needed strictly earlier, in ascending
/// address order, than entry `m2`: some address referencing `m1` lies below
/// every address referencing `m2`.
pub open spec fn meta_first_use_before(
    addrs: Seq<u64>,
    out_addrs: Seq<(u64, usize)>,
    m1: int,
    m2: int,
) -> bool {
    exists|i1: int|
        0 <= i1 < addrs.len() && (#[trigger] out_addrs[i1]).1 == m1 && (forall|i2: int|
            0 <= i2 < addrs.len() && (#[trigger] out_addrs[i2]).1 == m2 ==> addrs[i1] < addrs[i2])
}

/// If every region before `j` ends at or before `a` and region `j` contains
/// `a`, then `j` is the first region containing `a`.
proof fn lemma_region_of_some(rs: Seq<Region>, a: u64, j: int)
    requires
        0 <= j < rs.len(),
        forall|r: int| 0 <= r < j ==> (#[trigger] rs[r]).end <= a,
        region_contains(rs[j], a),
    ensures
        region_of(rs, a) == Some(j),
    decreases j,
{
    if j == 0 {
    } else {
        assert(!region_contains(rs[0], a));
        assert forall|r: int| 0 <= r < j - 1 implies (#[trigger] rs.drop_first()[r]).end <= a by {
            assert(rs.drop_first()[r] == rs[r + 1]);
        }
        assert(rs.drop_first()[j - 1] == rs[j]);
        lemma_region_of_some(rs.drop_first(), a, j - 1);
    }
}

/// If no region contains `a`, no region is found for it.
proof fn lemma_region_of_none(rs: Seq<Region>, a: u64)
    requires
        forall|r: int| 0 <= r < rs.len() ==> !region_contains(#[trigger] rs[r], a),
    ensures
        region_of(rs, a) is None,
    decreases rs.len(),
{
    if rs.len() > 0 {
        assert forall|r: int|
            0 <= r < rs.drop_first().len() implies !region_contains(
            #[trigger] rs.drop_first()[r],
            a,
        ) by {
            assert(rs.drop_first()[r] == rs[r + 1]);
        }
        lemma_region_of_none(rs.drop_first(), a);
    }
}

/// `s` is non-decreasing in the address component.
pub open spec fn sorted_pairs(s: Seq<(u64, usize)>) -> bool {
    forall|k1: int, k2: int| 0 <= k1 <= k2 < s.len() ==> (#[trigger] s[k1]).0 <= (#[trigger] s[k2]).0
}

/// `s` is non-decreasing.
pub open spec fn sorted_addrs(s: Seq<u64>) -> bool {
    forall|k1: int, k2: int| 0 <= k1 <= k2 < s.len() ==> s[k1] <= s[k2]
}

/// Some pair of `s` carries original position `i`.
pub open spec fn covers(s: Seq<(u64, usize)>, i: int) -> bool {
    exists|k: int| 0 <= k < s.len() && (#[trigger] s[k]).1 == i
}

/// `pairs` indexes the batch `addrs`: as many pairs as addresses, each pair
/// an address of the batch tagged with its original position, no position
/// twice, and every position present.
pub open spec fn pairs_wf(pairs: Seq<(u64, usize)>, addrs: Seq<u64>) -> bool {
    &&& pairs.len() == addrs.len()
    &&& forall|k: int|
        0 <= k < pairs.len() ==> (#[trigger] pairs[k]).1 < addrs.len() && pairs[k].0 == addrs[pairs[k].1 as int]
    &&& forall|k1: int, k2: int|
        0 <= k1 < k2 < pairs.len() ==> (#[trigger] pairs[k1]).1 != (#[trigger] pairs[k2]).1
    &&& forall|i: int| 0 <= i < addrs.len() ==> covers(pairs, i)
}

/// Intern a metadata record: the index of the structurally equal entry
/// already present, or of the record appended at the end.
fn intern_meta(metas: &mut Vec<UserAddrMeta>, m: UserAddrMeta) -> (idx: usize)
    requires
        metas_distinct(old(metas)@),
    ensures
        metas_distinct(final(metas)@),
        idx < final(metas)@.len(),
        final(metas)@[idx as int]@ == m@,
        old(metas)@.len() <= final(metas)@.len() <= old(metas)@.len() + 1,
        final(metas)@.len() == old(metas)@.len() + 1 ==> idx == old(metas)@.len(),
        final(metas)@.len() == old(metas)@.len() ==> idx < old(metas)@.len(),
        forall|i: int| 0 <= i < old(metas)@.len() ==> final(metas)@[i] == old(metas)@[i],
{
    let mut i: usize = 0;
    while i < metas.len()
        invariant
            i <= metas@.len(),
            forall|k: int| 0 <= k < i ==> (#[trigger] metas@[k])@ != m@,
            metas_distinct(metas@),
            metas@ == old(metas)@,
        decreases metas@.len() - i,
    {
        if metas[i].meta_eq(&m) {
            return i;
        }
        i = i + 1;
    }
    let idx = metas.len();
    metas.push(m);
    proof {
        assert forall|k1: int, k2: int|
            0 <= k1 < k2 < metas@.len() implies (#[trigger] metas@[k1])@ != (
        #[trigger] metas@[k2])@ by {
            if k2 == idx {
                assert(metas@[k1]@ != m@);
            }
        }
    }
    idx
}

/// What the scan records for one indexed address: the output at its
/// original position carries a valid metadata index, and offset and
/// metadata follow the region containing the address.
pub open spec fn pair_done(
    p: (u64, usize),
    regions: Seq<Region>,
    out: Seq<(u64, usize)>,
    metas: Seq<UserAddrMeta>,
) -> bool {
    &&& p.1 < out.len()
    &&& out[p.1 as int].1 < metas.len()
    &&& match region_of(regions, p.0) {
        Some(j) => out[p.1 as int].0 == file_offset(regions[j], p.0)
            && metas[out[p.1 as int].1 as int]@ == regions[j].meta@,
        None => out[p.1 as int].0 == 0 && metas[out[p.1 as int].1 as int]@
            == UserAddrMetaV::Unknown,
    }
}

/// Some pair among the first `k` of `pairs` has its output carrying
/// metadata index `m`.
pub open spec fn pair_points_at(
    out_addrs: Seq<(u64, usize)>,
    pairs: Seq<(u64, usize)>,
    k: int,
    m: int,
) -> bool {
    exists|kk: int| 0 <= kk < k && out_addrs[(#[trigger] pairs[kk]).1 as int].1 == m
}

/// Among the first `k` scanned pairs, one references `m` and carries
/// exactly the address `first_addr[m]` at which `m` was first needed.
spec fn pair_hits_first(
    out_addrs: Seq<(u64, usize)>,
    pairs: Seq<(u64, usize)>,
    k: int,
    first_addr: Seq<u64>,
    m: int,
) -> bool {
    exists|kk: int|
        0 <= kk < k && out_addrs[(#[trigger] pairs[kk]).1 as int].1 == m && pairs[kk].0
            == first_addr[m]
}

/// Among the first `k` scanned pairs, one referencing `m1` carries a
/// strictly smaller address than every scanned pair referencing `m2`.
spec fn pair_first_use_before(
    pairs: Seq<(u64, usize)>,
    out_addrs: Seq<(u64, usize)>,
    k: int,
    m1: int,
    m2: int,
) -> bool {
    exists|k1: int|
        0 <= k1 < k && out_addrs[(#[trigger] pairs[k1]).1 as int].1 == m1 && (forall|k2: int|
            0 <= k2 < k && out_addrs[(#[trigger] pairs[k2]).1 as int].1 == m2 ==> pairs[k1].0
                < pairs[k2].0)
}

/// The single forward scan over sorted indexed addresses and ordered
/// regions, recording each address's offset and interned metadata at its
/// original position.
fn normalize_pairs(pairs: &Vec<(u64, usize)>, regions: &Vec<Region>, n: usize) -> (out:
    NormalizedUserAddrs)
    requires
        regions_wf(regions@),
        sorted_pairs(pairs@),
        pairs@.len() == n,
        forall|k: int| 0 <= k < pairs@.len() ==> (#[trigger] pairs@[k]).1 < n,
        forall|k1: int, k2: int|
            0 <= k1 < k2 < pairs@.len() ==> (#[trigger] pairs@[k1]).1 != (#[trigger] pairs@[k2]).1,
    ensures
        out.addrs@.len() == n,
        metas_distinct(out.meta@),
        forall|k: int|
            0 <= k < pairs@.len() ==> pair_done(#[trigger] pairs@[k], regions@, out.addrs@, out.meta@),
        forall|m: int|
            0 <= m < out.meta@.len() ==> #[trigger] pair_points_at(
                out.addrs@,
                pairs@,
                pairs@.len() as int,
                m,
            ),
        forall|m1: int, m2: int|
            0 <= m1 < m2 < out.meta@.len() ==> #[trigger] pair_first_use_before(
                pairs@,
                out.addrs@,
                pairs@.len() as int,
                m1,
                m2,
            ),
{
    let ghost mut first_addr: Seq<u64> = Seq::empty();
    let mut metas: Vec<UserAddrMeta> = Vec::new();
    let mut out_addrs: Vec<(u64, usize)> = Vec::new();
    let mut fill: usize = 0;
    while fill < n
        invariant
            fill <= n,
            out_addrs@.len() == fill,
        decreases n - fill,
    {
        out_addrs.push((0u64, 0usize));
        fill = fill + 1;
    }
    let mut j: usize = 0;
    let mut k: usize = 0;
    while k < pairs.len()
        invariant
            regions_wf(regions@),
            sorted_pairs(pairs@),
            pairs@.len() == n,
            forall|kk: int| 0 <= kk < pairs@.len() ==> (#[trigger] pairs@[kk]).1 < n,
            forall|k1: int, k2: int|
                0 <= k1 < k2 < pairs@.len() ==> (#[trigger] pairs@[k1]).1 != (
                #[trigger] pairs@[k2]).1,
            j <= regions@.len(),
            k <= pairs@.len(),
            out_addrs@.len() == n,
            metas_distinct(metas@),
            k < pairs@.len() ==> forall|r: int|
                0 <= r < j ==> (#[trigger] regions@[r]).end <= pairs@[k as int].0,
            forall|kk: int|
                0 <= kk < k ==> pair_done(#[trigger] pairs@[kk], regions@, out_addrs@, metas@),
            forall|m: int|
                0 <= m < metas@.len() ==> #[trigger] pair_points_at(
                    out_addrs@,
                    pairs@,
                    k as int,
                    m,
                ),
            first_addr.len() == metas@.len(),
            forall|m1: int, m2: int|
                0 <= m1 < m2 < first_addr.len() ==> first_addr[m1] < first_addr[m2],
            forall|m: int|
                0 <= m < metas@.len() ==> (#[trigger] metas@[m])@ == meta_of(
                    regions@,
                    first_addr[m],
                ),
            forall|m: int|
                0 <= m < metas@.len() ==> #[trigger] pair_hits_first(
                    out_addrs@,
                    pairs@,
                    k as int,
                    first_addr,
                    m,
                ),
            forall|kk: int|
                0 <= kk < k ==> (#[trigger] pairs@[kk]).0 >= first_addr[out_addrs@[pairs@[kk].1 as int].1 as int],
        decreases pairs@.len() - k,
    {
        let a = pairs[k].0;
        let oi = pairs[k].1;
        while j < regions.len() && regions[j].end <= a
            invariant
                regions_wf(regions@),
                j <= regions@.len(),
                k < pairs@.len(),
                a == pairs@[k as int].0,
                forall|r: int| 0 <= r < j ==> (#[trigger] regions@[r]).end <= a,
            decreases regions@.len() - j,
        {
            j = j + 1;
        }
        let off: u64;
        let meta_val: UserAddrMeta;
        if j < regions.len() && regions[j].start <= a {
            proof {
                assert(region_contains(regions@[j as int], a));
                lemma_region_of_some(regions@, a, j as int);
            }
            off = a - regions[j].start + regions[j].file_off;
            meta_val = regions[j].meta.duplicate();
            proof {
                assert(meta_val@ == meta_of(regions@, a));
            }
        } else {
            proof {
                assert forall|r: int|
                    0 <= r < regions@.len() implies !region_contains(#[trigger] regions@[r], a) by {
                    if r < j {
                    } else {
                        assert(a < regions@[j as int].start);
                        if r > j {
                            assert(regions@[j as int].end <= regions@[r].start);
                        }
                    }
                }
                lemma_region_of_none(regions@, a);
            }
            off = 0;
            meta_val = UserAddrMeta::Unknown(Unknown {});
            proof {
                assert(meta_val@ == meta_of(regions@, a));
            }
        }
        let ghost metas_before = metas@;
        let ghost out_before = out_addrs@;
        let idx = intern_meta(&mut metas, meta_val);
        out_addrs[oi] = (off, idx);
        proof {
            assert(out_addrs@ == out_before.update(oi as int, (off, idx)));
            assert forall|kk: int|
                0 <= kk < k + 1 implies pair_done(
                #[trigger] pairs@[kk],
                regions@,
                out_addrs@,
                metas@,
            ) by {
                if kk < k {
                    assert(pair_done(pairs@[kk], regions@, out_before, metas_before));
                    assert(pairs@[kk].1 != pairs@[k as int].1);
                    assert(out_addrs@[pairs@[kk].1 as int] == out_before[pairs@[kk].1 as int]);
                } else {
                    assert(out_addrs@[oi as int] == (off, idx));
                }
            }
            assert forall|m: int|
                0 <= m < metas@.len() implies #[trigger] pair_points_at(
                out_addrs@,
                pairs@,
                k + 1,
                m,
            ) by {
                if m < metas_before.len() {
                    assert(pair_points_at(out_before, pairs@, k as int, m));
                    let kk = choose|kk: int|
                        0 <= kk < k && out_before[(#[trigger] pairs@[kk]).1 as int].1 == m;
                    assert(pairs@[kk].1 != pairs@[k as int].1);
                    assert(out_addrs@[pairs@[kk].1 as int].1 == m);
                } else {
                    assert(m == idx);
                    assert(out_addrs@[(pairs@[k as int]).1 as int].1 == m);
                }
            }
            let ghost fa0 = first_addr;
            if metas@.len() == metas_before.len() + 1 {
                // A new metadata entry: record the address at which it was
                // first needed, strictly above every earlier first use.
                assert forall|m: int| 0 <= m < metas_before.len() implies fa0[m] < a by {
                    assert(pair_hits_first(out_before, pairs@, k as int, fa0, m));
                    let kk = choose|kk: int|
                        0 <= kk < k && out_before[(#[trigger] pairs@[kk]).1 as int].1 == m
                            && pairs@[kk].0 == fa0[m];
                    assert(pairs@[kk].0 <= pairs@[k as int].0);
                    if fa0[m] == a {
                        assert(metas@[m] == metas_before[m]);
                        assert(metas@[m]@ == meta_of(regions@, a));
                        assert(metas@[idx as int]@ == meta_of(regions@, a));
                        assert(metas@[m]@ != metas@[idx as int]@);
                        assert(false);
                    }
                }
                first_addr = fa0.push(a);
                assert(forall|m: int| 0 <= m < fa0.len() ==> first_addr[m] == fa0[m]);
                assert(first_addr[idx as int] == a);
            } else {
                assert(first_addr == fa0);
            }
            assert forall|m: int|
                0 <= m < metas@.len() implies #[trigger] pair_hits_first(
                out_addrs@,
                pairs@,
                k + 1,
                first_addr,
                m,
            ) by {
                if m < metas_before.len() {
                    assert(first_addr[m] == fa0[m]);
                    assert(pair_hits_first(out_before, pairs@, k as int, fa0, m));
                    let kk = choose|kk: int|
                        0 <= kk < k && out_before[(#[trigger] pairs@[kk]).1 as int].1 == m
                            && pairs@[kk].0 == fa0[m];
                    assert(pairs@[kk].1 != pairs@[k as int].1);
                    assert(out_addrs@[pairs@[kk].1 as int].1 == m);
                } else {
                    assert(m == idx && first_addr[m] == a);
                    assert(out_addrs@[(pairs@[k as int]).1 as int].1 == m);
                    assert(pairs@[k as int].0 == a);
                }
            }
            assert forall|kk: int|
                0 <= kk < k + 1 implies (#[trigger] pairs@[kk]).0 >= first_addr[out_addrs@[pairs@[kk].1 as int].1 as int] by {
                if kk < k {
                    assert(pairs@[kk].1 != pairs@[k as int].1);
                    assert(out_addrs@[pairs@[kk].1 as int] == out_before[pairs@[kk].1 as int]);
                } else {
                    let m = out_addrs@[pairs@[kk].1 as int].1 as int;
                    assert(m == idx);
                    assert(pair_hits_first(out_addrs@, pairs@, k + 1, first_addr, m));
                    let kf = choose|kf: int|
                        0 <= kf < k + 1 && out_addrs@[(#[trigger] pairs@[kf]).1 as int].1 == m
                            && pairs@[kf].0 == first_addr[m];
                    assert(pairs@[kf].0 <= pairs@[kk].0);
                }
            }
        }
        k = k + 1;
    }
    let result = NormalizedUserAddrs { addrs: out_addrs, meta: metas };
    proof {
        assert forall|m: int|
            0 <= m < result.meta@.len() implies #[trigger] pair_points_at(
            result.addrs@,
            pairs@,
            pairs@.len() as int,
            m,
        ) by {
            assert(pair_points_at(out_addrs@, pairs@, k as int, m));
        }
        assert forall|m1: int, m2: int|
            0 <= m1 < m2 < result.meta@.len() implies #[trigger] pair_first_use_before(
            pairs@,
            result.addrs@,
            pairs@.len() as int,
            m1,
            m2,
        ) by {
            assert(pair_hits_first(out_addrs@, pairs@, k as int, first_addr, m1));
            let k1 = choose|kk: int|
                0 <= kk < k && out_addrs@[(#[trigger] pairs@[kk]).1 as int].1 == m1 && pairs@[kk].0
                    == first_addr[m1];
            assert forall|k2: int|
                0 <= k2 < pairs@.len() && result.addrs@[(#[trigger] pairs@[k2]).1 as int].1 == m2
                    implies pairs@[k1].0 < pairs@[k2].0 by {
                assert(pairs@[k2].0 >= first_addr[m2]);
                assert(first_addr[m1] < first_addr[m2]);
            }
            assert(0 <= k1 < pairs@.len() && result.addrs@[pairs@[k1].1 as int].1 == m1);
        }
    }
    result
}

/// Index a batch that is already sorted: each address keeps its position.
fn pairs_of_sorted(addrs: &Vec<u64>) -> (pairs: Vec<(u64, usize)>)
    requires
        sorted_addrs(addrs@),
    ensures
        pairs_wf(pairs@, addrs@),
        sorted_pairs(pairs@),
{
    let mut pairs: Vec<(u64, usize)> = Vec::new();
    let mut i: usize = 0;
    while i < addrs.len()
        invariant
            i <= addrs@.len(),
            pairs@.len() == i,
            forall|k: int|
                0 <= k < i ==> (#[trigger] pairs@[k]).0 == addrs@[k] && pairs@[k].1 == k,
        decreases addrs@.len() - i,
    {
        let a = addrs[i];
        pairs.push((a, i));
        i = i + 1;
    }
    proof {
        assert forall|i2: int| 0 <= i2 < addrs@.len() implies covers(pairs@, i2) by {
            assert(pairs@[i2].1 == i2);
        }
        assert forall|k1: int, k2: int|
            0 <= k1 <= k2 < pairs@.len() implies (#[trigger] pairs@[k1]).0 <= (
        #[trigger] pairs@[k2]).0 by {
            assert(addrs@[k1] <= addrs@[k2]);
        }
    }
    pairs
}

/// Index a batch in any order and sort the index by address value,
/// preserving each address's original position, so the same forward scan
/// serves unsorted input.
fn pairs_of_unsorted(addrs: &Vec<u64>) -> (pairs: Vec<(u64, usize)>)
    ensures
        pairs_wf(pairs@, addrs@),
        sorted_pairs(pairs@),
{
    let mut pairs: Vec<(u64, usize)> = Vec::new();
    let mut i: usize = 0;
    while i < addrs.len()
        invariant
            i <= addrs@.len(),
            pairs@.len() == i,
            sorted_pairs(pairs@),
            forall|k: int|
                0 <= k < pairs@.len() ==> (#[trigger] pairs@[k]).1 < i && pairs@[k].0
                    == addrs@[pairs@[k].1 as int],
            forall|k1: int, k2: int|
                0 <= k1 < k2 < pairs@.len() ==> (#[trigger] pairs@[k1]).1 != (
                #[trigger] pairs@[k2]).1,
            forall|i2: int| 0 <= i2 < i ==> covers(pairs@, i2),
        decreases addrs@.len() - i,
    {
        let a = addrs[i];
        let mut p: usize = 0;
        while p < pairs.len() && pairs[p].0 <= a
            invariant
                p <= pairs@.len(),
                forall|q: int| 0 <= q < p ==> (#[trigger] pairs@[q]).0 <= a,
            decreases pairs@.len() - p,
        {
            p = p + 1;
        }
        let ghost sp = pairs@;
        pairs.insert(p, (a, i));
        proof {
            assert(pairs@ == sp.insert(p as int, (a, i as usize)));
            sp.insert_ensures(p as int, (a, i as usize));
            assert forall|k1: int, k2: int|
                0 <= k1 <= k2 < pairs@.len() implies (#[trigger] pairs@[k1]).0 <= (
            #[trigger] pairs@[k2]).0 by {
                if k1 < p {
                    assert(pairs@[k1] == sp[k1]);
                } else if k1 == p {
                    assert(pairs@[k1] == (a, i as usize));
                } else {
                    assert(pairs@[k1] == sp[k1 - 1]);
                }
                if k2 < p {
                    assert(pairs@[k2] == sp[k2]);
                } else if k2 == p {
                    assert(pairs@[k2] == (a, i as usize));
                } else {
                    assert(pairs@[k2] == sp[k2 - 1]);
                    assert(p < sp.len() ==> sp[p as int].0 > a);
                    assert(k2 - 1 >= p);
                }
            }
            assert forall|k1: int, k2: int|
                0 <= k1 < k2 < pairs@.len() implies (#[trigger] pairs@[k1]).1 != (
            #[trigger] pairs@[k2]).1 by {
                let s1: int = if k1 < p { k1 } else { k1 - 1 };
                let s2: int = if k2 <= p { k2 - 1 } else { k2 - 1 };
                if k1 == p {
                    assert(pairs@[k1].1 == i);
                    assert(pairs@[k2] == sp[k2 - 1] && sp[k2 - 1].1 < i);
                } else if k2 == p {
                    assert(pairs@[k2].1 == i);
                    assert(pairs@[k1] == sp[k1] && sp[k1].1 < i);
                } else if k2 < p {
                    assert(pairs@[k1] == sp[k1] && pairs@[k2] == sp[k2]);
                } else if k1 > p {
                    assert(pairs@[k1] == sp[k1 - 1] && pairs@[k2] == sp[k2 - 1]);
                } else {
                    assert(pairs@[k1] == sp[k1] && pairs@[k2] == sp[k2 - 1]);
                    assert(sp[k1].1 != sp[k2 - 1].1 || k1 == k2 - 1);
                    if k1 == k2 - 1 {
                        assert(pairs@[k1] == sp[k1] && pairs@[k2] == sp[k1]);
                        assert(sp[k1].1 < i);
                        assert(false) by {
                            assert(pairs@[p as int] == (a, i as usize));
                            assert(k1 < p < k2);
                        }
                    }
                }
            }
            assert forall|i2: int| 0 <= i2 < i + 1 implies covers(pairs@, i2) by {
                if i2 == i {
                    assert(pairs@[p as int].1 == i2);
                } else {
                    assert(covers(sp, i2));
                    let kk = choose|kk: int| 0 <= kk < sp.len() && (#[trigger] sp[kk]).1 == i2;
                    if kk < p {
                        assert(pairs@[kk] == sp[kk]) by {
                            assert(sp.insert(p as int, (a, i as usize))[kk] == sp[kk]);
                        }
                        assert(pairs@[kk].1 == i2);
                    } else {
                        assert(pairs@[kk + 1] == sp[kk]) by {
                            assert(sp.insert(p as int, (a, i as usize))[kk + 1] == sp[kk]);
                        }
                        assert(pairs@[kk + 1].1 == i2);
                    }
                }
            }
            assert forall|k: int|
                0 <= k < pairs@.len() implies (#[trigger] pairs@[k]).1 < i + 1 && pairs@[k].0
                    == addrs@[pairs@[k].1 as int] by {
                if k < p {
                    assert(pairs@[k] == sp[k]);
                } else if k == p {
                    assert(pairs@[k] == (a, i as usize));
                } else {
                    assert(pairs@[k] == sp[k - 1]);
                }
            }
        }
        i = i + 1;
    }
    proof {
        assert(pairs@.len() == addrs@.len());
    }
    pairs
}

/// Lift the per-pair guarantees of the scan to the per-address contract of
/// a normalization result.
proof fn lemma_normalized_from_pairs(
    addrs: Seq<u64>,
    regions: Seq<Region>,
    pairs: Seq<(u64, usize)>,
    out: &NormalizedUserAddrs,
)
    requires
        pairs_wf(pairs, addrs),
        out.addrs@.len() == addrs.len(),
        metas_distinct(out.meta@),
        forall|k: int|
            0 <= k < pairs.len() ==> pair_done(#[trigger] pairs[k], regions, out.addrs@, out.meta@),
        forall|m: int|
            0 <= m < out.meta@.len() ==> #[trigger] pair_points_at(
                out.addrs@,
                pairs,
                pairs.len() as int,
                m,
            ),
        forall|m1: int, m2: int|
            0 <= m1 < m2 < out.meta@.len() ==> #[trigger] pair_first_use_before(
                pairs,
                out.addrs@,
                pairs.len() as int,
                m1,
                m2,
            ),
    ensures
        normalized_ok(addrs, regions, out),
{
    assert forall|i: int| #![trigger out.addrs@[i]] 0 <= i < addrs.len() implies out.addrs@[i].1
        < out.meta@.len() && (match region_of(regions, addrs[i]) {
        Some(j) => out.addrs@[i].0 == file_offset(regions[j], addrs[i])
            && out.meta@[out.addrs@[i].1 as int]@ == regions[j].meta@,
        None => out.addrs@[i].0 == 0 && out.meta@[out.addrs@[i].1 as int]@
            == UserAddrMetaV::Unknown,
    }) by {
        assert(covers(pairs, i));
        let kk = choose|kk: int| 0 <= kk < pairs.len() && (#[trigger] pairs[kk]).1 == i;
        assert(pair_done(pairs[kk], regions, out.addrs@, out.meta@));
        assert(pairs[kk].0 == addrs[i]);
    }
    assert forall|m: int|
        0 <= m < out.meta@.len() implies #[trigger] addr_points_at(
        out.addrs@,
        addrs.len() as int,
        m,
    ) by {
        assert(pair_points_at(out.addrs@, pairs, pairs.len() as int, m));
        let kk = choose|kk: int|
            0 <= kk < pairs.len() && out.addrs@[(#[trigger] pairs[kk]).1 as int].1 == m;
        assert(pairs[kk].1 < addrs.len());
        assert(out.addrs@[pairs[kk].1 as int].1 == m);
    }
    assert forall|m1: int, m2: int|
        0 <= m1 < m2 < out.meta@.len() implies #[trigger] meta_first_use_before(
        addrs,
        out.addrs@,
        m1,
        m2,
    ) by {
        assert(pair_first_use_before(pairs, out.addrs@, pairs.len() as int, m1, m2));
        let k1 = choose|k1: int|
            0 <= k1 < pairs.len() && out.addrs@[(#[trigger] pairs[k1]).1 as int].1 == m1 && (
            forall|k2: int|
                0 <= k2 < pairs.len() && out.addrs@[(#[trigger] pairs[k2]).1 as int].1 == m2
                    ==> pairs[k1].0 < pairs[k2].0);
        let i1 = pairs[k1].1 as int;
        assert(addrs[i1] == pairs[k1].0);
        assert forall|i2: int|
            0 <= i2 < addrs.len() && (#[trigger] out.addrs@[i2]).1 == m2 implies addrs[i1]
            < addrs[i2] by {
            assert(covers(pairs, i2));
            let k2 = choose|kk: int| 0 <= kk < pairs.len() && (#[trigger] pairs[kk]).1 == i2;
            assert(addrs[i2] == pairs[k2].0);
            assert(out.addrs@[pairs[k2].1 as int].1 == m2);
            assert(pairs[k1].0 < pairs[k2].0);
        }
        assert(0 <= i1 < addrs.len() && out.addrs@[i1].1 == m1);
    }
}

/// The address normalizer: owns the resolver cache that callers use to
/// produce the backends behind each region's provenance.
pub struct Normalizer {
    /// The resolver cache for the backing files of this process's regions.
    pub cache: ElfCache,
}

impl Normalizer {
    /// A normalizer with a default resolver cache: bounded at the default
    /// capacity, debug-format resolution on, line-number information on,
    /// debug symbols off.
    pub fn new() -> (n: Normalizer)
        ensures
            n.cache.wf(),
            n.cache.entries() == Seq::<(Seq<u8>, crate::cache::ElfCacheEntry)>::empty(),
            n.cache.bound() == DFL_CACHE_MAX,
            n.cache.is_bounded(),
            n.cache.debug_format_on(),
            n.cache.line_number_info_on(),
            !n.cache.debug_info_symbols_on(),
    {
        Normalizer { cache: ElfCache::new(true, false) }
    }

    /// Normalize a batch of addresses that is already sorted in ascending
    /// order, against the process's ordered file-backed regions.
    pub fn normalize_user_addrs_sorted(&self, addrs: &Vec<u64>, regions: &Vec<Region>) -> (r:
        NormalizedUserAddrs)
        requires
            sorted_addrs(addrs@),
            regions_wf(regions@),
        ensures
            normalized_ok(addrs@, regions@, &r),
    {
        let pairs = pairs_of_sorted(addrs);
        let out = normalize_pairs(&pairs, regions, addrs.len());
        proof {
            lemma_normalized_from_pairs(addrs@, regions@, pairs@, &out);
        }
        out
    }

    /// Normalize a batch of addresses in any order, against the process's
    /// ordered file-backed regions; the output keeps the input order.
    pub fn normalize_user_addrs(&self, addrs: &Vec<u64>, regions: &Vec<Region>) -> (r:
        NormalizedUserAddrs)
        requires
            regions_wf(regions@),
        ensures
            normalized_ok(addrs@, regions@, &r),
    {
        let pairs = pairs_of_unsorted(addrs);
        let out = normalize_pairs(&pairs, regions, addrs.len());
        proof {
            lemma_normalized_from_pairs(addrs@, regions@, pairs@, &out);
        }
        out
    }
}

/// The per-address clause, at one index: the metadata entry an address
/// points at carries exactly the metadata the address is owed.
proof fn lemma_ref_value(addrs: Seq<u64>, regions: Seq<Region>, o: &NormalizedUserAddrs, i: int)
    requires
        normalized_ok(addrs, regions, o),
        0 <= i < addrs.len(),
    ensures
        o.addrs@[i].1 < o.meta@.len(),
        o.meta@[o.addrs@[i].1 as int]@ == meta_of(regions, addrs[i]),
{
}

/// Distinctness read backwards: an entry carrying the metadata an address
/// is owed is the entry that address points at.
proof fn lemma_value_pins_index(
    addrs: Seq<u64>,
    regions: Seq<Region>,
    o: &NormalizedUserAddrs,
    i: int,
    m: int,
)
    requires
        normalized_ok(addrs, regions, o),
        0 <= i < addrs.len(),
        0 <= m < o.meta@.len(),
        o.meta@[m]@ == meta_of(regions, addrs[i]),
    ensures
        o.addrs@[i].1 == m,
{
    lemma_ref_value(addrs, regions, o, i);
    let p = o.addrs@[i].1 as int;
    if p < m {
        assert(o.meta@[p]@ != o.meta@[m]@);
    } else if m < p {
        assert(o.meta@[m]@ != o.meta@[p]@);
    }
}

/// The first `m` metadata entries of any two results for one batch agree.
proof fn lemma_metas_align(
    addrs: Seq<u64>,
    regions: Seq<Region>,
    o1: &NormalizedUserAddrs,
    o2: &NormalizedUserAddrs,
    m: int,
)
    requires
        normalized_ok(addrs, regions, o1),
        normalized_ok(addrs, regions, o2),
        0 <= m,
        m <= o1.meta@.len(),
        m <= o2.meta@.len(),
    ensures
        forall|m0: int| 0 <= m0 < m ==> (#[trigger] o1.meta@[m0])@ == (#[trigger] o2.meta@[m0])@,
    decreases m,
{
    if m > 0 {
        lemma_metas_align(addrs, regions, o1, o2, m - 1);
        let mm = m - 1;
        let n = addrs.len() as int;
        assert(addr_points_at(o1.addrs@, n, mm));
        let i1 = choose|i: int| 0 <= i < n && (#[trigger] o1.addrs@[i]).1 == mm;
        lemma_ref_value(addrs, regions, o1, i1);
        lemma_ref_value(addrs, regions, o2, i1);
        let m2 = o2.addrs@[i1].1 as int;
        if m2 == mm {
            assert(o1.meta@[mm]@ == o2.meta@[mm]@);
        } else if m2 < mm {
            assert(o1.meta@[m2]@ == o2.meta@[m2]@);
            assert(o1.meta@[m2]@ == o1.meta@[mm]@);
            assert(false);
        } else {
            assert(addr_points_at(o2.addrs@, n, mm));
            let i2 = choose|i: int| 0 <= i < n && (#[trigger] o2.addrs@[i]).1 == mm;
            lemma_ref_value(addrs, regions, o2, i2);
            lemma_ref_value(addrs, regions, o1, i2);
            let m1p = o1.addrs@[i2].1 as int;
            if m1p == mm {
                assert(o1.meta@[mm]@ == o2.meta@[mm]@);
            } else if m1p < mm {
                assert(o1.meta@[m1p]@ == o2.meta@[m1p]@);
                assert(o2.meta@[m1p]@ == o2.meta@[mm]@);
                assert(false);
            } else {
                // Both results place the same value later than the other:
                // their first-use orders contradict each other.
                assert(meta_first_use_before(addrs, o1.addrs@, mm, m1p));
                assert(meta_first_use_before(addrs, o2.addrs@, mm, m2));
                let j1 = choose|i: int|
                    0 <= i < addrs.len() && (#[trigger] o1.addrs@[i]).1 == mm && (forall|j2: int|
                        0 <= j2 < addrs.len() && (#[trigger] o1.addrs@[j2]).1 == m1p ==> addrs[i]
                            < addrs[j2]);
                let l1 = choose|i: int|
                    0 <= i < addrs.len() && (#[trigger] o2.addrs@[i]).1 == mm && (forall|j2: int|
                        0 <= j2 < addrs.len() && (#[trigger] o2.addrs@[j2]).1 == m2 ==> addrs[i]
                            < addrs[j2]);
                lemma_ref_value(addrs, regions, o2, l1);
                lemma_value_pins_index(addrs, regions, o1, l1, m1p);
                lemma_ref_value(addrs, regions, o1, j1);
                lemma_value_pins_index(addrs, regions, o2, j1, m2);
                assert(addrs[j1] < addrs[l1]);
                assert(addrs[l1] < addrs[j1]);
                assert(false);
            }
        }
    }
}

/// Law: the contract pins the whole result. Any two results for one batch
/// and one region list agree — the same output pairs, the same metadata in
/// the same order — so the sorted and the unsorted entry point return
/// identical results on sorted input.
pub proof fn lemma_normalize_deterministic(
    addrs: Seq<u64>,
    regions: Seq<Region>,
    o1: &NormalizedUserAddrs,
    o2: &NormalizedUserAddrs,
)
    requires
        normalized_ok(addrs, regions, o1),
        normalized_ok(addrs, regions, o2),
    ensures
        o1.addrs@ == o2.addrs@,
        o1.meta@.len() == o2.meta@.len(),
        forall|m: int| 0 <= m < o1.meta@.len() ==> (#[trigger] o1.meta@[m])@ == (
        #[trigger] o2.meta@[m])@,
{
    let n = addrs.len() as int;
    let len1 = o1.meta@.len() as int;
    let len2 = o2.meta@.len() as int;
    let minl: int = if len1 <= len2 { len1 } else { len2 };
    lemma_metas_align(addrs, regions, o1, o2, minl);
    if len1 < len2 {
        assert(addr_points_at(o2.addrs@, n, len1));
        let i = choose|i: int| 0 <= i < n && (#[trigger] o2.addrs@[i]).1 == len1;
        lemma_ref_value(addrs, regions, o2, i);
        lemma_ref_value(addrs, regions, o1, i);
        let mq = o1.addrs@[i].1 as int;
        assert(o2.meta@[mq]@ == o1.meta@[mq]@);
        assert(o2.meta@[mq]@ == o2.meta@[len1]@);
        assert(false);
    }
    if len2 < len1 {
        assert(addr_points_at(o1.addrs@, n, len2));
        let i = choose|i: int| 0 <= i < n && (#[trigger] o1.addrs@[i]).1 == len2;
        lemma_ref_value(addrs, regions, o1, i);
        lemma_ref_value(addrs, regions, o2, i);
        let mq = o2.addrs@[i].1 as int;
        assert(o1.meta@[mq]@ == o2.meta@[mq]@);
        assert(o1.meta@[mq]@ == o1.meta@[len2]@);
        assert(false);
    }
    assert forall|i: int| 0 <= i < n implies #[trigger] o1.addrs@[i] == o2.addrs@[i] by {
        lemma_ref_value(addrs, regions, o1, i);
        lemma_ref_value(addrs, regions, o2, i);
        let p = o1.addrs@[i].1 as int;
        let q = o2.addrs@[i].1 as int;
        assert(o1.meta@[q]@ == o2.meta@[q]@);
        assert(o1.meta@[p]@ == o1.meta@[q]@);
        if p < q {
            assert(false);
        } else if q < p {
            assert(false);
        }
        assert(o1.addrs@[i].0 == o2.addrs@[i].0);
    }
    assert(o1.addrs@ =~= o2.addrs@);
}

/// Law: two addresses of one batch that resolve into the same backing
/// region share a single metadata entry — their metadata indices are equal.
pub proof fn lemma_meta_dedup(
    addrs: Seq<u64>,
    regions: Seq<Region>,
    out: &NormalizedUserAddrs,
    i1: int,
    i2: int,
)
    requires
        normalized_ok(addrs, regions, out),
        0 <= i1 < addrs.len(),
        0 <= i2 < addrs.len(),
        region_of(regions, addrs[i1]) == region_of(regions, addrs[i2]),
        region_of(regions, addrs[i1]) is Some,
    ensures
        out.addrs@[i1].1 == out.addrs@[i2].1,
{
    let m1 = out.addrs@[i1].1 as int;
    let m2 = out.addrs@[i2].1 as int;
    assert(out.meta@[m1]@ == out.meta@[m2]@);
    if m1 < m2 {
        assert(false);
    } else if m2 < m1 {
        assert(false);
    }
}

/// Law: a batch of no addresses normalizes to no output pairs and no
/// metadata — an empty result, not an error.
pub proof fn lemma_empty_batch(addrs: Seq<u64>, regions: Seq<Region>, out: &NormalizedUserAddrs)
    requires
        normalized_ok(addrs, regions, out),
        addrs.len() == 0,
    ensures
        out.addrs@.len() == 0,
        out.meta@.len() == 0,
{
    if out.meta@.len() > 0 {
        assert(addr_points_at(out.addrs@, addrs.len() as int, 0));
        assert(false);
    }
}

} // verus!
