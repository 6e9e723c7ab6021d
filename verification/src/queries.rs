//! Shaping of the inventory read queries: the aggregated per-item view with
//! its quality histogram, and the page and sort parameters of the paginated
//! view. The store delivers flat rows; everything computed from them is
//! verified here.

use vstd::prelude::*;
use vstd::multiset::Multiset;
use vstd::seq_lib::group_to_multiset_ensures;

verus! {

/// One row of the store's aggregation: totals for one item id within one
/// quality histogram bucket (buckets 1 to 32 cover qualities 0 to 1).
/// Quality and value totals are in thousandths.
#[derive(Clone, Copy, Debug)]
pub struct InventoryBucketRow {
    pub item_id: i32,
    pub total_count: u32,
    pub total_quality_milli: u64,
    pub total_value_milli: u64,
    pub quality_bucket_ix: u32,
}

/// The aggregated view of one item across a player's inventory: totals and
/// a 32-bucket quality histogram, bucket `b` holding the item count with
/// quality in the `b`-th 32nd of the range.
pub struct AggregatedItemCount {
    pub item_id: i32,
    pub total_count: u32,
    pub total_quality_milli: u64,
    pub total_value_milli: u64,
    pub quality_histogram: Vec<u32>,
}

/// Sum of `total_count` over the first `i` rows of this item.
pub open spec fn count_sum_to(rows: Seq<InventoryBucketRow>, item_id: i32, i: int) -> int
    decreases i,
{
    if i <= 0 {
        0
    } else {
        count_sum_to(rows, item_id, i - 1) + (if rows[i - 1].item_id == item_id {
            rows[i - 1].total_count as int
        } else {
            0
        })
    }
}

/// Sum of `total_quality_milli` over the first `i` rows of this item.
pub open spec fn quality_sum_to(rows: Seq<InventoryBucketRow>, item_id: i32, i: int) -> int
    decreases i,
{
    if i <= 0 {
        0
    } else {
        quality_sum_to(rows, item_id, i - 1) + (if rows[i - 1].item_id == item_id {
            rows[i - 1].total_quality_milli as int
        } else {
            0
        })
    }
}

/// Sum of `total_value_milli` over the first `i` rows of this item.
pub open spec fn value_sum_to(rows: Seq<InventoryBucketRow>, item_id: i32, i: int) -> int
    decreases i,
{
    if i <= 0 {
        0
    } else {
        value_sum_to(rows, item_id, i - 1) + (if rows[i - 1].item_id == item_id {
            rows[i - 1].total_value_milli as int
        } else {
            0
        })
    }
}

/// Sum of `total_count` over the first `i` rows of this item in this
/// histogram bucket.
pub open spec fn bucket_sum_to(
    rows: Seq<InventoryBucketRow>,
    item_id: i32,
    bucket_ix: u32,
    i: int,
) -> int
    decreases i,
{
    if i <= 0 {
        0
    } else {
        bucket_sum_to(rows, item_id, bucket_ix, i - 1) + (if rows[i - 1].item_id == item_id
            && rows[i - 1].quality_bucket_ix == bucket_ix {
            rows[i - 1].total_count as int
        } else {
            0
        })
    }
}

/// Total item count of one item id.
pub open spec fn count_sum(rows: Seq<InventoryBucketRow>, item_id: i32) -> int {
    count_sum_to(rows, item_id, rows.len() as int)
}

/// Total quality of one item id, in thousandths.
pub open spec fn quality_sum(rows: Seq<InventoryBucketRow>, item_id: i32) -> int {
    quality_sum_to(rows, item_id, rows.len() as int)
}

/// Total value of one item id, in thousandths.
pub open spec fn value_sum(rows: Seq<InventoryBucketRow>, item_id: i32) -> int {
    value_sum_to(rows, item_id, rows.len() as int)
}

/// Item count of one item id within one histogram bucket.
pub open spec fn bucket_sum(rows: Seq<InventoryBucketRow>, item_id: i32, bucket_ix: u32) -> int {
    bucket_sum_to(rows, item_id, bucket_ix, rows.len() as int)
}

/// Every row's bucket index lies in 1 to 32: what the store's fixed-width
/// bucketing of qualities inside [0, 1) produces.
pub open spec fn bucket_indices_in_range(rows: Seq<InventoryBucketRow>) -> bool {
    forall|k: int| 0 <= k < rows.len() ==> 1 <= (#[trigger] rows[k]).quality_bucket_ix <= 32
}

/// Sum of the first `b` counts of a histogram.
pub open spec fn histogram_sum_to(hist: Seq<u32>, b: int) -> int
    decreases b,
{
    if b <= 0 {
        0
    } else {
        histogram_sum_to(hist, b - 1) + hist[b - 1]
    }
}

/// Sum of all counts of a histogram.
pub open spec fn histogram_sum(hist: Seq<u32>) -> int {
    histogram_sum_to(hist, hist.len() as int)
}

/// Sum over buckets 1 to `b` of one item's per-bucket counts, over the
/// first `i` rows.
spec fn bucket_range_sum(rows: Seq<InventoryBucketRow>, item_id: i32, b: int, i: int) -> int
    decreases b,
{
    if b <= 0 {
        0
    } else {
        bucket_range_sum(rows, item_id, b - 1, i) + bucket_sum_to(rows, item_id, b as u32, i)
    }
}

/// One more row moves a bucket-range sum by its count exactly when the
/// row's item matches and its bucket index lies in the range.
proof fn lemma_bucket_range_sum_step(rows: Seq<InventoryBucketRow>, item_id: i32, b: int, i: int)
    requires
        1 <= i <= rows.len(),
        0 <= b <= 32,
    ensures
        bucket_range_sum(rows, item_id, b, i) == bucket_range_sum(rows, item_id, b, i - 1) + (
        if rows[i - 1].item_id == item_id && 1 <= rows[i - 1].quality_bucket_ix <= b {
            rows[i - 1].total_count as int
        } else {
            0
        }),
    decreases b,
{
    if b > 0 {
        lemma_bucket_range_sum_step(rows, item_id, b - 1, i);
    }
}

/// Over no rows, every bucket-range sum is zero.
proof fn lemma_bucket_range_sum_zero(rows: Seq<InventoryBucketRow>, item_id: i32, b: int)
    ensures
        bucket_range_sum(rows, item_id, b, 0) == 0,
    decreases b,
{
    if b > 0 {
        lemma_bucket_range_sum_zero(rows, item_id, b - 1);
    }
}

/// With every bucket index in 1 to 32, the 32 per-bucket counts of an item
/// partition its rows: their sum is the item's whole count.
proof fn lemma_buckets_cover_count(rows: Seq<InventoryBucketRow>, item_id: i32, i: int)
    requires
        bucket_indices_in_range(rows),
        0 <= i <= rows.len(),
    ensures
        bucket_range_sum(rows, item_id, 32, i) == count_sum_to(rows, item_id, i),
    decreases i,
{
    if i > 0 {
        lemma_buckets_cover_count(rows, item_id, i - 1);
        lemma_bucket_range_sum_step(rows, item_id, 32, i);
        assert(1 <= rows[i - 1].quality_bucket_ix <= 32);
    } else {
        lemma_bucket_range_sum_zero(rows, item_id, 32);
    }
}

/// A correct entry's histogram sums to the bucket-range sum, bucket by
/// bucket.
proof fn lemma_histogram_matches_range_sum(
    rows: Seq<InventoryBucketRow>,
    e: AggregatedItemCount,
    b: int,
)
    requires
        entry_correct(rows, e),
        0 <= b <= 32,
    ensures
        histogram_sum_to(e.quality_histogram@, b) == bucket_range_sum(
            rows,
            e.item_id,
            b,
            rows.len() as int,
        ),
    decreases b,
{
    if b > 0 {
        lemma_histogram_matches_range_sum(rows, e, b - 1);
    }
}

/// Whether any row belongs to this item.
pub open spec fn rows_have_item(rows: Seq<InventoryBucketRow>, item_id: i32) -> bool {
    exists|i: int| 0 <= i < rows.len() && (#[trigger] rows[i]).item_id == item_id
}

/// One correct output entry: its totals are the sums over the input rows of
/// its item, and its histogram has 32 buckets holding the per-bucket
/// counts.
pub open spec fn entry_correct(rows: Seq<InventoryBucketRow>, e: AggregatedItemCount) -> bool {
    &&& e.total_count == count_sum(rows, e.item_id)
    &&& e.total_quality_milli == quality_sum(rows, e.item_id)
    &&& e.total_value_milli == value_sum(rows, e.item_id)
    &&& e.quality_histogram@.len() == 32
    &&& forall|b: int|
        0 <= b < 32 ==> e.quality_histogram@[b] == bucket_sum(rows, e.item_id, (b + 1) as u32)
}

/// Prefix sums never decrease.
proof fn lemma_sums_mono(rows: Seq<InventoryBucketRow>, item_id: i32, bucket_ix: u32, i: int, j: int)
    requires
        0 <= i <= j,
    ensures
        count_sum_to(rows, item_id, i) <= count_sum_to(rows, item_id, j),
        quality_sum_to(rows, item_id, i) <= quality_sum_to(rows, item_id, j),
        value_sum_to(rows, item_id, i) <= value_sum_to(rows, item_id, j),
        bucket_sum_to(rows, item_id, bucket_ix, i) <= bucket_sum_to(rows, item_id, bucket_ix, j),
    decreases j,
{
    if i < j {
        lemma_sums_mono(rows, item_id, bucket_ix, i, j - 1);
    }
}

/// A bucket's count is at most the item's whole count.
proof fn lemma_bucket_le_count(rows: Seq<InventoryBucketRow>, item_id: i32, bucket_ix: u32, i: int)
    ensures
        bucket_sum_to(rows, item_id, bucket_ix, i) <= count_sum_to(rows, item_id, i),
    decreases i,
{
    if i > 0 {
        lemma_bucket_le_count(rows, item_id, bucket_ix, i - 1);
    }
}

/// Totals of one item over the rows.
fn item_totals(rows: &Vec<InventoryBucketRow>, item_id: i32) -> (totals: (u32, u64, u64))
    requires
        count_sum(rows@, item_id) <= u32::MAX,
        quality_sum(rows@, item_id) <= u64::MAX,
        value_sum(rows@, item_id) <= u64::MAX,
    ensures
        totals.0 == count_sum(rows@, item_id),
        totals.1 == quality_sum(rows@, item_id),
        totals.2 == value_sum(rows@, item_id),
{
    let n = rows.len();
    let mut count: u32 = 0;
    let mut quality: u64 = 0;
    let mut value: u64 = 0;
    let mut i: usize = 0;
    while i < n
        invariant
            n == rows@.len(),
            i <= n,
            count_sum(rows@, item_id) <= u32::MAX,
            quality_sum(rows@, item_id) <= u64::MAX,
            value_sum(rows@, item_id) <= u64::MAX,
            count == count_sum_to(rows@, item_id, i as int),
            quality == quality_sum_to(rows@, item_id, i as int),
            value == value_sum_to(rows@, item_id, i as int),
        decreases n - i,
    {
        proof {
            lemma_sums_mono(rows@, item_id, 1, i as int + 1, n as int);
        }
        let row = rows[i];
        if row.item_id == item_id {
            count = count + row.total_count;
            quality = quality + row.total_quality_milli;
            value = value + row.total_value_milli;
        }
        i = i + 1;
    }
    (count, quality, value)
}

/// Count of one item within one histogram bucket.
fn bucket_total(rows: &Vec<InventoryBucketRow>, item_id: i32, bucket_ix: u32) -> (count: u32)
    requires
        count_sum(rows@, item_id) <= u32::MAX,
    ensures
        count == bucket_sum(rows@, item_id, bucket_ix),
{
    let n = rows.len();
    let mut count: u32 = 0;
    let mut i: usize = 0;
    while i < n
        invariant
            n == rows@.len(),
            i <= n,
            count_sum(rows@, item_id) <= u32::MAX,
            count == bucket_sum_to(rows@, item_id, bucket_ix, i as int),
        decreases n - i,
    {
        proof {
            lemma_bucket_le_count(rows@, item_id, bucket_ix, i as int + 1);
            lemma_sums_mono(rows@, item_id, bucket_ix, i as int + 1, n as int);
        }
        let row = rows[i];
        if row.item_id == item_id && row.quality_bucket_ix == bucket_ix {
            count = count + row.total_count;
        }
        i = i + 1;
    }
    count
}

/// The 32-bucket quality histogram of one item.
fn item_histogram(rows: &Vec<InventoryBucketRow>, item_id: i32) -> (hist: Vec<u32>)
    requires
        count_sum(rows@, item_id) <= u32::MAX,
    ensures
        hist@.len() == 32,
        forall|b: int| 0 <= b < 32 ==> hist@[b] == bucket_sum(rows@, item_id, (b + 1) as u32),
{
    let mut hist: Vec<u32> = Vec::new();
    let mut b: u32 = 0;
    while b < 32
        invariant
            b <= 32,
            count_sum(rows@, item_id) <= u32::MAX,
            hist@.len() == b,
            forall|k: int| 0 <= k < b ==> hist@[k] == bucket_sum(rows@, item_id, (k + 1) as u32),
        decreases 32 - b,
    {
        let c = bucket_total(rows, item_id, b + 1);
        hist.push(c);
        b = b + 1;
    }
    hist
}

/// Whether this item id is already listed.
fn contains_item_id(ids: &Vec<i32>, item_id: i32) -> (b: bool)
    ensures
        b <==> ids@.contains(item_id),
{
    let n = ids.len();
    let mut i: usize = 0;
    while i < n
        invariant
            n == ids@.len(),
            i <= n,
            forall|a: int| 0 <= a < i ==> ids@[a] != item_id,
        decreases n - i,
    {
        if ids[i] == item_id {
            return true;
        }
        i = i + 1;
    }
    false
}

/// The distinct item ids of the rows, in first-occurrence order.
fn distinct_item_ids(rows: &Vec<InventoryBucketRow>) -> (ids: Vec<i32>)
    ensures
        forall|a: int, b: int| 0 <= a < b < ids@.len() ==> ids@[a] != ids@[b],
        forall|id: i32| ids@.contains(id) <==> rows_have_item(rows@, id),
{
    let n = rows.len();
    let mut ids: Vec<i32> = Vec::new();
    let mut i: usize = 0;
    while i < n
        invariant
            n == rows@.len(),
            i <= n,
            forall|a: int, b: int| 0 <= a < b < ids@.len() ==> ids@[a] != ids@[b],
            forall|id: i32| ids@.contains(id) <==> rows_have_item(rows@.subrange(0, i as int), id),
        decreases n - i,
    {
        let uid = rows[i].item_id;
        let ghost pre_ids = ids@;
        if !contains_item_id(&ids, uid) {
            ids.push(uid);
        }
        proof {
            let sub = rows@.subrange(0, i as int);
            let ext = rows@.subrange(0, i as int + 1);
            assert(ext.drop_last() =~= sub);
            assert(ext.last() == rows@[i as int]);
            assert forall|id: i32| ids@.contains(id) implies rows_have_item(ext, id) by {
                if pre_ids.contains(id) {
                    let k = choose|k: int| 0 <= k < sub.len() && sub[k].item_id == id;
                    assert(ext[k].item_id == id);
                } else {
                    assert(ext[i as int].item_id == id);
                }
            }
            assert forall|id: i32| rows_have_item(ext, id) implies ids@.contains(id) by {
                let k = choose|k: int| 0 <= k < ext.len() && ext[k].item_id == id;
                if k < i {
                    assert(sub[k].item_id == id);
                    assert(rows_have_item(sub, id));
                    assert(pre_ids.contains(id));
                    let j = choose|j: int| 0 <= j < pre_ids.len() && pre_ids[j] == id;
                    assert(ids@[j] == id);
                } else {
                    if pre_ids.contains(uid) {
                        let j = choose|j: int| 0 <= j < pre_ids.len() && pre_ids[j] == uid;
                        assert(ids@[j] == uid);
                    } else {
                        assert(ids@[ids@.len() - 1] == uid);
                    }
                }
            }
        }
        i = i + 1;
    }
    proof {
        assert(rows@.subrange(0, n as int) =~= rows@);
    }
    ids
}

/// Insertion sort of `(item id, count)` pairs by count, descending: the
/// same pairs, ordered.
fn sort_pairs_by_count_desc(pairs: Vec<(i32, u32)>) -> (out: Vec<(i32, u32)>)
    ensures
        out@.to_multiset() == pairs@.to_multiset(),
        forall|a: int, b: int| 0 <= a <= b < out@.len() ==> out@[a].1 >= out@[b].1,
{
    broadcast use group_to_multiset_ensures;

    let n = pairs.len();
    let mut out: Vec<(i32, u32)> = Vec::new();
    let mut k: usize = 0;
    proof {
        broadcast use group_to_multiset_ensures;

        assert(pairs@.subrange(0, 0) =~= Seq::<(i32, u32)>::empty());
        assert(Seq::<(i32, u32)>::empty().to_multiset() =~= Multiset::<(i32, u32)>::empty());
    }
    while k < n
        invariant
            n == pairs@.len(),
            k <= n,
            out@.to_multiset() == pairs@.subrange(0, k as int).to_multiset(),
            forall|a: int, b: int| 0 <= a <= b < out@.len() ==> out@[a].1 >= out@[b].1,
        decreases n - k,
    {
        let r = pairs[k];
        let m = out.len();
        let mut pos: usize = 0;
        while pos < m && out[pos].1 >= r.1
            invariant
                m == out@.len(),
                pos <= m,
                forall|a: int| 0 <= a < pos ==> (#[trigger] out@[a]).1 >= r.1,
            decreases m - pos,
        {
            pos = pos + 1;
        }
        let ghost pre_out = out@;
        out.insert(pos, r);
        proof {
            broadcast use group_to_multiset_ensures;

            assert(pairs@.subrange(0, k as int + 1) =~= pairs@.subrange(0, k as int).push(
                pairs@[k as int],
            ));
            assert(out@.remove(pos as int) =~= pre_out);
            assert(out@[pos as int] == r);
            assert(out@.remove(pos as int).to_multiset() =~= pre_out.to_multiset());
            assert(out@.to_multiset().remove(r) =~= pre_out.to_multiset());
            assert(out@.contains(r));
            assert(out@.to_multiset().count(r) > 0);
            assert(out@.to_multiset() =~= pre_out.to_multiset().insert(r));
            assert forall|a: int, b: int| 0 <= a <= b < out@.len() implies out@[a].1
                >= out@[b].1 by {
                if a < pos && b == pos {
                    assert(out@[a] == pre_out[a]);
                }
                if a == pos && b > pos {
                    assert(out@[b] == pre_out[b - 1]);
                    if pos < m {
                        assert(pre_out[pos as int].1 < r.1);
                    }
                }
            }
        }
        k = k + 1;
    }
    proof {
        assert(pairs@.subrange(0, n as int) =~= pairs@);
    }
    out
}

/// Build the aggregated inventory view from the store's bucket rows: one
/// entry per distinct item id, each holding that item's exact totals and
/// its 32-bucket quality histogram — which sums to the item's total count,
/// since the buckets partition the rows — ordered by total count
/// descending. The caller's rows carry bucket indices in 1 to 32, and its
/// totals are bounded by the machine's integers (a player cannot hold more
/// than four billion of one item).
pub fn get_user_aggregated_inventory(rows: &Vec<InventoryBucketRow>) -> (out: Vec<
    AggregatedItemCount,
>)
    requires
        bucket_indices_in_range(rows@),
        forall|id: i32| count_sum(rows@, id) <= u32::MAX,
        forall|id: i32| quality_sum(rows@, id) <= u64::MAX,
        forall|id: i32| value_sum(rows@, id) <= u64::MAX,
    ensures
        forall|j: int| 0 <= j < out@.len() ==> entry_correct(rows@, #[trigger] out@[j]),
        forall|j: int|
            0 <= j < out@.len() ==> histogram_sum((#[trigger] out@[j]).quality_histogram@)
                == out@[j].total_count,
        forall|a: int, b: int|
            0 <= a <= b < out@.len() ==> out@[a].total_count >= out@[b].total_count,
        forall|id: i32|
            (exists|j: int| 0 <= j < out@.len() && (#[trigger] out@[j]).item_id == id)
                <==> rows_have_item(rows@, id),
{
    broadcast use group_to_multiset_ensures;

    let ids = distinct_item_ids(rows);
    let n_ids = ids.len();
    let mut pairs: Vec<(i32, u32)> = Vec::new();
    let mut i: usize = 0;
    while i < n_ids
        invariant
            n_ids == ids@.len(),
            i <= n_ids,
            forall|id: i32| count_sum(rows@, id) <= u32::MAX,
            forall|id: i32| quality_sum(rows@, id) <= u64::MAX,
            forall|id: i32| value_sum(rows@, id) <= u64::MAX,
            pairs@.len() == i,
            forall|j: int|
                0 <= j < i ==> (#[trigger] pairs@[j]) == (ids@[j], count_sum(
                    rows@,
                    ids@[j],
                ) as u32),
        decreases n_ids - i,
    {
        let id = ids[i];
        let totals = item_totals(rows, id);
        pairs.push((id, totals.0));
        i = i + 1;
    }
    let ghost pairs_snap = pairs@;
    let sorted = sort_pairs_by_count_desc(pairs);
    let n_sorted = sorted.len();
    proof {
        assert forall|k: int| 0 <= k < sorted@.len() implies (#[trigger] sorted@[k]).1
            == count_sum(rows@, sorted@[k].0) && rows_have_item(rows@, sorted@[k].0) by {
            assert(sorted@.contains(sorted@[k]));
            assert(sorted@.to_multiset().count(sorted@[k]) > 0);
            assert(pairs_snap.to_multiset().count(sorted@[k]) > 0);
            assert(pairs_snap.contains(sorted@[k]));
            let p = choose|p: int| 0 <= p < pairs_snap.len() && pairs_snap[p] == sorted@[k];
            lemma_sums_mono(rows@, pairs_snap[p].0, 1, 0, rows@.len() as int);
            assert(pairs_snap[p].1 == count_sum(rows@, pairs_snap[p].0));
        }
    }
    let mut out: Vec<AggregatedItemCount> = Vec::new();
    let mut j: usize = 0;
    while j < n_sorted
        invariant
            n_sorted == sorted@.len(),
            j <= n_sorted,
            forall|id: i32| count_sum(rows@, id) <= u32::MAX,
            forall|id: i32| quality_sum(rows@, id) <= u64::MAX,
            forall|id: i32| value_sum(rows@, id) <= u64::MAX,
            forall|k: int|
                0 <= k < sorted@.len() ==> (#[trigger] sorted@[k]).1 == count_sum(
                    rows@,
                    sorted@[k].0,
                ) && rows_have_item(rows@, sorted@[k].0),
            out@.len() == j,
            forall|k: int| 0 <= k < j ==> entry_correct(rows@, #[trigger] out@[k]),
            forall|k: int| 0 <= k < j ==> (#[trigger] out@[k]).item_id == sorted@[k].0,
            forall|k: int| 0 <= k < j ==> (#[trigger] out@[k]).total_count == sorted@[k].1,
        decreases n_sorted - j,
    {
        let pair = sorted[j];
        let totals = item_totals(rows, pair.0);
        let hist = item_histogram(rows, pair.0);
        out.push(
            AggregatedItemCount {
                item_id: pair.0,
                total_count: totals.0,
                total_quality_milli: totals.1,
                total_value_milli: totals.2,
                quality_histogram: hist,
            },
        );
        j = j + 1;
    }
    proof {
        assert forall|j: int|
            0 <= j < out@.len() implies histogram_sum((#[trigger] out@[j]).quality_histogram@)
            == out@[j].total_count by {
            lemma_histogram_matches_range_sum(rows@, out@[j], 32);
            lemma_buckets_cover_count(rows@, out@[j].item_id, rows@.len() as int);
        }
        assert forall|id: i32|
            (exists|k: int| 0 <= k < out@.len() && (#[trigger] out@[k]).item_id == id)
                implies rows_have_item(rows@, id) by {
            let k = choose|k: int| 0 <= k < out@.len() && out@[k].item_id == id;
            assert(sorted@[k].0 == id);
        }
        assert forall|id: i32| rows_have_item(rows@, id) implies (exists|k: int|
            0 <= k < out@.len() && (#[trigger] out@[k]).item_id == id) by {
            lemma_sums_mono(rows@, id, 1, 0, rows@.len() as int);
            assert(ids@.contains(id));
            let jj = choose|jj: int| 0 <= jj < ids@.len() && ids@[jj] == id;
            assert(pairs_snap[jj] == (id, count_sum(rows@, id) as u32));
            assert(pairs_snap.contains((id, count_sum(rows@, id) as u32)));
            assert(pairs_snap.to_multiset().count((id, count_sum(rows@, id) as u32)) > 0);
            assert(sorted@.to_multiset().count((id, count_sum(rows@, id) as u32)) > 0);
            assert(sorted@.contains((id, count_sum(rows@, id) as u32)));
            let k = choose|k: int|
                0 <= k < sorted@.len() && sorted@[k] == (id, count_sum(rows@, id) as u32);
            assert(out@[k].item_id == id);
        }
    }
    out
}

/// How the paginated inventory view is ordered.
#[derive(Clone, Copy, Debug)]
pub enum SortBy {
    DateAcquired,
    RarityTier,
    Value,
}

/// Which way the paginated inventory view is ordered.
#[derive(Clone, Copy, Debug)]
pub enum SortDirection {
    Ascending,
    Descending,
}

/// The store column the paginated view sorts on.
pub fn inventory_sort_column(sort_by: SortBy) -> (column: &'static str)
    ensures
        (match sort_by {
            SortBy::DateAcquired => column@ == "inv.created_at"@,
            SortBy::RarityTier => column@ == "i.rarity_tier"@,
            SortBy::Value => column@ == "inv.value"@,
        }),
{
    match sort_by {
        SortBy::DateAcquired => "inv.created_at",
        SortBy::RarityTier => "i.rarity_tier",
        SortBy::Value => "inv.value",
    }
}

/// The store keyword for the sort direction.
pub fn inventory_sort_keyword(direction: SortDirection) -> (keyword: &'static str)
    ensures
        (match direction {
            SortDirection::Ascending => keyword@ == "ASC"@,
            SortDirection::Descending => keyword@ == "DESC"@,
        }),
{
    match direction {
        SortDirection::Ascending => "ASC",
        SortDirection::Descending => "DESC",
    }
}

/// The effective page parameters of the paginated view: the page size is
/// capped at 1000 rows, and the row offset is the requested page times the
/// requested (uncapped) page size.
pub fn inventory_page_params(page_size: u32, page_number: u32) -> (params: (u32, u64))
    ensures
        params.0 == (if page_size > 1000 {
            1000u32
        } else {
            page_size
        }),
        params.1 == page_number * page_size,
{
    let capped: u32 = if page_size > 1000 {
        1000
    } else {
        page_size
    };
    proof {
        assert((page_number as int) * (page_size as int) <= 0xFFFF_FFFF * 0xFFFF_FFFF)
            by (nonlinear_arith)
            requires
                page_number <= 0xFFFF_FFFF,
                page_size <= 0xFFFF_FFFF,
        ;
    }
    (capped, page_number as u64 * page_size as u64)
}

} // verus!
