//! The inventory ledger: debiting a quantity of quality from a player's
//! inventory rows to pay a cost.
//!
//! The debit is computed here as a pure function from the locked inventory
//! rows and the requested cost lines to the exact set of rows to delete; the
//! caller runs it inside one store transaction (lock, compute, delete,
//! commit) so the whole debit is atomic.
//!
//! Consumption order is fully deterministic: within one item id the rows are
//! sorted by quality descending (stably, so equal qualities keep their row
//! order) and consumed from the tail — lowest quality first — until the
//! accumulated quality meets the requested total. A cost line whose item id
//! never occurs in the rows fails with `ItemNotFound`; a cost line that
//! exhausts its rows while still short fails with `InsufficientInventory`
//! naming the shortfall. Any failure abandons the whole debit.

use vstd::prelude::*;

verus! {

/// One persisted inventory row, as the ledger sees it: a unique row id, the
/// item it holds and that item's quality in millionths.
#[derive(Clone, Copy)]
pub struct InventoryRow {
    pub row_id: u64,
    pub item_id: u32,
    pub quality_ppm: u32,
}

/// A resource requirement: an aggregate quality amount of one item type, in
/// millionths, not a unit count.
#[derive(Clone, Copy, Debug)]
pub struct ItemCost {
    pub item_id: u32,
    pub total_quality_ppm: u64,
}

/// Why a debit was refused. Either way the inventory is left untouched.
#[derive(Clone, Copy, Debug)]
pub enum DebitError {
    /// No row of this item id exists at all.
    ItemNotFound { item_id: u32 },
    /// All rows of this item id together still miss `shortfall_ppm` quality.
    InsufficientInventory { item_id: u32, shortfall_ppm: u64 },
}

/// Whether any row holds this item.
pub open spec fn rows_contain_item(rows: Seq<InventoryRow>, item_id: u32) -> bool {
    exists|i: int| 0 <= i < rows.len() && (#[trigger] rows[i]).item_id == item_id
}

/// The rows of one item that are still available: not yet consumed by an
/// earlier cost line, in their original order.
pub open spec fn available_rows(
    rows: Seq<InventoryRow>,
    consumed: Seq<u64>,
    item_id: u32,
) -> Seq<InventoryRow>
    decreases rows.len(),
{
    if rows.len() == 0 {
        Seq::empty()
    } else {
        let pre = available_rows(rows.drop_last(), consumed, item_id);
        if rows.last().item_id == item_id && !consumed.contains(rows.last().row_id) {
            pre.push(rows.last())
        } else {
            pre
        }
    }
}

/// Stable insertion into a quality-descending sequence: `r` goes after every
/// row whose quality is at least `r`'s.
pub open spec fn insert_desc(s: Seq<InventoryRow>, r: InventoryRow) -> Seq<InventoryRow>
    decreases s.len(),
{
    if s.len() == 0 {
        seq![r]
    } else if s[0].quality_ppm >= r.quality_ppm {
        seq![s[0]] + insert_desc(s.drop_first(), r)
    } else {
        seq![r] + s
    }
}

/// The first `k` elements of `s`, insertion-sorted by quality descending.
pub open spec fn sort_desc_prefix(s: Seq<InventoryRow>, k: int) -> Seq<InventoryRow>
    decreases k,
{
    if k <= 0 {
        Seq::empty()
    } else {
        insert_desc(sort_desc_prefix(s, k - 1), s[k - 1])
    }
}

/// `s` sorted by quality descending, stably.
pub open spec fn sort_desc(s: Seq<InventoryRow>) -> Seq<InventoryRow> {
    sort_desc_prefix(s, s.len() as int)
}

/// Consume rows from the tail of a quality-descending sequence — lowest
/// quality first — until the remaining requirement is met. Yields the
/// consumed row ids in consumption order, the rows left over, and the
/// shortfall (zero when the requirement was met). The row that closes the
/// requirement is always consumed, so even a zero requirement takes one
/// row.
pub open spec fn consume_rows(sorted: Seq<InventoryRow>, remaining: u64) -> (Seq<u64>, Seq<
    InventoryRow,
>, u64)
    decreases sorted.len(),
{
    if sorted.len() == 0 {
        (Seq::empty(), sorted, remaining)
    } else {
        let last = sorted.last();
        if last.quality_ppm >= remaining {
            (seq![last.row_id], sorted.drop_last(), 0u64)
        } else {
            let rest = consume_rows(sorted.drop_last(), (remaining - last.quality_ppm) as u64);
            (seq![last.row_id] + rest.0, rest.1, rest.2)
        }
    }
}

/// The debit, processing cost lines in order. `consumed` carries the row ids
/// taken by earlier cost lines, so a repeated item id keeps consuming where
/// the earlier line stopped.
pub open spec fn debit_from(
    rows: Seq<InventoryRow>,
    costs: Seq<ItemCost>,
    consumed: Seq<u64>,
) -> Result<Seq<u64>, DebitError>
    decreases costs.len(),
{
    if costs.len() == 0 {
        Ok(Seq::empty())
    } else {
        let c = costs[0];
        if !rows_contain_item(rows, c.item_id) {
            Err(DebitError::ItemNotFound { item_id: c.item_id })
        } else {
            let picked = consume_rows(
                sort_desc(available_rows(rows, consumed, c.item_id)),
                c.total_quality_ppm,
            );
            if picked.2 > 0 {
                Err(
                    DebitError::InsufficientInventory {
                        item_id: c.item_id,
                        shortfall_ppm: picked.2,
                    },
                )
            } else {
                match debit_from(rows, costs.drop_first(), consumed + picked.0) {
                    Ok(rest) => Ok(picked.0 + rest),
                    Err(e) => Err(e),
                }
            }
        }
    }
}

/// What the whole debit yields: the row ids to delete, in consumption order,
/// or the error of the first cost line that fails.
pub open spec fn debit_spec(rows: Seq<InventoryRow>, costs: Seq<ItemCost>) -> Result<
    Seq<u64>,
    DebitError,
> {
    debit_from(rows, costs, Seq::empty())
}

/// Quality never increases along the sequence.
pub open spec fn sorted_by_quality_desc(s: Seq<InventoryRow>) -> bool {
    forall|i: int, j: int|
        0 <= i <= j < s.len() ==> (#[trigger] s[i]).quality_ppm >= (#[trigger] s[j]).quality_ppm
}

/// Stable descending insertion keeps the sequence sorted, and every element
/// of the result is bounded by whichever of the old head and the new row is
/// greater.
proof fn lemma_insert_desc_sorted(s: Seq<InventoryRow>, r: InventoryRow)
    requires
        sorted_by_quality_desc(s),
    ensures
        sorted_by_quality_desc(insert_desc(s, r)),
        forall|i: int|
            0 <= i < insert_desc(s, r).len() ==> (#[trigger] insert_desc(s, r)[i]).quality_ppm
                <= (if s.len() > 0 && s[0].quality_ppm >= r.quality_ppm {
                s[0].quality_ppm
            } else {
                r.quality_ppm
            }),
    decreases s.len(),
{
    if s.len() == 0 {
    } else if s[0].quality_ppm >= r.quality_ppm {
        assert(sorted_by_quality_desc(s.drop_first()));
        lemma_insert_desc_sorted(s.drop_first(), r);
        let out = insert_desc(s, r);
        let tail = insert_desc(s.drop_first(), r);
        assert(out == seq![s[0]] + tail);
        assert forall|i: int, j: int| 0 <= i <= j < out.len() implies out[i].quality_ppm
            >= out[j].quality_ppm by {
            if i > 0 {
                assert(out[i] == tail[i - 1]);
                assert(out[j] == tail[j - 1]);
            } else if j > 0 {
                assert(out[j] == tail[j - 1]);
                assert(tail[j - 1].quality_ppm <= s[0].quality_ppm);
            }
        }
    } else {
    }
}

/// The quality-descending sort is in fact sorted.
pub proof fn lemma_sort_desc_sorted(s: Seq<InventoryRow>)
    ensures
        sorted_by_quality_desc(sort_desc(s)),
{
    lemma_sort_desc_prefix_sorted(s, s.len() as int);
}

proof fn lemma_sort_desc_prefix_sorted(s: Seq<InventoryRow>, k: int)
    ensures
        sorted_by_quality_desc(sort_desc_prefix(s, k)),
    decreases k,
{
    if k > 0 {
        lemma_sort_desc_prefix_sorted(s, k - 1);
        lemma_insert_desc_sorted(sort_desc_prefix(s, k - 1), s[k - 1]);
    }
}

/// A debit line consumes exactly a tail of the quality-descending order —
/// the lowest-quality rows, latest first — and leaves the head prefix
/// untouched. With [`lemma_sort_desc_sorted`], every row a debit leaves is
/// at least as good as every row it consumes: the policy spends a player's
/// worst items first.
pub proof fn lemma_consume_rows_takes_the_tail(sorted: Seq<InventoryRow>, remaining: u64)
    ensures
        consume_rows(sorted, remaining).0.len() <= sorted.len(),
        consume_rows(sorted, remaining).1 == sorted.subrange(
            0,
            sorted.len() - consume_rows(sorted, remaining).0.len(),
        ),
        forall|k: int|
            0 <= k < consume_rows(sorted, remaining).0.len()
                ==> consume_rows(sorted, remaining).0[k] == sorted[sorted.len() - 1 - k].row_id,
    decreases sorted.len(),
{
    let picked = consume_rows(sorted, remaining);
    if sorted.len() == 0 {
        assert(picked.1 =~= sorted.subrange(0, 0));
    } else {
        let last = sorted.last();
        if last.quality_ppm >= remaining {
            assert(picked.1 =~= sorted.subrange(0, sorted.len() - 1));
        } else {
            let rest = consume_rows(sorted.drop_last(), (remaining - last.quality_ppm) as u64);
            lemma_consume_rows_takes_the_tail(
                sorted.drop_last(),
                (remaining - last.quality_ppm) as u64,
            );
            assert(sorted.drop_last().subrange(
                0,
                sorted.drop_last().len() - rest.0.len(),
            ) =~= sorted.subrange(0, sorted.len() - picked.0.len()));
            assert forall|k: int| 0 <= k < picked.0.len() implies picked.0[k] == sorted[sorted.len()
                - 1 - k].row_id by {
                if k > 0 {
                    assert(picked.0[k] == rest.0[k - 1]);
                    assert(sorted.drop_last()[sorted.drop_last().len() - 1 - (k - 1)]
                        == sorted[sorted.len() - 1 - k]);
                }
            }
        }
    }
}

/// Every row a debit line leaves behind is at least as good as every row it
/// consumes: high-quality items are preserved for the player's benefit.
pub proof fn lemma_debit_line_spends_worst_items_first(avail: Seq<InventoryRow>, remaining: u64)
    ensures
        forall|i: int, j: int|
            0 <= i < consume_rows(sort_desc(avail), remaining).1.len() && consume_rows(
                sort_desc(avail),
                remaining,
            ).1.len() <= j < sort_desc(avail).len() ==> (#[trigger] consume_rows(
                sort_desc(avail),
                remaining,
            ).1[i]).quality_ppm >= (#[trigger] sort_desc(avail)[j]).quality_ppm,
{
    let sorted = sort_desc(avail);
    let picked = consume_rows(sorted, remaining);
    lemma_sort_desc_sorted(avail);
    lemma_consume_rows_takes_the_tail(sorted, remaining);
    assert forall|i: int, j: int|
        0 <= i < picked.1.len() && picked.1.len() <= j < sorted.len() implies (#[trigger] picked.1[i]).quality_ppm
        >= (#[trigger] sorted[j]).quality_ppm by {
        assert(picked.1[i] == sorted[i]);
    }
}

/// Inserting at the first position whose quality is below `r`'s is exactly
/// the stable descending insertion.
proof fn lemma_insert_desc_at(s: Seq<InventoryRow>, r: InventoryRow, p: int)
    requires
        0 <= p <= s.len(),
        forall|i: int| 0 <= i < p ==> (#[trigger] s[i]).quality_ppm >= r.quality_ppm,
        p == s.len() || s[p].quality_ppm < r.quality_ppm,
    ensures
        insert_desc(s, r) == s.subrange(0, p) + seq![r] + s.subrange(p, s.len() as int),
    decreases p,
{
    if p == 0 {
        if s.len() == 0 {
            assert(insert_desc(s, r) =~= s.subrange(0, 0) + seq![r] + s.subrange(0, 0));
        } else {
            assert(insert_desc(s, r) =~= s.subrange(0, 0) + seq![r] + s.subrange(
                0,
                s.len() as int,
            ));
        }
    } else {
        lemma_insert_desc_at(s.drop_first(), r, p - 1);
        assert(insert_desc(s, r) =~= s.subrange(0, p) + seq![r] + s.subrange(p, s.len() as int));
    }
}

/// Whether this id is among those already taken.
fn contains_row_id(taken: &Vec<u64>, row_id: u64) -> (b: bool)
    ensures
        b <==> taken@.contains(row_id),
{
    let n = taken.len();
    let mut i: usize = 0;
    while i < n
        invariant
            n == taken@.len(),
            i <= n,
            forall|a: int| 0 <= a < i ==> taken@[a] != row_id,
        decreases n - i,
    {
        if taken[i] == row_id {
            return true;
        }
        i = i + 1;
    }
    false
}

/// Whether any row holds this item.
fn any_row_of_item(rows: &Vec<InventoryRow>, item_id: u32) -> (b: bool)
    ensures
        b <==> rows_contain_item(rows@, item_id),
{
    let n = rows.len();
    let mut i: usize = 0;
    while i < n
        invariant
            n == rows@.len(),
            i <= n,
            forall|a: int| 0 <= a < i ==> (#[trigger] rows@[a]).item_id != item_id,
        decreases n - i,
    {
        if rows[i].item_id == item_id {
            return true;
        }
        i = i + 1;
    }
    false
}

/// The still-available rows of one item, in their original order.
fn collect_available(rows: &Vec<InventoryRow>, taken: &Vec<u64>, item_id: u32) -> (avail: Vec<
    InventoryRow,
>)
    ensures
        avail@ == available_rows(rows@, taken@, item_id),
{
    let n = rows.len();
    let mut avail: Vec<InventoryRow> = Vec::new();
    let mut i: usize = 0;
    while i < n
        invariant
            n == rows@.len(),
            i <= n,
            avail@ == available_rows(rows@.subrange(0, i as int), taken@, item_id),
        decreases n - i,
    {
        proof {
            let ext = rows@.subrange(0, i as int + 1);
            assert(ext.drop_last() =~= rows@.subrange(0, i as int));
            assert(ext.last() == rows@[i as int]);
        }
        let row = rows[i];
        if row.item_id == item_id && !contains_row_id(taken, row.row_id) {
            avail.push(row);
        }
        i = i + 1;
    }
    proof {
        assert(rows@.subrange(0, n as int) =~= rows@);
    }
    avail
}

/// Insertion sort by quality descending; stable, so rows of equal quality
/// keep their original order.
fn sort_rows_desc(rows: Vec<InventoryRow>) -> (out: Vec<InventoryRow>)
    ensures
        out@ == sort_desc(rows@),
{
    let n = rows.len();
    let mut out: Vec<InventoryRow> = Vec::new();
    let mut k: usize = 0;
    while k < n
        invariant
            n == rows@.len(),
            k <= n,
            out@ == sort_desc_prefix(rows@, k as int),
        decreases n - k,
    {
        let r = rows[k];
        let m = out.len();
        let mut pos: usize = 0;
        while pos < m && out[pos].quality_ppm >= r.quality_ppm
            invariant
                m == out@.len(),
                pos <= m,
                forall|a: int| 0 <= a < pos ==> (#[trigger] out@[a]).quality_ppm >= r.quality_ppm,
            decreases m - pos,
        {
            pos = pos + 1;
        }
        proof {
            lemma_insert_desc_at(out@, r, pos as int);
        }
        out.insert(pos, r);
        k = k + 1;
    }
    out
}

/// Debit the requested costs against the locked inventory rows.
///
/// Returns the ids of exactly the rows the debit consumes, in consumption
/// order, or the error of the first cost line that fails; nothing is
/// consumed on failure. The result is [`debit_spec`] of the inputs, so every
/// run over the same rows and costs consumes the same rows.
pub fn debit_user_inventory(rows: &Vec<InventoryRow>, costs: &Vec<ItemCost>) -> (r: Result<
    Vec<u64>,
    DebitError,
>)
    ensures
        (match r {
            Ok(ids) => debit_spec(rows@, costs@) == Ok::<Seq<u64>, DebitError>(ids@),
            Err(e) => debit_spec(rows@, costs@) == Err::<Seq<u64>, DebitError>(e),
        }),
{
    let n_costs = costs.len();
    let mut all_taken: Vec<u64> = Vec::new();
    let mut ci: usize = 0;
    proof {
        assert(costs@.skip(0) =~= costs@);
        match debit_from(rows@, costs@, Seq::<u64>::empty()) {
            Ok(rest) => {
                assert(Seq::<u64>::empty() + rest =~= rest);
            },
            Err(_) => {},
        }
    }
    while ci < n_costs
        invariant
            n_costs == costs@.len(),
            ci <= n_costs,
            debit_spec(rows@, costs@) == (match debit_from(
                rows@,
                costs@.skip(ci as int),
                all_taken@,
            ) {
                Ok(rest) => Ok::<Seq<u64>, DebitError>(all_taken@ + rest),
                Err(e) => Err::<Seq<u64>, DebitError>(e),
            }),
        decreases n_costs - ci,
    {
        let c = costs[ci];
        proof {
            assert(costs@.skip(ci as int)[0] == costs@[ci as int]);
            assert(costs@.skip(ci as int).drop_first() =~= costs@.skip(ci as int + 1));
        }
        if !any_row_of_item(rows, c.item_id) {
            return Err(DebitError::ItemNotFound { item_id: c.item_id });
        }
        let avail = collect_available(rows, &all_taken, c.item_id);
        let mut sorted = sort_rows_desc(avail);
        let ghost spec_picked = consume_rows(sorted@, c.total_quality_ppm);
        let mut taken_here: Vec<u64> = Vec::new();
        let mut remaining: u64 = c.total_quality_ppm;
        loop
            invariant_except_break
                spec_picked.0 == taken_here@ + consume_rows(sorted@, remaining).0,
                spec_picked.1 == consume_rows(sorted@, remaining).1,
                spec_picked.2 == consume_rows(sorted@, remaining).2,
            ensures
                taken_here@ == spec_picked.0,
                remaining == spec_picked.2,
            decreases sorted@.len(),
        {
            let ghost pre_sorted = sorted@;
            let ghost pre_taken = taken_here@;
            let ghost pre_rem = remaining;
            match sorted.pop() {
                None => {
                    proof {
                        assert(pre_taken + Seq::<u64>::empty() =~= pre_taken);
                    }
                    break ;
                },
                Some(row) => {
                    taken_here.push(row.row_id);
                    if row.quality_ppm as u64 >= remaining {
                        remaining = 0;
                        proof {
                            assert(pre_sorted.last() == row);
                            assert(consume_rows(pre_sorted, pre_rem).0 == seq![row.row_id]);
                            assert(pre_taken + seq![row.row_id] =~= taken_here@);
                        }
                        break ;
                    } else {
                        remaining = remaining - row.quality_ppm as u64;
                        proof {
                            assert(pre_sorted.last() == row);
                            assert(sorted@ =~= pre_sorted.drop_last());
                            assert(consume_rows(pre_sorted, pre_rem).0 == seq![row.row_id]
                                + consume_rows(sorted@, remaining).0);
                            assert(pre_taken + (seq![row.row_id] + consume_rows(
                                sorted@,
                                remaining,
                            ).0) =~= taken_here@ + consume_rows(sorted@, remaining).0);
                        }
                    }
                },
            }
        }
        if remaining > 0 {
            return Err(
                DebitError::InsufficientInventory { item_id: c.item_id, shortfall_ppm: remaining },
            );
        }
        proof {
            match debit_from(rows@, costs@.skip(ci as int + 1), all_taken@ + taken_here@) {
                Ok(rest) => {
                    assert((all_taken@ + taken_here@) + rest =~= all_taken@ + (taken_here@ + rest));
                },
                Err(_) => {},
            }
        }
        let mut th = taken_here;
        all_taken.append(&mut th);
        ci = ci + 1;
    }
    proof {
        assert(costs@.skip(n_costs as int) =~= Seq::<ItemCost>::empty());
        assert(all_taken@ + Seq::<u64>::empty() =~= all_taken@);
    }
    Ok(all_taken)
}

} // verus!
