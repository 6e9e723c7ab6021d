//! Weighted, recursively nestable loot tables and the loot roll.
//!
//! A table is an ordered list of weighted entries; an entry is either a
//! terminal item entry or a nested subtable. A roll draws a number below the
//! table's total weight, picks the entry whose weight interval contains the
//! draw, and recurses into subtables until an item entry is reached.
//!
//! Quality is always strictly inside `(0, 1)`. A `Uniform` entry draws it
//! here, uniformly over the open interval's grid points. A `Normal` entry
//! needs a normal-distributed sample, which only the caller can produce;
//! the roll then hands back a [`NormalQualityRequest`], and
//! [`complete_with_normal_sample`] accepts a sample exactly when it lies
//! strictly inside `(0, 1)` — the rejection rule that guards against
//! degenerate or unbounded tails.

use vstd::prelude::*;
use vstd::set_lib::lemma_int_range;

use crate::rng::gen_range_u64;
use crate::QUALITY_SCALE;

verus! {

/// How an item entry's quality is sampled. Parameters are in millionths.
pub enum QualityDistribution {
    Uniform,
    Normal { mean_ppm: i64, std_dev_ppm: i64 },
}

/// A terminal loot table entry: an item id with a weight and a quality
/// distribution.
pub struct LootTableItemEntry {
    pub weight: u64,
    pub id: u32,
    pub quality_distribution: QualityDistribution,
}

/// One weighted entry of a loot table.
pub enum LootTableEntry {
    Item(LootTableItemEntry),
    Subtable { weight: u64, table: Box<LootTable> },
}

/// An ordered list of weighted entries.
pub struct LootTable(pub Vec<LootTableEntry>);

/// An item produced by a roll. The value in currency is derived from the
/// quality by the caller; see `items::item_base_value_centi`.
pub struct GeneratedItem {
    pub item_id: u32,
    pub quality_ppm: u32,
}

/// A roll that stopped at a `Normal` item entry and needs one
/// normal-distributed sample (in millionths) to finish.
pub struct NormalQualityRequest {
    pub item_id: u32,
    pub mean_ppm: i64,
    pub std_dev_ppm: i64,
}

/// The result of a roll: either a finished item, or a request for a normal
/// quality sample.
pub enum RollOutcome {
    Ready(GeneratedItem),
    NeedsNormalSample(NormalQualityRequest),
}

/// The weight of an entry, whichever variant it is.
pub open spec fn entry_weight(e: LootTableEntry) -> int {
    match e {
        LootTableEntry::Item(it) => it.weight as int,
        LootTableEntry::Subtable { weight, .. } => weight as int,
    }
}

/// Sum of the weights of `entries[0], ..., entries[i - 1]`.
pub open spec fn weight_prefix(entries: Seq<LootTableEntry>, i: int) -> int
    decreases i,
{
    if i <= 0 {
        0
    } else {
        weight_prefix(entries, i - 1) + entry_weight(entries[i - 1])
    }
}

/// The table's total weight.
pub open spec fn total_weight(entries: Seq<LootTableEntry>) -> int {
    weight_prefix(entries, entries.len() as int)
}

/// A valid entry: a subtable must itself be a valid table.
pub open spec fn entry_wf(e: LootTableEntry) -> bool
    decreases e,
{
    match e {
        LootTableEntry::Item(_) => true,
        LootTableEntry::Subtable { table, .. } => table_wf(*table),
    }
}

/// A valid table: positive total weight that fits the machine's arithmetic,
/// and valid entries all the way down. A table with zero total weight is
/// invalid (a roll could not pick anything).
pub open spec fn table_wf(t: LootTable) -> bool
    decreases t,
{
    &&& 0 < total_weight(t.0@) <= u64::MAX
    &&& forall|i: int| 0 <= i < t.0@.len() ==> entry_wf(#[trigger] t.0@[i])
}

/// Whether `e` is one of the item entries reachable in `t`, at any depth.
pub open spec fn table_has_item(t: LootTable, e: LootTableItemEntry) -> bool
    decreases t,
{
    exists|i: int| 0 <= i < t.0@.len() && entry_has_item(#[trigger] t.0@[i], e)
}

/// Whether `e` is, or is reachable from, the entry `en`.
pub open spec fn entry_has_item(en: LootTableEntry, e: LootTableItemEntry) -> bool
    decreases en,
{
    match en {
        LootTableEntry::Item(it) => it == e,
        LootTableEntry::Subtable { table, .. } => table_has_item(*table, e),
    }
}

/// What a finished roll guarantees: the item comes from an entry of the
/// table, and its quality is in range for its distribution.
pub open spec fn roll_outcome_ok(t: LootTable, out: RollOutcome) -> bool {
    match out {
        RollOutcome::Ready(g) => {
            &&& 0 < g.quality_ppm < QUALITY_SCALE
            &&& exists|e: LootTableItemEntry|
                table_has_item(t, e) && e.id == g.item_id && e.quality_distribution is Uniform
        },
        RollOutcome::NeedsNormalSample(p) => exists|e: LootTableItemEntry|
            table_has_item(t, e) && e.id == p.item_id && e.quality_distribution
                == (QualityDistribution::Normal { mean_ppm: p.mean_ppm, std_dev_ppm: p.std_dev_ppm }),
    }
}

/// Weight prefix sums never decrease: every weight is non-negative.
pub proof fn lemma_weight_prefix_mono(entries: Seq<LootTableEntry>, i: int, j: int)
    requires
        0 <= i <= j,
    ensures
        weight_prefix(entries, i) <= weight_prefix(entries, j),
    decreases j,
{
    if i < j {
        lemma_weight_prefix_mono(entries, i, j - 1);
    }
}

/// A draw below the total weight falls in exactly one entry's interval.
pub proof fn lemma_selection_unique(entries: Seq<LootTableEntry>, r: int, i: int, j: int)
    requires
        0 <= i < entries.len(),
        0 <= j < entries.len(),
        weight_prefix(entries, i) <= r < weight_prefix(entries, i + 1),
        weight_prefix(entries, j) <= r < weight_prefix(entries, j + 1),
    ensures
        i == j,
{
    if i < j {
        lemma_weight_prefix_mono(entries, i + 1, j);
    }
    if j < i {
        lemma_weight_prefix_mono(entries, j + 1, i);
    }
}

/// Of the `total_weight(entries)` equally likely draws, exactly
/// `entry_weight(entries[i])` select entry `i`: the chance of each entry is
/// proportional to its weight.
pub proof fn lemma_weighted_choice_frequency(entries: Seq<LootTableEntry>, i: int)
    requires
        0 <= i < entries.len(),
    ensures
        Set::new(
            |r: int| weight_prefix(entries, i) <= r < weight_prefix(entries, i + 1),
        ).len() == entry_weight(entries[i]),
        Set::new(
            |r: int| weight_prefix(entries, i) <= r < weight_prefix(entries, i + 1),
        ).subset_of(Set::new(|r: int| 0 <= r < total_weight(entries))),
{
    let lo = weight_prefix(entries, i);
    let hi = weight_prefix(entries, i + 1);
    lemma_int_range(lo, hi);
    assert(Set::new(|r: int| lo <= r < hi) =~= vstd::set_lib::set_int_range(lo, hi));
    lemma_weight_prefix_mono(entries, 0, i);
    lemma_weight_prefix_mono(entries, i + 1, entries.len() as int);
}

impl LootTableEntry {
    /// The entry's weight, whichever variant it is.
    pub fn weight(&self) -> (w: u64)
        ensures
            w as int == entry_weight(*self),
    {
        match self {
            LootTableEntry::Item(entry) => entry.weight,
            LootTableEntry::Subtable { weight, .. } => *weight,
        }
    }
}

impl LootTable {
    /// Sum of all entry weights.
    pub fn total_weight(&self) -> (t: u64)
        requires
            table_wf(*self),
        ensures
            t as int == total_weight(self.0@),
    {
        let mut acc: u64 = 0;
        let mut i: usize = 0;
        while i < self.0.len()
            invariant
                table_wf(*self),
                i <= self.0@.len(),
                acc as int == weight_prefix(self.0@, i as int),
            decreases self.0@.len() - i,
        {
            proof {
                lemma_weight_prefix_mono(self.0@, i as int + 1, self.0@.len() as int);
            }
            let w = self.0[i].weight();
            acc = acc + w;
            i = i + 1;
        }
        acc
    }

    /// The index of the entry whose weight interval contains the draw `r`:
    /// entry `i` is selected exactly when
    /// `weight_prefix(i) <= r < weight_prefix(i) + entry_weight(i)`.
    pub fn select_index(&self, r: u64) -> (idx: usize)
        requires
            table_wf(*self),
            (r as int) < total_weight(self.0@),
        ensures
            idx < self.0@.len(),
            weight_prefix(self.0@, idx as int) <= r as int,
            (r as int) < weight_prefix(self.0@, idx as int + 1),
    {
        let n = self.0.len();
        let mut acc: u64 = 0;
        let mut i: usize = 0;
        loop
            invariant
                table_wf(*self),
                (r as int) < total_weight(self.0@),
                n == self.0@.len(),
                i <= n,
                acc as int == weight_prefix(self.0@, i as int),
                acc <= r,
            decreases self.0@.len() - i,
        {
            proof {
                if i == self.0@.len() {
                    assert(false);
                }
                lemma_weight_prefix_mono(self.0@, i as int + 1, self.0@.len() as int);
            }
            let w = self.0[i].weight();
            if r < acc + w {
                return i;
            }
            acc = acc + w;
            i = i + 1;
        }
    }

    /// Roll the table: weighted choice at each level, recursing into
    /// subtables until an item entry is reached, then sample its quality.
    /// `Uniform` quality is drawn here, strictly inside `(0, 1)`; a
    /// `Normal` entry is returned as a request for a sample.
    pub fn roll(&self, rng: &mut rand::rngs::StdRng) -> (out: RollOutcome)
        requires
            table_wf(*self),
        ensures
            roll_outcome_ok(*self, out),
        decreases *self,
    {
        let total = self.total_weight();
        let r = gen_range_u64(rng, total);
        let idx = self.select_index(r);
        match &self.0[idx] {
            LootTableEntry::Item(entry) => match entry.quality_distribution {
                QualityDistribution::Uniform => {
                    let q = 1 + gen_range_u64(rng, QUALITY_SCALE as u64 - 1);
                    proof {
                        assert(entry_has_item(self.0@[idx as int], *entry));
                        assert(table_has_item(*self, *entry));
                    }
                    RollOutcome::Ready(GeneratedItem { item_id: entry.id, quality_ppm: q as u32 })
                },
                QualityDistribution::Normal { mean_ppm, std_dev_ppm } => {
                    proof {
                        assert(entry_has_item(self.0@[idx as int], *entry));
                        assert(table_has_item(*self, *entry));
                    }
                    RollOutcome::NeedsNormalSample(
                        NormalQualityRequest { item_id: entry.id, mean_ppm, std_dev_ppm },
                    )
                },
            },
            LootTableEntry::Subtable { table, .. } => {
                proof {
                    assert(entry_wf(self.0@[idx as int]));
                }
                let out = table.roll(rng);
                proof {
                    let ghost o = out;
                    match o {
                        RollOutcome::Ready(g) => {
                            let e = choose|e: LootTableItemEntry|
                                table_has_item(**table, e) && e.id == g.item_id
                                    && e.quality_distribution is Uniform;
                            assert(entry_has_item(self.0@[idx as int], e));
                            assert(table_has_item(*self, e));
                        },
                        RollOutcome::NeedsNormalSample(p) => {
                            let e = choose|e: LootTableItemEntry|
                                table_has_item(**table, e) && e.id == p.item_id
                                    && e.quality_distribution == (QualityDistribution::Normal {
                                    mean_ppm: p.mean_ppm,
                                    std_dev_ppm: p.std_dev_ppm,
                                });
                            assert(entry_has_item(self.0@[idx as int], e));
                            assert(table_has_item(*self, e));
                        },
                    }
                }
                out
            },
        }
    }
}

/// Accept or reject one normal-distributed quality sample: accepted exactly
/// when it lies strictly inside `(0, 1)`. The caller keeps sampling until a
/// sample is accepted.
pub fn complete_with_normal_sample(req: &NormalQualityRequest, sample_ppm: i64) -> (out: Option<
    GeneratedItem,
>)
    ensures
        0 < sample_ppm < QUALITY_SCALE ==> out == Some(
            (GeneratedItem { item_id: req.item_id, quality_ppm: sample_ppm as u32 }),
        ),
        !(0 < sample_ppm < QUALITY_SCALE) ==> out is None,
{
    if 0 < sample_ppm && sample_ppm < QUALITY_SCALE as i64 {
        Some(GeneratedItem { item_id: req.item_id, quality_ppm: sample_ppm as u32 })
    } else {
        None
    }
}

} // verus!
