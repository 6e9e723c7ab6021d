//! Storage upgrade cost curve and inventory capacity.
//!
//! The cost of the next storage upgrade at level `L` is
//! `3 * (L + 1) * 1.18 ^ (0.33 * L)` quality units, charged in three fixed
//! resources at 1.25x, 1.00x and 0.80x of that base. The curve is held in
//! fixed point: one level multiplies the geometric part by
//! `UPGRADE_GROWTH_PPM` millionths — `1.18 ^ 0.33` — rounding down each
//! step. The curve is defined up to [`MAX_UPGRADE_LEVEL`], where the
//! arithmetic is proven free of overflow.

use vstd::arithmetic::div_mod::{
    lemma_div_is_ordered, lemma_div_multiples_vanish, lemma_fundamental_div_mod,
    lemma_hoist_over_denominator,
};
use vstd::arithmetic::mul::{lemma_mul_inequality, lemma_mul_inequality_converse};
use vstd::prelude::*;

use crate::items::{catalog_has_name, catalog_id_of, Catalog};
use crate::ledger::ItemCost;

verus! {

/// Inventory slots every player starts with.
pub const BASE_INVENTORY_SIZE: u32 = 5_000;

/// Extra inventory slots granted by each storage upgrade level.
pub const INVENTORY_CAPACITY_PER_UPGRADE: u32 = 1_000;

/// Per-level growth of the upgrade cost, in millionths: `1.18 ^ 0.33`.
pub const UPGRADE_GROWTH_PPM: u64 = 1_056_139;

/// Highest storage level the cost curve is defined for: just below where
/// the cost itself would outgrow the machine's 64-bit quality amounts.
pub const MAX_UPGRADE_LEVEL: u32 = 384;

/// Total inventory capacity at a given storage upgrade level.
pub fn inventory_capacity(storage_level: u32) -> (cap: u64)
    ensures
        cap == BASE_INVENTORY_SIZE + storage_level * INVENTORY_CAPACITY_PER_UPGRADE,
{
    let per_upgrade: u64 = INVENTORY_CAPACITY_PER_UPGRADE as u64;
    let extra: u64 = storage_level as u64 * per_upgrade;
    BASE_INVENTORY_SIZE as u64 + extra
}

/// Slots still free for a player: capacity minus the items already held.
/// Negative when the inventory has overshot its capacity.
pub fn get_available_inventory_space(storage_level: u32, item_count: u64) -> (space: i64)
    requires
        item_count <= i64::MAX,
    ensures
        space == BASE_INVENTORY_SIZE + storage_level * INVENTORY_CAPACITY_PER_UPGRADE
            - item_count,
{
    let cap = inventory_capacity(storage_level);
    cap as i64 - item_count as i64
}

/// The geometric part of the cost curve: `1.18 ^ (0.33 * level)` in
/// millionths, compounded one level at a time with rounding down.
pub open spec fn growth_pow_ppm(level: nat) -> nat
    decreases level,
{
    if level == 0 {
        1_000_000
    } else {
        growth_pow_ppm((level - 1) as nat) * 1_056_139 / 1_000_000
    }
}

/// The base cost magnitude at a level, in millionths of a quality unit:
/// `3 * (level + 1)` times the geometric part.
pub open spec fn upgrade_base_cost_ppm(level: nat) -> int {
    3 * (level + 1) * (growth_pow_ppm(level) as int)
}

/// One charged component of the cost: the base times a per-resource factor
/// in thousandths (1250, 1000 or 800).
pub open spec fn upgrade_cost_component_ppm(level: nat, factor_milli: int) -> int {
    upgrade_base_cost_ppm(level) * factor_milli / 1000
}

/// One compounding step: the geometric part never shrinks, never grows by
/// more than the growth factor, and stays at or above one.
proof fn lemma_growth_step(l: nat)
    ensures
        growth_pow_ppm(l) <= growth_pow_ppm((l + 1) as nat),
        growth_pow_ppm((l + 1) as nat) * 1_000_000 <= growth_pow_ppm(l) * 1_056_139,
{
    let gp = growth_pow_ppm(l) as int;
    lemma_fundamental_div_mod(gp * 1_056_139, 1_000_000);
    lemma_div_is_ordered(gp * 1_000_000, gp * 1_056_139, 1_000_000);
    lemma_div_multiples_vanish(gp, 1_000_000);
}

/// The geometric part is at least one (one million millionths).
proof fn lemma_growth_lower(l: nat)
    ensures
        growth_pow_ppm(l) >= 1_000_000,
    decreases l,
{
    if l > 0 {
        lemma_growth_lower((l - 1) as nat);
        lemma_growth_step((l - 1) as nat);
    }
}

/// The geometric part is monotone in the level.
proof fn lemma_growth_mono(l1: nat, l2: nat)
    requires
        l1 <= l2,
    ensures
        growth_pow_ppm(l1) <= growth_pow_ppm(l2),
    decreases l2,
{
    if l1 < l2 {
        lemma_growth_mono(l1, (l2 - 1) as nat);
        lemma_growth_step((l2 - 1) as nat);
    }
}

/// Four compounding steps grow the geometric part by at most a quarter:
/// `4 * growth_pow_ppm(l + 4) <= 5 * growth_pow_ppm(l)`, because the growth
/// factor to the fourth is below five quarters.
proof fn lemma_growth_quad(l: nat)
    ensures
        4 * growth_pow_ppm((l + 4) as nat) <= 5 * growth_pow_ppm(l),
{
    let g0 = growth_pow_ppm(l) as int;
    let g1 = growth_pow_ppm((l + 1) as nat) as int;
    let g2 = growth_pow_ppm((l + 2) as nat) as int;
    let g3 = growth_pow_ppm((l + 3) as nat) as int;
    let g4 = growth_pow_ppm((l + 4) as nat) as int;
    lemma_growth_step(l);
    lemma_growth_step((l + 1) as nat);
    lemma_growth_step((l + 2) as nat);
    lemma_growth_step((l + 3) as nat);
    assert(4 * g4 <= 5 * g0) by (nonlinear_arith)
        requires
            g1 * 1_000_000 <= g0 * 1_056_139,
            g2 * 1_000_000 <= g1 * 1_056_139,
            g3 * 1_000_000 <= g2 * 1_056_139,
            g4 * 1_000_000 <= g3 * 1_056_139,
            g0 >= 0,
            g1 >= 0,
            g2 >= 0,
            g3 >= 0,
            g4 >= 0,
    ;
}

/// Powers of four, for the telescoped growth bound.
spec fn pow4(k: nat) -> nat
    decreases k,
{
    if k == 0 {
        1
    } else {
        4 * pow4((k - 1) as nat)
    }
}

/// Powers of five, for the telescoped growth bound.
spec fn pow5(k: nat) -> nat
    decreases k,
{
    if k == 0 {
        1
    } else {
        5 * pow5((k - 1) as nat)
    }
}

/// Telescoping the quarter-growth bound over `k` strides of four levels:
/// `growth_pow_ppm(4k) * 4^k <= 1_000_000 * 5^k`.
proof fn lemma_growth_telescope(k: nat)
    ensures
        growth_pow_ppm(4 * k) * pow4(k) <= 1_000_000 * pow5(k),
    decreases k,
{
    if k > 0 {
        let km = (k - 1) as nat;
        lemma_growth_telescope(km);
        lemma_growth_quad(4 * km);
        let a = growth_pow_ppm((4 * km + 4) as nat) as int;
        let b = growth_pow_ppm(4 * km) as int;
        let p4 = pow4(km) as int;
        let p5 = pow5(km) as int;
        assert((4 * a) * p4 <= (5 * b) * p4) by {
            lemma_mul_inequality(4 * a, 5 * b, p4);
        }
        assert(a * (4 * p4) == (4 * a) * p4) by (nonlinear_arith);
        assert((5 * b) * p4 == 5 * (b * p4)) by (nonlinear_arith);
        assert(4 * k == 4 * km + 4);
        assert(pow4(k) == 4 * p4);
        assert(pow5(k) == 5 * p5);
    }
}

/// Up to the highest level the curve is defined for, the geometric part
/// stays below a factor of 2.02e9 (held as 2.02e15 millionths). Evaluating
/// the two 96th powers takes most of the work.
#[verifier::rlimit(100)]
proof fn lemma_growth_bound(l: nat)
    requires
        l <= 384,
    ensures
        growth_pow_ppm(l) <= 2_020_000_000_000_000,
{
    lemma_growth_mono(l, 384);
    lemma_growth_telescope(96);
    assert(pow4(96) == 6277101735386680763835789423207666416102355444464034512896int) by {
        reveal_with_fuel(pow4, 97);
    }
    assert(pow5(96)
        == 12621774483536188886587657044524579674771302961744368076324462890625int) by {
        reveal_with_fuel(pow5, 97);
    }
    let gp = growth_pow_ppm(384) as int;
    assert(gp * 6277101735386680763835789423207666416102355444464034512896int <= 1_000_000
        * 12621774483536188886587657044524579674771302961744368076324462890625int);
    if gp > 2_020_000_000_000_000 {
        assert(gp * 6277101735386680763835789423207666416102355444464034512896int
            >= 2_020_000_000_000_001
            * 6277101735386680763835789423207666416102355444464034512896int) by {
            lemma_mul_inequality(
                2_020_000_000_000_001,
                gp,
                6277101735386680763835789423207666416102355444464034512896int,
            );
        }
        assert(false);
    }
}

/// One cost component strictly grows from one level to the next.
proof fn lemma_component_increases(level: nat, factor_milli: int)
    requires
        factor_milli >= 1,
    ensures
        upgrade_cost_component_ppm((level + 1) as nat, factor_milli) > upgrade_cost_component_ppm(
            level,
            factor_milli,
        ),
{
    let l = level as int;
    let gp = growth_pow_ppm(level) as int;
    let gp1 = growth_pow_ppm((level + 1) as nat) as int;
    let base = upgrade_base_cost_ppm(level);
    let base1 = upgrade_base_cost_ppm((level + 1) as nat);
    lemma_growth_step(level);
    lemma_growth_lower(level);
    assert(3 * (l + 2) * gp1 >= 3 * (l + 2) * gp) by {
        lemma_mul_inequality(gp, gp1, 3 * (l + 2));
        assert(gp * (3 * (l + 2)) == 3 * (l + 2) * gp) by (nonlinear_arith);
        assert(gp1 * (3 * (l + 2)) == 3 * (l + 2) * gp1) by (nonlinear_arith);
    }
    assert(3 * (l + 2) * gp == 3 * (l + 1) * gp + 3 * gp) by (nonlinear_arith);
    assert(base1 >= base + 3_000_000);
    assert(base1 * factor_milli >= (base + 3_000_000) * factor_milli) by {
        lemma_mul_inequality(base + 3_000_000, base1, factor_milli);
    }
    assert((base + 3_000_000) * factor_milli == base * factor_milli + 3_000_000 * factor_milli)
        by (nonlinear_arith);
    lemma_div_is_ordered(
        base * factor_milli + 3_000_000 * factor_milli,
        base1 * factor_milli,
        1000,
    );
    lemma_hoist_over_denominator(base * factor_milli, 3_000 * factor_milli, 1000nat);
    assert((3_000 * factor_milli) * 1000 == 3_000_000 * factor_milli) by (nonlinear_arith);
}

/// Each of the three charged components of the upgrade cost strictly
/// increases with the level: upgrades only ever get dearer.
pub proof fn lemma_upgrade_cost_strictly_increasing(level: u32)
    ensures
        upgrade_cost_component_ppm((level + 1) as nat, 1250) > upgrade_cost_component_ppm(
            level as nat,
            1250,
        ),
        upgrade_cost_component_ppm((level + 1) as nat, 1000) > upgrade_cost_component_ppm(
            level as nat,
            1000,
        ),
        upgrade_cost_component_ppm((level + 1) as nat, 800) > upgrade_cost_component_ppm(
            level as nat,
            800,
        ),
{
    lemma_component_increases(level as nat, 1250);
    lemma_component_increases(level as nat, 1000);
    lemma_component_increases(level as nat, 800);
}

/// The geometric part of the cost curve, computed by compounding.
fn growth_pow(level: u32) -> (p: u64)
    requires
        level <= MAX_UPGRADE_LEVEL,
    ensures
        p as nat == growth_pow_ppm(level as nat),
        p <= 2_020_000_000_000_000,
{
    let mut p: u64 = 1_000_000;
    let mut i: u32 = 0;
    while i < level
        invariant
            i <= level <= 384,
            p as nat == growth_pow_ppm(i as nat),
        decreases level - i,
    {
        proof {
            lemma_growth_bound(i as nat);
            lemma_growth_bound(i as nat + 1);
        }
        p = (p as u128 * 1_056_139 / 1_000_000) as u64;
        i = i + 1;
    }
    proof {
        lemma_growth_bound(level as nat);
    }
    p
}

/// The cost of the next storage upgrade at the given level: three cost
/// lines, charging the fixed resources at 1.25x, 1.00x and 0.80x of the
/// base magnitude. The three resource names must be in the catalog; their
/// absence is a startup-time configuration error.
pub fn get_inventory_upgrade_cost(catalog: &Catalog, level: u32) -> (costs: Vec<ItemCost>)
    requires
        level <= MAX_UPGRADE_LEVEL,
        catalog_has_name(catalog.items(), "wooden_palette"@),
        catalog_has_name(catalog.items(), "wooden_beam"@),
        catalog_has_name(catalog.items(), "roof_shingles"@),
    ensures
        costs@.len() == 3,
        catalog_id_of(catalog.items(), "wooden_palette"@, costs@[0].item_id),
        costs@[0].total_quality_ppm == upgrade_cost_component_ppm(level as nat, 1250),
        catalog_id_of(catalog.items(), "wooden_beam"@, costs@[1].item_id),
        costs@[1].total_quality_ppm == upgrade_cost_component_ppm(level as nat, 1000),
        catalog_id_of(catalog.items(), "roof_shingles"@, costs@[2].item_id),
        costs@[2].total_quality_ppm == upgrade_cost_component_ppm(level as nat, 800),
{
    let pow = growth_pow(level);
    let factor: u64 = 3 * (level as u64 + 1);
    proof {
        assert(factor * pow <= 1155 * 2_020_000_000_000_000) by {
            lemma_mul_inequality(pow as int, 2_020_000_000_000_000, factor as int);
            assert(pow as int * factor as int == factor as int * pow as int);
        }
    }
    let base: u64 = factor * pow;
    let mut costs: Vec<ItemCost> = Vec::new();
    costs.push(
        ItemCost {
            item_id: catalog.get_item_id_by_name(&"wooden_palette".to_owned()),
            total_quality_ppm: (base as u128 * 1250 / 1000) as u64,
        },
    );
    costs.push(
        ItemCost {
            item_id: catalog.get_item_id_by_name(&"wooden_beam".to_owned()),
            total_quality_ppm: (base as u128 * 1000 / 1000) as u64,
        },
    );
    costs.push(
        ItemCost {
            item_id: catalog.get_item_id_by_name(&"roof_shingles".to_owned()),
            total_quality_ppm: (base as u128 * 800 / 1000) as u64,
        },
    );
    costs
}

} // verus!
