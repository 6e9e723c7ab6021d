use mine_idler::items::{Catalog, ItemDescriptor};
use mine_idler::ledger::ItemCost;
use mine_idler::upgrades::{
    get_available_inventory_space, get_inventory_upgrade_cost, inventory_capacity,
    BASE_INVENTORY_SIZE, INVENTORY_CAPACITY_PER_UPGRADE, MAX_UPGRADE_LEVEL,
};

fn descriptor(id: u32, name: &str, rarity_tier: u32) -> ItemDescriptor {
    ItemDescriptor { id, name: name.to_owned(), description: String::new(), rarity_tier }
}

fn upgrade_catalog() -> Catalog {
    Catalog::new(vec![
        descriptor(1, "wooden_palette", 0),
        descriptor(2, "wooden_beam", 0),
        descriptor(3, "roof_shingles", 0),
    ])
    .unwrap()
}

fn quality(costs: &[ItemCost], item_id: u32) -> u64 {
    costs
        .iter()
        .find(|c| c.item_id == item_id)
        .expect("cost line missing")
        .total_quality_ppm
}

#[test]
fn level_zero_cost_yields_the_three_seed_values() {
    // Base magnitude 3.0 quality units, charged at 1.25x, 1.00x and 0.80x.
    let catalog = upgrade_catalog();
    let costs = get_inventory_upgrade_cost(&catalog, 0);
    assert_eq!(costs.len(), 3);
    assert_eq!(quality(&costs, 1), 3_750_000);
    assert_eq!(quality(&costs, 2), 3_000_000);
    assert_eq!(quality(&costs, 3), 2_400_000);
}

#[test]
fn level_one_cost_compounds_the_growth_factor_once() {
    let catalog = upgrade_catalog();
    let costs = get_inventory_upgrade_cost(&catalog, 1);
    // Base = 3 * 2 * 1.056139 = 6.336834 quality units.
    assert_eq!(quality(&costs, 2), 6_336_834);
    assert_eq!(quality(&costs, 1), 7_921_042);
    assert_eq!(quality(&costs, 3), 5_069_467);
}

#[test]
fn cost_strictly_increases_in_every_component() {
    let catalog = upgrade_catalog();
    let mut previous = get_inventory_upgrade_cost(&catalog, 0);
    for level in 1..=40u32 {
        let next = get_inventory_upgrade_cost(&catalog, level);
        for item_id in 1..=3u32 {
            assert!(
                quality(&next, item_id) > quality(&previous, item_id),
                "component for item {} did not grow at level {}",
                item_id,
                level
            );
        }
        previous = next;
    }
}

#[test]
fn cost_is_defined_up_to_the_highest_level() {
    let catalog = upgrade_catalog();
    let costs = get_inventory_upgrade_cost(&catalog, MAX_UPGRADE_LEVEL);
    assert_eq!(costs.len(), 3);
    assert!(quality(&costs, 2) > 0);
}

#[test]
fn capacity_grows_linearly_with_the_storage_level() {
    assert_eq!(inventory_capacity(0), BASE_INVENTORY_SIZE as u64);
    assert_eq!(
        inventory_capacity(3),
        BASE_INVENTORY_SIZE as u64 + 3 * INVENTORY_CAPACITY_PER_UPGRADE as u64
    );
}

#[test]
fn available_space_is_capacity_minus_item_count() {
    assert_eq!(get_available_inventory_space(0, 0), 5_000);
    assert_eq!(get_available_inventory_space(0, 4_999), 1);
    assert_eq!(get_available_inventory_space(0, 5_000), 0);
    // A bounded overshoot past capacity reads as negative space.
    assert_eq!(get_available_inventory_space(0, 5_010), -10);
    assert_eq!(get_available_inventory_space(2, 5_000), 2_000);
}
