use mine_idler::items::{item_base_value_centi, Catalog, ItemDescriptor};

fn descriptor(id: u32, name: &str, rarity_tier: u32) -> ItemDescriptor {
    ItemDescriptor {
        id,
        name: name.to_owned(),
        description: format!("{} description", name),
        rarity_tier,
    }
}

#[test]
fn catalog_refuses_duplicate_ids_and_names() {
    assert!(Catalog::new(vec![descriptor(1, "coal", 0), descriptor(1, "iron", 1)]).is_none());
    assert!(Catalog::new(vec![descriptor(1, "coal", 0), descriptor(2, "coal", 1)]).is_none());
    assert!(Catalog::new(vec![descriptor(1, "coal", 0), descriptor(2, "iron", 1)]).is_some());
    assert!(Catalog::new(Vec::new()).is_some());
}

#[test]
fn catalog_lookups_find_the_declared_items() {
    let catalog = Catalog::new(vec![
        descriptor(10, "coal", 0),
        descriptor(11, "iron", 1),
        descriptor(12, "gold", 3),
    ])
    .unwrap();
    assert_eq!(catalog.item_descriptors().len(), 3);
    assert_eq!(catalog.get_item_id_by_name(&"coal".to_owned()), 10);
    assert_eq!(catalog.get_item_id_by_name(&"gold".to_owned()), 12);
    let iron = catalog.get_item_descriptor_by_id(11);
    assert_eq!(iron.name, "iron");
    assert_eq!(iron.rarity_tier, 1);
}

#[test]
fn base_values_follow_the_fixed_tier_table() {
    // Tiers 0-5 are worth 0.20, 4, 30, 230, 800 and 8400 currency units.
    assert_eq!(item_base_value_centi(0), 20);
    assert_eq!(item_base_value_centi(1), 400);
    assert_eq!(item_base_value_centi(2), 3_000);
    assert_eq!(item_base_value_centi(3), 23_000);
    assert_eq!(item_base_value_centi(4), 80_000);
    assert_eq!(item_base_value_centi(5), 840_000);
    assert_eq!(item_base_value_centi(6), 0);
    assert_eq!(item_base_value_centi(u32::MAX), 0);
}
