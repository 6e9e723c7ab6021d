use mine_idler::queries::{
    get_user_aggregated_inventory, inventory_page_params, inventory_sort_column,
    inventory_sort_keyword, InventoryBucketRow, SortBy, SortDirection,
};

fn bucket_row(
    item_id: i32,
    total_count: u32,
    total_quality_milli: u64,
    total_value_milli: u64,
    quality_bucket_ix: u32,
) -> InventoryBucketRow {
    InventoryBucketRow { item_id, total_count, total_quality_milli, total_value_milli, quality_bucket_ix }
}

#[test]
fn aggregation_sums_per_item_and_orders_by_count() {
    let rows = vec![
        bucket_row(7, 2, 900, 1_200, 1),
        bucket_row(8, 10, 5_000, 9_000, 16),
        bucket_row(7, 3, 2_100, 2_800, 32),
        bucket_row(8, 1, 950, 400, 1),
    ];
    let out = get_user_aggregated_inventory(&rows);
    assert_eq!(out.len(), 2);
    // The buckets partition each item's rows, so every histogram sums to
    // its item's total count.
    for entry in &out {
        let hist_total: u32 = entry.quality_histogram.iter().sum();
        assert_eq!(hist_total, entry.total_count);
    }
    // Item 8 holds 11 items, item 7 holds 5: count-descending order.
    assert_eq!(out[0].item_id, 8);
    assert_eq!(out[0].total_count, 11);
    assert_eq!(out[0].total_quality_milli, 5_950);
    assert_eq!(out[0].total_value_milli, 9_400);
    assert_eq!(out[1].item_id, 7);
    assert_eq!(out[1].total_count, 5);
    assert_eq!(out[1].total_quality_milli, 3_000);
    assert_eq!(out[1].total_value_milli, 4_000);
}

#[test]
fn aggregation_builds_32_bucket_histograms() {
    let rows = vec![
        bucket_row(7, 2, 900, 1_200, 1),
        bucket_row(7, 3, 2_100, 2_800, 32),
        bucket_row(7, 4, 2_000, 2_000, 16),
    ];
    let out = get_user_aggregated_inventory(&rows);
    assert_eq!(out.len(), 1);
    let hist = &out[0].quality_histogram;
    assert_eq!(hist.len(), 32);
    assert_eq!(hist[0], 2);
    assert_eq!(hist[15], 4);
    assert_eq!(hist[31], 3);
    let others: u32 = hist
        .iter()
        .enumerate()
        .filter(|(b, _)| *b != 0 && *b != 15 && *b != 31)
        .map(|(_, c)| *c)
        .sum();
    assert_eq!(others, 0);
}

#[test]
fn aggregation_of_no_rows_is_empty() {
    let rows: Vec<InventoryBucketRow> = Vec::new();
    assert!(get_user_aggregated_inventory(&rows).is_empty());
}

#[test]
fn sort_parameters_map_to_the_store_columns() {
    assert_eq!(inventory_sort_column(SortBy::DateAcquired), "inv.created_at");
    assert_eq!(inventory_sort_column(SortBy::RarityTier), "i.rarity_tier");
    assert_eq!(inventory_sort_column(SortBy::Value), "inv.value");
    assert_eq!(inventory_sort_keyword(SortDirection::Ascending), "ASC");
    assert_eq!(inventory_sort_keyword(SortDirection::Descending), "DESC");
}

#[test]
fn page_parameters_cap_the_size_and_multiply_the_offset() {
    assert_eq!(inventory_page_params(50, 3), (50, 150));
    assert_eq!(inventory_page_params(1_000, 0), (1_000, 0));
    // The page size is capped at 1000 rows, the offset is not.
    assert_eq!(inventory_page_params(5_000, 2), (1_000, 10_000));
    assert_eq!(inventory_page_params(0, 9), (0, 0));
}
