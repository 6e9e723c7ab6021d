use mine_idler::ledger::{debit_user_inventory, DebitError, InventoryRow, ItemCost};

fn row(row_id: u64, item_id: u32, quality_ppm: u32) -> InventoryRow {
    InventoryRow { row_id, item_id, quality_ppm }
}

fn cost(item_id: u32, total_quality_ppm: u64) -> ItemCost {
    ItemCost { item_id, total_quality_ppm }
}

#[test]
fn insufficient_inventory_reports_shortfall_and_consumes_nothing() {
    // Qualities 0.9 + 0.6 + 0.5 + 0.4 = 2.4 < 5.0: the debit fails and no
    // row id is returned for deletion.
    let rows = vec![
        row(1, 42, 900_000),
        row(2, 42, 600_000),
        row(3, 42, 500_000),
        row(4, 42, 400_000),
    ];
    let costs = vec![cost(42, 5_000_000)];
    let err = debit_user_inventory(&rows, &costs).unwrap_err();
    match err {
        DebitError::InsufficientInventory { item_id, shortfall_ppm } => {
            assert_eq!(item_id, 42);
            assert_eq!(shortfall_ppm, 2_600_000);
        }
        other => panic!("expected InsufficientInventory, got {:?}", other),
    }
}

#[test]
fn debit_consumes_lowest_quality_first() {
    // Rows 0.9, 0.6, 0.5; a 0.9 debit takes 0.5 first, then 0.6
    // (cumulative 1.1 >= 0.9), leaving only the 0.9 row.
    let rows = vec![row(10, 7, 900_000), row(11, 7, 600_000), row(12, 7, 500_000)];
    let costs = vec![cost(7, 900_000)];
    let ids = debit_user_inventory(&rows, &costs).unwrap();
    assert_eq!(ids, vec![12, 11]);
}

#[test]
fn debit_unknown_item_fails_with_item_not_found() {
    let rows = vec![row(1, 7, 500_000)];
    let costs = vec![cost(8, 100_000)];
    let err = debit_user_inventory(&rows, &costs).unwrap_err();
    assert!(matches!(err, DebitError::ItemNotFound { item_id: 8 }));
}

#[test]
fn zero_quality_debit_still_consumes_one_row() {
    // The row that closes the requirement is always deleted, even when the
    // requirement is already met.
    let rows = vec![row(1, 7, 900_000), row(2, 7, 100_000)];
    let costs = vec![cost(7, 0)];
    let ids = debit_user_inventory(&rows, &costs).unwrap();
    assert_eq!(ids, vec![2]);
}

#[test]
fn repeated_cost_line_keeps_consuming_where_the_first_stopped() {
    let rows = vec![row(1, 7, 900_000), row(2, 7, 600_000), row(3, 7, 500_000)];
    let costs = vec![cost(7, 400_000), cost(7, 400_000)];
    let ids = debit_user_inventory(&rows, &costs).unwrap();
    // First line takes the 0.5 row; second takes the 0.6 row.
    assert_eq!(ids, vec![3, 2]);
}

#[test]
fn equal_qualities_consume_the_later_row_first() {
    // The sort is stable, so rows of equal quality keep their order and the
    // later one sits nearer the consumed tail.
    let rows = vec![row(1, 7, 500_000), row(2, 7, 500_000)];
    let costs = vec![cost(7, 500_000)];
    let ids = debit_user_inventory(&rows, &costs).unwrap();
    assert_eq!(ids, vec![2]);
}

#[test]
fn multi_item_debit_validates_each_line_independently() {
    let rows = vec![
        row(1, 7, 800_000),
        row(2, 8, 300_000),
        row(3, 7, 200_000),
        row(4, 8, 700_000),
    ];
    let costs = vec![cost(7, 900_000), cost(8, 1_000_000)];
    let ids = debit_user_inventory(&rows, &costs).unwrap();
    // Item 7: 0.2 then 0.8 (cumulative 1.0 >= 0.9); item 8: 0.3 then 0.7.
    assert_eq!(ids, vec![3, 1, 2, 4]);
}

#[test]
fn failing_second_line_abandons_the_whole_debit() {
    let rows = vec![row(1, 7, 800_000), row(2, 8, 300_000)];
    let costs = vec![cost(7, 500_000), cost(8, 400_000)];
    let err = debit_user_inventory(&rows, &costs).unwrap_err();
    assert!(matches!(
        err,
        DebitError::InsufficientInventory { item_id: 8, shortfall_ppm: 100_000 }
    ));
}
