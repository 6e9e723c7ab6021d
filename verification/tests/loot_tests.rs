use mine_idler::loot::{
    complete_with_normal_sample, GeneratedItem, LootTable, LootTableEntry, LootTableItemEntry,
    NormalQualityRequest, QualityDistribution, RollOutcome,
};
use mine_idler::rng::new_mining_rng;
use mine_idler::QUALITY_SCALE;

fn item_entry(id: u32, weight: u64) -> LootTableEntry {
    LootTableEntry::Item(LootTableItemEntry {
        weight,
        id,
        quality_distribution: QualityDistribution::Uniform,
    })
}

#[test]
fn total_weight_sums_all_entries() {
    let table = LootTable(vec![item_entry(1, 3), item_entry(2, 5)]);
    assert_eq!(table.total_weight(), 8);
}

#[test]
fn entry_weight_covers_both_variants() {
    assert_eq!(item_entry(1, 3).weight(), 3);
    let sub = LootTableEntry::Subtable {
        weight: 9,
        table: Box::new(LootTable(vec![item_entry(2, 1)])),
    };
    assert_eq!(sub.weight(), 9);
}

#[test]
fn selection_frequency_matches_weights_exactly() {
    // Entry i is selected on exactly weight(i) of the total_weight draws,
    // so the per-draw distribution is proportional to the weights.
    let table = LootTable(vec![item_entry(0, 1), item_entry(1, 3), item_entry(2, 4)]);
    let mut counts = [0usize; 3];
    for r in 0..8u64 {
        counts[table.select_index(r)] += 1;
    }
    assert_eq!(counts, [1, 3, 4]);
}

#[test]
fn selection_picks_the_interval_holding_the_draw() {
    let table = LootTable(vec![item_entry(0, 2), item_entry(1, 3)]);
    assert_eq!(table.select_index(0), 0);
    assert_eq!(table.select_index(1), 0);
    assert_eq!(table.select_index(2), 1);
    assert_eq!(table.select_index(4), 1);
}

#[test]
fn uniform_roll_quality_stays_strictly_inside_the_open_interval() {
    let table = LootTable(vec![item_entry(3, 1)]);
    let mut rng = new_mining_rng().unwrap();
    for _ in 0..200 {
        match table.roll(&mut rng) {
            RollOutcome::Ready(GeneratedItem { item_id, quality_ppm }) => {
                assert_eq!(item_id, 3);
                assert!(quality_ppm > 0);
                assert!(quality_ppm < QUALITY_SCALE);
            }
            RollOutcome::NeedsNormalSample(_) => panic!("uniform entry asked for a sample"),
        }
    }
}

#[test]
fn roll_recurses_into_subtables() {
    let inner = LootTable(vec![item_entry(9, 1)]);
    let table = LootTable(vec![LootTableEntry::Subtable { weight: 1, table: Box::new(inner) }]);
    let mut rng = new_mining_rng().unwrap();
    match table.roll(&mut rng) {
        RollOutcome::Ready(item) => assert_eq!(item.item_id, 9),
        RollOutcome::NeedsNormalSample(_) => panic!("expected the inner uniform entry"),
    }
}

#[test]
fn normal_roll_hands_back_the_distribution_parameters() {
    let table = LootTable(vec![LootTableEntry::Item(LootTableItemEntry {
        weight: 1,
        id: 4,
        quality_distribution: QualityDistribution::Normal { mean_ppm: 200_000, std_dev_ppm: 100_000 },
    })]);
    let mut rng = new_mining_rng().unwrap();
    match table.roll(&mut rng) {
        RollOutcome::NeedsNormalSample(req) => {
            assert_eq!(req.item_id, 4);
            assert_eq!(req.mean_ppm, 200_000);
            assert_eq!(req.std_dev_ppm, 100_000);
        }
        RollOutcome::Ready(_) => panic!("normal entry rolled without a sample"),
    }
}

#[test]
fn normal_samples_are_accepted_only_strictly_inside_the_open_interval() {
    let req = NormalQualityRequest { item_id: 4, mean_ppm: 500_000, std_dev_ppm: 100_000 };
    let accepted = complete_with_normal_sample(&req, 500_000).unwrap();
    assert_eq!(accepted.item_id, 4);
    assert_eq!(accepted.quality_ppm, 500_000);
    assert_eq!(complete_with_normal_sample(&req, 1).unwrap().quality_ppm, 1);
    assert_eq!(
        complete_with_normal_sample(&req, QUALITY_SCALE as i64 - 1).unwrap().quality_ppm,
        QUALITY_SCALE - 1
    );
    assert!(complete_with_normal_sample(&req, 0).is_none());
    assert!(complete_with_normal_sample(&req, -250_000).is_none());
    assert!(complete_with_normal_sample(&req, QUALITY_SCALE as i64).is_none());
    assert!(complete_with_normal_sample(&req, 3_000_000).is_none());
}
