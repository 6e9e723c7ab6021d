use mine_idler::batch::{BatchBuffer, NewInventoryItem, BATCH_FLUSH_INTERVAL_MS, BATCH_FLUSH_SIZE};

fn item(user_id: i32, item_id: u32) -> NewInventoryItem {
    NewInventoryItem { user_id, item_id, quality_ppm: 500_000, value_milli: 1_000 }
}

#[test]
fn an_idle_writer_never_flushes_empty() {
    let buf = BatchBuffer::new();
    assert!(!buf.should_flush(0));
    assert!(!buf.should_flush(BATCH_FLUSH_INTERVAL_MS));
    assert!(!buf.should_flush(u64::MAX));
}

#[test]
fn items_below_both_thresholds_are_not_flushed() {
    let mut buf = BatchBuffer::new();
    for k in 0..5 {
        buf.push(item(1, k));
    }
    assert!(!buf.should_flush(BATCH_FLUSH_INTERVAL_MS - 1));
}

#[test]
fn the_time_threshold_fires_with_a_nonempty_buffer() {
    let mut buf = BatchBuffer::new();
    buf.push(item(1, 0));
    assert!(buf.should_flush(BATCH_FLUSH_INTERVAL_MS));
    assert!(buf.should_flush(BATCH_FLUSH_INTERVAL_MS + 500));
}

#[test]
fn the_size_threshold_fires_regardless_of_time() {
    let mut buf = BatchBuffer::new();
    for k in 0..BATCH_FLUSH_SIZE as u32 {
        buf.push(item(1, k));
    }
    assert!(buf.should_flush(0));
}

#[test]
fn a_failed_flush_loses_nothing_and_a_later_flush_persists_exactly_once() {
    let mut buf = BatchBuffer::new();
    for k in 0..3 {
        buf.push(item(1, k));
    }
    assert!(buf.should_flush(BATCH_FLUSH_INTERVAL_MS));
    // The store refused the first attempt: the caller leaves the buffer
    // alone and the items stay queued for retry.
    let first_attempt: Vec<u32> = buf.pending_items().iter().map(|i| i.item_id).collect();
    assert_eq!(first_attempt, vec![0, 1, 2]);
    buf.push(item(1, 3));
    // The retry persists every buffered item exactly once: the original
    // three plus the one that arrived meanwhile, no duplicates, no loss.
    let retry: Vec<u32> = buf.pending_items().iter().map(|i| i.item_id).collect();
    assert_eq!(retry, vec![0, 1, 2, 3]);
    buf.clear_after_flush();
    assert_eq!(buf.len(), 0);
    assert!(!buf.should_flush(u64::MAX));
}

#[test]
fn distinct_user_ids_lists_every_touched_user_once() {
    let mut buf = BatchBuffer::new();
    buf.push(item(7, 0));
    buf.push(item(8, 1));
    buf.push(item(7, 2));
    buf.push(item(9, 3));
    buf.push(item(8, 4));
    let users = buf.distinct_user_ids();
    assert_eq!(users, vec![7, 8, 9]);
}

#[test]
fn distinct_user_ids_of_an_empty_buffer_is_empty() {
    let buf = BatchBuffer::new();
    assert!(buf.distinct_user_ids().is_empty());
}
