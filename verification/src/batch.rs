//! The batch writer's buffer: generated items awaiting bulk persistence.
//!
//! A single background task drains one ingestion queue shared by all mining
//! sessions into this buffer and flushes it — one bulk insert — when a time
//! or a size threshold fires, whichever comes first, and never while the
//! buffer is empty. A failed flush keeps every buffered item for the next
//! attempt, so items are persisted at least once and none is dropped; only
//! a successful flush clears the buffer.

use vstd::prelude::*;

verus! {

/// Flush once this much time has passed since the last successful flush.
pub const BATCH_FLUSH_INTERVAL_MS: u64 = 2_000;

/// Flush once this many items are buffered.
pub const BATCH_FLUSH_SIZE: usize = 100;

/// One generated item awaiting persistence, tagged with its owner. Quality
/// is in millionths, value in thousandths of the currency unit.
#[derive(Clone, Copy, Debug)]
pub struct NewInventoryItem {
    pub user_id: i32,
    pub item_id: u32,
    pub quality_ppm: u32,
    pub value_milli: u64,
}

/// Whether some buffered item belongs to this user.
pub open spec fn buffer_has_user(items: Seq<NewInventoryItem>, user_id: i32) -> bool {
    exists|i: int| 0 <= i < items.len() && (#[trigger] items[i]).user_id == user_id
}

/// The batch writer's buffer. Owned exclusively by the writer task; no
/// other component reads or mutates it.
pub struct BatchBuffer {
    items: Vec<NewInventoryItem>,
}

impl BatchBuffer {
    /// The buffered items, oldest first.
    pub closed spec fn items_seq(self) -> Seq<NewInventoryItem> {
        self.items@
    }

    /// An empty buffer.
    pub fn new() -> (buf: BatchBuffer)
        ensures
            buf.items_seq() == Seq::<NewInventoryItem>::empty(),
    {
        BatchBuffer { items: Vec::new() }
    }

    /// Accept one generated item into the buffer.
    pub fn push(&mut self, item: NewInventoryItem)
        ensures
            final(self).items_seq() == old(self).items_seq().push(item),
    {
        self.items.push(item);
    }

    /// How many items are buffered.
    pub fn len(&self) -> (n: usize)
        ensures
            n == self.items_seq().len(),
    {
        self.items.len()
    }

    /// Whether the writer should flush now: only when the buffer is
    /// non-empty, and then exactly when the time since the last successful
    /// flush has reached `BATCH_FLUSH_INTERVAL_MS` or the buffer has
    /// reached `BATCH_FLUSH_SIZE` items — whichever came first.
    pub fn should_flush(&self, millis_since_last_flush: u64) -> (b: bool)
        ensures
            b <==> self.items_seq().len() > 0 && (millis_since_last_flush
                >= BATCH_FLUSH_INTERVAL_MS || self.items_seq().len() >= BATCH_FLUSH_SIZE),
    {
        self.items.len() > 0 && (millis_since_last_flush >= BATCH_FLUSH_INTERVAL_MS
            || self.items.len() >= BATCH_FLUSH_SIZE)
    }

    /// The items a flush would persist: all of them, exactly as buffered.
    /// On a failed flush the caller leaves the buffer as it is and retries
    /// at the next threshold; items are never dropped.
    pub fn pending_items(&self) -> (items: &Vec<NewInventoryItem>)
        ensures
            items@ == self.items_seq(),
    {
        &self.items
    }

    /// Forget the buffered items after a successful flush.
    pub fn clear_after_flush(&mut self)
        ensures
            final(self).items_seq() == Seq::<NewInventoryItem>::empty(),
    {
        self.items.clear();
    }

    /// The distinct users owning buffered items, each exactly once: after a
    /// flush, each gets one inventory-capacity check.
    pub fn distinct_user_ids(&self) -> (users: Vec<i32>)
        ensures
            forall|a: int, b: int| 0 <= a < b < users@.len() ==> users@[a] != users@[b],
            forall|u: i32| users@.contains(u) <==> buffer_has_user(self.items_seq(), u),
    {
        let n = self.items.len();
        let mut users: Vec<i32> = Vec::new();
        let mut i: usize = 0;
        while i < n
            invariant
                n == self.items@.len(),
                i <= n,
                forall|a: int, b: int| 0 <= a < b < users@.len() ==> users@[a] != users@[b],
                forall|u: i32|
                    users@.contains(u) <==> buffer_has_user(self.items@.subrange(0, i as int), u),
            decreases n - i,
        {
            let uid = self.items[i].user_id;
            let ghost pre_users = users@;
            if !contains_user(&users, uid) {
                users.push(uid);
            }
            proof {
                let sub = self.items@.subrange(0, i as int);
                let ext = self.items@.subrange(0, i as int + 1);
                assert(ext.drop_last() =~= sub);
                assert(ext.last() == self.items@[i as int]);
                assert forall|u: i32| users@.contains(u) implies buffer_has_user(ext, u) by {
                    if pre_users.contains(u) {
                        let k = choose|k: int| 0 <= k < sub.len() && sub[k].user_id == u;
                        assert(ext[k].user_id == u);
                    } else {
                        assert(ext[i as int].user_id == u);
                    }
                }
                assert forall|u: i32| buffer_has_user(ext, u) implies users@.contains(u) by {
                    let k = choose|k: int| 0 <= k < ext.len() && ext[k].user_id == u;
                    if k < i {
                        assert(sub[k].user_id == u);
                        assert(buffer_has_user(sub, u));
                        assert(pre_users.contains(u));
                        let j = choose|j: int| 0 <= j < pre_users.len() && pre_users[j] == u;
                        assert(users@[j] == u);
                    } else {
                        assert(u == uid);
                        if pre_users.contains(uid) {
                            let j = choose|j: int| 0 <= j < pre_users.len() && pre_users[j] == uid;
                            assert(users@[j] == uid);
                        } else {
                            assert(users@[users@.len() - 1] == uid);
                        }
                    }
                }
            }
            i = i + 1;
        }
        proof {
            assert(self.items@.subrange(0, n as int) =~= self.items@);
        }
        users
    }
}

/// Whether this user id is already listed.
fn contains_user(users: &Vec<i32>, user_id: i32) -> (b: bool)
    ensures
        b <==> users@.contains(user_id),
{
    let n = users.len();
    let mut i: usize = 0;
    while i < n
        invariant
            n == users@.len(),
            i <= n,
            forall|a: int| 0 <= a < i ==> users@[a] != user_id,
        decreases n - i,
    {
        if users[i] == user_id {
            return true;
        }
        i = i + 1;
    }
    false
}

} // verus!
