use vstd::prelude::*;
use vstd::string::*;
use crate::records::{AfterDate, LastUpdatedInfo};
use crate::reconcile::{apply_batch, error_of, process, tx_time, SyncError, SyncItem};
use crate::store::DB;
use crate::transaction::Transaction;

verus! {

/// Time after which the watermark counts as stale: sixty seconds in nanoseconds.
pub const TTL_NANOS: i64 = 60_000_000_000;

/// The sync watermark: how far the local store has followed the upstream feed.
pub struct SyncCursor {
    pub last_timestamp: i64,
    pub last_block_height: i64,
    pub pagination_cursor: String,
}

/// True when a read at `now` must first run a sync pass.
pub open spec fn is_stale(now: int, last_timestamp: int) -> bool {
    now - last_timestamp >= TTL_NANOS as int
}

/// Freshness gate: refresh once `TTL_NANOS` or more have passed since the watermark.
pub fn should_refresh(now: i64, cursor: &SyncCursor) -> (r: bool)
    ensures
        r == is_stale(now as int, cursor.last_timestamp as int),
{
    (now as i128) - (cursor.last_timestamp as i128) >= TTL_NANOS as i128
}

/// The watermark seen as values.
pub struct CursorView {
    pub last_timestamp: i64,
    pub last_block_height: i64,
    pub pagination_cursor: Seq<char>,
}

impl View for SyncCursor {
    type V = CursorView;

    open spec fn view(&self) -> CursorView {
        CursorView {
            last_timestamp: self.last_timestamp,
            last_block_height: self.last_block_height,
            pagination_cursor: self.pagination_cursor@,
        }
    }
}

/// The zero watermark: sync from genesis.
pub open spec fn zero_cursor() -> CursorView {
    CursorView { last_timestamp: 0, last_block_height: 0, pagination_cursor: Seq::empty() }
}

/// The larger of two values.
pub open spec fn later(a: i64, b: i64) -> i64 {
    if a >= b {
        a
    } else {
        b
    }
}

/// The watermark after a batch whose last transaction is `last`: advanced to
/// that transaction's time and block (never moved back), with the feed's next
/// cursor. Nothing moves without a last transaction with a readable time.
pub open spec fn advanced(c: CursorView, last: Option<Transaction>, next_cursor: Seq<char>) -> CursorView {
    match last {
        Some(tx) => match tx_time(tx) {
            Some(t) => CursorView {
                last_timestamp: later(c.last_timestamp, t),
                last_block_height: later(c.last_block_height, tx.block.block_height),
                pagination_cursor: next_cursor,
            },
            None => c,
        },
        None => c,
    }
}

impl SyncCursor {
    /// A zero watermark.
    pub fn new() -> (c: SyncCursor)
        ensures
            c@ == zero_cursor(),
    {
        SyncCursor { last_timestamp: 0, last_block_height: 0, pagination_cursor: String::new() }
    }

    /// Zero everything, forcing a full re-sync.
    pub fn reset(&mut self)
        ensures
            final(self)@ == zero_cursor(),
    {
        self.last_timestamp = 0;
        self.last_block_height = 0;
        self.pagination_cursor = String::new();
    }

    /// Force the pagination cursor.
    pub fn set_cursor(&mut self, cursor: String)
        ensures
            final(self)@ == (CursorView { pagination_cursor: cursor@, ..old(self)@ }),
    {
        self.pagination_cursor = cursor;
    }

    /// Force the block height.
    pub fn set_block_height(&mut self, block_height: i64)
        ensures
            final(self)@ == (CursorView { last_block_height: block_height, ..old(self)@ }),
    {
        self.last_block_height = block_height;
    }

    /// Force the timestamp.
    pub fn set_timestamp(&mut self, timestamp: i64)
        ensures
            final(self)@ == (CursorView { last_timestamp: timestamp, ..old(self)@ }),
    {
        self.last_timestamp = timestamp;
    }

    /// The persisted form of the watermark's time and block.
    pub fn get_last_updated_info(&self) -> (r: LastUpdatedInfo)
        ensures
            r.after_date == self.last_timestamp,
            r.after_block == self.last_block_height,
    {
        LastUpdatedInfo { after_date: self.last_timestamp, after_block: self.last_block_height }
    }

    /// The watermark's time alone.
    pub fn get_after_date(&self) -> (r: AfterDate)
        ensures
            r.after_date == self.last_timestamp,
    {
        AfterDate { after_date: self.last_timestamp }
    }

    /// Advance the watermark to time `t` and block `h`, never moving it back.
    fn advance_to(&mut self, t: i64, h: i64, next_cursor: String)
        ensures
            final(self)@ == (CursorView {
                last_timestamp: later(old(self).last_timestamp, t),
                last_block_height: later(old(self).last_block_height, h),
                pagination_cursor: next_cursor@,
            }),
    {
        if t > self.last_timestamp {
            self.last_timestamp = t;
        }
        if h > self.last_block_height {
            self.last_block_height = h;
        }
        self.pagination_cursor = next_cursor;
    }

    /// Move the watermark to the last transaction of a processed batch.
    pub fn advance(&mut self, last: Option<&Transaction>, next_cursor: String)
        ensures
            final(self)@ == advanced(
                old(self)@,
                match last {
                    Some(tx) => Some(*tx),
                    None => None,
                },
                next_cursor@,
            ),
    {
        if let Some(tx) = last {
            if let Some(t) = crate::text::parse_i64(tx.block_timestamp.as_str()) {
                if t > self.last_timestamp {
                    self.last_timestamp = t;
                }
                if tx.block.block_height > self.last_block_height {
                    self.last_block_height = tx.block.block_height;
                }
                self.pagination_cursor = next_cursor;
            }
        }
    }
}

/// The last transaction of a batch, if any.
pub open spec fn last_transaction(items: Seq<SyncItem>) -> Option<Transaction> {
    if items.len() > 0 {
        Some(items.last().transaction)
    } else {
        None
    }
}

/// One sync pass over fetched transactions: process them in order, then move
/// the watermark to the last one; a pass that fails leaves the watermark where
/// it was, so that the same window is fetched again.
pub fn update_nearblocks_data(
    db: &mut DB,
    cursor: &mut SyncCursor,
    items: Vec<SyncItem>,
    next_cursor: String,
) -> (r: Result<(), SyncError>)
    requires
        old(db).wf(),
    ensures
        final(db).wf(),
        final(db)@ == apply_batch(old(db)@, items@).0,
        error_of(r) == apply_batch(old(db)@, items@).1,
        r is Err ==> final(cursor)@ == old(cursor)@,
        r is Ok ==> final(cursor)@ == advanced(old(cursor)@, last_transaction(items@), next_cursor@),
        r is Ok ==> final(cursor).last_timestamp >= old(cursor).last_timestamp,
{
    let ghost all = items@;
    let n = items.len();
    let last_info: Option<(Option<i64>, i64)> = if n > 0 {
        let tx = &items[n - 1].transaction;
        Some((crate::text::parse_i64(tx.block_timestamp.as_str()), tx.block.block_height))
    } else {
        None
    };
    let r = process(db, items);
    if r.is_ok() {
        if let Some((Some(t), h)) = last_info {
            cursor.advance_to(t, h, next_cursor);
        }
    }
    r
}

} // verus!
