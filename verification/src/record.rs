//! Stored undelegation events and their normalized wire form.

use vstd::prelude::*;
use crate::time::Timestamp;
use crate::time::epoch_seconds;

verus! {

/// A stored undelegation event, as decoded from one row of the append-only
/// event table. The amount is carried as its exact decimal string, never as
/// a binary floating value, so no precision is lost.
pub struct UndelegationEvent {
    pub tx_id: String,
    pub block_id: String,
    pub block_num: i64,
    pub validator: String,
    pub delegator: String,
    pub tm: Timestamp,
    pub amount: String,
}

impl UndelegationEvent {
    /// Well-formedness: the stored timestamp names a real calendar time.
    pub open spec fn wf(self) -> bool {
        self.tm.wf()
    }

    /// The sort key of the event: its timestamp as Unix epoch seconds.
    pub open spec fn tm_key(self) -> int {
        self.tm.epoch()
    }
}

/// The wire form of one event: identifiers passed through, the amount kept
/// as its exact decimal string, the timestamp as Unix epoch seconds.
#[derive(Debug)]
pub struct UndelegateRecord {
    pub tx_hash: String,
    pub block_hash: String,
    pub block_num: i64,
    pub validator: String,
    pub delegator: String,
    pub amount: String,
    pub timestamp: i64,
}

/// `r` is the normalized wire form of the stored event `e`: every stored
/// string passes through unchanged and the timestamp is `e`'s epoch seconds.
pub open spec fn is_record_of(e: UndelegationEvent, r: UndelegateRecord) -> bool {
    &&& r.tx_hash@ == e.tx_id@
    &&& r.block_hash@ == e.block_id@
    &&& r.block_num == e.block_num
    &&& r.validator@ == e.validator@
    &&& r.delegator@ == e.delegator@
    &&& r.amount@ == e.amount@
    &&& r.timestamp as int == e.tm.epoch()
}

/// Normalizes one stored event into its wire form.
pub fn normalize_event(e: UndelegationEvent) -> (r: UndelegateRecord)
    requires
        e.wf(),
    ensures
        is_record_of(e, r),
{
    let timestamp: i64 = epoch_seconds(&e.tm);
    UndelegateRecord {
        tx_hash: e.tx_id,
        block_hash: e.block_id,
        block_num: e.block_num,
        validator: e.validator,
        delegator: e.delegator,
        amount: e.amount,
        timestamp,
    }
}

} // verus!
