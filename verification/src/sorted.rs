//! The sorted vectors that hold the keys of a date collection and the keys
//! of the records of an aggregate.

use crate::date::key_order;
use crate::date::DateKey;
use crate::record::bytes_order;
use sorted_vec::SortedVec;
use std::cmp::Ordering;
use vstd::prelude::*;

verus! {

/// `sorted_vec::SortedVec`, carried through without a look inside: what it
/// holds is known by `sorted_keys` alone.
#[verifier::external_type_specification]
#[verifier::external_body]
#[verifier::reject_recursive_types(T)]
pub struct ExSortedVec<T: Ord>(SortedVec<T>);

/// The keys that a sorted vector holds, from its first to its last.
pub uninterp spec fn sorted_keys(keys: SortedVec<DateKey>) -> Seq<DateKey>;

/// Whether no key comes before an older one.
pub open spec fn ascending(keys: Seq<DateKey>) -> bool {
    forall|i: int, j: int|
        0 <= i < j < keys.len() ==> key_order(#[trigger] keys[i], #[trigger] keys[j])
            != Ordering::Greater
}

/// `sorted_vec::SortedVec::new`: a vector that holds no key.
#[verifier::external_body]
pub(crate) fn new_sorted_keys() -> (keys: SortedVec<DateKey>)
    ensures
        sorted_keys(keys) == Seq::<DateKey>::empty(),
{
    SortedVec::new()
}

/// `sorted_vec::SortedVec::push`: puts `key` into the vector and returns the
/// index at which it now stands. The keys that were there keep their order.
/// Where they were ascending, `key` stands behind the older keys and before
/// the later ones, so that the keys are ascending still.
#[verifier::external_body]
pub(crate) fn push_sorted_key(keys: &mut SortedVec<DateKey>, key: DateKey) -> (at: usize)
    ensures
        at <= sorted_keys(*old(keys)).len(),
        sorted_keys(*final(keys)) == sorted_keys(*old(keys)).insert(at as int, key),
        ascending(sorted_keys(*old(keys))) ==> ascending(sorted_keys(*final(keys))),
{
    keys.push(key)
}

/// What a record is ordered by: 0 for a record without dates and 1 for one
/// with dates, the key of its oldest date, the key of its newest date, and
/// the bytes of its path.
pub type RecordKey = (u8, DateKey, DateKey, Vec<u8>);

/// A record key, with its bytes as a sequence.
pub type RecordKeyView = (u8, DateKey, DateKey, Seq<u8>);

/// A record key, with its bytes as a sequence.
pub open spec fn record_key_view(key: RecordKey) -> RecordKeyView {
    (key.0, key.1, key.2, key.3@)
}

/// The order of two record keys: by the first part in which they differ,
/// and the bytes by the first byte in which they differ.
pub open spec fn record_key_order(a: RecordKeyView, b: RecordKeyView) -> Ordering {
    if a.0 < b.0 {
        Ordering::Less
    } else if a.0 > b.0 {
        Ordering::Greater
    } else {
        match key_order(a.1, b.1) {
            Ordering::Less => Ordering::Less,
            Ordering::Greater => Ordering::Greater,
            Ordering::Equal => match key_order(a.2, b.2) {
                Ordering::Less => Ordering::Less,
                Ordering::Greater => Ordering::Greater,
                Ordering::Equal => bytes_order(a.3, b.3),
            },
        }
    }
}

/// Whether no record key comes before one that the order puts before it.
pub open spec fn ascending_records(keys: Seq<RecordKeyView>) -> bool {
    forall|i: int, j: int|
        0 <= i < j < keys.len() ==> record_key_order(#[trigger] keys[i], #[trigger] keys[j])
            != Ordering::Greater
}

/// The record keys that a sorted vector holds, from its first to its last.
pub uninterp spec fn sorted_record_keys(keys: SortedVec<RecordKey>) -> Seq<RecordKeyView>;

/// `sorted_vec::SortedVec::new`: a vector that holds no record key.
#[verifier::external_body]
pub(crate) fn new_sorted_record_keys() -> (keys: SortedVec<RecordKey>)
    ensures
        sorted_record_keys(keys) == Seq::<RecordKeyView>::empty(),
{
    SortedVec::new()
}

/// `sorted_vec::SortedVec::push`: puts `key` into the vector and returns the
/// index at which it now stands. The keys that were there keep their order.
/// Where they were ascending, `key` stands behind the keys that the order
/// puts before it and before those that it puts behind it, so that the
/// keys are ascending still.
#[verifier::external_body]
pub(crate) fn push_sorted_record_key(keys: &mut SortedVec<RecordKey>, key: RecordKey) -> (at: usize)
    ensures
        at <= sorted_record_keys(*old(keys)).len(),
        sorted_record_keys(*final(keys)) == sorted_record_keys(*old(keys)).insert(
            at as int,
            record_key_view(key),
        ),
        ascending_records(sorted_record_keys(*old(keys))) ==> ascending_records(
            sorted_record_keys(*final(keys)),
        ),
{
    keys.push(key)
}

} // verus!
