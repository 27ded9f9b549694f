//! The records of many files, kept in the order of records.

use crate::date::Date;
use crate::record::lemma_record_order_antisymmetric;
use crate::record::lemma_record_order_equal;
use crate::record::lemma_record_order_reflexive;
use crate::record::record_order;
use crate::record::FileDateList;
use crate::report::FileAggregateReport;
use crate::report::ReportError;
use crate::sorted::ascending_records;
use crate::sorted::new_sorted_record_keys;
use crate::sorted::push_sorted_record_key;
use crate::sorted::record_key_order;
use crate::sorted::sorted_record_keys;
use crate::sorted::RecordKey;
use crate::sorted::RecordKeyView;
use sorted_vec::SortedVec;
use std::cmp::Ordering;
use vstd::prelude::*;

verus! {

/// Whether no record comes before one that the order of records puts
/// before it.
pub open spec fn records_in_order(files: Seq<FileDateList>) -> bool {
    forall|i: int, j: int|
        #![trigger files[i], files[j]]
        0 <= i < j < files.len() ==> files[i].is_not_behind(&files[j])
}

/// The keys of the records, one for one.
pub open spec fn keys_of_records(files: Seq<FileDateList>) -> Seq<RecordKeyView> {
    Seq::new(files.len(), |i: int| files[i].spec_sort_key())
}

/// Records are in order exactly where their keys are ascending.
pub proof fn lemma_record_keys_ascending(files: Seq<FileDateList>)
    ensures
        ascending_records(keys_of_records(files)) <==> records_in_order(files),
{
    let keys = keys_of_records(files);
    if ascending_records(keys) {
        assert forall|i: int, j: int|
            #![trigger files[i], files[j]]
            0 <= i < j < files.len() implies files[i].is_not_behind(&files[j]) by {
            assert(keys[i] == files[i].spec_sort_key());
            assert(keys[j] == files[j].spec_sort_key());
            files[i].lemma_sort_key_order(&files[j]);
        }
    }
    if records_in_order(files) {
        assert forall|i: int, j: int| 0 <= i < j < keys.len() implies record_key_order(
            #[trigger] keys[i],
            #[trigger] keys[j],
        ) != Ordering::Greater by {
            assert(files[i].is_not_behind(&files[j]));
            files[i].lemma_sort_key_order(&files[j]);
        }
    }
}

/// What the records say, one for one.
pub open spec fn contents_of(files: Seq<FileDateList>) -> Seq<(Seq<char>, Seq<Date>)> {
    Seq::new(files.len(), |i: int| files[i].contents())
}

/// Whether no two of the records are those of one path.
pub open spec fn paths_differ(files: Seq<FileDateList>) -> bool {
    forall|i: int, j: int|
        #![trigger files[i], files[j]]
        0 <= i < j < files.len() ==> files[i].spec_path() != files[j].spec_path()
}

/// Whether no entry comes before one that the order of records puts
/// before it.
spec fn entries_in_order(entries: Seq<(Seq<char>, Seq<Date>)>) -> bool {
    forall|i: int, j: int|
        #![trigger entries[i], entries[j]]
        0 <= i < j < entries.len() ==> record_order(
            entries[i].0,
            entries[i].1,
            entries[j].0,
            entries[j].1,
        ) != Ordering::Greater
}

/// Whether no two of the entries are those of one path.
spec fn entry_paths_differ(entries: Seq<(Seq<char>, Seq<Date>)>) -> bool {
    forall|i: int, j: int|
        #![trigger entries[i], entries[j]]
        0 <= i < j < entries.len() ==> entries[i].0 != entries[j].0
}

/// Entries of different paths that are in order stand in the one sequence
/// that the order allows.
proof fn lemma_order_fixes_entries(
    x: Seq<(Seq<char>, Seq<Date>)>,
    y: Seq<(Seq<char>, Seq<Date>)>,
)
    requires
        entries_in_order(x),
        entries_in_order(y),
        entry_paths_differ(x),
        x.to_multiset() == y.to_multiset(),
    ensures
        x == y,
    decreases x.len(),
{
    x.to_multiset_ensures();
    y.to_multiset_ensures();
    if x.len() == 0 {
        assert(x =~= y);
    } else {
        assert(x[0] == x[0] && x.contains(x[0]));
        assert(y[0] == y[0] && y.contains(y[0]));
        assert(x.to_multiset().count(x[0]) > 0 && y.to_multiset().count(x[0]) > 0);
        assert(y.to_multiset().count(y[0]) > 0 && x.to_multiset().count(y[0]) > 0);
        assert(y.contains(x[0]));
        assert(x.contains(y[0]));
        let k = choose|k: int| 0 <= k < y.len() && y[k] == x[0];
        let m = choose|m: int| 0 <= m < x.len() && x[m] == y[0];
        if m != 0 {
            assert(record_order(x[0].0, x[0].1, x[m].0, x[m].1) != Ordering::Greater);
            if k != 0 {
                assert(record_order(y[0].0, y[0].1, y[k].0, y[k].1) != Ordering::Greater);
            } else {
                lemma_record_order_reflexive(y[0].0, y[0].1);
            }
            lemma_record_order_antisymmetric(x[0].0, x[0].1, y[0].0, y[0].1);
            lemma_record_order_equal(x[0].0, x[0].1, y[0].0, y[0].1);
            assert(x[0].0 == x[m].0);
            assert(false);
        }
        let rest_x = x.drop_first();
        let rest_y = y.drop_first();
        assert(rest_x =~= x.remove(0));
        assert(rest_y =~= y.remove(0));
        assert forall|i: int, j: int|
            #![trigger rest_x[i], rest_x[j]]
            0 <= i < j < rest_x.len() implies record_order(
            rest_x[i].0,
            rest_x[i].1,
            rest_x[j].0,
            rest_x[j].1,
        ) != Ordering::Greater && rest_x[i].0 != rest_x[j].0 by {
            assert(rest_x[i] == x[i + 1] && rest_x[j] == x[j + 1]);
        }
        assert forall|i: int, j: int|
            #![trigger rest_y[i], rest_y[j]]
            0 <= i < j < rest_y.len() implies record_order(
            rest_y[i].0,
            rest_y[i].1,
            rest_y[j].0,
            rest_y[j].1,
        ) != Ordering::Greater by {
            assert(rest_y[i] == y[i + 1] && rest_y[j] == y[j + 1]);
        }
        lemma_order_fixes_entries(rest_x, rest_y);
        assert(x =~= seq![x[0]] + rest_x);
        assert(y =~= seq![y[0]] + rest_y);
    }
}

/// The order of records fixes the sequence: two sequences of records that
/// are both in order and say the same, each of its records as often in
/// the one as in the other, are the same from the first record to the
/// last, where no two records are those of one path. So the aggregate of
/// a tree does not depend on the order in which the records arrived, nor
/// on the number of workers that read the files.
pub proof fn lemma_order_fixes_sequence(a: Seq<FileDateList>, b: Seq<FileDateList>)
    requires
        records_in_order(a),
        records_in_order(b),
        paths_differ(a),
        contents_of(a).to_multiset() == contents_of(b).to_multiset(),
    ensures
        contents_of(a) == contents_of(b),
{
    let x = contents_of(a);
    let y = contents_of(b);
    assert forall|i: int, j: int|
        #![trigger x[i], x[j]]
        0 <= i < j < x.len() implies record_order(x[i].0, x[i].1, x[j].0, x[j].1)
        != Ordering::Greater && x[i].0 != x[j].0 by {
        assert(a[i].is_not_behind(&a[j]));
        assert(a[i].spec_path() != a[j].spec_path());
    }
    assert forall|i: int, j: int|
        #![trigger y[i], y[j]]
        0 <= i < j < y.len() implies record_order(y[i].0, y[i].1, y[j].0, y[j].1)
        != Ordering::Greater by {
        assert(b[i].is_not_behind(&b[j]));
    }
    lemma_order_fixes_entries(x, y);
}

/// A record that is put into a sequence adds what it says to what the
/// sequence said, once, wherever it is put.
pub proof fn lemma_insert_contents(files: Seq<FileDateList>, at: int, record: FileDateList)
    requires
        0 <= at <= files.len(),
    ensures
        contents_of(files.insert(at, record)).to_multiset() == contents_of(
            files,
        ).to_multiset().insert(record.contents()),
{
    assert(contents_of(files.insert(at, record)) =~= contents_of(files).insert(
        at,
        record.contents(),
    ));
    vstd::seq_lib::to_multiset_insert(contents_of(files), at, record.contents());
}

/// A sorted list of many different files, each with the dates collected
/// from it.
pub struct FileAggregateDateList {
    keys: SortedVec<RecordKey>,
    files: Vec<FileDateList>,
}

impl View for FileAggregateDateList {
    type V = Seq<FileDateList>;

    /// The records, in the order of records.
    closed spec fn view(&self) -> Seq<FileDateList> {
        self.files@
    }
}

impl FileAggregateDateList {
    /// Whether the aggregate is one that `new` and `push` make: its sorted
    /// vector holds the keys of its records, in ascending order.
    pub closed spec fn wf(&self) -> bool {
        &&& sorted_record_keys(self.keys) == keys_of_records(self.files@)
        &&& ascending_records(sorted_record_keys(self.keys))
    }

    /// The records of an aggregate are in order.
    pub proof fn lemma_in_order(&self)
        requires
            self.wf(),
        ensures
            records_in_order(self@),
    {
        lemma_record_keys_ascending(self.files@);
    }

    /// Creates an aggregate without records.
    pub fn new() -> (aggregate: FileAggregateDateList)
        ensures
            aggregate.wf(),
            aggregate@ == Seq::<FileDateList>::empty(),
    {
        let keys = new_sorted_record_keys();
        let files: Vec<FileDateList> = Vec::new();
        assert(keys_of_records(files@) =~= Seq::<RecordKeyView>::empty());
        FileAggregateDateList { keys, files }
    }

    /// Puts `record` into the aggregate, behind the records that the order
    /// puts before it and before those that it puts behind it, and returns
    /// the index at which it now stands.
    pub fn push(&mut self, record: FileDateList) -> (at: usize)
        requires
            old(self).wf(),
        ensures
            final(self).wf(),
            at <= old(self)@.len(),
            final(self)@ == old(self)@.insert(at as int, record),
            records_in_order(final(self)@),
            contents_of(final(self)@).to_multiset() == contents_of(
                old(self)@,
            ).to_multiset().insert(record.contents()),
    {
        let at = push_sorted_record_key(&mut self.keys, record.sort_key());
        self.files.insert(at, record);
        proof {
            lemma_insert_contents(old(self).files@, at as int, record);
            assert(sorted_record_keys(self.keys) =~= keys_of_records(self.files@));
            lemma_record_keys_ascending(self.files@);
        }
        at
    }

    /// Accesses the records as a slice, in the order of records.
    pub fn as_slice(&self) -> (files: &[FileDateList])
        ensures
            files@ == self@,
    {
        self.files.as_slice()
    }

    /// The number of records.
    pub fn len(&self) -> (len: usize)
        ensures
            len == self@.len(),
    {
        self.files.len()
    }

    /// Whether the aggregate holds no record.
    pub fn is_empty(&self) -> (empty: bool)
        ensures
            empty == (self@.len() == 0),
    {
        self.files.len() == 0
    }

    /// The record at `index`, counted from the first in the order of
    /// records.
    pub fn get(&self, index: usize) -> (record: Option<&FileDateList>)
        ensures
            record == (if index < self@.len() {
                Some(&self@[index as int])
            } else {
                None
            }),
    {
        if index < self.files.len() {
            Some(&self.files[index])
        } else {
            None
        }
    }

    /// Creates an iterator over the records, in the order of records.
    pub fn iter<'l>(&'l self) -> (iterator: FileAggregateDateListIterator<'l>)
        ensures
            iterator.aggregate() == self,
            iterator.position() == 0,
    {
        FileAggregateDateListIterator::new(self)
    }

    /// Creates a report of the oldest, the newest and the median record.
    /// An aggregate without records has none.
    pub fn create_report<'l>(&'l self) -> (r: Result<FileAggregateReport<'l>, ReportError>)
        ensures
            r == FileAggregateReport::spec_from(self),
    {
        FileAggregateReport::from(self)
    }
}

/// An iterator over a `FileAggregateDateList`, created with its `iter`
/// method.
pub struct FileAggregateDateListIterator<'l> {
    data: &'l FileAggregateDateList,
    index: usize,
}

impl<'l> FileAggregateDateListIterator<'l> {
    /// The aggregate that the iterator goes over.
    pub closed spec fn aggregate(&self) -> &'l FileAggregateDateList {
        self.data
    }

    /// The number of records that the iterator has handed out.
    pub closed spec fn position(&self) -> nat {
        self.index as nat
    }

    /// Creates an iterator that starts at the first record of `data`.
    pub fn new(data: &'l FileAggregateDateList) -> (iterator: FileAggregateDateListIterator<'l>)
        ensures
            iterator.aggregate() == data,
            iterator.position() == 0,
    {
        FileAggregateDateListIterator { data, index: 0 }
    }

    /// Hands out the next record, or nothing once every record was handed
    /// out.
    pub fn next(&mut self) -> (record: Option<&'l FileDateList>)
        ensures
            final(self).aggregate() == old(self).aggregate(),
            old(self).position() < old(self).aggregate()@.len() ==> record == Some(
                &old(self).aggregate()@[old(self).position() as int],
            ) && final(self).position() == old(self).position() + 1,
            old(self).position() >= old(self).aggregate()@.len() ==> record.is_none()
                && final(self).position() == old(self).position(),
    {
        let item = self.data.get(self.index);
        if self.index < self.data.len() {
            self.index = self.index + 1;
        }
        item
    }
}

} // verus!
