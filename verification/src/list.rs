//! Date collections that keep their dates from the oldest to the newest:
//! `DateList`, which keeps every date it is given, and `DateSet`, which
//! keeps one of each.

use crate::date::reversed;
use crate::date::Date;
use crate::date::DateKey;
use crate::sorted::ascending;
use crate::sorted::new_sorted_keys;
use crate::sorted::push_sorted_key;
use crate::sorted::sorted_keys;
use sorted_vec::SortedVec;
use std::cmp::Ordering;
use vstd::prelude::*;

verus! {

/// Whether no date comes before an older one.
pub open spec fn in_order(dates: Seq<Date>) -> bool {
    forall|i: int, j: int|
        0 <= i < j < dates.len() ==> (#[trigger] dates[i]).chronological(#[trigger] dates[j])
            != Ordering::Greater
}

/// Whether each date is older than the next one, so that none occurs twice.
pub open spec fn strictly_in_order(dates: Seq<Date>) -> bool {
    forall|i: int, j: int|
        0 <= i < j < dates.len() ==> (#[trigger] dates[i]).chronological(#[trigger] dates[j])
            == Ordering::Less
}

/// The keys of the dates, one for one.
pub open spec fn keys_of(dates: Seq<Date>) -> Seq<DateKey> {
    Seq::new(dates.len(), |i: int| dates[i].key())
}

/// The order of two collections of dates, each from its oldest to its
/// newest date: a collection without dates comes before every other and is
/// equal to another without dates; two with dates go by their oldest dates
/// and, where these are the same, by their newest.
pub open spec fn collection_order(a: Seq<Date>, b: Seq<Date>) -> Ordering {
    if a.len() == 0 && b.len() == 0 {
        Ordering::Equal
    } else if a.len() == 0 {
        Ordering::Less
    } else if b.len() == 0 {
        Ordering::Greater
    } else {
        match a.first().chronological(b.first()) {
            Ordering::Less => Ordering::Less,
            Ordering::Greater => Ordering::Greater,
            Ordering::Equal => a.last().chronological(b.last()),
        }
    }
}

/// Dates are in order exactly where their keys are ascending.
pub proof fn lemma_keys_ascending(dates: Seq<Date>)
    ensures
        ascending(keys_of(dates)) <==> in_order(dates),
{
    let keys = keys_of(dates);
    if ascending(keys) {
        assert forall|i: int, j: int| 0 <= i < j < dates.len() implies (#[trigger] dates[i])
            .chronological(#[trigger] dates[j]) != Ordering::Greater by {
            assert(keys[i] == dates[i].key());
            assert(keys[j] == dates[j].key());
        }
    }
    if in_order(dates) {
        assert forall|i: int, j: int| 0 <= i < j < keys.len() implies crate::date::key_order(
            #[trigger] keys[i],
            #[trigger] keys[j],
        ) != Ordering::Greater by {
            assert(dates[i].chronological(dates[j]) != Ordering::Greater);
        }
    }
}

/// A collection is equal to itself in the order of collections.
pub proof fn lemma_collection_order_reflexive(a: Seq<Date>)
    ensures
        collection_order(a, a) == Ordering::Equal,
{
    if a.len() > 0 {
        a.first().lemma_order_reflexive();
        a.last().lemma_order_reflexive();
    }
}

/// Seen from the other side the order of two collections is reversed.
pub proof fn lemma_collection_order_antisymmetric(a: Seq<Date>, b: Seq<Date>)
    ensures
        collection_order(b, a) == reversed(collection_order(a, b)),
{
    if a.len() > 0 && b.len() > 0 {
        a.first().lemma_order_antisymmetric(b.first());
        a.last().lemma_order_antisymmetric(b.last());
    }
}

/// A collection that is not behind a second, which is not behind a third,
/// is not behind the third; and it is before the third where one of the
/// two steps is strict.
pub proof fn lemma_collection_order_transitive(a: Seq<Date>, b: Seq<Date>, c: Seq<Date>)
    requires
        collection_order(a, b) != Ordering::Greater,
        collection_order(b, c) != Ordering::Greater,
    ensures
        collection_order(a, c) != Ordering::Greater,
        collection_order(a, b) == Ordering::Less || collection_order(b, c) == Ordering::Less
            ==> collection_order(a, c) == Ordering::Less,
{
    if a.len() > 0 && b.len() > 0 && c.len() > 0 {
        a.first().lemma_order_transitive(b.first(), c.first());
        a.first().lemma_order_antisymmetric(b.first());
        b.first().lemma_order_antisymmetric(c.first());
        a.first().lemma_order_antisymmetric(c.first());
        if a.first() == b.first() && b.first() == c.first() {
            a.last().lemma_order_transitive(b.last(), c.last());
        }
    }
}

/// A collection without dates is before every collection with dates and
/// equal to every other without dates.
pub proof fn lemma_collection_order_empty(a: Seq<Date>, b: Seq<Date>)
    requires
        a.len() == 0,
    ensures
        b.len() == 0 ==> collection_order(a, b) == Ordering::Equal,
        b.len() > 0 ==> collection_order(a, b) == Ordering::Less,
        b.len() > 0 ==> collection_order(b, a) == Ordering::Greater,
{
}

/// Compares two collections of dates, each from its oldest to its newest.
pub fn compare_collections(a: &[Date], b: &[Date]) -> (order: Ordering)
    ensures
        order == collection_order(a@, b@),
{
    if a.len() == 0 && b.len() == 0 {
        return Ordering::Equal;
    }
    if a.len() == 0 {
        return Ordering::Less;
    }
    if b.len() == 0 {
        return Ordering::Greater;
    }
    match a[0].cmp(&b[0]) {
        Ordering::Less => Ordering::Less,
        Ordering::Greater => Ordering::Greater,
        Ordering::Equal => a[a.len() - 1].cmp(&b[b.len() - 1]),
    }
}

/// Whether two collections hold the same dates in the same places.
pub fn same_dates(a: &[Date], b: &[Date]) -> (same: bool)
    ensures
        same == (a@ == b@),
{
    if a.len() != b.len() {
        return false;
    }
    let mut i: usize = 0;
    while i < a.len()
        invariant
            a.len() == b.len(),
            0 <= i <= a.len(),
            forall|k: int| 0 <= k < i ==> a@[k] == b@[k],
        decreases a.len() - i,
    {
        if a[i] != b[i] {
            return false;
        }
        i = i + 1;
    }
    assert(a@ =~= b@);
    true
}

/// A list of dates sorted from oldest to newest. A date that is given
/// twice is held twice.
pub struct DateList {
    keys: SortedVec<DateKey>,
    dates: Vec<Date>,
}

impl View for DateList {
    type V = Seq<Date>;

    /// The dates, from the oldest to the newest.
    closed spec fn view(&self) -> Seq<Date> {
        self.dates@
    }
}

impl DateList {
    /// Whether the list is one that `new`, `from` and `push` make: its
    /// sorted vector holds the keys of its dates, in ascending order.
    pub closed spec fn wf(&self) -> bool {
        &&& sorted_keys(self.keys) == keys_of(self.dates@)
        &&& ascending(sorted_keys(self.keys))
    }

    /// The dates of a list are in order.
    pub proof fn lemma_in_order(&self)
        requires
            self.wf(),
        ensures
            in_order(self@),
    {
        lemma_keys_ascending(self.dates@);
    }

    /// Creates a list without dates.
    pub fn new() -> (list: DateList)
        ensures
            list.wf(),
            list@ == Seq::<Date>::empty(),
    {
        let keys = new_sorted_keys();
        let dates: Vec<Date> = Vec::new();
        assert(keys_of(dates@) =~= Seq::<DateKey>::empty());
        DateList { keys, dates }
    }

    /// Puts `date` into the list, behind the older dates and before the
    /// later ones, and returns the index at which it now stands.
    pub fn push(&mut self, date: Date) -> (at: usize)
        requires
            old(self).wf(),
        ensures
            final(self).wf(),
            at <= old(self)@.len(),
            final(self)@ == old(self)@.insert(at as int, date),
            in_order(final(self)@),
    {
        let at = push_sorted_key(&mut self.keys, date.key());
        self.dates.insert(at, date);
        proof {
            assert(sorted_keys(self.keys) =~= keys_of(self.dates@));
            lemma_keys_ascending(self.dates@);
        }
        at
    }

    /// Creates a list that holds each of `dates`, as often as it is given,
    /// from the oldest to the newest.
    pub fn from(dates: Vec<Date>) -> (list: DateList)
        ensures
            list.wf(),
            in_order(list@),
            list@.to_multiset() == dates@.to_multiset(),
    {
        let mut list = DateList::new();
        let mut i: usize = 0;
        assert(dates@.take(0) =~= list@);
        while i < dates.len()
            invariant
                0 <= i <= dates.len(),
                list.wf(),
                in_order(list@),
                list@.to_multiset() == dates@.take(i as int).to_multiset(),
            decreases dates.len() - i,
        {
            let ghost before = list@;
            let at = list.push(dates[i]);
            proof {
                vstd::seq_lib::to_multiset_insert(before, at as int, dates@[i as int]);
                vstd::seq_lib::to_multiset_build(dates@.take(i as int), dates@[i as int]);
                assert(dates@.take(i + 1) =~= dates@.take(i as int).push(dates@[i as int]));
            }
            i = i + 1;
        }
        proof {
            assert(dates@.take(i as int) =~= dates@);
        }
        list
    }

    /// Gets a reference to the dates, from the oldest to the newest.
    pub fn as_slice(&self) -> (dates: &[Date])
        ensures
            dates@ == self@,
    {
        self.dates.as_slice()
    }

    /// The number of dates in the list.
    pub fn len(&self) -> (len: usize)
        ensures
            len == self@.len(),
    {
        self.dates.len()
    }

    /// Whether the list holds no date.
    pub fn is_empty(&self) -> (empty: bool)
        ensures
            empty == (self@.len() == 0),
    {
        self.dates.len() == 0
    }

    /// The date at `index`, counted from the oldest.
    pub fn get(&self, index: usize) -> (date: Option<Date>)
        ensures
            date == (if index < self@.len() {
                Some(self@[index as int])
            } else {
                None
            }),
    {
        if index < self.dates.len() {
            Some(self.dates[index])
        } else {
            None
        }
    }

    /// The oldest date.
    pub fn first(&self) -> (date: Option<Date>)
        ensures
            date == (if self@.len() == 0 {
                None
            } else {
                Some(self@.first())
            }),
    {
        self.get(0)
    }

    /// The newest date.
    pub fn last(&self) -> (date: Option<Date>)
        ensures
            date == (if self@.len() == 0 {
                None
            } else {
                Some(self@.last())
            }),
    {
        if self.dates.len() == 0 {
            None
        } else {
            Some(self.dates[self.dates.len() - 1])
        }
    }

    /// Creates an iterator over the dates, from the oldest to the newest.
    pub fn iter<'l>(&'l self) -> (iterator: DateListIterator<'l>)
        ensures
            iterator.list() == self,
            iterator.position() == 0,
    {
        DateListIterator::new(self)
    }

    /// Compares two lists: one without dates comes first; else the oldest
    /// dates decide and, where they are the same, the newest.
    pub fn cmp(&self, other: &DateList) -> (order: Ordering)
        ensures
            order == collection_order(self@, other@),
    {
        compare_collections(self.dates.as_slice(), other.dates.as_slice())
    }
}

impl PartialEq for DateList {
    fn eq(&self, other: &DateList) -> (same: bool) {
        same_dates(self.dates.as_slice(), other.dates.as_slice())
    }
}

impl vstd::std_specs::cmp::PartialEqSpecImpl for DateList {
    open spec fn obeys_eq_spec() -> bool {
        true
    }

    open spec fn eq_spec(&self, other: &DateList) -> bool {
        self@ == other@
    }
}

/// What a sequence holds once `date` is put in at `at`: `date` and what it
/// held before.
pub proof fn lemma_insert_contains(dates: Seq<Date>, at: int, date: Date)
    requires
        0 <= at <= dates.len(),
    ensures
        forall|other: Date|
            #![trigger dates.insert(at, date).contains(other)]
            #![trigger dates.contains(other)]
            dates.insert(at, date).contains(other) <==> (other == date || dates.contains(other)),
{
    let longer = dates.insert(at, date);
    assert forall|other: Date| longer.contains(other) <==> (other == date || dates.contains(
        other,
    )) by {
        if longer.contains(other) {
            let i = choose|i: int| 0 <= i < longer.len() && longer[i] == other;
            if i < at {
                assert(dates[i] == other);
            } else if i > at {
                assert(dates[i - 1] == other);
            }
        }
        if other == date {
            assert(longer[at] == other);
        }
        if dates.contains(other) {
            let i = choose|i: int| 0 <= i < dates.len() && dates[i] == other;
            if i < at {
                assert(longer[i] == other);
            } else {
                assert(longer[i + 1] == other);
            }
        }
    }
}

/// What a sequence holds once `date` is put behind its last: `date` and
/// what it held before.
pub proof fn lemma_push_contains(dates: Seq<Date>, date: Date)
    ensures
        forall|other: Date|
            #![trigger dates.push(date).contains(other)]
            #![trigger dates.contains(other)]
            dates.push(date).contains(other) <==> (other == date || dates.contains(other)),
{
    let longer = dates.insert(dates.len() as int, date);
    assert(dates.push(date) =~= longer);
    lemma_insert_contains(dates, dates.len() as int, date);
    assert forall|other: Date| dates.push(date).contains(other) <==> (other == date
        || dates.contains(other)) by {
        assert(longer.contains(other) <==> (other == date || dates.contains(other)));
    }
}

/// Dates that are strictly in order stay so once a date that is not among
/// them is put in at a place that keeps them in order.
pub proof fn lemma_insert_strictly(dates: Seq<Date>, at: int, date: Date)
    requires
        0 <= at <= dates.len(),
        strictly_in_order(dates),
        !dates.contains(date),
        in_order(dates.insert(at, date)),
    ensures
        strictly_in_order(dates.insert(at, date)),
{
    let after = dates.insert(at, date);
    assert forall|i: int, j: int| 0 <= i < j < after.len() implies (#[trigger] after[i])
        .chronological(#[trigger] after[j]) == Ordering::Less by {
        let from_i = if i < at {
            i
        } else {
            i - 1
        };
        let from_j = if j < at {
            j
        } else {
            j - 1
        };
        if i != at && j != at {
            assert(after[i] == dates[from_i]);
            assert(after[j] == dates[from_j]);
            assert(dates[from_i].chronological(dates[from_j]) == Ordering::Less);
        } else if i == at {
            assert(after[j] == dates[from_j]);
            after[i].lemma_order_antisymmetric(after[j]);
        } else {
            assert(after[i] == dates[from_i]);
            after[i].lemma_order_antisymmetric(after[j]);
        }
    }
}

/// A set of dates sorted from oldest to newest. A date that is given twice
/// is held once.
pub struct DateSet {
    keys: SortedVec<DateKey>,
    dates: Vec<Date>,
}

impl View for DateSet {
    type V = Seq<Date>;

    /// The dates, from the oldest to the newest.
    closed spec fn view(&self) -> Seq<Date> {
        self.dates@
    }
}

impl DateSet {
    /// Whether the set is one that `new`, `from` and `insert` make: its
    /// sorted vector holds the keys of its dates, in ascending order, and
    /// no date twice.
    pub closed spec fn wf(&self) -> bool {
        &&& sorted_keys(self.keys) == keys_of(self.dates@)
        &&& ascending(sorted_keys(self.keys))
        &&& strictly_in_order(self.dates@)
    }

    /// Each date of a set is older than the next one.
    pub proof fn lemma_strictly_in_order(&self)
        requires
            self.wf(),
        ensures
            strictly_in_order(self@),
            in_order(self@),
    {
    }

    /// Creates a set without dates.
    pub fn new() -> (set: DateSet)
        ensures
            set.wf(),
            set@ == Seq::<Date>::empty(),
    {
        let keys = new_sorted_keys();
        let dates: Vec<Date> = Vec::new();
        assert(keys_of(dates@) =~= Seq::<DateKey>::empty());
        DateSet { keys, dates }
    }

    /// Whether the set holds `date`.
    pub fn contains(&self, date: &Date) -> (held: bool)
        ensures
            held == self@.contains(*date),
    {
        let mut i: usize = 0;
        while i < self.dates.len()
            invariant
                0 <= i <= self.dates.len(),
                forall|k: int| 0 <= k < i ==> self.dates@[k] != *date,
            decreases self.dates.len() - i,
        {
            if self.dates[i] == *date {
                return true;
            }
            i = i + 1;
        }
        false
    }

    /// Puts `date` into the set unless the set holds it already, behind the
    /// older dates and before the later ones. Returns the index at which
    /// it was put, or nothing where the set held it.
    pub fn insert(&mut self, date: Date) -> (at: Option<usize>)
        requires
            old(self).wf(),
        ensures
            final(self).wf(),
            strictly_in_order(final(self)@),
            match at {
                Some(at) => !old(self)@.contains(date) && at <= old(self)@.len() && final(self)@
                    == old(self)@.insert(at as int, date),
                None => old(self)@.contains(date) && final(self)@ == old(self)@,
            },
    {
        if self.contains(&date) {
            return None;
        }
        let ghost before = self.dates@;
        let at = push_sorted_key(&mut self.keys, date.key());
        self.dates.insert(at, date);
        proof {
            let after = self.dates@;
            assert(sorted_keys(self.keys) =~= keys_of(after));
            lemma_keys_ascending(after);
            lemma_insert_strictly(before, at as int, date);
        }
        Some(at)
    }

    /// Creates a set that holds each of `dates` once, from the oldest to
    /// the newest.
    pub fn from(dates: Vec<Date>) -> (set: DateSet)
        ensures
            set.wf(),
            strictly_in_order(set@),
            forall|date: Date| set@.contains(date) <==> dates@.contains(date),
    {
        let mut set = DateSet::new();
        let mut i: usize = 0;
        while i < dates.len()
            invariant
                0 <= i <= dates.len(),
                set.wf(),
                strictly_in_order(set@),
                forall|date: Date| set@.contains(date) <==> dates@.take(i as int).contains(date),
            decreases dates.len() - i,
        {
            let ghost before = set@;
            let ghost seen = dates@.take(i as int);
            let at = set.insert(dates[i]);
            proof {
                let date = dates@[i as int];
                assert(dates@.take(i + 1) =~= seen.push(date));
                lemma_push_contains(seen, date);
                if at is Some {
                    lemma_insert_contains(before, at.unwrap() as int, date);
                }
                assert forall|other: Date| set@.contains(other) <==> seen.push(date).contains(
                    other,
                ) by {
                    assert(before.contains(other) <==> seen.contains(other));
                    assert(before.contains(date) <==> seen.contains(date));
                }
            }
            i = i + 1;
        }
        proof {
            assert(dates@.take(i as int) =~= dates@);
        }
        set
    }

    /// Gets a reference to the dates, from the oldest to the newest.
    pub fn as_slice(&self) -> (dates: &[Date])
        ensures
            dates@ == self@,
    {
        self.dates.as_slice()
    }

    /// The number of dates in the set.
    pub fn len(&self) -> (len: usize)
        ensures
            len == self@.len(),
    {
        self.dates.len()
    }

    /// Whether the set holds no date.
    pub fn is_empty(&self) -> (empty: bool)
        ensures
            empty == (self@.len() == 0),
    {
        self.dates.len() == 0
    }

    /// Compares two sets: one without dates comes first; else the oldest
    /// dates decide and, where they are the same, the newest.
    pub fn cmp(&self, other: &DateSet) -> (order: Ordering)
        ensures
            order == collection_order(self@, other@),
    {
        compare_collections(self.dates.as_slice(), other.dates.as_slice())
    }
}

impl PartialEq for DateSet {
    fn eq(&self, other: &DateSet) -> (same: bool) {
        same_dates(self.dates.as_slice(), other.dates.as_slice())
    }
}

impl vstd::std_specs::cmp::PartialEqSpecImpl for DateSet {
    open spec fn obeys_eq_spec() -> bool {
        true
    }

    open spec fn eq_spec(&self, other: &DateSet) -> bool {
        self@ == other@
    }
}

/// An iterator over a `DateList`, created with its `iter` method.
pub struct DateListIterator<'l> {
    date_set: &'l DateList,
    index: usize,
}

impl<'l> DateListIterator<'l> {
    /// The list that the iterator goes over.
    pub closed spec fn list(&self) -> &'l DateList {
        self.date_set
    }

    /// The number of dates that the iterator has handed out.
    pub closed spec fn position(&self) -> nat {
        self.index as nat
    }

    /// Creates an iterator that starts at the oldest date of `date_set`.
    pub fn new(date_set: &'l DateList) -> (iterator: DateListIterator<'l>)
        ensures
            iterator.list() == date_set,
            iterator.position() == 0,
    {
        DateListIterator { date_set, index: 0 }
    }

    /// Hands out the next date, or nothing once every date was handed out.
    pub fn next(&mut self) -> (date: Option<Date>)
        ensures
            final(self).list() == old(self).list(),
            old(self).position() < old(self).list()@.len() ==> date == Some(
                old(self).list()@[old(self).position() as int],
            ) && final(self).position() == old(self).position() + 1,
            old(self).position() >= old(self).list()@.len() ==> date.is_none()
                && final(self).position() == old(self).position(),
    {
        let item = self.date_set.get(self.index);
        if self.index < self.date_set.len() {
            self.index = self.index + 1;
        }
        item
    }
}

} // verus!
