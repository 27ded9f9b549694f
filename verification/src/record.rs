//! The dates of one file: a path with its date collection, and the order
//! of two such records.

use crate::date::reversed;
use crate::date::Date;
use crate::extract::dates_written;
use crate::list::collection_order;
use crate::list::in_order;
use crate::list::lemma_collection_order_antisymmetric;
use crate::list::lemma_collection_order_reflexive;
use crate::list::lemma_collection_order_transitive;
use crate::list::DateList;
use crate::list::DateSet;
use crate::recognizer::successive_matches;
use crate::recognizer::Recognizer;
use crate::recognizer::DAY_GROUP;
use crate::recognizer::MONTH_GROUP;
use crate::recognizer::YEAR_GROUP;
use crate::sorted::record_key_order;
use crate::sorted::record_key_view;
use crate::sorted::RecordKey;
use crate::sorted::RecordKeyView;
use std::cmp::Ordering;
use vstd::prelude::*;
use vstd::string::StrSliceExecFns;
use vstd::string::StringExecFns;
use vstd::string::StringSliceAdditionalSpecFns;
use vstd::utf8::decode_utf8;
use vstd::utf8::encode_utf8;
use vstd::utf8::valid_utf8;

verus! {

/// The reason for which the dates of a file or of a tree could not be
/// collected.
#[derive(Copy, Clone, Debug, PartialEq, Eq, Structural)]
pub enum CollectDateError {
    /// Inadequate permission opening a file or directory.
    PermissionDenied,
    /// A file or directory does not exist at the given path.
    FileNotFound,
    /// A general I/O error occurred.
    GeneralIOError,
    /// A directory path was given where a file path was expected.
    FileIsDirectory,
    /// Input data contains invalid data: a file that should hold text
    /// holds binary data.
    InvalidData,
}

/// What is read of the kind of an I/O error: three kinds by name, and every
/// other kind as one.
#[derive(Copy, Clone, Debug, PartialEq, Eq, Structural)]
pub enum IoFailure {
    /// The entity was not found.
    NotFound,
    /// The operation lacked the permission to complete.
    PermissionDenied,
    /// The data was not valid for the operation.
    InvalidData,
    /// Any other kind of failure.
    Other,
}

/// `std::io::Error`, carried through without a look inside.
#[verifier::external_type_specification]
#[verifier::external_body]
pub struct ExIoError(std::io::Error);

/// The kind of an I/O error, as one of the three that are told apart or as
/// `Other`.
pub uninterp spec fn io_failure(error: std::io::Error) -> IoFailure;

/// `std::io::Error::kind`: the kind of the error, as one of the three that
/// are told apart or as `Other`. The contract claims that the kind is a
/// function of the error, and gives that function the name `io_failure`.
#[verifier::external_body]
fn failure_of(error: &std::io::Error) -> (failure: IoFailure)
    ensures
        failure == io_failure(*error),
{
    match error.kind() {
        std::io::ErrorKind::NotFound => IoFailure::NotFound,
        std::io::ErrorKind::PermissionDenied => IoFailure::PermissionDenied,
        std::io::ErrorKind::InvalidData => IoFailure::InvalidData,
        _ => IoFailure::Other,
    }
}

/// `std::str::from_utf8`: the text that `bytes` encode in UTF-8, or nothing
/// where they encode none.
#[verifier::external_body]
fn text_of(bytes: &[u8]) -> (text: Option<&str>)
    ensures
        text is Some <==> valid_utf8(bytes@),
        text matches Some(text) ==> text@ == decode_utf8(bytes@),
{
    std::str::from_utf8(bytes).ok()
}

impl CollectDateError {
    /// The sentence that describes the error.
    pub open spec fn spec_message(self) -> Seq<char> {
        match self {
            CollectDateError::PermissionDenied => "Permission denied"@,
            CollectDateError::FileNotFound => "File does not exist"@,
            CollectDateError::GeneralIOError => "General I/O error"@,
            CollectDateError::FileIsDirectory => "File is a directory"@,
            CollectDateError::InvalidData => "Invalid data"@,
        }
    }

    /// The error that stands for a failure of the file system.
    pub open spec fn spec_from_failure(failure: IoFailure) -> CollectDateError {
        match failure {
            IoFailure::NotFound => CollectDateError::FileNotFound,
            IoFailure::PermissionDenied => CollectDateError::PermissionDenied,
            IoFailure::InvalidData => CollectDateError::InvalidData,
            IoFailure::Other => CollectDateError::GeneralIOError,
        }
    }

    /// The sentence that describes the error.
    pub fn to_string(&self) -> (s: String)
        ensures
            s@ == self.spec_message(),
    {
        String::from_str(
            match self {
                CollectDateError::PermissionDenied => "Permission denied",
                CollectDateError::FileNotFound => "File does not exist",
                CollectDateError::GeneralIOError => "General I/O error",
                CollectDateError::FileIsDirectory => "File is a directory",
                CollectDateError::InvalidData => "Invalid data",
            },
        )
    }

    /// The error that stands for a failure of the file system.
    #[verifier::when_used_as_spec(spec_from_failure)]
    pub fn from_failure(failure: IoFailure) -> (error: CollectDateError)
        ensures
            error == CollectDateError::spec_from_failure(failure),
    {
        match failure {
            IoFailure::NotFound => CollectDateError::FileNotFound,
            IoFailure::PermissionDenied => CollectDateError::PermissionDenied,
            IoFailure::InvalidData => CollectDateError::InvalidData,
            IoFailure::Other => CollectDateError::GeneralIOError,
        }
    }
}

impl From<std::io::Error> for CollectDateError {
    /// The error that stands for a failure of the file system: by the kind
    /// of the failure, as `from_failure` has it.
    fn from(value: std::io::Error) -> (error: CollectDateError)
        ensures
            error == CollectDateError::spec_from_failure(io_failure(value)),
    {
        CollectDateError::from_failure(failure_of(&value))
    }
}

impl vstd::std_specs::convert::FromSpecImpl<std::io::Error> for CollectDateError {
    open spec fn obeys_from_spec() -> bool {
        true
    }

    open spec fn from_spec(value: std::io::Error) -> CollectDateError {
        CollectDateError::spec_from_failure(io_failure(value))
    }
}

/// The order of two byte strings: by the first byte in which they differ,
/// and a string before each of its extensions.
pub open spec fn bytes_order(a: Seq<u8>, b: Seq<u8>) -> Ordering
    decreases a.len(),
{
    if a.len() == 0 && b.len() == 0 {
        Ordering::Equal
    } else if a.len() == 0 {
        Ordering::Less
    } else if b.len() == 0 {
        Ordering::Greater
    } else if a[0] < b[0] {
        Ordering::Less
    } else if a[0] > b[0] {
        Ordering::Greater
    } else {
        bytes_order(a.drop_first(), b.drop_first())
    }
}

/// The order of two paths: that of their UTF-8 bytes.
pub open spec fn path_order(a: Seq<char>, b: Seq<char>) -> Ordering {
    bytes_order(encode_utf8(a), encode_utf8(b))
}

/// The order of two records: that of their dates and, where these are
/// equal, that of their paths.
pub open spec fn record_order(
    path: Seq<char>,
    dates: Seq<Date>,
    other_path: Seq<char>,
    other_dates: Seq<Date>,
) -> Ordering {
    match collection_order(dates, other_dates) {
        Ordering::Less => Ordering::Less,
        Ordering::Greater => Ordering::Greater,
        Ordering::Equal => path_order(path, other_path),
    }
}

/// A byte string is equal to itself in the order of byte strings.
pub proof fn lemma_bytes_order_reflexive(a: Seq<u8>)
    ensures
        bytes_order(a, a) == Ordering::Equal,
    decreases a.len(),
{
    if a.len() > 0 {
        lemma_bytes_order_reflexive(a.drop_first());
    }
}

/// Seen from the other side the order of two byte strings is reversed.
pub proof fn lemma_bytes_order_antisymmetric(a: Seq<u8>, b: Seq<u8>)
    ensures
        bytes_order(b, a) == reversed(bytes_order(a, b)),
    decreases a.len(),
{
    if a.len() > 0 && b.len() > 0 && a[0] == b[0] {
        lemma_bytes_order_antisymmetric(a.drop_first(), b.drop_first());
    }
}

/// Only a byte string itself is equal to it in the order of byte strings.
pub proof fn lemma_bytes_order_equal(a: Seq<u8>, b: Seq<u8>)
    ensures
        bytes_order(a, b) == Ordering::Equal <==> a == b,
    decreases a.len(),
{
    if a.len() > 0 && b.len() > 0 && a[0] == b[0] {
        lemma_bytes_order_equal(a.drop_first(), b.drop_first());
        if a.drop_first() == b.drop_first() {
            assert(a =~= seq![a[0]] + a.drop_first());
            assert(b =~= seq![b[0]] + b.drop_first());
        }
    }
    if a == b {
        lemma_bytes_order_reflexive(a);
    }
    if a.len() == 0 && b.len() == 0 {
        assert(a =~= b);
    }
}

/// A byte string that is not behind a second, which is not behind a third,
/// is not behind the third; and it is before the third where one of the
/// two steps is strict.
pub proof fn lemma_bytes_order_transitive(a: Seq<u8>, b: Seq<u8>, c: Seq<u8>)
    requires
        bytes_order(a, b) != Ordering::Greater,
        bytes_order(b, c) != Ordering::Greater,
    ensures
        bytes_order(a, c) != Ordering::Greater,
        bytes_order(a, b) == Ordering::Less || bytes_order(b, c) == Ordering::Less ==> bytes_order(
            a,
            c,
        ) == Ordering::Less,
    decreases a.len(),
{
    if a.len() > 0 && b.len() > 0 && c.len() > 0 && a[0] == b[0] && b[0] == c[0] {
        lemma_bytes_order_transitive(a.drop_first(), b.drop_first(), c.drop_first());
    }
}

/// A record is equal to itself in the order of records.
pub proof fn lemma_record_order_reflexive(path: Seq<char>, dates: Seq<Date>)
    ensures
        record_order(path, dates, path, dates) == Ordering::Equal,
{
    lemma_collection_order_reflexive(dates);
    lemma_bytes_order_reflexive(encode_utf8(path));
}

/// Seen from the other side the order of two records is reversed.
pub proof fn lemma_record_order_antisymmetric(
    path: Seq<char>,
    dates: Seq<Date>,
    other_path: Seq<char>,
    other_dates: Seq<Date>,
)
    ensures
        record_order(other_path, other_dates, path, dates) == reversed(
            record_order(path, dates, other_path, other_dates),
        ),
{
    lemma_collection_order_antisymmetric(dates, other_dates);
    lemma_bytes_order_antisymmetric(encode_utf8(path), encode_utf8(other_path));
}

/// A record that is not behind a second, which is not behind a third, is
/// not behind the third; and it is before the third where one of the two
/// steps is strict.
pub proof fn lemma_record_order_transitive(
    path_a: Seq<char>,
    dates_a: Seq<Date>,
    path_b: Seq<char>,
    dates_b: Seq<Date>,
    path_c: Seq<char>,
    dates_c: Seq<Date>,
)
    requires
        record_order(path_a, dates_a, path_b, dates_b) != Ordering::Greater,
        record_order(path_b, dates_b, path_c, dates_c) != Ordering::Greater,
    ensures
        record_order(path_a, dates_a, path_c, dates_c) != Ordering::Greater,
        record_order(path_a, dates_a, path_b, dates_b) == Ordering::Less || record_order(
            path_b,
            dates_b,
            path_c,
            dates_c,
        ) == Ordering::Less ==> record_order(path_a, dates_a, path_c, dates_c) == Ordering::Less,
{
    lemma_collection_order_transitive(dates_a, dates_b, dates_c);
    if collection_order(dates_a, dates_b) == Ordering::Equal && collection_order(dates_b, dates_c)
        == Ordering::Equal {
        lemma_bytes_order_transitive(
            encode_utf8(path_a),
            encode_utf8(path_b),
            encode_utf8(path_c),
        );
    }
}

/// Two records that are equal in the order of records are those of one
/// path.
pub proof fn lemma_record_order_equal(
    path: Seq<char>,
    dates: Seq<Date>,
    other_path: Seq<char>,
    other_dates: Seq<Date>,
)
    requires
        record_order(path, dates, other_path, other_dates) == Ordering::Equal,
    ensures
        path == other_path,
{
    lemma_bytes_order_equal(encode_utf8(path), encode_utf8(other_path));
    vstd::utf8::encode_utf8_decode_utf8(path);
    vstd::utf8::encode_utf8_decode_utf8(other_path);
}

/// Two records of which one has no dates and the other has some: the one
/// without dates comes first, whatever the paths.
pub proof fn lemma_record_order_empty(
    path: Seq<char>,
    dates: Seq<Date>,
    other_path: Seq<char>,
    other_dates: Seq<Date>,
)
    requires
        dates.len() == 0,
        other_dates.len() > 0,
    ensures
        record_order(path, dates, other_path, other_dates) == Ordering::Less,
        record_order(other_path, other_dates, path, dates) == Ordering::Greater,
{
}

/// Compares two byte strings by the first byte in which they differ.
pub fn compare_bytes(a: &[u8], b: &[u8]) -> (order: Ordering)
    ensures
        order == bytes_order(a@, b@),
{
    let mut i: usize = 0;
    let ghost mut at: int = 0;
    proof {
        assert(a@.skip(0) =~= a@);
        assert(b@.skip(0) =~= b@);
    }
    while i < a.len() && i < b.len()
        invariant
            at == i,
            0 <= at <= a@.len(),
            at <= b@.len(),
            bytes_order(a@, b@) == bytes_order(a@.skip(at), b@.skip(at)),
        decreases a.len() - i,
    {
        proof {
            assert(a@.skip(at)[0] == a@[at]);
            assert(b@.skip(at)[0] == b@[at]);
            assert(a@.skip(at).drop_first() =~= a@.skip(at + 1));
            assert(b@.skip(at).drop_first() =~= b@.skip(at + 1));
        }
        if a[i] < b[i] {
            return Ordering::Less;
        }
        if a[i] > b[i] {
            return Ordering::Greater;
        }
        i = i + 1;
        proof {
            at = at + 1;
        }
    }
    proof {
        assert(a@.skip(at).len() == a@.len() - at);
        assert(b@.skip(at).len() == b@.len() - at);
    }
    if i < b.len() {
        Ordering::Less
    } else if i < a.len() {
        Ordering::Greater
    } else {
        Ordering::Equal
    }
}

/// Compares two paths by their bytes.
pub fn compare_paths(a: &str, b: &str) -> (order: Ordering)
    ensures
        order == path_order(a@, b@),
{
    compare_bytes(a.as_bytes(), b.as_bytes())
}

/// A `DateList` gathered from a file, with the path of the file.
pub struct FileDateList {
    path: String,
    dates: DateList,
}

impl FileDateList {
    /// The path of the file, as contracts see it.
    pub closed spec fn spec_path(&self) -> Seq<char> {
        self.path@
    }

    /// The dates of the file, as contracts see them.
    pub closed spec fn spec_dates(&self) -> &DateList {
        &self.dates
    }

    /// Whether the dates are a list that the library made.
    pub open spec fn wf(&self) -> bool {
        self.spec_dates().wf()
    }

    /// The order of two records: that of their dates and, where these are
    /// equal, that of their paths.
    pub open spec fn order(&self, other: &FileDateList) -> Ordering {
        record_order(
            self.spec_path(),
            self.spec_dates()@,
            other.spec_path(),
            other.spec_dates()@,
        )
    }

    /// What the record is ordered by: whether it has dates, the keys of
    /// its oldest and of its newest date, and the bytes of its path.
    pub open spec fn spec_sort_key(&self) -> RecordKeyView {
        if self.spec_dates()@.len() == 0 {
            (0u8, (0isize, 0u8, 0usize), (0isize, 0u8, 0usize), encode_utf8(self.spec_path()))
        } else {
            (
                1u8,
                self.spec_dates()@.first().key(),
                self.spec_dates()@.last().key(),
                encode_utf8(self.spec_path()),
            )
        }
    }

    /// Two records are ordered as their keys are.
    pub proof fn lemma_sort_key_order(&self, other: &FileDateList)
        ensures
            record_key_order(self.spec_sort_key(), other.spec_sort_key()) == self.order(other),
    {
    }

    /// What the record is ordered by: whether it has dates, the keys of
    /// its oldest and of its newest date, and the bytes of its path.
    pub fn sort_key(&self) -> (key: RecordKey)
        ensures
            record_key_view(key) == self.spec_sort_key(),
    {
        let path = self.path.as_str().as_bytes_vec();
        match (self.dates.first(), self.dates.last()) {
            (Some(first), Some(last)) => (1, first.key(), last.key(), path),
            _ => (0, (0, 0, 0), (0, 0, 0), path),
        }
    }

    /// What the record says: the path of its file and the dates found in
    /// it, from the oldest to the newest.
    pub open spec fn contents(&self) -> (Seq<char>, Seq<Date>) {
        (self.spec_path(), self.spec_dates()@)
    }

    /// Whether the order of records does not put the record behind
    /// `other`.
    pub open spec fn is_not_behind(&self, other: &FileDateList) -> bool {
        self.order(other) != Ordering::Greater
    }

    /// Creates a record from the path of a file and its dates.
    pub fn from(path: String, dates: DateList) -> (record: FileDateList)
        ensures
            record.spec_path() == path@,
            record.spec_dates() == dates,
    {
        FileDateList { path, dates }
    }

    /// Gets the path of the file.
    pub fn path(&self) -> (path: &str)
        ensures
            path@ == self.spec_path(),
    {
        self.path.as_str()
    }

    /// Gets the dates collected from the file.
    pub fn dates(&self) -> (dates: &DateList)
        ensures
            dates == self.spec_dates(),
    {
        &self.dates
    }

    /// Compares two records by their dates and, where these are equal, by
    /// their paths.
    pub fn cmp(&self, other: &FileDateList) -> (order: Ordering)
        ensures
            order == self.order(other),
    {
        match self.dates.cmp(&other.dates) {
            Ordering::Less => Ordering::Less,
            Ordering::Greater => Ordering::Greater,
            Ordering::Equal => compare_paths(self.path.as_str(), other.path.as_str()),
        }
    }

    /// What `from_bytes_with` makes of the matches of a recognizer in the
    /// text that `contents` encode: the dates that the matches write, in
    /// order and each as often as it was found.
    pub open spec fn holds_dates_of(
        &self,
        path: Seq<char>,
        contents: Seq<u8>,
        pattern: Seq<char>,
    ) -> bool {
        &&& self.spec_path() == path
        &&& self.wf()
        &&& in_order(self.spec_dates()@)
        &&& self.spec_dates()@.to_multiset() == dates_written(
            successive_matches(pattern, decode_utf8(contents), DAY_GROUP@, MONTH_GROUP@, YEAR_GROUP@),
        ).to_multiset()
    }

    /// Collects the dates of a file from its contents, with a given
    /// recognizer. Contents that are no UTF-8 text are `InvalidData`. A
    /// recognizer that leaves a group empty in some match cannot tell the
    /// dates of the file: this is reported as `GeneralIOError`.
    pub fn from_bytes_with(path: String, contents: &[u8], regex: &Recognizer) -> (r: Result<
        FileDateList,
        CollectDateError,
    >)
        ensures
            r is Ok <==> valid_utf8(contents@) && Date::spec_from_captures(
                successive_matches(
                    regex@,
                    decode_utf8(contents@),
                    DAY_GROUP@,
                    MONTH_GROUP@,
                    YEAR_GROUP@,
                ),
            ) is Ok,
            match r {
                Ok(record) => record.holds_dates_of(path@, contents@, regex@),
                Err(error) => error == (if valid_utf8(contents@) {
                    CollectDateError::GeneralIOError
                } else {
                    CollectDateError::InvalidData
                }),
            },
    {
        let text = match text_of(contents) {
            Some(text) => text,
            None => return Err(CollectDateError::InvalidData),
        };
        match Date::from_text_multi_sorted_with(text, regex) {
            Ok(dates) => Ok(FileDateList { path, dates }),
            Err(_) => Err(CollectDateError::GeneralIOError),
        }
    }

    /// Collects the dates of an entry of a tree, with a given recognizer. A
    /// directory is `FileIsDirectory`, whatever `contents` holds; of a
    /// file, `contents` is read as `from_bytes_with` reads it.
    pub fn from_entry(
        path: String,
        is_directory: bool,
        contents: &[u8],
        regex: &Recognizer,
    ) -> (r: Result<FileDateList, CollectDateError>)
        ensures
            r is Ok <==> !is_directory && valid_utf8(contents@) && Date::spec_from_captures(
                successive_matches(
                    regex@,
                    decode_utf8(contents@),
                    DAY_GROUP@,
                    MONTH_GROUP@,
                    YEAR_GROUP@,
                ),
            ) is Ok,
            match r {
                Ok(record) => record.holds_dates_of(path@, contents@, regex@),
                Err(error) => error == (if is_directory {
                    CollectDateError::FileIsDirectory
                } else if valid_utf8(contents@) {
                    CollectDateError::GeneralIOError
                } else {
                    CollectDateError::InvalidData
                }),
            },
    {
        if is_directory {
            return Err(CollectDateError::FileIsDirectory);
        }
        FileDateList::from_bytes_with(path, contents, regex)
    }
}

impl PartialEq for FileDateList {
    fn eq(&self, other: &FileDateList) -> (same: bool) {
        self.path == other.path && self.dates == other.dates
    }
}

impl vstd::std_specs::cmp::PartialEqSpecImpl for FileDateList {
    open spec fn obeys_eq_spec() -> bool {
        true
    }

    open spec fn eq_spec(&self, other: &FileDateList) -> bool {
        self.spec_path() == other.spec_path() && self.spec_dates()@ == other.spec_dates()@
    }
}

/// A `DateSet` gathered from a file, with the path of the file.
pub struct FileDateSet {
    path: String,
    dates: DateSet,
}

impl FileDateSet {
    /// The path of the file, as contracts see it.
    pub closed spec fn spec_path(&self) -> Seq<char> {
        self.path@
    }

    /// The dates of the file, as contracts see them.
    pub closed spec fn spec_dates(&self) -> &DateSet {
        &self.dates
    }

    /// The order of two records: that of their dates and, where these are
    /// equal, that of their paths.
    pub open spec fn order(&self, other: &FileDateSet) -> Ordering {
        record_order(
            self.spec_path(),
            self.spec_dates()@,
            other.spec_path(),
            other.spec_dates()@,
        )
    }

    /// Creates a record from the path of a file and its dates.
    pub fn from(path: String, dates: DateSet) -> (record: FileDateSet)
        ensures
            record.spec_path() == path@,
            record.spec_dates() == dates,
    {
        FileDateSet { path, dates }
    }

    /// Gets the path of the file.
    pub fn path(&self) -> (path: &str)
        ensures
            path@ == self.spec_path(),
    {
        self.path.as_str()
    }

    /// Gets the dates collected from the file.
    pub fn dates(&self) -> (dates: &DateSet)
        ensures
            dates == self.spec_dates(),
    {
        &self.dates
    }

    /// Compares two records by their dates and, where these are equal, by
    /// their paths.
    pub fn cmp(&self, other: &FileDateSet) -> (order: Ordering)
        ensures
            order == self.order(other),
    {
        match self.dates.cmp(&other.dates) {
            Ordering::Less => Ordering::Less,
            Ordering::Greater => Ordering::Greater,
            Ordering::Equal => compare_paths(self.path.as_str(), other.path.as_str()),
        }
    }
}

impl PartialEq for FileDateSet {
    fn eq(&self, other: &FileDateSet) -> (same: bool) {
        self.path == other.path && self.dates == other.dates
    }
}

impl vstd::std_specs::cmp::PartialEqSpecImpl for FileDateSet {
    open spec fn obeys_eq_spec() -> bool {
        true
    }

    open spec fn eq_spec(&self, other: &FileDateSet) -> bool {
        self.spec_path() == other.spec_path() && self.spec_dates()@ == other.spec_dates()@
    }
}

} // verus!
