//! The summary of an aggregate: its oldest, newest and median record.

use crate::aggregate::FileAggregateDateList;
use crate::date::Date;
use crate::record::FileDateList;
use vstd::prelude::*;
use vstd::string::StringExecFns;

verus! {

/// The reason for which an aggregate has no report.
#[derive(Copy, Clone, Debug, PartialEq, Eq, Structural)]
pub enum ReportError {
    /// The aggregate holds no record.
    NoData,
    /// The aggregate holds records that no report can be made of.
    InvalidData,
}

impl ReportError {
    /// The sentence that describes the error.
    pub open spec fn spec_message(self) -> Seq<char> {
        match self {
            ReportError::NoData => "No input data"@,
            ReportError::InvalidData => "Invalid input data"@,
        }
    }

    /// The sentence that describes the error.
    pub fn to_string(&self) -> (s: String)
        ensures
            s@ == self.spec_message(),
    {
        String::from_str(
            match self {
                ReportError::NoData => "No input data",
                ReportError::InvalidData => "Invalid input data",
            },
        )
    }
}

/// The dates of a record as lines of a report: each date behind three
/// spaces, on a line of its own.
pub open spec fn dates_text(dates: Seq<Date>) -> Seq<char>
    decreases dates.len(),
{
    if dates.len() == 0 {
        Seq::empty()
    } else {
        dates_text(dates.drop_last()) + "   "@ + dates.last().spec_text() + "\n"@
    }
}

/// A record under a heading: the path behind three spaces, then the dates.
pub open spec fn titled_text(record: &FileDateList) -> Seq<char> {
    "   "@ + record.spec_path() + "\n"@ + dates_text(record.spec_dates()@)
}

/// A record among the raw data: the path, the dates and an empty line.
pub open spec fn raw_text(record: &FileDateList) -> Seq<char> {
    record.spec_path() + "\n"@ + dates_text(record.spec_dates()@) + "\n"@
}

/// The records of the raw data, one after the other.
pub open spec fn records_text(files: Seq<FileDateList>) -> Seq<char>
    decreases files.len(),
{
    if files.len() == 0 {
        Seq::empty()
    } else {
        records_text(files.drop_last()) + raw_text(&files.last())
    }
}

/// Appends the dates of a record as lines of a report.
fn append_dates(out: &mut String, dates: &[Date])
    ensures
        final(out)@ == old(out)@ + dates_text(dates@),
{
    let ghost start = out@;
    let mut i: usize = 0;
    assert(dates@.take(0) =~= Seq::<Date>::empty());
    assert(out@ =~= start + dates_text(dates@.take(0)));
    while i < dates.len()
        invariant
            0 <= i <= dates.len(),
            out@ == start + dates_text(dates@.take(i as int)),
        decreases dates.len() - i,
    {
        let ghost before = out@;
        let ghost seen = dates@.take(i + 1);
        out.append("   ");
        dates[i].append_text(out);
        out.append("\n");
        proof {
            assert(seen.drop_last() =~= dates@.take(i as int));
            assert(seen.last() == dates@[i as int]);
            assert(out@ =~= before + ("   "@ + dates@[i as int].spec_text() + "\n"@));
            assert(out@ =~= start + dates_text(seen));
        }
        i = i + 1;
    }
    assert(dates@.take(i as int) =~= dates@);
}

/// Appends a record under a heading.
fn append_titled(out: &mut String, record: &FileDateList)
    ensures
        final(out)@ == old(out)@ + titled_text(record),
{
    let ghost start = out@;
    out.append("   ");
    out.append(record.path());
    out.append("\n");
    append_dates(out, record.dates().as_slice());
    assert(out@ =~= start + titled_text(record));
}

/// Appends a record of the raw data.
fn append_raw(out: &mut String, record: &FileDateList)
    ensures
        final(out)@ == old(out)@ + raw_text(record),
{
    let ghost start = out@;
    out.append(record.path());
    out.append("\n");
    append_dates(out, record.dates().as_slice());
    out.append("\n");
    assert(out@ =~= start + raw_text(record));
}

/// Appends the records of the raw data.
fn append_records(out: &mut String, files: &[FileDateList])
    ensures
        final(out)@ == old(out)@ + records_text(files@),
{
    let ghost start = out@;
    let mut i: usize = 0;
    assert(files@.take(0) =~= Seq::<FileDateList>::empty());
    assert(out@ =~= start + records_text(files@.take(0)));
    while i < files.len()
        invariant
            0 <= i <= files.len(),
            out@ == start + records_text(files@.take(i as int)),
        decreases files.len() - i,
    {
        let ghost seen = files@.take(i + 1);
        append_raw(out, &files[i]);
        proof {
            assert(seen.drop_last() =~= files@.take(i as int));
            assert(seen.last() == files@[i as int]);
            assert(out@ =~= start + records_text(seen));
        }
        i = i + 1;
    }
    assert(files@.take(i as int) =~= files@);
}

/// The oldest, the newest and the median record of an aggregate, with the
/// aggregate itself.
pub struct FileAggregateReport<'l> {
    raw_data: &'l FileAggregateDateList,
    oldest: &'l FileDateList,
    newest: &'l FileDateList,
    median: &'l FileDateList,
}

impl<'l> FileAggregateReport<'l> {
    /// The report of an aggregate: its first record as the oldest, its
    /// last as the newest and the one at half its length as the median;
    /// `NoData` for an aggregate without records.
    pub open spec fn spec_from(file_data: &'l FileAggregateDateList) -> Result<
        FileAggregateReport<'l>,
        ReportError,
    > {
        if file_data@.len() == 0 {
            Err(ReportError::NoData)
        } else {
            Ok(
                FileAggregateReport::spec_of(
                    file_data,
                    &file_data@.first(),
                    &file_data@.last(),
                    &file_data@[(file_data@.len() / 2) as int],
                ),
            )
        }
    }

    /// The report with the given parts.
    pub closed spec fn spec_of(
        raw_data: &'l FileAggregateDateList,
        oldest: &'l FileDateList,
        newest: &'l FileDateList,
        median: &'l FileDateList,
    ) -> FileAggregateReport<'l> {
        FileAggregateReport { raw_data, oldest, newest, median }
    }

    /// The aggregate that the report is about, as contracts see it.
    pub closed spec fn spec_raw_data(&self) -> &'l FileAggregateDateList {
        self.raw_data
    }

    /// The oldest record, as contracts see it.
    pub closed spec fn spec_oldest(&self) -> &'l FileDateList {
        self.oldest
    }

    /// The newest record, as contracts see it.
    pub closed spec fn spec_newest(&self) -> &'l FileDateList {
        self.newest
    }

    /// The median record, as contracts see it.
    pub closed spec fn spec_median(&self) -> &'l FileDateList {
        self.median
    }

    /// Creates a report from an aggregate. If the aggregate holds no
    /// record, an error is returned.
    pub fn from(file_data: &'l FileAggregateDateList) -> (r: Result<
        FileAggregateReport<'l>,
        ReportError,
    >)
        ensures
            r == FileAggregateReport::spec_from(file_data),
            r matches Ok(report) ==> {
                &&& report.spec_raw_data() == file_data
                &&& report.spec_oldest() == file_data@.first()
                &&& report.spec_newest() == file_data@.last()
                &&& report.spec_median() == file_data@[(file_data@.len() / 2) as int]
            },
    {
        let len = file_data.len();
        let oldest = match file_data.get(0) {
            Some(record) => record,
            None => return Err(ReportError::NoData),
        };
        let newest = match file_data.get(len - 1) {
            Some(record) => record,
            None => return Err(ReportError::NoData),
        };
        let median = match file_data.get(len / 2) {
            Some(record) => record,
            None => return Err(ReportError::NoData),
        };
        Ok(FileAggregateReport { raw_data: file_data, oldest, newest, median })
    }

    /// The text of the report: a summary with the oldest, the newest and
    /// the median record, then every record of the aggregate.
    pub open spec fn spec_text(&self) -> Seq<char> {
        "--------- Data Summary ----------\n\n"@ + "Oldest file:\n"@ + titled_text(
            self.spec_oldest(),
        ) + "\nNewest file:\n"@ + titled_text(self.spec_newest()) + "\nMedian file:\n"@
            + titled_text(self.spec_median()) + "\n----------- Raw Data ------------\n\n"@
            + records_text(self.spec_raw_data()@)
    }

    /// Writes the report.
    pub fn to_string(&self) -> (s: String)
        ensures
            s@ == self.spec_text(),
    {
        let mut s = String::from_str("--------- Data Summary ----------\n\n");
        s.append("Oldest file:\n");
        append_titled(&mut s, self.oldest);
        s.append("\nNewest file:\n");
        append_titled(&mut s, self.newest);
        s.append("\nMedian file:\n");
        append_titled(&mut s, self.median);
        s.append("\n----------- Raw Data ------------\n\n");
        append_records(&mut s, self.raw_data.as_slice());
        assert(s@ =~= self.spec_text());
        s
    }

    /// The aggregate that the report is about.
    pub fn raw_data(&self) -> (raw_data: &'l FileAggregateDateList)
        ensures
            raw_data == self.spec_raw_data(),
    {
        self.raw_data
    }

    /// The record that comes first in the order of records.
    pub fn oldest(&self) -> (oldest: &'l FileDateList)
        ensures
            oldest == self.spec_oldest(),
    {
        self.oldest
    }

    /// The record that comes last in the order of records.
    pub fn newest(&self) -> (newest: &'l FileDateList)
        ensures
            newest == self.spec_newest(),
    {
        self.newest
    }

    /// The record in the middle of the order of records.
    pub fn median(&self) -> (median: &'l FileDateList)
        ensures
            median == self.spec_median(),
    {
        self.median
    }
}

} // verus!
