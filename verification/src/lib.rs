//! Search free text for calendar dates and order the findings.
//!
//! The crate holds the date value type, the recognizer of written dates,
//! the sorted date collections, the records of files with their order, and
//! the bookkeeping of a scan over many files.

pub mod aggregate;
pub mod args;
pub mod collect;
pub mod date;
pub mod extract;
pub mod list;
pub mod notation;
pub mod recognizer;
pub mod record;
pub mod report;
pub mod scan;
pub mod sorted;
pub mod text;

pub use aggregate::FileAggregateDateList;
pub use aggregate::FileAggregateDateListIterator;
pub use args::Args;
pub use date::Date;
pub use date::Month;
pub use date::ParseDateError;
pub use date::ParseMonthError;
pub use list::DateList;
pub use list::DateListIterator;
pub use list::DateSet;
pub use recognizer::Recognizer;
pub use record::CollectDateError;
pub use record::FileDateList;
pub use record::FileDateSet;
pub use report::FileAggregateReport;
pub use report::ReportError;
pub use scan::RoundRobin;
pub use scan::Scan;
