//! Everything that collecting dates from files is made of, under one name.

pub use crate::aggregate::FileAggregateDateList;
pub use crate::aggregate::FileAggregateDateListIterator;
pub use crate::list::DateList;
pub use crate::list::DateListIterator;
pub use crate::list::DateSet;
pub use crate::record::CollectDateError;
pub use crate::record::FileDateList;
pub use crate::record::FileDateSet;
pub use crate::scan::RoundRobin;
pub use crate::scan::Scan;
