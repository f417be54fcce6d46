//! Flattens a `<dataset>` XML document of table records into CSV rows.
//!
//! The reader takes tokenizer events one at a time and turns them into
//! records; the aggregator groups the records by table name and reconciles
//! their columns, with the `uid` key column first; the emitter lays the tables
//! out as rows of one uniform width.

pub mod convert;
pub mod emit;
pub mod entry;
pub mod error;
pub mod laws;
pub mod reader;
pub mod table;
pub mod text;

pub use convert::{convert, Conversion};
pub use entry::{Cell, TableEntry};
pub use error::{ConvertError, Expected};
pub use reader::{DatasetReader, Progress, ReaderState, XmlEvent};
pub use table::{group_tables, NamedTable, TableDataSet};
