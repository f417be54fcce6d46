use vstd::prelude::*;

verus! {

/// What the reader was waiting for when an event it cannot take came.
#[derive(PartialEq, Eq, Structural, Clone, Copy, Debug)]
pub enum Expected {
    /// The `<dataset>` start tag.
    DatasetStart,
    /// A table record or the `</dataset>` end tag.
    TableOrDatasetEnd,
    /// A cell or the end tag of the open record.
    CellOrTableEnd,
    /// The end tag of the open cell.
    CellEnd,
}

/// The fatal failures of a conversion. Positions are byte offsets in the input.
#[derive(Debug)]
pub enum ConvertError {
    /// The tokenizer could not read the input.
    Tokenizer { position: u64 },
    /// An event that the grammar does not allow where it stands.
    UnexpectedToken { position: u64, expected: Expected },
    /// The first element of the document is not `<dataset>`.
    WrongRoot { position: u64 },
    /// The input ended before a `<dataset>` element began.
    EmptyInput,
    /// A table or cell name that is not valid UTF-8.
    UndecodableName { position: u64 },
    /// Cell text that is not valid UTF-8 or holds an unknown escape.
    UndecodableText { position: u64 },
    /// A cell start tag followed by neither text nor its end tag.
    CellContents { position: u64 },
    /// A record whose table has no `uid` column yet; `record` is its index.
    MissingKeyColumn { table: String, record: usize },
}

} // verus!
