use vstd::prelude::*;

use crate::entry::{entry_view, has_cell, put_cell, EntryView, TableEntry};
use crate::error::{ConvertError, Expected};
use crate::text::{
    dataset_tag, decode_utf8, is_dataset_tag, same_bytes, unescape_text, unescaped, utf8_decoded,
};

verus! {

/// One event of the XML tokenizer. Names and text are the raw bytes of the
/// input; text is still escaped.
pub enum XmlEvent {
    Start { name: Vec<u8> },
    End { name: Vec<u8> },
    Empty { name: Vec<u8> },
    Text { content: Vec<u8> },
    Comment,
    Decl,
    /// Any other markup: CDATA, processing instructions, doctypes.
    Other,
    /// The tokenizer failed.
    Invalid,
    Eof,
}

/// Where the reader stands in the grammar.
pub enum ReaderState {
    /// Before the `<dataset>` start tag.
    AwaitingRoot,
    /// Inside `<dataset>`, between records.
    InDataset,
    /// Inside a record, between cells. `tag` is the record's raw tag name.
    InEntry { entry: TableEntry, tag: Vec<u8> },
    /// Just after a cell's start tag, read at `start`.
    InCell { entry: TableEntry, tag: Vec<u8>, cell: String, cell_tag: Vec<u8>, start: u64 },
    /// After a cell's text, waiting for the cell's end tag.
    AfterText { entry: TableEntry, tag: Vec<u8>, cell: String, cell_tag: Vec<u8>, start: u64, value: String },
    /// After `</dataset>`.
    Finished,
}

/// What a successfully taken event tells the caller.
pub enum Progress {
    Continue,
    /// A record set a cell it already had; the later value was kept.
    DuplicateCell { table: String, cell: String, position: u64 },
    /// The dataset is closed: no further event is wanted.
    Finished,
}

/// `ReaderState` as plain values.
pub enum StateView {
    AwaitingRoot,
    InDataset,
    InEntry { entry: EntryView, tag: Seq<u8> },
    InCell { entry: EntryView, tag: Seq<u8>, cell: Seq<char>, cell_tag: Seq<u8>, start: u64 },
    AfterText { entry: EntryView, tag: Seq<u8>, cell: Seq<char>, cell_tag: Seq<u8>, start: u64, value: Seq<char> },
    Finished,
}

/// `Progress` as plain values.
pub enum Signal {
    Continue,
    DuplicateCell { table: Seq<char>, cell: Seq<char>, position: u64 },
    Finished,
}

pub open spec fn state_view(s: ReaderState) -> StateView {
    match s {
        ReaderState::AwaitingRoot => StateView::AwaitingRoot,
        ReaderState::InDataset => StateView::InDataset,
        ReaderState::InEntry { entry, tag } => StateView::InEntry { entry: entry_view(entry), tag: tag@ },
        ReaderState::InCell { entry, tag, cell, cell_tag, start } => StateView::InCell {
            entry: entry_view(entry),
            tag: tag@,
            cell: cell@,
            cell_tag: cell_tag@,
            start,
        },
        ReaderState::AfterText { entry, tag, cell, cell_tag, start, value } => StateView::AfterText {
            entry: entry_view(entry),
            tag: tag@,
            cell: cell@,
            cell_tag: cell_tag@,
            start,
            value: value@,
        },
        ReaderState::Finished => StateView::Finished,
    }
}

pub open spec fn signal_of(p: Progress) -> Signal {
    match p {
        Progress::Continue => Signal::Continue,
        Progress::DuplicateCell { table, cell, position } => Signal::DuplicateCell {
            table: table@,
            cell: cell@,
            position,
        },
        Progress::Finished => Signal::Finished,
    }
}

/// The signal for setting cell `cell`, read at `position`, in `entry`.
pub open spec fn cell_signal(entry: EntryView, cell: Seq<char>, position: u64) -> Signal {
    if has_cell(entry.1, cell) {
        Signal::DuplicateCell { table: entry.0, cell, position }
    } else {
        Signal::Continue
    }
}

/// `entry` with cell `cell` set to `value`.
pub open spec fn with_cell(entry: EntryView, cell: Seq<char>, value: Seq<char>) -> EntryView {
    (entry.0, put_cell(entry.1, cell, value))
}

pub open spec fn unexpected(position: u64, expected: Expected) -> ConvertError {
    ConvertError::UnexpectedToken { position, expected }
}

/// The grammar: what one event, read at `pos`, does to the reader's state and
/// to the records completed so far.
pub open spec fn next(
    s: StateView,
    done: Seq<EntryView>,
    ev: XmlEvent,
    pos: u64,
) -> Result<(StateView, Seq<EntryView>, Signal), ConvertError> {
    match s {
        StateView::AwaitingRoot => match ev {
            XmlEvent::Invalid => Err(ConvertError::Tokenizer { position: pos }),
            XmlEvent::Eof => Err(ConvertError::EmptyInput),
            XmlEvent::Start { name } => if name@ == dataset_tag() {
                Ok((StateView::InDataset, done, Signal::Continue))
            } else {
                Err(ConvertError::WrongRoot { position: pos })
            },
            XmlEvent::Decl | XmlEvent::Text { .. } | XmlEvent::Comment => Ok((s, done, Signal::Continue)),
            _ => Err(unexpected(pos, Expected::DatasetStart)),
        },
        StateView::InDataset => match ev {
            XmlEvent::End { name } => if name@ == dataset_tag() {
                Ok((StateView::Finished, done, Signal::Finished))
            } else {
                Err(unexpected(pos, Expected::TableOrDatasetEnd))
            },
            XmlEvent::Start { name } => match utf8_decoded(name@) {
                Some(n) => Ok((StateView::InEntry { entry: (n, Seq::empty()), tag: name@ }, done, Signal::Continue)),
                None => Err(ConvertError::UndecodableName { position: pos }),
            },
            XmlEvent::Text { .. } | XmlEvent::Comment => Ok((s, done, Signal::Continue)),
            _ => Err(unexpected(pos, Expected::TableOrDatasetEnd)),
        },
        StateView::InEntry { entry, tag } => match ev {
            XmlEvent::End { name } => if name@ == tag {
                Ok((StateView::InDataset, done.push(entry), Signal::Continue))
            } else {
                Err(unexpected(pos, Expected::CellOrTableEnd))
            },
            XmlEvent::Empty { name } => match utf8_decoded(name@) {
                Some(c) => Ok((
                    StateView::InEntry { entry: with_cell(entry, c, Seq::empty()), tag },
                    done,
                    cell_signal(entry, c, pos),
                )),
                None => Err(ConvertError::UndecodableName { position: pos }),
            },
            XmlEvent::Start { name } => match utf8_decoded(name@) {
                Some(c) => Ok((
                    StateView::InCell { entry, tag, cell: c, cell_tag: name@, start: pos },
                    done,
                    Signal::Continue,
                )),
                None => Err(ConvertError::UndecodableName { position: pos }),
            },
            XmlEvent::Text { .. } | XmlEvent::Comment => Ok((s, done, Signal::Continue)),
            _ => Err(unexpected(pos, Expected::CellOrTableEnd)),
        },
        StateView::InCell { entry, tag, cell, cell_tag, start } => match ev {
            XmlEvent::Text { content } => match utf8_decoded(content@) {
                Some(t) => match unescaped(t) {
                    Some(v) => Ok((
                        StateView::AfterText { entry, tag, cell, cell_tag, start, value: v },
                        done,
                        Signal::Continue,
                    )),
                    None => Err(ConvertError::UndecodableText { position: pos }),
                },
                None => Err(ConvertError::UndecodableText { position: pos }),
            },
            XmlEvent::End { name } => if name@ == cell_tag {
                Ok((
                    StateView::InEntry { entry: with_cell(entry, cell, Seq::empty()), tag },
                    done,
                    cell_signal(entry, cell, start),
                ))
            } else {
                Err(unexpected(pos, Expected::CellEnd))
            },
            _ => Err(ConvertError::CellContents { position: start }),
        },
        StateView::AfterText { entry, tag, cell, cell_tag, start, value } => match ev {
            XmlEvent::End { name } => if name@ == cell_tag {
                Ok((
                    StateView::InEntry { entry: with_cell(entry, cell, value), tag },
                    done,
                    cell_signal(entry, cell, start),
                ))
            } else {
                Err(unexpected(pos, Expected::CellEnd))
            },
            _ => Err(unexpected(pos, Expected::CellEnd)),
        },
        StateView::Finished => Ok((s, done, Signal::Finished)),
    }
}

/// Reads a `<dataset>` document event by event into its records.
pub struct DatasetReader {
    pub state: ReaderState,
    pub entries: Vec<TableEntry>,
}

pub open spec fn entries_view(es: Seq<TableEntry>) -> Seq<EntryView> {
    es.map_values(|e: TableEntry| entry_view(e))
}

impl DatasetReader {
    /// The records in the state and among the completed ones are well formed.
    pub open spec fn wf(&self) -> bool {
        &&& forall|k: int| 0 <= k < self.entries@.len() ==> (#[trigger] self.entries@[k]).wf()
        &&& match self.state {
            ReaderState::InEntry { entry, .. } => entry.wf(),
            ReaderState::InCell { entry, .. } => entry.wf(),
            ReaderState::AfterText { entry, .. } => entry.wf(),
            _ => true,
        }
    }

    pub open spec fn view_state(&self) -> StateView {
        state_view(self.state)
    }

    pub open spec fn view_done(&self) -> Seq<EntryView> {
        entries_view(self.entries@)
    }

    pub fn new() -> (r: DatasetReader)
        ensures
            r.view_state() == StateView::AwaitingRoot,
            r.view_done() == Seq::<EntryView>::empty(),
            r.wf(),
    {
        let r = DatasetReader { state: ReaderState::AwaitingRoot, entries: Vec::new() };
        assert(r.view_done() =~= Seq::<EntryView>::empty());
        r
    }

    /// Whether the dataset has been closed.
    pub fn is_finished(&self) -> (r: bool)
        ensures
            r == (self.view_state() is Finished),
    {
        match self.state {
            ReaderState::Finished => true,
            _ => false,
        }
    }

    /// Takes one event, read at byte offset `position`, as `next` says.
    /// After an error the reader is finished.
    pub fn feed(&mut self, event: XmlEvent, position: u64) -> (r: Result<Progress, ConvertError>)
        requires
            old(self).wf(),
        ensures
            final(self).wf(),
            match r {
                Ok(p) => next(old(self).view_state(), old(self).view_done(), event, position) == Ok::<
                    (StateView, Seq<EntryView>, Signal),
                    ConvertError,
                >((final(self).view_state(), final(self).view_done(), signal_of(p))),
                Err(e) => next(old(self).view_state(), old(self).view_done(), event, position) == Err::<
                    (StateView, Seq<EntryView>, Signal),
                    ConvertError,
                >(e),
            },
    {
        let mut state = ReaderState::Finished;
        std::mem::swap(&mut state, &mut self.state);
        match state {
            ReaderState::AwaitingRoot => match event {
                XmlEvent::Invalid => Err(ConvertError::Tokenizer { position }),
                XmlEvent::Eof => Err(ConvertError::EmptyInput),
                XmlEvent::Start { name } => {
                    if is_dataset_tag(&name) {
                        self.state = ReaderState::InDataset;
                        Ok(Progress::Continue)
                    } else {
                        Err(ConvertError::WrongRoot { position })
                    }
                },
                XmlEvent::Decl | XmlEvent::Text { .. } | XmlEvent::Comment => {
                    self.state = ReaderState::AwaitingRoot;
                    Ok(Progress::Continue)
                },
                _ => Err(ConvertError::UnexpectedToken { position, expected: Expected::DatasetStart }),
            },
            ReaderState::InDataset => match event {
                XmlEvent::End { name } => {
                    if is_dataset_tag(&name) {
                        Ok(Progress::Finished)
                    } else {
                        Err(ConvertError::UnexpectedToken { position, expected: Expected::TableOrDatasetEnd })
                    }
                },
                XmlEvent::Start { name } => match decode_utf8(&name) {
                    Some(n) => {
                        let entry = TableEntry::new(n);
                        assert(entry_view(entry).1 =~= Seq::<(Seq<char>, Seq<char>)>::empty());
                        self.state = ReaderState::InEntry { entry, tag: name };
                        Ok(Progress::Continue)
                    },
                    None => Err(ConvertError::UndecodableName { position }),
                },
                XmlEvent::Text { .. } | XmlEvent::Comment => {
                    self.state = ReaderState::InDataset;
                    Ok(Progress::Continue)
                },
                _ => Err(ConvertError::UnexpectedToken { position, expected: Expected::TableOrDatasetEnd }),
            },
            ReaderState::InEntry { mut entry, tag } => match event {
                XmlEvent::End { name } => {
                    if same_bytes(&name, &tag) {
                        let ghost before = self.entries@;
                        self.entries.push(entry);
                        assert(entries_view(self.entries@) =~= entries_view(before).push(entry_view(entry)));
                        self.state = ReaderState::InDataset;
                        Ok(Progress::Continue)
                    } else {
                        Err(ConvertError::UnexpectedToken { position, expected: Expected::CellOrTableEnd })
                    }
                },
                XmlEvent::Empty { name } => match decode_utf8(&name) {
                    Some(c) => {
                        let p = set_cell(&mut entry, c, String::new(), position);
                        self.state = ReaderState::InEntry { entry, tag };
                        Ok(p)
                    },
                    None => Err(ConvertError::UndecodableName { position }),
                },
                XmlEvent::Start { name } => match decode_utf8(&name) {
                    Some(c) => {
                        self.state = ReaderState::InCell { entry, tag, cell: c, cell_tag: name, start: position };
                        Ok(Progress::Continue)
                    },
                    None => Err(ConvertError::UndecodableName { position }),
                },
                XmlEvent::Text { .. } | XmlEvent::Comment => {
                    self.state = ReaderState::InEntry { entry, tag };
                    Ok(Progress::Continue)
                },
                _ => Err(ConvertError::UnexpectedToken { position, expected: Expected::CellOrTableEnd }),
            },
            ReaderState::InCell { mut entry, tag, cell, cell_tag, start } => match event {
                XmlEvent::Text { content } => match decode_utf8(&content) {
                    Some(t) => match unescape_text(&t) {
                        Some(value) => {
                            self.state = ReaderState::AfterText { entry, tag, cell, cell_tag, start, value };
                            Ok(Progress::Continue)
                        },
                        None => Err(ConvertError::UndecodableText { position }),
                    },
                    None => Err(ConvertError::UndecodableText { position }),
                },
                XmlEvent::End { name } => {
                    if same_bytes(&name, &cell_tag) {
                        let p = set_cell(&mut entry, cell, String::new(), start);
                        self.state = ReaderState::InEntry { entry, tag };
                        Ok(p)
                    } else {
                        Err(ConvertError::UnexpectedToken { position, expected: Expected::CellEnd })
                    }
                },
                _ => Err(ConvertError::CellContents { position: start }),
            },
            ReaderState::AfterText { mut entry, tag, cell, cell_tag, start, value } => match event {
                XmlEvent::End { name } => {
                    if same_bytes(&name, &cell_tag) {
                        let p = set_cell(&mut entry, cell, value, start);
                        self.state = ReaderState::InEntry { entry, tag };
                        Ok(p)
                    } else {
                        Err(ConvertError::UnexpectedToken { position, expected: Expected::CellEnd })
                    }
                },
                _ => Err(ConvertError::UnexpectedToken { position, expected: Expected::CellEnd }),
            },
            ReaderState::Finished => Ok(Progress::Finished),
        }
    }
}

/// Sets a cell of the record and reports whether it was already there.
fn set_cell(entry: &mut TableEntry, cell: String, value: String, position: u64) -> (p: Progress)
    requires
        old(entry).wf(),
    ensures
        final(entry).wf(),
        entry_view(*final(entry)) == with_cell(entry_view(*old(entry)), cell@, value@),
        signal_of(p) == cell_signal(entry_view(*old(entry)), cell@, position),
{
    let table = entry.name.clone();
    let name = cell.clone();
    if entry.insert_cell(cell, value) {
        Progress::DuplicateCell { table, cell: name, position }
    } else {
        Progress::Continue
    }
}

} // verus!
