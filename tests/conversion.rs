use quick_xml::events::Event;
use quick_xml::Reader;
use xml2csv::{
    convert, group_tables, Cell, Conversion, ConvertError, DatasetReader, Expected, Progress, TableDataSet,
    TableEntry, XmlEvent,
};

fn events_of(xml: &str) -> Vec<(XmlEvent, u64)> {
    let mut reader = Reader::from_str(xml);
    let mut out = Vec::new();
    loop {
        let event = match reader.read_event() {
            Err(_) => XmlEvent::Invalid,
            Ok(Event::Start(e)) => XmlEvent::Start { name: e.name().as_ref().to_vec() },
            Ok(Event::End(e)) => XmlEvent::End { name: e.name().as_ref().to_vec() },
            Ok(Event::Empty(e)) => XmlEvent::Empty { name: e.name().as_ref().to_vec() },
            Ok(Event::Text(t)) => XmlEvent::Text { content: t.into_inner().to_vec() },
            Ok(Event::Comment(_)) => XmlEvent::Comment,
            Ok(Event::Decl(_)) => XmlEvent::Decl,
            Ok(Event::Eof) => XmlEvent::Eof,
            Ok(_) => XmlEvent::Other,
        };
        let stop = matches!(event, XmlEvent::Eof | XmlEvent::Invalid);
        out.push((event, reader.buffer_position() as u64));
        if stop {
            return out;
        }
    }
}

fn read_events(events: Vec<(XmlEvent, u64)>) -> Result<(Vec<TableEntry>, Vec<Progress>), ConvertError> {
    let mut reader = DatasetReader::new();
    let mut signals = Vec::new();
    for (event, position) in events {
        let progress = reader.feed(event, position)?;
        if matches!(progress, Progress::Finished) {
            return Ok((reader.entries, signals));
        }
        signals.push(progress);
    }
    panic!("events ended before the dataset closed");
}

fn read(xml: &str) -> Result<Vec<TableEntry>, ConvertError> {
    read_events(events_of(xml)).map(|(entries, _)| entries)
}

fn run(xml: &str) -> Result<Conversion, ConvertError> {
    let entries = read(xml)?;
    convert(&entries)
}

fn rows(xml: &str) -> Vec<Vec<String>> {
    match run(xml) {
        Ok(Conversion::Rows(rows)) => rows,
        _ => panic!("expected rows"),
    }
}

fn row(fields: &[&str]) -> Vec<String> {
    fields.iter().map(|f| f.to_string()).collect()
}

fn entry(name: &str, cells: &[(&str, &str)]) -> TableEntry {
    TableEntry {
        name: name.to_string(),
        cells: cells.iter().map(|(n, v)| Cell { name: n.to_string(), value: v.to_string() }).collect(),
    }
}

fn column_names(t: &TableDataSet) -> Vec<&str> {
    t.column_names.iter().map(|s| s.as_str()).collect()
}

#[test]
fn two_records_of_one_table() {
    let xml = "<dataset><tt_content><uid>1</uid><title>Hi</title></tt_content>\
               <tt_content><uid>2</uid><title>Bye</title><hidden>1</hidden></tt_content></dataset>";
    assert_eq!(
        rows(xml),
        vec![
            row(&["tt_content", "", "", ""]),
            row(&["", "uid", "title", "hidden"]),
            row(&["", "1", "Hi", ""]),
            row(&["", "2", "Bye", "1"]),
        ]
    );
}

#[test]
fn empty_dataset_writes_nothing() {
    assert!(matches!(run("<dataset></dataset>"), Ok(Conversion::EmptyDataset)));
    assert!(matches!(run("<?xml version=\"1.0\"?>\n<!-- c --><dataset>\n</dataset>"), Ok(Conversion::EmptyDataset)));
}

#[test]
fn record_without_key_column_fails() {
    match run("<dataset><pages><title>x</title></pages></dataset>") {
        Err(ConvertError::MissingKeyColumn { table, record }) => {
            assert_eq!(table, "pages");
            assert_eq!(record, 0);
        }
        _ => panic!("expected a missing key column"),
    }
}

#[test]
fn key_column_is_swapped_to_the_front() {
    let r = rows("<dataset><t><a>1</a><b>2</b><uid>3</uid></t></dataset>");
    assert_eq!(r[1], row(&["", "uid", "b", "a"]));
    assert_eq!(r[2], row(&["", "3", "2", "1"]));
}

#[test]
fn later_record_without_key_joins_table() {
    let r = rows("<dataset><t><uid>1</uid></t><t><x>5</x></t></dataset>");
    assert_eq!(
        r,
        vec![row(&["t", "", ""]), row(&["", "uid", "x"]), row(&["", "1", ""]), row(&["", "", "5"])]
    );
}

#[test]
fn one_marker_and_header_per_table() {
    let xml = "<dataset><a><uid>1</uid></a><b><uid>2</uid><z>9</z></b><a><uid>3</uid></a></dataset>";
    let r = rows(xml);
    assert_eq!(r.len(), 2 * 2 + 3);
    assert_eq!(
        r,
        vec![
            row(&["a", "", ""]),
            row(&["", "uid", ""]),
            row(&["", "1", ""]),
            row(&["", "3", ""]),
            row(&["b", "", ""]),
            row(&["", "uid", "z"]),
            row(&["", "2", "9"]),
        ]
    );
}

#[test]
fn conversion_is_repeatable() {
    let xml = "<dataset><a><uid>1</uid><q>x</q></a><b><uid>2</uid></b><a><uid>3</uid><r/></a></dataset>";
    assert_eq!(rows(xml), rows(xml));
}

#[test]
fn missing_cells_are_padded() {
    let xml = "<dataset><t><uid>1</uid><a>x</a><b>y</b></t><t><uid>2</uid><b>z</b></t></dataset>";
    let r = rows(xml);
    assert_eq!(r[3], row(&["", "2", "", "z"]));
    assert_eq!(r[3].len(), r[1].len());
}

#[test]
fn rows_share_the_widest_width() {
    let xml = "<dataset><a><uid>1</uid></a><b><uid>2</uid><x>3</x><y>4</y></b></dataset>";
    for r in rows(xml) {
        assert_eq!(r.len(), 4);
    }
}

#[test]
fn empty_tag_and_empty_element_give_empty_values() {
    let r = rows("<dataset><t><uid>1</uid><a/><b></b></t></dataset>");
    assert_eq!(r[1], row(&["", "uid", "a", "b"]));
    assert_eq!(r[2], row(&["", "1", "", ""]));
}

#[test]
fn cell_text_is_unescaped() {
    let r = rows("<dataset><t><uid>1</uid><v>a &amp; b &lt;&#65;&gt;</v></t></dataset>");
    assert_eq!(r[2], row(&["", "1", "a & b <A>"]));
}

#[test]
fn names_are_decoded_as_utf8() {
    let r = rows("<dataset><t\u{e5}ble><uid>1</uid><n\u{e4}me>v</n\u{e4}me></t\u{e5}ble></dataset>");
    assert_eq!(r[0][0], "t\u{e5}ble");
    assert_eq!(r[1], row(&["", "uid", "n\u{e4}me"]));
}

#[test]
fn duplicate_cell_keeps_last_value_and_is_reported() {
    let (entries, signals) =
        read_events(events_of("<dataset><t><uid>1</uid><a>x</a><a>y</a></t></dataset>")).unwrap();
    assert_eq!(entries.len(), 1);
    assert_eq!(entries[0].cells.len(), 2);
    assert_eq!(entries[0].cells[1].value, "y");
    let reported: Vec<(String, String)> = signals
        .into_iter()
        .filter_map(|p| match p {
            Progress::DuplicateCell { table, cell, .. } => Some((table, cell)),
            _ => None,
        })
        .collect();
    assert_eq!(reported, vec![("t".to_string(), "a".to_string())]);
}

#[test]
fn whitespace_and_comments_between_elements_are_ignored() {
    let xml = "<dataset>\n  <t>\n    <!-- note -->\n    <uid>1</uid>\n  </t>\n</dataset>\n";
    let entries = read(xml).unwrap();
    assert_eq!(entries.len(), 1);
    assert_eq!(entries[0].cells.len(), 1);
    assert_eq!(entries[0].cells[0].name, "uid");
    assert_eq!(entries[0].cells[0].value, "1");
}

#[test]
fn empty_input_fails() {
    assert!(matches!(read(""), Err(ConvertError::EmptyInput)));
    assert!(matches!(read("<?xml version=\"1.0\"?>"), Err(ConvertError::EmptyInput)));
}

#[test]
fn wrong_root_fails() {
    assert!(matches!(read("<other></other>"), Err(ConvertError::WrongRoot { .. })));
}

#[test]
fn empty_root_tag_is_unexpected() {
    assert!(matches!(
        read("<dataset/>"),
        Err(ConvertError::UnexpectedToken { expected: Expected::DatasetStart, .. })
    ));
}

#[test]
fn empty_record_tag_is_unexpected() {
    assert!(matches!(
        read("<dataset><t/></dataset>"),
        Err(ConvertError::UnexpectedToken { expected: Expected::TableOrDatasetEnd, .. })
    ));
}

#[test]
fn wrong_dataset_end_is_unexpected() {
    let events = vec![
        (XmlEvent::Start { name: b"dataset".to_vec() }, 9),
        (XmlEvent::End { name: b"other".to_vec() }, 17),
    ];
    match read_events(events) {
        Err(ConvertError::UnexpectedToken { position, expected }) => {
            assert_eq!(position, 17);
            assert_eq!(expected, Expected::TableOrDatasetEnd);
        }
        _ => panic!("expected an unexpected token"),
    }
}

#[test]
fn wrong_record_end_is_unexpected() {
    let events = vec![
        (XmlEvent::Start { name: b"dataset".to_vec() }, 9),
        (XmlEvent::Start { name: b"t".to_vec() }, 12),
        (XmlEvent::End { name: b"u".to_vec() }, 16),
    ];
    assert!(matches!(
        read_events(events),
        Err(ConvertError::UnexpectedToken { position: 16, expected: Expected::CellOrTableEnd })
    ));
}

#[test]
fn input_ending_inside_record_is_unexpected() {
    let events = vec![
        (XmlEvent::Start { name: b"dataset".to_vec() }, 9),
        (XmlEvent::Start { name: b"t".to_vec() }, 12),
        (XmlEvent::Eof, 12),
    ];
    assert!(matches!(
        read_events(events),
        Err(ConvertError::UnexpectedToken { position: 12, expected: Expected::CellOrTableEnd })
    ));
}

#[test]
fn wrong_cell_end_is_unexpected() {
    let events = vec![
        (XmlEvent::Start { name: b"dataset".to_vec() }, 9),
        (XmlEvent::Start { name: b"t".to_vec() }, 12),
        (XmlEvent::Start { name: b"c".to_vec() }, 15),
        (XmlEvent::Text { content: b"v".to_vec() }, 16),
        (XmlEvent::End { name: b"d".to_vec() }, 20),
    ];
    assert!(matches!(
        read_events(events),
        Err(ConvertError::UnexpectedToken { position: 20, expected: Expected::CellEnd })
    ));
}

#[test]
fn nested_cell_is_rejected() {
    match read("<dataset><t><c><d>1</d></c></t></dataset>") {
        Err(ConvertError::CellContents { position }) => assert_eq!(position, 15),
        _ => panic!("expected a cell contents error"),
    }
}

#[test]
fn unknown_entity_in_cell_is_rejected() {
    assert!(matches!(
        read("<dataset><t><c>&nope;</c></t></dataset>"),
        Err(ConvertError::UndecodableText { .. })
    ));
}

#[test]
fn undecodable_names_are_rejected() {
    let events = vec![
        (XmlEvent::Start { name: b"dataset".to_vec() }, 9),
        (XmlEvent::Start { name: vec![0xff, 0xfe] }, 13),
    ];
    assert!(matches!(read_events(events), Err(ConvertError::UndecodableName { position: 13 })));
    let events = vec![
        (XmlEvent::Start { name: b"dataset".to_vec() }, 9),
        (XmlEvent::Start { name: b"t".to_vec() }, 12),
        (XmlEvent::Empty { name: vec![0xc3] }, 16),
    ];
    assert!(matches!(read_events(events), Err(ConvertError::UndecodableName { position: 16 })));
}

#[test]
fn undecodable_text_is_rejected() {
    let events = vec![
        (XmlEvent::Start { name: b"dataset".to_vec() }, 9),
        (XmlEvent::Start { name: b"t".to_vec() }, 12),
        (XmlEvent::Start { name: b"c".to_vec() }, 15),
        (XmlEvent::Text { content: vec![0x80] }, 16),
    ];
    assert!(matches!(read_events(events), Err(ConvertError::UndecodableText { position: 16 })));
}

#[test]
fn tokenizer_failure_before_root_is_reported() {
    assert!(matches!(
        read_events(vec![(XmlEvent::Invalid, 3)]),
        Err(ConvertError::Tokenizer { position: 3 })
    ));
}

#[test]
fn mismatched_tags_from_tokenizer_fail() {
    assert!(read("<dataset><t><uid>1</x></t></dataset>").is_err());
}

#[test]
fn new_table_data_set_is_empty() {
    let t = TableDataSet::new();
    assert!(t.column_names.is_empty());
    assert!(t.entries.is_empty());
}

#[test]
fn add_entry_unions_columns_and_moves_key_first() {
    let mut t = TableDataSet::new();
    assert!(t.add_entry(&entry("t", &[("a", "1"), ("uid", "2")]), 0).is_ok());
    assert_eq!(column_names(&t), vec!["uid", "a"]);
    assert!(t.add_entry(&entry("t", &[("b", "1"), ("a", "2"), ("c", "3")]), 4).is_ok());
    assert_eq!(column_names(&t), vec!["uid", "a", "b", "c"]);
    assert_eq!(t.entries, vec![0, 4]);
}

#[test]
fn add_entry_keeps_earlier_columns() {
    let mut t = TableDataSet::new();
    let records = [
        entry("t", &[("uid", "1"), ("x", "1")]),
        entry("t", &[("y", "1")]),
        entry("t", &[("x", "2"), ("z", "1"), ("uid", "3")]),
    ];
    let mut seen: Vec<String> = Vec::new();
    for (i, r) in records.iter().enumerate() {
        t.add_entry(r, i).unwrap();
        for c in &seen {
            assert!(t.column_names.contains(c));
        }
        seen = t.column_names.clone();
        assert_eq!(t.column_names[0], "uid");
    }
    assert_eq!(column_names(&t), vec!["uid", "x", "y", "z"]);
}

#[test]
fn add_entry_without_key_fails() {
    let mut t = TableDataSet::new();
    match t.add_entry(&entry("p", &[("a", "1")]), 7) {
        Err(ConvertError::MissingKeyColumn { table, record }) => {
            assert_eq!(table, "p");
            assert_eq!(record, 7);
        }
        _ => panic!("expected a missing key column"),
    }
    assert!(t.entries.is_empty());
}

#[test]
fn group_tables_groups_by_name_in_first_seen_order() {
    let records = vec![
        entry("b", &[("uid", "1")]),
        entry("a", &[("uid", "2")]),
        entry("b", &[("uid", "3"), ("k", "v")]),
    ];
    let tables = group_tables(&records).ok().unwrap();
    assert_eq!(tables.len(), 2);
    assert_eq!(tables[0].name, "b");
    assert_eq!(tables[0].data.entries, vec![0, 2]);
    assert_eq!(column_names(&tables[0].data), vec!["uid", "k"]);
    assert_eq!(tables[1].name, "a");
    assert_eq!(tables[1].data.entries, vec![1]);
}

#[test]
fn group_tables_reports_first_failing_record() {
    let records = vec![entry("a", &[("uid", "1")]), entry("b", &[("x", "1")]), entry("c", &[("y", "1")])];
    match group_tables(&records) {
        Err(ConvertError::MissingKeyColumn { table, record }) => {
            assert_eq!(table, "b");
            assert_eq!(record, 1);
        }
        _ => panic!("expected a missing key column"),
    }
}

#[test]
fn insert_cell_replaces_in_place() {
    let mut e = TableEntry::new("t".to_string());
    assert!(!e.insert_cell("a".to_string(), "1".to_string()));
    assert!(!e.insert_cell("b".to_string(), "2".to_string()));
    assert!(e.insert_cell("a".to_string(), "3".to_string()));
    assert_eq!(e.cells.len(), 2);
    assert_eq!(e.cells[0].name, "a");
    assert_eq!(e.cells[0].value, "3");
    assert_eq!(e.find_cell(&"b".to_string()), Some(1));
    assert_eq!(e.find_cell(&"c".to_string()), None);
}

#[test]
fn events_after_dataset_end_are_not_needed() {
    let mut reader = DatasetReader::new();
    assert!(matches!(reader.feed(XmlEvent::Start { name: b"dataset".to_vec() }, 9), Ok(Progress::Continue)));
    assert!(!reader.is_finished());
    assert!(matches!(reader.feed(XmlEvent::End { name: b"dataset".to_vec() }, 19), Ok(Progress::Finished)));
    assert!(reader.is_finished());
}
