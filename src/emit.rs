use vstd::prelude::*;

use crate::entry::{cell_value, TableEntry};
use crate::table::{table_model, tables_model, NamedTable, TableModel};

verus! {

/// One output row: its fields, in order.
pub type Row = Seq<Seq<char>>;

pub open spec fn row_model(r: Vec<String>) -> Row {
    r@.map_values(|s: String| s@)
}

pub open spec fn rows_model(rows: Seq<Vec<String>>) -> Seq<Row> {
    rows.map_values(|r: Vec<String>| row_model(r))
}

/// The largest number of columns of any table.
pub open spec fn max_columns(ts: Seq<TableModel>) -> nat
    decreases ts.len(),
{
    if ts.len() == 0 {
        0
    } else {
        let m = max_columns(ts.drop_last());
        if ts.last().1.len() > m {
            ts.last().1.len()
        } else {
            m
        }
    }
}

/// The marker row of a table: its name, then `w - 1` empty fields.
pub open spec fn name_row(name: Seq<char>, w: nat) -> Row {
    Seq::new(w, |i: int| if i == 0 { name } else { Seq::empty() })
}

/// The header row of a table: an empty field, the column names, then empty
/// fields up to width `w`.
pub open spec fn header_row(cols: Seq<Seq<char>>, w: nat) -> Row {
    Seq::new(w, |i: int| if 1 <= i <= cols.len() { cols[i - 1] } else { Seq::empty() })
}

/// The row of one record: an empty field, the record's value for each column
/// (empty where it has no such cell), then empty fields up to width `w`.
pub open spec fn data_row(e: TableEntry, cols: Seq<Seq<char>>, w: nat) -> Row {
    Seq::new(w, |i: int| if 1 <= i <= cols.len() { cell_value(e, cols[i - 1]) } else { Seq::empty() })
}

pub open spec fn data_rows(es: Seq<TableEntry>, t: TableModel, w: nat) -> Seq<Row> {
    t.2.map_values(|k: usize| data_row(es[k as int], t.1, w))
}

/// The rows of one table: marker, header, then one row per record.
pub open spec fn table_block(es: Seq<TableEntry>, t: TableModel, w: nat) -> Seq<Row> {
    seq![name_row(t.0, w), header_row(t.1, w)] + data_rows(es, t, w)
}

/// The rows of all tables, table after table.
pub open spec fn emitted(es: Seq<TableEntry>, ts: Seq<TableModel>, w: nat) -> Seq<Row>
    decreases ts.len(),
{
    if ts.len() == 0 {
        Seq::empty()
    } else {
        emitted(es, ts.drop_last(), w) + table_block(es, ts.last(), w)
    }
}

/// Every record index of every table points into the record sequence.
pub open spec fn indices_in(es: Seq<TableEntry>, ts: Seq<TableModel>) -> bool {
    forall|i: int, j: int| 0 <= i < ts.len() && 0 <= j < ts[i].2.len() ==> (#[trigger] ts[i].2[j]) < es.len()
}

/// The largest number of columns of any of the tables.
pub fn max_column_count(tables: &Vec<NamedTable>) -> (r: usize)
    ensures
        r == max_columns(tables_model(tables@)),
{
    let ghost ts = tables_model(tables@);
    let mut m: usize = 0;
    let mut i: usize = 0;
    while i < tables.len()
        invariant
            0 <= i <= tables@.len(),
            ts == tables_model(tables@),
            m == max_columns(ts.take(i as int)),
        decreases tables@.len() - i,
    {
        proof {
            assert(ts.take(i + 1).drop_last() =~= ts.take(i as int));
            assert(ts[i as int].1.len() == tables@[i as int].data.column_names@.len());
        }
        if tables[i].data.column_names.len() > m {
            m = tables[i].data.column_names.len();
        }
        i = i + 1;
    }
    assert(ts.take(i as int) =~= ts);
    m
}

/// The value that the record holds for the column, or an empty text.
pub fn value_for(entry: &TableEntry, column: &String) -> (r: String)
    ensures
        r@ == cell_value(*entry, column@),
{
    match entry.find_cell(column) {
        Some(i) => {
            proof {
                crate::entry::lemma_cell_value_first(*entry, i as int);
            }
            entry.cells[i].value.clone()
        },
        None => String::new(),
    }
}

fn name_row_of(name: &String, extra: usize) -> (r: Vec<String>)
    ensures
        row_model(r) == name_row(name@, (extra + 1) as nat),
{
    let mut r: Vec<String> = Vec::new();
    r.push(name.clone());
    let mut c: usize = 0;
    while c < extra
        invariant
            0 <= c <= extra,
            row_model(r) == name_row(name@, (c + 1) as nat),
        decreases extra - c,
    {
        let ghost pre = row_model(r);
        r.push(String::new());
        assert(row_model(r) =~= pre.push(Seq::<char>::empty()));
        assert(row_model(r) =~= name_row(name@, (c + 2) as nat));
        c = c + 1;
    }
    r
}

fn header_row_of(cols: &Vec<String>, extra: usize) -> (r: Vec<String>)
    requires
        cols@.len() <= extra,
    ensures
        row_model(r) == header_row(cols@.map_values(|s: String| s@), (extra + 1) as nat),
{
    let ghost cm = cols@.map_values(|s: String| s@);
    let mut r: Vec<String> = Vec::new();
    r.push(String::new());
    assert(row_model(r) =~= header_row(cm, 1));
    let mut c: usize = 0;
    while c < extra
        invariant
            0 <= c <= extra,
            cols@.len() <= extra,
            cm == cols@.map_values(|s: String| s@),
            row_model(r) == header_row(cm, (c + 1) as nat),
        decreases extra - c,
    {
        let ghost pre = row_model(r);
        if c < cols.len() {
            r.push(cols[c].clone());
            assert(row_model(r) =~= pre.push(cm[c as int]));
        } else {
            r.push(String::new());
            assert(row_model(r) =~= pre.push(Seq::<char>::empty()));
        }
        assert(row_model(r) =~= header_row(cm, (c + 2) as nat));
        c = c + 1;
    }
    r
}

fn data_row_of(entry: &TableEntry, cols: &Vec<String>, extra: usize) -> (r: Vec<String>)
    requires
        cols@.len() <= extra,
    ensures
        row_model(r) == data_row(*entry, cols@.map_values(|s: String| s@), (extra + 1) as nat),
{
    let ghost cm = cols@.map_values(|s: String| s@);
    let mut r: Vec<String> = Vec::new();
    r.push(String::new());
    assert(row_model(r) =~= data_row(*entry, cm, 1));
    let mut c: usize = 0;
    while c < extra
        invariant
            0 <= c <= extra,
            cols@.len() <= extra,
            cm == cols@.map_values(|s: String| s@),
            row_model(r) == data_row(*entry, cm, (c + 1) as nat),
        decreases extra - c,
    {
        let ghost pre = row_model(r);
        if c < cols.len() {
            let v = value_for(entry, &cols[c]);
            r.push(v);
            assert(row_model(r) =~= pre.push(cell_value(*entry, cm[c as int])));
        } else {
            r.push(String::new());
            assert(row_model(r) =~= pre.push(Seq::<char>::empty()));
        }
        assert(row_model(r) =~= data_row(*entry, cm, (c + 2) as nat));
        c = c + 1;
    }
    r
}

/// Lays the tables out as rows, each one field wider than the widest table:
/// per table a marker row, a header row and one row per record.
pub fn table_rows(entries: &Vec<TableEntry>, tables: &Vec<NamedTable>) -> (rows: Vec<Vec<String>>)
    requires
        indices_in(entries@, tables_model(tables@)),
    ensures
        rows_model(rows@) == emitted(entries@, tables_model(tables@), max_columns(tables_model(tables@)) + 1),
{
    let ghost ts = tables_model(tables@);
    let extra = max_column_count(tables);
    let ghost w: nat = (extra + 1) as nat;
    proof {
        lemma_max_columns(ts);
    }
    let mut rows: Vec<Vec<String>> = Vec::new();
    let mut t: usize = 0;
    assert(rows_model(rows@) =~= emitted(entries@, ts.take(0), w));
    while t < tables.len()
        invariant
            0 <= t <= tables@.len(),
            ts == tables_model(tables@),
            w == extra + 1,
            forall|i: int| 0 <= i < ts.len() ==> ts[i].1.len() <= extra,
            indices_in(entries@, ts),
            rows_model(rows@) == emitted(entries@, ts.take(t as int), w),
        decreases tables@.len() - t,
    {
        let table = &tables[t];
        let ghost tm = ts[t as int];
        let ghost before = rows_model(rows@);
        assert(tm.1.len() <= extra);
        rows.push(name_row_of(&table.name, extra));
        rows.push(header_row_of(&table.data.column_names, extra));
        assert(rows_model(rows@) =~= before + seq![name_row(tm.0, w), header_row(tm.1, w)]);
        let mut k: usize = 0;
        while k < table.data.entries.len()
            invariant
                0 <= k <= table.data.entries@.len(),
                tm == table_model(*table),
                tm == ts[t as int],
                0 <= t < ts.len(),
                w == extra + 1,
                tm.1.len() <= extra,
                indices_in(entries@, ts),
                rows_model(rows@) == before + seq![name_row(tm.0, w), header_row(tm.1, w)]
                    + data_rows(entries@, tm, w).take(k as int),
            decreases table.data.entries@.len() - k,
        {
            let idx = table.data.entries[k];
            assert(tm.2[k as int] == idx);
            assert(idx < entries@.len());
            let ghost prev = rows_model(rows@);
            rows.push(data_row_of(&entries[idx], &table.data.column_names, extra));
            assert(data_rows(entries@, tm, w).take(k + 1) =~= data_rows(entries@, tm, w).take(k as int).push(
                data_row(entries@[idx as int], tm.1, w)));
            assert(rows_model(rows@) =~= prev.push(data_row(entries@[idx as int], tm.1, w)));
            k = k + 1;
        }
        assert(data_rows(entries@, tm, w).take(k as int) =~= data_rows(entries@, tm, w));
        assert(ts.take(t + 1).drop_last() =~= ts.take(t as int));
        assert(rows_model(rows@) =~= emitted(entries@, ts.take(t + 1), w));
        t = t + 1;
    }
    assert(ts.take(t as int) =~= ts);
    rows
}


/// No table has more columns than `max_columns` says.
pub proof fn lemma_max_columns(ts: Seq<TableModel>)
    ensures
        forall|i: int| 0 <= i < ts.len() ==> ts[i].1.len() <= max_columns(ts),
    decreases ts.len(),
{
    if ts.len() > 0 {
        lemma_max_columns(ts.drop_last());
        assert forall|i: int| 0 <= i < ts.len() implies ts[i].1.len() <= max_columns(ts) by {
            if i < ts.len() - 1 {
                assert(ts.drop_last()[i] == ts[i]);
            }
        };
    }
}

} // verus!
