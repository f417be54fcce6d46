use vstd::prelude::*;

use crate::emit::{emitted, indices_in, max_column_count, max_columns, rows_model, table_rows, Row};
use crate::entry::{cell_names, TableEntry};
use crate::error::ConvertError;
use crate::table::{
    added_columns, group_tables, grouped, key_column, lemma_added_columns, table_names, table_position,
    TableModel,
};

verus! {

/// What a conversion yields when no record failed.
pub enum Conversion {
    /// The dataset held no records: nothing is written.
    EmptyDataset,
    /// No table has a column: nothing is written.
    NoColumns,
    /// The rows to write.
    Rows(Vec<Vec<String>>),
}

/// The rows of a document's records, `None` where nothing is to be written,
/// or the index of the record that left its table without a key column.
pub open spec fn converted(es: Seq<TableEntry>) -> Result<Option<Seq<Row>>, int> {
    match grouped(es) {
        Err(k) => Err(k),
        Ok(ts) => if ts.len() == 0 || max_columns(ts) == 0 {
            Ok(None)
        } else {
            Ok(Some(emitted(es, ts, max_columns(ts) + 1)))
        },
    }
}

/// The table names of the records, in order.
pub open spec fn record_names(es: Seq<TableEntry>) -> Seq<Seq<char>> {
    es.map_values(|e: TableEntry| e.name@)
}

/// The shape of a successful grouping: distinct table names, exactly the
/// records' table names; distinct columns with the key column first; and
/// record indices that point into the records.
pub open spec fn grouping_shape(es: Seq<TableEntry>, ts: Seq<TableModel>) -> bool {
    &&& table_names(ts).no_duplicates()
    &&& forall|n: Seq<char>| table_names(ts).contains(n) <==> record_names(es).contains(n)
    &&& forall|i: int| 0 <= i < ts.len() ==> {
        &&& (#[trigger] ts[i]).1.no_duplicates()
        &&& ts[i].1.len() > 0
        &&& ts[i].1[0] == key_column()
    }
    &&& indices_in(es, ts)
}

pub proof fn lemma_grouped_shape(es: Seq<TableEntry>)
    ensures
        grouped(es) matches Ok(ts) ==> grouping_shape(es, ts),
    decreases es.len(),
{
    if es.len() > 0 {
        let init = es.drop_last();
        lemma_grouped_shape(init);
        if let Ok(ts) = grouped(init) {
            let e = es.last();
            let k = es.len() - 1;
            assert(record_names(es) =~= record_names(init).push(e.name@));
            assert forall|n: Seq<char>| record_names(es).contains(n) <==> (record_names(init).contains(n) || n == e.name@) by {
                let rs = record_names(es);
                let ri = record_names(init);
                if rs.contains(n) {
                    let j = choose|j: int| 0 <= j < rs.len() && rs[j] == n;
                    if j < ri.len() {
                        assert(ri[j] == n);
                    }
                }
                if ri.contains(n) {
                    let j = choose|j: int| 0 <= j < ri.len() && ri[j] == n;
                    assert(rs[j] == n);
                }
                if n == e.name@ {
                    assert(rs[k] == n);
                }
            };
            if table_names(ts).contains(e.name@) {
                let i = table_position(ts, e.name@);
                let p = choose|p: int| 0 <= p < table_names(ts).len() && table_names(ts)[p] == e.name@;
                assert(ts[p].0 == e.name@);
                lemma_added_columns(ts[i].1, cell_names(e));
                if let Some(c) = added_columns(ts[i].1, cell_names(e)) {
                    let ts2 = ts.update(i, (e.name@, c, ts[i].2.push(k as usize)));
                    assert(table_names(ts2) =~= table_names(ts));
                    assert forall|a: int, b: int| 0 <= a < ts2.len() && 0 <= b < ts2[a].2.len() implies (#[trigger] ts2[a].2[b]) < es.len() by {
                        if a == i && b == ts[i].2.len() {
                        } else {
                            assert(ts[a].2[b] < init.len());
                        }
                    };
                    assert forall|a: int| 0 <= a < ts2.len() implies {
                        &&& (#[trigger] ts2[a]).1.no_duplicates()
                        &&& ts2[a].1.len() > 0
                        &&& ts2[a].1[0] == key_column()
                    } by {
                        if a != i {
                            assert(ts2[a] == ts[a]);
                        }
                    };
                }
            } else {
                assert(Seq::<Seq<char>>::empty().no_duplicates());
                lemma_added_columns(Seq::empty(), cell_names(e));
                if let Some(c) = added_columns(Seq::empty(), cell_names(e)) {
                    let ts2 = ts.push((e.name@, c, seq![k as usize]));
                    assert(table_names(ts2) =~= table_names(ts).push(e.name@));
                    assert forall|n: Seq<char>| table_names(ts2).contains(n) <==> (table_names(ts).contains(n) || n == e.name@) by {
                        if table_names(ts2).contains(n) {
                            let j = choose|j: int| 0 <= j < table_names(ts2).len() && table_names(ts2)[j] == n;
                            if j < ts.len() {
                                assert(table_names(ts)[j] == n);
                            }
                        }
                        if table_names(ts).contains(n) {
                            let j = choose|j: int| 0 <= j < table_names(ts).len() && table_names(ts)[j] == n;
                            assert(table_names(ts2)[j] == n);
                        }
                        if n == e.name@ {
                            assert(table_names(ts2)[ts.len() as int] == n);
                        }
                    };
                    assert forall|a: int, b: int| 0 <= a < ts2.len() && 0 <= b < ts2[a].2.len() implies (#[trigger] ts2[a].2[b]) < es.len() by {
                        if a < ts.len() {
                            assert(ts[a].2[b] < init.len());
                        }
                    };
                    assert forall|a: int| 0 <= a < ts2.len() implies {
                        &&& (#[trigger] ts2[a]).1.no_duplicates()
                        &&& ts2[a].1.len() > 0
                        &&& ts2[a].1[0] == key_column()
                    } by {
                        if a < ts.len() {
                            assert(ts2[a] == ts[a]);
                        }
                    };
                }
            }
        }
    } else {
        assert(table_names(Seq::<TableModel>::empty()) =~= Seq::empty());
    }
}

/// Converts a document's records into the rows to write: records grouped by
/// table name, tables in order of first appearance, every row one field wider
/// than the widest table. Fails on the first record that leaves its table
/// without a key column.
pub fn convert(entries: &Vec<TableEntry>) -> (r: Result<Conversion, ConvertError>)
    ensures
        match r {
            Ok(Conversion::Rows(rows)) => converted(entries@) == Ok::<Option<Seq<Row>>, int>(Some(rows_model(rows@))),
            Ok(Conversion::EmptyDataset) => grouped(entries@) matches Ok(ts) && ts.len() == 0,
            Ok(Conversion::NoColumns) => grouped(entries@) matches Ok(ts) && ts.len() > 0 && max_columns(ts) == 0,
            Err(e) => converted(entries@) matches Err(k) && e matches ConvertError::MissingKeyColumn { table, record }
                && record == k && 0 <= k < entries@.len() && table@ == entries@[k].name@,
        },
{
    let tables = match group_tables(entries) {
        Ok(tables) => tables,
        Err(e) => {
            return Err(e);
        },
    };
    proof {
        lemma_grouped_shape(entries@);
    }
    if tables.len() == 0 {
        return Ok(Conversion::EmptyDataset);
    }
    let widest = max_column_count(&tables);
    if widest == 0 {
        return Ok(Conversion::NoColumns);
    }
    Ok(Conversion::Rows(table_rows(entries, &tables)))
}

} // verus!
