use vstd::prelude::*;

use crate::convert::{converted, lemma_grouped_shape, record_names};
use crate::emit::{data_row, emitted, header_row, table_block};
use crate::entry::{cell_names, TableEntry};
use crate::table::{added_columns, grouped, key_column, lemma_added_columns, table_names, TableModel};

verus! {

/// The number of records that the tables hold together.
pub open spec fn record_count(ts: Seq<TableModel>) -> int
    decreases ts.len(),
{
    if ts.len() == 0 {
        0
    } else {
        record_count(ts.drop_last()) + ts.last().2.len()
    }
}

proof fn lemma_record_count_update(ts: Seq<TableModel>, i: int, x: TableModel)
    requires
        0 <= i < ts.len(),
    ensures
        record_count(ts.update(i, x)) == record_count(ts) - ts[i].2.len() + x.2.len(),
    decreases ts.len(),
{
    let u = ts.update(i, x);
    if i == ts.len() - 1 {
        assert(u.drop_last() =~= ts.drop_last());
    } else {
        assert(u.drop_last() =~= ts.drop_last().update(i, x));
        lemma_record_count_update(ts.drop_last(), i, x);
    }
}

proof fn lemma_grouped_count(es: Seq<TableEntry>)
    ensures
        grouped(es) matches Ok(ts) ==> record_count(ts) == es.len(),
    decreases es.len(),
{
    if es.len() > 0 {
        let init = es.drop_last();
        lemma_grouped_count(init);
        if let Ok(ts) = grouped(init) {
            let e = es.last();
            let k = es.len() - 1;
            if table_names(ts).contains(e.name@) {
                let i = crate::table::table_position(ts, e.name@);
                let p = choose|p: int| 0 <= p < table_names(ts).len() && table_names(ts)[p] == e.name@;
                assert(ts[p].0 == e.name@);
                if let Some(c) = added_columns(ts[i].1, cell_names(e)) {
                    lemma_record_count_update(ts, i, (e.name@, c, ts[i].2.push(k as usize)));
                }
            } else {
                if let Some(c) = added_columns(Seq::empty(), cell_names(e)) {
                    assert(ts.push((e.name@, c, seq![k as usize])).drop_last() =~= ts);
                }
            }
        }
    }
}

proof fn lemma_emitted_len(es: Seq<TableEntry>, ts: Seq<TableModel>, w: nat)
    ensures
        emitted(es, ts, w).len() == 2 * ts.len() + record_count(ts),
    decreases ts.len(),
{
    if ts.len() > 0 {
        lemma_emitted_len(es, ts.drop_last(), w);
        assert(table_block(es, ts.last(), w).len() == 2 + ts.last().2.len());
    }
}

/// One table per distinct table name: the tables are exactly as many as the
/// distinct names among the records, and the rows are a marker row and a
/// header row per table plus one row per record.
pub proof fn law_one_block_per_table(es: Seq<TableEntry>, w: nat)
    requires
        grouped(es) is Ok,
    ensures
        grouped(es) matches Ok(ts) && ts.len() == record_names(es).to_set().len()
            && emitted(es, ts, w).len() == 2 * ts.len() + es.len(),
{
    lemma_grouped_shape(es);
    lemma_grouped_count(es);
    let ts = grouped(es)->Ok_0;
    lemma_emitted_len(es, ts, w);
    table_names(ts).unique_seq_to_set();
    assert(table_names(ts).to_set() =~= record_names(es).to_set());
}

/// Every table that the records form has the key column, and first; so its
/// header row names it in the first column position.
pub proof fn law_key_column_first(es: Seq<TableEntry>, w: nat)
    requires
        grouped(es) is Ok,
    ensures
        grouped(es) matches Ok(ts) && forall|i: int| 0 <= i < ts.len() ==> {
            &&& (#[trigger] ts[i]).1.len() > 0
            &&& ts[i].1[0] == key_column()
            &&& w > ts[i].1.len() ==> header_row(ts[i].1, w)[1] == key_column()
        },
{
    lemma_grouped_shape(es);
}

/// The tables after one more record: the same tables in the same places,
/// each with at least the columns it had, possibly followed by a new table.
pub open spec fn grown(ts1: Seq<TableModel>, ts2: Seq<TableModel>) -> bool {
    &&& ts1.len() <= ts2.len()
    &&& forall|i: int| 0 <= i < ts1.len() ==> {
        &&& (#[trigger] ts2[i]).0 == ts1[i].0
        &&& forall|x: Seq<char>| ts1[i].1.contains(x) ==> ts2[i].1.contains(x)
    }
}

proof fn lemma_grown_step(es: Seq<TableEntry>)
    requires
        es.len() > 0,
        grouped(es) is Ok,
    ensures
        grouped(es.drop_last()) is Ok,
        grown(grouped(es.drop_last())->Ok_0, grouped(es)->Ok_0),
{
    let init = es.drop_last();
    lemma_grouped_shape(init);
    let ts = grouped(init)->Ok_0;
    let e = es.last();
    if table_names(ts).contains(e.name@) {
        let i = crate::table::table_position(ts, e.name@);
        let p = choose|p: int| 0 <= p < table_names(ts).len() && table_names(ts)[p] == e.name@;
        assert(ts[p].0 == e.name@);
        lemma_added_columns(ts[i].1, cell_names(e));
    }
}

/// Columns only grow: the tables that any prefix of the records forms stand,
/// in the same places, among the tables of all the records, each with a
/// superset of its columns.
pub proof fn law_columns_grow(es: Seq<TableEntry>, n: int)
    requires
        0 <= n <= es.len(),
        grouped(es) is Ok,
    ensures
        grouped(es.take(n)) is Ok,
        grown(grouped(es.take(n))->Ok_0, grouped(es)->Ok_0),
    decreases es.len() - n,
{
    if n == es.len() {
        assert(es.take(n) =~= es);
    } else {
        lemma_grown_step(es);
        let init = es.drop_last();
        assert(init.take(n) =~= es.take(n));
        law_columns_grow(init, n);
    }
}

/// A record without a cell for one of its table's columns gets an empty
/// field in that column's place; the row keeps its full width.
pub proof fn law_missing_cell_padded(e: TableEntry, cols: Seq<Seq<char>>, w: nat, i: int)
    requires
        1 <= i <= cols.len(),
        i < w,
        !cell_names(e).contains(cols[i - 1]),
    ensures
        data_row(e, cols, w).len() == w,
        data_row(e, cols, w)[i] == Seq::<char>::empty(),
{
}

/// The rows depend on the records alone: the same records give the same rows.
pub proof fn law_conversion_repeatable(a: Seq<TableEntry>, b: Seq<TableEntry>)
    requires
        a.len() == b.len(),
        forall|k: int| 0 <= k < a.len() ==> a[k] == b[k],
    ensures
        converted(a) == converted(b),
{
    assert(a =~= b);
}

} // verus!
