use vstd::prelude::*;

use crate::entry::{cell_names, TableEntry};
use crate::error::ConvertError;

verus! {

/// The name of the key column, which every table must have and which always
/// stands first.
pub open spec fn key_column() -> Seq<char> {
    seq!['u', 'i', 'd']
}

/// `cols` extended by each of `names` that it does not hold yet, in order.
pub open spec fn union_names(cols: Seq<Seq<char>>, names: Seq<Seq<char>>) -> Seq<Seq<char>>
    decreases names.len(),
{
    if names.len() == 0 {
        cols
    } else {
        let u = union_names(cols, names.drop_last());
        if u.contains(names.last()) {
            u
        } else {
            u.push(names.last())
        }
    }
}

/// A position at which `cols` holds `x`, where it holds it.
pub open spec fn position_of(cols: Seq<Seq<char>>, x: Seq<char>) -> int {
    choose|i: int| 0 <= i < cols.len() && cols[i] == x
}

/// `cols` with the key column swapped into the first place, where it has one.
pub open spec fn key_first(cols: Seq<Seq<char>>) -> Seq<Seq<char>> {
    if cols.contains(key_column()) {
        cols.update(position_of(cols, key_column()), cols[0]).update(0, key_column())
    } else {
        cols
    }
}

/// The columns of a table after a record with cells `names` joins it, or
/// `None` when the table then still lacks the key column.
pub open spec fn added_columns(cols: Seq<Seq<char>>, names: Seq<Seq<char>>) -> Option<Seq<Seq<char>>> {
    let u = union_names(cols, names);
    if u.contains(key_column()) {
        Some(key_first(u))
    } else {
        None
    }
}

/// Folding names in keeps the columns distinct, and holds exactly the old
/// columns and the new names.
pub proof fn lemma_union_names(cols: Seq<Seq<char>>, names: Seq<Seq<char>>)
    requires
        cols.no_duplicates(),
    ensures
        union_names(cols, names).no_duplicates(),
        forall|x: Seq<char>| union_names(cols, names).contains(x) <==> (cols.contains(x) || names.contains(x)),
        union_names(cols, names).len() >= cols.len(),
        forall|i: int| 0 <= i < cols.len() ==> union_names(cols, names)[i] == cols[i],
    decreases names.len(),
{
    if names.len() > 0 {
        let init = names.drop_last();
        lemma_union_names(cols, init);
        let u = union_names(cols, init);
        assert forall|x: Seq<char>| names.contains(x) <==> (init.contains(x) || x == names.last()) by {
            if names.contains(x) {
                let k = choose|k: int| 0 <= k < names.len() && names[k] == x;
                if k < names.len() - 1 {
                    assert(init[k] == x);
                }
            }
            if init.contains(x) {
                let k = choose|k: int| 0 <= k < init.len() && init[k] == x;
                assert(names[k] == x);
            }
            if x == names.last() {
                assert(names[names.len() - 1] == x);
            }
        };
        if !u.contains(names.last()) {
            let v = u.push(names.last());
            assert forall|x: Seq<char>| v.contains(x) <==> (u.contains(x) || x == names.last()) by {
                if v.contains(x) {
                    let k = choose|k: int| 0 <= k < v.len() && v[k] == x;
                    if k < u.len() {
                        assert(u[k] == x);
                    }
                }
                if u.contains(x) {
                    let k = choose|k: int| 0 <= k < u.len() && u[k] == x;
                    assert(v[k] == x);
                }
                if x == names.last() {
                    assert(v[v.len() - 1] == x);
                }
            };
            assert(v.no_duplicates()) by {
                assert forall|a: int, b: int| 0 <= a < v.len() && 0 <= b < v.len() && a != b implies v[a] != v[b] by {
                    if a < u.len() && b < u.len() {
                    } else if a < u.len() {
                        assert(u.contains(v[a]));
                    } else {
                        assert(u.contains(v[b]));
                    }
                };
            };
        }
    }
}

/// Moving the key column to the front keeps the columns distinct and keeps
/// which columns there are.
pub proof fn lemma_key_first(cols: Seq<Seq<char>>)
    requires
        cols.no_duplicates(),
    ensures
        key_first(cols).no_duplicates(),
        key_first(cols).len() == cols.len(),
        forall|x: Seq<char>| key_first(cols).contains(x) <==> cols.contains(x),
        cols.contains(key_column()) ==> key_first(cols)[0] == key_column(),
{
    if cols.contains(key_column()) {
        let p = position_of(cols, key_column());
        let k = key_first(cols);
        assert(forall|i: int| 0 <= i < cols.len() && i != 0 && i != p ==> k[i] == cols[i]);
        assert(k[0] == cols[p]);
        assert(k[p] == cols[0]);
        assert forall|x: Seq<char>| k.contains(x) <==> cols.contains(x) by {
            if k.contains(x) {
                let i = choose|i: int| 0 <= i < k.len() && k[i] == x;
                if i == 0 {
                    assert(cols[p] == x);
                } else if i == p {
                    assert(cols[0] == x);
                } else {
                    assert(cols[i] == x);
                }
            }
            if cols.contains(x) {
                let i = choose|i: int| 0 <= i < cols.len() && cols[i] == x;
                if i == 0 {
                    assert(k[p] == x);
                } else if i == p {
                    assert(k[0] == x);
                } else {
                    assert(k[i] == x);
                }
            }
        };
        assert forall|a: int, b: int| 0 <= a < k.len() && 0 <= b < k.len() && a != b implies k[a] != k[b] by {
            let sa = if a == 0 { p } else if a == p { 0 } else { a };
            let sb = if b == 0 { p } else if b == p { 0 } else { b };
            assert(k[a] == cols[sa]);
            assert(k[b] == cols[sb]);
        };
    }
}

/// What `added_columns` gives is distinct, begins with the key column, and
/// holds exactly the old columns and the record's cell names.
pub proof fn lemma_added_columns(cols: Seq<Seq<char>>, names: Seq<Seq<char>>)
    requires
        cols.no_duplicates(),
    ensures
        added_columns(cols, names) matches Some(c) ==> {
            &&& c.no_duplicates()
            &&& c.len() > 0
            &&& c[0] == key_column()
            &&& forall|x: Seq<char>| c.contains(x) <==> (cols.contains(x) || names.contains(x))
        },
{
    lemma_union_names(cols, names);
    lemma_key_first(union_names(cols, names));
}

/// The columns and records of one table. Records are held as indices into
/// the document's record sequence.
pub struct TableDataSet {
    pub column_names: Vec<String>,
    pub entries: Vec<usize>,
}

impl TableDataSet {
    pub open spec fn columns(&self) -> Seq<Seq<char>> {
        self.column_names@.map_values(|s: String| s@)
    }

    /// The column names are distinct.
    pub open spec fn wf(&self) -> bool {
        self.columns().no_duplicates()
    }

    pub fn new() -> (r: TableDataSet)
        ensures
            r.columns() == Seq::<Seq<char>>::empty(),
            r.entries@ == Seq::<usize>::empty(),
            r.wf(),
    {
        let r = TableDataSet { column_names: Vec::new(), entries: Vec::new() };
        assert(r.columns() =~= Seq::<Seq<char>>::empty());
        r
    }

    /// Whether the table has a column of this name.
    pub fn has_column(&self, name: &String) -> (r: bool)
        ensures
            r == self.columns().contains(name@),
    {
        let mut i: usize = 0;
        while i < self.column_names.len()
            invariant
                0 <= i <= self.column_names@.len(),
                forall|j: int| 0 <= j < i ==> self.columns()[j] != name@,
            decreases self.column_names@.len() - i,
        {
            if self.column_names[i] == *name {
                assert(self.columns()[i as int] == name@);
                return true;
            }
            i = i + 1;
        }
        false
    }

    /// Assigns record number `index` to this table. Its cell names that the
    /// table lacks are appended as columns in their order; then the key
    /// column is swapped into the first place. Fails when the table has no
    /// key column even after that, leaving the record out.
    pub fn add_entry(&mut self, entry: &TableEntry, index: usize) -> (r: Result<(), ConvertError>)
        requires
            old(self).wf(),
        ensures
            final(self).wf(),
            match r {
                Ok(()) => {
                    &&& added_columns(old(self).columns(), cell_names(*entry)) == Some(final(self).columns())
                    &&& final(self).entries@ == old(self).entries@.push(index)
                },
                Err(e) => {
                    &&& added_columns(old(self).columns(), cell_names(*entry)) is None
                    &&& final(self).columns() == union_names(old(self).columns(), cell_names(*entry))
                    &&& final(self).entries@ == old(self).entries@
                    &&& e matches ConvertError::MissingKeyColumn { table, record } && table@ == entry.name@
                        && record == index
                },
            },
    {
        let ghost cols0 = self.columns();
        let ghost names = cell_names(*entry);
        let mut i: usize = 0;
        while i < entry.cells.len()
            invariant
                0 <= i <= entry.cells@.len(),
                names == cell_names(*entry),
                cols0.no_duplicates(),
                self.columns() == union_names(cols0, names.take(i as int)),
                self.entries@ == old(self).entries@,
            decreases entry.cells@.len() - i,
        {
            let name = &entry.cells[i].name;
            proof {
                assert(names.take(i + 1).drop_last() =~= names.take(i as int));
                assert(names.take(i + 1).last() == name@);
            }
            if !self.has_column(name) {
                self.column_names.push(name.clone());
                assert(self.columns() =~= union_names(cols0, names.take(i as int)).push(name@));
            }
            i = i + 1;
        }
        proof {
            assert(names.take(i as int) =~= names);
            lemma_union_names(cols0, names);
        }
        let ghost u = self.columns();
        let key = "uid".to_owned();
        proof {
            reveal_strlit("uid");
            assert(key@ == key_column());
        }
        let mut p: usize = 0;
        while p < self.column_names.len()
            invariant
                0 <= p <= self.column_names@.len(),
                self.columns() == u,
                key@ == key_column(),
                forall|j: int| 0 <= j < p ==> u[j] != key_column(),
            ensures
                self.columns() == u,
                0 <= p <= self.column_names@.len(),
                forall|j: int| 0 <= j < p ==> u[j] != key_column(),
                p < self.column_names@.len() ==> u[p as int] == key_column(),
            decreases self.column_names@.len() - p,
        {
            if self.column_names[p] == key {
                assert(u[p as int] == key_column());
                break;
            }
            p = p + 1;
        }
        if p == self.column_names.len() {
            proof {
                if u.contains(key_column()) {
                    let k = choose|k: int| 0 <= k < u.len() && u[k] == key_column();
                    assert(u[k] == key_column());
                }
            }
            return Err(ConvertError::MissingKeyColumn { table: entry.name.clone(), record: index });
        }
        assert(u[p as int] == key_column());
        assert(u.contains(key_column()));
        proof {
            let q = position_of(u, key_column());
            assert(q == p);
        }
        if p != 0 {
            let first = self.column_names[0].clone();
            let keyed = self.column_names[p].clone();
            self.column_names.set(0, keyed);
            self.column_names.set(p, first);
        }
        assert(self.columns() =~= key_first(u));
        proof {
            lemma_key_first(u);
        }
        self.entries.push(index);
        Ok(())
    }
}


/// A table's model: its name, its columns and the indices of its records.
pub type TableModel = (Seq<char>, Seq<Seq<char>>, Seq<usize>);

/// A table together with its name.
pub struct NamedTable {
    pub name: String,
    pub data: TableDataSet,
}

pub open spec fn table_model(t: NamedTable) -> TableModel {
    (t.name@, t.data.columns(), t.data.entries@)
}

pub open spec fn tables_model(ts: Seq<NamedTable>) -> Seq<TableModel> {
    ts.map_values(|t: NamedTable| table_model(t))
}

pub open spec fn table_names(ts: Seq<TableModel>) -> Seq<Seq<char>> {
    ts.map_values(|t: TableModel| t.0)
}

/// A position of the table with the given name, where there is one.
pub open spec fn table_position(ts: Seq<TableModel>, name: Seq<char>) -> int {
    choose|i: int| 0 <= i < ts.len() && ts[i].0 == name
}

/// The tables that the records form, in the order in which their names first
/// appear; or the index of the first record that left its table without a
/// key column.
pub open spec fn grouped(es: Seq<TableEntry>) -> Result<Seq<TableModel>, int>
    decreases es.len(),
{
    if es.len() == 0 {
        Ok(Seq::empty())
    } else {
        match grouped(es.drop_last()) {
            Err(k) => Err(k),
            Ok(ts) => {
                let e = es.last();
                let k = es.len() - 1;
                if table_names(ts).contains(e.name@) {
                    let i = table_position(ts, e.name@);
                    match added_columns(ts[i].1, cell_names(e)) {
                        None => Err(k),
                        Some(c) => Ok(ts.update(i, (e.name@, c, ts[i].2.push(k as usize)))),
                    }
                } else {
                    match added_columns(Seq::empty(), cell_names(e)) {
                        None => Err(k),
                        Some(c) => Ok(ts.push((e.name@, c, seq![k as usize]))),
                    }
                }
            },
        }
    }
}

/// Once a prefix of the records fails, every longer sequence fails alike.
pub proof fn lemma_grouped_failure_stays(es: Seq<TableEntry>, n: int)
    requires
        0 <= n <= es.len(),
        grouped(es.take(n)) is Err,
    ensures
        grouped(es) == grouped(es.take(n)),
    decreases es.len() - n,
{
    if n == es.len() {
        assert(es.take(n) =~= es);
    } else {
        assert(es.take(n + 1).drop_last() =~= es.take(n));
        lemma_grouped_failure_stays(es, n + 1);
    }
}

/// Each table's columns are distinct.
pub open spec fn tables_wf(ts: Seq<NamedTable>) -> bool {
    &&& forall|i: int| 0 <= i < ts.len() ==> (#[trigger] ts[i]).data.wf()
    &&& table_names(tables_model(ts)).no_duplicates()
}

/// The position of the table with the given name, if there is one.
fn find_table(tables: &Vec<NamedTable>, name: &String) -> (r: Option<usize>)
    ensures
        match r {
            Some(i) => i < tables@.len() && tables@[i as int].name@ == name@,
            None => !table_names(tables_model(tables@)).contains(name@),
        },
{
    let mut i: usize = 0;
    while i < tables.len()
        invariant
            0 <= i <= tables@.len(),
            forall|j: int| 0 <= j < i ==> tables@[j].name@ != name@,
        decreases tables@.len() - i,
    {
        if tables[i].name == *name {
            return Some(i);
        }
        i = i + 1;
    }
    proof {
        let names = table_names(tables_model(tables@));
        if names.contains(name@) {
            let k = choose|k: int| 0 <= k < names.len() && names[k] == name@;
            assert(tables@[k].name@ == name@);
        }
    }
    None
}

/// Groups the records by table name. A table's columns are the distinct cell
/// names of its records in first-seen order, with the key column first.
/// Fails on the first record that leaves its table without a key column.
pub fn group_tables(entries: &Vec<TableEntry>) -> (r: Result<Vec<NamedTable>, ConvertError>)
    ensures
        match r {
            Ok(ts) => grouped(entries@) == Ok::<Seq<TableModel>, int>(tables_model(ts@)) && tables_wf(ts@),
            Err(e) => grouped(entries@) matches Err(k) && e matches ConvertError::MissingKeyColumn { table, record }
                && record == k && 0 <= k < entries@.len() && table@ == entries@[k].name@,
        },
{
    let mut tables: Vec<NamedTable> = Vec::new();
    let mut j: usize = 0;
    assert(tables_model(tables@) =~= Seq::<TableModel>::empty());
    assert(entries@.take(0) =~= Seq::<TableEntry>::empty());
    while j < entries.len()
        invariant
            0 <= j <= entries@.len(),
            grouped(entries@.take(j as int)) == Ok::<Seq<TableModel>, int>(tables_model(tables@)),
            tables_wf(tables@),
        decreases entries@.len() - j,
    {
        let entry = &entries[j];
        let ghost pre = tables@;
        let ghost ts = tables_model(pre);
        proof {
            assert(entries@.take(j + 1).drop_last() =~= entries@.take(j as int));
            assert(entries@.take(j + 1).last() == *entry);
        }
        match find_table(&tables, &entry.name) {
            Some(i) => {
                let mut t = tables.remove(i);
                proof {
                    assert(table_names(ts)[i as int] == entry.name@);
                    let q = table_position(ts, entry.name@);
                    assert(table_names(ts)[q] == entry.name@);
                    assert(q == i);
                    assert(t == pre[i as int]);
                }
                match t.data.add_entry(entry, j) {
                    Ok(()) => {},
                    Err(e) => {
                        proof {
                            lemma_grouped_failure_stays(entries@, j + 1);
                        }
                        return Err(e);
                    },
                }
                tables.insert(i, t);
                proof {
                    assert(tables@ =~= pre.update(i as int, t));
                    assert(tables_model(tables@) =~= ts.update(i as int, table_model(t)));
                    assert(table_names(tables_model(tables@)) =~= table_names(ts));
                }
            },
            None => {
                let mut data = TableDataSet::new();
                match data.add_entry(entry, j) {
                    Ok(()) => {},
                    Err(e) => {
                        proof {
                            lemma_grouped_failure_stays(entries@, j + 1);
                        }
                        return Err(e);
                    },
                }
                let t = NamedTable { name: entry.name.clone(), data };
                tables.push(t);
                proof {
                    assert(tables_model(tables@) =~= ts.push(table_model(t)));
                    assert(table_names(tables_model(tables@)) =~= table_names(ts).push(entry.name@));
                    assert(seq![j] =~= Seq::<usize>::empty().push(j));
                }
            },
        }
        j = j + 1;
    }
    assert(entries@.take(j as int) =~= entries@);
    Ok(tables)
}

} // verus!
