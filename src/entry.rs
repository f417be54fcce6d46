use vstd::prelude::*;

verus! {

/// One named value of a record.
pub struct Cell {
    pub name: String,
    pub value: String,
}

/// One table record: the table it belongs to and its cells, in the order in
/// which their names first appeared.
pub struct TableEntry {
    pub name: String,
    pub cells: Vec<Cell>,
}

/// The names of a record's cells, in order.
pub open spec fn cell_names(e: TableEntry) -> Seq<Seq<char>> {
    e.cells@.map_values(|c: Cell| c.name@)
}

/// The position of the record's first cell with the given name, where it has one.
pub open spec fn cell_index(e: TableEntry, column: Seq<char>) -> int {
    choose|i: int|
        0 <= i < e.cells@.len() && e.cells@[i].name@ == column && forall|j: int|
            0 <= j < i ==> e.cells@[j].name@ != column
}

/// The value that a record holds for a column (its first cell of that name),
/// or the empty text.
pub open spec fn cell_value(e: TableEntry, column: Seq<char>) -> Seq<char> {
    if cell_names(e).contains(column) {
        e.cells@[cell_index(e, column)].value@
    } else {
        Seq::empty()
    }
}

/// A record as plain values: its table name and its (name, value) cells.
pub type EntryView = (Seq<char>, Seq<(Seq<char>, Seq<char>)>);

pub open spec fn entry_view(e: TableEntry) -> EntryView {
    (e.name@, e.cells@.map_values(|c: Cell| (c.name@, c.value@)))
}

/// A position of the cell with the given name, where there is one.
pub open spec fn cell_slot(cells: Seq<(Seq<char>, Seq<char>)>, name: Seq<char>) -> int {
    choose|i: int| 0 <= i < cells.len() && cells[i].0 == name
}

/// Whether the cells hold one with the given name.
pub open spec fn has_cell(cells: Seq<(Seq<char>, Seq<char>)>, name: Seq<char>) -> bool {
    exists|i: int| 0 <= i < cells.len() && cells[i].0 == name
}

/// The cells with `name` set to `value`: in place where the name is present,
/// appended where it is not.
pub open spec fn put_cell(cells: Seq<(Seq<char>, Seq<char>)>, name: Seq<char>, value: Seq<char>) -> Seq<(Seq<char>, Seq<char>)> {
    if has_cell(cells, name) {
        cells.update(cell_slot(cells, name), (name, value))
    } else {
        cells.push((name, value))
    }
}

/// The value found for a cell's name is that cell's when no earlier cell
/// has the name.
pub proof fn lemma_cell_value_first(e: TableEntry, i: int)
    requires
        0 <= i < e.cells@.len(),
        forall|j: int| 0 <= j < i ==> e.cells@[j].name@ != e.cells@[i].name@,
    ensures
        cell_value(e, e.cells@[i].name@) == e.cells@[i].value@,
{
    let column = e.cells@[i].name@;
    assert(cell_names(e)[i] == column);
    assert(cell_names(e).contains(column));
    let c = cell_index(e, column);
    assert(0 <= c < e.cells@.len() && e.cells@[c].name@ == column);
    if c < i {
        assert(e.cells@[c].name@ != column);
    }
    if c > i {
        assert(e.cells@[i].name@ != column);
    }
    assert(c == i);
}

/// In a well-formed record, the value found for a cell's name is that cell's.
pub proof fn lemma_cell_value_at(e: TableEntry, i: int)
    requires
        e.wf(),
        0 <= i < e.cells@.len(),
    ensures
        cell_value(e, e.cells@[i].name@) == e.cells@[i].value@,
{
    assert forall|j: int| 0 <= j < i implies e.cells@[j].name@ != e.cells@[i].name@ by {
        assert(cell_names(e)[j] == e.cells@[j].name@);
        assert(cell_names(e)[i] == e.cells@[i].name@);
    };
    lemma_cell_value_first(e, i);
}

impl TableEntry {
    /// A record is well formed when no two of its cells share a name.
    pub open spec fn wf(&self) -> bool {
        cell_names(*self).no_duplicates()
    }

    pub fn new(name: String) -> (r: TableEntry)
        ensures
            r.name@ == name@,
            r.cells@.len() == 0,
            r.wf(),
    {
        TableEntry { name, cells: Vec::new() }
    }

    /// The position of the cell with the given name, if the record has one.
    pub fn find_cell(&self, name: &String) -> (r: Option<usize>)
        ensures
            match r {
                Some(i) => i < self.cells@.len() && self.cells@[i as int].name@ == name@ && forall|j: int|
                    0 <= j < i ==> self.cells@[j].name@ != name@,
                None => !cell_names(*self).contains(name@),
            },
    {
        let mut i: usize = 0;
        while i < self.cells.len()
            invariant
                0 <= i <= self.cells@.len(),
                forall|j: int| 0 <= j < i ==> self.cells@[j].name@ != name@,
            decreases self.cells@.len() - i,
        {
            if self.cells[i].name == *name {
                return Some(i);
            }
            i = i + 1;
        }
        proof {
            if cell_names(*self).contains(name@) {
                let k = choose|k: int| 0 <= k < cell_names(*self).len() && cell_names(*self)[k] == name@;
                assert(self.cells@[k].name@ == name@);
            }
        }
        None
    }

    /// Sets a cell. A name already present keeps its place and takes the new
    /// value; a new name is appended. Returns whether the name was present.
    pub fn insert_cell(&mut self, name: String, value: String) -> (replaced: bool)
        requires
            old(self).wf(),
        ensures
            final(self).wf(),
            final(self).name == old(self).name,
            replaced == cell_names(*old(self)).contains(name@),
            replaced ==> cell_names(*final(self)) == cell_names(*old(self)),
            !replaced ==> cell_names(*final(self)) == cell_names(*old(self)).push(name@),
            cell_value(*final(self), name@) == value@,
            forall|n: Seq<char>| n != name@ ==> cell_value(*final(self), n) == cell_value(*old(self), n),
            replaced == has_cell(entry_view(*old(self)).1, name@),
            entry_view(*final(self)) == (old(self).name@, put_cell(entry_view(*old(self)).1, name@, value@)),
    {
        let ghost pre = *self;
        let ghost names = cell_names(pre);
        let ghost key = name@;
        let ghost val = value@;
        let ghost cv = entry_view(pre).1;
        match self.find_cell(&name) {
            Some(i) => {
                self.cells.set(i, Cell { name, value });
                proof {
                    let post = *self;
                    assert(cell_names(post) =~= names);
                    assert(names[i as int] == key);
                    assert(names.contains(key));
                    assert forall|n: Seq<char>| n != key implies cell_value(post, n) == cell_value(pre, n) by {
                        if names.contains(n) {
                            let a = choose|a: int| 0 <= a < names.len() && names[a] == n;
                            lemma_cell_value_at(pre, a);
                            lemma_cell_value_at(post, a);
                        }
                    };
                    lemma_cell_value_at(post, i as int);
                    assert(cv[i as int].0 == key);
                    assert(has_cell(cv, key));
                    let sl = cell_slot(cv, key);
                    assert(names[sl] == cv[sl].0);
                    assert(sl == i);
                    assert(entry_view(post).1 =~= put_cell(cv, key, val));
                }
                true
            },
            None => {
                self.cells.push(Cell { name, value });
                proof {
                    let post = *self;
                    let last = post.cells@.len() - 1;
                    assert(cell_names(post) =~= names.push(key));
                    assert forall|n: Seq<char>| n != key implies cell_value(post, n) == cell_value(pre, n) by {
                        if names.contains(n) {
                            let a = choose|a: int| 0 <= a < names.len() && names[a] == n;
                            lemma_cell_value_at(pre, a);
                            lemma_cell_value_at(post, a);
                        } else if cell_names(post).contains(n) {
                            let b = choose|b: int| 0 <= b < cell_names(post).len() && cell_names(post)[b] == n;
                            assert(names[b] == n);
                        }
                    };
                    lemma_cell_value_at(post, last);
                    if has_cell(cv, key) {
                        let sl = choose|sl: int| 0 <= sl < cv.len() && cv[sl].0 == key;
                        assert(names[sl] == key);
                    }
                    assert(entry_view(post).1 =~= put_cell(cv, key, val));
                }
                false
            },
        }
    }
}

} // verus!
