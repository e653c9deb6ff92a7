//! The catalog: tables by name, and for each table its columns and rows.

use std::sync::{Arc, Mutex};
use vstd::prelude::*;
use vstd::string::*;
use crate::data_type::{Data, DataType};
use crate::storage::Storage;
use crate::sync::{new_lock, share};

verus! {

/// What a column is: its name, its type, and whether the system added it.
pub struct ColumnView {
    pub name: Seq<char>,
    pub data_type: DataType,
    pub system: bool,
}

/// A column of a table.
#[derive(Debug)]
pub struct Column {
    name: String,
    data_type: DataType,
    system: bool,
}

impl View for Column {
    type V = ColumnView;

    closed spec fn view(&self) -> ColumnView {
        ColumnView { name: self.name@, data_type: self.data_type, system: self.system }
    }
}

impl Column {
    /// Creates a column.
    pub fn new(name: &str, data_type: DataType, system: bool) -> (column: Column)
        ensures
            column@ == (ColumnView { name: name@, data_type: data_type, system: system }),
    {
        Column { name: name.to_owned(), data_type: data_type, system: system }
    }
}

/// Whether one of `columns` has the given name.
pub open spec fn has_column(columns: Seq<ColumnView>, name: Seq<char>) -> bool {
    exists|i: int| 0 <= i < columns.len() && (#[trigger] columns[i]).name == name
}

/// Whether no two of `columns` have the same name.
pub open spec fn distinct_names(columns: Seq<ColumnView>) -> bool {
    forall|i: int, j: int|
        0 <= i < j < columns.len() ==> (#[trigger] columns[i]).name != (#[trigger] columns[j]).name
}

/// The message for a column whose name a table already has.
pub open spec fn duplicate_column_message(column: Seq<char>, table: Seq<char>) -> Seq<char> {
    "Column with the name '"@ + column + "' already exists in table '"@ + table + "'"@
}

/// The column that every table gets from the system.
pub open spec fn flags_column() -> ColumnView {
    ColumnView { name: "_flags"@, data_type: DataType::INTEGER, system: true }
}

/// The views of the given columns.
pub open spec fn views_of(columns: Seq<Arc<Column>>) -> Seq<ColumnView> {
    Seq::new(columns.len(), |i: int| columns[i]@)
}

/// The position of the column with the given name, if there is one.
fn find_column(columns: &Vec<Arc<Column>>, name: &String) -> (found: Option<usize>)
    ensures
        match found {
            Some(i) => i < columns@.len() && columns@[i as int]@.name == name@,
            None => !has_column(views_of(columns@), name@),
        },
{
    let mut i: usize = 0;
    while i < columns.len()
        invariant
            i <= columns@.len(),
            forall|k: int| 0 <= k < i ==> (#[trigger] columns@[k])@.name != name@,
        decreases columns@.len() - i,
    {
        if columns[i].name == *name {
            return Some(i);
        }
        i += 1;
    }
    assert forall|k: int| 0 <= k < views_of(columns@).len() implies (#[trigger] views_of(
        columns@,
    )[k]).name != name@ by {
        assert(columns@[k]@.name != name@);
    }
    None
}

/// Puts the message for a duplicate column together.
fn duplicate_column(column: &String, table: &String) -> (message: String)
    ensures
        message@ == duplicate_column_message(column@, table@),
{
    String::from_str("Column with the name '").concat(column.as_str()).concat(
        "' already exists in table '",
    ).concat(table.as_str()).concat("'")
}

/// Adds `column` to `columns`, unless one of them has its name.
fn push_column(columns: &mut Vec<Arc<Column>>, column: Column, table: &String) -> (res: Result<
    (),
    String,
>)
    requires
        distinct_names(views_of(old(columns)@)),
    ensures
        distinct_names(views_of(final(columns)@)),
        has_column(views_of(old(columns)@), column@.name) ==> {
            &&& res is Err
            &&& res->Err_0@ == duplicate_column_message(column@.name, table@)
            &&& final(columns)@ == old(columns)@
        },
        !has_column(views_of(old(columns)@), column@.name) ==> {
            &&& res is Ok
            &&& views_of(final(columns)@) == views_of(old(columns)@).push(column@)
        },
{
    match find_column(columns, &column.name) {
        Some(i) => {
            assert(views_of(columns@)[i as int].name == column@.name);
            Err(duplicate_column(&column.name, table))
        },
        None => {
            columns.push(Arc::new(column));
            assert(views_of(columns@) =~= views_of(old(columns)@).push(column@));
            assert forall|i: int, j: int| 0 <= i < j < views_of(columns@).len() implies (
            #[trigger] views_of(columns@)[i]).name != (#[trigger] views_of(columns@)[j]).name by {
                if j == old(columns)@.len() {
                    assert(views_of(old(columns)@)[i].name != column@.name);
                } else {
                    assert(views_of(old(columns)@)[i].name != views_of(old(columns)@)[j].name);
                }
            }
            Ok(())
        },
    }
}

/// What a table is to be made of: a name and columns, in the order in which
/// they were added.
#[derive(Debug, Clone)]
pub struct TableConfiguration {
    name: String,
    columns: Vec<Arc<Column>>,
}

impl TableConfiguration {
    /// The table's name.
    pub closed spec fn name(&self) -> Seq<char> {
        self.name@
    }

    /// The columns, in the order in which they were added.
    pub closed spec fn columns(&self) -> Seq<ColumnView> {
        views_of(self.columns@)
    }

    /// The invariant: no two columns have the same name.
    pub open spec fn wf(&self) -> bool {
        distinct_names(self.columns())
    }

    /// Creates new TableConfiguration.
    pub fn new(name: &str) -> (cfg: TableConfiguration)
        ensures
            cfg.wf(),
            cfg.name() == name@,
            cfg.columns() == Seq::<ColumnView>::empty(),
    {
        let cfg = TableConfiguration { name: name.to_owned(), columns: Vec::new() };
        assert(cfg.columns() =~= Seq::<ColumnView>::empty());
        cfg
    }

    /// Adds new column to the table, behind those that it has. A column
    /// whose name the table already has is refused, and nothing changes.
    pub fn add_column(&mut self, column: Column) -> (res: Result<(), String>)
        requires
            old(self).wf(),
        ensures
            final(self).wf(),
            final(self).name() == old(self).name(),
            has_column(old(self).columns(), column@.name) ==> {
                &&& res is Err
                &&& res->Err_0@ == duplicate_column_message(column@.name, old(self).name())
                &&& final(self).columns() == old(self).columns()
            },
            !has_column(old(self).columns(), column@.name) ==> {
                &&& res is Ok
                &&& final(self).columns() == old(self).columns().push(column@)
            },
    {
        push_column(&mut self.columns, column, &self.name)
    }
}

/// A table: its name, its columns, and its rows.
#[derive(Debug)]
pub struct Table {
    name: String,
    columns: Vec<Arc<Column>>,
    storage: Storage<Vec<Data>>,
}

impl Table {
    /// The table's name.
    pub closed spec fn spec_name(&self) -> Seq<char> {
        self.name@
    }

    /// The columns, in the order in which they were added.
    pub closed spec fn columns(&self) -> Seq<ColumnView> {
        views_of(self.columns@)
    }

    /// The handles to the rows, in the order in which they were inserted.
    pub closed spec fn rows(&self) -> Seq<Arc<Mutex<Vec<Data>>>> {
        self.storage@
    }

    /// The invariant: no two columns have the same name.
    pub open spec fn wf(&self) -> bool {
        distinct_names(self.columns())
    }

    /// Creates new table: one with the configured columns and, behind them,
    /// the system's. A configuration that already has a column with the
    /// name of a system column is refused.
    pub fn new(cfg: TableConfiguration) -> (res: Result<Table, String>)
        requires
            cfg.wf(),
        ensures
            has_column(cfg.columns(), flags_column().name) ==> res is Err && res->Err_0@
                == duplicate_column_message(flags_column().name, cfg.name()),
            !has_column(cfg.columns(), flags_column().name) ==> {
                &&& res is Ok
                &&& res->Ok_0.wf()
                &&& res->Ok_0.spec_name() == cfg.name()
                &&& res->Ok_0.columns() == cfg.columns().push(flags_column())
                &&& res->Ok_0.rows() == Seq::<Arc<Mutex<Vec<Data>>>>::empty()
            },
    {
        let mut table = Table { name: cfg.name, columns: cfg.columns, storage: Storage::new() };
        match table.add_system_columns() {
            Ok(()) => Ok(table),
            Err(message) => Err(message),
        }
    }

    /// Adds system columns to the new table.
    fn add_system_columns(&mut self) -> (res: Result<(), String>)
        requires
            old(self).wf(),
        ensures
            final(self).wf(),
            final(self).spec_name() == old(self).spec_name(),
            final(self).rows() == old(self).rows(),
            has_column(old(self).columns(), flags_column().name) ==> {
                &&& res is Err
                &&& res->Err_0@ == duplicate_column_message(
                    flags_column().name,
                    old(self).spec_name(),
                )
                &&& final(self).columns() == old(self).columns()
            },
            !has_column(old(self).columns(), flags_column().name) ==> {
                &&& res is Ok
                &&& final(self).columns() == old(self).columns().push(flags_column())
            },
    {
        self.add_column(Column::new("_flags", DataType::INTEGER, true))
    }

    /// Adds new column to the table.
    fn add_column(&mut self, column: Column) -> (res: Result<(), String>)
        requires
            old(self).wf(),
        ensures
            final(self).wf(),
            final(self).spec_name() == old(self).spec_name(),
            final(self).rows() == old(self).rows(),
            has_column(old(self).columns(), column@.name) ==> {
                &&& res is Err
                &&& res->Err_0@ == duplicate_column_message(column@.name, old(self).spec_name())
                &&& final(self).columns() == old(self).columns()
            },
            !has_column(old(self).columns(), column@.name) ==> {
                &&& res is Ok
                &&& final(self).columns() == old(self).columns().push(column@)
            },
    {
        push_column(&mut self.columns, column, &self.name)
    }

    /// Insert row into table, behind the rows that it has.
    pub fn insert_row(&mut self, row: Vec<Data>) -> (res: Result<(), String>)
        ensures
            res is Ok,
            final(self).spec_name() == old(self).spec_name(),
            final(self).columns() == old(self).columns(),
            final(self).rows().len() == old(self).rows().len() + 1,
            final(self).rows().drop_last() == old(self).rows(),
    {
        let _ = self.storage.insert(row);
        assert(self.rows().drop_last() =~= old(self).rows());
        Ok(())
    }

    /// The table's name.
    pub fn name(&self) -> (name: &str)
        ensures
            name@ == self.spec_name(),
    {
        self.name.as_str()
    }

    /// The number of rows.
    pub fn row_count(&self) -> (count: usize)
        ensures
            count == self.rows().len(),
    {
        self.storage.len()
    }
}

/// The position of `name` among `names`, where it is one of them.
pub open spec fn position_of(names: Seq<String>, name: Seq<char>) -> int {
    choose|i: int| 0 <= i < names.len() && (#[trigger] names[i])@ == name
}

/// Whether `name` is one of `names`.
pub open spec fn has_name(names: Seq<String>, name: Seq<char>) -> bool {
    exists|i: int| 0 <= i < names.len() && (#[trigger] names[i])@ == name
}

/// The tables of a database: each behind a lock of its own, and found by
/// its name.
#[derive(Debug)]
pub struct Database {
    names: Vec<String>,
    tables: Vec<Arc<Mutex<Table>>>,
}

impl View for Database {
    type V = Map<Seq<char>, Arc<Mutex<Table>>>;

    /// The handle to each table, by the table's name.
    closed spec fn view(&self) -> Map<Seq<char>, Arc<Mutex<Table>>> {
        Map::new(
            |name: Seq<char>| has_name(self.names@, name),
            |name: Seq<char>| self.tables@[position_of(self.names@, name)],
        )
    }
}

impl Database {
    /// The invariant: every table has a name, and no two have the same.
    pub closed spec fn wf(&self) -> bool {
        &&& self.names@.len() == self.tables@.len()
        &&& forall|i: int, j: int|
            0 <= i < j < self.names@.len() ==> (#[trigger] self.names@[i])@ != (
            #[trigger] self.names@[j])@
    }

    /// Creates new Database.
    pub fn new() -> (database: Database)
        ensures
            database.wf(),
            database@ == Map::<Seq<char>, Arc<Mutex<Table>>>::empty(),
    {
        let database = Database { names: Vec::new(), tables: Vec::new() };
        assert(database@ =~= Map::<Seq<char>, Arc<Mutex<Table>>>::empty());
        database
    }

    /// The position of the table with the given name, if there is one.
    fn find_table(&self, name: &String) -> (found: Option<usize>)
        requires
            self.wf(),
        ensures
            match found {
                Some(i) => i < self.names@.len() && self.names@[i as int]@ == name@
                    && position_of(self.names@, name@) == i,
                None => !has_name(self.names@, name@),
            },
    {
        let mut i: usize = 0;
        while i < self.names.len()
            invariant
                self.wf(),
                i <= self.names@.len(),
                forall|k: int| 0 <= k < i ==> (#[trigger] self.names@[k])@ != name@,
            decreases self.names@.len() - i,
        {
            if self.names[i] == *name {
                proof {
                    let at = position_of(self.names@, name@);
                    assert(self.names@[i as int]@ == name@);
                    assert(self.names@[at]@ == name@);
                    if at < i {
                        assert(self.names@[at]@ != self.names@[i as int]@);
                    } else if i < at {
                        assert(self.names@[i as int]@ != self.names@[at]@);
                    }
                }
                return Some(i);
            }
            i += 1;
        }
        None
    }

    /// Creates new table in Database using provided configuration, and
    /// returns the handle to it. A table of the same name that the database
    /// had is replaced. A configuration that cannot become a table is
    /// refused, and nothing changes.
    pub fn create_table(&mut self, cfg: TableConfiguration) -> (res: Result<
        Arc<Mutex<Table>>,
        String,
    >)
        requires
            old(self).wf(),
            cfg.wf(),
        ensures
            final(self).wf(),
            has_column(cfg.columns(), flags_column().name) ==> {
                &&& res is Err
                &&& res->Err_0@ == duplicate_column_message(flags_column().name, cfg.name())
                &&& final(self)@ == old(self)@
            },
            !has_column(cfg.columns(), flags_column().name) ==> {
                &&& res is Ok
                &&& final(self)@ == old(self)@.insert(cfg.name(), res->Ok_0)
            },
    {
        let name = cfg.name.clone();
        let table = match Table::new(cfg) {
            Ok(table) => table,
            Err(message) => {
                return Err(message);
            },
        };
        let slot = Arc::new(new_lock(table));
        let handle = share(&slot);
        match self.find_table(&name) {
            Some(i) => {
                self.tables[i] = slot;
                assert forall|key: Seq<char>| has_name(self.names@, key) implies self.tables@[position_of(
                    self.names@,
                    key,
                )] == old(self)@.insert(name@, handle)[key] by {
                    let at = position_of(self.names@, key);
                    if key != name@ {
                        assert(at != i);
                    }
                }
            },
            None => {
                self.names.push(name);
                self.tables.push(slot);
                assert(self.names@.last()@ == name@);
                assert forall|key: Seq<char>| has_name(self.names@, key) <==> (key == name@
                    || has_name(old(self).names@, key)) by {
                    if has_name(self.names@, key) {
                        let at = position_of(self.names@, key);
                        if at < old(self).names@.len() {
                            assert(old(self).names@[at]@ == key);
                        }
                    }
                    if has_name(old(self).names@, key) {
                        let at = position_of(old(self).names@, key);
                        assert(self.names@[at]@ == key);
                    }
                }
                assert forall|key: Seq<char>| has_name(self.names@, key) implies self.tables@[position_of(
                    self.names@,
                    key,
                )] == old(self)@.insert(name@, handle)[key] by {
                    let at = position_of(self.names@, key);
                    if key != name@ {
                        let was = position_of(old(self).names@, key);
                        assert(self.names@[was]@ == key);
                        assert(at == was);
                    }
                }
            },
        }
        assert(self@ =~= old(self)@.insert(name@, handle));
        Ok(handle)
    }

    /// Get table.
    pub fn get_table(&self, name: &str) -> (table: Option<&Arc<Mutex<Table>>>)
        requires
            self.wf(),
        ensures
            self@.contains_key(name@) ==> table == Some(&self@[name@]),
            !self@.contains_key(name@) ==> table is None,
    {
        match self.find_table(&name.to_owned()) {
            Some(i) => Some(&self.tables[i]),
            None => None,
        }
    }
}

} // verus!
