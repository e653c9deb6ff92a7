use dbcore::data_type::{Data, DataType};
use dbcore::database::{Column, Database, TableConfiguration};
use dbcore::protocol::deserialize_stream::DeserializeStream;
use dbcore::protocol::serialize_stream::SerializeStream;
use dbcore::storage::{MemoryPage, Storage};
use std::sync::Arc;

#[test]
fn create_empty_table() {
    let mut database = Database::new();

    let cfg = TableConfiguration::new("Table1");

    let table = database.create_table(cfg).expect("should not fail");

    assert!(table.lock().unwrap().name() == "Table1");
}

#[test]
fn create_table_with_columns() {
    let mut database = Database::new();

    let mut cfg = TableConfiguration::new("SomeTable");
    cfg.add_column(Column::new("foo", DataType::INTEGER, false)).expect("should not fail");
    cfg.add_column(Column::new("bar", DataType::BOOLEAN, false)).expect("should not fail");
    cfg.add_column(Column::new("baz", DataType::VARCHAR, false)).expect("should not fail");

    let table = database.create_table(cfg).expect("should not fail");

    assert!(table.lock().unwrap().name() == "SomeTable");
}

#[test]
fn insert_single_row() {
    let table_name = "TestTable";

    let mut database = Database::new();

    let mut cfg = TableConfiguration::new(table_name);
    cfg.add_column(Column::new("c1", DataType::INTEGER, false)).expect("should not fail");
    cfg.add_column(Column::new("c2", DataType::VARCHAR, false)).expect("should not fail");
    cfg.add_column(Column::new("c3", DataType::BOOLEAN, false)).expect("should not fail");

    database.create_table(cfg).expect("should not fail");

    let table = database.get_table(table_name).expect("should return table");

    let row = vec![Data::INTEGER(6), Data::EMPTY, Data::BOOLEAN(true)];

    table.lock().unwrap().insert_row(row).expect("should not fail");
}

#[test]
fn a_second_column_of_the_same_name_is_refused() {
    let mut cfg = TableConfiguration::new("orders");
    assert_eq!(cfg.add_column(Column::new("id", DataType::INTEGER, false)), Ok(()));
    assert_eq!(cfg.add_column(Column::new("total", DataType::BIGINT, false)), Ok(()));
    assert_eq!(
        cfg.add_column(Column::new("id", DataType::VARCHAR, true)),
        Err("Column with the name 'id' already exists in table 'orders'".to_string())
    );
    assert_eq!(cfg.add_column(Column::new("Id", DataType::VARCHAR, false)), Ok(()));
    assert_eq!(
        cfg.add_column(Column::new("total", DataType::BIGINT, false)),
        Err("Column with the name 'total' already exists in table 'orders'".to_string())
    );
}

#[test]
fn a_table_gets_the_flags_column_from_the_system() {
    let mut database = Database::new();
    let mut cfg = TableConfiguration::new("t");
    cfg.add_column(Column::new("_flags", DataType::INTEGER, false)).unwrap();
    assert_eq!(
        database.create_table(cfg).unwrap_err(),
        "Column with the name '_flags' already exists in table 't'"
    );
    assert!(database.get_table("t").is_none());
}

#[test]
fn tables_are_found_by_name() {
    let mut database = Database::new();
    assert!(database.get_table("a").is_none());
    let a = database.create_table(TableConfiguration::new("a")).unwrap();
    let b = database.create_table(TableConfiguration::new("b")).unwrap();
    assert!(Arc::ptr_eq(database.get_table("a").unwrap(), &a));
    assert!(Arc::ptr_eq(database.get_table("b").unwrap(), &b));
    assert!(database.get_table("c").is_none());
    assert!(database.get_table("").is_none());
    assert_eq!(database.get_table("b").unwrap().lock().unwrap().name(), "b");
}

#[test]
fn a_new_table_of_the_same_name_replaces_the_old_one() {
    let mut database = Database::new();
    let first = database.create_table(TableConfiguration::new("a")).unwrap();
    let other = database.create_table(TableConfiguration::new("b")).unwrap();
    first.lock().unwrap().insert_row(vec![Data::EMPTY]).unwrap();
    let second = database.create_table(TableConfiguration::new("a")).unwrap();
    assert!(!Arc::ptr_eq(&first, &second));
    assert!(Arc::ptr_eq(database.get_table("a").unwrap(), &second));
    assert!(Arc::ptr_eq(database.get_table("b").unwrap(), &other));
    assert_eq!(first.lock().unwrap().row_count(), 1);
    assert_eq!(second.lock().unwrap().row_count(), 0);
}

#[test]
fn rows_are_counted_as_they_are_inserted() {
    let mut database = Database::new();
    let table = database.create_table(TableConfiguration::new("t")).unwrap();
    let mut table = table.lock().unwrap();
    assert_eq!(table.row_count(), 0);
    assert_eq!(table.insert_row(vec![Data::INTEGER(6)]), Ok(()));
    assert_eq!(
        table.insert_row(vec![
            Data::VARCHAR("x".to_string()),
            Data::VARBINARY(vec![1, 2]),
            Data::FLOAT(0.5f64.to_bits()),
            Data::SMALLINT(-1),
            Data::BIGINT(1 << 40),
        ]),
        Ok(())
    );
    assert_eq!(table.row_count(), 2);
}

#[test]
fn storage_appends_rows_and_hands_out_their_handles() {
    let mut storage: Storage<MemoryPage> = Storage::new();
    assert_eq!(storage.len(), 0);
    assert!(storage.get(0).is_none());

    let mut handles = Vec::new();
    for value in [10, 20, 30] {
        let mut page = MemoryPage::new(4);
        SerializeStream::new(&mut page, 0).write_int(value).unwrap();
        handles.push(storage.insert(page));
        assert_eq!(storage.len(), handles.len());
    }
    for (row, value) in [10, 20, 30].iter().enumerate() {
        let found = storage.get(row).unwrap();
        assert!(Arc::ptr_eq(found, &handles[row]));
        let page = found.lock().unwrap();
        assert_eq!(DeserializeStream::new(&page, 0).read_int(), Ok(*value));
    }
    assert!(storage.get(3).is_none());
}

#[test]
fn a_row_can_be_changed_through_its_handle() {
    let mut storage: Storage<MemoryPage> = Storage::new();
    let first = storage.insert(MemoryPage::new(2));
    let second = storage.insert(MemoryPage::new(2));
    {
        let mut page = first.lock().unwrap();
        SerializeStream::new(&mut page, 0).write_smallint(0x0102).unwrap();
    }
    assert_eq!(storage.get(0).unwrap().lock().unwrap().data(), &[2, 1]);
    assert_eq!(second.lock().unwrap().data(), &[0, 0]);
    assert_eq!(storage.get(1).unwrap().lock().unwrap().data(), &[0, 0]);
}
