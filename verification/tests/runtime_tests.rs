use incresql::data::{DataType, Datum, LogicalTimestamp, SortOrder};
use incresql::runtime::{QueryError, Runtime};
use incresql::storage::{Entry, Storage, Table, WriteBatch};

#[test]
fn test_new_connection() {
    let mut runtime = Runtime::new_for_test().unwrap();
    let connection_1 = runtime.new_connection().unwrap();
    let connection_2 = runtime.new_connection().unwrap();

    assert_ne!(connection_1, connection_2);

    assert_eq!(connection_2, runtime.session(connection_2).unwrap().connection_id);
}

#[test]
fn test_connection_kill() {
    let mut runtime = Runtime::new_for_test().unwrap();
    let connection_1 = runtime.new_connection().unwrap();

    assert_eq!(runtime.session(connection_1).unwrap().kill_flag, false);

    runtime.kill_connection(connection_1);

    assert_eq!(runtime.session(connection_1).unwrap().kill_flag, true);
}

#[test]
fn test_connection_drop() {
    let mut runtime = Runtime::new_for_test().unwrap();
    let connection_1 = runtime.new_connection().unwrap();
    let connection_2 = runtime.new_connection().unwrap();

    assert_eq!(runtime.connection_count(), 2);

    runtime.remove_connection(connection_1);
    runtime.remove_connection(connection_2);

    assert_eq!(runtime.connection_count(), 0);
}

#[test]
fn a_killed_connection_stops_its_statements() {
    let mut runtime = Runtime::new_for_test().unwrap();
    let killed = runtime.new_connection().unwrap();
    let other = runtime.new_connection().unwrap();
    runtime.kill_connection(killed);
    assert!(matches!(
        runtime.execute(killed, "SELECT 1"),
        Err(QueryError::ExecutionError(incresql::executor::ExecutionError::Killed))
    ));
    assert!(runtime.execute(other, "SELECT 1").is_ok());
    assert!(matches!(runtime.execute(77, "SELECT 1"), Err(QueryError::UnknownConnection(77))));
}

#[test]
fn use_changes_the_database_of_one_session() {
    let mut runtime = Runtime::new_for_test().unwrap();
    let a = runtime.new_connection().unwrap();
    let b = runtime.new_connection().unwrap();
    runtime.execute(a, "CREATE DATABASE other").unwrap();
    runtime.execute(a, "USE other").unwrap();
    assert_eq!(runtime.session(a).unwrap().current_database, "other");
    assert_eq!(runtime.session(b).unwrap().current_database, "default");
    let mut result = runtime.execute(a, "SELECT database(), connection_id()").unwrap();
    assert_eq!(result.render(), format!("|other|{}|\n", a));
}

#[test]
fn a_row_that_is_written_is_read_and_one_taken_back_is_gone() {
    let mut storage = Storage::new_in_mem();
    let table: Table = storage.table(
        10,
        vec![("a".to_string(), DataType::Integer), ("b".to_string(), DataType::Text)],
        vec![SortOrder::Desc],
    );
    let row = [Datum::from(7), Datum::from("seven")];
    let mut batch = WriteBatch::new();
    batch.write_tuple(&table, &row, LogicalTimestamp::new(100), 1).unwrap();
    storage.atomic_write(batch);

    let key = [Datum::from(7)];
    let mut found = table
        .range_scan(&storage, Some(&key), Some(&key), LogicalTimestamp::new(100))
        .unwrap();
    assert_eq!(found.next(), Some((row.as_ref(), 1)));
    assert_eq!(found.next(), None);
    // Before the row was written it is not there.
    let mut earlier = table.full_scan(&storage, LogicalTimestamp::new(99)).unwrap();
    assert_eq!(earlier.next(), None);

    let mut batch = WriteBatch::new();
    batch.write_tuple(&table, &row, LogicalTimestamp::new(101), -1).unwrap();
    storage.atomic_write(batch);
    let mut gone = table
        .range_scan(&storage, Some(&key), Some(&key), LogicalTimestamp::new(101))
        .unwrap();
    assert_eq!(gone.next(), None);
    // At the earlier time the row still stands.
    let mut still = table.full_scan(&storage, LogicalTimestamp::new(100)).unwrap();
    assert_eq!(still.next(), Some((row.as_ref(), 1)));
    assert_eq!(storage.len(), 2);
}

#[test]
fn scans_go_in_key_order_and_sum_frequencies() {
    let mut storage = Storage::new_in_mem();
    let table = storage.table(
        12,
        vec![("a".to_string(), DataType::Integer)],
        vec![SortOrder::Desc],
    );
    let mut batch = WriteBatch::new();
    for (value, ts) in [(1, 5), (3, 5), (2, 5), (3, 6)] {
        batch.write_tuple(&table, &[Datum::from(value)], LogicalTimestamp::new(ts), 1).unwrap();
    }
    assert!(batch.write_tuple(&table, &[], LogicalTimestamp::new(5), 1).is_err());
    storage.atomic_write(batch);
    let mut scan = table.full_scan(&storage, LogicalTimestamp::maximum()).unwrap();
    assert_eq!(scan.column_count(), 1);
    assert_eq!(scan.next(), Some(([Datum::from(3)].as_ref(), 2)));
    assert_eq!(scan.next(), Some(([Datum::from(2)].as_ref(), 1)));
    assert_eq!(scan.next(), Some(([Datum::from(1)].as_ref(), 1)));
    assert_eq!(scan.next(), None);
    let mut bounded = table
        .range_scan(&storage, Some(&[Datum::from(2)]), None, LogicalTimestamp::new(5))
        .unwrap();
    assert_eq!(bounded.next(), Some(([Datum::from(2)].as_ref(), 1)));
    assert_eq!(bounded.next(), Some(([Datum::from(1)].as_ref(), 1)));
    assert_eq!(bounded.next(), None);
    let mut key_buf = vec![];
    let mut value_buf = vec![];
    assert_eq!(
        table.system_point_lookup(&storage, &[Datum::from(3)], &mut key_buf, &mut value_buf),
        Ok(Some(()))
    );
    assert_eq!(key_buf, vec![Datum::from(3)]);
    assert_eq!(value_buf, vec![]);
    assert_eq!(
        table.system_point_lookup(&storage, &[Datum::from(9)], &mut key_buf, &mut value_buf),
        Ok(None)
    );
}

#[test]
fn a_store_is_made_of_sorted_entries_only() {
    let sorted = vec![
        Entry { key: vec![1], value: vec![] },
        Entry { key: vec![1, 0], value: vec![] },
        Entry { key: vec![2], value: vec![] },
    ];
    assert_eq!(Storage::from_entries(sorted).unwrap().len(), 3);
    let twice =
        vec![Entry { key: vec![1], value: vec![] }, Entry { key: vec![1], value: vec![9] }];
    assert!(Storage::from_entries(twice).is_none());
    let mut storage = Storage::new_in_mem();
    storage.put(vec![2], vec![20]);
    storage.put(vec![1], vec![10]);
    storage.put(vec![2], vec![21]);
    assert_eq!(storage.len(), 2);
    assert_eq!(storage.entry(0).key, vec![1]);
    assert_eq!(storage.entry(1).value, vec![21]);
    assert!(LogicalTimestamp::now().ms > 1_600_000_000_000);
}
