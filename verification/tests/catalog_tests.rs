use incresql::catalog::{table_seed, Catalog, CatalogError};
use incresql::data::{DataType, Datum, LogicalTimestamp};
use std::collections::hash_map::DefaultHasher;
use std::hash::{Hash, Hasher};

#[test]
fn test_create_table() {
    let mut catalog = Catalog::new_for_test().unwrap();
    let columns = vec![("a".to_string(), DataType::Integer)];

    catalog.create_table("default", "test", &columns).unwrap();

    let table = catalog.table("default", "test").unwrap();
    assert_eq!(table.columns(), columns.as_slice());
}

#[test]
fn test_get_table() {
    let catalog = Catalog::new_for_test().unwrap();
    let table = catalog.table("incresql", "databases").unwrap();

    assert_eq!(table.columns(), vec![("name".to_string(), DataType::Text)].as_slice());

    let mut iter = table.full_scan(catalog.storage(), LogicalTimestamp::maximum()).unwrap();
    assert_eq!(iter.next(), Some(([Datum::from("default")].as_ref(), 1)));
}

#[test]
fn test_create_database() {
    let mut catalog = Catalog::new_for_test().unwrap();
    let dbs_table = catalog.table("incresql", "databases").unwrap();

    catalog.create_database("abc").unwrap();

    let mut iter = dbs_table.full_scan(catalog.storage(), LogicalTimestamp::maximum()).unwrap();
    assert_eq!(iter.next(), Some(([Datum::from("abc")].as_ref(), 1)));

    assert_eq!(
        catalog.create_database("abc"),
        Err(CatalogError::DatabaseAlreadyExists("abc".to_string()))
    );

    catalog.drop_database("abc").unwrap();
    let mut iter = dbs_table.full_scan(catalog.storage(), LogicalTimestamp::maximum()).unwrap();
    assert_eq!(iter.next(), Some(([Datum::from("default")].as_ref(), 1)));
}

#[test]
fn each_kind_of_catalog_error() {
    let mut catalog = Catalog::new_for_test().unwrap();
    let columns = vec![("a".to_string(), DataType::Integer)];
    assert_eq!(
        catalog.drop_database("nowhere"),
        Err(CatalogError::DatabaseNotFound("nowhere".to_string()))
    );
    assert_eq!(
        catalog.create_database("default"),
        Err(CatalogError::DatabaseAlreadyExists("default".to_string()))
    );
    assert_eq!(
        catalog.create_table("nowhere", "t", &columns),
        Err(CatalogError::DatabaseNotFound("nowhere".to_string()))
    );
    catalog.create_table("default", "t", &columns).unwrap();
    assert_eq!(
        catalog.create_table("default", "t", &columns),
        Err(CatalogError::TableAlreadyExists("default".to_string(), "t".to_string()))
    );
    assert_eq!(
        catalog.drop_database("default"),
        Err(CatalogError::DatabaseNotEmpty("default".to_string()))
    );
    assert_eq!(
        catalog.table("default", "other").err(),
        Some(CatalogError::TableNotFound("default".to_string(), "other".to_string()))
    );
}

#[test]
fn table_ids_are_even_and_probe_on() {
    let mut catalog = Catalog::new_for_test().unwrap();
    let columns = vec![("a".to_string(), DataType::Integer)];
    let now = LogicalTimestamp::new(10);
    // The ids 0, 2 and 4 belong to the system tables.
    assert_eq!(catalog.table_id_from(1, "default", "t"), Ok(6));
    catalog.create_table_at("default", "one", &columns, 7, now).unwrap();
    assert_eq!(catalog.table("default", "one").unwrap().id(), 6);
    catalog.create_table_at("default", "two", &columns, 6, now).unwrap();
    assert_eq!(catalog.table("default", "two").unwrap().id(), 8);
    catalog.create_table_at("default", "last", &columns, u32::MAX, now).unwrap();
    assert_eq!(catalog.table("default", "last").unwrap().id(), u32::MAX - 1);
    catalog.create_table_at("default", "round", &columns, u32::MAX, now).unwrap();
    assert_eq!(catalog.table("default", "round").unwrap().id(), 10);
    let table = catalog.table("default", "round").unwrap();
    assert_eq!(table.pk(), &[incresql::data::SortOrder::Asc]);
}

#[test]
fn the_system_describes_itself() {
    let catalog = Catalog::new_for_test().unwrap();
    let tables = catalog.table("incresql", "tables").unwrap();
    assert_eq!(tables.id(), 4);
    assert_eq!(tables.columns().len(), 5);
    assert_eq!(tables.pk().len(), 2);
    let prefix = catalog.table("incresql", "prefix_metadata").unwrap();
    assert_eq!(prefix.id(), 0);
    let mut rows = tables.full_scan(catalog.storage(), LogicalTimestamp::maximum()).unwrap();
    let mut names = vec![];
    while let Some((tuple, freq)) = rows.next() {
        assert_eq!(freq, 1);
        names.push(tuple[1].as_text().to_vec());
    }
    assert_eq!(names, vec![b"databases".to_vec(), b"prefix_metadata".to_vec(), b"tables".to_vec()]);
}

#[test]
fn the_default_database_is_never_dropped() {
    let mut catalog = Catalog::new_for_test().unwrap();
    assert_eq!(
        catalog.drop_database("default"),
        Err(CatalogError::DatabaseNotEmpty("default".to_string()))
    );
    let dbs_table = catalog.table("incresql", "databases").unwrap();
    let mut iter = dbs_table.full_scan(catalog.storage(), LogicalTimestamp::maximum()).unwrap();
    assert_eq!(iter.next(), Some(([Datum::from("default")].as_ref(), 1)));
    assert_eq!(iter.next(), Some(([Datum::from("incresql")].as_ref(), 1)));
    assert_eq!(iter.next(), None);
}

#[test]
fn a_new_catalog_describes_the_system_tables() {
    let catalog = Catalog::new_for_test().unwrap();
    let tables = catalog.table("incresql", "tables").unwrap();
    assert_eq!(
        tables.columns(),
        vec![
            ("database_name".to_string(), DataType::Text),
            ("name".to_string(), DataType::Text),
            ("table_id".to_string(), DataType::BigInt),
            ("columns".to_string(), DataType::Json),
            ("system".to_string(), DataType::Boolean),
        ]
        .as_slice()
    );
    let prefixes = catalog.table("incresql", "prefix_metadata").unwrap();
    assert_eq!(prefixes.columns().len(), 3);
    let mut iter = tables.full_scan(catalog.storage(), LogicalTimestamp::maximum()).unwrap();
    let mut names = Vec::new();
    while let Some((row, freq)) = iter.next() {
        assert_eq!(freq, 1);
        assert_eq!(row[0], Datum::from("incresql"));
        assert_eq!(row[4], Datum::from(true));
        names.push(row[1].as_static());
    }
    assert_eq!(
        names,
        vec![Datum::from("databases"), Datum::from("prefix_metadata"), Datum::from("tables")]
    );
}

#[test]
fn a_table_that_was_created_is_listed_once() {
    let mut catalog = Catalog::new_for_test().unwrap();
    let columns = vec![("a".to_string(), DataType::Integer), ("b".to_string(), DataType::Text)];
    let now = LogicalTimestamp::new(5);
    catalog.create_table_at("default", "t", &columns, 21, now).unwrap();
    let table = catalog.table("default", "t").unwrap();
    assert_eq!(table.id(), 20);
    assert_eq!(table.columns(), columns.as_slice());
    assert_eq!(table.pk().len(), 2);
    let tables = catalog.table("incresql", "tables").unwrap();
    let mut iter = tables.full_scan(catalog.storage(), LogicalTimestamp::maximum()).unwrap();
    assert_eq!(iter.next().unwrap().0[1], Datum::from("t"));
}

#[test]
fn the_id_of_a_table_comes_from_the_hash_of_its_name() {
    let mut hasher = DefaultHasher::new();
    "orders".hash(&mut hasher);
    let seed = hasher.finish() as u32;
    assert_eq!(table_seed("orders"), seed);
    assert_ne!(table_seed("orders"), table_seed("order"));
    let mut catalog = Catalog::new_for_test().unwrap();
    let expected = catalog.table_id_from(seed, "default", "orders").unwrap();
    assert_eq!(expected % 2, 0);
    let columns = vec![("a".to_string(), DataType::Integer)];
    catalog.create_table("default", "orders", &columns).unwrap();
    assert_eq!(catalog.table("default", "orders").unwrap().id(), expected);
}
