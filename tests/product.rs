use storefront::product::memory::MemoryStore;
use storefront::product::store::ProductStoreError;
use storefront::product::{Asset, InvalidField, Product, ProductInsertable, ProductStatus};
use storefront::row::{Column, MappingError, Row, Value};

fn col(name: &str, value: Value) -> Column {
    Column { name: name.to_string(), value }
}

fn text(s: &str) -> Value {
    Value::Text(s.to_string())
}

fn product_row(id: i32, name: &str, price: i64, status: &str) -> Row {
    Row {
        columns: vec![
            col("id", Value::Int(id)),
            col("name", text(name)),
            col("price", Value::Hundredths(price)),
            col("status", text(status)),
        ],
    }
}

fn shoes() -> ProductInsertable {
    ProductInsertable { name: "Shoes".to_string(), price: 4999 }
}

#[test]
fn product_from_row_reads_every_column() {
    let p = Product::try_from(&product_row(7, "Hat", 1250, "Draft")).unwrap();
    assert_eq!(p.id, 7);
    assert_eq!(p.name, "Hat");
    assert_eq!(p.price, 1250);
    assert_eq!(p.status, ProductStatus::Draft);
    assert!(p.assets.is_empty());
}

#[test]
fn product_status_other_than_draft_is_published() {
    let p = Product::try_from(&product_row(1, "Hat", 100, "Published")).unwrap();
    assert_eq!(p.status, ProductStatus::Published);
    let p = Product::try_from(&product_row(1, "Hat", 100, "draft")).unwrap();
    assert_eq!(p.status, ProductStatus::Published);
}

#[test]
fn product_from_row_missing_column() {
    let row = Row { columns: vec![col("status", text("Draft")), col("id", Value::Int(1))] };
    match Product::try_from(&row) {
        Err(MappingError::MissingColumn(name)) => assert_eq!(name, "name"),
        _ => panic!("expected a missing column"),
    }
}

#[test]
fn product_from_row_wrong_type() {
    let mut row = product_row(1, "Hat", 100, "Draft");
    row.columns[0] = col("id", text("one"));
    match Product::try_from(&row) {
        Err(MappingError::WrongType(name)) => assert_eq!(name, "id"),
        _ => panic!("expected a type mismatch"),
    }
}

#[test]
fn product_from_row_status_is_read_first() {
    let row = Row { columns: vec![] };
    match Product::try_from(&row) {
        Err(MappingError::MissingColumn(name)) => assert_eq!(name, "status"),
        _ => panic!("expected a missing column"),
    }
}

#[test]
fn first_column_of_a_name_wins() {
    let row = Row { columns: vec![col("id", Value::Int(3)), col("id", Value::Int(4))] };
    assert_eq!(row.get_int("id").ok(), Some(3));
    assert_eq!(row.find("id"), Some(0));
    assert_eq!(row.find("name"), None);
}

#[test]
fn nullable_column() {
    let row = Row { columns: vec![col("parent_id", Value::Null)] };
    assert_eq!(row.get_opt_int("parent_id").ok(), Some(None));
    let row = Row { columns: vec![col("parent_id", Value::Int(2))] };
    assert_eq!(row.get_opt_int("parent_id").ok(), Some(Some(2)));
}

#[test]
fn asset_from_row() {
    let row = Row { columns: vec![col("filename", text("a.jpeg")), col("id", Value::Int(9))] };
    let a = Asset::from_row(&row).unwrap();
    assert_eq!(a.id, 9);
    assert_eq!(a.filename, "a.jpeg");
}

#[test]
fn validation_lists_every_bad_field() {
    let bad = ProductInsertable { name: String::new(), price: 0 };
    assert_eq!(bad.validate(), Err(vec![InvalidField::Name, InvalidField::Price]));
    let bad_price = ProductInsertable { name: "Hat".to_string(), price: -5 };
    assert_eq!(bad_price.validate(), Err(vec![InvalidField::Price]));
    assert_eq!(shoes().validate(), Ok(()));
}

#[test]
fn insert_round_trip() {
    let mut store = MemoryStore::new();
    let p = store.insert(shoes()).unwrap();
    assert_eq!(p.id, 1);
    assert_eq!(p.name, "Shoes");
    assert_eq!(p.price, 4999);
    assert_eq!(p.status, ProductStatus::Published);
    assert!(p.assets.is_empty());
    let again = store.get_by_id(p.id).unwrap().unwrap();
    assert_eq!(again.name, "Shoes");
    assert_eq!(again.price, 4999);
    assert!(again.assets.is_empty());
}

#[test]
fn ids_are_given_in_order() {
    let mut store = MemoryStore::new();
    assert_eq!(store.insert(shoes()).unwrap().id, 1);
    assert_eq!(store.insert(shoes()).unwrap().id, 2);
}

#[test]
fn get_by_id_absent_is_not_an_error() {
    let mut store = MemoryStore::new();
    assert!(matches!(store.get_by_id(42), Ok(None)));
    store.insert(shoes()).unwrap();
    assert!(matches!(store.get_by_id(42), Ok(None)));
}

#[test]
fn get_all_assembles_each_product_with_its_assets() {
    let mut store = MemoryStore::new();
    let a = store.insert(shoes()).unwrap();
    let b = store.insert(ProductInsertable { name: "Hat".to_string(), price: 1500 }).unwrap();
    store.add_asset(b.id, &"b1.jpeg".to_string()).unwrap();
    store.add_asset(a.id, &"a1.jpeg".to_string()).unwrap();
    store.add_asset(b.id, &"b2.jpeg".to_string()).unwrap();
    let all = store.get_all().unwrap();
    assert_eq!(all.len(), 2);
    assert_eq!(all[0].id, a.id);
    let a_files: Vec<&str> = all[0].assets.iter().map(|x| x.filename.as_str()).collect();
    assert_eq!(a_files, vec!["a1.jpeg"]);
    let b_files: Vec<&str> = all[1].assets.iter().map(|x| x.filename.as_str()).collect();
    assert_eq!(b_files, vec!["b1.jpeg", "b2.jpeg"]);
    let ids: Vec<i32> = all[1].assets.iter().map(|x| x.id).collect();
    assert_eq!(ids, vec![1, 3]);
}

#[test]
fn get_all_on_empty_store() {
    let store = MemoryStore::new();
    assert!(store.get_all().unwrap().is_empty());
}

#[test]
fn delete_absent_is_a_repeatable_no_op() {
    let mut store = MemoryStore::new();
    store.insert(shoes()).unwrap();
    assert!(store.delete_by_id(99).is_ok());
    assert!(store.delete_by_id(99).is_ok());
    assert_eq!(store.get_all().unwrap().len(), 1);
}

#[test]
fn delete_removes_the_product() {
    let mut store = MemoryStore::new();
    let p = store.insert(shoes()).unwrap();
    assert!(store.delete_by_id(p.id).is_ok());
    assert!(matches!(store.get_by_id(p.id), Ok(None)));
    assert!(store.delete_by_id(p.id).is_ok());
}

#[test]
fn delete_of_product_with_assets_is_refused() {
    let mut store = MemoryStore::new();
    let p = store.insert(shoes()).unwrap();
    store.add_asset(p.id, &"x.jpeg".to_string()).unwrap();
    assert!(matches!(store.delete_by_id(p.id), Err(ProductStoreError::QueryFailed(_))));
    assert_eq!(store.get_by_id(p.id).unwrap().unwrap().assets.len(), 1);
}

#[test]
fn add_asset_needs_an_existing_product() {
    let mut store = MemoryStore::new();
    assert!(matches!(
        store.add_asset(5, &"x.jpeg".to_string()),
        Err(ProductStoreError::QueryFailed(_))
    ));
    let p = store.insert(shoes()).unwrap();
    let a = store.add_asset(p.id, &"x.jpeg".to_string()).unwrap();
    assert_eq!(a.id, 1);
    assert_eq!(a.filename, "x.jpeg");
}
