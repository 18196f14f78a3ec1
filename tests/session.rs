use storefront::product::store::{single, Fetch, ProductStoreError, ReadAction, ReadSession};
use storefront::row::{Column, MappingError, Row, Value};

fn col(name: &str, value: Value) -> Column {
    Column { name: name.to_string(), value }
}

fn product_row(id: i32, name: &str) -> Row {
    Row {
        columns: vec![
            col("id", Value::Int(id)),
            col("name", Value::Text(name.to_string())),
            col("price", Value::Hundredths(4999)),
            col("status", Value::Text("Published".to_string())),
        ],
    }
}

fn asset_row(id: i32, filename: &str) -> Row {
    Row {
        columns: vec![
            col("id", Value::Int(id)),
            col("filename", Value::Text(filename.to_string())),
        ],
    }
}

fn query_failed(msg: &str) -> ProductStoreError {
    ProductStoreError::QueryFailed(msg.to_string())
}

#[test]
fn read_all_commits_and_hands_out_every_asset() {
    let mut s = ReadSession::new(Fetch::All);
    assert!(matches!(s.opened(Ok(())), ReadAction::QueryProducts(Fetch::All)));
    let a = s.products_fetched(Ok(vec![product_row(1, "Shoes"), product_row(2, "Hat")]));
    assert!(matches!(a, ReadAction::QueryAssets(1)));
    let a = s.assets_fetched(Ok(vec![asset_row(10, "a.jpeg"), asset_row(11, "b.jpeg")]));
    assert!(matches!(a, ReadAction::QueryAssets(2)));
    let a = s.assets_fetched(Ok(vec![]));
    assert!(matches!(a, ReadAction::Commit));
    match s.committed(Ok(())) {
        ReadAction::Finish(Ok(products)) => {
            assert_eq!(products.len(), 2);
            assert_eq!(products[0].name, "Shoes");
            assert_eq!(products[0].assets.len(), 2);
            assert_eq!(products[0].assets[1].filename, "b.jpeg");
            assert_eq!(products[1].id, 2);
            assert!(products[1].assets.is_empty());
        }
        _ => panic!("expected the products"),
    }
}

#[test]
fn read_of_no_products_commits_at_once() {
    let mut s = ReadSession::new(Fetch::All);
    s.opened(Ok(()));
    assert!(matches!(s.products_fetched(Ok(vec![])), ReadAction::Commit));
    match s.committed(Ok(())) {
        ReadAction::Finish(Ok(products)) => assert!(products.is_empty()),
        _ => panic!("expected an empty list"),
    }
}

#[test]
fn read_by_absent_id_is_empty_not_an_error() {
    let mut s = ReadSession::new(Fetch::One(42));
    assert!(matches!(s.opened(Ok(())), ReadAction::QueryProducts(Fetch::One(42))));
    assert!(matches!(s.products_fetched(Ok(vec![])), ReadAction::Commit));
    match s.committed(Ok(())) {
        ReadAction::Finish(Ok(products)) => assert!(single(products).is_none()),
        _ => panic!("expected an empty result"),
    }
}

#[test]
fn read_by_id_hands_out_the_one_product() {
    let mut s = ReadSession::new(Fetch::One(3));
    s.opened(Ok(()));
    assert!(matches!(s.products_fetched(Ok(vec![product_row(3, "Hat")])), ReadAction::QueryAssets(3)));
    assert!(matches!(s.assets_fetched(Ok(vec![asset_row(5, "h.jpeg")])), ReadAction::Commit));
    match s.committed(Ok(())) {
        ReadAction::Finish(Ok(products)) => {
            let p = single(products).unwrap();
            assert_eq!(p.id, 3);
            assert_eq!(p.assets.len(), 1);
            assert_eq!(p.assets[0].id, 5);
        }
        _ => panic!("expected the product"),
    }
}

#[test]
fn failed_asset_query_rolls_back_and_reports_it() {
    let mut s = ReadSession::new(Fetch::All);
    s.opened(Ok(()));
    s.products_fetched(Ok(vec![product_row(1, "Shoes"), product_row(2, "Hat")]));
    s.assets_fetched(Ok(vec![asset_row(10, "a.jpeg")]));
    assert!(matches!(s.assets_fetched(Err(query_failed("boom"))), ReadAction::Rollback));
    match s.rolled_back(Ok(())) {
        ReadAction::Finish(Err(ProductStoreError::QueryFailed(m))) => assert_eq!(m, "boom"),
        _ => panic!("expected the query failure"),
    }
}

#[test]
fn failed_rollback_does_not_replace_the_failure() {
    let mut s = ReadSession::new(Fetch::All);
    s.opened(Ok(()));
    assert!(matches!(s.products_fetched(Err(query_failed("first"))), ReadAction::Rollback));
    match s.rolled_back(Err(ProductStoreError::ConnectionFailed("gone".to_string()))) {
        ReadAction::Finish(Err(ProductStoreError::QueryFailed(m))) => assert_eq!(m, "first"),
        _ => panic!("expected the first failure"),
    }
}

#[test]
fn unreadable_asset_row_rolls_back() {
    let mut s = ReadSession::new(Fetch::All);
    s.opened(Ok(()));
    s.products_fetched(Ok(vec![product_row(1, "Shoes")]));
    let bad = Row { columns: vec![col("id", Value::Int(1))] };
    assert!(matches!(s.assets_fetched(Ok(vec![bad])), ReadAction::Rollback));
    match s.rolled_back(Ok(())) {
        ReadAction::Finish(Err(ProductStoreError::MappingFailed(MappingError::MissingColumn(c)))) => {
            assert_eq!(c, "filename")
        }
        _ => panic!("expected a mapping failure"),
    }
}

#[test]
fn unreadable_product_row_rolls_back() {
    let mut s = ReadSession::new(Fetch::All);
    s.opened(Ok(()));
    let bad = Row { columns: vec![col("status", Value::Int(1))] };
    assert!(matches!(s.products_fetched(Ok(vec![product_row(1, "Shoes"), bad])), ReadAction::Rollback));
    match s.rolled_back(Ok(())) {
        ReadAction::Finish(Err(ProductStoreError::MappingFailed(MappingError::WrongType(c)))) => {
            assert_eq!(c, "status")
        }
        _ => panic!("expected a mapping failure"),
    }
}

#[test]
fn no_connection_ends_without_rollback() {
    let mut s = ReadSession::new(Fetch::All);
    match s.opened(Err(ProductStoreError::ConnectionFailed("pool exhausted".to_string()))) {
        ReadAction::Finish(Err(ProductStoreError::ConnectionFailed(m))) => assert_eq!(m, "pool exhausted"),
        _ => panic!("expected the connection failure"),
    }
}

#[test]
fn failed_commit_is_reported() {
    let mut s = ReadSession::new(Fetch::All);
    s.opened(Ok(()));
    s.products_fetched(Ok(vec![]));
    match s.committed(Err(query_failed("commit"))) {
        ReadAction::Finish(Err(ProductStoreError::QueryFailed(m))) => assert_eq!(m, "commit"),
        _ => panic!("expected the commit failure"),
    }
}
