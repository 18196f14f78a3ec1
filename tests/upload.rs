use storefront::product::memory::MemoryStore;
use storefront::product::store::ProductStoreError;
use storefront::product::ProductInsertable;
use storefront::storage::memory::{MemoryStorage, UploadField};
use storefront::storage::{MediaType, StorageError};
use storefront::upload::{add_product_asset, AssetUpload, UploadAction, UploadError};

fn image() -> Vec<UploadField> {
    vec![UploadField {
        name: Some("payload".to_string()),
        media: Some(MediaType { type_: "image".to_string(), subtype: "jpeg".to_string() }),
        data: vec![1, 2, 3],
    }]
}

fn store_with_product() -> (MemoryStore, i32) {
    let mut store = MemoryStore::new();
    let p = store
        .insert(ProductInsertable { name: "Shoes".to_string(), price: 4999 })
        .unwrap();
    (store, p.id)
}

#[test]
fn attaching_an_image_stores_file_and_row() {
    let (mut store, id) = store_with_product();
    let mut files = MemoryStorage::new();
    let name = "f.jpeg".to_string();
    let asset = add_product_asset(&mut store, &mut files, id, &image(), &name).unwrap();
    assert_eq!(asset.filename, "f.jpeg");
    assert!(files.contains("f.jpeg"));
    let p = store.get_by_id(id).unwrap().unwrap();
    assert_eq!(p.assets.len(), 1);
    assert_eq!(p.assets[0].filename, "f.jpeg");
}

#[test]
fn failed_row_insert_removes_the_file() {
    let (mut store, _) = store_with_product();
    let mut files = MemoryStorage::new();
    let name = "f.jpeg".to_string();
    let r = add_product_asset(&mut store, &mut files, 77, &image(), &name);
    assert!(matches!(r, Err(UploadError::Store(ProductStoreError::QueryFailed(_)))));
    assert!(!files.contains("f.jpeg"));
    let all = store.get_all().unwrap();
    assert!(all.iter().all(|p| p.assets.iter().all(|a| a.filename != "f.jpeg")));
}

#[test]
fn failed_save_changes_nothing() {
    let (mut store, id) = store_with_product();
    let mut files = MemoryStorage::new();
    let fields = vec![UploadField {
        name: Some("payload".to_string()),
        media: Some(MediaType { type_: "text".to_string(), subtype: "plain".to_string() }),
        data: vec![1],
    }];
    let r = add_product_asset(&mut store, &mut files, id, &fields, &"f.jpeg".to_string());
    assert!(matches!(r, Err(UploadError::Storage(StorageError::InvalidMimeType))));
    assert!(!files.contains("f.jpeg"));
    assert!(store.get_by_id(id).unwrap().unwrap().assets.is_empty());
}

#[test]
fn protocol_asks_for_row_after_file() {
    let mut up = AssetUpload::new(4);
    match up.saved(Ok("x.jpeg".to_string())) {
        UploadAction::AddAsset(id, name) => {
            assert_eq!(id, 4);
            assert_eq!(name, "x.jpeg");
        }
        _ => panic!("expected the row to be asked for"),
    }
}

#[test]
fn protocol_ends_on_failed_save() {
    let mut up = AssetUpload::new(4);
    assert!(matches!(
        up.saved(Err(StorageError::Io("disk".to_string()))),
        UploadAction::Finish(Err(UploadError::Storage(StorageError::Io(_))))
    ));
}

#[test]
fn protocol_compensates_and_keeps_the_first_error() {
    let mut up = AssetUpload::new(4);
    up.saved(Ok("x.jpeg".to_string()));
    match up.added(Err(ProductStoreError::QueryFailed("fk".to_string()))) {
        UploadAction::DeleteImage(name) => assert_eq!(name, "x.jpeg"),
        _ => panic!("expected the file to be removed"),
    }
    match up.deleted(Err(StorageError::Io("gone".to_string()))) {
        UploadAction::Finish(Err(UploadError::Store(ProductStoreError::QueryFailed(m)))) => {
            assert_eq!(m, "fk")
        }
        _ => panic!("expected the store failure"),
    }
}
