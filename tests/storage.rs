use storefront::storage::memory::{select_upload, MemoryStorage, UploadField};
use storefront::storage::{FieldVerdict, MediaType, Storage, StorageError};

fn media(t: &str, s: &str) -> MediaType {
    MediaType { type_: t.to_string(), subtype: s.to_string() }
}

fn field(name: &str, t: &str, s: &str, data: &[u8]) -> UploadField {
    UploadField { name: Some(name.to_string()), media: Some(media(t, s)), data: data.to_vec() }
}

#[test]
fn only_the_payload_part_is_inspected() {
    let st = Storage::new();
    assert_eq!(st.inspect_field(Some("other"), Some(&media("image", "jpeg"))), FieldVerdict::Skip);
    assert_eq!(st.inspect_field(None, Some(&media("image", "jpeg"))), FieldVerdict::Skip);
    assert_eq!(st.inspect_field(Some("payload"), Some(&media("image", "jpeg"))), FieldVerdict::Accept);
    assert_eq!(st.inspect_field(Some("payload"), Some(&media("image", "png"))), FieldVerdict::Accept);
}

#[test]
fn other_content_types_are_rejected() {
    let st = Storage::new();
    assert_eq!(st.inspect_field(Some("payload"), Some(&media("text", "plain"))), FieldVerdict::Reject);
    assert_eq!(st.inspect_field(Some("payload"), Some(&media("image", "gif"))), FieldVerdict::Reject);
    assert_eq!(st.inspect_field(Some("payload"), None), FieldVerdict::Reject);
}

#[test]
fn missing_field_names_the_part() {
    match Storage::new().missing_field() {
        StorageError::MultipartFieldMissing(n) => assert_eq!(n, "payload"),
        _ => panic!("expected a missing field"),
    }
}

#[test]
fn generated_names_are_uuids_with_jpeg_extension() {
    let st = Storage::new();
    let a = st.new_filename();
    let b = st.new_filename();
    assert_eq!(a.len(), 41);
    assert!(a.ends_with(".jpeg"));
    assert!(!a.contains('/'));
    assert_eq!(a.as_bytes()[8], b'-');
    assert_ne!(a, b);
}

#[test]
fn file_path_is_under_the_asset_root() {
    assert_eq!(Storage::new().file_path("x.jpeg"), "./assets/x.jpeg");
}

#[test]
fn select_upload_takes_first_payload_part() {
    let fields = vec![
        field("title", "text", "plain", b"hi"),
        field("payload", "image", "png", b"png"),
        field("payload", "text", "plain", b"late"),
    ];
    assert!(matches!(select_upload(&Storage::new(), &fields), Ok(1)));
}

#[test]
fn mime_validation_writes_no_file() {
    let mut files = MemoryStorage::new();
    let fields = vec![field("payload", "text", "plain", b"hello")];
    assert!(matches!(files.save_image(&fields), Err(StorageError::InvalidMimeType)));
    assert!(matches!(files.save_image_as(&fields, &"f.jpeg".to_string()), Err(StorageError::InvalidMimeType)));
    assert!(!files.contains("f.jpeg"));
}

#[test]
fn missing_field_writes_no_file() {
    let mut files = MemoryStorage::new();
    let fields = vec![field("image", "image", "jpeg", b"data")];
    match files.save_image_as(&fields, &"f.jpeg".to_string()) {
        Err(StorageError::MultipartFieldMissing(n)) => assert_eq!(n, "payload"),
        _ => panic!("expected a missing field"),
    }
    assert!(!files.contains("f.jpeg"));
    assert!(matches!(files.save_image(&vec![]), Err(StorageError::MultipartFieldMissing(_))));
}

#[test]
fn save_then_delete() {
    let mut files = MemoryStorage::new();
    let fields = vec![field("payload", "image", "jpeg", b"data")];
    let name = files.save_image(&fields).unwrap();
    assert!(name.ends_with(".jpeg"));
    assert!(files.contains(&name));
    assert!(files.delete_image(&name).is_ok());
    assert!(!files.contains(&name));
    assert!(matches!(files.delete_image(&name), Err(StorageError::Io(_))));
}
