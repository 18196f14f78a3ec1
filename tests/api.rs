use storefront::api::{check_content_length, CategoryApiError, ProductApiError, MAX_UPLOAD_BYTES};
use storefront::error::{Error, ErrorKind};
use storefront::product::store::ProductStoreError;
use storefront::product::InvalidField;
use storefront::storage::StorageError;
use storefront::upload::UploadError;

#[test]
fn content_length_is_required() {
    assert!(matches!(check_content_length(None), Err(ProductApiError::BadRequest(_))));
}

#[test]
fn content_length_must_be_a_number() {
    assert!(matches!(check_content_length(Some("abc")), Err(ProductApiError::Internal(_))));
    assert!(matches!(check_content_length(Some("")), Err(ProductApiError::Internal(_))));
    assert!(matches!(check_content_length(Some(" 12")), Err(ProductApiError::Internal(_))));
}

#[test]
fn content_length_limit() {
    assert!(matches!(check_content_length(Some("1024")), Ok(1024)));
    assert!(matches!(check_content_length(Some("+5")), Ok(5)));
    assert!(matches!(check_content_length(Some("2097152")), Ok(MAX_UPLOAD_BYTES)));
    assert!(matches!(check_content_length(Some("2097153")), Err(ProductApiError::BadRequest(_))));
    assert!(matches!(
        check_content_length(Some("99999999999999999999999")),
        Err(ProductApiError::Internal(_))
    ));
}

#[test]
fn product_api_status_and_message() {
    let bad = ProductApiError::BadRequest("x".to_string());
    assert_eq!(bad.status_code(), 400);
    assert_eq!(bad.message(), "Bad request");
    let invalid = ProductApiError::ValidationError(vec![InvalidField::Name]);
    assert_eq!(invalid.status_code(), 400);
    assert_eq!(invalid.message(), "Validation failed");
    let internal = ProductApiError::Internal("db down".to_string());
    assert_eq!(internal.status_code(), 500);
    assert_eq!(internal.message(), "Internal server error");
}

#[test]
fn upload_failures_map_to_status() {
    let mime = ProductApiError::from_upload(&UploadError::Storage(StorageError::InvalidMimeType));
    assert_eq!(mime.status_code(), 400);
    let missing = ProductApiError::from_upload(&UploadError::Storage(
        StorageError::MultipartFieldMissing("payload".to_string()),
    ));
    assert_eq!(missing.status_code(), 400);
    let io = ProductApiError::from_upload(&UploadError::Storage(StorageError::Io("x".to_string())));
    assert_eq!(io.status_code(), 500);
    let store = ProductApiError::from_upload(&UploadError::Store(
        ProductStoreError::QueryFailed("x".to_string()),
    ));
    assert_eq!(store.status_code(), 500);
}

#[test]
fn category_api_error_is_internal() {
    let e = CategoryApiError::Internal("x".to_string());
    assert_eq!(e.status_code(), 500);
    assert_eq!(e.message(), "Internal server error");
}

#[test]
fn error_kinds() {
    let e = Error::new("boom".to_string(), ErrorKind::Internal);
    assert_eq!(e.status_code(), 500);
    assert_eq!(e.response_message(), None);
    assert_eq!(e.to_string(), "server error: boom");
    assert_eq!(e.kind(), ErrorKind::Internal);
    let b = Error::new("bad id".to_string(), ErrorKind::BadRequest);
    assert_eq!(b.status_code(), 400);
    assert_eq!(b.response_message(), Some("bad id".to_string()));
    assert_eq!(b.message(), "bad id");
}
