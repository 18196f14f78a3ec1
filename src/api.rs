//! How handler outcomes become answers: which failures are the client's
//! (400) and which the server's (500), what each answer says, and the limit
//! on the size of an uploaded image.

use vstd::prelude::*;
use crate::product::InvalidField;
use crate::storage::StorageError;
use crate::upload::UploadError;

verus! {

/// The largest request body accepted for an image upload: 2 MiB.
pub const MAX_UPLOAD_BYTES: u64 = 2097152;

/// The value of a string of decimal digits.
pub open spec fn digits_value(s: Seq<char>) -> int
    decreases s.len(),
{
    if s.len() == 0 {
        0
    } else {
        digits_value(s.drop_last()) * 10 + (s.last() as int - '0' as int)
    }
}

/// The digits of a number with an optional leading `+`.
pub open spec fn unsigned_digits(s: Seq<char>) -> Seq<char> {
    if s.len() > 0 && s[0] == '+' {
        s.drop_first()
    } else {
        s
    }
}

/// The `u64` that a text states: an optional `+`, then one or more ASCII
/// digits whose value fits; anything else states none.
pub open spec fn parsed_u64(s: Seq<char>) -> Option<u64> {
    let d = unsigned_digits(s);
    if d.len() > 0 && (forall|i: int| 0 <= i < d.len() ==> '0' <= #[trigger] d[i] && d[i] <= '9')
        && digits_value(d) <= u64::MAX {
        Some(digits_value(d) as u64)
    } else {
        None
    }
}

/// Relies on `str::parse::<u64>` of std: an optional `+` sign followed by
/// one or more ASCII digits is accepted where the value fits in a `u64`;
/// anything else (whitespace, other signs, an empty text, overflow) is an
/// error.
#[verifier::external_body]
fn parse_u64(s: &str) -> (r: Option<u64>)
    ensures
        r == parsed_u64(s@),
{
    s.parse::<u64>().ok()
}

/// Why a product request failed.
#[derive(Debug)]
pub enum ProductApiError {
    /// The request cannot be served as it was sent.
    BadRequest(String),
    /// The product's fields failed validation.
    ValidationError(Vec<InvalidField>),
    /// Something broke on the server's side; the text is for the log only.
    Internal(String),
}

/// Why a category request failed.
#[derive(Debug)]
pub enum CategoryApiError {
    /// Something broke on the server's side; the text is for the log only.
    Internal(String),
}

impl ProductApiError {
    /// 400 where the client is at fault, 500 otherwise.
    pub fn status_code(&self) -> (r: u16)
        ensures
            r == match self {
                ProductApiError::Internal(_) => 500u16,
                _ => 400u16,
            },
    {
        match self {
            ProductApiError::BadRequest(_) => 400,
            ProductApiError::ValidationError(_) => 400,
            ProductApiError::Internal(_) => 500,
        }
    }

    /// The message of the answer's body; a server-side failure shows none of
    /// its detail.
    pub fn message(&self) -> (r: String)
        ensures
            r@ == match self {
                ProductApiError::BadRequest(_) => "Bad request"@,
                ProductApiError::ValidationError(_) => "Validation failed"@,
                ProductApiError::Internal(_) => "Internal server error"@,
            },
    {
        match self {
            ProductApiError::BadRequest(_) => "Bad request".to_owned(),
            ProductApiError::ValidationError(_) => "Validation failed".to_owned(),
            ProductApiError::Internal(_) => "Internal server error".to_owned(),
        }
    }

    /// The answer to a failed image upload: an unacceptable content type or
    /// a missing image part is the client's fault; every other failure is
    /// the server's.
    pub fn from_upload(e: &UploadError) -> (r: ProductApiError)
        ensures
            match e {
                UploadError::Storage(StorageError::InvalidMimeType) => r is BadRequest,
                UploadError::Storage(StorageError::MultipartFieldMissing(_)) => r is BadRequest,
                _ => r is Internal,
            },
    {
        match e {
            UploadError::Storage(StorageError::InvalidMimeType) => ProductApiError::BadRequest(
                "Invalid mime type".to_owned(),
            ),
            UploadError::Storage(StorageError::MultipartFieldMissing(_)) => {
                ProductApiError::BadRequest("Multipart field missing".to_owned())
            },
            UploadError::Storage(_) => ProductApiError::Internal("Failed to save image".to_owned()),
            UploadError::Store(_) => ProductApiError::Internal("Failed to add asset".to_owned()),
        }
    }
}

impl CategoryApiError {
    /// Always 500.
    pub fn status_code(&self) -> (r: u16)
        ensures
            r == 500,
    {
        500
    }

    /// The message of the answer's body, with none of the failure's detail.
    pub fn message(&self) -> (r: String)
        ensures
            r@ == "Internal server error"@,
    {
        "Internal server error".to_owned()
    }
}

/// Checks the declared length of an image upload before anything is read:
/// it must be there, be a number, and be at most [`MAX_UPLOAD_BYTES`].
pub fn check_content_length(header: Option<&str>) -> (r: Result<u64, ProductApiError>)
    ensures
        match header {
            None => r matches Err(ProductApiError::BadRequest(_)),
            Some(h) => match parsed_u64(h@) {
                None => r matches Err(ProductApiError::Internal(_)),
                Some(n) => if n > MAX_UPLOAD_BYTES {
                    r matches Err(ProductApiError::BadRequest(_))
                } else {
                    r matches Ok(m) && m == n
                },
            },
        },
{
    match header {
        None => Err(ProductApiError::BadRequest("Missing content-length header".to_owned())),
        Some(h) => match parse_u64(h) {
            None => Err(ProductApiError::Internal("Failed to parse content-length".to_owned())),
            Some(n) => if n > MAX_UPLOAD_BYTES {
                Err(ProductApiError::BadRequest("File can't be bigger than 2MB".to_owned()))
            } else {
                Ok(n)
            },
        },
    }
}

} // verus!
