//! Asset storage: which uploaded part is taken and whether its content type
//! is accepted, how stored files are named, and an in-memory file store.

pub mod memory;

use vstd::prelude::*;
use crate::row::same_text;

verus! {

/// Why a storage operation failed.
#[derive(Debug)]
pub enum StorageError {
    /// A file could not be created, written or removed.
    Io(String),
    /// The multipart body could not be read.
    Multipart(String),
    /// The body has no part of this name.
    MultipartFieldMissing(String),
    /// The part's declared content type is not an accepted image type.
    InvalidMimeType,
}

/// What a [`StorageError`] says, as a mathematical value.
pub enum StorageFault {
    Io(Seq<char>),
    Multipart(Seq<char>),
    MultipartFieldMissing(Seq<char>),
    InvalidMimeType,
}

impl View for StorageError {
    type V = StorageFault;

    open spec fn view(&self) -> StorageFault {
        match self {
            StorageError::Io(m) => StorageFault::Io(m@),
            StorageError::Multipart(m) => StorageFault::Multipart(m@),
            StorageError::MultipartFieldMissing(n) => StorageFault::MultipartFieldMissing(n@),
            StorageError::InvalidMimeType => StorageFault::InvalidMimeType,
        }
    }
}

/// A declared content type, split into its lower-case type and subtype
/// (`image/jpeg` is `image` and `jpeg`).
#[derive(Debug)]
pub struct MediaType {
    pub type_: String,
    pub subtype: String,
}

impl View for MediaType {
    type V = (Seq<char>, Seq<char>);

    open spec fn view(&self) -> (Seq<char>, Seq<char>) {
        (self.type_@, self.subtype@)
    }
}

/// What to do with one part of a multipart upload.
#[derive(Clone, Copy, Debug, PartialEq, Eq, Structural)]
pub enum FieldVerdict {
    /// The part is not the image: pass over it.
    Skip,
    /// The part is the image, of an accepted type: store it.
    Accept,
    /// The part is the image, of a type that is not accepted.
    Reject,
}

/// The name of the part that carries the uploaded image.
pub open spec fn upload_field_name() -> Seq<char> {
    "payload"@
}

/// The content types accepted for an image: JPEG and PNG.
pub open spec fn accepted_image(media: (Seq<char>, Seq<char>)) -> bool {
    media.0 == "image"@ && (media.1 == "jpeg"@ || media.1 == "png"@)
}

/// The verdict on a part with this name and declared content type.
pub open spec fn field_verdict(name: Option<Seq<char>>, media: Option<(Seq<char>, Seq<char>)>) -> FieldVerdict {
    if name != Some(upload_field_name()) {
        FieldVerdict::Skip
    } else {
        match media {
            Some(m) => if accepted_image(m) {
                FieldVerdict::Accept
            } else {
                FieldVerdict::Reject
            },
            None => FieldVerdict::Reject,
        }
    }
}

/// A character of a hyphenated lower-case UUID.
pub open spec fn is_token_char(c: char) -> bool {
    ('0' <= c && c <= '9') || ('a' <= c && c <= 'f') || c == '-'
}

/// A name that [`Storage::new_filename`] can give: 36 characters of a
/// hyphenated lower-case UUID, then `.jpeg`. It holds no `/`, so the file
/// stays directly under the asset root.
pub open spec fn is_generated_name(s: Seq<char>) -> bool {
    &&& s.len() == 41
    &&& s.subrange(36, 41) == ".jpeg"@
    &&& forall|i: int| 0 <= i < 36 ==> is_token_char(#[trigger] s[i])
}

/// Relies on `uuid::Uuid::new_v4` and the `Display` of `uuid::Uuid`: a
/// random version-4 UUID, written in the hyphenated lower-case form of 36
/// characters.
#[verifier::external_body]
fn random_token() -> (r: String)
    ensures
        r@.len() == 36,
        forall|i: int| 0 <= i < 36 ==> is_token_char(#[trigger] r@[i]),
{
    uuid::Uuid::new_v4().to_string()
}

/// The asset storage service: it knows files, not products.
#[derive(Debug)]
pub struct Storage;

impl Storage {
    pub fn new() -> (r: Storage)
        ensures
            r == Storage,
    {
        Storage
    }

    /// Decides on one part of a multipart body from its name and declared
    /// content type: only the part named `payload` is the image, and only
    /// JPEG and PNG are accepted.
    pub fn inspect_field(&self, name: Option<&str>, media: Option<&MediaType>) -> (r: FieldVerdict)
        ensures
            r == field_verdict(
                match name {
                    Some(n) => Some(n@),
                    None => None,
                },
                match media {
                    Some(m) => Some(m@),
                    None => None,
                },
            ),
    {
        let named = match name {
            Some(n) => same_text(n, "payload"),
            None => false,
        };
        if !named {
            return FieldVerdict::Skip;
        }
        match media {
            Some(m) => {
                if same_text(m.type_.as_str(), "image") && (same_text(m.subtype.as_str(), "jpeg")
                    || same_text(m.subtype.as_str(), "png")) {
                    FieldVerdict::Accept
                } else {
                    FieldVerdict::Reject
                }
            },
            None => FieldVerdict::Reject,
        }
    }

    /// The error for a body in which no part is named `payload`.
    pub fn missing_field(&self) -> (r: StorageError)
        ensures
            r@ == StorageFault::MultipartFieldMissing(upload_field_name()),
    {
        StorageError::MultipartFieldMissing("payload".to_owned())
    }

    /// A fresh name for a stored image, independent of anything the client
    /// sent.
    pub fn new_filename(&self) -> (r: String)
        ensures
            is_generated_name(r@),
    {
        let token = random_token();
        let ghost t = token@;
        let r = token.concat(".jpeg");
        proof {
            reveal_strlit(".jpeg");
            assert(r@.subrange(36, 41) =~= ".jpeg"@);
            assert forall|i: int| 0 <= i < 36 implies is_token_char(#[trigger] r@[i]) by {
                assert(r@[i] == t[i]);
            }
        }
        r
    }

    /// The path of a stored file: the file name under `./assets`.
    pub fn file_path(&self, filename: &str) -> (r: String)
        ensures
            r@ == "./assets/"@ + filename@,
    {
        "./assets/".to_owned().concat(filename)
    }
}

} // verus!
