//! Attaching an uploaded image to a product: the file is written first,
//! then the asset row; where the row cannot be added the file is removed
//! again, so that an asset row exists exactly where its file does.

use vstd::prelude::*;
use crate::product::{Asset, AssetModel};
use crate::product::memory::{has_product, references, AssetRecord, MemoryStore, StoreModel};
use crate::product::store::{ProductStoreError, StoreFault};
use crate::storage::{StorageError, StorageFault};
use crate::storage::memory::{
    chosen_upload, distinct_names, field_models, file_from, has_file, put_file, MemoryStorage,
    UploadField,
};

verus! {

/// Why attaching an image failed.
#[derive(Debug)]
pub enum UploadError {
    /// The image could not be stored; nothing was changed.
    Storage(StorageError),
    /// The asset row could not be added; the stored file was removed again.
    Store(ProductStoreError),
}

/// What an [`UploadError`] says, as a mathematical value.
pub enum UploadFault {
    Storage(StorageFault),
    Store(StoreFault),
}

impl View for UploadError {
    type V = UploadFault;

    open spec fn view(&self) -> UploadFault {
        match self {
            UploadError::Storage(e) => UploadFault::Storage(e@),
            UploadError::Store(e) => UploadFault::Store(e@),
        }
    }
}

/// Where an upload stands.
#[derive(Clone, Copy, Debug, PartialEq, Eq, Structural)]
pub enum UploadStage {
    /// The image is being stored.
    Saving,
    /// The asset row is being added.
    Adding,
    /// The row could not be added; the stored file is being removed.
    Compensating,
    /// The upload is over.
    Finished,
}

/// What has to be done next for an upload.
#[derive(Debug)]
pub enum UploadAction {
    /// Add an asset row naming this file to the product with this id.
    AddAsset(i32, String),
    /// Remove this stored file.
    DeleteImage(String),
    /// The upload is over, with this result.
    Finish(Result<Asset, UploadError>),
}

/// The state of an upload, as a mathematical value.
pub struct UploadModel {
    pub product_id: i32,
    pub stage: UploadStage,
    /// The name that the stored file got.
    pub filename: Option<Seq<char>>,
    /// The failure to add the asset row, which the upload ends with.
    pub failure: Option<StoreFault>,
}

/// One "add an image to a product" operation. The caller stores the image,
/// adds the row and removes the file as the actions say, and reports each
/// outcome to the matching method.
pub struct AssetUpload {
    product_id: i32,
    stage: UploadStage,
    filename: Option<String>,
    failure: Option<ProductStoreError>,
}

impl View for AssetUpload {
    type V = UploadModel;

    closed spec fn view(&self) -> UploadModel {
        UploadModel {
            product_id: self.product_id,
            stage: self.stage,
            filename: match &self.filename {
                Some(f) => Some(f@),
                None => None,
            },
            failure: match &self.failure {
                Some(e) => Some(e@),
                None => None,
            },
        }
    }
}

impl AssetUpload {
    /// The upload's internal consistency.
    pub closed spec fn wf(&self) -> bool {
        &&& (self.stage == UploadStage::Adding || self.stage == UploadStage::Compensating)
            ==> self.filename is Some
        &&& self.stage == UploadStage::Compensating ==> self.failure is Some
    }

    /// Starts attaching an image to the product with this id. The first step
    /// is to store the image and to report the outcome to
    /// [`AssetUpload::saved`].
    pub fn new(product_id: i32) -> (r: AssetUpload)
        ensures
            r.wf(),
            r@ == (UploadModel {
                product_id,
                stage: UploadStage::Saving,
                filename: None,
                failure: None,
            }),
    {
        AssetUpload { product_id, stage: UploadStage::Saving, filename: None, failure: None }
    }

    /// The image was stored under this name, or could not be. A failure
    /// ends the upload as it is; after success the asset row is asked for.
    pub fn saved(&mut self, r: Result<String, StorageError>) -> (a: UploadAction)
        requires
            old(self).wf(),
            old(self)@.stage == UploadStage::Saving,
        ensures
            final(self).wf(),
            final(self)@.product_id == old(self)@.product_id,
            match r {
                Err(e) => final(self)@.stage == UploadStage::Finished && match a {
                    UploadAction::Finish(Err(x)) => x@ == UploadFault::Storage(e@),
                    _ => false,
                },
                Ok(f) => {
                    &&& final(self)@.stage == UploadStage::Adding
                    &&& final(self)@.filename == Some(f@)
                    &&& match a {
                        UploadAction::AddAsset(id, g) => id == old(self)@.product_id && g@ == f@,
                        _ => false,
                    }
                },
            },
    {
        match r {
            Err(e) => {
                self.stage = UploadStage::Finished;
                UploadAction::Finish(Err(UploadError::Storage(e)))
            },
            Ok(f) => {
                let name = f.clone();
                self.filename = Some(f);
                self.stage = UploadStage::Adding;
                UploadAction::AddAsset(self.product_id, name)
            },
        }
    }

    /// The asset row was added, or could not be. After success the upload
    /// is over; after a failure the stored file must be removed first.
    pub fn added(&mut self, r: Result<Asset, ProductStoreError>) -> (a: UploadAction)
        requires
            old(self).wf(),
            old(self)@.stage == UploadStage::Adding,
        ensures
            final(self).wf(),
            final(self)@.product_id == old(self)@.product_id,
            final(self)@.filename == old(self)@.filename,
            match r {
                Ok(asset) => final(self)@.stage == UploadStage::Finished && match a {
                    UploadAction::Finish(Ok(x)) => x == asset,
                    _ => false,
                },
                Err(e) => {
                    &&& final(self)@.stage == UploadStage::Compensating
                    &&& final(self)@.failure == Some(e@)
                    &&& match a {
                        UploadAction::DeleteImage(g) => old(self)@.filename == Some(g@),
                        _ => false,
                    }
                },
            },
    {
        match r {
            Ok(asset) => {
                self.stage = UploadStage::Finished;
                UploadAction::Finish(Ok(asset))
            },
            Err(e) => {
                self.failure = Some(e);
                self.stage = UploadStage::Compensating;
                let name = match &self.filename {
                    Some(f) => f.clone(),
                    None => vstd::pervasive::unreached(),
                };
                UploadAction::DeleteImage(name)
            },
        }
    }

    /// The stored file was removed, or could not be. Either way the upload
    /// ends with the failure to add the row: a failed removal does not take
    /// its place.
    pub fn deleted(&mut self, r: Result<(), StorageError>) -> (a: UploadAction)
        requires
            old(self).wf(),
            old(self)@.stage == UploadStage::Compensating,
        ensures
            final(self).wf(),
            final(self)@.stage == UploadStage::Finished,
            match a {
                UploadAction::Finish(Err(UploadError::Store(x))) => old(self)@.failure == Some(
                    x@,
                ),
                _ => false,
            },
    {
        let mut failure: Option<ProductStoreError> = None;
        std::mem::swap(&mut failure, &mut self.failure);
        self.stage = UploadStage::Finished;
        match failure {
            Some(e) => UploadAction::Finish(Err(UploadError::Store(e))),
            None => vstd::pervasive::unreached(),
        }
    }
}

/// Attaches the image of a multipart body to a product, on an in-memory
/// store and file store: the file is stored under `filename`, then the asset
/// row is added; where the row cannot be added, the file is removed again
/// and the upload fails with the store's error.
pub fn add_product_asset(
    store: &mut MemoryStore,
    files: &mut MemoryStorage,
    product_id: i32,
    fields: &Vec<UploadField>,
    filename: &String,
) -> (r: Result<Asset, UploadError>)
    requires
        old(store)@.valid(),
        distinct_names(old(files)@),
    ensures
        final(store)@.valid(),
        distinct_names(final(files)@),
        match chosen_upload(field_models(fields@)) {
            Err(f) => {
                &&& r matches Err(e) && e@ == UploadFault::Storage(f)
                &&& final(store)@ == old(store)@
                &&& final(files)@ == old(files)@
            },
            Ok(k) => {
                let saved = put_file(old(files)@, filename@, fields@[k]@.data);
                if !has_product(old(store)@.products, product_id) || old(store)@.next_asset_id
                    == i32::MAX {
                    &&& r matches Err(UploadError::Store(ProductStoreError::QueryFailed(_)))
                    &&& final(store)@ == old(store)@
                    &&& !has_file(final(files)@, filename@)
                    &&& match file_from(saved, filename@, 0) {
                        Some(i) => final(files)@ == saved.remove(i),
                        None => false,
                    }
                } else {
                    &&& r matches Ok(a) && a@ == AssetModel {
                        id: old(store)@.next_asset_id,
                        filename: filename@,
                    }
                    &&& final(files)@ == saved
                    &&& final(store)@ == (StoreModel {
                        assets: old(store)@.assets.push(
                            AssetRecord {
                                id: old(store)@.next_asset_id,
                                product_id,
                                filename: filename@,
                            },
                        ),
                        next_asset_id: (old(store)@.next_asset_id + 1) as i32,
                        ..old(store)@
                    })
                }
            },
        },
        r matches Err(UploadError::Storage(_)) ==> final(files)@ == old(files)@ && final(store)@
            == old(store)@,
        r matches Err(UploadError::Store(_)) ==> {
            &&& !has_file(final(files)@, filename@)
            &&& final(store)@ == old(store)@
            &&& !references(old(store)@.assets, filename@) ==> !references(
                final(store)@.assets,
                filename@,
            )
        },
{
    let mut upload = AssetUpload::new(product_id);
    let saved = files.save_image_as(fields, filename);
    let action = upload.saved(saved);
    let (id, name) = match action {
        UploadAction::AddAsset(id, name) => (id, name),
        UploadAction::Finish(r) => return r,
        UploadAction::DeleteImage(_) => vstd::pervasive::unreached(),
    };
    let added = store.add_asset(id, &name);
    let action = upload.added(added);
    let name = match action {
        UploadAction::DeleteImage(name) => name,
        UploadAction::Finish(r) => return r,
        UploadAction::AddAsset(..) => vstd::pervasive::unreached(),
    };
    let removed = files.delete_image(name.as_str());
    match upload.deleted(removed) {
        UploadAction::Finish(r) => r,
        _ => vstd::pervasive::unreached(),
    }
}

} // verus!
