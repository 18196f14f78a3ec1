//! Product catalogue backend: the row mapper, the product store's
//! transactional read protocol, the asset storage rules, and the
//! compensating "add asset to product" protocol that keeps asset rows and
//! asset files in step.

pub mod api;
pub mod category;
pub mod error;
pub mod row;
pub mod product;
pub mod storage;
pub mod upload;
