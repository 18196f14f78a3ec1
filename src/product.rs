//! Products and their image assets, and how each is read from a row.

pub mod memory;
pub mod store;

use vstd::prelude::*;
use crate::row::{
    hundredths_column, int_column, same_text, text_column, MappingError, MappingFault, Row,
};

verus! {

/// An image attached to a product: a row of `assets` naming a stored file.
#[derive(Debug)]
pub struct Asset {
    pub id: i32,
    pub filename: String,
}

/// What an [`Asset`] holds, as a mathematical value.
pub struct AssetModel {
    pub id: i32,
    pub filename: Seq<char>,
}

impl View for Asset {
    type V = AssetModel;

    open spec fn view(&self) -> AssetModel {
        AssetModel { id: self.id, filename: self.filename@ }
    }
}

/// Whether a product is shown to customers.
#[derive(Clone, Copy, Debug, PartialEq, Eq, Structural)]
pub enum ProductStatus {
    Published,
    Draft,
}

/// A product with the assets that belong to it.
#[derive(Debug)]
pub struct Product {
    pub id: i32,
    pub name: String,
    /// The price in hundredths of the currency unit.
    pub price: i64,
    pub status: ProductStatus,
    pub assets: Vec<Asset>,
}

/// What a [`Product`] holds, as a mathematical value.
pub struct ProductModel {
    pub id: i32,
    pub name: Seq<char>,
    pub price: i64,
    pub status: ProductStatus,
    pub assets: Seq<AssetModel>,
}

impl View for Product {
    type V = ProductModel;

    open spec fn view(&self) -> ProductModel {
        ProductModel {
            id: self.id,
            name: self.name@,
            price: self.price,
            status: self.status,
            assets: self.assets@.map_values(|a: Asset| a@),
        }
    }
}

/// The fields of a product that is about to be inserted.
#[derive(Debug)]
pub struct ProductInsertable {
    pub name: String,
    /// The price in hundredths of the currency unit.
    pub price: i64,
}

/// A field of [`ProductInsertable`] that holds an unacceptable value.
#[derive(Clone, Copy, Debug, PartialEq, Eq, Structural)]
pub enum InvalidField {
    /// The name is empty.
    Name,
    /// The price is zero or negative.
    Price,
}

/// The status that a `status` column's text stands for.
pub open spec fn status_of_text(s: Seq<char>) -> ProductStatus {
    if s == "Draft"@ {
        ProductStatus::Draft
    } else {
        ProductStatus::Published
    }
}

/// The asset that a row of `assets` stands for: columns `id` and `filename`,
/// read in that order.
pub open spec fn asset_of_row(cols: Seq<(Seq<char>, crate::row::ValueModel)>) -> Result<
    AssetModel,
    MappingFault,
> {
    match int_column(cols, "id"@) {
        Err(e) => Err(e),
        Ok(id) => match text_column(cols, "filename"@) {
            Err(e) => Err(e),
            Ok(filename) => Ok(AssetModel { id, filename }),
        },
    }
}

/// The product that a row of `products` stands for, with no assets yet:
/// columns `status`, `id`, `name` and `price`, read in that order.
pub open spec fn product_of_row(cols: Seq<(Seq<char>, crate::row::ValueModel)>) -> Result<
    ProductModel,
    MappingFault,
> {
    match text_column(cols, "status"@) {
        Err(e) => Err(e),
        Ok(status) => match int_column(cols, "id"@) {
            Err(e) => Err(e),
            Ok(id) => match text_column(cols, "name"@) {
                Err(e) => Err(e),
                Ok(name) => match hundredths_column(cols, "price"@) {
                    Err(e) => Err(e),
                    Ok(price) => Ok(
                        ProductModel {
                            id,
                            name,
                            price,
                            status: status_of_text(status),
                            assets: Seq::empty(),
                        },
                    ),
                },
            },
        },
    }
}

/// The fields of a product to insert that fail validation, in field order.
pub open spec fn invalid_fields(name: Seq<char>, price: i64) -> Seq<InvalidField> {
    let by_name = if name.len() == 0 {
        seq![InvalidField::Name]
    } else {
        Seq::empty()
    };
    if price <= 0 {
        by_name.push(InvalidField::Price)
    } else {
        by_name
    }
}

impl Asset {
    /// Reads an asset from a row of `assets`.
    pub fn from_row(row: &Row) -> (r: Result<Asset, MappingError>)
        ensures
            match r {
                Ok(a) => asset_of_row(row@) == Ok::<AssetModel, MappingFault>(a@),
                Err(e) => asset_of_row(row@) == Err::<AssetModel, MappingFault>(e@),
            },
    {
        let id = match row.get_int("id") {
            Ok(v) => v,
            Err(e) => return Err(e),
        };
        let filename = match row.get_text("filename") {
            Ok(v) => v,
            Err(e) => return Err(e),
        };
        Ok(Asset { id, filename })
    }
}

impl Product {
    /// Reads a product from a row of `products`; its assets are left empty,
    /// to be filled from their own rows.
    pub fn try_from(row: &Row) -> (r: Result<Product, MappingError>)
        ensures
            match r {
                Ok(p) => product_of_row(row@) == Ok::<ProductModel, MappingFault>(p@),
                Err(e) => product_of_row(row@) == Err::<ProductModel, MappingFault>(e@),
            },
    {
        let status_text = match row.get_text("status") {
            Ok(v) => v,
            Err(e) => return Err(e),
        };
        let id = match row.get_int("id") {
            Ok(v) => v,
            Err(e) => return Err(e),
        };
        let name = match row.get_text("name") {
            Ok(v) => v,
            Err(e) => return Err(e),
        };
        let price = match row.get_hundredths("price") {
            Ok(v) => v,
            Err(e) => return Err(e),
        };
        let status = if same_text(status_text.as_str(), "Draft") {
            ProductStatus::Draft
        } else {
            ProductStatus::Published
        };
        let p = Product { id, name, price, status, assets: Vec::new() };
        assert(p@.assets =~= Seq::<AssetModel>::empty());
        Ok(p)
    }
}

impl ProductInsertable {
    /// Checks the fields of a product to insert: the name must not be empty
    /// and the price must be positive. Lists every field that fails.
    pub fn validate(&self) -> (r: Result<(), Vec<InvalidField>>)
        ensures
            match r {
                Ok(()) => invalid_fields(self.name@, self.price).len() == 0,
                Err(fields) => fields@.len() > 0 && fields@ == invalid_fields(
                    self.name@,
                    self.price,
                ),
            },
    {
        let mut fields: Vec<InvalidField> = Vec::new();
        if self.name.as_str().unicode_len() == 0 {
            fields.push(InvalidField::Name);
        }
        if self.price <= 0 {
            fields.push(InvalidField::Price);
        }
        assert(fields@ =~= invalid_fields(self.name@, self.price));
        if fields.len() == 0 {
            Ok(())
        } else {
            Err(fields)
        }
    }
}

} // verus!
