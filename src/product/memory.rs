//! A product store held in memory, with the same operations and failure
//! taxonomy as the pooled one. Asset rows must name an existing product, as
//! the `assets` table's foreign key demands; so a product that still has
//! assets cannot be deleted.

use vstd::prelude::*;
use crate::product::{Asset, AssetModel, Product, ProductInsertable, ProductModel, ProductStatus};
use crate::product::store::{product_models, asset_models, ProductStoreError};

verus! {

/// A stored product row.
pub struct ProductRecord {
    pub id: i32,
    pub name: Seq<char>,
    pub price: i64,
    pub status: ProductStatus,
}

/// A stored asset row.
pub struct AssetRecord {
    pub id: i32,
    pub product_id: i32,
    pub filename: Seq<char>,
}

/// What a [`MemoryStore`] holds, as a mathematical value.
pub struct StoreModel {
    pub products: Seq<ProductRecord>,
    pub assets: Seq<AssetRecord>,
    /// The id that the next inserted product gets.
    pub next_product_id: i32,
    /// The id that the next inserted asset gets.
    pub next_asset_id: i32,
}

/// Whether some product row has this id.
pub open spec fn has_product(products: Seq<ProductRecord>, id: i32) -> bool {
    exists|i: int| 0 <= i < products.len() && #[trigger] products[i].id == id
}

/// Whether some asset row names this file.
pub open spec fn references(assets: Seq<AssetRecord>, filename: Seq<char>) -> bool {
    exists|j: int| 0 <= j < assets.len() && #[trigger] assets[j].filename == filename
}

/// Whether some asset row belongs to this product.
pub open spec fn owns_assets(assets: Seq<AssetRecord>, product_id: i32) -> bool {
    exists|j: int| 0 <= j < assets.len() && #[trigger] assets[j].product_id == product_id
}

impl StoreModel {
    /// Ids are positive, unique and below the next ones to be given out, and
    /// every asset row names an existing product.
    pub open spec fn valid(self) -> bool {
        &&& 1 <= self.next_product_id
        &&& 1 <= self.next_asset_id
        &&& forall|i: int|
            0 <= i < self.products.len() ==> 1 <= #[trigger] self.products[i].id
                < self.next_product_id
        &&& forall|i: int, k: int|
            0 <= i < k < self.products.len() ==> #[trigger] self.products[i].id
                != #[trigger] self.products[k].id
        &&& forall|j: int|
            0 <= j < self.assets.len() ==> 1 <= #[trigger] self.assets[j].id < self.next_asset_id
        &&& forall|j: int, k: int|
            0 <= j < k < self.assets.len() ==> #[trigger] self.assets[j].id
                != #[trigger] self.assets[k].id
        &&& forall|j: int|
            0 <= j < self.assets.len() ==> has_product(
                self.products,
                #[trigger] self.assets[j].product_id,
            )
    }
}

/// The assets of a product, in the order their rows were inserted.
pub open spec fn assets_of(assets: Seq<AssetRecord>, product_id: i32) -> Seq<AssetModel>
    decreases assets.len(),
{
    if assets.len() == 0 {
        Seq::empty()
    } else {
        let before = assets_of(assets.drop_last(), product_id);
        let a = assets.last();
        if a.product_id == product_id {
            before.push(AssetModel { id: a.id, filename: a.filename })
        } else {
            before
        }
    }
}

/// A product row together with its assets.
pub open spec fn product_view(p: ProductRecord, assets: Seq<AssetRecord>) -> ProductModel {
    ProductModel {
        id: p.id,
        name: p.name,
        price: p.price,
        status: p.status,
        assets: assets_of(assets, p.id),
    }
}

proof fn lemma_assets_of_none(assets: Seq<AssetRecord>, product_id: i32)
    requires
        !owns_assets(assets, product_id),
    ensures
        assets_of(assets, product_id) == Seq::<AssetModel>::empty(),
    decreases assets.len(),
{
    if assets.len() > 0 {
        let rest = assets.drop_last();
        assert forall|j: int| 0 <= j < rest.len() implies #[trigger] rest[j].product_id
            != product_id by {
            assert(rest[j] == assets[j]);
        }
        lemma_assets_of_none(rest, product_id);
        assert(assets[assets.len() - 1].product_id != product_id);
    }
}

struct StoredProduct {
    id: i32,
    name: String,
    price: i64,
    status: ProductStatus,
}

struct StoredAsset {
    id: i32,
    product_id: i32,
    filename: String,
}

impl View for StoredProduct {
    type V = ProductRecord;

    closed spec fn view(&self) -> ProductRecord {
        ProductRecord { id: self.id, name: self.name@, price: self.price, status: self.status }
    }
}

impl View for StoredAsset {
    type V = AssetRecord;

    closed spec fn view(&self) -> AssetRecord {
        AssetRecord { id: self.id, product_id: self.product_id, filename: self.filename@ }
    }
}

/// Products and asset rows held in memory.
pub struct MemoryStore {
    products: Vec<StoredProduct>,
    assets: Vec<StoredAsset>,
    next_product_id: i32,
    next_asset_id: i32,
}

impl View for MemoryStore {
    type V = StoreModel;

    closed spec fn view(&self) -> StoreModel {
        StoreModel {
            products: self.products@.map_values(|p: StoredProduct| p@),
            assets: self.assets@.map_values(|a: StoredAsset| a@),
            next_product_id: self.next_product_id,
            next_asset_id: self.next_asset_id,
        }
    }
}

impl MemoryStore {
    /// An empty store; the first ids it gives out are 1.
    pub fn new() -> (r: MemoryStore)
        ensures
            r@.valid(),
            r@.products.len() == 0,
            r@.assets.len() == 0,
            r@.next_product_id == 1,
            r@.next_asset_id == 1,
    {
        let r = MemoryStore {
            products: Vec::new(),
            assets: Vec::new(),
            next_product_id: 1,
            next_asset_id: 1,
        };
        assert(r@.products.len() == 0);
        assert(r@.assets.len() == 0);
        r
    }

    /// The position of the product row with this id.
    fn position(&self, id: i32) -> (r: Option<usize>)
        ensures
            match r {
                Some(k) => k < self@.products.len() && self@.products[k as int].id == id,
                None => !has_product(self@.products, id),
            },
    {
        let mut i: usize = 0;
        while i < self.products.len()
            invariant
                i <= self.products@.len(),
                forall|k: int| 0 <= k < i ==> #[trigger] self@.products[k].id != id,
            decreases self.products@.len() - i,
        {
            if self.products[i].id == id {
                return Some(i);
            }
            i = i + 1;
        }
        None
    }

    /// The assets of the product with this id, as entities.
    fn assets_for(&self, product_id: i32) -> (r: Vec<Asset>)
        ensures
            asset_models(r@) == assets_of(self@.assets, product_id),
    {
        let ghost all = self@.assets;
        let mut out: Vec<Asset> = Vec::new();
        let mut j: usize = 0;
        assert(all.subrange(0, 0) =~= Seq::<AssetRecord>::empty());
        assert(asset_models(out@) =~= Seq::<AssetModel>::empty());
        while j < self.assets.len()
            invariant
                all == self@.assets,
                j <= all.len(),
                asset_models(out@) == assets_of(all.subrange(0, j as int), product_id),
            decreases all.len() - j,
        {
            let ghost cur = all.subrange(0, j + 1);
            assert(cur.drop_last() =~= all.subrange(0, j as int));
            assert(cur.last() == all[j as int]);
            let a = &self.assets[j];
            if a.product_id == product_id {
                let ghost before = out@;
                out.push(Asset { id: a.id, filename: a.filename.clone() });
                assert(asset_models(out@) =~= asset_models(before).push(out@.last()@));
            }
            j = j + 1;
        }
        assert(all.subrange(0, j as int) =~= all);
        out
    }

    fn assemble(&self, i: usize) -> (r: Product)
        requires
            i < self@.products.len(),
        ensures
            r@ == product_view(self@.products[i as int], self@.assets),
    {
        let p = &self.products[i];
        Product {
            id: p.id,
            name: p.name.clone(),
            price: p.price,
            status: p.status,
            assets: self.assets_for(p.id),
        }
    }

    /// Every product, in insertion order, each with its assets. Never fails.
    pub fn get_all(&self) -> (r: Result<Vec<Product>, ProductStoreError>)
        ensures
            match r {
                Ok(v) => product_models(v@) == self@.products.map_values(
                    |p: ProductRecord| product_view(p, self@.assets),
                ),
                Err(_) => false,
            },
    {
        let ghost want = self@.products.map_values(|p: ProductRecord| product_view(p, self@.assets));
        let mut out: Vec<Product> = Vec::new();
        let mut i: usize = 0;
        while i < self.products.len()
            invariant
                want == self@.products.map_values(|p: ProductRecord| product_view(p, self@.assets)),
                i <= self@.products.len(),
                product_models(out@) =~= want.subrange(0, i as int),
            decreases self@.products.len() - i,
        {
            let p = self.assemble(i);
            let ghost before = out@;
            out.push(p);
            assert(product_models(out@) =~= product_models(before).push(out@.last()@));
            assert(want[i as int] == product_view(self@.products[i as int], self@.assets));
            i = i + 1;
        }
        assert(want.subrange(0, i as int) =~= want);
        Ok(out)
    }

    /// The product with this id and its assets, or nothing where there is no
    /// such product: an absent product is no failure. Never fails.
    pub fn get_by_id(&self, id: i32) -> (r: Result<Option<Product>, ProductStoreError>)
        requires
            self@.valid(),
        ensures
            match r {
                Ok(None) => !has_product(self@.products, id),
                Ok(Some(p)) => {
                    &&& has_product(self@.products, id)
                    &&& forall|k: int|
                        0 <= k < self@.products.len() && #[trigger] self@.products[k].id == id
                            ==> p@ == product_view(self@.products[k], self@.assets)
                },
                Err(_) => false,
            },
    {
        match self.position(id) {
            None => Ok(None),
            Some(k) => {
                let p = self.assemble(k);
                assert(has_product(self@.products, id));
                assert forall|j: int|
                    0 <= j < self@.products.len() && #[trigger] self@.products[j].id
                        == id implies p@ == product_view(self@.products[j], self@.assets) by {
                    if j < k {
                        assert(self@.products[j].id != self@.products[k as int].id);
                    } else if k < j {
                        assert(self@.products[k as int].id != self@.products[j].id);
                    }
                }
                Ok(Some(p))
            },
        }
    }

    /// Inserts a product with the next id, published and with no assets.
    /// Fails, changing nothing, once the ids are used up.
    pub fn insert(&mut self, product: ProductInsertable) -> (r: Result<Product, ProductStoreError>)
        requires
            old(self)@.valid(),
        ensures
            final(self)@.valid(),
            if old(self)@.next_product_id == i32::MAX {
                r matches Err(ProductStoreError::QueryFailed(_)) && final(self)@ == old(self)@
            } else {
                match r {
                    Ok(p) => {
                        let rec = ProductRecord {
                            id: old(self)@.next_product_id,
                            name: product.name@,
                            price: product.price,
                            status: ProductStatus::Published,
                        };
                        &&& p@ == product_view(rec, old(self)@.assets)
                        &&& p@.assets == Seq::<AssetModel>::empty()
                        &&& final(self)@ == (StoreModel {
                            products: old(self)@.products.push(rec),
                            next_product_id: (old(self)@.next_product_id + 1) as i32,
                            ..old(self)@
                        })
                    },
                    Err(_) => false,
                }
            },
    {
        if self.next_product_id == i32::MAX {
            return Err(ProductStoreError::QueryFailed("product ids are used up".to_owned()));
        }
        let id = self.next_product_id;
        proof {
            assert forall|j: int| 0 <= j < self@.assets.len() implies #[trigger] self@.assets[j].product_id != id by {
                let w = choose|i: int| 0 <= i < self@.products.len() && #[trigger] self@.products[i].id == self@.assets[j].product_id;
                assert(self@.products[w].id < id);
            }
            lemma_assets_of_none(self@.assets, id);
        }
        let stored = StoredProduct {
            id,
            name: product.name.clone(),
            price: product.price,
            status: ProductStatus::Published,
        };
        let ghost old_view = self@;
        self.products.push(stored);
        self.next_product_id = id + 1;
        assert(self@.products =~= old_view.products.push(stored@));
        proof {
            assert forall|j: int| 0 <= j < self@.assets.len() implies has_product(
                self@.products,
                #[trigger] self@.assets[j].product_id,
            ) by {
                let w = choose|i: int| 0 <= i < old_view.products.len() && #[trigger] old_view.products[i].id == old_view.assets[j].product_id;
                assert(self@.products[w] == old_view.products[w]);
            }
        }
        let p = Product {
            id,
            name: product.name,
            price: product.price,
            status: ProductStatus::Published,
            assets: Vec::new(),
        };
        assert(p@.assets =~= Seq::<AssetModel>::empty());
        Ok(p)
    }

    /// Whether some asset row belongs to this product.
    fn has_assets(&self, product_id: i32) -> (r: bool)
        ensures
            r == owns_assets(self@.assets, product_id),
    {
        let mut j: usize = 0;
        while j < self.assets.len()
            invariant
                j <= self@.assets.len(),
                forall|k: int| 0 <= k < j ==> #[trigger] self@.assets[k].product_id != product_id,
            decreases self@.assets.len() - j,
        {
            if self.assets[j].product_id == product_id {
                assert(self@.assets[j as int].product_id == product_id);
                return true;
            }
            j = j + 1;
        }
        false
    }

    /// Deletes the product with this id. Deleting an absent product changes
    /// nothing and succeeds, however often it is repeated. A product that
    /// still has assets is not deleted: the asset rows would be left naming
    /// no product, so that fails as the foreign key does.
    pub fn delete_by_id(&mut self, id: i32) -> (r: Result<(), ProductStoreError>)
        requires
            old(self)@.valid(),
        ensures
            final(self)@.valid(),
            if !has_product(old(self)@.products, id) {
                r is Ok && final(self)@ == old(self)@
            } else if owns_assets(old(self)@.assets, id) {
                r matches Err(ProductStoreError::QueryFailed(_)) && final(self)@ == old(self)@
            } else {
                &&& r is Ok
                &&& !has_product(final(self)@.products, id)
                &&& forall|k: int|
                    0 <= k < old(self)@.products.len() && #[trigger] old(self)@.products[k].id
                        == id ==> final(self)@.products == old(self)@.products.remove(k)
                &&& final(self)@.assets == old(self)@.assets
                &&& final(self)@.next_product_id == old(self)@.next_product_id
                &&& final(self)@.next_asset_id == old(self)@.next_asset_id
            },
    {
        match self.position(id) {
            None => Ok(()),
            Some(k) => {
                if self.has_assets(id) {
                    return Err(
                        ProductStoreError::QueryFailed("the product still has assets".to_owned()),
                    );
                }
                let ghost old_view = self@;
                let _removed = self.products.remove(k);
                assert(self@.products =~= old_view.products.remove(k as int));
                proof {
                    let ps = old_view.products;
                    assert forall|i: int| 0 <= i < ps.len() && #[trigger] ps[i].id == id implies i
                        == k by {
                        if i < k {
                            assert(ps[i].id != ps[k as int].id);
                        } else if k < i {
                            assert(ps[k as int].id != ps[i].id);
                        }
                    }
                    assert forall|i: int| 0 <= i < self@.products.len() implies #[trigger] self@.products[i].id != id by {
                        if i < k {
                            assert(self@.products[i] == ps[i]);
                        } else {
                            assert(self@.products[i] == ps[i + 1]);
                        }
                    }
                    assert forall|j: int| 0 <= j < self@.assets.len() implies has_product(
                        self@.products,
                        #[trigger] self@.assets[j].product_id,
                    ) by {
                        let pid = self@.assets[j].product_id;
                        let w = choose|i: int| 0 <= i < ps.len() && #[trigger] ps[i].id == pid;
                        assert(pid != id);
                        if w < k {
                            assert(self@.products[w] == ps[w]);
                        } else {
                            assert(self@.products[w - 1] == ps[w]);
                        }
                    }
                    assert forall|i: int, m: int| 0 <= i < m < self@.products.len() implies #[trigger] self@.products[i].id != #[trigger] self@.products[m].id by {
                        let oi = if i < k { i } else { i + 1 };
                        let om = if m < k { m } else { m + 1 };
                        assert(self@.products[i] == ps[oi]);
                        assert(self@.products[m] == ps[om]);
                    }
                    assert forall|i: int| 0 <= i < self@.products.len() implies 1 <= #[trigger] self@.products[i].id < self@.next_product_id by {
                        let oi = if i < k { i } else { i + 1 };
                        assert(self@.products[i] == ps[oi]);
                    }
                }
                Ok(())
            },
        }
    }

    /// Adds an asset row naming `filename` to the product with this id. The
    /// file is not looked at. Fails, changing nothing, where there is no such
    /// product or the ids are used up.
    pub fn add_asset(&mut self, product_id: i32, filename: &String) -> (r: Result<
        Asset,
        ProductStoreError,
    >)
        requires
            old(self)@.valid(),
        ensures
            final(self)@.valid(),
            if !has_product(old(self)@.products, product_id) || old(self)@.next_asset_id
                == i32::MAX {
                r matches Err(ProductStoreError::QueryFailed(_)) && final(self)@ == old(self)@
            } else {
                match r {
                    Ok(a) => {
                        let rec = AssetRecord {
                            id: old(self)@.next_asset_id,
                            product_id,
                            filename: filename@,
                        };
                        &&& a@ == AssetModel { id: rec.id, filename: filename@ }
                        &&& final(self)@ == (StoreModel {
                            assets: old(self)@.assets.push(rec),
                            next_asset_id: (old(self)@.next_asset_id + 1) as i32,
                            ..old(self)@
                        })
                    },
                    Err(_) => false,
                }
            },
    {
        if self.position(product_id).is_none() {
            return Err(ProductStoreError::QueryFailed("no product has this id".to_owned()));
        }
        if self.next_asset_id == i32::MAX {
            return Err(ProductStoreError::QueryFailed("asset ids are used up".to_owned()));
        }
        let id = self.next_asset_id;
        let stored = StoredAsset { id, product_id, filename: filename.clone() };
        let ghost old_view = self@;
        self.assets.push(stored);
        self.next_asset_id = id + 1;
        assert(self@.assets =~= old_view.assets.push(stored@));
        proof {
            assert forall|j: int| 0 <= j < self@.assets.len() implies has_product(
                self@.products,
                #[trigger] self@.assets[j].product_id,
            ) by {
                if j < old_view.assets.len() {
                    assert(self@.assets[j] == old_view.assets[j]);
                }
            }
            assert forall|j: int| 0 <= j < self@.assets.len() implies 1 <= #[trigger] self@.assets[j].id < self@.next_asset_id by {
                if j < old_view.assets.len() {
                    assert(self@.assets[j] == old_view.assets[j]);
                }
            }
            assert forall|j: int, m: int| 0 <= j < m < self@.assets.len() implies #[trigger] self@.assets[j].id != #[trigger] self@.assets[m].id by {
                assert(self@.assets[j] == old_view.assets[j]);
                if m < old_view.assets.len() {
                    assert(self@.assets[m] == old_view.assets[m]);
                }
            }
        }
        Ok(Asset { id, filename: filename.clone() })
    }
}

} // verus!
