//! The product store: its error taxonomy, the row-set assembly of products
//! with their assets, the transactional read protocol driven by a pooled
//! connection, and an in-memory store.

use vstd::prelude::*;
use crate::product::{
    asset_of_row, product_of_row, Asset, AssetModel, Product, ProductInsertable, ProductModel,
    ProductStatus,
};
use crate::row::{MappingError, MappingFault, Row, ValueModel};

verus! {

/// A row as a mathematical value: its columns' names and values.
pub type RowModel = Seq<(Seq<char>, ValueModel)>;

/// Why a store operation failed. Each is terminal for the operation.
#[derive(Debug)]
pub enum ProductStoreError {
    /// A statement could not be executed.
    QueryFailed(String),
    /// A row could not be read as an entity.
    MappingFailed(MappingError),
    /// No connection could be had from the pool, or it broke.
    ConnectionFailed(String),
}

/// What a [`ProductStoreError`] says, as a mathematical value.
pub enum StoreFault {
    QueryFailed(Seq<char>),
    MappingFailed(MappingFault),
    ConnectionFailed(Seq<char>),
}

impl View for ProductStoreError {
    type V = StoreFault;

    open spec fn view(&self) -> StoreFault {
        match self {
            ProductStoreError::QueryFailed(m) => StoreFault::QueryFailed(m@),
            ProductStoreError::MappingFailed(e) => StoreFault::MappingFailed(e@),
            ProductStoreError::ConnectionFailed(m) => StoreFault::ConnectionFailed(m@),
        }
    }
}

/// The models of a sequence of rows.
pub open spec fn row_models(rows: Seq<Row>) -> Seq<RowModel> {
    rows.map_values(|r: Row| r@)
}

/// The models of a sequence of assets.
pub open spec fn asset_models(assets: Seq<Asset>) -> Seq<AssetModel> {
    assets.map_values(|a: Asset| a@)
}

/// The models of a sequence of products.
pub open spec fn product_models(products: Seq<Product>) -> Seq<ProductModel> {
    products.map_values(|p: Product| p@)
}

/// Every row read as an asset, or the fault of the first row that cannot be.
pub open spec fn all_assets(rows: Seq<RowModel>) -> Result<Seq<AssetModel>, MappingFault>
    decreases rows.len(),
{
    if rows.len() == 0 {
        Ok(Seq::empty())
    } else {
        match all_assets(rows.drop_last()) {
            Err(e) => Err(e),
            Ok(done) => match asset_of_row(rows.last()) {
                Err(e) => Err(e),
                Ok(a) => Ok(done.push(a)),
            },
        }
    }
}

/// Every row read as a product, or the fault of the first row that cannot be.
pub open spec fn all_products(rows: Seq<RowModel>) -> Result<Seq<ProductModel>, MappingFault>
    decreases rows.len(),
{
    if rows.len() == 0 {
        Ok(Seq::empty())
    } else {
        match all_products(rows.drop_last()) {
            Err(e) => Err(e),
            Ok(done) => match product_of_row(rows.last()) {
                Err(e) => Err(e),
                Ok(p) => Ok(done.push(p)),
            },
        }
    }
}

/// The products that `rows` stand for, where all of them can be read.
pub open spec fn mapped_products(rows: Seq<RowModel>) -> Seq<ProductModel> {
    match all_products(rows) {
        Ok(ps) => ps,
        Err(_) => Seq::empty(),
    }
}

/// `p` with `assets` as its assets.
pub open spec fn with_assets(p: ProductModel, assets: Seq<AssetModel>) -> ProductModel {
    ProductModel { id: p.id, name: p.name, price: p.price, status: p.status, assets }
}

/// Each product of `ps` with the assets read from the rows at its position
/// in `asset_rows`, or the fault of the first asset row that cannot be read.
pub open spec fn attach_all(ps: Seq<ProductModel>, asset_rows: Seq<Seq<RowModel>>) -> Result<
    Seq<ProductModel>,
    MappingFault,
>
    decreases ps.len(),
{
    if ps.len() == 0 {
        Ok(Seq::empty())
    } else {
        match attach_all(ps.drop_last(), asset_rows) {
            Err(e) => Err(e),
            Ok(done) => match all_assets(asset_rows[ps.len() - 1]) {
                Err(e) => Err(e),
                Ok(a) => Ok(done.push(with_assets(ps.last(), a))),
            },
        }
    }
}

/// The products with their assets that a read assembles from the product
/// rows and, for each product in turn, the rows of its assets.
pub open spec fn assembled(product_rows: Seq<RowModel>, asset_rows: Seq<Seq<RowModel>>) -> Result<
    Seq<ProductModel>,
    MappingFault,
> {
    match all_products(product_rows) {
        Err(e) => Err(e),
        Ok(ps) => attach_all(ps, asset_rows),
    }
}

proof fn lemma_assets_prefix_err(rows: Seq<RowModel>, k: int)
    requires
        0 <= k <= rows.len(),
        all_assets(rows.subrange(0, k)) is Err,
    ensures
        all_assets(rows) == all_assets(rows.subrange(0, k)),
    decreases rows.len(),
{
    if k == rows.len() {
        assert(rows.subrange(0, k) =~= rows);
    } else {
        assert(rows.drop_last().subrange(0, k) =~= rows.subrange(0, k));
        lemma_assets_prefix_err(rows.drop_last(), k);
    }
}

proof fn lemma_products_prefix_err(rows: Seq<RowModel>, k: int)
    requires
        0 <= k <= rows.len(),
        all_products(rows.subrange(0, k)) is Err,
    ensures
        all_products(rows) == all_products(rows.subrange(0, k)),
    decreases rows.len(),
{
    if k == rows.len() {
        assert(rows.subrange(0, k) =~= rows);
    } else {
        assert(rows.drop_last().subrange(0, k) =~= rows.subrange(0, k));
        lemma_products_prefix_err(rows.drop_last(), k);
    }
}

proof fn lemma_all_products_len(rows: Seq<RowModel>)
    requires
        all_products(rows) is Ok,
    ensures
        mapped_products(rows).len() == rows.len(),
    decreases rows.len(),
{
    if rows.len() > 0 {
        lemma_all_products_len(rows.drop_last());
    }
}

proof fn lemma_attach_pointwise(ps: Seq<ProductModel>, asset_rows: Seq<Seq<RowModel>>)
    requires
        asset_rows.len() >= ps.len(),
    ensures
        match attach_all(ps, asset_rows) {
            Ok(v) => {
                &&& v.len() == ps.len()
                &&& forall|i: int|
                    0 <= i < v.len() ==> all_assets(asset_rows[i]) == Ok::<
                        Seq<AssetModel>,
                        MappingFault,
                    >(#[trigger] v[i].assets) && v[i] == with_assets(ps[i], v[i].assets)
            },
            Err(e) => exists|i: int|
                0 <= i < ps.len() && #[trigger] all_assets(asset_rows[i]) == Err::<
                    Seq<AssetModel>,
                    MappingFault,
                >(e),
        },
    decreases ps.len(),
{
    if ps.len() > 0 {
        let rest = ps.drop_last();
        lemma_attach_pointwise(rest, asset_rows);
        let last = ps.len() - 1;
        match attach_all(rest, asset_rows) {
            Ok(done) => {
                match all_assets(asset_rows[last]) {
                    Ok(a) => {
                        let v = done.push(with_assets(ps.last(), a));
                        assert forall|i: int| 0 <= i < v.len() implies all_assets(asset_rows[i])
                            == Ok::<Seq<AssetModel>, MappingFault>(#[trigger] v[i].assets) && v[i]
                            == with_assets(ps[i], v[i].assets) by {
                            if i < last {
                                assert(v[i] == done[i]);
                                assert(rest[i] == ps[i]);
                            }
                        }
                    },
                    Err(e) => {
                        assert(all_assets(asset_rows[last]) == Err::<Seq<AssetModel>, MappingFault>(e));
                    },
                }
            },
            Err(e) => {
                let i = choose|i: int|
                    0 <= i < rest.len() && #[trigger] all_assets(asset_rows[i]) == Err::<
                        Seq<AssetModel>,
                        MappingFault,
                    >(e);
                assert(all_assets(asset_rows[i]) == Err::<Seq<AssetModel>, MappingFault>(e));
            },
        }
    }
}

/// A read is all or nothing. Where every product row can be read and the
/// asset rows of each product have been fetched, the assembled result is
/// either every product row, in order, each with exactly the assets read from
/// its own asset rows; or, where some asset row cannot be read, a failure
/// coming from one product's asset rows, and no products at all.
pub proof fn lemma_read_is_whole(product_rows: Seq<RowModel>, asset_rows: Seq<Seq<RowModel>>)
    requires
        all_products(product_rows) is Ok,
        asset_rows.len() == product_rows.len(),
    ensures
        match assembled(product_rows, asset_rows) {
            Ok(v) => {
                &&& v.len() == product_rows.len()
                &&& forall|i: int|
                    0 <= i < v.len() ==> all_assets(asset_rows[i]) == Ok::<
                        Seq<AssetModel>,
                        MappingFault,
                    >(#[trigger] v[i].assets) && v[i] == with_assets(
                        mapped_products(product_rows)[i],
                        v[i].assets,
                    )
            },
            Err(e) => exists|i: int|
                0 <= i < asset_rows.len() && #[trigger] all_assets(asset_rows[i]) == Err::<
                    Seq<AssetModel>,
                    MappingFault,
                >(e),
        },
{
    lemma_all_products_len(product_rows);
    lemma_attach_pointwise(mapped_products(product_rows), asset_rows);
}

/// Reads every row as an asset; fails on the first row that cannot be read.
pub fn assets_of_rows(rows: &Vec<Row>) -> (r: Result<Vec<Asset>, MappingError>)
    ensures
        match r {
            Ok(v) => all_assets(row_models(rows@)) == Ok::<Seq<AssetModel>, MappingFault>(
                asset_models(v@),
            ),
            Err(e) => all_assets(row_models(rows@)) == Err::<Seq<AssetModel>, MappingFault>(e@),
        },
{
    let ghost models = row_models(rows@);
    let mut out: Vec<Asset> = Vec::new();
    let mut i: usize = 0;
    assert(models.subrange(0, 0) =~= Seq::<RowModel>::empty());
    assert(asset_models(out@) =~= Seq::<AssetModel>::empty());
    while i < rows.len()
        invariant
            models == row_models(rows@),
            i <= rows.len(),
            all_assets(models.subrange(0, i as int)) == Ok::<Seq<AssetModel>, MappingFault>(
                asset_models(out@),
            ),
        decreases rows.len() - i,
    {
        let ghost prefix = models.subrange(0, i + 1);
        assert(prefix.drop_last() =~= models.subrange(0, i as int));
        assert(prefix.last() == rows@[i as int]@);
        match Asset::from_row(&rows[i]) {
            Ok(a) => {
                let ghost before = out@;
                out.push(a);
                assert(asset_models(out@) =~= asset_models(before).push(out@.last()@));
            },
            Err(e) => {
                proof {
                    lemma_assets_prefix_err(models, i + 1);
                }
                return Err(e);
            },
        }
        i = i + 1;
    }
    assert(models.subrange(0, i as int) =~= models);
    Ok(out)
}

/// Reads every row as a product with no assets; fails on the first row that
/// cannot be read.
pub fn products_of_rows(rows: &Vec<Row>) -> (r: Result<Vec<Product>, MappingError>)
    ensures
        match r {
            Ok(v) => all_products(row_models(rows@)) == Ok::<Seq<ProductModel>, MappingFault>(
                product_models(v@),
            ),
            Err(e) => all_products(row_models(rows@)) == Err::<Seq<ProductModel>, MappingFault>(
                e@,
            ),
        },
{
    let ghost models = row_models(rows@);
    let mut out: Vec<Product> = Vec::new();
    let mut i: usize = 0;
    assert(models.subrange(0, 0) =~= Seq::<RowModel>::empty());
    assert(product_models(out@) =~= Seq::<ProductModel>::empty());
    while i < rows.len()
        invariant
            models == row_models(rows@),
            i <= rows.len(),
            all_products(models.subrange(0, i as int)) == Ok::<Seq<ProductModel>, MappingFault>(
                product_models(out@),
            ),
        decreases rows.len() - i,
    {
        let ghost prefix = models.subrange(0, i + 1);
        assert(prefix.drop_last() =~= models.subrange(0, i as int));
        assert(prefix.last() == rows@[i as int]@);
        match Product::try_from(&rows[i]) {
            Ok(p) => {
                let ghost before = out@;
                out.push(p);
                assert(product_models(out@) =~= product_models(before).push(out@.last()@));
            },
            Err(e) => {
                proof {
                    lemma_products_prefix_err(models, i + 1);
                }
                return Err(e);
            },
        }
        i = i + 1;
    }
    assert(models.subrange(0, i as int) =~= models);
    Ok(out)
}

proof fn lemma_attach_frame(ps: Seq<ProductModel>, a1: Seq<Seq<RowModel>>, a2: Seq<Seq<RowModel>>)
    requires
        a1.len() >= ps.len(),
        a2.len() >= ps.len(),
        forall|j: int| 0 <= j < ps.len() ==> a1[j] == a2[j],
    ensures
        attach_all(ps, a1) == attach_all(ps, a2),
    decreases ps.len(),
{
    if ps.len() > 0 {
        lemma_attach_frame(ps.drop_last(), a1, a2);
    }
}

/// Which products a read is for.
#[derive(Clone, Copy, Debug, PartialEq, Eq, Structural)]
pub enum Fetch {
    All,
    One(i32),
}

/// Where a read stands in its transaction.
#[derive(Clone, Copy, Debug, PartialEq, Eq, Structural)]
pub enum ReadStage {
    /// A connection is being checked out and a transaction opened.
    Opening,
    /// The product rows are being selected.
    FetchingProducts,
    /// The asset rows of one product after another are being selected.
    FetchingAssets,
    /// Everything was read; the transaction is being committed.
    Committing,
    /// A step failed; the transaction is being rolled back.
    RollingBack,
    /// The read is over.
    Finished,
}

/// What the connection has to do next for a read.
#[derive(Debug)]
pub enum ReadAction {
    /// Select the product rows: all of them, or the one with the given id.
    QueryProducts(Fetch),
    /// Select the asset rows of the product with this id.
    QueryAssets(i32),
    Commit,
    Rollback,
    /// The read is over, with this result.
    Finish(Result<Vec<Product>, ProductStoreError>),
}

/// The state of a read, as a mathematical value.
pub struct ReadModel {
    pub fetch: Fetch,
    pub stage: ReadStage,
    /// The product rows that the product query returned.
    pub product_rows: Seq<RowModel>,
    /// The asset rows returned so far, one entry per product, in order.
    pub asset_rows: Seq<Seq<RowModel>>,
    /// The error that the read ends with once the rollback is done.
    pub failure: Option<StoreFault>,
}

/// One read of products with their assets inside a single transaction.
///
/// The caller owns the connection: it performs each [`ReadAction`] and
/// reports the outcome to the matching method. The session decides what
/// follows: after any failure inside the transaction it asks for a rollback
/// before it ends with that failure, and it hands out products only after a
/// commit, each with exactly the assets read for its id.
pub struct ReadSession {
    fetch: Fetch,
    stage: ReadStage,
    pending: Vec<Product>,
    done: Vec<Product>,
    failure: Option<ProductStoreError>,
    product_rows: Ghost<Seq<RowModel>>,
    asset_rows: Ghost<Seq<Seq<RowModel>>>,
}

impl View for ReadSession {
    type V = ReadModel;

    closed spec fn view(&self) -> ReadModel {
        ReadModel {
            fetch: self.fetch,
            stage: self.stage,
            product_rows: self.product_rows@,
            asset_rows: self.asset_rows@,
            failure: match self.failure {
                Some(e) => Some(e@),
                None => None,
            },
        }
    }
}

impl ReadSession {
    /// The session's internal consistency.
    pub closed spec fn wf(&self) -> bool {
        &&& (self.stage == ReadStage::FetchingAssets || self.stage == ReadStage::Committing) ==> {
            &&& all_products(self.product_rows@) == Ok::<Seq<ProductModel>, MappingFault>(
                product_models(self.pending@),
            )
            &&& self.asset_rows@.len() == self.done@.len()
            &&& self.done@.len() <= self.pending@.len()
            &&& attach_all(
                product_models(self.pending@).subrange(0, self.done@.len() as int),
                self.asset_rows@,
            ) == Ok::<Seq<ProductModel>, MappingFault>(product_models(self.done@))
        }
        &&& self.stage == ReadStage::FetchingAssets ==> self.done@.len() < self.pending@.len()
        &&& self.stage == ReadStage::Committing ==> self.done@.len() == self.pending@.len()
        &&& self.stage == ReadStage::RollingBack ==> self.failure is Some
        &&& (self.stage == ReadStage::Opening || self.stage == ReadStage::FetchingProducts)
            ==> self.asset_rows@.len() == 0
    }

    /// Starts a read. Its first step is to check out a connection and open a
    /// transaction, and to report the outcome to [`ReadSession::opened`].
    pub fn new(fetch: Fetch) -> (r: ReadSession)
        ensures
            r.wf(),
            r@ == (ReadModel {
                fetch,
                stage: ReadStage::Opening,
                product_rows: Seq::empty(),
                asset_rows: Seq::empty(),
                failure: None,
            }),
    {
        ReadSession {
            fetch,
            stage: ReadStage::Opening,
            pending: Vec::new(),
            done: Vec::new(),
            failure: None,
            product_rows: Ghost(Seq::empty()),
            asset_rows: Ghost(Seq::empty()),
        }
    }

    /// The transaction was opened, or no connection or transaction could be
    /// had; in that case nothing is left to roll back.
    pub fn opened(&mut self, r: Result<(), ProductStoreError>) -> (a: ReadAction)
        requires
            old(self).wf(),
            old(self)@.stage == ReadStage::Opening,
        ensures
            final(self).wf(),
            final(self)@.fetch == old(self)@.fetch,
            final(self)@.product_rows == old(self)@.product_rows,
            final(self)@.asset_rows == old(self)@.asset_rows,
            match r {
                Ok(()) => final(self)@.stage == ReadStage::FetchingProducts && a
                    == ReadAction::QueryProducts(old(self)@.fetch),
                Err(e) => final(self)@.stage == ReadStage::Finished && match a {
                    ReadAction::Finish(Err(x)) => x@ == e@,
                    _ => false,
                },
            },
    {
        match r {
            Ok(()) => {
                self.stage = ReadStage::FetchingProducts;
                ReadAction::QueryProducts(self.fetch)
            },
            Err(e) => {
                self.stage = ReadStage::Finished;
                ReadAction::Finish(Err(e))
            },
        }
    }

    /// The product query returned these rows, or failed. Rows that cannot
    /// be read as products fail the read; otherwise the assets of the first
    /// product are asked for, or, with no product, the commit.
    pub fn products_fetched(&mut self, r: Result<Vec<Row>, ProductStoreError>) -> (a: ReadAction)
        requires
            old(self).wf(),
            old(self)@.stage == ReadStage::FetchingProducts,
        ensures
            final(self).wf(),
            final(self)@.fetch == old(self)@.fetch,
            final(self)@.asset_rows == old(self)@.asset_rows,
            match r {
                Err(e) => {
                    &&& final(self)@.stage == ReadStage::RollingBack
                    &&& final(self)@.failure == Some(e@)
                    &&& a == ReadAction::Rollback
                },
                Ok(rows) => {
                    &&& final(self)@.product_rows == row_models(rows@)
                    &&& match all_products(row_models(rows@)) {
                        Err(m) => {
                            &&& final(self)@.stage == ReadStage::RollingBack
                            &&& final(self)@.failure == Some(StoreFault::MappingFailed(m))
                            &&& a == ReadAction::Rollback
                        },
                        Ok(ps) => if ps.len() == 0 {
                            final(self)@.stage == ReadStage::Committing && a == ReadAction::Commit
                        } else {
                            final(self)@.stage == ReadStage::FetchingAssets && a
                                == ReadAction::QueryAssets(ps[0].id)
                        },
                    }
                },
            },
    {
        match r {
            Err(e) => {
                self.failure = Some(e);
                self.stage = ReadStage::RollingBack;
                ReadAction::Rollback
            },
            Ok(rows) => {
                self.product_rows = Ghost(row_models(rows@));
                match products_of_rows(&rows) {
                    Err(m) => {
                        self.failure = Some(ProductStoreError::MappingFailed(m));
                        self.stage = ReadStage::RollingBack;
                        ReadAction::Rollback
                    },
                    Ok(ps) => {
                        self.pending = ps;
                        self.done = Vec::new();
                        assert(self.asset_rows@.len() == 0);
                        assert(product_models(self.pending@).subrange(0, 0) =~= Seq::<
                            ProductModel,
                        >::empty());
                        assert(product_models(self.done@) =~= Seq::<ProductModel>::empty());
                        if self.pending.len() == 0 {
                            self.stage = ReadStage::Committing;
                            ReadAction::Commit
                        } else {
                            self.stage = ReadStage::FetchingAssets;
                            ReadAction::QueryAssets(self.pending[0].id)
                        }
                    },
                }
            },
        }
    }

    /// The asset query for the next product returned these rows, or failed.
    /// Rows that cannot be read as assets fail the read; otherwise they
    /// become that product's assets, and the next product's are asked for,
    /// or, after the last product, the commit.
    pub fn assets_fetched(&mut self, r: Result<Vec<Row>, ProductStoreError>) -> (a: ReadAction)
        requires
            old(self).wf(),
            old(self)@.stage == ReadStage::FetchingAssets,
        ensures
            final(self).wf(),
            final(self)@.fetch == old(self)@.fetch,
            final(self)@.product_rows == old(self)@.product_rows,
            old(self)@.asset_rows.len() < mapped_products(old(self)@.product_rows).len(),
            match r {
                Err(e) => {
                    &&& final(self)@.stage == ReadStage::RollingBack
                    &&& final(self)@.failure == Some(e@)
                    &&& final(self)@.asset_rows == old(self)@.asset_rows
                    &&& a == ReadAction::Rollback
                },
                Ok(rows) => match all_assets(row_models(rows@)) {
                    Err(m) => {
                        &&& final(self)@.stage == ReadStage::RollingBack
                        &&& final(self)@.failure == Some(StoreFault::MappingFailed(m))
                        &&& final(self)@.asset_rows == old(self)@.asset_rows
                        &&& a == ReadAction::Rollback
                    },
                    Ok(_) => {
                        let ps = mapped_products(old(self)@.product_rows);
                        let i = old(self)@.asset_rows.len() as int;
                        &&& final(self)@.asset_rows == old(self)@.asset_rows.push(
                            row_models(rows@),
                        )
                        &&& if i + 1 < ps.len() {
                            final(self)@.stage == ReadStage::FetchingAssets && a
                                == ReadAction::QueryAssets(ps[i + 1].id)
                        } else {
                            final(self)@.stage == ReadStage::Committing && a
                                == ReadAction::Commit
                        }
                    },
                },
            },
    {
        let ghost ps = product_models(self.pending@);
        let ghost old_done = self.done@;
        let ghost old_rows = self.asset_rows@;
        match r {
            Err(e) => {
                self.failure = Some(e);
                self.stage = ReadStage::RollingBack;
                ReadAction::Rollback
            },
            Ok(rows) => match assets_of_rows(&rows) {
                Err(m) => {
                    self.failure = Some(ProductStoreError::MappingFailed(m));
                    self.stage = ReadStage::RollingBack;
                    ReadAction::Rollback
                },
                Ok(assets) => {
                    let i = self.done.len();
                    let ghost new_rows = old_rows.push(row_models(rows@));
                    let ghost got = asset_models(assets@);
                    let p = &self.pending[i];
                    let full = Product {
                        id: p.id,
                        name: p.name.clone(),
                        price: p.price,
                        status: p.status,
                        assets,
                    };
                    assert(full@ == with_assets(ps[i as int], got));
                    self.done.push(full);
                    self.asset_rows = Ghost(new_rows);
                    proof {
                        let pre = ps.subrange(0, i as int);
                        let cur = ps.subrange(0, i + 1);
                        assert(cur.drop_last() =~= pre);
                        assert(cur.last() == ps[i as int]);
                        lemma_attach_frame(pre, old_rows, new_rows);
                        assert(new_rows[i as int] == row_models(rows@));
                        assert(product_models(self.done@) =~= product_models(old_done).push(
                            full@,
                        ));
                    }
                    if i < self.pending.len() - 1 {
                        self.stage = ReadStage::FetchingAssets;
                        ReadAction::QueryAssets(self.pending[i + 1].id)
                    } else {
                        self.stage = ReadStage::Committing;
                        ReadAction::Commit
                    }
                },
            },
        }
    }

    /// The commit succeeded or failed. On success the read hands out every
    /// product with the assets read for it.
    pub fn committed(&mut self, r: Result<(), ProductStoreError>) -> (a: ReadAction)
        requires
            old(self).wf(),
            old(self)@.stage == ReadStage::Committing,
        ensures
            final(self).wf(),
            final(self)@.stage == ReadStage::Finished,
            match r {
                Ok(()) => match a {
                    ReadAction::Finish(Ok(v)) => assembled(
                        old(self)@.product_rows,
                        old(self)@.asset_rows,
                    ) == Ok::<Seq<ProductModel>, MappingFault>(product_models(v@)),
                    _ => false,
                },
                Err(e) => match a {
                    ReadAction::Finish(Err(x)) => x@ == e@,
                    _ => false,
                },
            },
    {
        proof {
            assert(product_models(self.pending@).subrange(0, self.done@.len() as int)
                =~= product_models(self.pending@));
        }
        self.stage = ReadStage::Finished;
        match r {
            Ok(()) => {
                let mut out: Vec<Product> = Vec::new();
                std::mem::swap(&mut out, &mut self.done);
                ReadAction::Finish(Ok(out))
            },
            Err(e) => ReadAction::Finish(Err(e)),
        }
    }

    /// The rollback is over, whether it succeeded or not; the read ends with
    /// the failure that caused it, never with the rollback's own.
    pub fn rolled_back(&mut self, r: Result<(), ProductStoreError>) -> (a: ReadAction)
        requires
            old(self).wf(),
            old(self)@.stage == ReadStage::RollingBack,
        ensures
            final(self).wf(),
            final(self)@.stage == ReadStage::Finished,
            match a {
                ReadAction::Finish(Err(x)) => old(self)@.failure == Some(x@),
                _ => false,
            },
    {
        let mut failure: Option<ProductStoreError> = None;
        std::mem::swap(&mut failure, &mut self.failure);
        self.stage = ReadStage::Finished;
        match failure {
            Some(e) => ReadAction::Finish(Err(e)),
            None => vstd::pervasive::unreached(),
        }
    }
}

/// The one product of a read by id, if the row was there.
pub fn single(products: Vec<Product>) -> (r: Option<Product>)
    ensures
        match r {
            None => products@.len() == 0,
            Some(p) => products@.len() > 0 && p == products@[0],
        },
{
    let mut products = products;
    if products.len() == 0 {
        None
    } else {
        Some(products.remove(0))
    }
}

} // verus!
