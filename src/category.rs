//! Categories, read from rows, and the tree that their parent links form.

use vstd::prelude::*;
use crate::row::{int_column, opt_int_column, text_column, MappingError, MappingFault, Row, ValueModel};

verus! {

/// A category with the categories below it.
#[derive(Debug)]
pub struct Category {
    pub id: i32,
    pub name: String,
    /// The category above this one; a root has none.
    pub parent_id: Option<i32>,
    pub children: Vec<Category>,
}

/// One category row, without children.
pub struct CategoryRecord {
    pub id: i32,
    pub name: Seq<char>,
    pub parent_id: Option<i32>,
}

/// The row part of a category.
pub open spec fn record_of(c: Category) -> CategoryRecord {
    CategoryRecord { id: c.id, name: c.name@, parent_id: c.parent_id }
}

/// The row parts of a sequence of categories.
pub open spec fn records_of(cs: Seq<Category>) -> Seq<CategoryRecord> {
    cs.map_values(|c: Category| record_of(c))
}

/// The category that a row of `categories` stands for, with no children:
/// columns `id`, `name` and `parent_id`, read in that order.
pub open spec fn category_of_row(cols: Seq<(Seq<char>, ValueModel)>) -> Result<
    CategoryRecord,
    MappingFault,
> {
    match int_column(cols, "id"@) {
        Err(e) => Err(e),
        Ok(id) => match text_column(cols, "name"@) {
            Err(e) => Err(e),
            Ok(name) => match opt_int_column(cols, "parent_id"@) {
                Err(e) => Err(e),
                Ok(parent_id) => Ok(CategoryRecord { id, name, parent_id }),
            },
        },
    }
}

/// The positions of the categories whose parent is `parent`, in order.
pub open spec fn children_of(cats: Seq<CategoryRecord>, parent: Option<i32>) -> Seq<int>
    decreases cats.len(),
{
    if cats.len() == 0 {
        Seq::empty()
    } else {
        let before = children_of(cats.drop_last(), parent);
        if cats.last().parent_id == parent {
            before.push(cats.len() - 1)
        } else {
            before
        }
    }
}

/// `c` is the category at position `k` with the tree below it, down to
/// `depth` levels.
pub open spec fn is_tree(c: Category, cats: Seq<CategoryRecord>, k: int, depth: nat) -> bool
    decreases depth,
{
    &&& 0 <= k < cats.len()
    &&& record_of(c) == cats[k]
    &&& if depth == 0 {
        c.children@.len() == 0
    } else {
        let kids = children_of(cats, Some(cats[k].id));
        &&& c.children@.len() == kids.len()
        &&& forall|i: int|
            0 <= i < kids.len() ==> is_tree(#[trigger] c.children@[i], cats, kids[i], (depth - 1) as nat)
    }
}

/// `v` holds, in order, each category whose parent is `parent`, with the
/// tree below it down to `depth` levels.
pub open spec fn is_forest(v: Seq<Category>, cats: Seq<CategoryRecord>, parent: Option<i32>, depth: nat) -> bool {
    let kids = children_of(cats, parent);
    &&& v.len() == kids.len()
    &&& forall|i: int| 0 <= i < kids.len() ==> is_tree(#[trigger] v[i], cats, kids[i], depth)
}

/// A sequence of positions as integers.
pub open spec fn positions(v: Seq<usize>) -> Seq<int> {
    v.map_values(|i: usize| i as int)
}

impl Category {
    /// Reads a category from a row of `categories`; its children are left
    /// empty.
    pub fn try_from(row: &Row) -> (r: Result<Category, MappingError>)
        ensures
            match r {
                Ok(c) => category_of_row(row@) == Ok::<CategoryRecord, MappingFault>(record_of(c))
                    && c.children@.len() == 0,
                Err(e) => category_of_row(row@) == Err::<CategoryRecord, MappingFault>(e@),
            },
    {
        let id = match row.get_int("id") {
            Ok(v) => v,
            Err(e) => return Err(e),
        };
        let name = match row.get_text("name") {
            Ok(v) => v,
            Err(e) => return Err(e),
        };
        let parent_id = match row.get_opt_int("parent_id") {
            Ok(v) => v,
            Err(e) => return Err(e),
        };
        Ok(Category { id, name, parent_id, children: Vec::new() })
    }
}

/// The positions of the categories whose parent is `parent`.
fn children_index(cats: &Vec<Category>, parent: Option<i32>) -> (r: Vec<usize>)
    ensures
        positions(r@) == children_of(records_of(cats@), parent),
        forall|i: int| 0 <= i < r@.len() ==> #[trigger] r@[i] < cats@.len(),
{
    let ghost recs = records_of(cats@);
    let mut out: Vec<usize> = Vec::new();
    let mut j: usize = 0;
    assert(recs.subrange(0, 0) =~= Seq::<CategoryRecord>::empty());
    assert(positions(out@) =~= Seq::<int>::empty());
    while j < cats.len()
        invariant
            recs == records_of(cats@),
            j <= cats@.len(),
            positions(out@) == children_of(recs.subrange(0, j as int), parent),
            forall|i: int| 0 <= i < out@.len() ==> #[trigger] out@[i] < j,
        decreases cats@.len() - j,
    {
        let ghost cur = recs.subrange(0, j + 1);
        assert(cur.drop_last() =~= recs.subrange(0, j as int));
        assert(cur.last() == recs[j as int]);
        if cats[j].parent_id == parent {
            let ghost before = out@;
            out.push(j);
            assert(positions(out@) =~= positions(before).push(j as int));
        }
        j = j + 1;
    }
    assert(recs.subrange(0, j as int) =~= recs);
    out
}

/// The category at position `k` with the tree below it, down to `depth`
/// levels, taking each category's children from `table`.
fn build_tree(cats: &Vec<Category>, table: &Vec<Vec<usize>>, k: usize, depth: usize) -> (r: Category)
    requires
        k < cats@.len(),
        table@.len() == cats@.len(),
        forall|m: int|
            0 <= m < table@.len() ==> positions(#[trigger] table@[m]@) == children_of(
                records_of(cats@),
                Some(cats@[m].id),
            ),
        forall|m: int, i: int|
            0 <= m < table@.len() && 0 <= i < table@[m]@.len() ==> #[trigger] table@[m]@[i]
                < cats@.len(),
    ensures
        is_tree(r, records_of(cats@), k as int, depth as nat),
    decreases depth,
{
    let ghost recs = records_of(cats@);
    let c = &cats[k];
    let mut children: Vec<Category> = Vec::new();
    if depth > 0 {
        let kids = &table[k];
        let ghost want = children_of(recs, Some(recs[k as int].id));
        assert(positions(kids@) == want);
        let mut i: usize = 0;
        while i < kids.len()
            invariant
                0 < depth,
                k < cats@.len(),
                recs == records_of(cats@),
                kids == table@[k as int],
                table@.len() == cats@.len(),
                positions(kids@) == want,
                i <= kids@.len(),
                children@.len() == i,
                forall|m: int|
                    0 <= m < table@.len() ==> positions(#[trigger] table@[m]@) == children_of(
                        records_of(cats@),
                        Some(cats@[m].id),
                    ),
                forall|m: int, j: int|
                    0 <= m < table@.len() && 0 <= j < table@[m]@.len() ==> #[trigger] table@[m]@[j]
                        < cats@.len(),
                forall|j: int|
                    0 <= j < i ==> is_tree(#[trigger] children@[j], recs, want[j], (depth - 1) as nat),
            decreases kids@.len() - i,
        {
            assert(want[i as int] == kids@[i as int] as int);
            assert(table@[k as int]@[i as int] < cats@.len());
            let child = build_tree(cats, table, kids[i], depth - 1);
            children.push(child);
            i = i + 1;
        }
    }
    let r = Category { id: c.id, name: c.name.clone(), parent_id: c.parent_id, children };
    assert(record_of(r) == recs[k as int]);
    r
}

/// The forest of the categories below `parent` (the whole forest for
/// `None`), each with the categories below it. Each level is found through a
/// table of children built once. The descent stops after as many levels as
/// there are categories: only a cycle of parent links reaches that deep.
pub fn group_categories(parent: Option<i32>, categories: &Vec<Category>) -> (r: Vec<Category>)
    ensures
        is_forest(r@, records_of(categories@), parent, categories@.len() as nat),
{
    let ghost recs = records_of(categories@);
    let n = categories.len();
    let mut table: Vec<Vec<usize>> = Vec::new();
    let mut m: usize = 0;
    while m < n
        invariant
            n == categories@.len(),
            recs == records_of(categories@),
            m <= n,
            table@.len() == m,
            forall|q: int|
                0 <= q < m ==> positions(#[trigger] table@[q]@) == children_of(
                    recs,
                    Some(categories@[q].id),
                ),
            forall|q: int, i: int|
                0 <= q < m && 0 <= i < table@[q]@.len() ==> #[trigger] table@[q]@[i] < n,
        decreases n - m,
    {
        let kids = children_index(categories, Some(categories[m].id));
        table.push(kids);
        m = m + 1;
    }
    let roots = children_index(categories, parent);
    let mut out: Vec<Category> = Vec::new();
    let mut i: usize = 0;
    while i < roots.len()
        invariant
            n == categories@.len(),
            recs == records_of(categories@),
            table@.len() == n,
            forall|q: int|
                0 <= q < n ==> positions(#[trigger] table@[q]@) == children_of(
                    recs,
                    Some(categories@[q].id),
                ),
            forall|q: int, j: int|
                0 <= q < n && 0 <= j < table@[q]@.len() ==> #[trigger] table@[q]@[j] < n,
            positions(roots@) == children_of(recs, parent),
            forall|j: int| 0 <= j < roots@.len() ==> #[trigger] roots@[j] < n,
            i <= roots@.len(),
            out@.len() == i,
            forall|j: int|
                0 <= j < i ==> is_tree(#[trigger] out@[j], recs, roots@[j] as int, n as nat),
        decreases roots@.len() - i,
    {
        let tree = build_tree(categories, &table, roots[i], n);
        out.push(tree);
        i = i + 1;
    }
    proof {
        assert forall|j: int| 0 <= j < out@.len() implies is_tree(
            #[trigger] out@[j],
            recs,
            children_of(recs, parent)[j],
            n as nat,
        ) by {
            assert(positions(roots@)[j] == roots@[j] as int);
        }
    }
    out
}

} // verus!
