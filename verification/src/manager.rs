//! The aggregation store: owns the products and purchases and keeps the
//! three derived indexes consistent as records arrive.
//!
//! The store owns the product sequence (insertion order preserved), a
//! per-product cumulative purchased quantity, a by-label product index,
//! a per-category cumulative purchased quantity, and the purchases keyed
//! by id. Products are held in one arena; indexes and carts refer to
//! them by position. Counters saturate at the top of their range; below
//! it they are exact sums.

use vstd::prelude::*;

use crate::products::parse_product_spec;
use crate::products::Product;
use crate::products::ProductCategory;
use crate::products::ProductView;
use crate::purchases::parse_purchase_line_spec;
use crate::purchases::read_purchase_line;
use crate::purchases::ProductPurchase;
use crate::purchases::Purchase;
use crate::purchases::PurchaseView;
use crate::text::seq_eq;

verus! {

/// One bucket of the by-label index: a label and the arena indices of
/// the products carrying it, in insertion order.
pub struct LabelBucket {
    label: Vec<char>,
    members: Vec<usize>,
}

/// The mathematical content of a [`LabelBucket`].
#[verifier::ext_equal]
pub ghost struct LabelBucketView {
    pub label: Seq<char>,
    pub members: Seq<usize>,
}

impl View for LabelBucket {
    type V = LabelBucketView;

    closed spec fn view(&self) -> LabelBucketView {
        LabelBucketView { label: self.label@, members: self.members@ }
    }
}

impl DeepView for LabelBucket {
    type V = LabelBucketView;

    open spec fn deep_view(&self) -> LabelBucketView {
        self.view()
    }
}

impl LabelBucket {
    pub fn get_label(&self) -> (r: &Vec<char>)
        ensures
            r@ == self@.label,
    {
        &self.label
    }

    pub fn get_members(&self) -> (r: &Vec<usize>)
        ensures
            r@ == self@.members,
    {
        &self.members
    }
}

/// One entry of the per-category counter table.
#[derive(Clone, Copy, PartialEq, Eq, Structural)]
pub struct CategoryCount {
    pub category: ProductCategory,
    pub count: u64,
}

/// Saves the products, purchases and the derived counters needed to
/// render the reports.
pub struct PurchasesManager {
    products: Vec<Product>,
    counts: Vec<u64>,
    counted: Vec<bool>,
    labels: Vec<LabelBucket>,
    categories: Vec<CategoryCount>,
    purchases: Vec<Purchase>,
}

/// The mathematical content of a [`PurchasesManager`]. `counts[i]` and
/// `counted[i]` run parallel to `products`: the cumulative purchased
/// quantity of product `i`, and whether any purchase line for it was
/// processed.
#[verifier::ext_equal]
pub ghost struct StoreView {
    pub products: Seq<ProductView>,
    pub counts: Seq<u64>,
    pub counted: Seq<bool>,
    pub labels: Seq<LabelBucketView>,
    pub categories: Seq<CategoryCount>,
    pub purchases: Seq<PurchaseView>,
}

impl View for PurchasesManager {
    type V = StoreView;

    closed spec fn view(&self) -> StoreView {
        StoreView {
            products: self.products.deep_view(),
            counts: self.counts@,
            counted: self.counted@,
            labels: self.labels.deep_view(),
            categories: self.categories@,
            purchases: self.purchases.deep_view(),
        }
    }
}

/// `n` clipped to the top of the `u64` range.
pub open spec fn sat_u64(n: nat) -> u64 {
    if n > u64::MAX {
        u64::MAX
    } else {
        n as u64
    }
}

/// The summed quantity of the cart's line items referencing product `i`.
pub open spec fn cart_qty_sum(cart: Seq<ProductPurchase>, i: int) -> nat
    decreases cart.len(),
{
    if cart.len() == 0 {
        0
    } else {
        cart_qty_sum(cart.drop_last(), i) + if cart.last().product == i {
            cart.last().quantity as nat
        } else {
            0
        }
    }
}

/// The summed quantity over all purchases of line items referencing
/// product `i`.
pub open spec fn prod_qty_sum(ps: Seq<PurchaseView>, i: int) -> nat
    decreases ps.len(),
{
    if ps.len() == 0 {
        0
    } else {
        prod_qty_sum(ps.drop_last(), i) + cart_qty_sum(ps.last().cart, i)
    }
}

/// Whether any purchase holds a line item referencing product `i`.
pub open spec fn has_item(ps: Seq<PurchaseView>, i: int) -> bool {
    exists|p: int, k: int|
        0 <= p < ps.len() && 0 <= k < ps[p].cart.len() && ps[p].cart[k].product == i
}

/// The summed quantity over line items whose product (among the first
/// `n`) has category `c`.
pub open spec fn cat_qty_sum_upto(
    products: Seq<ProductView>,
    ps: Seq<PurchaseView>,
    c: ProductCategory,
    n: int,
) -> nat
    decreases n,
{
    if n <= 0 {
        0
    } else {
        cat_qty_sum_upto(products, ps, c, n - 1) + if products[n - 1].category == c {
            prod_qty_sum(ps, n - 1)
        } else {
            0
        }
    }
}

/// The index of the first bucket labelled `l`, or `ls.len()`.
pub open spec fn bucket_index(ls: Seq<LabelBucketView>, l: Seq<char>) -> int
    decreases ls.len(),
{
    if ls.len() == 0 {
        0
    } else if ls[0].label == l {
        0
    } else {
        1 + bucket_index(ls.drop_first(), l)
    }
}

/// The by-label index after filing product `idx` under label `l`: the
/// index is appended to `l`'s bucket, the bucket being created first if
/// absent.
pub open spec fn add_label(ls: Seq<LabelBucketView>, l: Seq<char>, idx: usize) -> Seq<
    LabelBucketView,
> {
    let j = bucket_index(ls, l);
    if j == ls.len() {
        ls.push(LabelBucketView { label: l, members: seq![idx] })
    } else {
        ls.update(j, LabelBucketView { label: ls[j].label, members: ls[j].members.push(idx) })
    }
}

/// The by-label index after filing product `idx` under its first `k`
/// labels.
pub open spec fn add_labels(
    ls: Seq<LabelBucketView>,
    labels: Seq<Seq<char>>,
    idx: usize,
    k: int,
) -> Seq<LabelBucketView>
    decreases k,
{
    if k <= 0 {
        ls
    } else {
        add_label(add_labels(ls, labels, idx, k - 1), labels[k - 1], idx)
    }
}

/// The by-label index the first `n` products build up.
pub open spec fn label_index_of(products: Seq<ProductView>, n: int) -> Seq<LabelBucketView>
    decreases n,
{
    if n <= 0 {
        Seq::empty()
    } else {
        add_labels(
            label_index_of(products, n - 1),
            products[n - 1].labels,
            (n - 1) as usize,
            products[n - 1].labels.len() as int,
        )
    }
}

/// The index of the first purchase with id `id`, or `ps.len()`.
pub open spec fn purchase_index(ps: Seq<PurchaseView>, id: Seq<char>) -> int
    decreases ps.len(),
{
    if ps.len() == 0 {
        0
    } else if ps[0].id == id {
        0
    } else {
        1 + purchase_index(ps.drop_first(), id)
    }
}

/// The index of the first counter entry for category `c`, or
/// `cs.len()`.
pub open spec fn category_index(cs: Seq<CategoryCount>, c: ProductCategory) -> int
    decreases cs.len(),
{
    if cs.len() == 0 {
        0
    } else if cs[0].category == c {
        0
    } else {
        1 + category_index(cs.drop_first(), c)
    }
}

/// The index of the first product with id `id`, or `products.len()`.
pub open spec fn find_index(products: Seq<ProductView>, id: Seq<char>) -> int
    decreases products.len(),
{
    if products.len() == 0 {
        0
    } else if products[0].id == id {
        0
    } else {
        1 + find_index(products.drop_first(), id)
    }
}

/// Well-formedness of the store:
/// - the two counter columns run parallel to the product arena;
/// - every cart item and every label-bucket member points into the
///   arena;
/// - purchase ids are unique, category entries are unique;
/// - each product counter is the (saturated) sum of the quantities of
///   the cart items referencing it, and is recorded exactly when some
///   item does;
/// - each category counter is the (saturated) sum of the per-product
///   sums over the products of that category;
/// - the by-label index is exactly the one the product sequence builds.
pub open spec fn wf(v: StoreView) -> bool {
    &&& v.counts.len() == v.products.len()
    &&& v.counted.len() == v.products.len()
    &&& forall|p: int, k: int|
        0 <= p < v.purchases.len() && 0 <= k < v.purchases[p].cart.len() ==> (
        #[trigger] v.purchases[p].cart[k]).product < v.products.len()
    &&& forall|p: int, q: int|
        0 <= p < q < v.purchases.len() ==> v.purchases[p].id != v.purchases[q].id
    &&& forall|i: int|
        0 <= i < v.counts.len() ==> v.counts[i] == sat_u64(prod_qty_sum(v.purchases, i))
    &&& forall|i: int| 0 <= i < v.counted.len() ==> (v.counted[i] <==> has_item(v.purchases, i))
    &&& v.labels == label_index_of(v.products, v.products.len() as int)
    &&& forall|j: int, k: int|
        0 <= j < v.labels.len() && 0 <= k < v.labels[j].members.len() ==> (
        #[trigger] v.labels[j].members[k]) < v.products.len()
    &&& forall|j: int, k: int|
        0 <= j < k < v.categories.len() ==> v.categories[j].category != v.categories[k].category
    &&& forall|j: int|
        0 <= j < v.categories.len() ==> v.categories[j].count == sat_u64(
            cat_qty_sum_upto(v.products, v.purchases, v.categories[j].category,
            v.products.len() as int),
        )
    &&& forall|c: ProductCategory|
        #[trigger] category_index(v.categories, c) == v.categories.len() ==> cat_qty_sum_upto(
            v.products,
            v.purchases,
            c,
            v.products.len() as int,
        ) == 0
}

/// The store after a product is appended: the arena and the counter
/// columns grow by one, and the product is filed under each of its
/// labels; purchases and category counters are untouched.
pub open spec fn spec_add_product(v: StoreView, p: ProductView) -> StoreView {
    StoreView {
        products: v.products.push(p),
        counts: v.counts.push(0),
        counted: v.counted.push(false),
        labels: add_labels(v.labels, p.labels, v.products.len() as usize, p.labels.len() as int),
        categories: v.categories,
        purchases: v.purchases,
    }
}

/// The store after one purchase line for product `idx` is applied: the
/// line item joins the cart of the named purchase (created empty first
/// if absent), and the product's and its category's counters grow by
/// the quantity.
pub open spec fn spec_add_purchase(v: StoreView, pid: Seq<char>, idx: usize, q: u32) -> StoreView {
    let item = ProductPurchase { product: idx, quantity: q };
    let k = purchase_index(v.purchases, pid);
    let purchases = if k == v.purchases.len() {
        v.purchases.push(PurchaseView { id: pid, cart: seq![item] })
    } else {
        v.purchases.update(
            k,
            PurchaseView { id: v.purchases[k].id, cart: v.purchases[k].cart.push(item) },
        )
    };
    let c = v.products[idx as int].category;
    let j = category_index(v.categories, c);
    let categories = if j == v.categories.len() {
        v.categories.push(CategoryCount { category: c, count: q as u64 })
    } else {
        v.categories.update(
            j,
            CategoryCount {
                category: c,
                count: sat_u64(v.categories[j].count as nat + q as nat),
            },
        )
    };
    StoreView {
        products: v.products,
        counts: v.counts.update(idx as int, sat_u64(v.counts[idx as int] as nat + q as nat)),
        counted: v.counted.update(idx as int, true),
        labels: v.labels,
        categories,
        purchases,
    }
}

/// `purchase_index` is determined by its first-occurrence
/// characterization.
pub proof fn lemma_purchase_index(ps: Seq<PurchaseView>, id: Seq<char>, i: int)
    requires
        0 <= i <= ps.len(),
        forall|j: int| 0 <= j < i ==> ps[j].id != id,
        i < ps.len() ==> ps[i].id == id,
    ensures
        purchase_index(ps, id) == i,
    decreases ps.len(),
{
    if ps.len() > 0 && i > 0 {
        assert(forall|j: int| 0 <= j < i - 1 ==> ps.drop_first()[j] == ps[j + 1]);
        lemma_purchase_index(ps.drop_first(), id, i - 1);
    }
}

/// `category_index` is determined by its first-occurrence
/// characterization.
pub proof fn lemma_category_index(cs: Seq<CategoryCount>, c: ProductCategory, i: int)
    requires
        0 <= i <= cs.len(),
        forall|j: int| 0 <= j < i ==> cs[j].category != c,
        i < cs.len() ==> cs[i].category == c,
    ensures
        category_index(cs, c) == i,
    decreases cs.len(),
{
    if cs.len() > 0 && i > 0 {
        assert(forall|j: int| 0 <= j < i - 1 ==> cs.drop_first()[j] == cs[j + 1]);
        lemma_category_index(cs.drop_first(), c, i - 1);
    }
}

/// `find_index` is determined by its first-occurrence characterization.
pub proof fn lemma_find_index(products: Seq<ProductView>, id: Seq<char>, i: int)
    requires
        0 <= i <= products.len(),
        forall|j: int| 0 <= j < i ==> products[j].id != id,
        i < products.len() ==> products[i].id == id,
    ensures
        find_index(products, id) == i,
    decreases products.len(),
{
    if products.len() > 0 && i > 0 {
        assert(forall|j: int| 0 <= j < i - 1 ==> products.drop_first()[j] == products[j + 1]);
        lemma_find_index(products.drop_first(), id, i - 1);
    }
}

/// `bucket_index` is determined by its first-occurrence
/// characterization.
pub proof fn lemma_bucket_index(ls: Seq<LabelBucketView>, l: Seq<char>, i: int)
    requires
        0 <= i <= ls.len(),
        forall|j: int| 0 <= j < i ==> ls[j].label != l,
        i < ls.len() ==> ls[i].label == l,
    ensures
        bucket_index(ls, l) == i,
    decreases ls.len(),
{
    if ls.len() > 0 && i > 0 {
        assert(forall|j: int| 0 <= j < i - 1 ==> ls.drop_first()[j] == ls[j + 1]);
        lemma_bucket_index(ls.drop_first(), l, i - 1);
    }
}

/// `bucket_index` lies between 0 and the length.
pub proof fn lemma_bucket_index_le(ls: Seq<LabelBucketView>, l: Seq<char>)
    ensures
        0 <= bucket_index(ls, l) <= ls.len(),
        bucket_index(ls, l) < ls.len() ==> ls[bucket_index(ls, l)].label == l,
    decreases ls.len(),
{
    if ls.len() > 0 && ls[0].label != l {
        lemma_bucket_index_le(ls.drop_first(), l);
    }
}

/// Appending a line item adds its quantity to the sum for its product
/// and leaves every other product's sum unchanged.
pub proof fn lemma_cart_sum_push(cart: Seq<ProductPurchase>, it: ProductPurchase, i: int)
    ensures
        cart_qty_sum(cart.push(it), i) == cart_qty_sum(cart, i) + if it.product == i {
            it.quantity as nat
        } else {
            0
        },
{
    assert(cart.push(it).drop_last() =~= cart);
    assert(cart.push(it).last() == it);
}

/// Replacing one purchase changes each product sum by the change in
/// that purchase's cart sum.
pub proof fn lemma_prod_sum_update(ps: Seq<PurchaseView>, k: int, p2: PurchaseView, i: int)
    requires
        0 <= k < ps.len(),
    ensures
        prod_qty_sum(ps.update(k, p2), i) + cart_qty_sum(ps[k].cart, i) == prod_qty_sum(ps, i)
            + cart_qty_sum(p2.cart, i),
    decreases ps.len(),
{
    let ps2 = ps.update(k, p2);
    if k == ps.len() - 1 {
        assert(ps2.drop_last() =~= ps.drop_last());
        assert(ps2.last() == p2);
    } else {
        assert(ps2.drop_last() =~= ps.drop_last().update(k, p2));
        assert(ps2.last() == ps.last());
        lemma_prod_sum_update(ps.drop_last(), k, p2, i);
    }
}

/// Appending a purchase adds its cart sum to each product sum.
pub proof fn lemma_prod_sum_push(ps: Seq<PurchaseView>, p2: PurchaseView, i: int)
    ensures
        prod_qty_sum(ps.push(p2), i) == prod_qty_sum(ps, i) + cart_qty_sum(p2.cart, i),
{
    assert(ps.push(p2).drop_last() =~= ps);
    assert(ps.push(p2).last() == p2);
}

/// A per-category sum follows a pointwise change of the product sums at
/// one product.
pub proof fn lemma_cat_sum_change(
    products: Seq<ProductView>,
    ps: Seq<PurchaseView>,
    ps2: Seq<PurchaseView>,
    c: ProductCategory,
    n: int,
    i: int,
    d: nat,
)
    requires
        forall|i2: int| i2 != i ==> prod_qty_sum(ps2, i2) == prod_qty_sum(ps, i2),
        prod_qty_sum(ps2, i) == prod_qty_sum(ps, i) + d,
    ensures
        cat_qty_sum_upto(products, ps2, c, n) == cat_qty_sum_upto(products, ps, c, n) + if 0 <= i
            < n && products[i].category == c {
            d
        } else {
            0
        },
    decreases n,
{
    if n > 0 {
        lemma_cat_sum_change(products, ps, ps2, c, n - 1, i, d);
    }
}

/// A one-item cart sums to that item's quantity, for its product.
pub proof fn lemma_cart_sum_single(it: ProductPurchase, i: int)
    ensures
        cart_qty_sum(seq![it], i) == if it.product == i {
            it.quantity as nat
        } else {
            0
        },
{
    let s = seq![it];
    assert(s.len() == 1);
    assert(s.drop_last() =~= Seq::<ProductPurchase>::empty());
    assert(s.last() == it);
    assert(cart_qty_sum(s.drop_last(), i) == 0);
    assert(cart_qty_sum(s, i) == cart_qty_sum(s.drop_last(), i) + if s.last().product == i {
        s.last().quantity as nat
    } else {
        0
    });
}

/// A cart free of items referencing `i` contributes nothing to `i`'s
/// sum.
pub proof fn lemma_cart_sum_zero(cart: Seq<ProductPurchase>, i: int)
    requires
        forall|k: int| 0 <= k < cart.len() ==> (#[trigger] cart[k]).product != i,
    ensures
        cart_qty_sum(cart, i) == 0,
    decreases cart.len(),
{
    if cart.len() > 0 {
        lemma_cart_sum_zero(cart.drop_last(), i);
    }
}

/// A product no line item references has sum zero.
pub proof fn lemma_prod_sum_zero(ps: Seq<PurchaseView>, i: int)
    requires
        forall|p: int, k: int|
            0 <= p < ps.len() && 0 <= k < ps[p].cart.len() ==> (#[trigger] ps[p].cart[k]).product
                != i,
    ensures
        prod_qty_sum(ps, i) == 0,
    decreases ps.len(),
{
    if ps.len() > 0 {
        lemma_prod_sum_zero(ps.drop_last(), i);
        assert(forall|k: int|
            0 <= k < ps.last().cart.len() ==> (#[trigger] ps.last().cart[k]).product != i);
        lemma_cart_sum_zero(ps.last().cart, i);
    }
}

/// Per-category sums read only the first `n` products.
pub proof fn lemma_cat_sum_prefix(
    products: Seq<ProductView>,
    products2: Seq<ProductView>,
    ps: Seq<PurchaseView>,
    c: ProductCategory,
    n: int,
)
    requires
        forall|i: int| 0 <= i < n ==> products2[i] == products[i],
    ensures
        cat_qty_sum_upto(products2, ps, c, n) == cat_qty_sum_upto(products, ps, c, n),
    decreases n,
{
    if n > 0 {
        lemma_cat_sum_prefix(products, products2, ps, c, n - 1);
    }
}

/// The by-label index of the first `n` products ignores anything pushed
/// behind them.
pub proof fn lemma_label_index_prefix(products: Seq<ProductView>, p: ProductView, n: int)
    requires
        0 <= n <= products.len(),
    ensures
        label_index_of(products.push(p), n) == label_index_of(products, n),
    decreases n,
{
    if n > 0 {
        lemma_label_index_prefix(products, p, n - 1);
        assert(products.push(p)[n - 1] == products[n - 1]);
    }
}

/// Filing labels keeps every member below any bound the index and the
/// filed product respect.
pub proof fn lemma_add_labels_bound(
    ls: Seq<LabelBucketView>,
    labels: Seq<Seq<char>>,
    idx: usize,
    k: int,
    bound: int,
)
    requires
        forall|j: int, m: int|
            0 <= j < ls.len() && 0 <= m < ls[j].members.len() ==> (#[trigger] ls[j].members[m])
                < bound,
        idx < bound,
    ensures
        forall|j: int, m: int|
            0 <= j < add_labels(ls, labels, idx, k).len() && 0 <= m < add_labels(
                ls,
                labels,
                idx,
                k,
            )[j].members.len() ==> (#[trigger] add_labels(ls, labels, idx, k)[j].members[m])
                < bound,
    decreases k,
{
    if k > 0 {
        lemma_add_labels_bound(ls, labels, idx, k - 1, bound);
        let prev = add_labels(ls, labels, idx, k - 1);
        lemma_bucket_index_le(prev, labels[k - 1]);
    }
}

impl PurchasesManager {
    /// An empty store.
    pub fn new() -> (m: PurchasesManager)
        ensures
            m@.products == Seq::<ProductView>::empty(),
            m@.counts == Seq::<u64>::empty(),
            m@.counted == Seq::<bool>::empty(),
            m@.labels == Seq::<LabelBucketView>::empty(),
            m@.categories == Seq::<CategoryCount>::empty(),
            m@.purchases == Seq::<PurchaseView>::empty(),
            wf(m@),
    {
        let m = PurchasesManager {
            products: Vec::new(),
            counts: Vec::new(),
            counted: Vec::new(),
            labels: Vec::new(),
            categories: Vec::new(),
            purchases: Vec::new(),
        };
        proof {
            assert(m@.products =~= Seq::<ProductView>::empty());
            assert(m@.labels =~= Seq::<LabelBucketView>::empty());
            assert(m@.purchases =~= Seq::<PurchaseView>::empty());
        }
        m
    }

    /// The product arena, in insertion order.
    pub fn get_products(&self) -> (r: &Vec<Product>)
        ensures
            r.deep_view() == self@.products,
    {
        &self.products
    }

    /// The purchases, in order of first reference.
    pub fn get_purchases(&self) -> (r: &Vec<Purchase>)
        ensures
            r.deep_view() == self@.purchases,
    {
        &self.purchases
    }

    /// The per-product cumulative purchased quantities, parallel to the
    /// arena.
    pub fn get_counts(&self) -> (r: &Vec<u64>)
        ensures
            r@ == self@.counts,
    {
        &self.counts
    }

    /// Which products have a recorded counter, parallel to the arena.
    pub fn get_counted(&self) -> (r: &Vec<bool>)
        ensures
            r@ == self@.counted,
    {
        &self.counted
    }

    /// The by-label index.
    pub fn get_label_buckets(&self) -> (r: &Vec<LabelBucket>)
        ensures
            r.deep_view() == self@.labels,
    {
        &self.labels
    }

    /// The per-category counter table, in order of first increment.
    pub fn get_categories(&self) -> (r: &Vec<CategoryCount>)
        ensures
            r@ == self@.categories,
    {
        &self.categories
    }

    /// The arena index of the first product whose id is `id`.
    fn find_product_by_id(&self, id: &Vec<char>) -> (r: Option<usize>)
        ensures
            match r {
                Option::Some(i) => i == find_index(self@.products, id@) && i
                    < self@.products.len(),
                Option::None => find_index(self@.products, id@) == self@.products.len(),
            },
    {
        let mut i: usize = 0;
        while i < self.products.len()
            invariant
                i <= self@.products.len(),
                forall|j: int| 0 <= j < i ==> self@.products[j].id != id@,
            decreases self@.products.len() - i,
        {
            proof {
                assert(self.products.deep_view()[i as int] == self.products@[i as int].deep_view());
            }
            if seq_eq(self.products[i].get_id(), id) {
                proof {
                    lemma_find_index(self@.products, id@, i as int);
                }
                return Option::Some(i);
            }
            i = i + 1;
        }
        proof {
            lemma_find_index(self@.products, id@, i as int);
        }
        Option::None
    }

    /// Appends a (non-sentinel) product to the arena and files it in the
    /// by-label index; duplicate ids are accepted silently.
    pub fn add_product(&mut self, product: Product)
        requires
            wf(old(self)@),
        ensures
            final(self)@ == spec_add_product(old(self)@, product@),
            wf(final(self)@),
    {
        let ghost v0 = self@;
        let ghost pv = product@;
        let idx = self.products.len();
        self.products.push(product);
        self.counts.push(0);
        self.counted.push(false);
        proof {
            assert(self@.products =~= v0.products.push(pv));
            assert(self@.counts =~= v0.counts.push(0));
            assert(self@.counted =~= v0.counted.push(false));
        }
        let nlab = self.products[idx].get_labels().len();
        let mut li: usize = 0;
        while li < nlab
            invariant
                idx == v0.products.len(),
                idx < self@.products.len(),
                self@.products == v0.products.push(pv),
                self@.counts == v0.counts.push(0),
                self@.counted == v0.counted.push(false),
                self@.categories == v0.categories,
                self@.purchases == v0.purchases,
                li <= nlab,
                nlab == pv.labels.len(),
                self@.labels == add_labels(v0.labels, pv.labels, idx, li as int),
            decreases nlab - li,
        {
            let ghost lsv = self@.labels;
            proof {
                assert(self.products.deep_view()[idx as int] == self.products@[idx
                    as int].deep_view());
                assert(self.products@[idx as int].deep_view().labels[li as int] == pv.labels[li
                    as int]);
            }
            let lab = crate::text::copy_chars(&self.products[idx].get_labels()[li]);
            let mut j: usize = 0;
            let mut found = false;
            while j < self.labels.len() && !found
                invariant
                    j <= self@.labels.len(),
                    found ==> j < self@.labels.len() && self@.labels[j as int].label == lab@,
                    forall|k: int| 0 <= k < j ==> self@.labels[k].label != lab@,
                decreases self@.labels.len() - j, (if found { 0int } else { 1int }),
            {
                proof {
                    assert(self.labels.deep_view()[j as int] == self.labels@[j as int].deep_view());
                }
                if seq_eq(self.labels[j].get_label(), &lab) {
                    found = true;
                } else {
                    j = j + 1;
                }
            }
            proof {
                lemma_bucket_index(lsv, lab@, j as int);
            }
            if found {
                let ghost oldb = lsv[j as int];
                self.labels[j].members.push(idx);
                proof {
                    assert(self.labels@[j as int]@.label == oldb.label);
                    assert(self.labels@[j as int]@.members == oldb.members.push(idx));
                    assert(forall|k: int|
                        0 <= k < self.labels@.len() ==> self.labels.deep_view()[k]
                            == self.labels@[k]@);
                    assert(self@.labels =~~= add_label(lsv, lab@, idx));
                }
            } else {
                self.labels.push(LabelBucket { label: lab, members: vec![idx] });
                proof {
                    assert(self.labels@[lsv.len() as int]@.members =~= seq![idx]);
                    assert(forall|k: int|
                        0 <= k < self.labels@.len() ==> self.labels.deep_view()[k]
                            == self.labels@[k]@);
                    assert(self@.labels =~~= add_label(lsv, lab@, idx));
                }
            }
            proof {
                assert(add_labels(v0.labels, pv.labels, idx, li as int + 1) == add_label(
                    add_labels(v0.labels, pv.labels, idx, li as int),
                    pv.labels[li as int],
                    idx,
                ));
                assert(lab@ == pv.labels[li as int]);
                assert(self@.labels == add_labels(v0.labels, pv.labels, idx, li as int + 1));
            }
            li = li + 1;
        }
        proof {
            assert(final(self)@ =~= spec_add_product(v0, pv));
            lemma_wf_add_product(v0, pv);
        }
    }
}

/// What one line of the purchases source does to the store: nothing if
/// it is malformed or names an unknown product id, and one atomic
/// purchase update otherwise.
pub open spec fn spec_purchase_line_step(v: StoreView, line: Seq<char>) -> StoreView {
    match parse_purchase_line_spec(line) {
        Option::None => v,
        Option::Some(t) => {
            let fi = find_index(v.products, t.1);
            if fi == v.products.len() {
                v
            } else {
                spec_add_purchase(v, t.0, fi as usize, t.2)
            }
        },
    }
}

/// What handling one purchase line reports back to the host.
#[derive(Clone, Copy, Debug, PartialEq, Eq, Structural)]
pub enum LineOutcome {
    /// The line had fewer than three tokens or a malformed quantity; it
    /// was discarded.
    Malformed,
    /// The line named a product id the store does not hold; its effects
    /// were dropped.
    UnknownProduct,
    /// The line was applied to the store.
    Applied,
}

impl PurchasesManager {
    /// The index of the first purchase with the given id, or the number
    /// of purchases.
    pub(crate) fn find_purchase_slot(&self, id: &Vec<char>) -> (k: usize)
        ensures
            k == purchase_index(self@.purchases, id@),
            k <= self@.purchases.len(),
    {
        let mut k: usize = 0;
        while k < self.purchases.len()
            invariant
                k <= self@.purchases.len(),
                forall|j: int| 0 <= j < k ==> self@.purchases[j].id != id@,
            decreases self@.purchases.len() - k,
        {
            proof {
                assert(self.purchases.deep_view()[k as int] == self.purchases@[k
                    as int].deep_view());
            }
            if seq_eq(self.purchases[k].get_id(), id) {
                proof {
                    lemma_purchase_index(self@.purchases, id@, k as int);
                }
                return k;
            }
            k = k + 1;
        }
        proof {
            lemma_purchase_index(self@.purchases, id@, k as int);
        }
        k
    }

    /// The index of the first counter entry for `c`, or the number of
    /// entries.
    fn find_category_slot(&self, c: ProductCategory) -> (j: usize)
        ensures
            j == category_index(self@.categories, c),
            j <= self@.categories.len(),
    {
        let mut j: usize = 0;
        while j < self.categories.len()
            invariant
                j <= self@.categories.len(),
                forall|k: int| 0 <= k < j ==> self@.categories[k].category != c,
            decreases self@.categories.len() - j,
        {
            if self.categories[j].category == c {
                proof {
                    lemma_category_index(self@.categories, c, j as int);
                }
                return j;
            }
            j = j + 1;
        }
        proof {
            lemma_category_index(self@.categories, c, j as int);
        }
        j
    }

    /// Applies one purchase record: resolves the product id, appends a
    /// line item to the named purchase (creating it on first reference),
    /// and raises the product's and its category's counters, all
    /// together. An unknown product id leaves the store untouched, and
    /// the result tells the host so.
    pub fn add_product_to_purchase(
        &mut self,
        purchase_id: Vec<char>,
        product_id: Vec<char>,
        quantity: u32,
    ) -> (found: bool)
        requires
            wf(old(self)@),
        ensures
            wf(final(self)@),
            ({
                let fi = find_index(old(self)@.products, product_id@);
                if fi == old(self)@.products.len() {
                    final(self)@ == old(self)@ && !found
                } else {
                    final(self)@ == spec_add_purchase(
                        old(self)@,
                        purchase_id@,
                        fi as usize,
                        quantity,
                    ) && found
                }
            }),
    {
        let ghost v0 = self@;
        let ghost pid = purchase_id@;
        let idx = match self.find_product_by_id(&product_id) {
            Option::None => {
                return false;
            },
            Option::Some(i) => i,
        };
        let ghost item = ProductPurchase { product: idx, quantity };
        let ghost k = purchase_index(v0.purchases, pid);

        let slot = self.find_purchase_slot(&purchase_id);
        if slot < self.purchases.len() {
            self.purchases[slot].add_product(idx, quantity);
            proof {
                assert(forall|p: int|
                    0 <= p < self.purchases@.len() ==> self.purchases.deep_view()[p]
                        == self.purchases@[p]@);
                assert(self@.purchases =~~= spec_add_purchase(v0, pid, idx, quantity).purchases);
            }
        } else {
            let mut p = Purchase::new(purchase_id);
            p.add_product(idx, quantity);
            self.purchases.push(p);
            proof {
                assert(forall|p2: int|
                    0 <= p2 < self.purchases@.len() ==> self.purchases.deep_view()[p2]
                        == self.purchases@[p2]@);
                assert(Seq::<ProductPurchase>::empty().push(item) =~= seq![item]);
                assert(self@.purchases =~~= spec_add_purchase(v0, pid, idx, quantity).purchases);
            }
        }

        let q64 = quantity as u64;
        let c0 = self.counts[idx];
        let nc = if c0 <= u64::MAX - q64 {
            c0 + q64
        } else {
            u64::MAX
        };
        self.counts[idx] = nc;
        self.counted[idx] = true;
        proof {
            assert(self@.counts =~= spec_add_purchase(v0, pid, idx, quantity).counts);
            assert(self@.counted =~= spec_add_purchase(v0, pid, idx, quantity).counted);
            assert(self.products.deep_view()[idx as int] == self.products@[idx as int]@);
        }

        let cat = self.products[idx].get_category();
        let slot2 = self.find_category_slot(cat);
        if slot2 < self.categories.len() {
            let oldc = self.categories[slot2].count;
            let ncc = if oldc <= u64::MAX - q64 {
                oldc + q64
            } else {
                u64::MAX
            };
            self.categories[slot2] = CategoryCount { category: cat, count: ncc };
        } else {
            self.categories.push(CategoryCount { category: cat, count: q64 });
        }
        proof {
            assert(self@.categories =~= spec_add_purchase(v0, pid, idx, quantity).categories);
            assert(final(self)@ =~= spec_add_purchase(v0, pid, idx, quantity));
            lemma_wf_add_purchase(v0, pid, idx, quantity);
        }
        true
    }

    /// Handles one line of the products source: a malformed line (the
    /// parse yields the sentinel) leaves the store unchanged and the
    /// catalog never sees it; any other line adds the parsed product.
    pub fn add_product_line(&mut self, line: &Vec<char>)
        requires
            wf(old(self)@),
        ensures
            wf(final(self)@),
            parse_product_spec(line@).name.len() == 0 ==> final(self)@ == old(self)@,
            parse_product_spec(line@).name.len() > 0 ==> final(self)@ == spec_add_product(
                old(self)@,
                parse_product_spec(line@),
            ),
    {
        let product = Product::from_line(line);
        if !product.is_empty() {
            self.add_product(product);
        }
    }

    /// Handles one line of the purchases source: a malformed line or one
    /// naming an unknown product leaves the store unchanged; any other
    /// line is applied as one atomic update.
    pub fn add_purchase_line(&mut self, line: &Vec<char>) -> (r: LineOutcome)
        requires
            wf(old(self)@),
        ensures
            wf(final(self)@),
            final(self)@ == spec_purchase_line_step(old(self)@, line@),
            match parse_purchase_line_spec(line@) {
                Option::None => final(self)@ == old(self)@ && r == LineOutcome::Malformed,
                Option::Some(t) => {
                    let fi = find_index(old(self)@.products, t.1);
                    if fi == old(self)@.products.len() {
                        final(self)@ == old(self)@ && r == LineOutcome::UnknownProduct
                    } else {
                        final(self)@ == spec_add_purchase(old(self)@, t.0, fi as usize, t.2) && r
                            == LineOutcome::Applied
                    }
                },
            },
    {
        match read_purchase_line(line) {
            Option::None => LineOutcome::Malformed,
            Option::Some((purchase_id, product_id, quantity)) => {
                if self.add_product_to_purchase(purchase_id, product_id, quantity) {
                    LineOutcome::Applied
                } else {
                    LineOutcome::UnknownProduct
                }
            },
        }
    }
}

/// `find_index` lies between 0 and the length.
pub proof fn lemma_find_index_le(products: Seq<ProductView>, id: Seq<char>)
    ensures
        0 <= find_index(products, id) <= products.len(),
    decreases products.len(),
{
    if products.len() > 0 && products[0].id != id {
        lemma_find_index_le(products.drop_first(), id);
    }
}

/// `purchase_index` lies between 0 and the length, finds a matching id,
/// and skips no earlier match.
pub proof fn lemma_purchase_index_le(ps: Seq<PurchaseView>, id: Seq<char>)
    ensures
        0 <= purchase_index(ps, id) <= ps.len(),
        purchase_index(ps, id) < ps.len() ==> ps[purchase_index(ps, id)].id == id,
        forall|j: int| 0 <= j < purchase_index(ps, id) ==> ps[j].id != id,
    decreases ps.len(),
{
    if ps.len() > 0 && ps[0].id != id {
        lemma_purchase_index_le(ps.drop_first(), id);
        assert forall|j: int| 0 <= j < purchase_index(ps, id) implies ps[j].id != id by {
            if j > 0 {
                assert(ps.drop_first()[j - 1] == ps[j]);
            }
        }
    }
}

/// `category_index` lies between 0 and the length, finds a matching
/// category, and skips no earlier match.
pub proof fn lemma_category_index_le(cs: Seq<CategoryCount>, c: ProductCategory)
    ensures
        0 <= category_index(cs, c) <= cs.len(),
        category_index(cs, c) < cs.len() ==> cs[category_index(cs, c)].category == c,
        forall|j: int| 0 <= j < category_index(cs, c) ==> cs[j].category != c,
    decreases cs.len(),
{
    if cs.len() > 0 && cs[0].category != c {
        lemma_category_index_le(cs.drop_first(), c);
        assert forall|j: int| 0 <= j < category_index(cs, c) implies cs[j].category != c by {
            if j > 0 {
                assert(cs.drop_first()[j - 1] == cs[j]);
            }
        }
    }
}

/// Applying one purchase line leaves each product sum unchanged but for
/// the referenced product, whose sum grows by the quantity.
proof fn lemma_add_purchase_sums(v: StoreView, pid: Seq<char>, idx: usize, q: u32)
    requires
        wf(v),
        (idx as int) < v.products.len(),
    ensures
        forall|i: int|
            i != idx ==> prod_qty_sum(#[trigger] spec_add_purchase(v, pid, idx, q).purchases, i)
                == prod_qty_sum(v.purchases, i),
        prod_qty_sum(spec_add_purchase(v, pid, idx, q).purchases, idx as int) == prod_qty_sum(
            v.purchases,
            idx as int,
        ) + q,
{
    let item = ProductPurchase { product: idx, quantity: q };
    let k = purchase_index(v.purchases, pid);
    let ps2 = spec_add_purchase(v, pid, idx, q).purchases;
    lemma_purchase_index_le(v.purchases, pid);
    assert forall|i: int| true implies prod_qty_sum(ps2, i) == prod_qty_sum(v.purchases, i) + (
    if i == idx {
        q as nat
    } else {
        0
    }) by {
        if k == v.purchases.len() {
            let p2 = PurchaseView { id: pid, cart: seq![item] };
            lemma_prod_sum_push(v.purchases, p2, i);
            lemma_cart_sum_single(item, i);
        } else {
            let p2 = PurchaseView { id: v.purchases[k].id, cart: v.purchases[k].cart.push(item) };
            lemma_prod_sum_update(v.purchases, k, p2, i);
            lemma_cart_sum_push(v.purchases[k].cart, item, i);
        }
    }
}

/// A well-formed store stays well formed when a purchase line is
/// applied to a product the arena holds.
proof fn lemma_wf_add_purchase(v: StoreView, pid: Seq<char>, idx: usize, q: u32)
    requires
        wf(v),
        (idx as int) < v.products.len(),
    ensures
        wf(spec_add_purchase(v, pid, idx, q)),
{
    let v2 = spec_add_purchase(v, pid, idx, q);
    let n = v.products.len() as int;
    let item = ProductPurchase { product: idx, quantity: q };
    let k = purchase_index(v.purchases, pid);
    let cat = v.products[idx as int].category;
    let j = category_index(v.categories, cat);
    lemma_purchase_index_le(v.purchases, pid);
    lemma_category_index_le(v.categories, cat);
    lemma_add_purchase_sums(v, pid, idx, q);

    // cart items stay within the arena
    assert forall|p: int, c: int|
        0 <= p < v2.purchases.len() && 0 <= c < v2.purchases[p].cart.len() implies (
    #[trigger] v2.purchases[p].cart[c]).product < v2.products.len() by {
        if k < v.purchases.len() && p == k && c == v.purchases[k].cart.len() {
        } else if k == v.purchases.len() && p == k {
            assert(v2.purchases[p].cart == seq![item]);
        } else {
            assert(v2.purchases[p].cart[c] == v.purchases[p].cart[c]);
        }
    }

    // product counters
    assert forall|i: int| 0 <= i < v2.counts.len() implies v2.counts[i] == sat_u64(
        prod_qty_sum(v2.purchases, i),
    ) by {
        if i == idx {
            assert(v.counts[i] == sat_u64(prod_qty_sum(v.purchases, i)));
        }
    }

    // recorded exactly when referenced
    assert forall|i: int| 0 <= i < v2.counted.len() implies (v2.counted[i] <==> has_item(
        v2.purchases,
        i,
    )) by {
        let pi = k;
        let ci = if k == v.purchases.len() {
            0int
        } else {
            v.purchases[k].cart.len() as int
        };
        assert(v2.purchases[pi].cart[ci] == item);
        if i == idx {
            assert(has_item(v2.purchases, i));
        } else {
            if has_item(v.purchases, i) {
                let (p, c): (int, int) = choose|p: int, c: int|
                    0 <= p < v.purchases.len() && 0 <= c < v.purchases[p].cart.len()
                        && v.purchases[p].cart[c].product == i;
                assert(v2.purchases[p].cart[c].product == i);
                assert(has_item(v2.purchases, i));
            }
            if has_item(v2.purchases, i) {
                let (p, c): (int, int) = choose|p: int, c: int|
                    0 <= p < v2.purchases.len() && 0 <= c < v2.purchases[p].cart.len()
                        && v2.purchases[p].cart[c].product == i;
                assert(!(p == pi && c == ci));
                assert(v.purchases[p].cart[c].product == i);
                assert(has_item(v.purchases, i));
            }
        }
    }

    // category counters
    assert forall|j2: int| 0 <= j2 < v2.categories.len() implies v2.categories[j2].count
        == sat_u64(cat_qty_sum_upto(v2.products, v2.purchases, v2.categories[j2].category, n)) by {
        let c2 = v2.categories[j2].category;
        lemma_cat_sum_change(v.products, v.purchases, v2.purchases, c2, n, idx as int, q as nat);
        if j == v.categories.len() {
            if j2 == j {
                assert(c2 == cat);
                assert(category_index(v.categories, cat) == v.categories.len());
                assert(cat_qty_sum_upto(v.products, v.purchases, cat, n) == 0);
            } else {
                assert(v2.categories[j2] == v.categories[j2]);
                assert(c2 != cat);
            }
        } else {
            if j2 == j {
                assert(c2 == cat);
            } else {
                assert(v2.categories[j2] == v.categories[j2]);
                assert(c2 != cat);
            }
        }
    }

    // categories without an entry still sum to zero
    assert forall|c: ProductCategory|
        #[trigger] category_index(v2.categories, c) == v2.categories.len() implies cat_qty_sum_upto(
        v2.products,
        v2.purchases,
        c,
        n,
    ) == 0 by {
        lemma_category_index_le(v2.categories, c);
        assert(c != cat) by {
            if c == cat {
                assert(v2.categories[j].category == cat);
            }
        }
        assert(category_index(v.categories, c) == v.categories.len()) by {
            lemma_category_index_le(v.categories, c);
            if category_index(v.categories, c) < v.categories.len() {
                let jc = category_index(v.categories, c);
                assert(v2.categories[jc].category == c);
            }
        }
        lemma_cat_sum_change(v.products, v.purchases, v2.purchases, c, n, idx as int, q as nat);
    }
}

/// A well-formed store stays well formed when a product is appended.
proof fn lemma_wf_add_product(v: StoreView, p: ProductView)
    requires
        wf(v),
    ensures
        wf(spec_add_product(v, p)),
{
    let v2 = spec_add_product(v, p);
    let n = v.products.len() as int;
    assert forall|i: int| 0 <= i < v2.counts.len() implies v2.counts[i] == sat_u64(
        prod_qty_sum(v2.purchases, i),
    ) by {
        if i == n {
            lemma_prod_sum_zero(v.purchases, i);
        }
    }
    assert forall|i: int| 0 <= i < v2.counted.len() implies (v2.counted[i] <==> has_item(
        v2.purchases,
        i,
    )) by {
        if i == n {
            assert(!has_item(v.purchases, i));
        }
    }
    assert(v2.labels == label_index_of(v2.products, n + 1)) by {
        lemma_label_index_prefix(v.products, p, n);
        assert(v2.products[n].labels == p.labels);
    }
    lemma_add_labels_bound(v.labels, p.labels, v.products.len() as usize, p.labels.len() as int,
        n + 1);
    assert forall|j: int| 0 <= j < v2.categories.len() implies v2.categories[j].count == sat_u64(
        cat_qty_sum_upto(v2.products, v2.purchases, v2.categories[j].category, n + 1),
    ) by {
        let c = v2.categories[j].category;
        lemma_cat_sum_prefix(v.products, v2.products, v.purchases, c, n);
        if v2.products[n].category == c {
            lemma_prod_sum_zero(v.purchases, n);
        }
    }
    assert forall|c: ProductCategory|
        #[trigger] category_index(v2.categories, c) == v2.categories.len() implies cat_qty_sum_upto(
        v2.products,
        v2.purchases,
        c,
        n + 1,
    ) == 0 by {
        lemma_cat_sum_prefix(v.products, v2.products, v.purchases, c, n);
        if v2.products[n].category == c {
            lemma_prod_sum_zero(v.purchases, n);
        }
    }
}

} // verus!
