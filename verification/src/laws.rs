//! Laws of the aggregation store, proved once and for all sequences of
//! records.
//!
//! The per-operation contracts in [`crate::manager`] pin down what each
//! call does; the proofs here lift them to whole ingestion runs: the
//! counters are additive over any sequence of purchase lines, the
//! category counters roll the product counters up, and a purchase's
//! cart lists the qualifying lines that named it, in processing order.

use vstd::prelude::*;

use crate::manager::cat_qty_sum_upto;
use crate::manager::find_index;
use crate::manager::lemma_find_index_le;
use crate::manager::lemma_purchase_index;
use crate::manager::lemma_purchase_index_le;
use crate::manager::purchase_index;
use crate::manager::prod_qty_sum;
use crate::manager::sat_u64;
use crate::manager::spec_purchase_line_step;
use crate::manager::wf;
use crate::manager::StoreView;
use crate::products::ProductCategory;
use crate::products::ProductView;
use crate::purchases::parse_purchase_line_spec;

verus! {

/// The store after a sequence of purchase lines, handled in order.
pub open spec fn apply_purchase_lines(v: StoreView, lines: Seq<Seq<char>>) -> StoreView
    decreases lines.len(),
{
    if lines.len() == 0 {
        v
    } else {
        apply_purchase_lines(spec_purchase_line_step(v, lines[0]), lines.drop_first())
    }
}

/// The summed quantity of the lines that qualify for product `i`: those
/// with at least three tokens, a well-formed quantity, and a product id
/// resolving to `i`.
pub open spec fn qualifying_qty_sum(
    products: Seq<ProductView>,
    lines: Seq<Seq<char>>,
    i: int,
) -> nat
    decreases lines.len(),
{
    if lines.len() == 0 {
        0
    } else {
        (match parse_purchase_line_spec(lines[0]) {
            Option::None => 0,
            Option::Some(t) => if find_index(products, t.1) == i {
                t.2 as nat
            } else {
                0
            },
        }) + qualifying_qty_sum(products, lines.drop_first(), i)
    }
}

/// Handling purchase lines never changes the catalog, nor how many
/// counters run beside it.
pub proof fn lemma_step_keeps_products(v: StoreView, line: Seq<char>)
    requires
        v.counts.len() == v.products.len(),
    ensures
        spec_purchase_line_step(v, line).products == v.products,
        spec_purchase_line_step(v, line).counts.len() == v.counts.len(),
{
    match parse_purchase_line_spec(line) {
        Option::None => {},
        Option::Some(t) => {
            let fi = find_index(v.products, t.1);
            if fi != v.products.len() {
                crate::manager::lemma_find_index_le(v.products, t.1);
            }
        },
    }
}

/// Counter additivity: over any sequence of purchase lines, product
/// `i`'s counter grows by exactly the summed quantity of the lines that
/// (a) have at least three tokens, (b) carry a well-formed quantity,
/// and (c) name a product id resolving to `i` — saturated only at the
/// very top of the counter's range.
pub proof fn lemma_counter_additivity(v: StoreView, lines: Seq<Seq<char>>, i: int)
    requires
        0 <= i < v.products.len(),
        v.products.len() <= usize::MAX,
        v.counts.len() == v.products.len(),
    ensures
        apply_purchase_lines(v, lines).counts[i] == sat_u64(
            v.counts[i] as nat + qualifying_qty_sum(v.products, lines, i),
        ),
    decreases lines.len(),
{
    if lines.len() == 0 {
        assert(sat_u64(v.counts[i] as nat + 0) == v.counts[i]);
    } else {
        let v1 = spec_purchase_line_step(v, lines[0]);
        lemma_step_keeps_products(v, lines[0]);
        lemma_counter_additivity(v1, lines.drop_first(), i);
        let d0 = (match parse_purchase_line_spec(lines[0]) {
            Option::None => 0nat,
            Option::Some(t) => if find_index(v.products, t.1) == i {
                t.2 as nat
            } else {
                0
            },
        });
        assert(v1.counts[i] == sat_u64(v.counts[i] as nat + d0)) by {
            match parse_purchase_line_spec(lines[0]) {
                Option::None => {
                    assert(sat_u64(v.counts[i] as nat + 0) == v.counts[i]);
                },
                Option::Some(t) => {
                    crate::manager::lemma_find_index_le(v.products, t.1);
                    let fi = find_index(v.products, t.1);
                    if fi != v.products.len() {
                        assert(v1 == crate::manager::spec_add_purchase(v, t.0, fi as usize, t.2));
                        if fi != i {
                            assert(v1.counts[i] == v.counts[i]);
                            assert(sat_u64(v.counts[i] as nat + 0) == v.counts[i]);
                        }
                    } else {
                        assert(sat_u64(v.counts[i] as nat + 0) == v.counts[i]);
                    }
                },
            }
        }
        let rest = qualifying_qty_sum(v.products, lines.drop_first(), i);
        assert(sat_u64(sat_u64(v.counts[i] as nat + d0) as nat + rest) == sat_u64(
            v.counts[i] as nat + d0 + rest,
        ));
    }
}

/// The line items of the lines that qualify and name the purchase
/// `pid`, in line order.
pub open spec fn qualifying_items(
    products: Seq<ProductView>,
    lines: Seq<Seq<char>>,
    pid: Seq<char>,
) -> Seq<crate::purchases::ProductPurchase>
    decreases lines.len(),
{
    if lines.len() == 0 {
        Seq::empty()
    } else {
        (match parse_purchase_line_spec(lines[0]) {
            Option::None => Seq::<crate::purchases::ProductPurchase>::empty(),
            Option::Some(t) => if t.0 == pid && find_index(products, t.1) < products.len() {
                seq![
                    crate::purchases::ProductPurchase {
                        product: find_index(products, t.1) as usize,
                        quantity: t.2,
                    }
                ]
            } else {
                Seq::empty()
            },
        }) + qualifying_items(products, lines.drop_first(), pid)
    }
}

/// Cart ordering: over any sequence of purchase lines, the cart of the
/// purchase `pid` is its old cart (empty, if the purchase is first
/// created here) followed by exactly the line items of the qualifying
/// lines that name it, in the order those lines were processed.
pub proof fn lemma_cart_ordering(v: StoreView, lines: Seq<Seq<char>>, pid: Seq<char>)
    requires
        v.products.len() <= usize::MAX,
    ensures
        ({
            let w = apply_purchase_lines(v, lines);
            let k0 = purchase_index(v.purchases, pid);
            let kf = purchase_index(w.purchases, pid);
            let items = qualifying_items(v.products, lines, pid);
            if k0 < v.purchases.len() {
                kf == k0 && k0 < w.purchases.len() && w.purchases[k0].id == v.purchases[k0].id
                    && w.purchases[k0].cart == v.purchases[k0].cart + items
            } else if items.len() > 0 {
                kf < w.purchases.len() && w.purchases[kf].id == pid && w.purchases[kf].cart
                    == items
            } else {
                kf == w.purchases.len()
            }
        }),
    decreases lines.len(),
{
    let w = apply_purchase_lines(v, lines);
    let k0 = purchase_index(v.purchases, pid);
    let items = qualifying_items(v.products, lines, pid);
    lemma_purchase_index_le(v.purchases, pid);
    if lines.len() == 0 {
        assert(v.purchases[k0].cart + items =~= v.purchases[k0].cart);
    } else {
        let v1 = spec_purchase_line_step(v, lines[0]);
        assert(v1.products == v.products);
        lemma_cart_ordering(v1, lines.drop_first(), pid);
        let k1 = purchase_index(v1.purchases, pid);
        let rest = qualifying_items(v.products, lines.drop_first(), pid);
        match parse_purchase_line_spec(lines[0]) {
            Option::None => {
                assert(v1.purchases == v.purchases);
                assert(items =~= rest);
            },
            Option::Some(t) => {
                lemma_find_index_le(v.products, t.1);
                let fi = find_index(v.products, t.1);
                if fi == v.products.len() {
                    assert(v1.purchases == v.purchases);
                    assert(items =~= rest);
                } else {
                    let it = crate::purchases::ProductPurchase {
                        product: fi as usize,
                        quantity: t.2,
                    };
                    let kp = purchase_index(v.purchases, t.0);
                    lemma_purchase_index_le(v.purchases, t.0);
                    if t.0 == pid {
                        assert(items =~= seq![it] + rest);
                        if k0 < v.purchases.len() {
                            assert(v1.purchases[k0].id == pid);
                            assert forall|j: int| 0 <= j < k0 implies v1.purchases[j].id
                                != pid by {}
                            lemma_purchase_index(v1.purchases, pid, k0);
                            assert(v1.purchases[k0].cart == v.purchases[k0].cart.push(it));
                            assert(v.purchases[k0].cart + items =~= v.purchases[k0].cart.push(it)
                                + rest);
                        } else {
                            assert(v1.purchases == v.purchases.push(
                                crate::purchases::PurchaseView { id: pid, cart: seq![it] },
                            ));
                            lemma_purchase_index(v1.purchases, pid, k0);
                            assert(k1 == k0 < v1.purchases.len());
                            assert(v1.purchases[k1].cart =~= seq![it] + Seq::<
                                crate::purchases::ProductPurchase,
                            >::empty());
                            assert(v1.purchases[k1].cart + rest =~= seq![it] + rest);
                            assert(items.len() > 0);
                        }
                    } else {
                        assert(items =~= rest);
                        if kp < v.purchases.len() {
                            assert(v1.purchases[kp].id == t.0);
                            assert(forall|j: int|
                                0 <= j < v.purchases.len() ==> v1.purchases[j].id
                                    == v.purchases[j].id);
                            if k0 < v.purchases.len() {
                                lemma_purchase_index(v1.purchases, pid, k0);
                                assert(kp != k0);
                                assert(v1.purchases[k0].cart == v.purchases[k0].cart);
                            } else {
                                lemma_purchase_index(v1.purchases, pid, v1.purchases.len() as int);
                            }
                        } else {
                            assert(v1.purchases == v.purchases.push(
                                crate::purchases::PurchaseView { id: t.0, cart: seq![it] },
                            ));
                            if k0 < v.purchases.len() {
                                lemma_purchase_index(v1.purchases, pid, k0);
                            } else {
                                lemma_purchase_index(v1.purchases, pid, v1.purchases.len() as int);
                            }
                        }
                    }
                }
            },
        }
    }
}

/// The sum of the recorded product counters over the first `n` products
/// of category `c`.
pub open spec fn counts_sum_for_cat(v: StoreView, c: ProductCategory, n: int) -> nat
    decreases n,
{
    if n <= 0 {
        0
    } else {
        counts_sum_for_cat(v, c, n - 1) + if v.products[n - 1].category == c {
            v.counts[n - 1] as nat
        } else {
            0
        }
    }
}

/// Each product's quantity sum is bounded by its category's.
proof fn lemma_cat_sum_lower(
    products: Seq<ProductView>,
    ps: Seq<crate::purchases::PurchaseView>,
    c: ProductCategory,
    n: int,
    i: int,
)
    requires
        0 <= i < n,
        products[i].category == c,
    ensures
        cat_qty_sum_upto(products, ps, c, n) >= prod_qty_sum(ps, i),
    decreases n,
{
    if i < n - 1 {
        lemma_cat_sum_lower(products, ps, c, n - 1, i);
    }
}

/// When nothing saturates, the counter sum over a category equals that
/// category's quantity sum.
proof fn lemma_counts_sum_eq(v: StoreView, c: ProductCategory, n: int)
    requires
        wf(v),
        0 <= n <= v.products.len(),
        cat_qty_sum_upto(v.products, v.purchases, c, v.products.len() as int) <= u64::MAX,
    ensures
        counts_sum_for_cat(v, c, n) == cat_qty_sum_upto(v.products, v.purchases, c, n),
    decreases n,
{
    if n > 0 {
        lemma_counts_sum_eq(v, c, n - 1);
        if v.products[n - 1].category == c {
            lemma_cat_sum_lower(v.products, v.purchases, c, v.products.len() as int, n - 1);
            assert(prod_qty_sum(v.purchases, n - 1) <= u64::MAX);
            assert(v.counts[n - 1] == sat_u64(prod_qty_sum(v.purchases, n - 1)));
        }
    }
}

/// Category rollup: as long as a category's total stays within the
/// counter's range, its counter equals the sum of the product counters
/// over the products of that category.
pub proof fn lemma_category_rollup(v: StoreView, j: int)
    requires
        wf(v),
        0 <= j < v.categories.len(),
        cat_qty_sum_upto(v.products, v.purchases, v.categories[j].category,
        v.products.len() as int) <= u64::MAX,
    ensures
        v.categories[j].count as nat == counts_sum_for_cat(
            v,
            v.categories[j].category,
            v.products.len() as int,
        ),
{
    let c = v.categories[j].category;
    let n = v.products.len() as int;
    assert(v.categories[j].count == sat_u64(cat_qty_sum_upto(v.products, v.purchases, c, n)));
    lemma_counts_sum_eq(v, c, n);
}

} // verus!
