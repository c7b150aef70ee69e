//! Report renderers: pure functions from the store's current state to
//! the text artifacts the host writes out.
//!
//! Each renderer is specified by a function building the exact character
//! sequence of its report. The by-label report walks the by-label index
//! in bucket-creation order; the product-purchases report lists recorded
//! products by id, ascending; the category report walks the counter
//! table in first-increment order; a ticket lays out one purchase's
//! cart. The ticket's total row is handed in by the caller, already
//! rendered: prices are opaque numeral tokens to the store, and only the
//! host does floating-point arithmetic on them.

use vstd::prelude::*;

use crate::manager::purchase_index;
use crate::manager::wf;
use crate::manager::PurchasesManager;
use crate::manager::StoreView;
use crate::products::product_display;
use crate::products::category_name;
use crate::products::Product;
use crate::purchases::ProductPurchase;
use crate::text::dec_of;
use crate::text::push_all;
use crate::text::lex_le;
use crate::text::pad_to;
use crate::text::push_dec;
use crate::text::push_lit;
use crate::text::push_padded;
use crate::text::push_spaces;
use crate::text::lex_le_exec;

verus! {

/// The banner between report sections: thirty-two `=` and a newline.
pub open spec fn separator() -> Seq<char> {
    Seq::new(32, |i: int| '=') + seq!['\n']
}

/// Appends the banner to `out`.
pub fn push_separator(out: &mut Vec<char>)
    ensures
        final(out)@ == old(out)@ + separator(),
{
    let mut i: usize = 0;
    proof {
        assert(out@ =~= old(out)@ + Seq::new(0, |k: int| '='));
    }
    while i < 32
        invariant
            i <= 32,
            out@ == old(out)@ + Seq::new(i as nat, |k: int| '='),
        decreases 32 - i,
    {
        out.push('=');
        i = i + 1;
        proof {
            assert(out@ =~= old(out)@ + Seq::new(i as nat, |k: int| '='));
        }
    }
    out.push('\n');
    proof {
        assert(out@ =~= old(out)@ + separator());
    }
}

/// The first `n` member lines of a label bucket.
pub open spec fn render_members_upto(v: StoreView, ms: Seq<usize>, n: int) -> Seq<char>
    decreases n,
{
    if n <= 0 {
        Seq::empty()
    } else {
        render_members_upto(v, ms, n - 1) + product_display(v.products[ms[n - 1] as int])
            + seq!['\n']
    }
}

/// One section of the by-label report: the label head line, one line
/// per product in the bucket, and the banner.
pub open spec fn render_bucket(v: StoreView, b: crate::manager::LabelBucketView) -> Seq<char> {
    "LABEL '"@ + b.label + "'\n"@ + render_members_upto(v, b.members, b.members.len() as int)
        + separator()
}

/// The first `n` sections of the by-label report.
pub open spec fn render_buckets_upto(v: StoreView, n: int) -> Seq<char>
    decreases n,
{
    if n <= 0 {
        Seq::empty()
    } else {
        render_buckets_upto(v, n - 1) + render_bucket(v, v.labels[n - 1])
    }
}

/// The by-label report: a banner, then one section per label in
/// bucket-creation order.
pub open spec fn products_by_label_report(v: StoreView) -> Seq<char> {
    separator() + render_buckets_upto(v, v.labels.len() as int)
}

/// The first `n` lines of the category report.
pub open spec fn render_categories_upto(v: StoreView, n: int) -> Seq<char>
    decreases n,
{
    if n <= 0 {
        Seq::empty()
    } else {
        render_categories_upto(v, n - 1) + category_name(v.categories[n - 1].category)
            + " bought "@ + dec_of(v.categories[n - 1].count as nat) + " units\n"@
    }
}

/// The category-purchases report: one line per recorded category, in
/// first-increment order.
pub open spec fn category_purchases_report(v: StoreView) -> Seq<char> {
    render_categories_upto(v, v.categories.len() as int)
}

/// The arena indices of the first `n` products with a recorded counter,
/// ascending.
pub open spec fn recorded_upto(v: StoreView, n: int) -> Seq<usize>
    decreases n,
{
    if n <= 0 {
        Seq::empty()
    } else {
        recorded_upto(v, n - 1) + if v.counted[n - 1] {
            seq![(n - 1) as usize]
        } else {
            Seq::empty()
        }
    }
}

/// `x` inserted into `s` behind every index whose product id does not
/// come after `x`'s.
pub open spec fn insert_by_id(ps: Seq<crate::products::ProductView>, s: Seq<usize>, x: usize) -> Seq<
    usize,
>
    decreases s.len(),
{
    if s.len() == 0 {
        seq![x]
    } else if lex_le(ps[s[0] as int].id, ps[x as int].id) {
        seq![s[0]] + insert_by_id(ps, s.drop_first(), x)
    } else {
        seq![x] + s
    }
}

/// Insertion sort of arena indices by product id, ascending.
pub open spec fn isort_by_id(ps: Seq<crate::products::ProductView>, s: Seq<usize>) -> Seq<usize>
    decreases s.len(),
{
    if s.len() == 0 {
        s
    } else {
        insert_by_id(ps, isort_by_id(ps, s.drop_last()), s.last())
    }
}

/// The first `n` lines of the product-purchases report, following the
/// order `s`.
pub open spec fn render_counts_upto(v: StoreView, s: Seq<usize>, n: int) -> Seq<char>
    decreases n,
{
    if n <= 0 {
        Seq::empty()
    } else {
        render_counts_upto(v, s, n - 1) + product_display(v.products[s[n - 1] as int])
            + " bought "@ + dec_of(v.counts[s[n - 1] as int] as nat) + " units\n"@
    }
}

/// The product-purchases report: one line per product with a recorded
/// counter, by product id ascending.
pub open spec fn product_purchases_report(v: StoreView) -> Seq<char> {
    let s = isort_by_id(v.products, recorded_upto(v, v.products.len() as int));
    render_counts_upto(v, s, s.len() as int)
}

/// The first `n` cart rows of a ticket: product name, quantity and unit
/// price in padded columns.
pub open spec fn render_rows_upto(v: StoreView, cart: Seq<ProductPurchase>, n: int) -> Seq<char>
    decreases n,
{
    if n <= 0 {
        Seq::empty()
    } else {
        render_rows_upto(v, cart, n - 1) + pad_to(v.products[cart[n - 1].product as int].name, 15)
            + pad_to(dec_of(cart[n - 1].quantity as nat), 10) + pad_to(
            v.products[cart[n - 1].product as int].price,
            15,
        ) + seq!['\n']
    }
}

/// The ticket for the purchase at `k`: banners, the header row, one row
/// per cart line item, and the total row, whose rendered amount the
/// caller supplies.
pub open spec fn ticket_report(v: StoreView, k: int, total: Seq<char>) -> Seq<char> {
    separator() + "TICKET FOR PURCHASE ID "@ + v.purchases[k].id + seq!['\n'] + separator()
        + pad_to("PRODUCT"@, 15) + pad_to("QUANTITY"@, 10) + pad_to("PRICE"@, 15) + seq!['\n']
        + render_rows_upto(v, v.purchases[k].cart, v.purchases[k].cart.len() as int) + separator()
        + pad_to("TOTAL"@, 25) + pad_to(total, 15) + seq!['\n'] + separator()
}

impl PurchasesManager {
    /// Renders the by-label report: every label of the index, each
    /// followed by the display line of every product in its bucket.
    pub fn generate_products_by_label(&self) -> (r: Vec<char>)
        requires
            wf(self@),
        ensures
            r@ == products_by_label_report(self@),
    {
        let mut out: Vec<char> = Vec::new();
        push_separator(&mut out);
        let buckets = self.get_label_buckets();
        let nb = buckets.len();
        let mut bi: usize = 0;
        while bi < nb
            invariant
                wf(self@),
                bi <= nb,
                nb == self@.labels.len(),
                buckets.deep_view() == self@.labels,
                out@ == separator() + render_buckets_upto(self@, bi as int),
            decreases nb - bi,
        {
            proof {
                assert(buckets.deep_view()[bi as int] == buckets@[bi as int].deep_view());
            }
            push_lit(&mut out, "LABEL '");
            push_all(&mut out, buckets[bi].get_label());
            push_lit(&mut out, "'\n");
            let nm = buckets[bi].get_members().len();
            let mut mi: usize = 0;
            proof {
                assert(out@ =~= separator() + render_buckets_upto(self@, bi as int) + "LABEL '"@
                    + self@.labels[bi as int].label + "'\n"@ + render_members_upto(
                    self@,
                    self@.labels[bi as int].members,
                    0,
                ));
            }
            while mi < nm
                invariant
                    wf(self@),
                    bi < self@.labels.len(),
                    mi <= nm,
                    nm == self@.labels[bi as int].members.len(),
                    buckets.deep_view() == self@.labels,
                    out@ == separator() + render_buckets_upto(self@, bi as int) + "LABEL '"@
                        + self@.labels[bi as int].label + "'\n"@ + render_members_upto(
                        self@,
                        self@.labels[bi as int].members,
                        mi as int,
                    ),
                decreases nm - mi,
            {
                proof {
                    assert(buckets.deep_view()[bi as int] == buckets@[bi as int].deep_view());
                }
                let m = buckets[bi].get_members()[mi];
                proof {
                    assert(self@.labels[bi as int].members[mi as int] < self@.products.len());
                }
                let products = self.get_products();
                proof {
                    assert(products.deep_view()[m as int] == products@[m as int].deep_view());
                }
                products[m].push_display(&mut out);
                out.push('\n');
                proof {
                    assert(out@ =~= separator() + render_buckets_upto(self@, bi as int)
                        + "LABEL '"@ + self@.labels[bi as int].label + "'\n"@
                        + render_members_upto(
                        self@,
                        self@.labels[bi as int].members,
                        mi as int + 1,
                    ));
                }
                mi = mi + 1;
            }
            push_separator(&mut out);
            proof {
                assert(out@ =~= separator() + render_buckets_upto(self@, bi as int + 1));
            }
            bi = bi + 1;
        }
        out
    }

    /// Renders the category-purchases report: one line per recorded
    /// category, in first-increment order.
    pub fn generate_category_purchases_number(&self) -> (r: Vec<char>)
        ensures
            r@ == category_purchases_report(self@),
    {
        let mut out: Vec<char> = Vec::new();
        let cats = self.get_categories();
        let n = cats.len();
        let mut i: usize = 0;
        proof {
            assert(out@ =~= render_categories_upto(self@, 0));
        }
        while i < n
            invariant
                i <= n,
                n == self@.categories.len(),
                cats@ == self@.categories,
                out@ == render_categories_upto(self@, i as int),
            decreases n - i,
        {
            let entry = cats[i];
            crate::products::push_category_name(&mut out, entry.category);
            push_lit(&mut out, " bought ");
            push_dec(&mut out, entry.count);
            push_lit(&mut out, " units\n");
            proof {
                assert(out@ =~= render_categories_upto(self@, i as int + 1));
            }
            i = i + 1;
        }
        out
    }

    /// The arena indices of the products with a recorded counter,
    /// ascending.
    fn recorded_indices(&self) -> (r: Vec<usize>)
        requires
            wf(self@),
        ensures
            r@ == recorded_upto(self@, self@.products.len() as int),
            forall|k: int| 0 <= k < r@.len() ==> (#[trigger] r@[k] as int) < self@.products.len(),
    {
        let mut r: Vec<usize> = Vec::new();
        let counted = self.get_counted();
        let n = counted.len();
        let mut i: usize = 0;
        proof {
            assert(r@ =~= recorded_upto(self@, 0));
        }
        while i < n
            invariant
                i <= n,
                n == self@.counted.len(),
                counted@ == self@.counted,
                r@ == recorded_upto(self@, i as int),
                forall|k: int| 0 <= k < r@.len() ==> (#[trigger] r@[k] as int) < i,
            decreases n - i,
        {
            if counted[i] {
                r.push(i);
            }
            proof {
                assert(r@ =~= recorded_upto(self@, i as int + 1));
            }
            i = i + 1;
        }
        r
    }

    /// Renders the product-purchases report: one line per product with
    /// a recorded counter, by product id ascending.
    pub fn generate_products_purchases_number(&self) -> (r: Vec<char>)
        requires
            wf(self@),
        ensures
            r@ == product_purchases_report(self@),
    {
        let rec = self.recorded_indices();
        let order = isort_exec(self.get_products(), rec);
        let ghost s = isort_by_id(self@.products, recorded_upto(self@, self@.products.len() as int));
        let mut out: Vec<char> = Vec::new();
        let n = order.len();
        let mut i: usize = 0;
        proof {
            assert(out@ =~= render_counts_upto(self@, s, 0));
        }
        while i < n
            invariant
                wf(self@),
                i <= n,
                n == s.len(),
                order@ == s,
                forall|k: int| 0 <= k < order@.len() ==> (#[trigger] order@[k] as int)
                    < self@.products.len(),
                out@ == render_counts_upto(self@, s, i as int),
            decreases n - i,
        {
            let oi = order[i];
            let products = self.get_products();
            proof {
                assert(products.deep_view()[oi as int] == products@[oi as int].deep_view());
            }
            products[oi].push_display(&mut out);
            push_lit(&mut out, " bought ");
            let counts = self.get_counts();
            push_dec(&mut out, counts[oi]);
            push_lit(&mut out, " units\n");
            proof {
                assert(out@ =~= render_counts_upto(self@, s, i as int + 1));
            }
            i = i + 1;
        }
        out
    }

    /// Renders the ticket of one purchase; the caller supplies the
    /// rendered total amount. An unknown purchase id yields nothing,
    /// and the host is expected to say so.
    pub fn generate_ticket(&self, purchase_id: &Vec<char>, total: &Vec<char>) -> (r: Option<
        Vec<char>,
    >)
        requires
            wf(self@),
        ensures
            ({
                let k = purchase_index(self@.purchases, purchase_id@);
                if k == self@.purchases.len() {
                    r is None
                } else {
                    r matches Option::Some(t) && t@ == ticket_report(self@, k, total@)
                }
            }),
    {
        let k = self.find_purchase_slot(purchase_id);
        let purchases = self.get_purchases();
        if k == purchases.len() {
            return Option::None;
        }
        proof {
            assert(purchases.deep_view()[k as int] == purchases@[k as int].deep_view());
        }
        let mut out: Vec<char> = Vec::new();
        push_separator(&mut out);
        push_lit(&mut out, "TICKET FOR PURCHASE ID ");
        push_all(&mut out, purchases[k].get_id());
        out.push('\n');
        push_separator(&mut out);
        push_lit(&mut out, "PRODUCT");
        push_spaces(&mut out, 8);
        push_lit(&mut out, "QUANTITY");
        push_spaces(&mut out, 2);
        push_lit(&mut out, "PRICE");
        push_spaces(&mut out, 10);
        out.push('\n');
        proof {
            reveal_strlit("PRODUCT");
            reveal_strlit("QUANTITY");
            reveal_strlit("PRICE");
            assert(out@ =~= separator() + "TICKET FOR PURCHASE ID "@ + self@.purchases[k
                as int].id + seq!['\n'] + separator() + pad_to("PRODUCT"@, 15) + pad_to(
                "QUANTITY"@,
                10,
            ) + pad_to("PRICE"@, 15) + seq!['\n'] + render_rows_upto(
                self@,
                self@.purchases[k as int].cart,
                0,
            ));
        }
        let ghost head = separator() + "TICKET FOR PURCHASE ID "@ + self@.purchases[k as int].id
            + seq!['\n'] + separator() + pad_to("PRODUCT"@, 15) + pad_to("QUANTITY"@, 10) + pad_to(
            "PRICE"@,
            15,
        ) + seq!['\n'];
        let nc = purchases[k].get_cart().len();
        let mut ci: usize = 0;
        while ci < nc
            invariant
                wf(self@),
                ci <= nc,
                k < self@.purchases.len(),
                nc == self@.purchases[k as int].cart.len(),
                purchases.deep_view() == self@.purchases,
                out@ == head + render_rows_upto(self@, self@.purchases[k as int].cart, ci as int),
                head == separator() + "TICKET FOR PURCHASE ID "@ + self@.purchases[k as int].id
                    + seq!['\n'] + separator() + pad_to("PRODUCT"@, 15) + pad_to("QUANTITY"@, 10)
                    + pad_to("PRICE"@, 15) + seq!['\n'],
            decreases nc - ci,
        {
            proof {
                assert(purchases.deep_view()[k as int] == purchases@[k as int].deep_view());
            }
            let item = purchases[k].get_cart()[ci];
            proof {
                assert(self@.purchases[k as int].cart[ci as int].product < self@.products.len());
            }
            let products = self.get_products();
            proof {
                assert(products.deep_view()[item.product as int] == products@[item.product
                    as int].deep_view());
            }
            push_padded(&mut out, products[item.product].get_name(), 15);
            let mut qv: Vec<char> = Vec::new();
            push_dec(&mut qv, item.quantity as u64);
            push_padded(&mut out, &qv, 10);
            push_padded(&mut out, products[item.product].get_price(), 15);
            out.push('\n');
            proof {
                assert(out@ =~= head + render_rows_upto(
                    self@,
                    self@.purchases[k as int].cart,
                    ci as int + 1,
                ));
            }
            ci = ci + 1;
        }
        push_separator(&mut out);
        push_lit(&mut out, "TOTAL");
        push_spaces(&mut out, 20);
        push_padded(&mut out, total, 15);
        out.push('\n');
        push_separator(&mut out);
        proof {
            reveal_strlit("TOTAL");
            assert(out@ =~= ticket_report(self@, k as int, total@));
        }
        Option::Some(out)
    }
}

/// Inserts `x` into the id-sorted index list `s`.
fn insert_by_id_exec(products: &Vec<Product>, s: Vec<usize>, x: usize) -> (r: Vec<usize>)
    requires
        forall|k: int| 0 <= k < s@.len() ==> (#[trigger] s@[k] as int) < products@.len(),
        (x as int) < products@.len(),
    ensures
        r@ == insert_by_id(products.deep_view(), s@, x),
        forall|k: int| 0 <= k < r@.len() ==> (#[trigger] r@[k] as int) < products@.len(),
    decreases s@.len(),
{
    if s.len() == 0 {
        let r: Vec<usize> = vec![x];
        proof {
            assert(r@ =~= insert_by_id(products.deep_view(), s@, x));
        }
        r
    } else {
        let h = s[0];
        proof {
            assert(products.deep_view()[h as int] == products@[h as int].deep_view());
            assert(products.deep_view()[x as int] == products@[x as int].deep_view());
        }
        if lex_le_exec(products[h].get_id(), products[x].get_id()) {
            let mut ss = s;
            let h2 = ss.remove(0);
            let mut r = insert_by_id_exec(products, ss, x);
            r.insert(0, h2);
            proof {
                assert(r@ =~= insert_by_id(products.deep_view(), s@, x));
            }
            r
        } else {
            let ghost s0 = s@;
            let mut r = s;
            r.insert(0, x);
            proof {
                assert(insert_by_id(products.deep_view(), s0, x) == seq![x] + s0);
                assert(r@ =~= seq![x] + s0);
            }
            r
        }
    }
}

/// Insertion sort of arena indices by product id.
fn isort_exec(products: &Vec<Product>, s: Vec<usize>) -> (r: Vec<usize>)
    requires
        forall|k: int| 0 <= k < s@.len() ==> (#[trigger] s@[k] as int) < products@.len(),
    ensures
        r@ == isort_by_id(products.deep_view(), s@),
        forall|k: int| 0 <= k < r@.len() ==> (#[trigger] r@[k] as int) < products@.len(),
    decreases s@.len(),
{
    if s.len() == 0 {
        s
    } else {
        let ghost s0 = s@;
        let mut ss = s;
        let last = match ss.pop() {
            Option::Some(l) => l,
            Option::None => {
                proof {
                    assert(false);
                }
                0
            },
        };
        proof {
            assert(ss@ =~= s0.drop_last());
            assert(last == s0.last());
        }
        let sorted = isort_exec(products, ss);
        insert_by_id_exec(products, sorted, last)
    }
}

} // verus!
