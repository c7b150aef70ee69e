//! Purchases: named carts of line items, and the purchase-line parser.
//!
//! A purchase line holds up to three space-separated tokens
//! `purchase_id product_id quantity`. A line with fewer than three
//! tokens, or whose quantity token is not an unsigned 32-bit numeral, is
//! discarded; tokens beyond the third are ignored.

use vstd::prelude::*;

use crate::parse::parse_u32_spec;
use crate::parse::parse_u32_token;
use crate::parse::split_exec;
use crate::parse::split_on;

verus! {

/// One cart line item: the arena index of the product it references in
/// the store's product sequence, and the purchased quantity.
#[derive(Clone, Copy, PartialEq, Eq, Structural)]
pub struct ProductPurchase {
    pub product: usize,
    pub quantity: u32,
}

impl ProductPurchase {
    /// The arena index of the referenced product.
    pub fn get_product(&self) -> (r: usize)
        ensures
            r == self.product,
    {
        self.product
    }

    pub fn get_quantity(&self) -> (r: u32)
        ensures
            r == self.quantity,
    {
        self.quantity
    }
}

/// A purchase: an id and the cart of line items appended in the order
/// their lines were processed.
pub struct Purchase {
    id: Vec<char>,
    cart: Vec<ProductPurchase>,
}

/// The mathematical content of a [`Purchase`].
#[verifier::ext_equal]
pub ghost struct PurchaseView {
    pub id: Seq<char>,
    pub cart: Seq<ProductPurchase>,
}

impl View for Purchase {
    type V = PurchaseView;

    closed spec fn view(&self) -> PurchaseView {
        PurchaseView { id: self.id@, cart: self.cart@ }
    }
}

impl DeepView for Purchase {
    type V = PurchaseView;

    open spec fn deep_view(&self) -> PurchaseView {
        self.view()
    }
}

impl Purchase {
    /// A purchase with an empty cart.
    pub fn new(id: Vec<char>) -> (p: Purchase)
        ensures
            p@.id == id@,
            p@.cart == Seq::<ProductPurchase>::empty(),
    {
        let p = Purchase { id, cart: Vec::new() };
        p
    }

    pub fn get_id(&self) -> (r: &Vec<char>)
        ensures
            r@ == self@.id,
    {
        &self.id
    }

    pub fn get_cart(&self) -> (r: &Vec<ProductPurchase>)
        ensures
            r@ == self@.cart,
    {
        &self.cart
    }

    /// Appends a line item to the cart; items therefore stand in the
    /// order their purchase lines were processed.
    pub fn add_product(&mut self, product: usize, quantity: u32)
        ensures
            final(self)@.id == old(self)@.id,
            final(self)@.cart == old(self)@.cart.push(
                ProductPurchase { product, quantity },
            ),
    {
        self.cart.push(ProductPurchase { product, quantity });
    }
}

/// What a purchase line parses to: its first two tokens and the quantity,
/// or nothing when it has fewer than three tokens or a malformed
/// quantity token.
pub open spec fn parse_purchase_line_spec(s: Seq<char>) -> Option<(Seq<char>, Seq<char>, u32)> {
    let toks = split_on(s, ' ');
    if toks.len() < 3 {
        None
    } else {
        match parse_u32_spec(toks[2]) {
            Option::Some(q) => Option::Some((toks[0], toks[1], q)),
            Option::None => Option::None,
        }
    }
}

/// Parses one line of the purchases source into
/// `(purchase_id, product_id, quantity)`.
pub fn read_purchase_line(line: &Vec<char>) -> (r: Option<(Vec<char>, Vec<char>, u32)>)
    ensures
        match parse_purchase_line_spec(line@) {
            Option::Some(t) => {
                &&& r matches Option::Some(e)
                &&& e.0@ == t.0
                &&& e.1@ == t.1
                &&& e.2 == t.2
            },
            Option::None => r is None,
        },
{
    let mut toks = split_exec(line, ' ');
    if toks.len() < 3 {
        return Option::None;
    }
    proof {
        assert(toks.deep_view()[2] == toks@[2]@);
    }
    let q = match parse_u32_token(&toks[2]) {
        Option::Some(q) => q,
        Option::None => {
            return Option::None;
        },
    };
    let product_id = toks.remove(1);
    let purchase_id = toks.remove(0);
    proof {
        assert(purchase_id@ == split_on(line@, ' ')[0]);
        assert(product_id@ == split_on(line@, ' ')[1]);
    }
    Option::Some((purchase_id, product_id, q))
}

} // verus!
